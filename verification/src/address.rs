//! Mail addresses: their two parts, and their form inside a URL.

use vstd::prelude::*;
use vstd::utf8::encode_utf8;
use crate::text::{find_char, first_index_of, last_index_of, rfind_char, substring};

verus! {

/// A mail address taken apart at its last `@`.
#[derive(Debug)]
pub struct EmailAddress {
    pub local: String,
    pub domain: String,
}

/// Whether `domain` can be the domain of a mail address: more than three
/// characters, with a dot that at least two characters follow.
pub open spec fn domain_ok(domain: Seq<char>) -> bool {
    let dot = first_index_of(domain, '.');
    domain.len() > 3 && 0 <= dot < domain.len() - 2
}

/// The local part and the domain of the address `s`, where it is one: the
/// text before its last `@`, which is not empty, and the text after it,
/// which can be a domain.
pub open spec fn address_parts(s: Seq<char>) -> Option<(Seq<char>, Seq<char>)> {
    let at = last_index_of(s, '@');
    if at < 0 {
        None
    } else {
        let local = s.subrange(0, at);
        let domain = s.subrange(at + 1, s.len() as int);
        if local.len() > 0 && domain_ok(domain) {
            Some((local, domain))
        } else {
            None
        }
    }
}

/// The text before the first `@` of `s`; all of `s` where it has none.
pub open spec fn before_at(s: Seq<char>) -> Seq<char> {
    let at = first_index_of(s, '@');
    if at < 0 {
        s
    } else {
        s.subrange(0, at)
    }
}

impl EmailAddress {
    /// Takes an address apart. `None` where `addr` is no address.
    pub fn parse(addr: &str) -> (r: Option<EmailAddress>)
        ensures
            r is Some <==> address_parts(addr@) is Some,
            r is Some ==> (r->0.local@, r->0.domain@) == address_parts(addr@)->0,
    {
        let at = match rfind_char(addr, '@') {
            Some(at) => at,
            None => {
                return None;
            },
        };
        let n = addr.unicode_len();
        let local = substring(addr, 0, at);
        let domain = substring(addr, at + 1, n);
        if at == 0 {
            return None;
        }
        let m = n - at - 1;
        if m <= 3 {
            return None;
        }
        match find_char(domain.as_str(), '.') {
            Some(dot) => {
                if dot < m - 2 {
                    Some(EmailAddress { local, domain })
                } else {
                    None
                }
            },
            None => None,
        }
    }
}

/// The text of `s` before its first `@`; all of `s` where it has none.
pub fn strip_domain(s: &str) -> (r: String)
    ensures
        r@ == before_at(s@),
{
    match find_char(s, '@') {
        Some(at) => substring(s, 0, at),
        None => s.to_owned(),
    }
}

/// Whether the byte is an ASCII letter or digit.
pub open spec fn is_ascii_alphanumeric(b: u8) -> bool {
    (0x30 <= b <= 0x39) || (0x41 <= b <= 0x5a) || (0x61 <= b <= 0x7a)
}

/// The character for the hexadecimal digit `n`, in upper case.
pub open spec fn hex_digit(n: int) -> char {
    if n < 10 {
        (('0' as u8) + n) as char
    } else {
        (('A' as u8) + n - 10) as char
    }
}

/// One byte inside a URL: a letter or a digit as it is, any other byte as a
/// percent sign and its two hexadecimal digits.
pub open spec fn encoded_byte(b: u8) -> Seq<char> {
    if is_ascii_alphanumeric(b) {
        seq![b as char]
    } else {
        seq!['%', hex_digit(b as int / 16), hex_digit(b as int % 16)]
    }
}

/// The bytes inside a URL: each byte encoded, in a row.
pub open spec fn percent_encoded(bytes: Seq<u8>) -> Seq<char>
    decreases bytes.len(),
{
    if bytes.len() == 0 {
        Seq::empty()
    } else {
        encoded_byte(bytes[0]) + percent_encoded(bytes.drop_first())
    }
}

/// Calls `percent_encoding::utf8_percent_encode` with the set
/// `NON_ALPHANUMERIC` and collects what it yields. Not proved: that the
/// result holds, for each byte of the UTF-8 form of `s`, the byte itself
/// where it is an ASCII letter or digit, and else `%` with the byte's two
/// upper-case hexadecimal digits.
#[verifier::external_body]
fn utf8_percent_encode(s: &str) -> (r: String)
    ensures
        r@ == percent_encoded(encode_utf8(s@)),
{
    percent_encoding::utf8_percent_encode(s, percent_encoding::NON_ALPHANUMERIC).to_string()
}

/// The address in the form in which it can stand in the query of a URL.
pub fn urlencode(addr: &str) -> (r: String)
    ensures
        r@ == percent_encoded(encode_utf8(addr@)),
{
    utf8_percent_encode(addr)
}

} // verus!
