//! Whole numbers as decimal text, the way the configuration table stores them.

use vstd::prelude::*;
use crate::text::chars_of;

verus! {

/// The character for the digit `d`, for `d` below ten.
pub open spec fn digit_char(d: int) -> char {
    (('0' as u8) + d) as char
}

pub open spec fn is_digit(c: char) -> bool {
    '0' <= c && c <= '9'
}

/// The number that the digit `c` stands for.
pub open spec fn digit_value(c: char) -> int {
    (c as int) - ('0' as int)
}

/// The digits of `n`, most significant first, without leading zeros.
pub open spec fn digits_of(n: nat) -> Seq<char>
    decreases n,
{
    if n < 10 {
        seq![digit_char(n as int)]
    } else {
        digits_of(n / 10).push(digit_char((n % 10) as int))
    }
}

/// The decimal text of `i`: its digits, after a minus sign where `i` is negative.
pub open spec fn decimal(i: int) -> Seq<char> {
    if i < 0 {
        seq!['-'] + digits_of((-i) as nat)
    } else {
        digits_of(i as nat)
    }
}

pub open spec fn all_digits(s: Seq<char>) -> bool {
    forall|i: int| 0 <= i < s.len() ==> is_digit(#[trigger] s[i])
}

/// The number that a row of digits stands for; leading zeros are allowed.
pub open spec fn digits_value(s: Seq<char>) -> nat
    decreases s.len(),
{
    if s.len() == 0 {
        0
    } else {
        (digits_value(s.drop_last()) * 10 + digit_value(s.last())) as nat
    }
}

/// The number that `s` stands for: one or more digits, of which a sign may
/// stand in front. Anything else stands for no number.
pub open spec fn parse_decimal(s: Seq<char>) -> Option<int> {
    if s.len() == 0 {
        None
    } else if s[0] == '-' || s[0] == '+' {
        let rest = s.subrange(1, s.len() as int);
        if rest.len() > 0 && all_digits(rest) {
            if s[0] == '-' {
                Some(-(digits_value(rest) as int))
            } else {
                Some(digits_value(rest) as int)
            }
        } else {
            None
        }
    } else if all_digits(s) {
        Some(digits_value(s) as int)
    } else {
        None
    }
}

/// As `parse_decimal`, for a number that must not be written with a minus sign.
pub open spec fn parse_unsigned(s: Seq<char>) -> Option<int> {
    if s.len() > 0 && s[0] == '-' {
        None
    } else {
        parse_decimal(s)
    }
}

/// What reading `s` as a 64-bit signed number gives.
pub open spec fn parse_i64_spec(s: Seq<char>) -> Option<i64> {
    match parse_decimal(s) {
        Some(v) => if i64::MIN <= v <= i64::MAX {
            Some(v as i64)
        } else {
            None
        },
        None => None,
    }
}

/// What reading `s` as a 32-bit signed number gives.
pub open spec fn parse_i32_spec(s: Seq<char>) -> Option<i32> {
    match parse_decimal(s) {
        Some(v) => if i32::MIN <= v <= i32::MAX {
            Some(v as i32)
        } else {
            None
        },
        None => None,
    }
}

/// What reading `s` as a 32-bit unsigned number gives.
pub open spec fn parse_u32_spec(s: Seq<char>) -> Option<u32> {
    match parse_unsigned(s) {
        Some(v) => if 0 <= v <= u32::MAX {
            Some(v as u32)
        } else {
            None
        },
        None => None,
    }
}

/// The digits of a number are digits, and stand for that number.
pub proof fn lemma_digits_of(n: nat)
    ensures
        digits_of(n).len() > 0,
        all_digits(digits_of(n)),
        digits_value(digits_of(n)) == n,
    decreases n,
{
    if n < 10 {
        let s = digits_of(n);
        assert(s.drop_last() =~= Seq::<char>::empty());
        assert(digits_value(s.drop_last()) == 0);
        assert(s.last() == digit_char(n as int));
    } else {
        lemma_digits_of(n / 10);
        let p = digits_of(n / 10);
        let s = digits_of(n);
        assert(s == p.push(digit_char((n % 10) as int)));
        assert(s.drop_last() =~= p);
        assert(s.last() == digit_char((n % 10) as int));
        assert forall|i: int| 0 <= i < s.len() implies is_digit(#[trigger] s[i]) by {
            if i < p.len() {
                assert(s[i] == p[i]);
            }
        }
    }
}

/// Reading the decimal text of a number gives that number back.
pub proof fn lemma_parse_decimal_of_decimal(i: int)
    ensures
        parse_decimal(decimal(i)) == Some(i),
        i >= 0 ==> parse_unsigned(decimal(i)) == Some(i),
{
    if i < 0 {
        let n = (-i) as nat;
        lemma_digits_of(n);
        let s = decimal(i);
        assert(s.subrange(1, s.len() as int) =~= digits_of(n));
    } else {
        lemma_digits_of(i as nat);
        let s = digits_of(i as nat);
        assert(is_digit(s[0]));
    }
}

/// A longer row of digits stands for no smaller number than its beginning.
pub proof fn lemma_digits_value_grows(s: Seq<char>, k: int)
    requires
        all_digits(s),
        0 <= k <= s.len(),
    ensures
        digits_value(s.subrange(0, k)) <= digits_value(s),
    decreases s.len() - k,
{
    if k == s.len() {
        assert(s.subrange(0, k) =~= s);
    } else {
        lemma_digits_value_grows(s, k + 1);
        let t = s.subrange(0, k + 1);
        assert(t.drop_last() =~= s.subrange(0, k));
        assert(t.last() == s[k]);
        assert(is_digit(s[k]));
    }
}

fn digit_str(d: u64) -> (r: &'static str)
    requires
        d < 10,
    ensures
        r@ == seq![digit_char(d as int)],
{
    proof {
        reveal_strlit("0");
        reveal_strlit("1");
        reveal_strlit("2");
        reveal_strlit("3");
        reveal_strlit("4");
        reveal_strlit("5");
        reveal_strlit("6");
        reveal_strlit("7");
        reveal_strlit("8");
        reveal_strlit("9");
    }
    let r = if d == 0 {
        "0"
    } else if d == 1 {
        "1"
    } else if d == 2 {
        "2"
    } else if d == 3 {
        "3"
    } else if d == 4 {
        "4"
    } else if d == 5 {
        "5"
    } else if d == 6 {
        "6"
    } else if d == 7 {
        "7"
    } else if d == 8 {
        "8"
    } else {
        "9"
    };
    assert(r@ =~= seq![digit_char(d as int)]);
    r
}

fn format_nat(n: u64) -> (r: String)
    ensures
        r@ == digits_of(n as nat),
    decreases n,
{
    if n < 10 {
        digit_str(n).to_owned()
    } else {
        let head = format_nat(n / 10);
        let r = head.concat(digit_str(n % 10));
        assert(r@ =~= digits_of((n / 10) as nat).push(digit_char((n % 10) as int)));
        r
    }
}

/// The decimal text of `v`.
pub fn format_i64(v: i64) -> (r: String)
    ensures
        r@ == decimal(v as int),
{
    if v < 0 {
        let m: u64 = (-(v as i128)) as u64;
        let digits = format_nat(m);
        proof {
            reveal_strlit("-");
        }
        let r = "-".to_owned().concat(digits.as_str());
        assert(r@ =~= seq!['-'] + digits_of((-(v as int)) as nat));
        r
    } else {
        format_nat(v as u64)
    }
}

/// The decimal text of `v`.
pub fn format_i32(v: i32) -> (r: String)
    ensures
        r@ == decimal(v as int),
{
    format_i64(v as i64)
}

/// The decimal text of `v`.
pub fn format_u32(v: u32) -> (r: String)
    ensures
        r@ == decimal(v as int),
{
    format_i64(v as i64)
}

/// Reads the digits `v[from..]`. Gives their value where it is at most
/// `limit`, and `None` where a character is no digit or the value is larger.
fn parse_digits(v: &Vec<char>, from: usize, limit: u64) -> (r: Option<u64>)
    requires
        from <= v.len(),
    ensures
        r is Some <==> all_digits(v@.subrange(from as int, v.len() as int)) && digits_value(
            v@.subrange(from as int, v.len() as int),
        ) <= limit,
        r is Some ==> r->0 == digits_value(v@.subrange(from as int, v.len() as int)),
{
    let ghost s = v@.subrange(from as int, v.len() as int);
    let mut acc: u128 = 0;
    let mut i: usize = from;
    assert(s.subrange(0, 0) =~= Seq::<char>::empty());
    while i < v.len()
        invariant
            from <= i <= v.len(),
            s == v@.subrange(from as int, v.len() as int),
            acc <= limit,
            all_digits(s.subrange(0, i - from)),
            acc == digits_value(s.subrange(0, i - from)),
        decreases v.len() - i,
    {
        let c = v[i];
        if !('0' <= c && c <= '9') {
            assert(!is_digit(s[i - from]));
            return None;
        }
        let d: u128 = ((c as u8) - ('0' as u8)) as u128;
        let next: u128 = acc * 10 + d;
        proof {
            let t = s.subrange(0, i - from + 1);
            assert(t.drop_last() =~= s.subrange(0, i - from));
            assert(t.last() == c);
            assert(digits_value(t) == next);
            assert forall|j: int| 0 <= j < t.len() implies is_digit(#[trigger] t[j]) by {
                if j < t.len() - 1 {
                    assert(t[j] == s.subrange(0, i - from)[j]);
                }
            }
        }
        if next > limit as u128 {
            proof {
                if all_digits(s) {
                    lemma_digits_value_grows(s, i - from + 1);
                }
            }
            return None;
        }
        acc = next;
        i += 1;
    }
    assert(s.subrange(0, i - from) =~= s);
    Some(acc as u64)
}

/// Reads `s` as a 64-bit signed number.
pub fn parse_i64(s: &str) -> (r: Option<i64>)
    ensures
        r == parse_i64_spec(s@),
{
    let v = chars_of(s);
    if v.len() == 0 {
        return None;
    }
    let first = v[0];
    if first == '-' || first == '+' {
        if v.len() == 1 {
            assert(s@.subrange(1, s@.len() as int).len() == 0);
            return None;
        }
        if first == '-' {
            match parse_digits(&v, 1, 0x8000_0000_0000_0000u64) {
                Some(m) => {
                    if m == 0x8000_0000_0000_0000u64 {
                        Some(i64::MIN)
                    } else {
                        Some(-(m as i64))
                    }
                },
                None => None,
            }
        } else {
            match parse_digits(&v, 1, 0x7fff_ffff_ffff_ffffu64) {
                Some(m) => Some(m as i64),
                None => None,
            }
        }
    } else {
        assert(v@.subrange(0, v.len() as int) =~= s@);
        match parse_digits(&v, 0, 0x7fff_ffff_ffff_ffffu64) {
            Some(m) => Some(m as i64),
            None => None,
        }
    }
}

/// Reads `s` as a 32-bit signed number.
pub fn parse_i32(s: &str) -> (r: Option<i32>)
    ensures
        r == parse_i32_spec(s@),
{
    let v = chars_of(s);
    if v.len() == 0 {
        return None;
    }
    let first = v[0];
    if first == '-' || first == '+' {
        if v.len() == 1 {
            assert(s@.subrange(1, s@.len() as int).len() == 0);
            return None;
        }
        if first == '-' {
            match parse_digits(&v, 1, 0x8000_0000u64) {
                Some(m) => Some((-(m as i64)) as i32),
                None => None,
            }
        } else {
            match parse_digits(&v, 1, 0x7fff_ffffu64) {
                Some(m) => Some(m as i32),
                None => None,
            }
        }
    } else {
        assert(v@.subrange(0, v.len() as int) =~= s@);
        match parse_digits(&v, 0, 0x7fff_ffffu64) {
            Some(m) => Some(m as i32),
            None => None,
        }
    }
}

/// Reads `s` as a 32-bit unsigned number.
pub fn parse_u32(s: &str) -> (r: Option<u32>)
    ensures
        r == parse_u32_spec(s@),
{
    let v = chars_of(s);
    if v.len() == 0 {
        return None;
    }
    let first = v[0];
    if first == '-' {
        None
    } else if first == '+' {
        if v.len() == 1 {
            assert(s@.subrange(1, s@.len() as int).len() == 0);
            return None;
        }
        match parse_digits(&v, 1, 0xffff_ffffu64) {
            Some(m) => Some(m as u32),
            None => None,
        }
    } else {
        assert(v@.subrange(0, v.len() as int) =~= s@);
        match parse_digits(&v, 0, 0xffff_ffffu64) {
            Some(m) => Some(m as u32),
            None => None,
        }
    }
}

} // verus!
