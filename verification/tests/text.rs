use mail_autoconfig::address::{strip_domain, urlencode, EmailAddress};
use mail_autoconfig::decimal::{
    format_i32, format_i64, format_u32, parse_i32, parse_i64, parse_u32,
};
use mail_autoconfig::provider::{
    get_provider_by_domain, get_provider_info, Socket, Status, UsernamePattern,
};
use mail_autoconfig::text::{
    chars_of, join, join3, ends_with, eq_ignore_ascii_case, find_char, rfind_char,
    starts_with, str_eq, substring, to_ascii_lower,
};

#[test]
fn numbers_are_written_as_std_writes_them() {
    for v in [0i64, 1, 9, 10, 11, 99, 100, 12345, -1, -10, i64::MAX, i64::MIN, 4294967296] {
        assert_eq!(format_i64(v), format!("{}", v));
        assert_eq!(parse_i64(&format!("{}", v)), Some(v));
    }
    for v in [0i32, 7, -7, 143, 993, i32::MAX, i32::MIN] {
        assert_eq!(format_i32(v), v.to_string());
        assert_eq!(parse_i32(&v.to_string()), Some(v));
    }
    for v in [0u32, 1, 4294967295] {
        assert_eq!(format_u32(v), v.to_string());
        assert_eq!(parse_u32(&v.to_string()), Some(v));
    }
}

#[test]
fn numbers_are_read_as_std_reads_them() {
    for s in [
        "", "+", "-", "0", "-0", "+0", "007", "+5", "-5", " 5", "5 ", "5a", "a5", "--5", "+-5",
        "2147483647", "2147483648", "-2147483648", "-2147483649", "4294967295", "4294967296",
        "9223372036854775807", "9223372036854775808", "-9223372036854775808",
        "-9223372036854775809", "000000000000000000000000000000012", "99999999999999999999999",
        "١٢٣", "1.5", "1e3", "0x10",
    ] {
        assert_eq!(parse_i32(s), s.parse::<i32>().ok(), "i32 of {:?}", s);
        assert_eq!(parse_i64(s), s.parse::<i64>().ok(), "i64 of {:?}", s);
        assert_eq!(parse_u32(s), s.parse::<u32>().ok(), "u32 of {:?}", s);
    }
}

#[test]
fn text_helpers() {
    assert_eq!(chars_of("aé€"), vec!['a', 'é', '€']);
    assert!(str_eq("abc", "abc"));
    assert!(!str_eq("abc", "abd"));
    assert_eq!(substring("héllo", 1, 3), "él");
    assert_eq!(substring("abc", 3, 3), "");
    assert_eq!(join("ab", "cd"), "abcd");
    assert_eq!(join3("a", "", "c"), "ac");
    assert!(starts_with("imap.example.org", "imap."));
    assert!(!starts_with("imap", "imap."));
    assert!(starts_with("x", ""));
    assert!(!starts_with("smtp.example.org", "imap."));
    assert!(ends_with("a.waveform", ".waveform"));
    assert!(!ends_with("a.waveformx", ".waveform"));
    assert!(ends_with("x", ""));
    assert_eq!(find_char("a@b@c", '@'), Some(1));
    assert_eq!(rfind_char("a@b@c", '@'), Some(3));
    assert_eq!(find_char("abc", '@'), None);
    assert_eq!(rfind_char("", '@'), None);
    assert_eq!(find_char("é@", '@'), Some(1));
    assert_eq!(to_ascii_lower('A'), 'a');
    assert_eq!(to_ascii_lower('Z'), 'z');
    assert_eq!(to_ascii_lower('a'), 'a');
    assert_eq!(to_ascii_lower('['), '[');
    assert_eq!(to_ascii_lower('@'), '@');
    assert_eq!(to_ascii_lower('Ä'), 'Ä');
    assert!(eq_ignore_ascii_case("Sent Objects", "sENT oBJECTS"));
    assert!(!eq_ignore_ascii_case("Sent", "Sen"));
    assert!(!eq_ignore_ascii_case("ä", "Ä"));
}

#[test]
fn addresses_are_taken_apart() {
    let a = EmailAddress::parse("user@example.org").unwrap();
    assert_eq!(a.local, "user");
    assert_eq!(a.domain, "example.org");
    let a = EmailAddress::parse("a@b@x.com").unwrap();
    assert_eq!(a.local, "a@b");
    assert_eq!(a.domain, "x.com");
    for bad in ["", "user", "@example.org", "user@", "user@a.b", "user@abcd", "user@abc.", "user@ab.c"] {
        assert!(EmailAddress::parse(bad).is_none(), "{:?}", bad);
    }
    assert!(EmailAddress::parse("user@a.bc").is_some());
    assert!(EmailAddress::parse("user@.abc").is_some());
    assert_eq!(strip_domain("a@x.com"), "a");
    assert_eq!(strip_domain("a@b@x.com"), "a");
    assert_eq!(strip_domain("plain"), "plain");
    assert_eq!(strip_domain("@x"), "");
}

#[test]
fn address_in_a_url() {
    assert_eq!(urlencode("user@example.org"), "user%40example%2Eorg");
    assert_eq!(urlencode("AZaz09"), "AZaz09");
    assert_eq!(urlencode("a b+c_d-e~f"), "a%20b%2Bc%5Fd%2De%7Ef");
    assert_eq!(urlencode("ü@x"), "%C3%BC%40x");
    assert_eq!(urlencode("€"), "%E2%82%AC");
    assert_eq!(urlencode(""), "");
    assert_eq!(urlencode("\u{0}\u{7f}/"), "%00%7F%2F");
}

#[test]
fn providers() {
    let p = get_provider_info("someone@nauta.cu").unwrap();
    assert_eq!(p.status, Status::OK);
    assert_eq!(p.get_imap_server().unwrap().hostname, "imap.nauta.cu");
    assert_eq!(p.get_imap_server().unwrap().port, 143);
    assert_eq!(p.get_imap_server().unwrap().socket, Socket::STARTTLS);
    assert_eq!(p.get_smtp_server().unwrap().hostname, "smtp.nauta.cu");
    assert_eq!(p.get_smtp_server().unwrap().port, 25);
    assert_eq!(p.username_pattern, UsernamePattern::EMAIL);
    assert_eq!(p.apply_username_pattern("someone@nauta.cu"), "someone@nauta.cu");
    assert!(get_provider_info("someone@example.org").is_none());
    assert!(get_provider_info("nauta.cu").is_none());
    assert!(get_provider_by_domain("NAUTA.CU").is_some());
    assert!(get_provider_by_domain("nauta.cu.").is_none());
    let p = get_provider_by_domain("example.com").unwrap();
    assert_eq!(p.status, Status::BROKEN);
    assert_eq!(p.apply_username_pattern("me@example.com"), "me");
    assert_eq!(p.apply_username_pattern("me"), "me");
    assert!(!p.after_login_hint.is_empty());
    let p = get_provider_by_domain("googlemail.com").unwrap();
    assert_eq!(p.status, Status::PREPARATION);
    assert_eq!(p.get_smtp_server().unwrap().socket, Socket::SSL);
    let p = get_provider_by_domain("posteo.de").unwrap();
    assert!(p.get_imap_server().is_none());
    let p = get_provider_by_domain("hotmail.com").unwrap();
    assert_eq!(p.status, Status::BROKEN);
    assert!(p.get_smtp_server().is_none());
}

#[test]
fn every_ascii_character_in_a_url() {
    for code in 0u8..128 {
        let c = code as char;
        let expected = if c.is_ascii_alphanumeric() {
            c.to_string()
        } else {
            format!("%{:02X}", code)
        };
        assert_eq!(urlencode(&c.to_string()), expected, "character {}", code);
    }
    for c in ['\u{80}', 'ß', '\u{7ff}', '\u{800}', '€', '\u{ffff}', '\u{10000}', '\u{10ffff}'] {
        let mut buffer = [0u8; 4];
        let expected: String =
            c.encode_utf8(&mut buffer).bytes().map(|b| format!("%{:02X}", b)).collect();
        assert_eq!(urlencode(&c.to_string()), expected);
    }
}

#[test]
fn small_letters_as_std_makes_them() {
    for code in 0u32..0x300 {
        let c = char::from_u32(code).unwrap();
        assert_eq!(to_ascii_lower(c), c.to_ascii_lowercase());
    }
    let words = ["", "Sent", "SENT", "sent", "sEnT objects", "Gesendet", "ſent", "\u{212a}", "k", "K"];
    for a in words {
        for b in words {
            assert_eq!(eq_ignore_ascii_case(a, b), a.eq_ignore_ascii_case(b), "{:?} {:?}", a, b);
        }
    }
}

#[test]
fn searching_as_std_searches() {
    let texts = ["", "a", "@", "a@b", "a@b@c", "@@", "é@ü", "imap.example.org", "$BLOBDIR/x"];
    let parts = ["", "a", "@", "imap.", "$BLOBDIR", "org", "x", "é"];
    for t in texts {
        let chars: Vec<char> = t.chars().collect();
        assert_eq!(chars_of(t), chars);
        assert_eq!(find_char(t, '@'), chars.iter().position(|c| *c == '@'));
        assert_eq!(rfind_char(t, '@'), chars.iter().rposition(|c| *c == '@'));
        for p in parts {
            assert_eq!(starts_with(t, p), t.starts_with(p), "{:?} {:?}", t, p);
            assert_eq!(ends_with(t, p), t.ends_with(p), "{:?} {:?}", t, p);
            assert_eq!(str_eq(t, p), t == p);
        }
        for from in 0..=chars.len() {
            for to in from..=chars.len() {
                let expected: String = chars[from..to].iter().collect();
                assert_eq!(substring(t, from, to), expected);
            }
        }
    }
}

#[test]
fn many_numbers_there_and_back() {
    let mut v: i64 = -1000;
    while v <= 1000 {
        assert_eq!(format_i64(v), v.to_string());
        assert_eq!(parse_i64(&v.to_string()), Some(v));
        assert_eq!(parse_i32(&v.to_string()), Some(v as i32));
        assert_eq!(parse_u32(&v.to_string()), if v >= 0 { Some(v as u32) } else { None });
        v += 1;
    }
    let mut p: i64 = 1;
    for _ in 0..18 {
        for d in [-1i64, 0, 1] {
            let x = p * 10 + d;
            assert_eq!(format_i64(x), x.to_string());
            assert_eq!(format_i64(-x), (-x).to_string());
            assert_eq!(parse_i64(&x.to_string()), Some(x));
            assert_eq!(parse_i32(&x.to_string()), x.to_string().parse::<i32>().ok());
            assert_eq!(parse_u32(&x.to_string()), x.to_string().parse::<u32>().ok());
        }
        p *= 10;
    }
}
