use zeropass::text::{
    chars_of, comes_before, contains, is_blank, is_white_space, join, number_text, parse_u64, split,
    text_of, text_of_range, trim,
};
use zeropass::totp::{
    code_of_tag, is_secret_acceptable, totp_at, totp_base32_decode, totp_now, totp_on,
    TOTP_PERIOD,
};

#[test]
fn white_space_agrees_with_std() {
    for n in 0..=0x10FFFFu32 {
        if let Some(c) = char::from_u32(n) {
            assert_eq!(is_white_space(c), c.is_whitespace(), "{:x}", n);
        }
    }
}

#[test]
fn trimming() {
    assert_eq!(trim("  a b \t\n"), "a b");
    assert_eq!(trim("\u{3000}x\u{a0}"), "x");
    assert_eq!(trim(" \r\n "), "");
    assert_eq!(trim(&trim("  q ")), trim("  q "));
    assert!(is_blank(" \t"));
    assert!(!is_blank(" . "));
}

#[test]
fn characters_and_ranges() {
    let v = chars_of("añ…z");
    assert_eq!(v.len(), 4);
    assert_eq!(text_of(&v), "añ…z");
    assert_eq!(text_of_range(&v, 1, 3), "ñ…");
    assert_eq!(text_of_range(&v, 2, 2), "");
}

#[test]
fn searching_text() {
    assert!(contains("password", "word"));
    assert!(contains("password", ""));
    assert!(!contains("pass", "password"));
    assert!(contains("aab", "ab"));
    assert!(!contains("abc", "ac"));
}

#[test]
fn order_of_texts() {
    assert!(comes_before("beta.1", "beta.2"));
    assert!(comes_before("beta", "beta.1"));
    assert!(!comes_before("beta", "beta"));
    assert!(!comes_before("b", "a"));
    assert!(comes_before("Z", "a"));
    for (a, b) in [("a", "é"), ("z", "\u{10000}"), ("\u{ffff}", "\u{10000}"), ("", "x")] {
        assert_eq!(comes_before(a, b), a < b);
        assert_eq!(comes_before(b, a), b < a);
    }
}

#[test]
fn splitting_and_joining() {
    assert_eq!(split("1.22.3", '.'), vec!["1", "22", "3"]);
    assert_eq!(split("", ','), vec![""]);
    assert_eq!(split(",a,", ','), vec!["", "a", ""]);
    let parts = vec!["x".to_string(), "y".to_string(), "z".to_string()];
    assert_eq!(join(&parts, ", "), "x, y, z");
    assert_eq!(join(&Vec::new(), ", "), "");
}

#[test]
fn decimal_numbers() {
    assert_eq!(number_text(0), "0");
    assert_eq!(number_text(1024), "1024");
    assert_eq!(number_text(u64::MAX), "18446744073709551615");
    for s in ["", "+", "-1", "+7", "007", "18446744073709551615", "18446744073709551616", "1x", "٣"] {
        assert_eq!(parse_u64(s), s.parse::<u64>().ok(), "{}", s);
    }
}

#[test]
fn base32_known_values() {
    assert_eq!(totp_base32_decode("MZXW6YTBOI======").unwrap(), b"foobar".to_vec());
    assert_eq!(totp_base32_decode("MZXW6YTB").unwrap(), b"fooba".to_vec());
    assert_eq!(totp_base32_decode("").unwrap(), Vec::<u8>::new());
    assert_eq!(totp_base32_decode("A").unwrap(), Vec::<u8>::new());
    assert_eq!(totp_base32_decode("77777777").unwrap(), vec![0xff; 5]);
}

#[test]
fn base32_accepts_what_people_type() {
    let plain = totp_base32_decode("JBSWY3DPEHPK3PXP").unwrap();
    assert_eq!(totp_base32_decode("  jbsw y3dp-ehpk 3pxp ").unwrap(), plain);
    assert_eq!(plain, vec![b'H', b'e', b'l', b'l', b'o', b'!', 0xde, 0xad, 0xbe, 0xef]);
}

#[test]
fn base32_refuses_other_characters() {
    for s in ["0", "1", "8", "9", "AB!", "é", "A\tB"] {
        assert!(totp_base32_decode(s).is_none(), "{}", s);
    }
}

#[test]
fn codes_of_the_standard() {
    // The published test vectors for SHA-1, cut to six digits.
    let secret = "GEZDGNBVGY3TQOJQGEZDGNBVGY3TQOJQ";
    for (secs, code) in [
        (59u64, "287082"),
        (1111111109, "081804"),
        (1111111111, "050471"),
        (1234567890, "005924"),
        (2000000000, "279037"),
        (20000000000, "353130"),
    ] {
        let (got, remaining) = totp_at(secret, secs).unwrap();
        assert_eq!(got, code);
        assert_eq!(remaining, TOTP_PERIOD - secs % TOTP_PERIOD);
    }
}

#[test]
fn codes_hold_for_a_window() {
    let secret = "JBSWY3DPEHPK3PXP";
    let a = totp_at(secret, 1_700_000_010).unwrap();
    let b = totp_at(secret, 1_700_000_039).unwrap();
    let c = totp_at(secret, 1_700_000_040).unwrap();
    assert_eq!(a.0, b.0);
    assert_ne!(b.0, c.0);
    assert_eq!(a.1, 30);
    assert_eq!(b.1, 1);
    assert_eq!(c.1, 30);
}

#[test]
fn code_of_a_known_tag() {
    // The example of the HOTP standard.
    let tag: Vec<u8> = vec![
        0x1f, 0x86, 0x98, 0x69, 0x0e, 0x02, 0xca, 0x16, 0x61, 0x85, 0x50, 0xef, 0x7f, 0x19, 0xda,
        0x8e, 0x94, 0x5b, 0x55, 0x5a,
    ];
    assert_eq!(code_of_tag(&tag), "872921");
}

#[test]
fn invalid_secret_has_no_code() {
    assert!(totp_at("not base32!", 0).is_none());
    assert!(totp_now("not base32!").is_none());
    assert!(is_secret_acceptable(""));
    assert!(is_secret_acceptable("JBSWY3DP"));
    assert!(!is_secret_acceptable("JBSWY3D0"));
}

#[test]
fn present_code_is_a_code() {
    let (code, remaining) = totp_now("JBSWY3DPEHPK3PXP").unwrap();
    assert_eq!(code.len(), 6);
    assert!(code.chars().all(|c| c.is_ascii_digit()));
    assert!(1 <= remaining && remaining <= 30);
}

#[test]
fn base32_undoes_its_encoding_however_it_is_written() {
    let texts: [(&[u8], &str); 6] = [
        (b"", ""),
        (b"f", "MY======"),
        (b"fo", "MZXQ===="),
        (b"foo", "MZXW6==="),
        (b"foob", "MZXW6YQ="),
        (b"fooba", "MZXW6YTB"),
    ];
    for (bytes, text) in texts {
        let bare = text.replace('=', "");
        let small = text.to_lowercase();
        let spread: String = bare.chars().map(|c| format!("{} -", c)).collect();
        for way in [text.to_string(), bare, small, spread] {
            let around = format!("\u{2003}\t{}\n ", way);
            assert_eq!(totp_base32_decode(&way).unwrap(), bytes.to_vec());
            assert_eq!(totp_base32_decode(&around).unwrap(), bytes.to_vec());
        }
    }
}

#[test]
fn codes_follow_the_reading_of_the_clock() {
    let secret = "GEZDGNBVGY3TQOJQGEZDGNBVGY3TQOJQ";
    assert_eq!(totp_on(secret, Some(59)), Some(("287082".to_string(), 1)));
    assert_eq!(totp_on(secret, None), None);
    assert_eq!(totp_on("not base32!", Some(59)), None);
}
