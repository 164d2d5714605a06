use totp_sos::codec::parse_decimal;
use totp_sos::{Algorithm, Error, TOTP};

fn sample(algorithm: Algorithm, digits: usize, skew: u8, step: u64) -> TOTP {
    TOTP::new(
        algorithm,
        digits,
        skew,
        step,
        "TestSecretSuperSecret".as_bytes().to_vec(),
        "mock@example.com".to_string(),
        None,
    )
    .unwrap()
}

#[test]
fn new_rejects_digits_out_of_range() {
    for digits in [0usize, 5, 9, 100] {
        let r = TOTP::new(
            Algorithm::SHA1,
            digits,
            1,
            30,
            "TestSecretSuperSecret".as_bytes().to_vec(),
            "a".to_string(),
            None,
        );
        assert!(matches!(r, Err(Error::InvalidDigits(d)) if d == digits));
    }
}

#[test]
fn new_accepts_each_digit_count() {
    for digits in 6..=8usize {
        let t = sample(Algorithm::SHA1, digits, 1, 30);
        assert_eq!(t.digits, digits);
        assert_eq!(t.generate(1234).len(), digits);
    }
}

#[test]
fn new_rejects_short_secret_with_bit_count() {
    let r = TOTP::new(Algorithm::SHA1, 6, 1, 30, vec![7u8; 15], "a".to_string(), None);
    assert!(matches!(r, Err(Error::SecretTooSmall(120))));
    let ok = TOTP::new(Algorithm::SHA1, 6, 1, 30, vec![7u8; 16], "a".to_string(), None);
    assert!(ok.is_ok());
}

#[test]
fn new_checks_digits_before_secret() {
    let r = TOTP::new(Algorithm::SHA1, 9, 1, 30, vec![], "a:b".to_string(), None);
    assert!(matches!(r, Err(Error::InvalidDigits(9))));
}

#[test]
fn new_keeps_fields_unchanged() {
    let t = TOTP::new(
        Algorithm::SHA256,
        7,
        3,
        45,
        vec![1u8; 20],
        "user name".to_string(),
        Some("Acme Inc".to_string()),
    )
    .unwrap();
    assert_eq!(t.algorithm, Algorithm::SHA256);
    assert_eq!(t.digits, 7);
    assert_eq!(t.skew, 3);
    assert_eq!(t.step, 45);
    assert_eq!(t.secret, vec![1u8; 20]);
    assert_eq!(t.account_name, "user name");
    assert_eq!(t.issuer.as_deref(), Some("Acme Inc"));
}

#[test]
fn generate_vectors_for_each_algorithm() {
    assert_eq!(sample(Algorithm::SHA1, 6, 1, 1).generate(1000), "659761");
    assert_eq!(sample(Algorithm::SHA256, 6, 1, 1).generate(1000), "076417");
    assert_eq!(sample(Algorithm::SHA512, 6, 1, 1).generate(1000), "473536");
}

#[test]
fn generate_matches_rfc6238_vectors() {
    let sha1 = TOTP::new(Algorithm::SHA1, 8, 0, 30, b"12345678901234567890".to_vec(), String::new(), None)
        .unwrap();
    assert_eq!(sha1.generate(59), "94287082");
    assert_eq!(sha1.generate(1111111109), "07081804");
    let sha256 = TOTP::new(
        Algorithm::SHA256,
        8,
        0,
        30,
        b"12345678901234567890123456789012".to_vec(),
        String::new(),
        None,
    )
    .unwrap();
    assert_eq!(sha256.generate(59), "46119246");
    let sha512 = TOTP::new(
        Algorithm::SHA512,
        8,
        0,
        30,
        b"1234567890123456789012345678901234567890123456789012345678901234".to_vec(),
        String::new(),
        None,
    )
    .unwrap();
    assert_eq!(sha512.generate(59), "90693936");
}

#[test]
fn generate_is_constant_within_a_step() {
    let t = sample(Algorithm::SHA1, 6, 1, 30);
    assert_eq!(t.generate(30), t.generate(59));
    assert_eq!(t.generate(1000), t.clone().generate(1000));
}

#[test]
fn sign_lengths_follow_the_algorithm() {
    assert_eq!(sample(Algorithm::SHA1, 6, 1, 30).sign(0).len(), 20);
    assert_eq!(sample(Algorithm::SHA256, 6, 1, 30).sign(0).len(), 32);
    assert_eq!(sample(Algorithm::SHA512, 6, 1, 30).sign(0).len(), 64);
}

#[test]
fn check_rejects_outside_window() {
    let t = sample(Algorithm::SHA1, 6, 1, 1);
    let far = t.generate(1010);
    assert!(!t.check(&far, 1000) || far == t.generate(999) || far == t.generate(1000) || far == t.generate(1001));
    assert!(!t.check("bogus", 1000));
    assert!(!t.check("", 1000));
}

#[test]
fn check_with_zero_skew_is_exact() {
    let t = sample(Algorithm::SHA1, 6, 0, 1);
    assert!(t.check("659761", 1000));
    assert!(!t.check("174269", 1000) || t.generate(1000) == "174269");
}

#[test]
fn check_near_the_epoch() {
    let t = sample(Algorithm::SHA1, 6, 1, 30);
    let first = t.generate(0);
    assert!(t.check(&first, 0));
    assert!(t.check(&t.generate(30), 0));
}

#[test]
fn ttl_at_and_next_step() {
    let t = sample(Algorithm::SHA1, 6, 1, 30);
    assert_eq!(t.ttl_at(0), 30);
    assert_eq!(t.ttl_at(29), 1);
    assert_eq!(t.ttl_at(31), 29);
    for now in [0u64, 1, 29, 30, 59, 12345] {
        assert_eq!(t.ttl_at(now) + now % 30, 30);
        let n = t.next_step(now);
        assert!(n > now && n % 30 == 0 && n - now <= 30);
    }
}

#[test]
fn current_variants_agree_with_the_clock() {
    let t = sample(Algorithm::SHA1, 6, 1, 30);
    let ttl = t.ttl().unwrap();
    assert!(ttl >= 1 && ttl <= 30);
    let next = t.next_step_current().unwrap();
    assert_eq!(next % 30, 0);
    let code = t.generate_current().unwrap();
    assert!(t.check_current(&code).unwrap());
}

#[test]
fn base32_decodes_the_test_secret() {
    let t = TOTP::from_secret_base32("KRSXG5CTMVRXEZLUKN2XAZLSKNSWG4TFOQ").unwrap();
    assert_eq!(t.secret, "TestSecretSuperSecret".as_bytes().to_vec());
    assert_eq!(t.algorithm, Algorithm::SHA1);
    assert_eq!(t.digits, 6);
    assert_eq!(t.skew, 1);
    assert_eq!(t.step, 30);
    assert_eq!(t.account_name, "");
    assert!(t.issuer.is_none());
    assert_eq!(t.to_secret_base32(), "KRSXG5CTMVRXEZLUKN2XAZLSKNSWG4TFOQ");
}

#[test]
fn base32_errors() {
    assert!(matches!(TOTP::from_secret_base32("not base32!"), Err(Error::Secret(s)) if s == "not base32!"));
    assert!(matches!(TOTP::from_secret_base32("KRSXG5CT"), Err(Error::SecretTooSmall(40))));
}

#[test]
fn equality_looks_at_the_secret_only() {
    let a = sample(Algorithm::SHA1, 6, 1, 30);
    let mut b = sample(Algorithm::SHA512, 8, 0, 60);
    b.account_name = "someone else".to_string();
    assert_eq!(a, b);
    let c = TOTP::new(Algorithm::SHA1, 6, 1, 30, vec![9u8; 21], "mock@example.com".to_string(), None).unwrap();
    assert_ne!(a, c);
}

#[test]
fn from_url_error_kinds() {
    assert!(matches!(TOTP::from_url("otpauth://hotp/123"), Err(Error::Host(h)) if h == "hotp"));
    assert!(matches!(TOTP::from_url("http://totp/a?secret=KRSXG5CTMVRXEZLUKN2XAZLSKNSWG4TFOQ"), Err(Error::Scheme(s)) if s == "http"));
    assert!(matches!(TOTP::from_url("otpauth://totp/a?secret=KRSXG5CTMVRXEZLUKN2XAZLSKNSWG4TFOQ&algorithm=MD5"), Err(Error::Algorithm(a)) if a == "MD5"));
    assert!(matches!(TOTP::from_url("otpauth://totp/A:b?issuer=B&secret=KRSXG5CTMVRXEZLUKN2XAZLSKNSWG4TFOQ"), Err(Error::IssuerMismatch(x, y)) if x == "A" && y == "B"));
    assert!(matches!(TOTP::from_url("not a url"), Err(Error::Url(_))));
    assert!(matches!(TOTP::from_url("otpauth://totp/a?secret=KRSXG5CTMVRXEZLUKN2XAZLSKNSWG4TFOQ&digits=six"), Err(Error::Digits(d)) if d == "six"));
    assert!(matches!(TOTP::from_url("otpauth://totp/a?secret=KRSXG5CTMVRXEZLUKN2XAZLSKNSWG4TFOQ&period=-1"), Err(Error::Step(p)) if p == "-1"));
    assert!(matches!(TOTP::from_url("otpauth://totp/a?secret=1"), Err(Error::Secret(s)) if s == "1"));
    assert!(matches!(TOTP::from_url("otpauth://totp/a?digits=6"), Err(Error::Secret(s)) if s.is_empty()));
    assert!(matches!(TOTP::from_url("otpauth://totp/%FF:a?secret=KRSXG5CTMVRXEZLUKN2XAZLSKNSWG4TFOQ"), Err(Error::IssuerDecoding(s)) if s == "%FF"));
    assert!(matches!(TOTP::from_url("otpauth://totp/%FF?secret=KRSXG5CTMVRXEZLUKN2XAZLSKNSWG4TFOQ"), Err(Error::AccountName(s)) if s == "%FF"));
    assert!(matches!(TOTP::from_url("otpauth://totp/a?secret=KRSXG5CTMVRXEZLUKN2XAZLSKNSWG4TFOQ&digits=9"), Err(Error::InvalidDigits(9))));
}

#[test]
fn from_url_reads_label_and_query() {
    let t = TOTP::from_url("otpauth://totp/Acme::alice%20smith?secret=KRSXG5CTMVRXEZLUKN2XAZLSKNSWG4TFOQ&period=%2B45&digits=7&issuer=Acme").unwrap();
    assert_eq!(t.issuer.as_deref(), Some("Acme"));
    assert_eq!(t.account_name, "alice smith");
    assert_eq!(t.step, 45);
    assert_eq!(t.digits, 7);
    assert_eq!(t.skew, 1);
}

#[test]
fn from_url_parts_reads_given_pieces() {
    let q = vec![
        ("secret".to_string(), "KRSXG5CTMVRXEZLUKN2XAZLSKNSWG4TFOQ".to_string()),
        ("algorithm".to_string(), "SHA512".to_string()),
    ];
    let t = TOTP::from_url_parts("otpauth", Some("totp"), "/Acme:bob", &q).unwrap();
    assert_eq!(t.algorithm, Algorithm::SHA512);
    assert_eq!(t.issuer.as_deref(), Some("Acme"));
    assert_eq!(t.account_name, "bob");
    assert!(matches!(TOTP::from_url_parts("otpauth", None, "/bob", &q), Err(Error::Host(h)) if h.is_empty()));
}

#[test]
fn url_round_trip_keeps_secret_algorithm_digits() {
    for (alg, digits) in [(Algorithm::SHA1, 6usize), (Algorithm::SHA256, 7), (Algorithm::SHA512, 8)] {
        let t = TOTP::new(alg, digits, 4, 60, vec![3u8; 24], "alice".to_string(), Some("Acme".to_string())).unwrap();
        let back = TOTP::from_url(&t.get_url()).unwrap();
        assert_eq!(back.secret, t.secret);
        assert_eq!(back.algorithm, alg);
        assert_eq!(back.digits, digits);
        assert_eq!(back.skew, 1);
        assert_eq!(back.account_name, "alice");
        assert_eq!(back.issuer.as_deref(), Some("Acme"));
    }
}

#[test]
fn get_url_encodes_label() {
    let t = TOTP::new(Algorithm::SHA256, 8, 1, 30, "TestSecretSuperSecret".as_bytes().to_vec(), "a b".to_string(), Some("X&Y".to_string())).unwrap();
    assert_eq!(t.get_url(), "otpauth://totp/X%26Y:a%20b?issuer=X%26Y&secret=KRSXG5CTMVRXEZLUKN2XAZLSKNSWG4TFOQ&digits=8&algorithm=SHA256");
}

#[test]
fn algorithm_names_and_default() {
    assert_eq!(Algorithm::default(), Algorithm::SHA1);
    for a in [Algorithm::SHA1, Algorithm::SHA256, Algorithm::SHA512] {
        assert_eq!(Algorithm::from_name(a.name()), Some(a));
    }
    assert_eq!(Algorithm::from_name("sha1"), None);
}

#[test]
fn next_step_checked_reports_overflow() {
    let t = sample(Algorithm::SHA1, 6, 1, 30);
    assert!(matches!(t.next_step_checked(29), Ok(30)));
    assert!(matches!(t.next_step_checked(30), Ok(60)));
    assert!(matches!(t.next_step_checked(u64::MAX), Err(Error::Overflow(u64::MAX))));
    let one = sample(Algorithm::SHA1, 6, 1, 1);
    assert!(matches!(one.next_step_checked(u64::MAX - 1), Ok(u64::MAX)));
}

#[test]
fn generate_with_nine_digits_and_none() {
    let mut t = sample(Algorithm::SHA1, 6, 1, 1);
    let six = t.generate(1000);
    t.digits = 9;
    let nine = t.generate(1000);
    assert_eq!(nine.len(), 9);
    assert!(nine.ends_with(&six));
    t.digits = 0;
    assert_eq!(t.generate(1000), "0");
}

#[test]
fn result_alias_names_the_library_error() {
    let r: totp_sos::Result<TOTP> = TOTP::from_secret_base32("!");
    assert!(matches!(r, Err(Error::Secret(_))));
}

#[test]
fn parse_decimal_reads_like_str_parse() {
    assert_eq!(parse_decimal("60", u64::MAX), Some(60));
    assert_eq!(parse_decimal("+45", u64::MAX), Some(45));
    assert_eq!(parse_decimal("007", u64::MAX), Some(7));
    assert_eq!(parse_decimal("18446744073709551615", u64::MAX), Some(u64::MAX));
    assert_eq!(parse_decimal("18446744073709551616", u64::MAX), None);
    assert_eq!(parse_decimal("256", 255), None);
    assert_eq!(parse_decimal("255", 255), Some(255));
    for bad in ["", "+", "-1", " 1", "1 ", "1a", "++1"] {
        assert_eq!(parse_decimal(bad, u64::MAX), None, "{bad:?}");
        assert!(bad.parse::<u64>().is_err());
    }
}
