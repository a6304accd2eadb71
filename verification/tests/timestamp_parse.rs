use media_toc_player::timestamp_4_humans::Timestamp;

#[test]
fn parse_string() {
    let ts = Timestamp::from_string("11:42:20.010");
    assert!(ts.is_ok());
    let ts = ts.unwrap();
    assert_eq!(ts.h, 11);
    assert_eq!(ts.m, 42);
    assert_eq!(ts.s, 20);
    assert_eq!(ts.ms, 10);
    assert_eq!(ts.us, 0);
    assert_eq!(ts.nano, 0);
    assert_eq!(
        ts.nano_total,
        ((((11 * 60 + 42) * 60 + 20) * 1_000) + 10) * 1_000 * 1_000
    );

    let ts = Timestamp::from_string("42:20.010");
    assert!(ts.is_ok());
    let ts = ts.unwrap();
    assert_eq!(ts.h, 0);
    assert_eq!(ts.m, 42);
    assert_eq!(ts.s, 20);
    assert_eq!(ts.ms, 10);
    assert_eq!(ts.us, 0);
    assert_eq!(ts.nano, 0);
    assert_eq!(
        ts.nano_total,
        (((42 * 60 + 20) * 1_000) + 10) * 1_000 * 1_000
    );

    let ts = Timestamp::from_string("42:20.010.015");
    assert!(ts.is_ok());
    let ts = ts.unwrap();
    assert_eq!(ts.h, 0);
    assert_eq!(ts.m, 42);
    assert_eq!(ts.s, 20);
    assert_eq!(ts.ms, 10);
    assert_eq!(ts.us, 15);
    assert_eq!(ts.nano, 0);
    assert_eq!(
        ts.nano_total,
        ((((42 * 60 + 20) * 1_000) + 10) * 1_000 + 15) * 1_000
    );

    assert!(Timestamp::from_string("abc.015").is_err());
    assert!(Timestamp::from_string("42:aa.015").is_err());
    assert!(Timestamp::from_string("20:11:42:010.015").is_err());
}

#[test]
fn timestamp_parse_string() {
    let ts = Timestamp::from_string("11:42:20.010");
    assert!(ts.is_ok());
    let ts = ts.unwrap();
    assert_eq!(ts.h, 11);
    assert_eq!(ts.m, 42);
    assert_eq!(ts.s, 20);
    assert_eq!(ts.ms, 10);
    assert_eq!(ts.us, 0);
    assert_eq!(ts.nano, 0);
    assert_eq!(
        ts.nano_total,
        ((((11 * 60 + 42) * 60 + 20) * 1_000) + 10) * 1_000 * 1_000
    );

    let ts = Timestamp::from_string("42:20.010");
    assert!(ts.is_ok());
    let ts = ts.unwrap();
    assert_eq!(ts.h, 0);
    assert_eq!(ts.m, 42);
    assert_eq!(ts.s, 20);
    assert_eq!(ts.ms, 10);
    assert_eq!(ts.us, 0);
    assert_eq!(ts.nano, 0);

    let ts = Timestamp::from_string("42:20.010.015");
    assert!(ts.is_ok());
    let ts = ts.unwrap();
    assert_eq!(ts.us, 15);

    assert!(Timestamp::from_string("abc:15").is_err());
    assert!(Timestamp::from_string("42:aa.015").is_err());
    assert!(Timestamp::from_string("42:20a").is_err());
}

#[test]
fn parse_hours_form_without_fractions() {
    let ts = Timestamp::from_string("1:02:03").unwrap();
    assert_eq!(ts.h, 1);
    assert_eq!(ts.m, 2);
    assert_eq!(ts.s, 3);
    assert_eq!(ts.ms, 0);
    assert_eq!(ts.nano_total, ((1 * 60 + 2) * 60 + 3) * 1_000_000_000);
}

#[test]
fn parse_minutes_form_without_fraction() {
    let ts = Timestamp::from_string("42:20").unwrap();
    assert_eq!(ts.h, 0);
    assert_eq!(ts.m, 42);
    assert_eq!(ts.s, 20);
    assert_eq!(ts.nano_total, (42 * 60 + 20) * 1_000_000_000);
}

#[test]
fn parse_accepts_trailing_separator_forms() {
    // a bare trailing dot leaves the optional fractions at zero
    let ts = Timestamp::from_string("10:20.").unwrap();
    assert_eq!((ts.m, ts.s, ts.ms, ts.us), (10, 20, 0, 0));
    // a skipped fraction still allows the next one
    let ts = Timestamp::from_string("10:20..5").unwrap();
    assert_eq!((ts.m, ts.s, ts.ms, ts.us), (10, 20, 0, 5));
}

#[test]
fn parse_rejects_malformed_strings() {
    assert!(Timestamp::from_string("").is_err());
    assert!(Timestamp::from_string(":10").is_err());
    assert!(Timestamp::from_string("10:").is_err());
    assert!(Timestamp::from_string("10").is_err());
    assert!(Timestamp::from_string("10:20.5x").is_err());
    assert!(Timestamp::from_string("1.5").is_err());
    // a component too large for the machine word
    assert!(Timestamp::from_string("99999999999999999999:20").is_err());
    // a total past what fits in nanoseconds
    assert!(Timestamp::from_string("18446744073709551615:00").is_err());
}
