use expiration::{BlockInfo, Expiration, ExpirationError, Subscription, NEVER_TIME_LEFT};

fn block(height: u64, time: u64) -> BlockInfo {
    BlockInfo {
        height,
        time,
        chain_id: "test".to_string(),
    }
}

#[test]
fn test_expiration() {
    let block_h1000_t1000000 = BlockInfo {
        height: 1000,
        time: 1000000,
        chain_id: "test".to_string(),
    };

    let block_h2000_t2000000 = BlockInfo {
        height: 2000,
        time: 2000000,
        chain_id: "test".to_string(),
    };
    let exp_h1000 = Expiration::AtHeight(1000);
    let exp_t1000000 = Expiration::AtTime(1000000);
    let exp_h1500 = Expiration::AtHeight(1500);
    let exp_t1500000 = Expiration::AtTime(1500000);
    let exp_never = Expiration::default();

    assert!(exp_h1000.is_expired(&block_h1000_t1000000));
    assert!(!exp_h1500.is_expired(&block_h1000_t1000000));
    assert!(exp_h1500.is_expired(&block_h2000_t2000000));
    assert!(!exp_never.is_expired(&block_h2000_t2000000));
    assert!(exp_t1000000.is_expired(&block_h1000_t1000000));
    assert!(!exp_t1500000.is_expired(&block_h1000_t1000000));
    assert!(exp_t1500000.is_expired(&block_h2000_t2000000));
    assert!(exp_t1000000.time_left(&block_h2000_t2000000) == 0);
}

#[test]
fn height_deadline_passes_at_and_after_it() {
    assert!(Expiration::AtHeight(700).is_expired(&block(700, 0)));
    assert!(Expiration::AtHeight(700).is_expired(&block(701, 0)));
    assert!(!Expiration::AtHeight(701).is_expired(&block(700, u64::MAX)));
    assert!(Expiration::AtHeight(0).is_expired(&block(0, 0)));
    assert!(!Expiration::AtHeight(u64::MAX).is_expired(&block(u64::MAX - 1, u64::MAX)));
}

#[test]
fn time_deadline_passes_at_and_after_it() {
    assert!(Expiration::AtTime(700).is_expired(&block(0, 700)));
    assert!(Expiration::AtTime(700).is_expired(&block(0, 701)));
    assert!(!Expiration::AtTime(701).is_expired(&block(u64::MAX, 700)));
    assert!(Expiration::AtTime(u64::MAX).is_expired(&block(0, u64::MAX)));
}

#[test]
fn never_does_not_pass() {
    assert!(!Expiration::Never.is_expired(&block(0, 0)));
    assert!(!Expiration::Never.is_expired(&block(u64::MAX, u64::MAX)));
    assert_eq!(Expiration::default(), Expiration::Never);
}

#[test]
fn time_left_counts_down_to_zero() {
    let b = block(1000, 1_000_000);
    assert_eq!(Expiration::AtHeight(1500).time_left(&b), 500);
    assert_eq!(Expiration::AtHeight(1000).time_left(&b), 0);
    assert_eq!(Expiration::AtHeight(10).time_left(&b), 0);
    assert_eq!(Expiration::AtTime(1_000_042).time_left(&b), 42);
    assert_eq!(Expiration::AtTime(1_000_000).time_left(&b), 0);
    assert_eq!(Expiration::AtTime(5).time_left(&b), 0);
}

#[test]
fn time_left_is_zero_exactly_when_expired() {
    let b = block(1000, 1_000_000);
    for e in [
        Expiration::AtHeight(999),
        Expiration::AtHeight(1000),
        Expiration::AtHeight(1001),
        Expiration::AtTime(999_999),
        Expiration::AtTime(1_000_000),
        Expiration::AtTime(1_000_001),
    ] {
        assert_eq!(e.time_left(&b) == 0, e.is_expired(&b));
    }
}

#[test]
fn never_has_the_unbounded_time_left() {
    assert_eq!(NEVER_TIME_LEFT, 1_000_000_000_000_000_000);
    assert_eq!(Expiration::Never.time_left(&block(0, 0)), NEVER_TIME_LEFT);
    assert_eq!(Expiration::Never.time_left(&block(u64::MAX, u64::MAX)), NEVER_TIME_LEFT);
}

#[test]
fn renewing_never_keeps_never() {
    assert_eq!(Expiration::Never.add_time(&block(5, 5), 100, 2), Ok(Expiration::Never));
    assert_eq!(Expiration::Never.add_time(&block(5, 5), u64::MAX, u64::MAX), Ok(Expiration::Never));
}

#[test]
fn renewing_a_passed_time_deadline_counts_from_the_block() {
    let b = block(1000, 1_000_000);
    assert_eq!(Expiration::AtTime(1_000_000).add_time(&b, 100, 2), Ok(Expiration::AtTime(1_000_200)));
    assert_eq!(Expiration::AtTime(10).add_time(&b, 100, 2), Ok(Expiration::AtTime(1_000_200)));
}

#[test]
fn renewing_a_pending_time_deadline_counts_from_the_deadline() {
    let b = block(1000, 1_000_000);
    assert_eq!(Expiration::AtTime(1_500_000).add_time(&b, 100, 2), Ok(Expiration::AtTime(1_500_200)));
}

#[test]
fn renewing_a_height_deadline_takes_the_later_base() {
    let b = block(1000, 1_000_000);
    assert_eq!(Expiration::AtHeight(1500).add_time(&b, 10, 3), Ok(Expiration::AtHeight(1530)));
    assert_eq!(Expiration::AtHeight(1000).add_time(&b, 10, 3), Ok(Expiration::AtHeight(1030)));
    assert_eq!(Expiration::AtHeight(3).add_time(&b, 10, 3), Ok(Expiration::AtHeight(1030)));
}

#[test]
fn renewal_that_does_not_fit_is_an_overflow() {
    let b = block(1000, 1_000_000);
    assert_eq!(Expiration::AtTime(5).add_time(&b, u64::MAX, 2), Err(ExpirationError::Overflow));
    assert_eq!(Expiration::AtHeight(u64::MAX).add_time(&b, 1, 1), Err(ExpirationError::Overflow));
    assert_eq!(Expiration::AtTime(u64::MAX - 1).add_time(&b, 1, 1), Ok(Expiration::AtTime(u64::MAX)));
    assert_eq!(Expiration::AtHeight(5).add_time(&block(u64::MAX, 0), 1, 0), Ok(Expiration::AtHeight(u64::MAX)));
}

#[test]
fn stored_forms_are_json_text() {
    assert_eq!(Expiration::AtHeight(1500).encode(), b"{\"at_height\":1500}".to_vec());
    assert_eq!(Expiration::AtTime(0).encode(), b"{\"at_time\":0}".to_vec());
    assert_eq!(Expiration::Never.encode(), b"\"never\"".to_vec());
    assert_eq!(
        Expiration::AtTime(u64::MAX).encode(),
        b"{\"at_time\":18446744073709551615}".to_vec()
    );
}

#[test]
fn stored_forms_read_back() {
    for e in [
        Expiration::AtHeight(0),
        Expiration::AtHeight(u64::MAX),
        Expiration::AtTime(0),
        Expiration::AtTime(u64::MAX),
        Expiration::Never,
        Expiration::AtHeight(1234567),
    ] {
        assert_eq!(Expiration::decode(&e.encode()), Some(e));
    }
}

#[test]
fn other_texts_are_not_read() {
    for bad in [
        &b""[..],
        b"never",
        b"\"Never\"",
        b"{\"at_height\":}",
        b"{\"at_height\":01}",
        b"{\"at_height\":18446744073709551616}",
        b"{\"at_height\": 1}",
        b"{\"at_height\":1",
        b"{\"at_time\":1x}",
        b"{\"at_date\":1}",
        b"{\"at_time\":1}x",
        b"\"never\" ",
    ] {
        assert_eq!(Expiration::decode(bad), None);
    }
    assert_eq!(Expiration::decode(b"{\"at_time\":7}"), Some(Expiration::AtTime(7)));
}

#[test]
fn each_variant_reads_differently() {
    assert_eq!(Expiration::AtHeight(1500).describe(), "expiration height: 1500");
    assert_eq!(Expiration::AtTime(1_000_000).describe(), "expiration time: 1000000");
    assert_eq!(Expiration::Never.describe(), "expiration: never");
    assert_eq!(Expiration::AtHeight(0).describe(), "expiration height: 0");
}

#[test]
fn subscription_holds_its_terms() {
    let s = Subscription { frequency: 30, rate: 1_000_000_000_000_000_000_000 };
    let t = s;
    assert_eq!(t, s);
    assert_eq!(t.frequency, 30);
}
