use flashquiz::time::{is_past, remaining, Span, NANOS_PER_SEC};

#[test]
fn a_second_is_a_thousand_million_nanoseconds() {
    assert_eq!(NANOS_PER_SEC, 1_000_000_000);
    assert_eq!(Span::from_secs(1).as_nanos(), 1_000_000_000);
    assert_eq!(Span::from_secs(120).as_nanos(), 120_000_000_000);
    assert_eq!(Span::from_secs(0), Span::zero());
}

#[test]
fn the_longest_span_of_whole_seconds_fits() {
    assert_eq!(Span::from_secs(u64::MAX).as_nanos(), 18_446_744_073_709_551_615_000_000_000);
    assert_eq!(Span::from_secs(u64::MAX).as_secs(), 18_446_744_073_709_551_615);
}

#[test]
fn nanoseconds_go_in_and_come_out() {
    assert_eq!(Span::from_nanos(0).as_nanos(), 0);
    assert_eq!(Span::from_nanos(1_500_000_000).as_nanos(), 1_500_000_000);
    assert_eq!(Span::from_nanos(u128::MAX).as_nanos(), u128::MAX);
}

#[test]
fn whole_seconds_drop_the_started_one() {
    assert_eq!(Span::from_nanos(999_999_999).as_secs(), 0);
    assert_eq!(Span::from_nanos(1_000_000_000).as_secs(), 1);
    assert_eq!(Span::from_nanos(59_999_999_999).as_secs(), 59);
    assert_eq!(Span::zero().as_secs(), 0);
}

#[test]
fn a_span_covers_what_is_no_longer() {
    let short = Span::from_secs(1);
    let long = Span::from_secs(2);
    assert!(long.covers(&short));
    assert!(long.covers(&long));
    assert!(!short.covers(&long));
    assert!(Span::zero().covers(&Span::zero()));
}

#[test]
fn checked_sub_has_no_answer_below_zero() {
    let short = Span::from_secs(15);
    let long = Span::from_secs(60);
    assert_eq!(long.checked_sub(&short), Some(Span::from_secs(45)));
    assert_eq!(long.checked_sub(&long), Some(Span::zero()));
    assert_eq!(short.checked_sub(&long), None);
    assert_eq!(Span::from_nanos(10).checked_sub(&Span::from_nanos(11)), None);
}

#[test]
fn what_remains_is_the_difference_or_nothing() {
    assert_eq!(remaining(&Span::from_secs(60), &Span::from_secs(15)), Span::from_secs(45));
    assert_eq!(remaining(&Span::from_secs(60), &Span::zero()), Span::from_secs(60));
    assert_eq!(
        remaining(&Span::from_secs(60), &Span::from_nanos(59_999_999_999)),
        Span::from_nanos(1)
    );
    assert_eq!(remaining(&Span::from_secs(60), &Span::from_secs(60)), Span::zero());
    assert_eq!(remaining(&Span::from_secs(60), &Span::from_secs(61)), Span::zero());
    assert_eq!(remaining(&Span::zero(), &Span::zero()), Span::zero());
    assert_eq!(remaining(&Span::from_secs(10), &Span::from_nanos(u128::MAX)), Span::zero());
}

#[test]
fn the_limit_is_reached_when_as_much_has_elapsed() {
    assert!(!is_past(&Span::from_secs(60), &Span::from_secs(59)));
    assert!(!is_past(&Span::from_secs(60), &Span::from_nanos(59_999_999_999)));
    assert!(is_past(&Span::from_secs(60), &Span::from_secs(60)));
    assert!(is_past(&Span::from_secs(60), &Span::from_secs(61)));
}

#[test]
fn a_limit_of_zero_is_reached_at_once() {
    assert!(is_past(&Span::zero(), &Span::zero()));
    assert!(is_past(&Span::zero(), &Span::from_nanos(1)));
}

#[test]
fn no_time_is_left_exactly_when_the_limit_is_reached() {
    let timeout = Span::from_secs(3);
    for nanos in [0, 1, 2_999_999_999, 3_000_000_000, 3_000_000_001, 9_000_000_000] {
        let elapsed = Span::from_nanos(nanos);
        assert_eq!(is_past(&timeout, &elapsed), remaining(&timeout, &elapsed) == Span::zero());
        assert!(timeout.covers(&remaining(&timeout, &elapsed)));
    }
}
