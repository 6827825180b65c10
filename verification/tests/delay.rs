use fure::delay::{Delay, MAX_NANOS};

#[test]
fn delay_units() {
    assert_eq!(Delay::from_secs(2).as_nanos(), 2_000_000_000);
    assert_eq!(Delay::from_millis(1500).as_nanos(), 1_500_000_000);
    assert_eq!(Delay::from_nanos(7).as_nanos(), 7);
    assert_eq!(Delay::from_millis(1500).as_secs(), 1);
    assert_eq!(Delay::from_millis(1500).subsec_nanos(), 500_000_000);
}

#[test]
fn delay_new_carries_nanos_into_seconds() {
    let d = Delay::new(1, 1_500_000_000);
    assert_eq!(d, Delay::from_millis(2500));
    assert_eq!(d.as_secs(), 2);
    assert_eq!(d.subsec_nanos(), 500_000_000);
}

#[test]
fn delay_checked_mul_exact() {
    assert_eq!(Delay::from_millis(300).checked_mul(3), Some(Delay::from_millis(900)));
    assert_eq!(Delay::from_secs(5).checked_mul(0), Some(Delay::from_secs(0)));
}

#[test]
fn delay_checked_mul_overflow() {
    let longest = Delay::new(u64::MAX, 999_999_999);
    assert_eq!(longest.as_nanos(), MAX_NANOS);
    assert_eq!(longest.checked_mul(1), Some(longest));
    assert_eq!(longest.checked_mul(2), None);
    assert_eq!(Delay::from_secs(u64::MAX / 2 + 1).checked_mul(2), None);
    assert!(Delay::from_secs(u64::MAX / 2).checked_mul(2).is_some());
}

#[test]
fn delay_lt() {
    assert!(Delay::from_millis(999).lt(&Delay::from_secs(1)));
    assert!(!Delay::from_secs(1).lt(&Delay::from_secs(1)));
}
