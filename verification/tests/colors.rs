use collab_server::clock::{low_64_bits, millis_since_epoch, nanos_of_second};
use collab_server::color::{color_for, get_random_color};

const PALETTE: [&str; 10] = [
    "#FF0000", "#00FF00", "#0000FF", "#FFFF00", "#FF00FF", "#00FFFF", "#FFA500", "#800080",
    "#008080", "#FFC0CB",
];

#[test]
fn reading_selects_by_remainder() {
    assert_eq!(color_for(0), "#FF0000");
    assert_eq!(color_for(3), "#FFFF00");
    assert_eq!(color_for(9), "#FFC0CB");
    assert_eq!(color_for(10), "#FF0000");
    assert_eq!(color_for(123_456_787), "#800080");
    assert_eq!(color_for(999_999_999), "#FFC0CB");
}

#[test]
fn every_reading_gives_its_palette_entry() {
    for nanos in 0u32..40 {
        assert_eq!(color_for(nanos), PALETTE[(nanos % 10) as usize]);
    }
}

#[test]
fn random_color_is_of_the_palette() {
    for _ in 0..50 {
        let color = get_random_color();
        assert!(PALETTE.contains(&color.as_str()));
    }
}

#[test]
fn nanos_are_below_one_second() {
    for _ in 0..50 {
        assert!(nanos_of_second() < 1_000_000_000);
    }
}

#[test]
fn clock_is_past_the_epoch() {
    let first = millis_since_epoch();
    let second = millis_since_epoch();
    assert!(first.is_some());
    assert!(second.is_some());
    assert!(first.unwrap() > 1_000_000_000_000);
    assert!(second.unwrap() >= first.unwrap());
}

#[test]
fn milliseconds_are_cut_to_64_bits() {
    assert_eq!(low_64_bits(0), 0);
    assert_eq!(low_64_bits(1_700_000_000_123), 1_700_000_000_123);
    assert_eq!(low_64_bits(u64::MAX as u128), u64::MAX);
    assert_eq!(low_64_bits(u64::MAX as u128 + 1), 0);
    assert_eq!(low_64_bits((1u128 << 64) + 7), 7);
    assert_eq!(low_64_bits(u128::MAX), u64::MAX);
}
