use martty::numfmt::{format_decimal, format_radix, timestamp};

#[test]
fn numbers_render_in_their_base() {
    assert_eq!(format_decimal(0), "0");
    assert_eq!(format_decimal(1234567890), "1234567890");
    assert_eq!(format_decimal(u64::MAX), u64::MAX.to_string());
    assert_eq!(format_radix(255, 16), "ff");
    assert_eq!(format_radix(5, 2), "101");
}

#[test]
fn timestamps_are_hex_clock_and_counter() {
    assert_eq!(timestamp(0x1a2b, 0xff), "1a2b-ff");
    assert_eq!(timestamp(0, 1), "0-1");
    assert_eq!(timestamp(u128::MAX, u64::MAX), format!("{:x}-{:x}", u128::MAX, u64::MAX));
}

#[test]
fn stamps_with_different_counters_differ() {
    let a = timestamp(0x5f3e_1234, 1);
    let b = timestamp(0x5f3e_1234, 2);
    assert_ne!(a, b);
    assert_eq!(a, "5f3e1234-1");
    for s in [&a, &b, &timestamp(0, 0), &timestamp(u128::MAX, u64::MAX)] {
        let (left, right) = s.split_once('-').unwrap();
        assert!(!left.is_empty() && !right.is_empty());
        assert!(left.chars().chain(right.chars()).all(|c| c.is_ascii_hexdigit() && !c.is_ascii_uppercase()));
    }
}
