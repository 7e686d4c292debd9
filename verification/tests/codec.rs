use cpu_template::bitmap::decode_bitmap;
use cpu_template::bitmap::encode_bitmap;
use cpu_template::num_text::format_u32;
use cpu_template::num_text::parse_u32;
use cpu_template::RegisterValueFilter;

#[test]
fn parse_accepts_all_three_radixes() {
    assert_eq!(parse_u32("0x80000001").unwrap(), 0x80000001);
    assert_eq!(parse_u32("0b000111").unwrap(), 7);
    assert_eq!(parse_u32("200").unwrap(), 200);
}

#[test]
fn parse_rejects_with_offending_text() {
    let err = parse_u32("k").unwrap_err();
    assert_eq!(err.text, "k");
    assert!(err.message().contains("k"));
    assert!(err
        .message()
        .contains("Failed to parse string [k] as a decimal number for CPU template"));

    let err = parse_u32("0jj0").unwrap_err();
    assert_eq!(err.text, "0jj0");
    assert!(err
        .message()
        .contains("Failed to parse string [0jj0] as a number for CPU template -"));
}

#[test]
fn parse_short_text_is_decimal_even_with_prefix_shape() {
    // A prefix is only recognized when more than two characters follow it.
    assert!(parse_u32("0b").is_err());
    assert!(parse_u32("0x").is_err());
    assert_eq!(parse_u32("0").unwrap(), 0);
    assert_eq!(parse_u32("10").unwrap(), 10);
}

#[test]
fn parse_rejects_empty_and_overflow() {
    let err = parse_u32("").unwrap_err();
    assert!(err.message().contains("Empty"));
    let err = parse_u32("4294967296").unwrap_err();
    assert!(err.message().contains("PosOverflow"));
    assert_eq!(parse_u32("4294967295").unwrap(), u32::MAX);
    let err = parse_u32("0x100000000").unwrap_err();
    assert!(err.message().contains("PosOverflow"));
}

#[test]
fn format_is_hex_with_prefix() {
    assert_eq!(format_u32(0x1a), "0x1a");
    assert_eq!(format_u32(0), "0x0");
    assert_eq!(format_u32(0x80000001), "0x80000001");
    assert_eq!(format_u32(u32::MAX), "0xffffffff");
}

#[test]
fn format_then_parse_returns_the_number() {
    for n in [0u32, 1, 9, 16, 0xdead_beef, u32::MAX] {
        assert_eq!(parse_u32(&format_u32(n)).unwrap(), n);
    }
}

#[test]
fn decode_wildcard_bitmap_positions() {
    // Left-to-right characters describe bits from most significant down.
    let fv = decode_bitmap("010x").unwrap();
    assert_eq!(fv.filter, 0b1110);
    assert_eq!(fv.value, 0b0100);
    // The prefix is optional on decode.
    let fv = decode_bitmap("0b010x").unwrap();
    assert_eq!(fv.filter, 0b1110);
    assert_eq!(fv.value, 0b0100);
}

#[test]
fn decode_bitmap_rejects_stray_characters() {
    let err = decode_bitmap("0bx0?100x?x1xxxx00xxx1xxxxxxxxxxx1").unwrap_err();
    assert_eq!(err.text, "x0?100x?x1xxxx00xxx1xxxxxxxxxxx1");
    assert!(err
        .message()
        .contains("Failed to parse string [x0?100x?x1xxxx00xxx1xxxxxxxxxxx1] as a bitmap"));
    assert!(decode_bitmap("").is_err());
    assert!(decode_bitmap("0b").is_err());
}

#[test]
fn decode_bitmap_overflow_and_long_dont_care() {
    // More than 64 pinned bits cannot be represented.
    let long_ones = "1".repeat(65);
    let err = decode_bitmap(&long_ones).unwrap_err();
    assert!(err.message().contains("PosOverflow"));
    // Don't-care positions beyond 64 carry no bits and still decode.
    let long_xs = "x".repeat(65);
    let fv = decode_bitmap(&long_xs).unwrap();
    assert_eq!(fv.filter, 0);
    assert_eq!(fv.value, 0);
    // Exactly 64 pinned bits fit.
    let full = "1".repeat(64);
    let fv = decode_bitmap(&full).unwrap();
    assert_eq!(fv.filter, u64::MAX);
    assert_eq!(fv.value, u64::MAX);
}

#[test]
fn encode_bitmap_has_fixed_width() {
    let fv = RegisterValueFilter { filter: 0b1110, value: 0b0100 };
    let s32 = encode_bitmap(fv, 32);
    assert_eq!(s32.len(), 34);
    assert!(s32.starts_with("0b"));
    let s64 = encode_bitmap(fv, 64);
    assert_eq!(s64.len(), 66);
    assert!(s64.starts_with("0b"));
    assert_eq!(s32, "0bxxxxxxxxxxxxxxxxxxxxxxxxxxxx010x");
}

#[test]
fn encode_then_decode_returns_the_pair() {
    let cases = [
        RegisterValueFilter { filter: 0, value: 0 },
        RegisterValueFilter { filter: 0b1110, value: 0b0100 },
        RegisterValueFilter { filter: u64::MAX, value: 0x0123_4567_89ab_cdef },
    ];
    for fv in cases {
        assert_eq!(decode_bitmap(&encode_bitmap(fv, 64)).unwrap(), fv);
    }
    let fv32 = RegisterValueFilter { filter: 0xffff_0000, value: 0x1234_0000 };
    assert_eq!(decode_bitmap(&encode_bitmap(fv32, 32)).unwrap(), fv32);
}

#[test]
fn apply_overwrites_only_filtered_bits() {
    let fv = RegisterValueFilter { filter: 0x0ff0, value: 0x0550 };
    assert_eq!(fv.apply(0xffff), 0xf55f);
    assert_eq!(fv.apply(0x0000), 0x0550);
    let all = RegisterValueFilter { filter: u64::MAX, value: 0xabcd };
    assert_eq!(all.apply(0xffff_ffff_ffff_ffff), 0xabcd);
    let none = RegisterValueFilter { filter: 0, value: 0 };
    assert_eq!(none.apply(0x1234), 0x1234);
}
