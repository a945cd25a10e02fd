use gdpatch::string::{
    bin_to_int, bin_to_int_checked, hex_to_int, hex_to_int_checked, is_godot_whitespace, to_int,
    to_int_checked, GodotUnicodeXID,
};

#[test]
fn hex_to_int_reads_digits_and_prefix() {
    assert_eq!(hex_to_int(""), 0);
    assert_eq!(hex_to_int("0x1F"), 31);
    assert_eq!(hex_to_int("-0x10"), -16);
    assert_eq!(hex_to_int("ff"), 255);
    assert_eq!(hex_to_int("7fffffffffffffff"), i64::MAX);
}

#[test]
fn hex_to_int_checked_rejects_what_hex_to_int_cannot_read() {
    assert_eq!(hex_to_int_checked("0xb"), Some(11));
    // `a` is not read as a digit.
    assert_eq!(hex_to_int_checked("0xa"), None);
    assert_eq!(hex_to_int_checked("0xg"), None);
    assert_eq!(hex_to_int_checked("8000000000000000"), None);
}

#[test]
fn bin_to_int_reads_digits_and_prefix() {
    assert_eq!(bin_to_int(""), 0);
    assert_eq!(bin_to_int("0b101"), 5);
    assert_eq!(bin_to_int("-0b11"), -3);
    assert_eq!(bin_to_int("110"), 6);
    // Any other character gives 0.
    assert_eq!(bin_to_int("0b102"), 0);
    assert_eq!(bin_to_int_checked("0b1"), Some(1));
    assert_eq!(bin_to_int_checked(&"1".repeat(64)), None);
}

#[test]
fn to_int_skips_to_the_number() {
    assert_eq!(to_int(""), 0);
    assert_eq!(to_int("42"), 42);
    assert_eq!(to_int("-17"), -17);
    assert_eq!(to_int("+8"), 8);
    assert_eq!(to_int("abc12def34"), 12);
    assert_eq!(to_int("x"), 0);
    assert_eq!(to_int("9223372036854775807"), i64::MAX);
    assert_eq!(to_int_checked("9223372036854775808"), None);
    assert_eq!(to_int_checked("-5"), Some(-5));
}

#[test]
fn godot_whitespace() {
    assert!(is_godot_whitespace(' ', false));
    assert!(is_godot_whitespace('\t', false));
    assert!(is_godot_whitespace('\u{3000}', false));
    assert!(!is_godot_whitespace('\u{200b}', false));
    assert!(is_godot_whitespace('\u{200b}', true));
    assert!(!is_godot_whitespace('a', true));
}

#[test]
fn godot_identifier_start() {
    assert!('_'.is_godot_xid_start());
    assert!('a'.is_godot_xid_start());
    assert!('é'.is_godot_xid_start());
    assert!(!'1'.is_godot_xid_start());
    assert!(!'-'.is_godot_xid_start());
}
