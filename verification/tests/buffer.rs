use fixed_str::utf8::check_utf8;
use fixed_str::FixedStr;
use fixed_str::FixedStrError;

#[test]
fn construction_pads_with_zero_bytes() {
    let v = FixedStr::new(10, "Hello".as_bytes());
    assert_eq!(v.capacity(), 10);
    assert_eq!(v.len(), 5);
    assert_eq!(v.as_bytes(), b"Hello\0\0\0\0\0");
    assert_eq!(v.try_as_text().expect("not text"), b"Hello");
}

#[test]
fn empty_input_fills_the_buffer_with_padding() {
    let v = FixedStr::new(5, b"");
    assert_eq!(v.as_bytes(), &[0u8; 5]);
    assert_eq!(v.len(), 0);
    assert_eq!(v.try_as_text().expect("not text"), b"");
}

#[test]
fn zero_capacity_holds_nothing() {
    let v = FixedStr::new(0, "Hello".as_bytes());
    assert_eq!(v.capacity(), 0);
    assert_eq!(v.as_bytes(), b"");
    assert_eq!(v.try_as_text().expect("not text"), b"");
}

#[test]
fn from_bytes_checks_the_length_exactly() {
    assert_eq!(FixedStr::from_bytes(5, b"Hello").expect("exact length failed").as_bytes(), b"Hello");
    assert_eq!(FixedStr::from_bytes(5, b"Hell"), Err(FixedStrError::LengthMismatch));
    assert_eq!(FixedStr::from_bytes(5, b"Hello!"), Err(FixedStrError::LengthMismatch));
}

#[test]
fn from_exact_takes_the_length_as_capacity() {
    let v = FixedStr::from_exact(b"Hi\0");
    assert_eq!(v.capacity(), 3);
    assert_eq!(v.len(), 2);
}

#[test]
fn clones_and_equality_follow_the_bytes() {
    let a = FixedStr::new(5, "Hello".as_bytes());
    let b = a.clone();
    assert_eq!(a, b);
    let c = FixedStr::new(5, "World".as_bytes());
    assert_ne!(a, c);
    let d = FixedStr::new(6, "Hello".as_bytes());
    assert_ne!(a, d);
}

#[test]
fn checker_accepts_valid_utf8() {
    assert!(check_utf8(b""));
    assert!(check_utf8(b"abc"));
    assert!(check_utf8("h\u{e9}llo".as_bytes()));
    assert!(check_utf8("\u{7ff}\u{800}\u{ffff}".as_bytes()));
    assert!(check_utf8("\u{10000}\u{10ffff}".as_bytes()));
    assert!(check_utf8(&[0xF4u8, 0x8F, 0xBF, 0xBF]));
    assert!(check_utf8(b"Hello\0\0\0"));
}

#[test]
fn checker_rejects_invalid_utf8() {
    assert!(!check_utf8(&[0xFFu8]));
    assert!(!check_utf8(&[0x80u8]));
    assert!(!check_utf8(&[0xC0u8, 0x80]));
    assert!(!check_utf8(&[0xC1u8, 0xBF]));
    assert!(!check_utf8(&[0xC3u8]));
    assert!(!check_utf8(&[0xE0u8, 0x80, 0x80]));
    assert!(!check_utf8(&[0xEDu8, 0xA0, 0x80]));
    assert!(!check_utf8(&[0xF0u8, 0x80, 0x80, 0x80]));
    assert!(!check_utf8(&[0xF4u8, 0x90, 0x80, 0x80]));
    assert!(!check_utf8(&[0xF5u8, 0x80, 0x80, 0x80]));
    assert!(!check_utf8(&[0xE2u8, 0x82]));
    assert!(!check_utf8(&[0x61u8, 0xC3, 0xA9, 0x80]));
}

#[test]
fn checker_matches_std_utf8_validation() {
    let samples: &[&[u8]] = &[
        b"",
        b"Hello",
        b"Hello\0World",
        &[0xC3, 0xA9],
        &[0xC3],
        &[0xE2, 0x82, 0xAC],
        &[0xED, 0x9F, 0xBF],
        &[0xED, 0xA0, 0x80],
        &[0xF0, 0x90, 0x80, 0x80],
        &[0xF0, 0x8F, 0xBF, 0xBF],
        &[0xF4, 0x8F, 0xBF, 0xBF],
        &[0xF4, 0x90, 0x80, 0x80],
        &[0xFE],
        &[0xC2, 0x00],
        &[0x7F],
        &[0x80, 0x80],
    ];
    for s in samples {
        assert_eq!(check_utf8(s), std::str::from_utf8(s).is_ok());
    }
}
