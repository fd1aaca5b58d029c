use ssd1681::color::TriColor;

#[test]
fn from_u8() {
    assert_eq!(TriColor::Black, TriColor::from(0u8));
    assert_eq!(TriColor::White, TriColor::from(1u8));
    assert_eq!(TriColor::Red, TriColor::from(2u8));
}

#[test]
fn try_from_u8_rejects_unknown_codes() {
    assert_eq!(TriColor::try_from_u8(0), Some(TriColor::Black));
    assert_eq!(TriColor::try_from_u8(2), Some(TriColor::Red));
    assert_eq!(TriColor::try_from_u8(3), None);
    assert_eq!(TriColor::try_from_u8(255), None);
}

#[test]
fn color_to_fill_byte() {
    assert_eq!(u8::from(TriColor::White), 0xFF);
    assert_eq!(u8::from(TriColor::Black), 0x00);
    assert_eq!(u8::from(TriColor::Red), 0x00);
}
