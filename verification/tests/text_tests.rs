use gaugen::basic_components::{format_decimal, format_float};
use gaugen::frontend::{parse_hex, Color, DarkPalette, Palette, SerializableColor, Status};
use gaugen::scalar::Scalar;
use gaugen::text::{chars_of, natural_text, parse_natural, same_text, text_of};

#[test]
fn scalar_to_text_has_six_decimals() {
    assert_eq!(Scalar::new(1_500_000).to_text(), "1.500000");
    assert_eq!(Scalar::new(0).to_text(), "0.000000");
    assert_eq!(Scalar::new(-250_000).to_text(), "-0.250000");
    assert_eq!(Scalar::new(50_000_001).to_text(), "50.000001");
    assert_eq!(Scalar::new(i64::MAX).to_text(), "9223372036854.775807");
    assert_eq!(Scalar::new(i64::MIN).to_text(), "-9223372036854.775808");
}

#[test]
fn scalar_parse_reads_decimal_text() {
    assert_eq!(Scalar::parse("1.5"), Some(Scalar::new(1_500_000)));
    assert_eq!(Scalar::parse("100"), Some(Scalar::from_int(100)));
    assert_eq!(Scalar::parse("-0.25"), Some(Scalar::new(-250_000)));
    assert_eq!(Scalar::parse("0.9"), Some(Scalar::new(900_000)));
    assert_eq!(Scalar::parse("0.0000019"), Some(Scalar::new(1)));
    assert_eq!(Scalar::parse("007.5"), Some(Scalar::new(7_500_000)));
    assert_eq!(Scalar::parse("9223372036854.775807"), Some(Scalar::new(i64::MAX)));
    assert_eq!(Scalar::parse("-9223372036854.775808"), Some(Scalar::new(i64::MIN)));
}

#[test]
fn scalar_parse_refuses_what_is_no_decimal_number() {
    for text in ["", "-", ".", "1.", ".5", "1e5", "1.5x", "x", "1..5", "1.2.3", "+1", " 1", "--1", "1-"] {
        assert_eq!(Scalar::parse(text), None, "{text:?}");
    }
    assert_eq!(Scalar::parse("9223372036854.775808"), None);
    assert_eq!(Scalar::parse("-9223372036854.775809"), None);
    assert_eq!(Scalar::parse("100000000000000000000000000000000000000000"), None);
}

#[test]
fn scalar_text_reads_back() {
    for micros in [0, 1, -1, 999_999, 1_000_000, -1_000_001, 123_456_789_012, i64::MAX, i64::MIN] {
        let v = Scalar::new(micros);
        assert_eq!(Scalar::parse(&v.to_text()), Some(v));
    }
}

#[test]
fn natural_numbers_as_text() {
    assert_eq!(natural_text(0), "0");
    assert_eq!(natural_text(4_294_967_295), "4294967295");
    assert_eq!(parse_natural("0", 10), Some(0));
    assert_eq!(parse_natural("10", 10), Some(10));
    assert_eq!(parse_natural("11", 10), None);
    assert_eq!(parse_natural("", 10), None);
    assert_eq!(parse_natural("1.0", 10), None);
    assert_eq!(parse_natural("-1", 10), None);
    assert_eq!(parse_natural("18446744073709551615", u64::MAX), Some(u64::MAX));
    assert_eq!(parse_natural("18446744073709551616", u64::MAX), None);
}

#[test]
fn texts_and_their_characters() {
    assert_eq!(chars_of("añb"), vec!['a', 'ñ', 'b']);
    assert_eq!(text_of(&vec!['x', 'ÿ']), "xÿ");
    assert!(same_text("Split", "Split"));
    assert!(!same_text("Split", "Splits"));
    assert!(!same_text("Split", "Splif"));
    assert!(same_text("", ""));
}

#[test]
fn format_decimal_cuts_and_fills() {
    assert_eq!(format_decimal("50", 1), "50.0");
    assert_eq!(format_decimal("50", 0), "50");
    assert_eq!(format_decimal("3.14159", 3), "3.141");
    assert_eq!(format_decimal("3.14159", 0), "3");
    assert_eq!(format_decimal("3.5", 3), "3.500");
    assert_eq!(format_decimal("-0.5", 1), "-0.5");
    assert_eq!(format_decimal("", 2), ".00");
    // nothing after the point: a second point is added
    assert_eq!(format_decimal("1.", 2), "1..00");
    assert_eq!(format_decimal("NaN", 1), "NaN.0");
}

#[test]
fn format_float_of_scalars() {
    assert_eq!(format_float(Scalar::from_int(50), 1), "50.0");
    assert_eq!(format_float(Scalar::from_int(50), 0), "50");
    assert_eq!(format_float(Scalar::new(3_141_592), 2), "3.14");
    assert_eq!(format_float(Scalar::new(3_141_592), 8), "3.14159200");
    assert_eq!(format_float(Scalar::new(-500_000), 3), "-0.500");
}

#[test]
fn hexadecimal_numbers() {
    assert_eq!(parse_hex("ff"), Some(255));
    assert_eq!(parse_hex("FF"), Some(255));
    assert_eq!(parse_hex("+1f"), Some(31));
    assert_eq!(parse_hex("ffffffff"), Some(u32::MAX));
    assert_eq!(parse_hex("0000000000ff"), Some(255));
    assert_eq!(parse_hex("100000000"), None);
    assert_eq!(parse_hex(""), None);
    assert_eq!(parse_hex("+"), None);
    assert_eq!(parse_hex("-1"), None);
    assert_eq!(parse_hex("0x10"), None);
    assert_eq!(parse_hex("fg"), None);
}

#[test]
fn parse_hex_agrees_with_the_standard_library() {
    for text in ["ff808080", "+0", "0", "aBcD", "g", "", "+", "-", "-0", "++1", "123456789", "ffffffff", " 1", "1 "] {
        assert_eq!(parse_hex(text), u32::from_str_radix(text, 16).ok(), "{text:?}");
    }
}

#[test]
fn colors_as_text() {
    let c = SerializableColor::parse("ff808080").unwrap();
    assert_eq!(c.color, Color { r: 0x80, g: 0x80, b: 0x80, a: 0xff });
    let c = SerializableColor::parse("12345678").unwrap();
    assert_eq!(c.color, Color { r: 0x34, g: 0x56, b: 0x78, a: 0x12 });
    // short texts leave the high bytes zero
    let c = SerializableColor::parse("8f00").unwrap();
    assert_eq!(c.color, Color { r: 0, g: 0x8f, b: 0, a: 0 });
    assert_eq!(SerializableColor::parse("red"), None);
    assert_eq!(SerializableColor { color: Color::from_rgba(1, 2, 3, 4) }.to_text(), "04010203");
    assert_eq!(SerializableColor { color: Color::from_rgb(0xab, 0xcd, 0xef) }.to_text(), "ffabcdef");
    let back = SerializableColor::parse(&SerializableColor { color: Color::from_rgba(9, 8, 7, 6) }.to_text());
    assert_eq!(back, Some(SerializableColor { color: Color::from_rgba(9, 8, 7, 6) }));
}

#[test]
fn dark_palette_colors() {
    let p = DarkPalette {};
    assert_eq!(p.status_to_color(Status::Normal), Color::from_rgba(0, 160, 0, 255));
    assert_eq!(p.status_to_color(Status::Warning), Color::from_rgba(250, 120, 0, 255));
    assert_eq!(p.status_to_color(Status::Error), Color::from_rgba(200, 0, 0, 255));
    assert_eq!(p.status_to_color_font(Status::Normal), Color::from_rgba(255, 255, 255, 255));
    assert_eq!(p.status_to_color_font(Status::Warning), Color::from_rgba(240, 180, 0, 255));
    assert_eq!(p.status_to_color_font(Status::Error), Color::from_rgba(255, 50, 50, 255));
    assert_eq!(p.status_to_color_bg(Status::Normal), Color::from_rgba(30, 30, 40, 255));
    assert_eq!(p.status_to_color_bg(Status::Warning), Color::from_rgba(30, 30, 40, 255));
    assert_eq!(p.status_to_color_bg(Status::Error), Color::from_rgba(100, 0, 0, 255));
}

#[test]
fn read_takes_numbers_with_an_exponent() {
    assert_eq!(Scalar::read("1e3"), Some(Scalar::from_int(1000)));
    assert_eq!(Scalar::read("1E3"), Some(Scalar::from_int(1000)));
    assert_eq!(Scalar::read("1e+3"), Some(Scalar::from_int(1000)));
    assert_eq!(Scalar::read("-1.5e2"), Some(Scalar::from_int(-150)));
    assert_eq!(Scalar::read("1.5e-1"), Some(Scalar::new(150_000)));
    assert_eq!(Scalar::read("12.5e1"), Some(Scalar::from_int(125)));
    assert_eq!(Scalar::read("12.5e-1"), Some(Scalar::new(1_250_000)));
    assert_eq!(Scalar::read("12.5e-2"), Some(Scalar::new(125_000)));
    assert_eq!(Scalar::read("12.5e-3"), Some(Scalar::new(12_500)));
    assert_eq!(Scalar::read("1e0"), Some(Scalar::from_int(1)));
    assert_eq!(Scalar::read("1.25e-0"), Some(Scalar::new(1_250_000)));
    assert_eq!(Scalar::read("2.5e-6"), Some(Scalar::new(2)));
    assert_eq!(Scalar::read("-2.5e-6"), Some(Scalar::new(-2)));
    assert_eq!(Scalar::read("1e-7"), Some(Scalar::new(0)));
    assert_eq!(Scalar::read("9.99e-7"), Some(Scalar::new(0)));
    assert_eq!(Scalar::read("4.25E-5"), Some(Scalar::new(42)));
    assert_eq!(Scalar::read("1e-999"), Some(Scalar::new(0)));
    assert_eq!(Scalar::read("0e999"), Some(Scalar::new(0)));
    assert_eq!(Scalar::read("9.223372036854775807e12"), Some(Scalar::new(i64::MAX)));
    assert_eq!(Scalar::read("-9.223372036854775808e12"), Some(Scalar::new(i64::MIN)));
    assert_eq!(Scalar::read("0.001e007"), Some(Scalar::from_int(10000)));
    // the part before the mark may be larger than any number that can be held
    assert_eq!(Scalar::read("10000000000000e-2"), Some(Scalar::new(100_000_000_000_000_000)));
    assert_eq!(Scalar::read("10000000000000e-1"), Some(Scalar::new(1_000_000_000_000_000_000)));
    assert_eq!(Scalar::read("9223372036854775807e-6"), Some(Scalar::new(i64::MAX)));
    assert_eq!(Scalar::read("-9223372036854775808E-6"), Some(Scalar::new(i64::MIN)));
    assert_eq!(Scalar::read("123456789012345678901234567890e-25"), Some(Scalar::new(12_345_678_901)));
}

#[test]
fn read_takes_plain_numbers_as_parse_does() {
    for text in ["1.5", "100", "-0.25", "0.0000019", "007.5", "9223372036854.775807", "", "-", "1.", ".5", "abc", "1..2"] {
        assert_eq!(Scalar::read(text), Scalar::parse(text), "{text:?}");
    }
    for v in [0i64, 1, -1, 999_999, 1_000_000, -123_456_789, i64::MAX, i64::MIN] {
        let v = Scalar::new(v);
        assert_eq!(Scalar::read(&v.to_text()), Some(v));
    }
}

#[test]
fn read_refuses_what_is_no_number() {
    for text in [
        "e", "e5", "1e", "1e+", "1e-", "1.e5", ".5e1", "1e5e5", "1e5.0", "1e 5", "1e1000", "1e0999x", "--1e2", "+1e2",
        "1 e2", "1e++2", "1E-+2", "x1e2",
    ] {
        assert_eq!(Scalar::read(text), None, "{text:?}");
    }
    // too large to hold
    assert_eq!(Scalar::read("1e13"), None);
    assert_eq!(Scalar::read("9.223372036854775808e12"), None);
    assert_eq!(Scalar::read("-9.223372036854775809e12"), None);
    assert_eq!(Scalar::read("1e999"), None);
    assert_eq!(Scalar::read("10000000000000e0"), None);
    assert_eq!(Scalar::read("9223372036854775808e-6"), None);
}
