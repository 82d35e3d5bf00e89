use pnc::Radix;
use pnc::literal::parse_literal;

fn parse(r: Radix, text: &str) -> Option<(i64, u8)> {
    parse_literal(r, &text.as_bytes().to_vec()).map(|p| (p.value, p.bits))
}

#[test]
fn decimal_small() {
    assert_eq!(parse(Radix::Base10, "100"), Some((100, 8)));
    assert_eq!(parse(Radix::Base10, "0"), Some((0, 8)));
    assert_eq!(parse(Radix::Base10, "127"), Some((127, 8)));
}

#[test]
fn decimal_width_boundaries() {
    assert_eq!(parse(Radix::Base10, "128"), Some((128, 16)));
    assert_eq!(parse(Radix::Base10, "255"), Some((255, 16)));
    assert_eq!(parse(Radix::Base10, "32767"), Some((32767, 16)));
    assert_eq!(parse(Radix::Base10, "32768"), Some((32768, 32)));
    assert_eq!(parse(Radix::Base10, "2147483647"), Some((2147483647, 32)));
    assert_eq!(parse(Radix::Base10, "2147483648"), Some((2147483648, 64)));
}

#[test]
fn decimal_negative() {
    assert_eq!(parse(Radix::Base10, "-1"), Some((-1, 8)));
    assert_eq!(parse(Radix::Base10, "-128"), Some((-128, 8)));
    assert_eq!(parse(Radix::Base10, "-129"), Some((-129, 16)));
}

#[test]
fn decimal_extremes() {
    assert_eq!(
        parse(Radix::Base10, "9223372036854775807"),
        Some((i64::MAX, 64))
    );
    assert_eq!(
        parse(Radix::Base10, "-9223372036854775808"),
        Some((i64::MIN, 64))
    );
    assert_eq!(parse(Radix::Base10, "9223372036854775808"), None);
    assert_eq!(parse(Radix::Base10, "-9223372036854775809"), None);
}

#[test]
fn hexadecimal() {
    assert_eq!(parse(Radix::Base16, "0xFF"), Some((255, 16)));
    assert_eq!(parse(Radix::Base16, "0xff"), Some((255, 16)));
    assert_eq!(parse(Radix::Base16, "0x7f"), Some((127, 8)));
    assert_eq!(parse(Radix::Base16, "0x12345"), Some((0x12345, 32)));
    assert_eq!(
        parse(Radix::Base16, "0x7FFFFFFFFFFFFFFF"),
        Some((i64::MAX, 64))
    );
    assert_eq!(parse(Radix::Base16, "0x8000000000000000"), None);
    assert_eq!(parse(Radix::Base16, "0xFFFFFFFFFFFFFFFF"), None);
}

#[test]
fn octal_and_binary() {
    assert_eq!(parse(Radix::Base8, "0o17"), Some((15, 8)));
    assert_eq!(parse(Radix::Base8, "0o777"), Some((511, 16)));
    assert_eq!(parse(Radix::Base2, "0b101"), Some((5, 8)));
    assert_eq!(parse(Radix::Base2, "0b11111111"), Some((255, 16)));
}

#[test]
fn malformed_literals() {
    assert_eq!(parse(Radix::Base16, "0xZZ"), None);
    assert_eq!(parse(Radix::Base10, ""), None);
    assert_eq!(parse(Radix::Base10, "-"), None);
    assert_eq!(parse(Radix::Base10, "12a"), None);
    assert_eq!(parse(Radix::Base10, "1-2"), None);
    assert_eq!(parse(Radix::Base16, "0x"), None);
    assert_eq!(parse(Radix::Base16, "FF"), None);
    assert_eq!(parse(Radix::Base8, "0o8"), None);
    assert_eq!(parse(Radix::Base2, "0b2"), None);
    assert_eq!(parse(Radix::Base2, "0x101"), None);
}
