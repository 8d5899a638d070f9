use raytracer::number::{parse_decimal, Decimal};
use raytracer::scene_file::{parse_file, FileEntry, FileHeader, FileType, ParseError};

fn num(negative: bool, magnitude: u64, scale: u32) -> Decimal {
    Decimal { negative, magnitude, scale }
}

fn decimal(s: &str) -> Option<Decimal> {
    parse_decimal(&s.chars().collect())
}

#[test]
fn decimal_literals() {
    assert_eq!(decimal("3.5"), Some(num(false, 35, 1)));
    assert_eq!(decimal("-0.25"), Some(num(true, 25, 2)));
    assert_eq!(decimal("+7"), Some(num(false, 7, 0)));
    assert_eq!(decimal(".5"), Some(num(false, 5, 1)));
    assert_eq!(decimal("5."), Some(num(false, 5, 0)));
    assert_eq!(decimal("-0"), Some(num(true, 0, 0)));
    assert_eq!(decimal("18446744073709551615"), Some(num(false, u64::MAX, 0)));
    assert_eq!(decimal("18446744073709551616"), None);
    assert_eq!(decimal("."), None);
    assert_eq!(decimal(""), None);
    assert_eq!(decimal("-"), None);
    assert_eq!(decimal("1.2.3"), None);
    assert_eq!(decimal("1e5"), None);
    assert_eq!(decimal("abc"), None);
}

#[test]
fn decimal_zero_and_one() {
    assert!(num(true, 0, 3).is_zero());
    assert!(!num(false, 1, 3).is_zero());
    assert!(num(false, 1, 0).is_one());
    assert!(num(false, 1000, 3).is_one());
    assert!(!num(true, 1, 0).is_one());
    assert!(!num(false, 11, 1).is_one());
    assert!(!num(false, 1, 25).is_one());
    assert_eq!(num(false, 4, 1).negated(), num(true, 4, 1));
}

#[test]
fn file_type_is_png_only() {
    assert_eq!(FileType::from_str("png"), Ok(FileType::Png));
    assert_eq!(FileType::from_str("jpg"), Err(ParseError::UnknownFileType));
}

#[test]
fn header_reads_its_four_words() {
    let h = FileHeader::from_str("png 320 240 render.png").unwrap();
    assert_eq!(h.output_type, FileType::Png);
    assert_eq!((h.width, h.height), (320, 240));
    assert_eq!(h.name, "render.png");
    assert!(matches!(FileHeader::from_str("gif 320 240 render.gif"), Err(ParseError::UnknownFileType)));
    assert!(matches!(FileHeader::from_str("png 320 render.png"), Err(ParseError::WrongArgumentCount)));
    assert!(matches!(FileHeader::from_str("png 320 4294967296 r.png"), Err(ParseError::InvalidNumber)));
}

#[test]
fn entries_of_each_kind() {
    assert_eq!(
        FileEntry::from_str("sphere 0 0 -1.5 0.3"),
        Ok(FileEntry::Sphere { x: num(false, 0, 0), y: num(false, 0, 0), z: num(true, 15, 1), r: num(false, 3, 1) })
    );
    assert_eq!(
        FileEntry::from_str("plane 0 1 0 2"),
        Ok(FileEntry::Plane { a: num(false, 0, 0), b: num(false, 1, 0), c: num(false, 0, 0), d: num(false, 2, 0) })
    );
    assert_eq!(FileEntry::from_str("trif 1 -1 2"), Ok(FileEntry::Triangle { a: 1, b: -1, c: 2 }));
    assert_eq!(FileEntry::from_str("bounces 7"), Ok(FileEntry::Bounces { b: 7 }));
    assert_eq!(FileEntry::from_str("aa 3"), Ok(FileEntry::Aa { n: 3 }));
    assert_eq!(FileEntry::from_str("expose 2"), Ok(FileEntry::Expose { v: num(false, 2, 0) }));
    assert_eq!(FileEntry::from_str("shininess 0.5"), Ok(FileEntry::Shiny { s: num(false, 5, 1) }));
    assert!(matches!(FileEntry::from_str("sun 1 1 1"), Ok(FileEntry::Sun { .. })));
    assert!(matches!(FileEntry::from_str("bulb 1 1 1"), Ok(FileEntry::Bulb { .. })));
    assert!(matches!(FileEntry::from_str("color 1 0.5 0"), Ok(FileEntry::Color { .. })));
    assert!(matches!(FileEntry::from_str("xyz 1 1 1"), Ok(FileEntry::Xyz { .. })));
    assert!(matches!(FileEntry::from_str("eye 0 0 1"), Ok(FileEntry::Eye { .. })));
    assert!(matches!(FileEntry::from_str("up 0 1 0"), Ok(FileEntry::Up { .. })));
    assert!(matches!(FileEntry::from_str("forward 0 0 -1"), Ok(FileEntry::Forward { .. })));
}

#[test]
fn entries_refuse_bad_lines() {
    assert_eq!(FileEntry::from_str("cube 1 2 3"), Err(ParseError::UnknownEntry));
    assert_eq!(FileEntry::from_str("sphere 1 2 3"), Err(ParseError::WrongArgumentCount));
    assert_eq!(FileEntry::from_str("sphere 1 2 3 4 5"), Err(ParseError::WrongArgumentCount));
    assert_eq!(FileEntry::from_str("sphere 1 2 x 4"), Err(ParseError::InvalidNumber));
    assert_eq!(FileEntry::from_str("trif 1 2 2147483648"), Err(ParseError::InvalidNumber));
    assert_eq!(FileEntry::from_str("trif 1 2 -2147483648"), Ok(FileEntry::Triangle { a: 1, b: 2, c: i32::MIN }));
    assert_eq!(FileEntry::from_str("aa -1"), Err(ParseError::InvalidNumber));
    assert_eq!(FileEntry::from_str("   "), Err(ParseError::UnknownEntry));
}

#[test]
fn parse_file_reads_header_and_entries() {
    let text = "png 20 10 out.png\n\nsphere 0 0 -1 0.5\n  sun 1 1 1  \r\naa 2\nexpose 1.5\nbounces 3\naa 5\n";
    let file = parse_file(text).unwrap();
    assert_eq!(file.header.name, "out.png");
    assert_eq!((file.header.width, file.header.height), (20, 10));
    assert_eq!(file.entries.len(), 6);
    assert_eq!(file.get_aa(), 2);
    assert_eq!(file.get_exposure(), Some(num(false, 15, 1)));
    assert_eq!(file.get_bounces(), Some(3));
}

#[test]
fn parse_file_defaults_and_errors() {
    let file = parse_file("png 1 1 a.png").unwrap();
    assert!(file.entries.is_empty());
    assert_eq!(file.get_aa(), 1);
    assert_eq!(file.get_exposure(), None);
    assert_eq!(file.get_bounces(), None);
    assert!(matches!(parse_file(""), Err(ParseError::EmptyFile)));
    assert!(matches!(parse_file("\n \n"), Err(ParseError::EmptyFile)));
    assert!(matches!(parse_file("png 1 1 a.png\nsphere 0 0 0 1\ncone 1\nsphere 1"), Err(ParseError::UnknownEntry)));
    assert!(matches!(parse_file("tga 1 1 a.tga\nsphere 0 0 0 1"), Err(ParseError::UnknownFileType)));
}
