use raytracer::pixels::{Entry, File, PixelError};

#[test]
fn can_deserialize_xyrgb() {
    let result = Entry::from_str("xyrgb 0 1 255 255 255");
    assert!(matches!(result, Ok(Entry::Xyrgb { x, y, r, g, b }) if x == 0 && y == 1 && r == 255 && g == 255 && b == 255));
}

#[test]
fn can_deserialize_xyc() {
    let result = Entry::from_str("xyc 2 3 #aaaaff");
    match result {
        Ok(Entry::Xyc { x, y, color }) => {
            assert!(x == 2 && y == 3);
            assert_eq!([170, 170, 255], color);
        }
        other => panic!("unexpected {:?}", other),
    }
}

#[test]
fn xyc_reads_upper_case_hex() {
    let result = Entry::from_str("xyc 0 0 #0A10fF");
    assert!(matches!(result, Ok(Entry::Xyc { color, .. }) if color == [10, 16, 255]));
}

#[test]
fn xyc_refuses_bad_colors() {
    assert_eq!(Entry::from_str("xyc 0 0 #aaaaf"), Err(PixelError::InvalidColor));
    assert_eq!(Entry::from_str("xyc 0 0 #aaaaffa"), Err(PixelError::InvalidColor));
    assert_eq!(Entry::from_str("xyc 0 0 #gggggg"), Err(PixelError::InvalidColor));
    assert_eq!(Entry::from_str("xyc 0 0 aaaaff"), Err(PixelError::InvalidColor));
}

#[test]
fn pixel_lines_refuse_bad_input() {
    assert_eq!(Entry::from_str("xyz 0 0 1 1 1"), Err(PixelError::UnknownCommand));
    assert_eq!(Entry::from_str("xyrgb 0 0 1 1"), Err(PixelError::WrongArgumentCount));
    assert_eq!(Entry::from_str("xyrgb 0 0 1 1 256"), Err(PixelError::InvalidNumber));
    assert_eq!(Entry::from_str("xyrgb -1 0 1 1 1"), Err(PixelError::InvalidNumber));
    assert_eq!(Entry::from_str(""), Err(PixelError::UnknownCommand));
}

#[test]
fn pixel_file_skips_unreadable_lines() {
    let text = "png 4 3 out.png\nxyrgb 1 2 10 20 30\n\nbogus line\nxyc 3 0 #ff0080\n";
    let file = File::from_str(text).unwrap();
    assert_eq!(file.width, 4);
    assert_eq!(file.height, 3);
    assert_eq!(file.filename, "out.png");
    assert_eq!(file.entries.len(), 2);
    let pixels = file.pixels();
    assert_eq!(pixels.len(), 2);
    assert_eq!((pixels[0].x, pixels[0].y, pixels[0].c), (1, 2, [10, 20, 30, 255]));
    assert_eq!((pixels[1].x, pixels[1].y, pixels[1].c), (3, 0, [255, 0, 128, 255]));
}

#[test]
fn pixel_file_needs_a_header() {
    assert!(matches!(File::from_str(""), Err(PixelError::WrongArgumentCount)));
    assert!(matches!(File::from_str("png 4 out.png"), Err(PixelError::WrongArgumentCount)));
    assert!(matches!(File::from_str("png x 3 out.png"), Err(PixelError::InvalidNumber)));
}
