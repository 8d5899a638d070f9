use raytracer::number::Decimal;
use raytracer::raster::{BasicRasterizer, Entry, File, FileHeader, Vertex, VertexConverter};
use raytracer::scene_file::ParseError;

fn num(negative: bool, magnitude: u64, scale: u32) -> Decimal {
    Decimal { negative, magnitude, scale }
}

#[test]
fn xyzw() {
    let t1 = Entry::from_str("xyzw   1  3.5  3 4");
    let t2 = Entry::from_str("xyzw  -1 -2   -3 4");
    assert!(matches!(t1, Ok(Entry::Xyzw(x)) if x[0] == num(false, 1, 0) && x[1] == num(false, 35, 1)));
    assert!(matches!(t2, Ok(Entry::Xyzw(x)) if x[0] == num(true, 1, 0) && x[1] == num(true, 2, 0)));
}

#[test]
fn rgb() {
    let t1 = Entry::from_str("rgb 0 0 0");
    let t2 = Entry::from_str("rgb 0 255 0");
    assert!(matches!(t1, Ok(Entry::Rgb(x)) if x[0] == num(false, 0, 0) && x[1] == num(false, 0, 0)));
    assert!(matches!(t2, Ok(Entry::Rgb(x)) if x[0] == num(false, 0, 0) && x[1] == num(false, 255, 0)));
}

#[test]
fn file_parse() {
    let file = "png 20 30 mp1indexing.png
xyzw   1  3.5  3 4
xyzw  -1 -2   -3 4
rgb 0 0 0
xyzw   2  0    0 2
tri 1 -1 2
xyzw  -1  0.5  0 1
tri 1 -2 -1";
    let r = File::from_str(file);
    assert!(matches!(&r, Ok(f) if f.header.name == "mp1indexing.png" && f.triangles.len() == 2));
    let triangles = r.unwrap().triangles;
    let white = [num(false, 255, 0); 4];
    let black = [num(false, 0, 0), num(false, 0, 0), num(false, 0, 0), num(false, 255, 0)];
    let expected = [
        Vertex::from_xyzw_rgba([num(false, 1, 0), num(false, 35, 1), num(false, 3, 0), num(false, 4, 0)], white),
        Vertex::from_xyzw_rgba([num(false, 2, 0), num(false, 0, 0), num(false, 0, 0), num(false, 2, 0)], black),
        Vertex::from_xyzw_rgba([num(true, 1, 0), num(true, 2, 0), num(true, 3, 0), num(false, 4, 0)], white),
    ];
    assert_eq!([triangles[0].a, triangles[0].b, triangles[0].c], expected);
}

#[test]
fn triangle_file_flags_and_errors() {
    let r = File::from_str("png 2 2 a.png\ndepth\nsRGB\n# a comment\nhyp\n").unwrap();
    assert!(r.depth && r.srgb && r.hyp);
    assert!(r.triangles.is_empty());
    let r = File::from_str("png 2 2 a.png\nrgba 1 2 3 4\nxyzw 0 0 0 1\nxyzw 1 0 0 1\nxyzw 0 1 0 1\ntri 1 2 3\n").unwrap();
    assert!(!r.depth && !r.srgb && !r.hyp);
    assert_eq!(r.triangles[0].a.alpha, num(false, 4, 0));
    assert_eq!(r.triangles[0].c.y, num(false, 1, 0));
    assert!(matches!(File::from_str("png 2 2 a.png\nxyzw 0 0 0 1\ntri 1 1 2\n"), Err(ParseError::BadVertexIndex)));
    assert!(matches!(File::from_str(""), Err(ParseError::EmptyFile)));
    assert!(matches!(File::from_str("png 2 a.png"), Err(ParseError::WrongArgumentCount)));
}

#[test]
fn triangle_entries_refuse_bad_input() {
    assert_eq!(Entry::from_str("tri 1 2 128"), Err(ParseError::InvalidNumber));
    assert_eq!(Entry::from_str("tri 1 2 -128"), Ok(Entry::Triangle([1, 2, -128])));
    assert_eq!(Entry::from_str("rgb 1 2"), Err(ParseError::WrongArgumentCount));
    assert_eq!(Entry::from_str("xyzw 1 2 3 x"), Err(ParseError::InvalidNumber));
    assert_eq!(Entry::from_str("quad 1 2 3"), Err(ParseError::UnknownEntry));
}

#[test]
fn raster_header_reads_size_and_name() {
    let h = FileHeader::from_str("png 20 30 out.png").unwrap();
    assert_eq!(h.size, (20, 30));
    assert_eq!(h.name, "out.png");
    assert!(matches!(FileHeader::from_str("png 20 -3 out.png"), Err(ParseError::InvalidNumber)));
}

#[test]
fn rasterizer_settings_keep_their_arguments() {
    let r = BasicRasterizer::new(20, 30, true, false);
    assert_eq!((r.width, r.height, r.srgb, r.hyp), (20, 30, true, false));
    let c = VertexConverter::new(false, true);
    assert_eq!((c.use_linear, c.use_hyp), (false, true));
}
