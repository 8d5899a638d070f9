//! Settings of the triangle rasterizer and its file header.
use vstd::prelude::*;
use crate::number::{Decimal, parse_signed, parse_unsigned, signed_literal, unsigned_literal};
use crate::scene::{get_vertex, vertex_index};
use crate::scene_file::{ParseError, all_decimal, dec, is_u32_literal};
use crate::text::{chars_of, fields, split_fields, split_words, string_of, views, words, is_word};

verus! {

/// The first line of a triangle file: a leading word, the image size and
/// the output name.
#[derive(Debug)]
pub struct FileHeader {
    pub size: (u32, u32),
    pub name: String,
}

/// Why a header line with the words `ws` is refused, if it is.
pub open spec fn raster_header_error(ws: Seq<Seq<char>>) -> Option<ParseError> {
    if ws.len() < 4 {
        Some(ParseError::WrongArgumentCount)
    } else if !is_u32_literal(ws[1]) || !is_u32_literal(ws[2]) {
        Some(ParseError::InvalidNumber)
    } else {
        None
    }
}

impl FileHeader {
    /// Reads a header line; words after the name are ignored.
    pub fn from_str(s: &str) -> (r: Result<FileHeader, ParseError>)
        ensures
            match raster_header_error(words(s@)) {
                Some(e) => r == Err::<FileHeader, ParseError>(e),
                None => r is Ok && r->Ok_0.size.0 == unsigned_literal(words(s@)[1])->0
                    && r->Ok_0.size.1 == unsigned_literal(words(s@)[2])->0 && r->Ok_0.name@
                    == words(s@)[3],
            },
    {
        let ws = split_words(&chars_of(s));
        let ghost v = views(ws@);
        if ws.len() < 4 {
            return Err(ParseError::WrongArgumentCount);
        }
        assert(v[1] == ws@[1]@ && v[2] == ws@[2]@ && v[3] == ws@[3]@);
        let width = match parse_unsigned(&ws[1], u32::MAX as u64) {
            Some(w) => w as u32,
            None => {
                return Err(ParseError::InvalidNumber);
            },
        };
        let height = match parse_unsigned(&ws[2], u32::MAX as u64) {
            Some(h) => h as u32,
            None => {
                return Err(ParseError::InvalidNumber);
            },
        };
        Ok(FileHeader { size: (width, height), name: string_of(&ws[3]) })
    }
}

/// A rasterizer for one image size, with its color and perspective options.
pub struct BasicRasterizer {
    pub width: u32,
    pub height: u32,
    pub srgb: bool,
    pub hyp: bool,
}

impl BasicRasterizer {
    pub fn new(width: u32, height: u32, srgb: bool, hyp: bool) -> (r: BasicRasterizer)
        ensures
            r.width == width && r.height == height && r.srgb == srgb && r.hyp == hyp,
    {
        BasicRasterizer { width, height, hyp, srgb }
    }
}

/// How vertex attributes are interpolated: in linear light rather than sRGB,
/// and with perspective (hyperbolic) correction.
pub struct VertexConverter {
    pub use_linear: bool,
    pub use_hyp: bool,
}

impl VertexConverter {
    pub fn new(use_linear: bool, use_hyp: bool) -> (r: VertexConverter)
        ensures
            r.use_linear == use_linear && r.use_hyp == use_hyp,
    {
        VertexConverter { use_linear, use_hyp }
    }
}

/// The Lambertian (cosine) lighting model.
pub struct LambertLighting {}

/// A vertex: clip-space position `x y z w` and color `r g b` with `alpha`.
#[derive(Clone, Copy, Debug, PartialEq, Eq, Structural)]
pub struct Vertex {
    pub x: Decimal,
    pub y: Decimal,
    pub z: Decimal,
    pub w: Decimal,
    pub r: Decimal,
    pub g: Decimal,
    pub b: Decimal,
    pub alpha: Decimal,
}

/// Three vertices in the order given.
#[derive(Clone, Copy, Debug, PartialEq, Eq, Structural)]
pub struct Triangle {
    pub a: Vertex,
    pub b: Vertex,
    pub c: Vertex,
}

impl Vertex {
    /// A vertex at `xyzw` with color `rgba`.
    pub fn from_xyzw_rgba(xyzw: [Decimal; 4], rgba: [Decimal; 4]) -> (r: Vertex)
        ensures
            r == vertex_of(xyzw@, rgba@),
    {
        Vertex {
            x: xyzw[0],
            y: xyzw[1],
            z: xyzw[2],
            w: xyzw[3],
            r: rgba[0],
            g: rgba[1],
            b: rgba[2],
            alpha: rgba[3],
        }
    }
}

pub open spec fn vertex_of(p: Seq<Decimal>, c: Seq<Decimal>) -> Vertex {
    Vertex { x: p[0], y: p[1], z: p[2], w: p[3], r: c[0], g: c[1], b: c[2], alpha: c[3] }
}

/// One line of a triangle file.
#[derive(Clone, Copy, Debug, PartialEq, Eq)]
pub enum Entry {
    Xyzw([Decimal; 4]),
    Rgb([Decimal; 3]),
    Rgba([Decimal; 4]),
    Triangle([i8; 3]),
    Comment,
    Depth,
    Srgb,
    Hyp,
}

pub open spec fn is_i8_literal(w: Seq<char>) -> bool {
    signed_literal(w) is Some && i8::MIN <= signed_literal(w)->0 <= i8::MAX
}

/// Number of decimal arguments of a line that starts with `k`, for the
/// words that take them.
pub open spec fn decimal_arity(k: Seq<char>) -> Option<nat> {
    if k == "xyzw"@ {
        Some(4)
    } else if k == "rgb"@ {
        Some(3)
    } else if k == "rgba"@ {
        Some(4)
    } else {
        None
    }
}

/// Why a line with the words `ws` is refused, if it is.
pub open spec fn raster_entry_error(ws: Seq<Seq<char>>) -> Option<ParseError> {
    if ws.len() == 0 {
        Some(ParseError::UnknownEntry)
    } else if decimal_arity(ws[0]) is Some {
        if ws.len() != decimal_arity(ws[0])->0 + 1 {
            Some(ParseError::WrongArgumentCount)
        } else if all_decimal(ws.drop_first()) {
            None
        } else {
            Some(ParseError::InvalidNumber)
        }
    } else if ws[0] == "tri"@ {
        if ws.len() != 4 {
            Some(ParseError::WrongArgumentCount)
        } else if is_i8_literal(ws[1]) && is_i8_literal(ws[2]) && is_i8_literal(ws[3]) {
            None
        } else {
            Some(ParseError::InvalidNumber)
        }
    } else if ws[0] == "depth"@ || ws[0] == "sRGB"@ || ws[0] == "hyp"@ || ws[0] == "#"@ {
        None
    } else {
        Some(ParseError::UnknownEntry)
    }
}

/// What a line with the words `ws` holds, when `raster_entry_error(ws)` is `None`.
pub open spec fn raster_entry_matches(e: Entry, ws: Seq<Seq<char>>) -> bool {
    let a = ws.drop_first();
    if ws[0] == "xyzw"@ {
        e matches Entry::Xyzw(p) && forall|i: int| 0 <= i < 4 ==> #[trigger] p@[i] == dec(a, i)
    } else if ws[0] == "rgb"@ {
        e matches Entry::Rgb(p) && forall|i: int| 0 <= i < 3 ==> #[trigger] p@[i] == dec(a, i)
    } else if ws[0] == "rgba"@ {
        e matches Entry::Rgba(p) && forall|i: int| 0 <= i < 4 ==> #[trigger] p@[i] == dec(a, i)
    } else if ws[0] == "tri"@ {
        e matches Entry::Triangle(t) && forall|i: int|
            0 <= i < 3 ==> #[trigger] t@[i] == signed_literal(a[i])->0
    } else if ws[0] == "depth"@ {
        e == Entry::Depth
    } else if ws[0] == "sRGB"@ {
        e == Entry::Srgb
    } else if ws[0] == "hyp"@ {
        e == Entry::Hyp
    } else {
        e == Entry::Comment
    }
}

/// Reads `n` decimal arguments after the first word.
fn decimals(ws: &Vec<Vec<char>>, n: usize) -> (r: Option<Vec<Decimal>>)
    requires
        ws@.len() == n + 1,
    ensures
        r is Some <==> all_decimal(views(ws@).drop_first()),
        r is Some ==> r->0@.len() == n && forall|i: int|
            0 <= i < n ==> r->0@[i] == #[trigger] dec(views(ws@).drop_first(), i),
{
    let ghost a = views(ws@).drop_first();
    let mut out: Vec<Decimal> = Vec::new();
    let mut i: usize = 1;
    while i < ws.len()
        invariant
            1 <= i <= ws@.len(),
            ws@.len() == n + 1,
            a == views(ws@).drop_first(),
            out@.len() == i - 1,
            forall|j: int| 0 <= j < i - 1 ==> (#[trigger] crate::number::decimal_literal(a[j])) is Some,
            forall|j: int| 0 <= j < i - 1 ==> out@[j] == #[trigger] dec(a, j),
        decreases ws@.len() - i,
    {
        assert(a[i - 1] == ws@[i as int]@);
        match crate::number::parse_decimal(&ws[i]) {
            Some(d) => {
                out.push(d);
            },
            None => {
                return None;
            },
        }
        i = i + 1;
    }
    Some(out)
}

impl Entry {
    /// Reads a line from its words.
    pub fn from_words(ws: &Vec<Vec<char>>) -> (r: Result<Entry, ParseError>)
        ensures
            match raster_entry_error(views(ws@)) {
                Some(e) => r == Err::<Entry, ParseError>(e),
                None => r is Ok && raster_entry_matches(r->Ok_0, views(ws@)),
            },
    {
        let ghost v = views(ws@);
        if ws.len() == 0 {
            return Err(ParseError::UnknownEntry);
        }
        assert(v[0] == ws@[0]@);
        let k = &ws[0];
        let n: usize = if is_word(k, "xyzw") {
            4
        } else if is_word(k, "rgb") {
            3
        } else if is_word(k, "rgba") {
            4
        } else {
            0
        };
        if n > 0 {
            if ws.len() != n + 1 {
                return Err(ParseError::WrongArgumentCount);
            }
            let d = match decimals(ws, n) {
                Some(d) => d,
                None => {
                    return Err(ParseError::InvalidNumber);
                },
            };
            if is_word(k, "xyzw") {
                let p = [d[0], d[1], d[2], d[3]];
                assert(forall|i: int| 0 <= i < 4 ==> #[trigger] p@[i] == d@[i]);
                Ok(Entry::Xyzw(p))
            } else if is_word(k, "rgb") {
                let p = [d[0], d[1], d[2]];
                assert(forall|i: int| 0 <= i < 3 ==> #[trigger] p@[i] == d@[i]);
                Ok(Entry::Rgb(p))
            } else {
                let p = [d[0], d[1], d[2], d[3]];
                assert(forall|i: int| 0 <= i < 4 ==> #[trigger] p@[i] == d@[i]);
                Ok(Entry::Rgba(p))
            }
        } else if is_word(k, "tri") {
            if ws.len() != 4 {
                return Err(ParseError::WrongArgumentCount);
            }
            assert(v[1] == ws@[1]@ && v[2] == ws@[2]@ && v[3] == ws@[3]@);
            let i1 = parse_signed(&ws[1], 128, 127);
            let i2 = parse_signed(&ws[2], 128, 127);
            let i3 = parse_signed(&ws[3], 128, 127);
            match (i1, i2, i3) {
                (Some(i1), Some(i2), Some(i3)) => {
                    let t = [i1 as i8, i2 as i8, i3 as i8];
                    assert(t@[0] == i1 && t@[1] == i2 && t@[2] == i3);
                    Ok(Entry::Triangle(t))
                },
                _ => Err(ParseError::InvalidNumber),
            }
        } else if is_word(k, "depth") {
            Ok(Entry::Depth)
        } else if is_word(k, "sRGB") {
            Ok(Entry::Srgb)
        } else if is_word(k, "hyp") {
            Ok(Entry::Hyp)
        } else if is_word(k, "#") {
            Ok(Entry::Comment)
        } else {
            Err(ParseError::UnknownEntry)
        }
    }

    /// Reads a line.
    pub fn from_str(s: &str) -> (r: Result<Entry, ParseError>)
        ensures
            match raster_entry_error(words(s@)) {
                Some(e) => r == Err::<Entry, ParseError>(e),
                None => r is Ok && raster_entry_matches(r->Ok_0, words(s@)),
            },
    {
        let ws = split_words(&chars_of(s));
        Entry::from_words(&ws)
    }
}

/// A triangle file: its header, its triangles in order, and its flags.
#[derive(Debug)]
pub struct File {
    pub header: FileHeader,
    pub triangles: Vec<Triangle>,
    pub depth: bool,
    pub srgb: bool,
    pub hyp: bool,
}

/// The state while the entries of a triangle file are applied.
pub struct RasterModel {
    pub vertices: Seq<Vertex>,
    pub triangles: Seq<Triangle>,
    pub color: Seq<Decimal>,
    pub depth: bool,
    pub srgb: bool,
    pub hyp: bool,
}

pub open spec fn channel_max() -> Decimal {
    Decimal { negative: false, magnitude: 255, scale: 0 }
}

/// No vertices yet, opaque white, no flags.
pub open spec fn initial_raster() -> RasterModel {
    RasterModel {
        vertices: seq![],
        triangles: seq![],
        color: seq![channel_max(), channel_max(), channel_max(), channel_max()],
        depth: false,
        srgb: false,
        hyp: false,
    }
}

/// What one entry does: a vertex takes the current color, a color entry
/// sets it (opaque for `rgb`), a triangle joins three earlier vertices.
pub open spec fn raster_step(st: RasterModel, e: Entry) -> Result<RasterModel, ParseError> {
    match e {
        Entry::Xyzw(p) => Ok(RasterModel { vertices: st.vertices.push(vertex_of(p@, st.color)), ..st }),
        Entry::Rgb(c) => Ok(RasterModel { color: seq![c[0], c[1], c[2], channel_max()], ..st }),
        Entry::Rgba(c) => Ok(RasterModel { color: c@, ..st }),
        Entry::Triangle(t) => {
            let n = st.vertices.len() as int;
            match (vertex_index(t[0] as int, n), vertex_index(t[1] as int, n), vertex_index(t[2] as int, n)) {
                (Some(i), Some(j), Some(k)) => Ok(
                    RasterModel {
                        triangles: st.triangles.push(
                            Triangle { a: st.vertices[i], b: st.vertices[j], c: st.vertices[k] },
                        ),
                        ..st
                    },
                ),
                _ => Err(ParseError::BadVertexIndex),
            }
        },
        Entry::Depth => Ok(RasterModel { depth: true, ..st }),
        Entry::Srgb => Ok(RasterModel { srgb: true, ..st }),
        Entry::Hyp => Ok(RasterModel { hyp: true, ..st }),
        Entry::Comment => Ok(st),
    }
}

pub open spec fn raster_run(es: Seq<Entry>) -> Result<RasterModel, ParseError>
    decreases es.len(),
{
    if es.len() == 0 {
        Ok(initial_raster())
    } else {
        match raster_run(es.drop_last()) {
            Ok(st) => raster_step(st, es.last()),
            Err(e) => Err(e),
        }
    }
}

/// The lines among `wl` that can be read, in order.
pub open spec fn readable_lines(wl: Seq<Seq<Seq<char>>>) -> Seq<Seq<Seq<char>>>
    decreases wl.len(),
{
    if wl.len() == 0 {
        seq![]
    } else if raster_entry_error(wl.last()) is None {
        readable_lines(wl.drop_last()).push(wl.last())
    } else {
        readable_lines(wl.drop_last())
    }
}

/// Whether `es` are the entries that the lines `rl` hold.
pub open spec fn read_from(es: Seq<Entry>, rl: Seq<Seq<Seq<char>>>) -> bool {
    es.len() == rl.len() && forall|i: int|
        0 <= i < es.len() ==> raster_entry_matches(#[trigger] es[i], rl[i])
}

/// What reading the triangle file `text` gives, for the entries `es` read
/// from its lines.
pub open spec fn raster_outcome(text: Seq<char>, es: Seq<Entry>, r: Result<File, ParseError>) -> bool {
    let ls = fields(text, true);
    let hw = words(ls[0]);
    &&& read_from(es, readable_lines(ls.drop_first().map_values(|l: Seq<char>| words(l))))
    &&& match raster_run(es) {
        Err(e) => r == Err::<File, ParseError>(e),
        Ok(m) => {
            &&& r is Ok
            &&& r->Ok_0.header.size.0 == unsigned_literal(hw[1])->0
            &&& r->Ok_0.header.size.1 == unsigned_literal(hw[2])->0
            &&& r->Ok_0.header.name@ == hw[3]
            &&& r->Ok_0.triangles@ == m.triangles
            &&& r->Ok_0.depth == m.depth
            &&& r->Ok_0.srgb == m.srgb
            &&& r->Ok_0.hyp == m.hyp
        },
    }
}

proof fn lemma_raster_err_extends(es: Seq<Entry>, k: int)
    requires
        1 <= k <= es.len(),
        raster_run(es.take(k)) is Err,
    ensures
        raster_run(es) == raster_run(es.take(k)),
    decreases es.len() - k,
{
    if k < es.len() {
        assert(es.take(k + 1).drop_last() =~= es.take(k));
        lemma_raster_err_extends(es, k + 1);
    } else {
        assert(es.take(k) =~= es);
    }
}

fn channel_max_exec() -> (r: Decimal)
    ensures
        r == channel_max(),
{
    Decimal { negative: false, magnitude: 255, scale: 0 }
}

/// Applies the entries in order.
fn apply_entries(es: &Vec<Entry>) -> (r: Result<(Vec<Triangle>, bool, bool, bool), ParseError>)
    ensures
        match raster_run(es@) {
            Err(e) => r == Err::<(Vec<Triangle>, bool, bool, bool), ParseError>(e),
            Ok(m) => r is Ok && r->Ok_0.0@ == m.triangles && r->Ok_0.1 == m.depth && r->Ok_0.2
                == m.srgb && r->Ok_0.3 == m.hyp,
        },
{
    let mut vertices: Vec<Vertex> = Vec::new();
    let mut triangles: Vec<Triangle> = Vec::new();
    let m = channel_max_exec();
    let mut color: [Decimal; 4] = [m, m, m, m];
    let mut depth = false;
    let mut srgb = false;
    let mut hyp = false;
    let mut i: usize = 0;
    assert(es@.take(0) =~= Seq::<Entry>::empty());
    assert(color@ =~= initial_raster().color);
    assert(vertices@ =~= Seq::<Vertex>::empty());
    assert(triangles@ =~= Seq::<Triangle>::empty());
    while i < es.len()
        invariant
            i <= es@.len(),
            raster_run(es@.take(i as int)) == Ok::<RasterModel, ParseError>(
                RasterModel { vertices: vertices@, triangles: triangles@, color: color@, depth, srgb, hyp },
            ),
        decreases es@.len() - i,
    {
        assert(es@.take(i + 1).drop_last() =~= es@.take(i as int));
        assert(es@.take(i + 1).last() == es@[i as int]);
        match es[i] {
            Entry::Xyzw(p) => {
                vertices.push(Vertex::from_xyzw_rgba(p, color));
            },
            Entry::Rgb(c) => {
                color = [c[0], c[1], c[2], channel_max_exec()];
                assert(color@ =~= seq![c[0], c[1], c[2], channel_max()]);
            },
            Entry::Rgba(c) => {
                color = c;
            },
            Entry::Triangle(t) => {
                let a = get_vertex(t[0] as i32, &vertices);
                let b = get_vertex(t[1] as i32, &vertices);
                let c = get_vertex(t[2] as i32, &vertices);
                match (a, b, c) {
                    (Some(a), Some(b), Some(c)) => {
                        triangles.push(Triangle { a, b, c });
                    },
                    _ => {
                        proof {
                            lemma_raster_err_extends(es@, i + 1);
                        }
                        return Err(ParseError::BadVertexIndex);
                    },
                }
            },
            Entry::Depth => {
                depth = true;
            },
            Entry::Srgb => {
                srgb = true;
            },
            Entry::Hyp => {
                hyp = true;
            },
            Entry::Comment => {},
        }
        i = i + 1;
    }
    assert(es@.take(i as int) =~= es@);
    Ok((triangles, depth, srgb, hyp))
}

impl File {
    /// Reads a triangle file: its first non-empty line is the header; each
    /// later line that can be read gives an entry, and the others are
    /// skipped; the entries are then applied in order.
    pub fn from_str(s: &str) -> (r: Result<File, ParseError>)
        ensures
            ({
                let ls = fields(s@, true);
                if ls.len() == 0 {
                    r == Err::<File, ParseError>(ParseError::EmptyFile)
                } else {
                    match raster_header_error(words(ls[0])) {
                        Some(e) => r == Err::<File, ParseError>(e),
                        None => exists|es: Seq<Entry>| raster_outcome(s@, es, r),
                    }
                }
            }),
    {
        let lines = split_fields(&chars_of(s), true);
        let ghost ls = views(lines@);
        if lines.len() == 0 {
            return Err(ParseError::EmptyFile);
        }
        assert(ls[0] == lines@[0]@);
        let head = split_words(&lines[0]);
        let ghost hw = views(head@);
        if head.len() < 4 {
            return Err(ParseError::WrongArgumentCount);
        }
        assert(hw[1] == head@[1]@ && hw[2] == head@[2]@ && hw[3] == head@[3]@);
        let width = match parse_unsigned(&head[1], u32::MAX as u64) {
            Some(w) => w as u32,
            None => {
                return Err(ParseError::InvalidNumber);
            },
        };
        let height = match parse_unsigned(&head[2], u32::MAX as u64) {
            Some(h) => h as u32,
            None => {
                return Err(ParseError::InvalidNumber);
            },
        };
        let header = FileHeader { size: (width, height), name: string_of(&head[3]) };
        let ghost wl = ls.drop_first().map_values(|l: Seq<char>| words(l));
        let mut entries: Vec<Entry> = Vec::new();
        let mut i: usize = 1;
        assert(wl.take(0) =~= Seq::<Seq<Seq<char>>>::empty());
        while i < lines.len()
            invariant
                1 <= i <= lines@.len(),
                ls == views(lines@),
                wl == ls.drop_first().map_values(|l: Seq<char>| words(l)),
                read_from(entries@, readable_lines(wl.take(i - 1))),
            decreases lines@.len() - i,
        {
            let ws = split_words(&lines[i]);
            assert(wl.take(i as int).drop_last() =~= wl.take(i - 1));
            assert(wl.take(i as int).last() == views(ws@));
            match Entry::from_words(&ws) {
                Ok(e) => {
                    entries.push(e);
                },
                Err(_) => {},
            }
            i = i + 1;
        }
        assert(wl.take(i - 1) =~= wl);
        let r = match apply_entries(&entries) {
            Ok((triangles, depth, srgb, hyp)) => Ok(File { header, triangles, depth, srgb, hyp }),
            Err(e) => Err(e),
        };
        assert(raster_outcome(s@, entries@, r));
        r
    }
}

} // verus!
