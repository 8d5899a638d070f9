//! The scene language: a header line, then one entry per line.
use vstd::prelude::*;
use crate::number::{
    Decimal, decimal_literal, parse_decimal, parse_signed, parse_unsigned, signed_literal,
    unsigned_literal,
};
use crate::text::{fields, split_lines, split_words, string_of, views, words, is_word};

verus! {

/// Image formats that a scene can ask for.
#[derive(Clone, Copy, Debug, PartialEq, Eq, Structural)]
pub enum FileType {
    Png,
}

/// Why a scene text was refused.
#[derive(Clone, Copy, Debug, PartialEq, Eq, Structural)]
pub enum ParseError {
    /// The text holds no line with a word on it.
    EmptyFile,
    /// The header names an image format other than `png`.
    UnknownFileType,
    /// A line starts with a word that names no entry.
    UnknownEntry,
    /// A line has more or fewer arguments than its entry takes.
    WrongArgumentCount,
    /// An argument is not a literal of the type its entry takes.
    InvalidNumber,
    /// A triangle names a vertex that has not been declared.
    BadVertexIndex,
}

/// The first line of a scene: image format, size and file name.
#[derive(Debug)]
pub struct FileHeader {
    pub output_type: FileType,
    pub width: u32,
    pub height: u32,
    pub name: String,
}

/// One entry of a scene.
#[allow(inconsistent_fields)]
#[derive(Clone, Copy, Debug, PartialEq, Eq, Structural)]
pub enum FileEntry {
    Sphere { x: Decimal, y: Decimal, z: Decimal, r: Decimal },
    Sun { x: Decimal, y: Decimal, z: Decimal },
    Color { r: Decimal, g: Decimal, b: Decimal },
    Plane { a: Decimal, b: Decimal, c: Decimal, d: Decimal },
    Xyz { x: Decimal, y: Decimal, z: Decimal },
    Triangle { a: i32, b: i32, c: i32 },
    Bulb { x: Decimal, y: Decimal, z: Decimal },
    Eye { x: Decimal, y: Decimal, z: Decimal },
    Forward { x: Decimal, y: Decimal, z: Decimal },
    Up { x: Decimal, y: Decimal, z: Decimal },
    Expose { v: Decimal },
    Shiny { s: Decimal },
    Bounces { b: usize },
    Aa { n: usize },
}

/// A parsed scene: its header and its entries in order.
#[derive(Debug)]
pub struct ProcFile {
    pub header: FileHeader,
    pub entries: Vec<FileEntry>,
}

/// The word that starts an entry line.
#[derive(Clone, Copy, Debug, PartialEq, Eq, Structural)]
pub enum EntryKind {
    Sphere,
    Sun,
    Color,
    Plane,
    Xyz,
    Trif,
    Bulb,
    Eye,
    Forward,
    Up,
    Expose,
    Shininess,
    Bounces,
    Aa,
}

pub open spec fn kind_of(w: Seq<char>) -> Option<EntryKind> {
    if w == "sphere"@ {
        Some(EntryKind::Sphere)
    } else if w == "sun"@ {
        Some(EntryKind::Sun)
    } else if w == "color"@ {
        Some(EntryKind::Color)
    } else if w == "plane"@ {
        Some(EntryKind::Plane)
    } else if w == "xyz"@ {
        Some(EntryKind::Xyz)
    } else if w == "trif"@ {
        Some(EntryKind::Trif)
    } else if w == "bulb"@ {
        Some(EntryKind::Bulb)
    } else if w == "eye"@ {
        Some(EntryKind::Eye)
    } else if w == "forward"@ {
        Some(EntryKind::Forward)
    } else if w == "up"@ {
        Some(EntryKind::Up)
    } else if w == "expose"@ {
        Some(EntryKind::Expose)
    } else if w == "shininess"@ {
        Some(EntryKind::Shininess)
    } else if w == "bounces"@ {
        Some(EntryKind::Bounces)
    } else if w == "aa"@ {
        Some(EntryKind::Aa)
    } else {
        None
    }
}

/// Number of arguments that an entry takes.
pub open spec fn arity(k: EntryKind) -> nat {
    match k {
        EntryKind::Sphere | EntryKind::Plane => 4,
        EntryKind::Expose | EntryKind::Shininess | EntryKind::Bounces | EntryKind::Aa => 1,
        _ => 3,
    }
}

pub open spec fn all_decimal(args: Seq<Seq<char>>) -> bool {
    forall|i: int| 0 <= i < args.len() ==> (#[trigger] decimal_literal(args[i])) is Some
}

pub open spec fn dec(args: Seq<Seq<char>>, i: int) -> Decimal {
    decimal_literal(args[i])->0
}

/// The entry that a kind with decimal arguments makes of them.
pub open spec fn decimal_entry(k: EntryKind, a: Seq<Seq<char>>) -> FileEntry {
    match k {
        EntryKind::Sphere => FileEntry::Sphere { x: dec(a, 0), y: dec(a, 1), z: dec(a, 2), r: dec(a, 3) },
        EntryKind::Sun => FileEntry::Sun { x: dec(a, 0), y: dec(a, 1), z: dec(a, 2) },
        EntryKind::Color => FileEntry::Color { r: dec(a, 0), g: dec(a, 1), b: dec(a, 2) },
        EntryKind::Plane => FileEntry::Plane { a: dec(a, 0), b: dec(a, 1), c: dec(a, 2), d: dec(a, 3) },
        EntryKind::Xyz => FileEntry::Xyz { x: dec(a, 0), y: dec(a, 1), z: dec(a, 2) },
        EntryKind::Bulb => FileEntry::Bulb { x: dec(a, 0), y: dec(a, 1), z: dec(a, 2) },
        EntryKind::Eye => FileEntry::Eye { x: dec(a, 0), y: dec(a, 1), z: dec(a, 2) },
        EntryKind::Forward => FileEntry::Forward { x: dec(a, 0), y: dec(a, 1), z: dec(a, 2) },
        EntryKind::Up => FileEntry::Up { x: dec(a, 0), y: dec(a, 1), z: dec(a, 2) },
        EntryKind::Expose => FileEntry::Expose { v: dec(a, 0) },
        _ => FileEntry::Shiny { s: dec(a, 0) },
    }
}

/// Whether the word is a literal of an `i32`.
pub open spec fn is_i32_literal(w: Seq<char>) -> bool {
    signed_literal(w) is Some && i32::MIN <= signed_literal(w)->0 <= i32::MAX
}

/// Whether the word is a literal of a `usize`.
pub open spec fn is_usize_literal(w: Seq<char>) -> bool {
    unsigned_literal(w) is Some && unsigned_literal(w)->0 <= usize::MAX
}

/// Whether the word is a literal of a `u32`.
pub open spec fn is_u32_literal(w: Seq<char>) -> bool {
    unsigned_literal(w) is Some && unsigned_literal(w)->0 <= u32::MAX
}

/// The entry that a line with the words `ws` holds.
pub open spec fn entry_of(ws: Seq<Seq<char>>) -> Result<FileEntry, ParseError> {
    if ws.len() == 0 {
        Err(ParseError::UnknownEntry)
    } else {
        match kind_of(ws[0]) {
            None => Err(ParseError::UnknownEntry),
            Some(k) => {
                let a = ws.drop_first();
                if a.len() != arity(k) {
                    Err(ParseError::WrongArgumentCount)
                } else if k == EntryKind::Trif {
                    if is_i32_literal(a[0]) && is_i32_literal(a[1]) && is_i32_literal(a[2]) {
                        Ok(
                            FileEntry::Triangle {
                                a: signed_literal(a[0])->0 as i32,
                                b: signed_literal(a[1])->0 as i32,
                                c: signed_literal(a[2])->0 as i32,
                            },
                        )
                    } else {
                        Err(ParseError::InvalidNumber)
                    }
                } else if k == EntryKind::Bounces || k == EntryKind::Aa {
                    if is_usize_literal(a[0]) {
                        let v = unsigned_literal(a[0])->0 as usize;
                        Ok(
                            if k == EntryKind::Bounces {
                                FileEntry::Bounces { b: v }
                            } else {
                                FileEntry::Aa { n: v }
                            },
                        )
                    } else {
                        Err(ParseError::InvalidNumber)
                    }
                } else if all_decimal(a) {
                    Ok(decimal_entry(k, a))
                } else {
                    Err(ParseError::InvalidNumber)
                }
            },
        }
    }
}

/// Why a header line with the words `ws` is refused, if it is.
pub open spec fn header_error(ws: Seq<Seq<char>>) -> Option<ParseError> {
    if ws.len() != 4 {
        Some(ParseError::WrongArgumentCount)
    } else if ws[0] != "png"@ {
        Some(ParseError::UnknownFileType)
    } else if !is_u32_literal(ws[1]) || !is_u32_literal(ws[2]) {
        Some(ParseError::InvalidNumber)
    } else {
        None
    }
}

/// What a header with the words `ws` holds, when `header_error(ws)` is `None`.
pub open spec fn header_matches(h: FileHeader, ws: Seq<Seq<char>>) -> bool {
    &&& h.output_type == FileType::Png
    &&& h.width == unsigned_literal(ws[1])->0
    &&& h.height == unsigned_literal(ws[2])->0
    &&& h.name@ == ws[3]
}

fn entry_kind(w: &Vec<char>) -> (r: Option<EntryKind>)
    ensures
        r == kind_of(w@),
{
    if is_word(w, "sphere") {
        Some(EntryKind::Sphere)
    } else if is_word(w, "sun") {
        Some(EntryKind::Sun)
    } else if is_word(w, "color") {
        Some(EntryKind::Color)
    } else if is_word(w, "plane") {
        Some(EntryKind::Plane)
    } else if is_word(w, "xyz") {
        Some(EntryKind::Xyz)
    } else if is_word(w, "trif") {
        Some(EntryKind::Trif)
    } else if is_word(w, "bulb") {
        Some(EntryKind::Bulb)
    } else if is_word(w, "eye") {
        Some(EntryKind::Eye)
    } else if is_word(w, "forward") {
        Some(EntryKind::Forward)
    } else if is_word(w, "up") {
        Some(EntryKind::Up)
    } else if is_word(w, "expose") {
        Some(EntryKind::Expose)
    } else if is_word(w, "shininess") {
        Some(EntryKind::Shininess)
    } else if is_word(w, "bounces") {
        Some(EntryKind::Bounces)
    } else if is_word(w, "aa") {
        Some(EntryKind::Aa)
    } else {
        None
    }
}

/// Reads every word after the first as a decimal literal.
fn decimal_args(ws: &Vec<Vec<char>>) -> (r: Option<Vec<Decimal>>)
    requires
        ws@.len() >= 1,
    ensures
        r is Some <==> all_decimal(views(ws@).drop_first()),
        r is Some ==> r->0@.len() == ws@.len() - 1 && forall|i: int|
            0 <= i < ws@.len() - 1 ==> r->0@[i] == #[trigger] dec(views(ws@).drop_first(), i),
{
    let ghost a = views(ws@).drop_first();
    let mut out: Vec<Decimal> = Vec::new();
    let mut i: usize = 1;
    while i < ws.len()
        invariant
            1 <= i <= ws@.len(),
            a == views(ws@).drop_first(),
            out@.len() == i - 1,
            forall|j: int| 0 <= j < i - 1 ==> (#[trigger] decimal_literal(a[j])) is Some,
            forall|j: int| 0 <= j < i - 1 ==> out@[j] == #[trigger] dec(a, j),
        decreases ws@.len() - i,
    {
        assert(a[i - 1] == ws@[i as int]@);
        match parse_decimal(&ws[i]) {
            Some(d) => {
                out.push(d);
            },
            None => {
                return None;
            },
        }
        i = i + 1;
    }
    Some(out)
}

impl FileType {
    /// The image format that the word `s` names.
    pub fn from_str(s: &str) -> (r: Result<FileType, ParseError>)
        ensures
            r == if s@ == "png"@ {
                Ok::<FileType, ParseError>(FileType::Png)
            } else {
                Err(ParseError::UnknownFileType)
            },
    {
        let w = crate::text::chars_of(s);
        if is_word(&w, "png") {
            Ok(FileType::Png)
        } else {
            Err(ParseError::UnknownFileType)
        }
    }
}

impl FileHeader {
    /// Reads a header from its words.
    pub fn from_words(ws: &Vec<Vec<char>>) -> (r: Result<FileHeader, ParseError>)
        ensures
            match header_error(views(ws@)) {
                Some(e) => r == Err::<FileHeader, ParseError>(e),
                None => r is Ok && header_matches(r->Ok_0, views(ws@)),
            },
    {
        let ghost v = views(ws@);
        if ws.len() != 4 {
            return Err(ParseError::WrongArgumentCount);
        }
        assert(v[0] == ws@[0]@ && v[1] == ws@[1]@ && v[2] == ws@[2]@ && v[3] == ws@[3]@);
        if !is_word(&ws[0], "png") {
            return Err(ParseError::UnknownFileType);
        }
        let width = match parse_unsigned(&ws[1], u32::MAX as u64) {
            Some(w) => w as u32,
            None => {
                return Err(ParseError::InvalidNumber);
            },
        };
        let height = match parse_unsigned(&ws[2], u32::MAX as u64) {
            Some(h) => h as u32,
            None => {
                return Err(ParseError::InvalidNumber);
            },
        };
        let name = string_of(&ws[3]);
        Ok(FileHeader { output_type: FileType::Png, width, height, name })
    }

    /// Reads a header line.
    pub fn from_str(s: &str) -> (r: Result<FileHeader, ParseError>)
        ensures
            match header_error(words(s@)) {
                Some(e) => r == Err::<FileHeader, ParseError>(e),
                None => r is Ok && header_matches(r->Ok_0, words(s@)),
            },
    {
        let line = crate::text::chars_of(s);
        let ws = split_words(&line);
        FileHeader::from_words(&ws)
    }
}

impl FileEntry {
    /// Reads an entry from the words of its line.
    pub fn from_words(ws: &Vec<Vec<char>>) -> (r: Result<FileEntry, ParseError>)
        ensures
            r == entry_of(views(ws@)),
    {
        let ghost v = views(ws@);
        if ws.len() == 0 {
            return Err(ParseError::UnknownEntry);
        }
        assert(v[0] == ws@[0]@);
        let kind = match entry_kind(&ws[0]) {
            Some(k) => k,
            None => {
                return Err(ParseError::UnknownEntry);
            },
        };
        let ghost a = v.drop_first();
        let n = ws.len() - 1;
        let expected: usize = match kind {
            EntryKind::Sphere | EntryKind::Plane => 4,
            EntryKind::Expose | EntryKind::Shininess | EntryKind::Bounces | EntryKind::Aa => 1,
            _ => 3,
        };
        if n != expected {
            return Err(ParseError::WrongArgumentCount);
        }
        match kind {
            EntryKind::Trif => {
                assert(a[0] == ws@[1]@ && a[1] == ws@[2]@ && a[2] == ws@[3]@);
                let lo = 0x8000_0000u64;
                let hi = 0x7fff_ffffu64;
                let x = parse_signed(&ws[1], lo, hi);
                let y = parse_signed(&ws[2], lo, hi);
                let z = parse_signed(&ws[3], lo, hi);
                match (x, y, z) {
                    (Some(x), Some(y), Some(z)) => Ok(
                        FileEntry::Triangle { a: x as i32, b: y as i32, c: z as i32 },
                    ),
                    _ => Err(ParseError::InvalidNumber),
                }
            },
            EntryKind::Bounces | EntryKind::Aa => {
                assert(a[0] == ws@[1]@);
                match parse_unsigned(&ws[1], usize::MAX as u64) {
                    Some(b) => if kind == EntryKind::Bounces {
                        Ok(FileEntry::Bounces { b: b as usize })
                    } else {
                        Ok(FileEntry::Aa { n: b as usize })
                    },
                    None => Err(ParseError::InvalidNumber),
                }
            },
            _ => {
                let d = match decimal_args(ws) {
                    Some(d) => d,
                    None => {
                        return Err(ParseError::InvalidNumber);
                    },
                };
                let e = match kind {
                    EntryKind::Sphere => FileEntry::Sphere { x: d[0], y: d[1], z: d[2], r: d[3] },
                    EntryKind::Sun => FileEntry::Sun { x: d[0], y: d[1], z: d[2] },
                    EntryKind::Color => FileEntry::Color { r: d[0], g: d[1], b: d[2] },
                    EntryKind::Plane => FileEntry::Plane { a: d[0], b: d[1], c: d[2], d: d[3] },
                    EntryKind::Xyz => FileEntry::Xyz { x: d[0], y: d[1], z: d[2] },
                    EntryKind::Bulb => FileEntry::Bulb { x: d[0], y: d[1], z: d[2] },
                    EntryKind::Eye => FileEntry::Eye { x: d[0], y: d[1], z: d[2] },
                    EntryKind::Forward => FileEntry::Forward { x: d[0], y: d[1], z: d[2] },
                    EntryKind::Up => FileEntry::Up { x: d[0], y: d[1], z: d[2] },
                    EntryKind::Expose => FileEntry::Expose { v: d[0] },
                    _ => FileEntry::Shiny { s: d[0] },
                };
                assert(d@[0] == dec(a, 0));
                assert(e == decimal_entry(kind, a)) by {
                    if expected >= 3 {
                        assert(d@[1] == dec(a, 1));
                        assert(d@[2] == dec(a, 2));
                    }
                    if expected == 4 {
                        assert(d@[3] == dec(a, 3));
                    }
                }
                Ok(e)
            },
        }
    }

    /// Reads an entry line.
    pub fn from_str(s: &str) -> (r: Result<FileEntry, ParseError>)
        ensures
            r == entry_of(words(s@)),
    {
        let line = crate::text::chars_of(s);
        let ws = split_words(&line);
        FileEntry::from_words(&ws)
    }
}

/// The words of each line that has any, in order.
pub open spec fn word_lines(ls: Seq<Seq<char>>) -> Seq<Seq<Seq<char>>>
    decreases ls.len(),
{
    if ls.len() == 0 {
        seq![]
    } else {
        let rest = word_lines(ls.drop_last());
        if words(ls.last()).len() > 0 {
            rest.push(words(ls.last()))
        } else {
            rest
        }
    }
}

/// The entries of the lines `wl`, or the error of the first line that has one.
pub open spec fn entries_of(wl: Seq<Seq<Seq<char>>>) -> Result<Seq<FileEntry>, ParseError>
    decreases wl.len(),
{
    if wl.len() == 0 {
        Ok(seq![])
    } else {
        match entries_of(wl.drop_last()) {
            Err(e) => Err(e),
            Ok(es) => match entry_of(wl.last()) {
                Ok(e) => Ok(es.push(e)),
                Err(e) => Err(e),
            },
        }
    }
}

pub open spec fn views2(v: Seq<Vec<Vec<char>>>) -> Seq<Seq<Seq<char>>> {
    v.map_values(|x: Vec<Vec<char>>| views(x@))
}

/// What reading the scene text `text` gives: its first line with words is the
/// header, each later one an entry.
pub open spec fn parse_outcome(text: Seq<char>, r: Result<ProcFile, ParseError>) -> bool {
    let wl = word_lines(fields(text, true));
    if wl.len() == 0 {
        r == Err::<ProcFile, ParseError>(ParseError::EmptyFile)
    } else {
        match header_error(wl[0]) {
            Some(e) => r == Err::<ProcFile, ParseError>(e),
            None => match entries_of(wl.drop_first()) {
                Err(e) => r == Err::<ProcFile, ParseError>(e),
                Ok(es) => r is Ok && header_matches(r->Ok_0.header, wl[0]) && r->Ok_0.entries@
                    == es,
            },
        }
    }
}

/// Reads a scene text.
pub fn parse_file(contents: &str) -> (r: Result<ProcFile, ParseError>)
    ensures
        parse_outcome(contents@, r),
{
    let lines = split_lines(contents);
    let ghost ls = views(lines@);
    let mut wl: Vec<Vec<Vec<char>>> = Vec::new();
    let mut i: usize = 0;
    assert(ls.take(0) =~= Seq::<Seq<char>>::empty());
    assert(views2(wl@) =~= Seq::<Seq<Seq<char>>>::empty());
    while i < lines.len()
        invariant
            i <= lines@.len(),
            ls == views(lines@),
            views2(wl@) == word_lines(ls.take(i as int)),
        decreases lines@.len() - i,
    {
        let ws = split_words(&lines[i]);
        assert(ls.take(i + 1).drop_last() =~= ls.take(i as int));
        assert(ls.take(i + 1).last() == lines@[i as int]@);
        if ws.len() > 0 {
            let ghost before = wl@;
            wl.push(ws);
            assert(views2(wl@) =~= views2(before).push(views(ws@)));
        }
        i = i + 1;
    }
    assert(ls.take(i as int) =~= ls);
    let ghost all = views2(wl@);
    if wl.len() == 0 {
        return Err(ParseError::EmptyFile);
    }
    assert(all[0] == views(wl@[0]@));
    let header = match FileHeader::from_words(&wl[0]) {
        Ok(h) => h,
        Err(e) => {
            return Err(e);
        },
    };
    let ghost rest = all.drop_first();
    let mut entries: Vec<FileEntry> = Vec::new();
    let mut k: usize = 1;
    assert(rest.take(0) =~= Seq::<Seq<Seq<char>>>::empty());
    assert(entries@ =~= Seq::<FileEntry>::empty());
    while k < wl.len()
        invariant
            1 <= k <= wl@.len(),
            all == views2(wl@),
            all == word_lines(fields(contents@, true)),
            all.len() > 0,
            header_error(all[0]) is None,
            header_matches(header, all[0]),
            rest == all.drop_first(),
            entries_of(rest.take(k - 1)) == Ok::<Seq<FileEntry>, ParseError>(entries@),
        decreases wl@.len() - k,
    {
        assert(rest.take(k as int).drop_last() =~= rest.take(k - 1));
        assert(rest.take(k as int).last() == views(wl@[k as int]@));
        match FileEntry::from_words(&wl[k]) {
            Ok(e) => {
                entries.push(e);
            },
            Err(e) => {
                proof {
                    assert(entry_of(rest.take(k as int).last()) == Err::<FileEntry, ParseError>(e));
                    assert(entries_of(rest.take(k as int)) == Err::<Seq<FileEntry>, ParseError>(e));
                    lemma_entries_err_extends(rest, k as int);
                }
                return Err(e);
            },
        }
        k = k + 1;
    }
    assert(rest.take(k - 1) =~= rest);
    Ok(ProcFile { header, entries })
}

/// Reading the same scene text twice gives the same header and entries, or
/// the same error.
pub proof fn lemma_parse_deterministic(
    text: Seq<char>,
    r1: Result<ProcFile, ParseError>,
    r2: Result<ProcFile, ParseError>,
)
    requires
        parse_outcome(text, r1),
        parse_outcome(text, r2),
    ensures
        r1 is Ok <==> r2 is Ok,
        r1 is Err ==> r1->Err_0 == r2->Err_0,
        r1 is Ok ==> {
            let (h1, h2) = (r1->Ok_0.header, r2->Ok_0.header);
            &&& h1.output_type == h2.output_type
            &&& h1.width == h2.width
            &&& h1.height == h2.height
            &&& h1.name@ == h2.name@
            &&& r1->Ok_0.entries@ == r2->Ok_0.entries@
        },
{
}

proof fn lemma_entries_err_extends(wl: Seq<Seq<Seq<char>>>, k: int)
    requires
        1 <= k <= wl.len(),
        entries_of(wl.take(k)) is Err,
    ensures
        entries_of(wl) == entries_of(wl.take(k)),
    decreases wl.len() - k,
{
    if k < wl.len() {
        assert(wl.take(k + 1).drop_last() =~= wl.take(k));
        lemma_entries_err_extends(wl, k + 1);
    } else {
        assert(wl.take(k) =~= wl);
    }
}

/// The argument of the first `aa` entry.
pub open spec fn first_aa(es: Seq<FileEntry>) -> Option<usize>
    decreases es.len(),
{
    if es.len() == 0 {
        None
    } else {
        match es[0] {
            FileEntry::Aa { n } => Some(n),
            _ => first_aa(es.drop_first()),
        }
    }
}

/// The argument of the first `expose` entry.
pub open spec fn first_exposure(es: Seq<FileEntry>) -> Option<Decimal>
    decreases es.len(),
{
    if es.len() == 0 {
        None
    } else {
        match es[0] {
            FileEntry::Expose { v } => Some(v),
            _ => first_exposure(es.drop_first()),
        }
    }
}

/// The argument of the first `bounces` entry.
pub open spec fn first_bounces(es: Seq<FileEntry>) -> Option<usize>
    decreases es.len(),
{
    if es.len() == 0 {
        None
    } else {
        match es[0] {
            FileEntry::Bounces { b } => Some(b),
            _ => first_bounces(es.drop_first()),
        }
    }
}

impl ProcFile {
    /// The supersampling factor: that of the first `aa` entry, else 1.
    pub fn get_aa(&self) -> (r: usize)
        ensures
            r == match first_aa(self.entries@) {
                Some(n) => n,
                None => 1,
            },
    {
        let mut i: usize = 0;
        assert(self.entries@.skip(0) =~= self.entries@);
        while i < self.entries.len()
            invariant
                i <= self.entries@.len(),
                first_aa(self.entries@.skip(i as int)) == first_aa(self.entries@),
            decreases self.entries@.len() - i,
        {
            assert(self.entries@.skip(i as int).drop_first() =~= self.entries@.skip(i + 1));
            match self.entries[i] {
                FileEntry::Aa { n } => {
                    return n;
                },
                _ => {},
            }
            i = i + 1;
        }
        1
    }

    /// The exposure of the first `expose` entry, if any.
    pub fn get_exposure(&self) -> (r: Option<Decimal>)
        ensures
            r == first_exposure(self.entries@),
    {
        let mut i: usize = 0;
        assert(self.entries@.skip(0) =~= self.entries@);
        while i < self.entries.len()
            invariant
                i <= self.entries@.len(),
                first_exposure(self.entries@.skip(i as int)) == first_exposure(self.entries@),
            decreases self.entries@.len() - i,
        {
            assert(self.entries@.skip(i as int).drop_first() =~= self.entries@.skip(i + 1));
            match self.entries[i] {
                FileEntry::Expose { v } => {
                    return Some(v);
                },
                _ => {},
            }
            i = i + 1;
        }
        None
    }

    /// The bounce limit of the first `bounces` entry, if any.
    pub fn get_bounces(&self) -> (r: Option<usize>)
        ensures
            r == first_bounces(self.entries@),
    {
        let mut i: usize = 0;
        assert(self.entries@.skip(0) =~= self.entries@);
        while i < self.entries.len()
            invariant
                i <= self.entries@.len(),
                first_bounces(self.entries@.skip(i as int)) == first_bounces(self.entries@),
            decreases self.entries@.len() - i,
        {
            assert(self.entries@.skip(i as int).drop_first() =~= self.entries@.skip(i + 1));
            match self.entries[i] {
                FileEntry::Bounces { b } => {
                    return Some(b);
                },
                _ => {},
            }
            i = i + 1;
        }
        None
    }
}

} // verus!
