//! Pixel lists: a header line, then one colored pixel per line, given either
//! as decimal channels (`xyrgb x y r g b`) or as a hex color (`xyc x y #rrggbb`).
use vstd::prelude::*;
use crate::number::unsigned_literal;
use crate::number::parse_unsigned;
use crate::scene_file::is_u32_literal;
use crate::text::{chars_of, fields, split_fields, split_words, string_of, views, words, is_word};

verus! {

#[verifier::external_type_specification]
#[verifier::external_body]
pub struct ExFromHexError(hex::FromHexError);

/// A pixel with its position and RGBA color.
#[derive(Clone, Copy, Debug, PartialEq, Eq)]
pub struct Pixel {
    pub x: u32,
    pub y: u32,
    pub c: [u8; 4],
}

/// One line of a pixel list.
#[derive(Clone, Copy, Debug, PartialEq, Eq)]
pub enum Entry {
    Xyrgb { x: u32, y: u32, r: u8, g: u8, b: u8 },
    Xyc { x: u32, y: u32, color: [u8; 3] },
}

/// Why a line of a pixel list was refused.
#[derive(Clone, Copy, Debug, PartialEq, Eq, Structural)]
pub enum PixelError {
    /// The line starts with a word that names no command.
    UnknownCommand,
    /// The line has more or fewer arguments than its command takes.
    WrongArgumentCount,
    /// A coordinate or channel is not a literal of its type.
    InvalidNumber,
    /// The color is not `#` followed by six hex digits.
    InvalidColor,
}

/// A pixel list: image size, output name, and the lines that could be read.
#[derive(Debug)]
pub struct File {
    pub width: u32,
    pub height: u32,
    pub filename: String,
    pub entries: Vec<Entry>,
}

pub open spec fn hex_value(c: char) -> Option<nat> {
    if '0' <= c && c <= '9' {
        Some((c as int - '0' as int) as nat)
    } else if 'a' <= c && c <= 'f' {
        Some((c as int - 'a' as int + 10) as nat)
    } else if 'A' <= c && c <= 'F' {
        Some((c as int - 'A' as int + 10) as nat)
    } else {
        None
    }
}

/// Whether `s` is six hex digits.
pub open spec fn is_hex_rgb(s: Seq<char>) -> bool {
    s.len() == 6 && forall|i: int| 0 <= i < 6 ==> (#[trigger] hex_value(s[i])) is Some
}

/// The byte that hex digits `2k` and `2k + 1` of `s` give.
pub open spec fn hex_byte(s: Seq<char>, k: int) -> nat {
    16 * hex_value(s[2 * k])->0 + hex_value(s[2 * k + 1])->0
}

/// Relies on `hex::FromHex` for `[u8; 3]`: six hex digits of either case,
/// two per byte with the high nibble first, make three bytes; anything else
/// is an error.
#[verifier::external_body]
fn rgb_from_hex(digits: &Vec<char>) -> (r: Result<[u8; 3], hex::FromHexError>)
    ensures
        r is Ok <==> is_hex_rgb(digits@),
        r is Ok ==> forall|k: int| 0 <= k < 3 ==> r->Ok_0@[k] == hex_byte(digits@, k),
{
    let text: String = digits.iter().collect();
    <[u8; 3] as hex::FromHex>::from_hex(text)
}

pub open spec fn is_u8_literal(w: Seq<char>) -> bool {
    unsigned_literal(w) is Some && unsigned_literal(w)->0 <= u8::MAX
}

/// Why a line with the words `ws` is refused, if it is.
pub open spec fn entry_error(ws: Seq<Seq<char>>) -> Option<PixelError> {
    if ws.len() == 0 {
        Some(PixelError::UnknownCommand)
    } else if ws[0] == "xyrgb"@ {
        if ws.len() != 6 {
            Some(PixelError::WrongArgumentCount)
        } else if is_u32_literal(ws[1]) && is_u32_literal(ws[2]) && is_u8_literal(ws[3])
            && is_u8_literal(ws[4]) && is_u8_literal(ws[5]) {
            None
        } else {
            Some(PixelError::InvalidNumber)
        }
    } else if ws[0] == "xyc"@ {
        if ws.len() != 4 {
            Some(PixelError::WrongArgumentCount)
        } else if !is_u32_literal(ws[1]) || !is_u32_literal(ws[2]) {
            Some(PixelError::InvalidNumber)
        } else if ws[3].len() > 0 && ws[3][0] == '#' && is_hex_rgb(ws[3].drop_first()) {
            None
        } else {
            Some(PixelError::InvalidColor)
        }
    } else {
        Some(PixelError::UnknownCommand)
    }
}

/// What a line with the words `ws` holds, when `entry_error(ws)` is `None`.
pub open spec fn entry_matches(e: Entry, ws: Seq<Seq<char>>) -> bool {
    if ws[0] == "xyrgb"@ {
        e == Entry::Xyrgb {
            x: unsigned_literal(ws[1])->0 as u32,
            y: unsigned_literal(ws[2])->0 as u32,
            r: unsigned_literal(ws[3])->0 as u8,
            g: unsigned_literal(ws[4])->0 as u8,
            b: unsigned_literal(ws[5])->0 as u8,
        }
    } else {
        match e {
            Entry::Xyc { x, y, color } => x == unsigned_literal(ws[1])->0 && y == unsigned_literal(
                ws[2],
            )->0 && forall|k: int|
                0 <= k < 3 ==> #[trigger] color@[k] == hex_byte(ws[3].drop_first(), k),
            _ => false,
        }
    }
}

impl Entry {
    /// Reads a line from its words.
    pub fn from_words(ws: &Vec<Vec<char>>) -> (r: Result<Entry, PixelError>)
        ensures
            match entry_error(views(ws@)) {
                Some(e) => r == Err::<Entry, PixelError>(e),
                None => r is Ok && entry_matches(r->Ok_0, views(ws@)),
            },
    {
        let ghost v = views(ws@);
        if ws.len() == 0 {
            return Err(PixelError::UnknownCommand);
        }
        assert(v[0] == ws@[0]@);
        if is_word(&ws[0], "xyrgb") {
            if ws.len() != 6 {
                return Err(PixelError::WrongArgumentCount);
            }
            assert(v[1] == ws@[1]@ && v[2] == ws@[2]@ && v[3] == ws@[3]@ && v[4] == ws@[4]@ && v[5]
                == ws@[5]@);
            let x = parse_unsigned(&ws[1], u32::MAX as u64);
            let y = parse_unsigned(&ws[2], u32::MAX as u64);
            let r = parse_unsigned(&ws[3], u8::MAX as u64);
            let g = parse_unsigned(&ws[4], u8::MAX as u64);
            let b = parse_unsigned(&ws[5], u8::MAX as u64);
            match (x, y, r, g, b) {
                (Some(x), Some(y), Some(r), Some(g), Some(b)) => Ok(
                    Entry::Xyrgb { x: x as u32, y: y as u32, r: r as u8, g: g as u8, b: b as u8 },
                ),
                _ => Err(PixelError::InvalidNumber),
            }
        } else if is_word(&ws[0], "xyc") {
            if ws.len() != 4 {
                return Err(PixelError::WrongArgumentCount);
            }
            assert(v[1] == ws@[1]@ && v[2] == ws@[2]@ && v[3] == ws@[3]@);
            let x = parse_unsigned(&ws[1], u32::MAX as u64);
            let y = parse_unsigned(&ws[2], u32::MAX as u64);
            let (x, y) = match (x, y) {
                (Some(x), Some(y)) => (x as u32, y as u32),
                _ => {
                    return Err(PixelError::InvalidNumber);
                },
            };
            let code = &ws[3];
            if code.len() == 0 || code[0] != '#' {
                return Err(PixelError::InvalidColor);
            }
            let mut digits: Vec<char> = Vec::new();
            let mut i: usize = 1;
            while i < code.len()
                invariant
                    1 <= i <= code@.len(),
                    digits@ == code@.subrange(1, i as int),
                decreases code@.len() - i,
            {
                digits.push(code[i]);
                i = i + 1;
                assert(digits@ =~= code@.subrange(1, i as int));
            }
            assert(digits@ =~= code@.drop_first());
            match rgb_from_hex(&digits) {
                Ok(color) => Ok(Entry::Xyc { x, y, color }),
                Err(_) => Err(PixelError::InvalidColor),
            }
        } else {
            Err(PixelError::UnknownCommand)
        }
    }

    /// Reads a line.
    pub fn from_str(s: &str) -> (r: Result<Entry, PixelError>)
        ensures
            match entry_error(words(s@)) {
                Some(e) => r == Err::<Entry, PixelError>(e),
                None => r is Ok && entry_matches(r->Ok_0, words(s@)),
            },
    {
        let line = chars_of(s);
        let ws = split_words(&line);
        Entry::from_words(&ws)
    }

    /// The opaque pixel that this line paints.
    pub fn to_pixel(&self) -> (r: Pixel)
        ensures
            paints(r, *self),
    {
        match *self {
            Entry::Xyrgb { x, y, r, g, b } => Pixel { x, y, c: [r, g, b, 255] },
            Entry::Xyc { x, y, color } => Pixel { x, y, c: [color[0], color[1], color[2], 255] },
        }
    }
}

/// Whether `p` is the opaque pixel that `e` paints.
pub open spec fn paints(p: Pixel, e: Entry) -> bool {
    &&& p.c@[3] == 255
    &&& match e {
        Entry::Xyrgb { x, y, r, g, b } => p.x == x && p.y == y && p.c@[0] == r && p.c@[1] == g
            && p.c@[2] == b,
        Entry::Xyc { x, y, color } => p.x == x && p.y == y && p.c@[0] == color@[0] && p.c@[1]
            == color@[1] && p.c@[2] == color@[2],
    }
}

/// The lines among `wl` that can be read, in order.
pub open spec fn readable(wl: Seq<Seq<Seq<char>>>) -> Seq<Seq<Seq<char>>>
    decreases wl.len(),
{
    if wl.len() == 0 {
        seq![]
    } else if entry_error(wl.last()) is None {
        readable(wl.drop_last()).push(wl.last())
    } else {
        readable(wl.drop_last())
    }
}

/// Why a pixel list is refused: it has no header of at least four words
/// with a width and a height.
pub open spec fn file_error(ls: Seq<Seq<char>>) -> Option<PixelError> {
    if ls.len() == 0 || words(ls[0]).len() < 4 {
        Some(PixelError::WrongArgumentCount)
    } else if !is_u32_literal(words(ls[0])[1]) || !is_u32_literal(words(ls[0])[2]) {
        Some(PixelError::InvalidNumber)
    } else {
        None
    }
}

impl File {
    /// Reads a pixel list: its first non-empty line gives width, height and
    /// file name after a leading word; each later line that can be read
    /// gives an entry, and the others are skipped.
    pub fn from_str(s: &str) -> (r: Result<File, PixelError>)
        ensures
            ({
                let ls = fields(s@, true);
                match file_error(ls) {
                    Some(e) => r == Err::<File, PixelError>(e),
                    None => {
                        let hw = words(ls[0]);
                        let kept = readable(ls.drop_first().map_values(|l: Seq<char>| words(l)));
                        &&& r is Ok
                        &&& r->Ok_0.width == unsigned_literal(hw[1])->0
                        &&& r->Ok_0.height == unsigned_literal(hw[2])->0
                        &&& r->Ok_0.filename@ == hw[3]
                        &&& r->Ok_0.entries@.len() == kept.len()
                        &&& forall|i: int|
                            0 <= i < kept.len() ==> entry_matches(
                                #[trigger] r->Ok_0.entries@[i],
                                kept[i],
                            )
                    },
                }
            }),
    {
        let lines = split_fields(&chars_of(s), true);
        let ghost ls = views(lines@);
        if lines.len() == 0 {
            return Err(PixelError::WrongArgumentCount);
        }
        assert(ls[0] == lines@[0]@);
        let head = split_words(&lines[0]);
        let ghost hw = views(head@);
        if head.len() < 4 {
            return Err(PixelError::WrongArgumentCount);
        }
        assert(hw[1] == head@[1]@ && hw[2] == head@[2]@ && hw[3] == head@[3]@);
        let width = match parse_unsigned(&head[1], u32::MAX as u64) {
            Some(w) => w as u32,
            None => {
                return Err(PixelError::InvalidNumber);
            },
        };
        let height = match parse_unsigned(&head[2], u32::MAX as u64) {
            Some(h) => h as u32,
            None => {
                return Err(PixelError::InvalidNumber);
            },
        };
        let filename = string_of(&head[3]);
        let ghost wl = ls.drop_first().map_values(|l: Seq<char>| words(l));
        let mut entries: Vec<Entry> = Vec::new();
        let mut i: usize = 1;
        assert(wl.take(0) =~= Seq::<Seq<Seq<char>>>::empty());
        while i < lines.len()
            invariant
                1 <= i <= lines@.len(),
                ls == views(lines@),
                wl == ls.drop_first().map_values(|l: Seq<char>| words(l)),
                entries@.len() == readable(wl.take(i - 1)).len(),
                forall|k: int|
                    0 <= k < entries@.len() ==> entry_matches(
                        #[trigger] entries@[k],
                        readable(wl.take(i - 1))[k],
                    ),
            decreases lines@.len() - i,
        {
            let ws = split_words(&lines[i]);
            assert(wl.take(i as int).drop_last() =~= wl.take(i - 1));
            assert(wl.take(i as int).last() == views(ws@));
            match Entry::from_words(&ws) {
                Ok(e) => {
                    entries.push(e);
                },
                Err(_) => {},
            }
            i = i + 1;
        }
        assert(wl.take(i - 1) =~= wl);
        Ok(File { width, height, filename, entries })
    }

    /// The pixels that the entries paint, in order.
    pub fn pixels(&self) -> (r: Vec<Pixel>)
        ensures
            r@.len() == self.entries@.len(),
            forall|i: int|
                0 <= i < r@.len() ==> paints(#[trigger] r@[i], self.entries@[i]),
    {
        let mut out: Vec<Pixel> = Vec::new();
        let mut i: usize = 0;
        while i < self.entries.len()
            invariant
                i <= self.entries@.len(),
                out@.len() == i,
                forall|k: int| 0 <= k < i ==> paints(#[trigger] out@[k], self.entries@[k]),
            decreases self.entries@.len() - i,
        {
            out.push(self.entries[i].to_pixel());
            i = i + 1;
        }
        out
    }
}

} // verus!
