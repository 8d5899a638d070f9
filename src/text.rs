//! Characters, words and lines of a scene description.
use vstd::prelude::*;

verus! {

/// Blank characters that separate the words of a line.
pub open spec fn is_blank(c: char) -> bool {
    c == ' ' || c == '\t' || c == '\r' || c == '\n' || c == '\x0b' || c == '\x0c'
}

/// Separator test: line breaks only when `lines` holds, any blank otherwise.
pub open spec fn is_sep(c: char, lines: bool) -> bool {
    if lines {
        c == '\n'
    } else {
        is_blank(c)
    }
}

/// The runs of non-separators of `s`, each non-empty, in order, after a run
/// `cur` that is already open.
pub open spec fn fields_from(s: Seq<char>, cur: Seq<char>, lines: bool) -> Seq<Seq<char>>
    decreases s.len(),
{
    if s.len() == 0 {
        if cur.len() > 0 {
            seq![cur]
        } else {
            seq![]
        }
    } else if is_sep(s[0], lines) {
        (if cur.len() > 0 {
            seq![cur]
        } else {
            seq![]
        }) + fields_from(s.drop_first(), seq![], lines)
    } else {
        fields_from(s.drop_first(), cur.push(s[0]), lines)
    }
}

/// The maximal non-empty runs of non-separators of `s`, in order.
pub open spec fn fields(s: Seq<char>, lines: bool) -> Seq<Seq<char>> {
    fields_from(s, seq![], lines)
}

/// The words of a line: its maximal runs of non-blank characters.
pub open spec fn words(s: Seq<char>) -> Seq<Seq<char>> {
    fields(s, false)
}

/// The contents of each character vector.
pub open spec fn views(v: Seq<Vec<char>>) -> Seq<Seq<char>> {
    v.map_values(|w: Vec<char>| w@)
}

/// Relies on `str::chars` collected into a `Vec`: the characters of `s` in order.
#[verifier::external_body]
pub(crate) fn chars_of(s: &str) -> (r: Vec<char>)
    ensures
        r@ == s@,
{
    s.chars().collect()
}

/// Relies on `String`'s `FromIterator<char>`: a string of these characters in order.
#[verifier::external_body]
pub(crate) fn string_of(chars: &Vec<char>) -> (r: String)
    ensures
        r@ == chars@,
{
    chars.iter().collect()
}

/// Splits `s` at separators (line breaks when `lines` holds, blanks
/// otherwise), dropping empty pieces.
pub fn split_fields(s: &Vec<char>, lines: bool) -> (r: Vec<Vec<char>>)
    ensures
        views(r@) == fields(s@, lines),
{
    let mut out: Vec<Vec<char>> = Vec::new();
    let mut cur: Vec<char> = Vec::new();
    let mut i: usize = 0;
    assert(s@.skip(0) =~= s@);
    assert(views(out@) =~= Seq::<Seq<char>>::empty());
    assert(cur@ =~= Seq::<char>::empty());
    assert(views(out@) + fields_from(s@, cur@, lines) =~= fields(s@, lines));
    while i < s.len()
        invariant
            i <= s@.len(),
            views(out@) + fields_from(s@.skip(i as int), cur@, lines) == fields(s@, lines),
        decreases s@.len() - i,
    {
        let c = s[i];
        let ghost rest = s@.skip(i as int);
        assert(rest.drop_first() =~= s@.skip(i + 1));
        assert(rest[0] == c);
        let sep = if lines {
            c == '\n'
        } else {
            c == ' ' || c == '\t' || c == '\r' || c == '\n' || c == '\x0b' || c == '\x0c'
        };
        if sep {
            if cur.len() > 0 {
                let ghost old_out = out@;
                let done = cur;
                out.push(done);
                assert(views(out@) =~= views(old_out) + seq![done@]);
            }
            cur = Vec::new();
            assert(cur@ =~= Seq::<char>::empty());
        } else {
            cur.push(c);
        }
        i = i + 1;
    }
    assert(s@.skip(i as int) =~= Seq::<char>::empty());
    if cur.len() > 0 {
        let ghost old_out = out@;
        out.push(cur);
        assert(views(out@) =~= views(old_out) + seq![views(out@).last()]);
    } else {
        assert(views(out@) + seq![] =~= views(out@));
    }
    out
}

/// Splits a text into its non-empty lines, each as its characters.
pub fn split_lines(text: &str) -> (r: Vec<Vec<char>>)
    ensures
        views(r@) == fields(text@, true),
{
    let chars = chars_of(text);
    split_fields(&chars, true)
}

/// Splits a line into its words.
pub fn split_words(line: &Vec<char>) -> (r: Vec<Vec<char>>)
    ensures
        views(r@) == words(line@),
{
    split_fields(line, false)
}

/// Whether the characters `w` spell out `lit`.
pub fn is_word(w: &Vec<char>, lit: &str) -> (r: bool)
    ensures
        r == (w@ == lit@),
{
    let n = lit.unicode_len();
    if w.len() != n {
        return false;
    }
    let mut i: usize = 0;
    while i < n
        invariant
            n == lit@.len(),
            w@.len() == n,
            i <= n,
            forall|j: int| 0 <= j < i ==> w@[j] == lit@[j],
        decreases n - i,
    {
        if w[i] != lit.get_char(i) {
            return false;
        }
        i = i + 1;
    }
    assert(w@ =~= lit@);
    true
}

} // verus!
