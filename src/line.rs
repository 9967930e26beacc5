use vstd::prelude::*;

verus! {

/// The class of a line, decided by its literal prefix alone.
#[derive(PartialEq, Eq, Structural, Clone, Copy, Debug)]
pub enum LineKind {
    /// Starts with `# `.
    Title,
    /// Starts with `## `.
    Section,
    /// Starts with `###` (level three or deeper).
    Deep,
    /// Anything else.
    Body,
}

/// `p` is a prefix of `s`.
pub open spec fn starts_with(s: Seq<char>, p: Seq<char>) -> bool {
    p.len() <= s.len() && s.subrange(0, p.len() as int) == p
}

/// The class of a line: `# `, then `## `, then `###` are tried as prefixes.
pub open spec fn line_kind(s: Seq<char>) -> LineKind {
    if starts_with(s, seq!['#', ' ']) {
        LineKind::Title
    } else if starts_with(s, seq!['#', '#', ' ']) {
        LineKind::Section
    } else if starts_with(s, seq!['#', '#', '#']) {
        LineKind::Deep
    } else {
        LineKind::Body
    }
}

/// The character views of a sequence of lines.
pub open spec fn views(v: Seq<String>) -> Seq<Seq<char>> {
    v.map_values(|s: String| s@)
}

/// The characters with the Unicode `White_Space` property.
pub open spec fn is_white_space(c: char) -> bool {
    ('\u{9}' <= c && c <= '\u{d}') || c == ' ' || c == '\u{85}' || c == '\u{a0}'
        || c == '\u{1680}' || ('\u{2000}' <= c && c <= '\u{200a}') || c == '\u{2028}'
        || c == '\u{2029}' || c == '\u{202f}' || c == '\u{205f}' || c == '\u{3000}'
}

/// A line that is empty or holds whitespace only.
pub open spec fn is_blank(s: Seq<char>) -> bool {
    forall|i: int| 0 <= i < s.len() ==> is_white_space(#[trigger] s[i])
}

/// Relies on `char::is_whitespace`: true exactly for the `White_Space` characters.
#[verifier::external_body]
fn char_is_whitespace(c: char) -> (r: bool)
    ensures
        r == is_white_space(c),
{
    c.is_whitespace()
}

/// Classifies a line by its prefix.
pub fn classify_line(line: &str) -> (r: LineKind)
    ensures
        r == line_kind(line@),
{
    let n = line.unicode_len();
    let c0 = if n >= 1 { line.get_char(0) } else { ' ' };
    let c1 = if n >= 2 { line.get_char(1) } else { 'x' };
    let c2 = if n >= 3 { line.get_char(2) } else { 'x' };
    proof {
        let s = line@;
        if n >= 2 {
            assert(s.subrange(0, 2) =~= seq![s[0], s[1]]);
        }
        if n >= 3 {
            assert(s.subrange(0, 3) =~= seq![s[0], s[1], s[2]]);
        }
    }
    if n >= 2 && c0 == '#' && c1 == ' ' {
        LineKind::Title
    } else if n >= 3 && c0 == '#' && c1 == '#' && c2 == ' ' {
        LineKind::Section
    } else if n >= 3 && c0 == '#' && c1 == '#' && c2 == '#' {
        LineKind::Deep
    } else {
        LineKind::Body
    }
}

/// Whether a line is empty or holds whitespace only.
pub fn line_is_blank(line: &str) -> (r: bool)
    ensures
        r == is_blank(line@),
{
    let mut blank = true;
    for c in it: line.chars()
        invariant
            it.seq() == line@,
            blank == (forall|j: int| 0 <= j < it.index() ==> is_white_space(#[trigger] line@[j])),
    {
        if !char_is_whitespace(c) {
            blank = false;
        }
    }
    blank
}

} // verus!
