use vstd::prelude::*;
use crate::line::{LineKind, line_kind, is_blank, is_white_space, starts_with, classify_line, line_is_blank, views};

verus! {

/// The state of the section-body scan.
pub struct SectionScan {
    /// Inside a level-2 section, collecting its body.
    pub copying: bool,
    /// Body lines collected under the open section.
    pub pending: Seq<Seq<char>>,
    /// Blocks emitted so far, one per flushed section.
    pub blocks: Seq<Seq<char>>,
}

/// The lines of `s` joined by single spaces.
pub open spec fn join_spaced(s: Seq<Seq<char>>) -> Seq<char>
    decreases s.len(),
{
    if s.len() == 0 {
        Seq::empty()
    } else if s.len() == 1 {
        s[0]
    } else {
        join_spaced(s.drop_last()) + seq![' '] + s.last()
    }
}

pub open spec fn scan_start() -> SectionScan {
    SectionScan { copying: false, pending: Seq::empty(), blocks: Seq::empty() }
}

/// Closes the open section: its body, if any, becomes one block.
pub open spec fn close_section(st: SectionScan, reopen: bool) -> SectionScan {
    if st.copying && st.pending.len() > 0 {
        SectionScan {
            copying: reopen,
            pending: Seq::empty(),
            blocks: st.blocks.push(join_spaced(st.pending)),
        }
    } else {
        SectionScan { copying: reopen, ..st }
    }
}

/// One line of the scan: blank lines are skipped, `# ` and `###` lines close
/// the section, `## ` lines close it and open a new one, and other lines are
/// collected while a section is open.
pub open spec fn section_step(st: SectionScan, l: Seq<char>) -> SectionScan {
    if is_blank(l) {
        st
    } else {
        match line_kind(l) {
            LineKind::Title => close_section(st, false),
            LineKind::Deep => close_section(st, false),
            LineKind::Section => close_section(st, true),
            LineKind::Body => if st.copying {
                SectionScan { pending: st.pending.push(l), ..st }
            } else {
                st
            },
        }
    }
}

/// The scan from `st` over the lines of `ls`, in order.
pub open spec fn section_scan(st: SectionScan, ls: Seq<Seq<char>>) -> SectionScan
    decreases ls.len(),
{
    if ls.len() == 0 {
        st
    } else {
        section_step(section_scan(st, ls.drop_last()), ls.last())
    }
}

/// The blocks once the input has ended: a section still open with a body is flushed.
pub open spec fn section_finish(st: SectionScan) -> Seq<Seq<char>> {
    if st.copying && st.pending.len() > 0 {
        st.blocks.push(join_spaced(st.pending))
    } else {
        st.blocks
    }
}

/// The body of every level-2 section of `ls` that has one, each joined into one line.
pub open spec fn section_bodies(ls: Seq<Seq<char>>) -> Seq<Seq<char>> {
    section_finish(section_scan(scan_start(), ls))
}

/// Joins lines with single spaces.
pub fn join_with_spaces(parts: &Vec<String>) -> (r: String)
    ensures
        r@ == join_spaced(views(parts@)),
{
    let mut out = String::new();
    let mut i: usize = 0;
    while i < parts.len()
        invariant
            i <= parts.len(),
            out@ == join_spaced(views(parts@).take(i as int)),
        decreases parts.len() - i,
    {
        proof {
            let vs = views(parts@);
            assert(vs.take(i + 1).drop_last() =~= vs.take(i as int));
            assert(vs.take(i + 1).last() == parts@[i as int]@);
            reveal_strlit(" ");
        }
        if i > 0 {
            out.append(" ");
        }
        out.append(parts[i].as_str());
        i = i + 1;
    }
    proof {
        assert(views(parts@).take(i as int) =~= views(parts@));
    }
    out
}

/// The section-body extraction: for every level-2 (`## `) section with a
/// non-blank body, one line holding that body's lines joined by spaces, in
/// source order. Blank lines are skipped; lines under `# ` and `###`
/// headings are dropped.
pub fn extract_section_bodies(lines: &Vec<String>) -> (r: Vec<String>)
    ensures
        views(r@) == section_bodies(views(lines@)),
{
    let ghost ls = views(lines@);
    let mut extracted: Vec<String> = Vec::new();
    let mut temp: Vec<String> = Vec::new();
    let mut copy = false;
    let mut i: usize = 0;
    while i < lines.len()
        invariant
            i <= lines.len(),
            ls == views(lines@),
            ({
                let st = section_scan(scan_start(), ls.take(i as int));
                &&& copy == st.copying
                &&& views(temp@) == st.pending
                &&& views(extracted@) == st.blocks
            }),
        decreases lines.len() - i,
    {
        proof {
            assert(ls.take(i + 1).drop_last() =~= ls.take(i as int));
            assert(ls.take(i + 1).last() == lines@[i as int]@);
        }
        let line = lines[i].as_str();
        if !line_is_blank(line) {
            let kind = classify_line(line);
            match kind {
                LineKind::Body => {
                    if copy {
                        let ghost before = temp@;
                        temp.push(lines[i].clone());
                        proof {
                            assert(views(temp@) =~= views(before).push(lines@[i as int]@));
                        }
                    }
                },
                _ => {
                    if copy && temp.len() > 0 {
                        let block = join_with_spaces(&temp);
                        let ghost before = extracted@;
                        extracted.push(block);
                        proof {
                            assert(views(extracted@) =~= views(before).push(block@));
                            assert(views(Seq::<String>::empty()) =~= Seq::<Seq<char>>::empty());
                        }
                        temp = Vec::new();
                    }
                    copy = kind == LineKind::Section;
                },
            }
        }
        i = i + 1;
    }
    proof {
        assert(ls.take(i as int) =~= ls);
    }
    if copy && temp.len() > 0 {
        let block = join_with_spaces(&temp);
        let ghost before = extracted@;
        extracted.push(block);
        proof {
            assert(views(extracted@) =~= views(before).push(block@));
        }
    }
    extracted
}

/// A heading line starts with `#`, so it is never blank.
pub proof fn lemma_heading_not_blank(l: Seq<char>)
    requires
        line_kind(l) != LineKind::Body,
    ensures
        !is_blank(l),
{
    if starts_with(l, seq!['#', ' ']) {
        assert(l.subrange(0, 2)[0] == '#');
    } else if starts_with(l, seq!['#', '#', ' ']) {
        assert(l.subrange(0, 3)[0] == '#');
    } else {
        assert(l.subrange(0, 3)[0] == '#');
    }
    assert(!is_white_space(l[0]));
}

/// Scanning `a + b` is scanning `a`, then `b`.
pub proof fn lemma_scan_append(st: SectionScan, a: Seq<Seq<char>>, b: Seq<Seq<char>>)
    ensures
        section_scan(st, a + b) == section_scan(section_scan(st, a), b),
    decreases b.len(),
{
    if b.len() == 0 {
        assert(a + b =~= a);
    } else {
        assert((a + b).drop_last() =~= a + b.drop_last());
        assert((a + b).last() == b.last());
        lemma_scan_append(st, a, b.drop_last());
    }
}

/// A state outside any section holds no pending body.
pub open spec fn scan_valid(st: SectionScan) -> bool {
    !st.copying ==> st.pending.len() == 0
}

pub proof fn lemma_scan_valid(ls: Seq<Seq<char>>)
    ensures
        scan_valid(section_scan(scan_start(), ls)),
    decreases ls.len(),
{
    if ls.len() > 0 {
        lemma_scan_valid(ls.drop_last());
    }
}

/// Outside a section, lines that open none leave the scan unchanged.
pub proof fn lemma_scan_idle(st: SectionScan, m: Seq<Seq<char>>)
    requires
        !st.copying,
        forall|k: int| 0 <= k < m.len() ==> line_kind(#[trigger] m[k]) != LineKind::Section,
    ensures
        section_scan(st, m) == st,
    decreases m.len(),
{
    if m.len() > 0 {
        lemma_scan_idle(st, m.drop_last());
        assert(line_kind(m[m.len() - 1]) != LineKind::Section);
    }
}

/// Inside a section, non-blank body lines are collected in order.
pub proof fn lemma_scan_collect(st: SectionScan, b: Seq<Seq<char>>)
    requires
        st.copying,
        forall|k: int|
            0 <= k < b.len() ==> line_kind(#[trigger] b[k]) == LineKind::Body && !is_blank(b[k]),
    ensures
        section_scan(st, b) == (SectionScan { pending: st.pending + b, ..st }),
    decreases b.len(),
{
    if b.len() == 0 {
        assert(st.pending + b =~= st.pending);
    } else {
        lemma_scan_collect(st, b.drop_last());
        assert(line_kind(b[b.len() - 1]) == LineKind::Body && !is_blank(b[b.len() - 1]));
        assert((st.pending + b.drop_last()).push(b.last()) =~= st.pending + b);
    }
}

/// Two level-2 sections with non-blank bodies give exactly two lines, each
/// section's body joined by spaces, in source order.
pub proof fn lemma_two_sections(h1: Seq<char>, b1: Seq<Seq<char>>, h2: Seq<char>, b2: Seq<Seq<char>>)
    requires
        line_kind(h1) == LineKind::Section,
        line_kind(h2) == LineKind::Section,
        b1.len() > 0,
        b2.len() > 0,
        forall|k: int|
            0 <= k < b1.len() ==> line_kind(#[trigger] b1[k]) == LineKind::Body && !is_blank(b1[k]),
        forall|k: int|
            0 <= k < b2.len() ==> line_kind(#[trigger] b2[k]) == LineKind::Body && !is_blank(b2[k]),
    ensures
        section_bodies(seq![h1] + b1 + seq![h2] + b2) == seq![join_spaced(b1), join_spaced(b2)],
{
    lemma_heading_not_blank(h1);
    lemma_heading_not_blank(h2);
    let s0 = scan_start();
    let s1 = section_scan(s0, seq![h1]);
    assert(seq![h1].drop_last() =~= Seq::<Seq<char>>::empty());
    assert(section_scan(s0, seq![h1].drop_last()) == s0);
    assert(s1 == SectionScan { copying: true, ..s0 });
    lemma_scan_append(s0, seq![h1], b1);
    lemma_scan_collect(s1, b1);
    let s2 = section_scan(s0, seq![h1] + b1);
    assert(s2.pending =~= b1);
    lemma_scan_append(s0, seq![h1] + b1, seq![h2]);
    assert(seq![h2].drop_last() =~= Seq::<Seq<char>>::empty());
    assert(section_scan(s2, seq![h2].drop_last()) == s2);
    let s3 = section_scan(s0, seq![h1] + b1 + seq![h2]);
    assert(s3 == section_step(s2, h2));
    lemma_scan_append(s0, seq![h1] + b1 + seq![h2], b2);
    lemma_scan_collect(s3, b2);
    let s4 = section_scan(s0, seq![h1] + b1 + seq![h2] + b2);
    assert(s4.pending =~= b2);
    assert(section_finish(s4) =~= seq![join_spaced(b1), join_spaced(b2)]);
}

/// Blank lines leave the scan unchanged.
pub proof fn lemma_scan_blank(st: SectionScan, m: Seq<Seq<char>>)
    requires
        forall|k: int| 0 <= k < m.len() ==> is_blank(#[trigger] m[k]),
    ensures
        section_scan(st, m) == st,
    decreases m.len(),
{
    if m.len() > 0 {
        lemma_scan_blank(st, m.drop_last());
        assert(is_blank(m[m.len() - 1]));
    }
}

/// A level-2 heading whose next non-blank line is another heading, or that
/// is followed by blank lines only, yields nothing: the output is as if it
/// were absent.
pub proof fn lemma_empty_section_silent(ls: Seq<Seq<char>>, i: int, j: int)
    requires
        0 <= i < j <= ls.len(),
        line_kind(ls[i]) == LineKind::Section,
        forall|k: int| i < k < j ==> is_blank(#[trigger] ls[k]),
        j == ls.len() || line_kind(ls[j]) != LineKind::Body,
    ensures
        section_bodies(ls) == section_bodies(ls.remove(i)),
{
    let x = ls[i];
    lemma_heading_not_blank(x);
    let p = ls.take(i);
    let mid = ls.subrange(i + 1, j);
    let e = Seq::<Seq<char>>::empty();
    let st = section_scan(scan_start(), p);
    lemma_scan_valid(p);
    let c = section_step(st, x);
    assert(seq![x].drop_last() =~= e);
    assert(section_scan(st, e) == st);
    assert(section_scan(st, seq![x]) == c);
    assert forall|k: int| 0 <= k < mid.len() implies is_blank(#[trigger] mid[k]) by {
        assert(mid[k] == ls[i + 1 + k]);
    }
    lemma_scan_blank(c, mid);
    lemma_scan_blank(st, mid);
    lemma_scan_append(scan_start(), p, seq![x]);
    lemma_scan_append(scan_start(), p + seq![x], mid);
    lemma_scan_append(scan_start(), p, mid);
    if j == ls.len() {
        assert(ls =~= p + seq![x] + mid);
        assert(ls.remove(i) =~= p + mid);
        assert(section_finish(c) == section_finish(st));
    } else {
        let y = ls[j];
        lemma_heading_not_blank(y);
        let rest = ls.skip(j + 1);
        assert(c.pending =~= e);
        let a = section_step(c, y);
        let b = section_step(st, y);
        assert(a.pending =~= b.pending);
        assert(a == b);
        assert(seq![y].drop_last() =~= e);
        assert(section_scan(c, e) == c);
        assert(section_scan(c, seq![y]) == a);
        assert(section_scan(st, seq![y]) == b);
        assert(ls =~= p + seq![x] + mid + seq![y] + rest);
        assert(ls.remove(i) =~= p + mid + seq![y] + rest);
        lemma_scan_append(scan_start(), p + seq![x] + mid, seq![y]);
        lemma_scan_append(scan_start(), p + mid, seq![y]);
        lemma_scan_append(scan_start(), p + seq![x] + mid + seq![y], rest);
        lemma_scan_append(scan_start(), p + mid + seq![y], rest);
    }
}

/// Lines under a `# ` or `###` heading, or before any heading, up to the
/// next `## ` heading, never reach the output: removing them leaves it
/// unchanged.
pub proof fn lemma_closed_lines_dropped(ls: Seq<Seq<char>>, i: int, j: int)
    requires
        0 <= i <= j <= ls.len(),
        i == 0 || line_kind(ls[i - 1]) == LineKind::Title || line_kind(ls[i - 1]) == LineKind::Deep,
        forall|k: int| i <= k < j ==> line_kind(#[trigger] ls[k]) != LineKind::Section,
    ensures
        section_bodies(ls) == section_bodies(ls.take(i) + ls.skip(j)),
{
    let head = ls.take(i);
    let mid = ls.subrange(i, j);
    let rest = ls.skip(j);
    if i > 0 {
        lemma_heading_not_blank(ls[i - 1]);
        assert(head.drop_last() =~= ls.take(i - 1));
    } else {
        assert(head =~= Seq::<Seq<char>>::empty());
    }
    let st = section_scan(scan_start(), head);
    assert(!st.copying);
    assert forall|k: int| 0 <= k < mid.len() implies line_kind(#[trigger] mid[k])
        != LineKind::Section by {
        assert(mid[k] == ls[i + k]);
    }
    lemma_scan_idle(st, mid);
    assert(ls =~= head + mid + rest);
    lemma_scan_append(scan_start(), head + mid, rest);
    lemma_scan_append(scan_start(), head, mid);
    lemma_scan_append(scan_start(), head, rest);
}

/// One line under a `# ` or `###` heading, or before any heading, never
/// reaches the output: removing it leaves the output unchanged. Here `i` is
/// the index after that heading (0 if there is none), and no line from `i`
/// to the removed line `j` is a `## ` heading.
pub proof fn lemma_closed_line_dropped(ls: Seq<Seq<char>>, i: int, j: int)
    requires
        0 <= i <= j < ls.len(),
        i == 0 || line_kind(ls[i - 1]) == LineKind::Title || line_kind(ls[i - 1]) == LineKind::Deep,
        forall|k: int| i <= k <= j ==> line_kind(#[trigger] ls[k]) != LineKind::Section,
    ensures
        section_bodies(ls) == section_bodies(ls.remove(j)),
{
    let ms = ls.remove(j);
    lemma_closed_lines_dropped(ls, i, j + 1);
    assert forall|k: int| i <= k < j implies line_kind(#[trigger] ms[k]) != LineKind::Section by {
        assert(ms[k] == ls[k]);
    }
    if i > 0 {
        assert(ms[i - 1] == ls[i - 1]);
    }
    lemma_closed_lines_dropped(ms, i, j);
    assert(ms.take(i) + ms.skip(j) =~= ls.take(i) + ls.skip(j + 1));
}

} // verus!
