use vstd::prelude::*;
use crate::line::{LineKind, line_kind, classify_line, views};

verus! {

/// The state of the quiz scan.
pub struct QuizScan {
    /// The last heading seen was a level-2 one, whose section is still unclosed.
    pub after_section: bool,
    /// Body lines are being kept.
    pub copying: bool,
    /// Lines emitted so far.
    pub out: Seq<Seq<char>>,
}

/// The block that closes every level-2 section: `### try:` and two blank lines.
pub open spec fn separator() -> Seq<char> {
    seq!['#', '#', '#', ' ', 't', 'r', 'y', ':', '\n', '\n', '\n']
}

pub open spec fn quiz_start() -> QuizScan {
    QuizScan { after_section: false, copying: false, out: Seq::empty() }
}

/// `out` with a separator added when a level-2 section is open.
pub open spec fn close_open(out: Seq<Seq<char>>, after_section: bool) -> Seq<Seq<char>> {
    if after_section {
        out.push(separator())
    } else {
        out
    }
}

/// A line that ends a kept body when it comes next: `# ` or `## `.
pub open spec fn stops_copy(l: Seq<char>) -> bool {
    line_kind(l) == LineKind::Title || line_kind(l) == LineKind::Section
}

/// One line of the quiz scan, given the line after it, if any.
pub open spec fn quiz_step(st: QuizScan, l: Seq<char>, next: Option<Seq<char>>) -> QuizScan {
    let st1 = match line_kind(l) {
        LineKind::Title => QuizScan {
            after_section: false,
            copying: false,
            out: close_open(st.out, st.after_section).push(l),
        },
        LineKind::Section => QuizScan {
            after_section: true,
            copying: true,
            out: close_open(st.out, st.after_section).push(l),
        },
        LineKind::Deep => QuizScan { copying: false, ..st },
        LineKind::Body => if st.copying {
            QuizScan { out: st.out.push(l), ..st }
        } else {
            st
        },
    };
    if st1.copying && next is Some && stops_copy(next->0) {
        QuizScan { copying: false, ..st1 }
    } else {
        st1
    }
}

/// The line of `ls` after index `i`, if any.
pub open spec fn line_after(ls: Seq<Seq<char>>, i: int) -> Option<Seq<char>> {
    if i + 1 < ls.len() {
        Some(ls[i + 1])
    } else {
        None
    }
}

/// The quiz scan over the first `n` lines of `ls`.
pub open spec fn quiz_scan(ls: Seq<Seq<char>>, n: nat) -> QuizScan
    decreases n,
{
    if n == 0 {
        quiz_start()
    } else {
        quiz_step(quiz_scan(ls, (n - 1) as nat), ls[n - 1], line_after(ls, n - 1))
    }
}

/// The quiz selection of `ls`: headings and kept body lines in source order,
/// each level-2 section followed by a separator.
pub open spec fn quiz_lines(ls: Seq<Seq<char>>) -> Seq<Seq<char>> {
    let st = quiz_scan(ls, ls.len());
    close_open(st.out, st.after_section)
}

fn push_separator(out: &mut Vec<String>)
    ensures
        views(final(out)@) == views(old(out)@).push(separator()),
{
    let ghost before = out@;
    proof {
        reveal_strlit("### try:\n\n\n");
    }
    let sep = String::from_str("### try:\n\n\n");
    assert(sep@ =~= separator());
    out.push(sep);
    proof {
        assert(views(out@) =~= views(before).push(separator()));
    }
}

/// The quiz selection: `# ` and `## ` lines are kept, with the body lines
/// that follow a `## ` heading up to the next heading; a `###` line stops the
/// body; each level-2 section is closed by a separator block, also at the end
/// of the input.
pub fn select_quiz_lines(lines: &Vec<String>) -> (r: Vec<String>)
    ensures
        views(r@) == quiz_lines(views(lines@)),
{
    let ghost ls = views(lines@);
    let mut selected: Vec<String> = Vec::new();
    let mut previous_was_h2 = false;
    let mut copy = false;
    let mut i: usize = 0;
    while i < lines.len()
        invariant
            i <= lines.len(),
            ls == views(lines@),
            ({
                let st = quiz_scan(ls, i as nat);
                &&& copy == st.copying
                &&& previous_was_h2 == st.after_section
                &&& views(selected@) == st.out
            }),
        decreases lines.len() - i,
    {
        let line = lines[i].as_str();
        let kind = classify_line(line);
        match kind {
            LineKind::Title | LineKind::Section => {
                if previous_was_h2 {
                    push_separator(&mut selected);
                }
                let ghost before = selected@;
                selected.push(lines[i].clone());
                proof {
                    assert(views(selected@) =~= views(before).push(ls[i as int]));
                }
                previous_was_h2 = kind == LineKind::Section;
                copy = kind == LineKind::Section;
            },
            LineKind::Deep => {
                copy = false;
            },
            LineKind::Body => {
                if copy {
                    let ghost before = selected@;
                    selected.push(lines[i].clone());
                    proof {
                        assert(views(selected@) =~= views(before).push(ls[i as int]));
                    }
                }
            },
        }
        if copy && i + 1 < lines.len() {
            let next_kind = classify_line(lines[i + 1].as_str());
            if next_kind == LineKind::Title || next_kind == LineKind::Section {
                copy = false;
            }
        }
        i = i + 1;
    }
    if previous_was_h2 {
        push_separator(&mut selected);
    }
    selected
}

/// Two scans that reached the same state stay together over equal remaining lines.
pub proof fn lemma_quiz_shift(ls: Seq<Seq<char>>, a: nat, ms: Seq<Seq<char>>, b: nat, m: nat)
    requires
        a <= ls.len(),
        b <= ms.len(),
        ls.len() - a == ms.len() - b,
        ls.skip(a as int) == ms.skip(b as int),
        m <= ls.len() - a,
        quiz_scan(ls, a) == quiz_scan(ms, b),
    ensures
        quiz_scan(ls, a + m) == quiz_scan(ms, b + m),
    decreases m,
{
    if m > 0 {
        lemma_quiz_shift(ls, a, ms, b, (m - 1) as nat);
        let k = m - 1;
        assert(ls[a + k] == ls.skip(a as int)[k]);
        assert(ms[b + k] == ms.skip(b as int)[k]);
        if a + m < ls.len() {
            assert(ls[(a + m) as int] == ls.skip(a as int)[m as int]);
            assert(ms[(b + m) as int] == ms.skip(b as int)[m as int]);
        }
        assert(line_after(ls, a + m - 1) == line_after(ms, b + m - 1));
        assert(quiz_scan(ls, a + m) == quiz_step(
            quiz_scan(ls, (a + m - 1) as nat),
            ls[a + m - 1],
            line_after(ls, a + m - 1),
        ));
        assert(quiz_scan(ms, b + m) == quiz_step(
            quiz_scan(ms, (b + m - 1) as nat),
            ms[b + m - 1],
            line_after(ms, b + m - 1),
        ));
        assert((a + m - 1) as nat == a + (m - 1) as nat);
        assert((b + m - 1) as nat == b + (m - 1) as nat);
    }
}

/// Scans of two inputs that agree on their first `n` lines and on what
/// follows each of them agree after those lines.
pub proof fn lemma_quiz_prefix(ls: Seq<Seq<char>>, ms: Seq<Seq<char>>, n: nat)
    requires
        n <= ls.len(),
        n <= ms.len(),
        forall|k: int| 0 <= k < n ==> ls[k] == ms[k] && line_after(ls, k) == line_after(ms, k),
    ensures
        quiz_scan(ls, n) == quiz_scan(ms, n),
    decreases n,
{
    if n > 0 {
        lemma_quiz_prefix(ls, ms, (n - 1) as nat);
        assert(ls[n - 1] == ms[n - 1] && line_after(ls, n - 1) == line_after(ms, n - 1));
    }
}

/// Outside a kept body, lines that are neither `# ` nor `## ` leave the scan unchanged.
pub proof fn lemma_quiz_idle(ls: Seq<Seq<char>>, a: nat, n: nat)
    requires
        a <= n <= ls.len(),
        !quiz_scan(ls, a).copying,
        forall|k: int| a <= k < n ==> !stops_copy(#[trigger] ls[k]),
    ensures
        quiz_scan(ls, n) == quiz_scan(ls, a),
    decreases n,
{
    if n > a {
        lemma_quiz_idle(ls, a, (n - 1) as nat);
        assert(!stops_copy(ls[n - 1]));
    }
}

/// A `###` line right after a `## ` heading stops that section's body: the
/// lines after it, up to the next `# ` or `## ` heading, never reach the
/// output, and removing them leaves it unchanged.
pub proof fn lemma_deep_line_suppresses(ls: Seq<Seq<char>>, i: int, j: int)
    requires
        0 <= i,
        i + 2 <= j <= ls.len(),
        line_kind(ls[i]) == LineKind::Section,
        line_kind(ls[i + 1]) == LineKind::Deep,
        forall|k: int| i + 2 <= k < j ==> !stops_copy(#[trigger] ls[k]),
    ensures
        quiz_lines(ls) == quiz_lines(ls.take(i + 2) + ls.skip(j)),
{
    let ms = ls.take(i + 2) + ls.skip(j);
    let a = (i + 2) as nat;
    assert forall|k: int| 0 <= k < i + 1 implies ls[k] == ms[k] && line_after(ls, k)
        == line_after(ms, k) by {
        assert(ms[k] == ls[k]);
        assert(ms[k + 1] == ls[k + 1]);
    }
    lemma_quiz_prefix(ls, ms, (i + 1) as nat);
    assert(ms[i + 1] == ls[i + 1]);
    assert(quiz_scan(ls, a) == quiz_step(quiz_scan(ls, (i + 1) as nat), ls[i + 1], line_after(ls, i + 1)));
    assert(quiz_scan(ms, a) == quiz_step(quiz_scan(ms, (i + 1) as nat), ms[i + 1], line_after(ms, i + 1)));
    assert(quiz_scan(ls, a) == quiz_scan(ms, a));
    lemma_quiz_idle(ls, a, j as nat);
    assert(ms.skip(a as int) =~= ls.skip(j));
    lemma_quiz_shift(ls, j as nat, ms, a, (ls.len() - j) as nat);
    assert(ms.len() == a + (ls.len() - j) as nat);
}

/// A `###` line right after a `## ` heading leaves that section with its
/// heading alone: removing the `###` line and everything after it up to the
/// next `# ` or `## ` heading (or the end) leaves the output unchanged.
pub proof fn lemma_deep_section_body_dropped(ls: Seq<Seq<char>>, i: int, k: int)
    requires
        0 <= i,
        i + 2 <= k <= ls.len(),
        line_kind(ls[i]) == LineKind::Section,
        line_kind(ls[i + 1]) == LineKind::Deep,
        forall|m: int| i + 2 <= m < k ==> !stops_copy(#[trigger] ls[m]),
        k == ls.len() || stops_copy(ls[k]),
    ensures
        quiz_lines(ls) == quiz_lines(ls.take(i + 1) + ls.skip(k)),
{
    let ms = ls.take(i + 1) + ls.skip(k);
    assert forall|t: int| 0 <= t < i implies ls[t] == ms[t] && line_after(ls, t)
        == line_after(ms, t) by {
        assert(ms[t] == ls[t]);
        assert(ms[t + 1] == ls[t + 1]);
    }
    lemma_quiz_prefix(ls, ms, i as nat);
    let st = quiz_scan(ls, i as nat);
    let x = quiz_step(st, ls[i], None);
    let y = QuizScan { copying: false, ..x };
    assert(quiz_scan(ls, (i + 1) as nat) == x);
    assert(quiz_scan(ls, (i + 2) as nat) == y);
    lemma_quiz_idle(ls, (i + 2) as nat, k as nat);
    assert(ms[i] == ls[i]);
    if k == ls.len() {
        assert(ms =~= ls.take(i + 1));
        assert(quiz_scan(ms, (i + 1) as nat) == x);
    } else {
        assert(ms[i + 1] == ls[k]);
        assert(quiz_scan(ms, (i + 1) as nat) == y);
        assert(ms.skip(i + 1) =~= ls.skip(k));
        lemma_quiz_shift(ls, k as nat, ms, (i + 1) as nat, (ls.len() - k) as nat);
        assert(ms.len() == (i + 1) as nat + (ls.len() - k) as nat);
    }
}

/// `p` is a prefix of `s`.
pub open spec fn extends(s: Seq<Seq<char>>, p: Seq<Seq<char>>) -> bool {
    p.len() <= s.len() && forall|t: int| 0 <= t < p.len() ==> #[trigger] s[t] == p[t]
}

/// The scan only ever appends to its output.
pub proof fn lemma_quiz_grows(ls: Seq<Seq<char>>, a: nat, n: nat)
    requires
        a <= n <= ls.len(),
    ensures
        extends(quiz_scan(ls, n).out, quiz_scan(ls, a).out),
    decreases n,
{
    if n > a {
        lemma_quiz_grows(ls, a, (n - 1) as nat);
        let p = quiz_scan(ls, a).out;
        let q = quiz_scan(ls, (n - 1) as nat).out;
        let r = quiz_scan(ls, n).out;
        assert(extends(r, q));
        assert forall|t: int| 0 <= t < p.len() implies #[trigger] r[t] == p[t] by {
            assert(r[t] == q[t]);
        }
    }
}

/// In the output, a `## ` heading followed by a `###` line is directly
/// followed by the separator and then by the next `# ` or `## ` heading,
/// if any; nothing of the lines between is kept.
pub proof fn lemma_deep_section_output(ls: Seq<Seq<char>>, i: int, k: int)
    requires
        0 <= i,
        i + 2 <= k <= ls.len(),
        line_kind(ls[i]) == LineKind::Section,
        line_kind(ls[i + 1]) == LineKind::Deep,
        forall|m: int| i + 2 <= m < k ==> !stops_copy(#[trigger] ls[m]),
        k == ls.len() || stops_copy(ls[k]),
    ensures
        ({
            let st = quiz_scan(ls, i as nat);
            let o = close_open(st.out, st.after_section);
            let r = quiz_lines(ls);
            let n = o.len() as int;
            &&& extends(r, o)
            &&& n + 2 <= r.len()
            &&& r[n] == ls[i]
            &&& r[n + 1] == separator()
            &&& (k < ls.len() ==> n + 3 <= r.len() && r[n + 2] == ls[k])
        }),
{
    let st = quiz_scan(ls, i as nat);
    let o = close_open(st.out, st.after_section);
    let n = o.len() as int;
    let x = quiz_step(st, ls[i], None);
    let y = QuizScan { copying: false, ..x };
    assert(quiz_scan(ls, (i + 1) as nat) == x);
    assert(quiz_scan(ls, (i + 2) as nat) == y);
    lemma_quiz_idle(ls, (i + 2) as nat, k as nat);
    let w = if k == ls.len() {
        y.out.push(separator())
    } else {
        y.out.push(separator()).push(ls[k])
    };
    let r = quiz_lines(ls);
    if k == ls.len() {
        assert(r == w);
    } else {
        let z = quiz_scan(ls, (k + 1) as nat);
        assert(z.out == w);
        lemma_quiz_grows(ls, (k + 1) as nat, ls.len());
        let f = quiz_scan(ls, ls.len());
        assert(extends(r, f.out));
        assert forall|t: int| 0 <= t < w.len() implies #[trigger] r[t] == w[t] by {
            assert(r[t] == f.out[t]);
        }
    }
    assert(extends(r, w));
    assert(w[n] == ls[i]);
    assert(w[n + 1] == separator());
    assert(r[n] == w[n]);
    assert(r[n + 1] == w[n + 1]);
    if k < ls.len() {
        assert(r[n + 2] == w[n + 2]);
    }
    assert forall|t: int| 0 <= t < o.len() implies #[trigger] r[t] == o[t] by {
        assert(r[t] == w[t]);
    }
}

} // verus!
