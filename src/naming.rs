use vstd::prelude::*;
use crate::line::views;
use crate::sections::{section_bodies, extract_section_bodies};
use crate::quiz::{quiz_lines, select_quiz_lines};

verus! {

/// The two extraction rules.
#[derive(PartialEq, Eq, Structural, Clone, Copy, Debug)]
pub enum Variant {
    /// Section bodies, each merged into one line.
    Sections,
    /// Headings and bodies kept, each level-2 section closed by a practice block.
    Quiz,
}

/// The tag that names a variant's output files.
pub open spec fn variant_tag(v: Variant) -> Seq<char> {
    match v {
        Variant::Sections => seq!['p', 'r', 'o', 'c', 'e', 's', 's', 'e', 'd'],
        Variant::Quiz => seq!['q', 'u', 'i', 'z'],
    }
}

/// What a variant extracts from the lines `ls`.
pub open spec fn variant_output(v: Variant, ls: Seq<Seq<char>>) -> Seq<Seq<char>> {
    match v {
        Variant::Sections => section_bodies(ls),
        Variant::Quiz => quiz_lines(ls),
    }
}

/// `<stem>_<tag>_<stamp>.md`.
pub open spec fn output_name(stem: Seq<char>, v: Variant, stamp: Seq<char>) -> Seq<char> {
    stem + seq!['_'] + variant_tag(v) + seq!['_'] + stamp + seq!['.', 'm', 'd']
}

impl Variant {
    /// The tag of this variant's output files.
    pub fn tag(&self) -> (r: &'static str)
        ensures
            r@ == variant_tag(*self),
    {
        match self {
            Variant::Sections => {
                proof {
                    reveal_strlit("processed");
                }
                "processed"
            },
            Variant::Quiz => {
                proof {
                    reveal_strlit("quiz");
                }
                "quiz"
            },
        }
    }

    /// Runs this variant's extraction over the lines of a document.
    pub fn extract(&self, lines: &Vec<String>) -> (r: Vec<String>)
        ensures
            views(r@) == variant_output(*self, views(lines@)),
    {
        match self {
            Variant::Sections => extract_section_bodies(lines),
            Variant::Quiz => select_quiz_lines(lines),
        }
    }
}

/// The output file name for an input file stem, a variant and a timestamp.
pub fn output_file_name(stem: &str, variant: Variant, stamp: &str) -> (r: String)
    ensures
        r@ == output_name(stem@, variant, stamp@),
{
    proof {
        reveal_strlit("_");
        reveal_strlit(".md");
    }
    let mut name = String::from_str(stem);
    name.append("_");
    name.append(variant.tag());
    name.append("_");
    name.append(stamp);
    name.append(".md");
    name
}

/// The shape of a `%Y%m%d%H%M%S` timestamp from 1970 on: at least fourteen
/// characters, all digits, but for a `+` that leads years past 9999.
pub open spec fn is_timestamp(s: Seq<char>) -> bool {
    &&& s.len() >= 14
    &&& forall|i: int|
        0 <= i < s.len() ==> ('0' <= #[trigger] s[i] && s[i] <= '9') || (i == 0 && s[i] == '+')
}

/// Relies on `chrono::Local::now` and `DateTime::format` with
/// `%Y%m%d%H%M%S`: the local time now, the year in at least four digits
/// (signed only outside 0 to 9999, and `now` never gives a year before
/// 1970), then month, day, hour, minute and second in two digits each.
#[verifier::external_body]
fn current_timestamp() -> (r: String)
    ensures
        is_timestamp(r@),
{
    chrono::Local::now().format("%Y%m%d%H%M%S").to_string()
}

/// The output file name for an input file stem and a variant, stamped with
/// the local time now.
pub fn output_file_name_now(stem: &str, variant: Variant) -> (r: String)
    ensures
        exists|stamp: Seq<char>| is_timestamp(stamp) && r@ == output_name(stem@, variant, stamp),
{
    let stamp = current_timestamp();
    output_file_name(stem, variant, stamp.as_str())
}

/// Two runs of one variant on one document differ only in their file
/// names: the content is `variant_output` of the lines on both runs (see
/// `Variant::extract`), and different timestamps give different names.
pub proof fn lemma_rerun_distinct_names(stem: Seq<char>, v: Variant, t1: Seq<char>, t2: Seq<char>)
    requires
        t1 != t2,
    ensures
        output_name(stem, v, t1) != output_name(stem, v, t2),
{
    let n1 = output_name(stem, v, t1);
    let n2 = output_name(stem, v, t2);
    if t1.len() == t2.len() {
        let k: int = (stem.len() + 1 + variant_tag(v).len() + 1) as int;
        assert(n1.subrange(k, k + t1.len()) =~= t1);
        assert(n2.subrange(k, k + t2.len()) =~= t2);
    } else {
        assert(n1.len() != n2.len());
    }
}

} // verus!
