use md_sections::line::{classify_line, line_is_blank, LineKind};
use md_sections::naming::{output_file_name, output_file_name_now, Variant};
use md_sections::quiz::select_quiz_lines;
use md_sections::sections::{extract_section_bodies, join_with_spaces};

fn lines(text: &str) -> Vec<String> {
    text.lines().map(|l| l.to_string()).collect()
}

fn strings(items: &[&str]) -> Vec<String> {
    items.iter().map(|s| s.to_string()).collect()
}

#[test]
fn classify_by_prefix() {
    assert_eq!(classify_line("# Title"), LineKind::Title);
    assert_eq!(classify_line("## Q1"), LineKind::Section);
    assert_eq!(classify_line("### sub"), LineKind::Deep);
    assert_eq!(classify_line("####deeper"), LineKind::Deep);
    assert_eq!(classify_line("#tag"), LineKind::Body);
    assert_eq!(classify_line("##x"), LineKind::Body);
    assert_eq!(classify_line(" # indented"), LineKind::Body);
    assert_eq!(classify_line("#"), LineKind::Body);
    assert_eq!(classify_line(""), LineKind::Body);
    assert_eq!(classify_line("plain text"), LineKind::Body);
}

#[test]
fn blank_lines() {
    assert!(line_is_blank(""));
    assert!(line_is_blank("   \t "));
    assert!(line_is_blank("\u{3000}\u{a0}"));
    assert!(!line_is_blank("  a "));
    assert!(!line_is_blank("#"));
}

#[test]
fn join_uses_single_spaces() {
    assert_eq!(join_with_spaces(&strings(&["a", "b c", "d"])), "a b c d");
    assert_eq!(join_with_spaces(&strings(&["only"])), "only");
    assert_eq!(join_with_spaces(&Vec::new()), "");
}

#[test]
fn sections_two_bodies_in_order() {
    let input = lines("## One\nalpha\nbeta\n## Two\ngamma\n");
    assert_eq!(extract_section_bodies(&input), strings(&["alpha beta", "gamma"]));
}

#[test]
fn sections_heading_without_body_yields_nothing() {
    let input = lines("## Empty\n## Full\ntext\n## Also empty\n# Title\n");
    assert_eq!(extract_section_bodies(&input), strings(&["text"]));
    let only_headings = lines("## A\n### B\n## C\n");
    assert!(extract_section_bodies(&only_headings).is_empty());
}

#[test]
fn sections_drop_title_and_deep_content() {
    let input = lines(
        "# Doc\nintro\n## One\nfirst\n### Detail\nhidden\n# Other\nalso hidden\n## Two\nsecond\n",
    );
    assert_eq!(extract_section_bodies(&input), strings(&["first", "second"]));
}

#[test]
fn sections_skip_blank_lines() {
    let input = lines("## One\n\nalpha\n   \nbeta\n\n");
    assert_eq!(extract_section_bodies(&input), strings(&["alpha beta"]));
    assert!(extract_section_bodies(&Vec::new()).is_empty());
}

#[test]
fn sections_flush_at_end_of_input() {
    let input = lines("text before\n## Last\nx\ny");
    assert_eq!(extract_section_bodies(&input), strings(&["x y"]));
}

#[test]
fn quiz_title_and_two_questions() {
    let input = lines("# Title\n## Q1\nbody1\n## Q2\nbody2\n");
    assert_eq!(
        select_quiz_lines(&input),
        strings(&[
            "# Title",
            "## Q1",
            "body1",
            "### try:\n\n\n",
            "## Q2",
            "body2",
            "### try:\n\n\n",
        ])
    );
}

#[test]
fn quiz_deep_heading_stops_body() {
    let input = lines("## Q\n### Notes\nhidden\nmore hidden\n## R\nshown\n");
    assert_eq!(
        select_quiz_lines(&input),
        strings(&["## Q", "### try:\n\n\n", "## R", "shown", "### try:\n\n\n"])
    );
}

#[test]
fn quiz_title_closes_section() {
    let input = lines("## Q\nanswer\n# Part two\nprose\n");
    assert_eq!(
        select_quiz_lines(&input),
        strings(&["## Q", "answer", "### try:\n\n\n", "# Part two"])
    );
}

#[test]
fn quiz_keeps_blank_body_lines() {
    let input = lines("## Q\nline one\n\nline two\n");
    assert_eq!(
        select_quiz_lines(&input),
        strings(&["## Q", "line one", "", "line two", "### try:\n\n\n"])
    );
}

#[test]
fn quiz_without_sections() {
    let input = lines("# A\ntext\n### B\nmore\n");
    assert_eq!(select_quiz_lines(&input), strings(&["# A"]));
    assert!(select_quiz_lines(&Vec::new()).is_empty());
}

#[test]
fn variant_dispatch() {
    let input = lines("## Q\na\nb\n");
    assert_eq!(Variant::Sections.extract(&input), strings(&["a b"]));
    assert_eq!(
        Variant::Quiz.extract(&input),
        strings(&["## Q", "a", "b", "### try:\n\n\n"])
    );
    assert_eq!(Variant::Sections.tag(), "processed");
    assert_eq!(Variant::Quiz.tag(), "quiz");
}

#[test]
fn output_names() {
    assert_eq!(
        output_file_name("notes", Variant::Sections, "20240102030405"),
        "notes_processed_20240102030405.md"
    );
    assert_eq!(
        output_file_name("notes", Variant::Quiz, "20240102030405"),
        "notes_quiz_20240102030405.md"
    );
}

#[test]
fn rerun_same_content_different_names() {
    let input = lines("# T\n## Q\nbody\n");
    assert_eq!(Variant::Quiz.extract(&input), Variant::Quiz.extract(&input));
    assert_eq!(Variant::Sections.extract(&input), Variant::Sections.extract(&input));
    assert_ne!(
        output_file_name("doc", Variant::Quiz, "20240102030405"),
        output_file_name("doc", Variant::Quiz, "20240102030406")
    );
}

#[test]
fn output_name_now_has_timestamp() {
    let name = output_file_name_now("doc", Variant::Quiz);
    assert!(name.starts_with("doc_quiz_"));
    assert!(name.ends_with(".md"));
    let stamp = &name["doc_quiz_".len()..name.len() - ".md".len()];
    assert_eq!(stamp.len(), 14);
    assert!(stamp.chars().all(|c| c.is_ascii_digit()));
}

#[test]
fn sections_empty_heading_before_blank_lines() {
    let input = lines("## One\nalpha\n## Empty\n\n   \n## Two\nbeta\n## Trailing\n\n");
    assert_eq!(extract_section_bodies(&input), strings(&["alpha", "beta"]));
}

#[test]
fn sections_drop_text_before_any_heading() {
    let input = lines("preamble\nmore\n## One\nalpha\n");
    assert_eq!(extract_section_bodies(&input), strings(&["alpha"]));
}

#[test]
fn quiz_deep_heading_at_end_leaves_heading_and_separator() {
    let input = lines("# T\n## Q\n### Notes\nhidden\n");
    assert_eq!(
        select_quiz_lines(&input),
        strings(&["# T", "## Q", "### try:\n\n\n"])
    );
}
