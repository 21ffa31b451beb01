use ingest_core::text::{chunk_input, derive_name, display_name, strip_markdown, NameRule};

#[test]
fn heading_markers_are_stripped() {
    assert_eq!(strip_markdown("# Hi\nworld"), "Hi\nworld");
    assert_eq!(strip_markdown("## Deep heading"), "Deep heading");
}

#[test]
fn blockquote_markers_are_stripped() {
    assert_eq!(strip_markdown("> quoted line\nplain"), "quoted line\nplain");
}

#[test]
fn inline_markers_are_stripped() {
    assert_eq!(strip_markdown("**bold** and _it_ and `code`"), "bold and it and code");
}

#[test]
fn links_keep_text_and_lose_address() {
    assert_eq!(strip_markdown("see [the docs](http://a/b) now"), "see the docs now");
}

#[test]
fn unclosed_bracket_is_kept() {
    assert_eq!(strip_markdown("[abc"), "[abc");
    assert_eq!(strip_markdown("[abc] def"), "[abc] def");
}

#[test]
fn leading_spaces_are_dropped_at_line_start() {
    assert_eq!(strip_markdown("  indented\nnext"), "indented\nnext");
}

#[test]
fn plain_text_passes_through() {
    assert_eq!(strip_markdown("just words\nmore words"), "just words\nmore words");
}

#[test]
fn empty_document_strips_to_empty() {
    assert_eq!(strip_markdown(""), "");
}

#[test]
fn display_name_falls_back_on_empty_name() {
    assert_eq!(display_name("", "http://x"), "http://x");
}

#[test]
fn display_name_falls_back_on_whitespace_name() {
    assert_eq!(display_name(" \t\n", "http://x"), "http://x");
}

#[test]
fn display_name_falls_back_on_unicode_whitespace_name() {
    assert_eq!(display_name("\u{00A0}\u{2003}", "http://x"), "http://x");
}

#[test]
fn display_name_keeps_real_name() {
    assert_eq!(display_name("Notes", "http://x"), "Notes");
}

#[test]
fn chunk_input_joins_with_newline() {
    assert_eq!(chunk_input("name", "plain text"), "name\nplain text");
}

#[test]
fn full_rule_keeps_the_name() {
    assert_eq!(derive_name(NameRule::Full, "notes.backup.md"), "notes.backup.md");
}

#[test]
fn first_dot_rule_drops_everything_after_the_first_dot() {
    assert_eq!(derive_name(NameRule::TrimAfterFirstDot, "notes.backup.md"), "notes");
    assert_eq!(derive_name(NameRule::TrimAfterFirstDot, "plain"), "plain");
    assert_eq!(derive_name(NameRule::TrimAfterFirstDot, ".hidden"), "");
}

#[test]
fn last_dot_rule_drops_only_the_extension() {
    assert_eq!(derive_name(NameRule::DropLastExtension, "notes.backup.md"), "notes.backup");
    assert_eq!(derive_name(NameRule::DropLastExtension, "plain"), "plain");
    assert_eq!(derive_name(NameRule::DropLastExtension, "a."), "a");
}
