use chitin::rebrand::rebrand_help;

#[test]
fn test_usage_line_rebranded() {
    let out = rebrand_help("Usage: openclaw foo");
    assert_eq!(out, "Usage: chitin foo".to_string());
    assert!(!out.contains("openclaw"));
}

#[test]
fn test_usage_line_every_occurrence() {
    assert_eq!(
        rebrand_help("Usage: openclaw run openclaw-style"),
        "Usage: chitin run chitin-style".to_string()
    );
}

#[test]
fn test_plain_line_untouched() {
    // The tool's name outside a banner / Usage / Examples context stays.
    let line = "Run openclaw to begin.";
    assert_eq!(rebrand_help(line), line.to_string());
}

#[test]
fn test_banner_line_replaced() {
    let expected = "chitin 0.1.0\nopenclaw 2026.2.1".to_string();
    assert_eq!(rebrand_help("OpenClaw v2026.2.1 — have fun!"), expected);
    assert_eq!(rebrand_help("\u{1F99E} OpenClaw v2026.2.1"), expected);
}

#[test]
fn test_examples_section_scoping() {
    let input = "Intro openclaw stays\nExamples: openclaw ones stay too\n  openclaw gateway --port 1\nDocs: openclaw stays here\nafter openclaw stays\n";
    let expected = "Intro openclaw stays\nExamples: openclaw ones stay too\n  chitin gateway --port 1\nDocs: openclaw stays here\nafter openclaw stays\n";
    assert_eq!(rebrand_help(input), expected.to_string());
}

#[test]
fn test_newline_parity() {
    let with_nl = rebrand_help("Usage: openclaw foo\n");
    assert!(with_nl.ends_with('\n'));
    assert_eq!(with_nl, "Usage: chitin foo\n".to_string());

    let without_nl = rebrand_help("Usage: openclaw foo");
    assert!(!without_nl.ends_with('\n'));

    let plain_with_nl = rebrand_help("hello\nworld\n");
    assert!(plain_with_nl.ends_with('\n'));
    assert_eq!(plain_with_nl, "hello\nworld\n".to_string());
}

#[test]
fn test_empty_input() {
    assert_eq!(rebrand_help(""), String::new());
}

#[test]
fn test_blank_lines_kept() {
    assert_eq!(rebrand_help("a\n\nb"), "a\n\nb".to_string());
}
