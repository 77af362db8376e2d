use lupe::colors::Colors;
use lupe::titles::{one_line, title_from_prompt, title_from_response};

#[test]
fn one_line_collapses_whitespace() {
    assert_eq!(one_line("  hello \n\t world  "), "hello world");
    assert_eq!(one_line(""), "");
    assert_eq!(one_line(" \n "), "");
}

#[test]
fn one_line_cuts_long_text() {
    let long = "a".repeat(150);
    let out = one_line(&long);
    assert_eq!(out, format!("{}...", "a".repeat(140)));
    let exact = "b".repeat(140);
    assert_eq!(one_line(&exact), exact);
}

#[test]
fn title_from_prompt_defaults_and_cuts() {
    assert_eq!(title_from_prompt("   "), "prompt");
    assert_eq!(title_from_prompt("fix the   login bug"), "fix the login bug");
    let long = "x".repeat(70);
    assert_eq!(title_from_prompt(&long), format!("{}...", "x".repeat(60)));
}

#[test]
fn title_from_response_skips_markup_lines() {
    let response = "# Heading\n\n- item\n> quote\n```rust\n**Fixed** the `parser` bug in main\n";
    assert_eq!(
        title_from_response(response),
        Some("Fixed the parser bug in main".to_string())
    );
}

#[test]
fn title_from_response_skips_short_and_sensitive() {
    let response = "ok\nUpdated the API key handling\nRefactored the graph layout code\n";
    assert_eq!(
        title_from_response(response),
        Some("Refactored the graph layout code".to_string())
    );
    assert_eq!(title_from_response("short\n|table|\n"), None);
    assert_eq!(title_from_response(""), None);
}

#[test]
fn title_from_response_cuts_at_space() {
    let words = "word ".repeat(30);
    let t = title_from_response(&words).unwrap();
    assert!(t.ends_with("..."));
    assert!(t.len() <= 83);
    assert_eq!(t, format!("{}...", "word ".repeat(16).trim_end()));
}

#[test]
fn title_from_response_handles_crlf() {
    assert_eq!(
        title_from_response("\r\nAll tests pass now\r\n"),
        Some("All tests pass now".to_string())
    );
}

#[test]
fn colors_paint_when_enabled() {
    let on = Colors::new(true);
    let off = Colors::new(false);
    assert_eq!(on.added("x"), "\x1b[32mx\x1b[0m");
    assert_eq!(on.checkpoint("c"), "\x1b[35;1mc\x1b[0m");
    assert_eq!(on.save("s"), "\x1b[32;1ms\x1b[0m");
    assert_eq!(on.dim("d"), "\x1b[2md\x1b[0m");
    assert_eq!(on.bold("b"), "\x1b[1mb\x1b[0m");
    assert_eq!(on.branch("b"), "\x1b[2;33mb\x1b[0m");
    assert_eq!(on.private_cp("p"), "\x1b[36mp\x1b[0m");
    assert_eq!(on.modified("m"), "\x1b[33mm\x1b[0m");
    assert_eq!(on.removed("r"), "\x1b[31mr\x1b[0m");
    assert_eq!(off.removed("r"), "r");
    assert_eq!(off.paint("1", "text"), "text");
}
