use lupe::report::path_list_lines;
use lupe::titles::{one_line, one_line_checked, title_from_prompt_checked, title_from_response_checked};
use lupe::workspace::gitignore_update;
use lupe::DOCS;

#[test]
fn one_line_checked_refuses_a_cut_inside_a_character() {
    // 139 ASCII bytes, then a two-byte character over byte 140
    let text = format!("{}é and more", "a".repeat(139));
    assert_eq!(one_line_checked(&text), None);
    let fine = format!("{}é and more", "a".repeat(138));
    assert_eq!(one_line_checked(&fine), Some(format!("{}é...", "a".repeat(138))));
    assert_eq!(one_line_checked("  a \n b "), Some("a b".to_string()));
}

#[test]
fn title_from_prompt_checked_matches_the_plain_function() {
    assert_eq!(title_from_prompt_checked("   "), Some("prompt".to_string()));
    assert_eq!(title_from_prompt_checked("fix the login"), Some("fix the login".to_string()));
    let long = format!("{}ü tail", "b".repeat(59));
    assert_eq!(title_from_prompt_checked(&long), None);
}

#[test]
fn title_from_response_checked_refuses_a_cut_inside_a_character() {
    assert_eq!(title_from_response_checked("# Head\n\nUpdated the parser to accept tabs."), Some(Some("Updated the parser to accept tabs.".to_string())));
    assert_eq!(title_from_response_checked("short\n"), Some(None));
    let long = format!("{}ß rest of the sentence", "c".repeat(79));
    assert_eq!(title_from_response_checked(&long), None);
}

#[test]
fn unicode_spaces_are_collapsed_like_str_split_whitespace() {
    assert_eq!(one_line("a\u{3000}b\u{00A0}c\u{2009}d"), "a b c d");
    // a zero-width space is not whitespace
    assert_eq!(one_line("a\u{200B}b"), "a\u{200B}b");
    assert_eq!(one_line("x\u{85}y\u{2028}z"), "x y z");
}

#[test]
fn one_line_twice_is_once() {
    let s = "  many   words\tand\nlines  ";
    let once = one_line(s);
    assert_eq!(one_line(&once), once);
}

#[test]
fn gitignore_update_twice_changes_nothing() {
    let first = gitignore_update("target\n").unwrap();
    assert_eq!(first, "target\n\n# Lupe\n.lupe/\n");
    assert_eq!(gitignore_update(&first), None);
    let from_empty = gitignore_update("").unwrap();
    assert_eq!(gitignore_update(&from_empty), None);
    let no_newline = gitignore_update("dist").unwrap();
    assert_eq!(no_newline, "dist\n\n# Lupe\n.lupe/\n");
}

#[test]
fn path_list_lines_count_then_list() {
    let paths = vec!["a.rs".to_string(), "b/c.rs".to_string()];
    assert_eq!(path_list_lines("added", &paths), vec!["added: 2".to_string(), "  a.rs".to_string(), "  b/c.rs".to_string()]);
    assert_eq!(path_list_lines("removed", &Vec::new()), vec!["removed: 0".to_string()]);
}

#[test]
fn docs_describe_the_workflow() {
    assert!(DOCS.contains("lupe restore <checkpoint|branch>"));
    assert!(DOCS.starts_with("\nLUPE — agent-native source control"));
}

#[test]
fn titles_and_lines_stay_short() {
    let long = "word ".repeat(100);
    assert_eq!(one_line(&long).len(), 143);
    assert!(!one_line(&long).contains('\n'));
    let t = lupe::titles::title_from_prompt(&long);
    assert_eq!(t.len(), 63);
    assert!(t.ends_with("..."));
    let r = lupe::titles::title_from_response(&format!("Refactored {}", "module ".repeat(30))).unwrap();
    assert!(r.len() <= 83);
    assert!(r.ends_with("..."));
}

#[test]
fn sensitive_keywords_in_lowered_text() {
    assert!(lupe::titles::has_sensitive_keyword("rotate the api key today"));
    assert!(lupe::titles::has_sensitive_keyword("update .env loading"));
    assert!(!lupe::titles::has_sensitive_keyword("refactor the parser"));
    // the lower-cased form is what is searched
    assert!(!lupe::titles::has_sensitive_keyword("Rotate the API KEY"));
    assert_eq!(lupe::titles::title_from_response("Rotate the API KEY in production"), None);
}
