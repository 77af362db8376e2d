use lupe::shell::{find_lupe_hook, hook_command, shell_quote, shell_quote_path};

#[test]
fn shell_quote_handles_spaces_and_single_quotes() {
    assert_eq!(shell_quote("plain"), "'plain'");
    assert_eq!(shell_quote("two words"), "'two words'");
    assert_eq!(shell_quote("ed's lupe"), "'ed'\\''s lupe'");
}

#[test]
fn hook_command_exports_lupe_bin() {
    let cmd = hook_command("/tmp/Lupe Bin/lupe", "/tmp/lupe hooks/stop.py");
    assert_eq!(
        cmd,
        "LUPE_BIN='/tmp/Lupe Bin/lupe' python3 '/tmp/lupe hooks/stop.py'"
    );
}

#[test]
fn shell_quote_empty_and_only_quotes() {
    assert_eq!(shell_quote(""), "''");
    assert_eq!(shell_quote("''"), "''\\'''\\'''");
    assert_eq!(shell_quote_path("/a b/c"), "'/a b/c'");
}

#[test]
fn find_lupe_hook_picks_first_lupe_command() {
    let cmds = vec![
        None,
        Some("python3 other.py".to_string()),
        Some("LUPE_BIN=/x/lupe python3 stop.py".to_string()),
        Some("lupe again".to_string()),
    ];
    assert_eq!(find_lupe_hook(&cmds), Some(2));
    let none = vec![Some("echo hi".to_string()), None];
    assert_eq!(find_lupe_hook(&none), None);
    assert_eq!(find_lupe_hook(&Vec::new()), None);
}

#[test]
fn quoted_words_unescape_to_their_value() {
    for s in ["plain", "ed's lupe", "''", "a'b'c", ""] {
        let q = shell_quote(s);
        assert!(q.len() >= 2 && q.starts_with('\'') && q.ends_with('\''));
        assert_eq!(q[1..q.len() - 1].replace("'\\''", "'"), s);
    }
}

#[test]
fn nested_hook_edits() {
    let (reset, edit) = lupe::shell::nested_hook_edit(false, None);
    assert!(reset);
    assert!(matches!(edit, lupe::shell::HookEdit::CreateList));
    let (reset, edit) = lupe::shell::nested_hook_edit(true, None);
    assert!(!reset);
    assert!(matches!(edit, lupe::shell::HookEdit::CreateList));
    let cmds = vec![Some("echo".to_string()), Some("LUPE_BIN=/x/lupe python3 stop.py".to_string())];
    let (reset, edit) = lupe::shell::nested_hook_edit(true, Some(cmds));
    assert!(!reset);
    assert!(matches!(edit, lupe::shell::HookEdit::Replace(1)));
    let (_, edit) = lupe::shell::nested_hook_edit(false, Some(vec![None]));
    assert!(matches!(edit, lupe::shell::HookEdit::Append));
}
