use lupe::graph::{branch_chain, branch_entries, GraphNode};
use lupe::serve::{diff_request_ids, static_asset_path, tick_step, DiffQuery};
use lupe::settings::{
    author_report, author_status_line, author_update, discover_or_start_project_home, find_home, sort_workspaces,
    workspace_branch_label, AuthorConfig, WorkspaceInfo,
};
use lupe::shell::{hook_edit, HookEdit};

fn node(id: u128, parent: Option<u128>, branch: &str) -> GraphNode {
    GraphNode { id, parent, branch: branch.to_string() }
}

/// Newest first, as the store lists them: main 1 <- 2, a branch `f` from 1
/// with 3 <- 4 <- 5, a branch `g` from 1 with 6, and on `f` a stray 7 from 2.
fn sample() -> Vec<GraphNode> {
    vec![
        node(7, Some(2), "f"),
        node(6, Some(1), "g"),
        node(5, Some(4), "f"),
        node(4, Some(3), "f"),
        node(3, Some(1), "f"),
        node(2, Some(1), "main"),
        node(1, None, "main"),
    ]
}

#[test]
fn branch_entries_are_children_off_main_in_list_order() {
    let all = sample();
    assert_eq!(branch_entries(&all, 1), vec![1, 4]);
    assert_eq!(branch_entries(&all, 2), vec![0]);
    assert!(branch_entries(&all, 5).is_empty());
}

#[test]
fn branch_chain_follows_first_children_on_the_branch() {
    let all = sample();
    assert_eq!(branch_chain(&all, 4), Some(vec![4, 3, 2]));
    assert_eq!(branch_chain(&all, 1), Some(vec![1]));
    assert_eq!(branch_chain(&all, 0), Some(vec![0]));
}

#[test]
fn branch_chain_with_looping_parents_ends_in_none() {
    let all = vec![node(1, Some(2), "f"), node(2, Some(1), "f")];
    assert_eq!(branch_chain(&all, 0), None);
}

#[test]
fn diff_request_needs_a_valid_to() {
    let to = "01900000-0000-7000-8000-00000000000b".to_string();
    let from = "01900000-0000-7000-8000-00000000000a".to_string();
    let q = DiffQuery { from: Some(from), to: to.clone() };
    assert_eq!(
        diff_request_ids(&q),
        Some((Some(0x0190_0000_0000_7000_8000_0000_0000_000a), 0x0190_0000_0000_7000_8000_0000_0000_000b))
    );
    let q = DiffQuery { from: Some("junk".to_string()), to: to.clone() };
    assert_eq!(diff_request_ids(&q), Some((None, 0x0190_0000_0000_7000_8000_0000_0000_000b)));
    let q = DiffQuery { from: None, to: "junk".to_string() };
    assert_eq!(diff_request_ids(&q), None);
}

#[test]
fn static_paths_drop_leading_slashes() {
    assert_eq!(static_asset_path("/"), "index.html");
    assert_eq!(static_asset_path(""), "index.html");
    assert_eq!(static_asset_path("//assets/app.js"), "assets/app.js");
    assert_eq!(static_asset_path("/favicon.ico"), "favicon.ico");
}

#[test]
fn tick_announces_each_new_id_once() {
    let first = tick_step("", Some("abc\n"));
    assert_eq!(first, Some("abc".to_string()));
    assert_eq!(tick_step("abc", Some("abc\n")), None);
    assert_eq!(tick_step("abc", Some("  \n")), None);
    assert_eq!(tick_step("abc", None), None);
    assert_eq!(tick_step("abc", Some("def")), Some("def".to_string()));
}

#[test]
fn author_update_replaces_given_parts() {
    let current = AuthorConfig { name: Some("Ann".to_string()), email: None };
    let (a, setting) = author_update(current, None, Some("ann@x.org".to_string()));
    assert!(setting);
    assert_eq!(a.name.as_deref(), Some("Ann"));
    assert_eq!(a.email.as_deref(), Some("ann@x.org"));
    let (b, setting) = author_update(a, None, None);
    assert!(!setting);
    assert_eq!(b.name.as_deref(), Some("Ann"));
    let d = AuthorConfig::default();
    assert!(d.name.is_none() && d.email.is_none());
}

#[test]
fn author_lines_cover_each_case() {
    let full = AuthorConfig { name: Some("Ann".to_string()), email: Some("a@b".to_string()) };
    assert_eq!(author_status_line(&full), "author Ann <a@b>");
    assert_eq!(author_report(&full), vec!["name  Ann".to_string(), "email a@b".to_string()]);
    let name_only = AuthorConfig { name: Some("Ann".to_string()), email: None };
    assert_eq!(author_status_line(&name_only), "author Ann <email not set>");
    assert_eq!(author_report(&name_only), vec!["name  Ann".to_string(), "email (not set)".to_string()]);
    let email_only = AuthorConfig { name: None, email: Some("a@b".to_string()) };
    assert_eq!(author_status_line(&email_only), "author <name not set> <a@b>");
    assert_eq!(author_report(&email_only), vec!["name  (not set)".to_string(), "email a@b".to_string()]);
    let none = AuthorConfig::default();
    assert_eq!(author_status_line(&none), "author not configured");
    assert_eq!(
        author_report(&none),
        vec![
            "author not configured".to_string(),
            "set with: lupe author --name \"Your Name\" --email \"your@email.com\"".to_string()
        ]
    );
}

#[test]
fn workspace_labels_and_order() {
    assert_eq!(workspace_branch_label(Some("feat\n"), Some("old"), "dir"), "feat");
    assert_eq!(workspace_branch_label(None, Some(" old "), "dir"), "old");
    assert_eq!(workspace_branch_label(None, None, "dir"), "dir");
    let ws = |n: &str| WorkspaceInfo { name: n.to_string(), path: format!("/w/{n}"), branch: n.to_string() };
    let sorted = sort_workspaces(vec![ws("zeta"), ws("alpha"), ws("Mid"), ws("beta")]);
    let names: Vec<&str> = sorted.iter().map(|w| w.name.as_str()).collect();
    assert_eq!(names, vec!["Mid", "alpha", "beta", "zeta"]);
}

#[test]
fn project_home_is_the_nearest_store_below_home() {
    let anc: Vec<String> = ["/home/u/p/sub", "/home/u/p", "/home/u", "/home", "/"].iter().map(|s| s.to_string()).collect();
    let is_home = vec![false, false, true, false, false];
    let has = vec![false, true, false, false, false];
    let (h, source) = discover_or_start_project_home("/home/u/p/sub", &anc, &is_home, &has);
    assert_eq!(h, "/home/u/p/.lupe");
    assert_eq!(source, "project");
    // a store above the home directory is not used
    let has_above = vec![false, false, false, true, false];
    let (h, source) = discover_or_start_project_home("/home/u/p/sub", &anc, &is_home, &has_above);
    assert_eq!(h, "/home/u/p/sub/.lupe");
    assert_eq!(source, "project-auto-started");
    assert_eq!(find_home("/home/u/p/sub", &anc, &is_home, &has), "/home/u/p/.lupe");
}

#[test]
fn hook_edit_replaces_adds_or_creates() {
    assert!(matches!(hook_edit(None), HookEdit::CreateList));
    assert!(matches!(hook_edit(Some(vec![])), HookEdit::Append));
    let cmds = vec![Some("other".to_string()), None, Some("LUPE_BIN=/x/lupe python3 s.py".to_string())];
    assert!(matches!(hook_edit(Some(cmds)), HookEdit::Replace(2)));
    assert!(matches!(hook_edit(Some(vec![Some("echo hi".to_string())])), HookEdit::Append));
}

use lupe::graph_text::{chain_lines, change_lines, checkpoint_lines, signed_decimal_text, GraphCheckpoint};
use lupe::{Colors, DiffView};

const ID: u128 = 0x0190_0000_0000_7000_8000_0000_0000_000a;
const ID_TEXT: &str = "01900000-0000-7000-8000-00000000000a";

fn shown(private: bool, branch: &str) -> GraphCheckpoint {
    GraphCheckpoint {
        id: ID,
        title: "fix login".to_string(),
        prompt: Some("fix the\n  login".to_string()),
        agent: Some("cursor/gpt".to_string()),
        session_id: Some("s1".to_string()),
        file_count: 3,
        root_hash: "0123456789abcdef0123".to_string(),
        private,
        branch_name: branch.to_string(),
    }
}

#[test]
fn checkpoint_block_lines() {
    let lines = checkpoint_lines(&shown(false, "main"), "03:04 PM", &Colors::new(false), true, false).unwrap();
    assert_eq!(
        lines,
        vec![
            format!("◆ checkpoint 01900000 ({ID_TEXT}) 03:04 PM fix login files=3 root=0123456789ab [HEAD]"),
            "│ prompt: fix the login".to_string(),
            "│ agent: cursor/gpt  session: s1".to_string(),
        ]
    );
}

#[test]
fn private_checkpoint_block_hides_details() {
    let lines = checkpoint_lines(&shown(true, "main"), "t", &Colors::new(false), false, false).unwrap();
    assert_eq!(
        lines,
        vec![
            format!("◆ checkpoint 01900000 ({ID_TEXT}) t [private] files=3 root=0123456789ab"),
            "│ prompt: [private]".to_string(),
        ]
    );
    let revealed = checkpoint_lines(&shown(true, "main"), "t", &Colors::new(false), false, true).unwrap();
    assert_eq!(revealed.len(), 3);
    assert!(revealed[0].contains(" fix login "));
}

#[test]
fn checkpoint_block_in_color() {
    let lines = checkpoint_lines(&shown(false, "main"), "t", &Colors::new(true), false, false).unwrap();
    assert!(lines[0].starts_with("\x1b[35;1m◆\x1b[0m \x1b[35;1mcheckpoint 01900000\x1b[0m "));
    assert_eq!(lines[1], "\x1b[2m│\x1b[0m \x1b[2mprompt:\x1b[0m fix the login");
}

#[test]
fn checkpoint_block_needs_a_long_enough_root() {
    let mut c = shown(false, "main");
    c.root_hash = "abc".to_string();
    assert!(checkpoint_lines(&c, "t", &Colors::new(false), false, false).is_none());
    c.file_count = -2;
    c.root_hash = "0123456789abcd".to_string();
    let lines = checkpoint_lines(&c, "t", &Colors::new(false), false, false).unwrap();
    assert!(lines[0].ends_with("files=-2 root=0123456789ab"));
}

#[test]
fn signed_decimals() {
    assert_eq!(signed_decimal_text(0), "0");
    assert_eq!(signed_decimal_text(-15), "-15");
    assert_eq!(signed_decimal_text(i64::MIN), "-9223372036854775808");
    assert_eq!(signed_decimal_text(i64::MAX), "9223372036854775807");
}

#[test]
fn change_lines_count_then_list() {
    let d = DiffView {
        from: 1,
        to: 2,
        added: vec!["a".to_string()],
        modified: vec![],
        removed: vec!["b".to_string()],
    };
    assert_eq!(
        change_lines(&d, &Colors::new(false)),
        vec!["│ changes: +1 ~0 -1".to_string(), "│  + a".to_string(), "│  - b".to_string()]
    );
    let none = DiffView { from: 1, to: 2, added: vec![], modified: vec![], removed: vec![] };
    assert!(change_lines(&none, &Colors::new(false)).is_empty());
}

#[test]
fn branch_chain_lines() {
    let first = chain_lines(&shown(false, "feat"), &Colors::new(false), true, true).unwrap();
    assert_eq!(
        first,
        vec![
            "   │".to_string(),
            format!("   ╰─ ◆ branch: feat 01900000 ({ID_TEXT}) fix login files=3 root=0123456789ab"),
            "            prompt: fix the login".to_string(),
        ]
    );
    let mut later = shown(false, "feat");
    later.prompt = Some(String::new());
    let next = chain_lines(&later, &Colors::new(false), false, false).unwrap();
    assert_eq!(
        next,
        vec![
            "│     │".to_string(),
            format!("│        ◆ 01900000 ({ID_TEXT}) fix login files=3 root=0123456789ab"),
        ]
    );
}

use lupe::graph_text::{history_lines, prompt_lines};

#[test]
fn history_and_prompt_listings() {
    let c = shown(false, "main");
    assert_eq!(
        history_lines(&c, "t").unwrap(),
        vec![
            format!("01900000 ({ID_TEXT})  t  fix login"),
            "  agent: cursor/gpt".to_string(),
            "  prompt: fix the login".to_string(),
        ]
    );
    let mut bare = shown(false, "main");
    bare.agent = None;
    bare.prompt = None;
    assert_eq!(history_lines(&bare, "t").unwrap(), vec![format!("01900000 ({ID_TEXT})  t  fix login"), "  prompt: ".to_string()]);
    assert_eq!(
        prompt_lines(&c, Some("done"), "t"),
        vec![
            format!("01900000 ({ID_TEXT})  t  fix login"),
            "agent: cursor/gpt".to_string(),
            "prompt: fix the\n  login".to_string(),
            "response: done".to_string(),
            String::new(),
        ]
    );
    assert_eq!(prompt_lines(&bare, None, "t"), vec![format!("01900000 ({ID_TEXT})  t  fix login"), "prompt: ".to_string(), String::new()]);
}
