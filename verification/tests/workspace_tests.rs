use lupe::ids::{decimal_text, friendly_time, id_text, optional_uuid, parse_time, parse_uuid, short_id};
use lupe::workspace::{
    agent_label, agents_md_update, default_lupeignore, gitignore_update, glob_matches, ignore_patterns, lupe_agent_section,
    parse_pattern_lines, project_home_choice, shared_paths, should_skip, workspace_branch,
};
use lupe::LupeError;

fn strings(v: &[&str]) -> Vec<String> {
    v.iter().map(|s| s.to_string()).collect()
}

#[test]
fn should_skip_ignored_components() {
    let ws = strings(&["/", "home", "me", "proj"]);
    let ignore = strings(&[".git", "target"]);
    assert!(should_skip(&ws, &strings(&["/", "home", "me", "proj", "target", "x.o"]), &ignore));
    assert!(!should_skip(&ws, &strings(&["/", "home", "me", "proj", "src", "main.rs"]), &ignore));
    assert!(should_skip(&ws, &strings(&["/", "elsewhere", "a"]), &ignore));
    assert!(!should_skip(&ws, &ws, &ignore));
    // the workspace's own name is not checked against the patterns
    let ws2 = strings(&["/", "target"]);
    assert!(!should_skip(&ws2, &strings(&["/", "target", "a.rs"]), &ignore));
}

#[test]
fn pattern_lines_drop_comments_and_blanks() {
    assert_eq!(parse_pattern_lines("# c\n  node_modules  \n\n.env\r\n#x\n"), strings(&["node_modules", ".env"]));
    assert_eq!(ignore_patterns(None).len(), 17);
    assert_eq!(ignore_patterns(None)[0], ".git");
    assert_eq!(ignore_patterns(Some("dist\n")), strings(&["dist"]));
    assert!(shared_paths(None).is_empty());
    assert_eq!(shared_paths(Some(".venv\n")), strings(&[".venv"]));
    assert!(default_lupeignore().starts_with("# Lupe ignore"));
    assert_eq!(parse_pattern_lines(default_lupeignore()), ignore_patterns(None));
}

#[test]
fn workspace_branch_defaults_to_main() {
    assert_eq!(workspace_branch(None), "main");
    assert_eq!(workspace_branch(Some("  feature-x\n")), "feature-x");
}

#[test]
fn gitignore_gets_store_entry_once() {
    assert_eq!(gitignore_update("target\n"), Some("target\n\n# Lupe\n.lupe/\n".to_string()));
    assert_eq!(gitignore_update("target"), Some("target\n\n# Lupe\n.lupe/\n".to_string()));
    assert_eq!(gitignore_update(""), Some("\n# Lupe\n.lupe/\n".to_string()));
    assert_eq!(gitignore_update("a\n  .lupe/  \n"), None);
    let once = gitignore_update("x").unwrap();
    assert_eq!(gitignore_update(&once), None);
}

#[test]
fn agents_md_is_never_written() {
    let section = lupe_agent_section();
    assert!(section.starts_with("<!-- lupe-agent-workflow -->\n# Lupe Agent Workflow"));
    assert!(section.ends_with("<!-- /lupe-agent-workflow -->\n"));
    assert_eq!(agents_md_update(None), None);
    assert_eq!(agents_md_update(Some("# Notes")), None);
}

#[test]
fn star_patterns_skip_matching_components() {
    let ws = strings(&["/", "w"]);
    let ignore = strings(&["*.map", "*.pyc", ".git"]);
    assert!(should_skip(&ws, &strings(&["/", "w", "app.js.map"]), &ignore));
    assert!(should_skip(&ws, &strings(&["/", "w", "pkg", "__init__.pyc"]), &ignore));
    assert!(should_skip(&ws, &strings(&["/", "w", ".map"]), &ignore));
    assert!(!should_skip(&ws, &strings(&["/", "w", "app.js.mapx"]), &ignore));
    assert!(!should_skip(&ws, &strings(&["/", "w", "map"]), &ignore));
    assert!(!should_skip(&ws, &strings(&["/", "w", ".gitignore"]), &ignore));
}

#[test]
fn glob_patterns() {
    let g = |p: &str, s: &str| glob_matches(&p.chars().collect(), &s.chars().collect());
    assert!(g("*", ""));
    assert!(g("a*b*c", "axxbyyc"));
    assert!(!g("a*b*c", "axxbyy"));
    assert!(g("**", "abc"));
    assert!(g("abc", "abc"));
    assert!(!g("abc", "abd"));
    assert!(!g("", "a"));
}

#[test]
fn agent_label_choices() {
    assert_eq!(agent_label(Some("me".to_string()), Some("env".to_string()), None, true, None), "me");
    assert_eq!(agent_label(None, Some("env".to_string()), None, true, None), "env");
    assert_eq!(agent_label(None, None, None, true, Some("gpt".to_string())), "cursor/gpt");
    assert_eq!(agent_label(None, None, None, false, None), "unknown/unknown");
    assert_eq!(agent_label(None, None, Some("codex".to_string()), true, Some("o3".to_string())), "codex/o3");
}

#[test]
fn project_home_stops_at_home() {
    assert_eq!(project_home_choice(&vec![false, false, false], &vec![false, true, true]), Some(1));
    assert_eq!(project_home_choice(&vec![false, true, false], &vec![false, false, true]), None);
    assert_eq!(project_home_choice(&vec![true], &vec![true]), None);
    assert_eq!(project_home_choice(&vec![], &vec![]), None);
}

#[test]
fn ids_print_and_parse() {
    let id: u128 = 0xa1a2a3a4b1b2c1c2d1d2d3d4d5d6d7d8;
    assert_eq!(id_text(id), "a1a2a3a4-b1b2-c1c2-d1d2-d3d4d5d6d7d8");
    assert_eq!(short_id(id), "a1a2a3a4");
    assert_eq!(parse_uuid(id_text(id)).ok(), Some(id));
    match parse_uuid("nope".to_string()) {
        Err(LupeError::InvalidUuid(v)) => assert_eq!(v, "nope"),
        _ => panic!("accepted"),
    }
    assert_eq!(optional_uuid(None).ok(), Some(None));
    assert_eq!(optional_uuid(Some(id_text(id))).ok(), Some(Some(id)));
    assert!(optional_uuid(Some("x".to_string())).is_err());
}

#[test]
fn times_read_and_shown() {
    assert_eq!(parse_time("2024-03-01T15:04:05+00:00"), Some((1709305445, 0)));
    assert_eq!(parse_time("2024-03-01T16:04:05.5+01:00"), Some((1709305445, 500_000_000)));
    assert_eq!(parse_time("yesterday"), None);
    assert_eq!(friendly_time(1709305445, 0), Some("03:04 PM, Fri - March 1st 2024".to_string()));
    assert_eq!(friendly_time(1711067400, 0), Some("12:30 AM, Fri - March 22nd 2024".to_string()));
    assert_eq!(friendly_time(1702252800, 0), Some("12:00 AM, Mon - December 11th 2023".to_string()));
    assert_eq!(decimal_text(0), "0");
    assert_eq!(decimal_text(1234567), "1234567");
}
