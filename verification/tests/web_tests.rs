use lupe::webdiff::{oversized_file_diff, plan_web_diff, text_file_diff, too_large_to_show, FileStatus};

fn rows(r: &[(&str, &str)]) -> Vec<(String, String)> {
    r.iter().map(|(p, h)| (p.to_string(), h.to_string())).collect()
}

#[test]
fn plan_lists_changed_files_in_order() {
    let from = rows(&[("b", "1"), ("a", "1"), ("c", "2")]);
    let to = rows(&[("c", "3"), ("a", "1"), ("d", "4")]);
    let plan = plan_web_diff(&from, &to);
    let summary: Vec<(String, &str, Option<String>, Option<String>)> = plan
        .iter()
        .map(|c| (c.path.clone(), c.status.as_str(), c.old_hash.clone(), c.new_hash.clone()))
        .collect();
    assert_eq!(
        summary,
        vec![
            ("b".to_string(), "removed", Some("1".to_string()), None),
            ("c".to_string(), "modified", Some("2".to_string()), Some("3".to_string())),
            ("d".to_string(), "added", None, Some("4".to_string())),
        ]
    );
}

#[test]
fn plan_without_parent_adds_everything() {
    let to = rows(&[("x", "1")]);
    let plan = plan_web_diff(&Vec::new(), &to);
    assert_eq!(plan.len(), 1);
    assert_eq!(plan[0].status.as_str(), "added");
    assert!(plan_web_diff(&to, &to).is_empty());
}

#[test]
fn text_diff_builds_hunks() {
    let d = text_file_diff("f.txt", &FileStatus::Modified, &b"a\nb\nc\n".to_vec(), &b"a\nB\nc\n".to_vec()).unwrap();
    assert_eq!(d.path, "f.txt");
    assert_eq!(d.status, "modified");
    assert!(!d.is_binary);
    assert_eq!(d.hunks.len(), 1);
    let h = &d.hunks[0];
    assert_eq!((h.old_start, h.new_start), (1, 1));
    let lines: Vec<(&str, &str, Option<u32>, Option<u32>)> = h
        .lines
        .iter()
        .map(|l| (l.kind.as_str(), l.content.as_str(), l.old_line, l.new_line))
        .collect();
    assert_eq!(
        lines,
        vec![
            ("context", "a", Some(1), Some(1)),
            ("removed", "b", Some(2), None),
            ("added", "B", None, Some(2)),
            ("context", "c", Some(3), Some(3)),
        ]
    );
}

#[test]
fn text_diff_of_new_file() {
    let d = text_file_diff("n", &FileStatus::Added, &Vec::new(), &b"x\ny\n".to_vec()).unwrap();
    assert_eq!(d.hunks.len(), 1);
    assert_eq!((d.hunks[0].old_start, d.hunks[0].new_start), (1, 1));
    assert_eq!(d.hunks[0].lines.len(), 2);
    assert_eq!(d.hunks[0].lines[0].kind, "added");
}

#[test]
fn text_diff_detects_binary() {
    let d = text_file_diff("bin", &FileStatus::Modified, &vec![1, 0, 2], &vec![3]).unwrap();
    assert!(d.is_binary);
    assert!(d.hunks.is_empty());
}

#[test]
fn identical_texts_have_no_hunks() {
    let d = text_file_diff("s", &FileStatus::Modified, &b"same\n".to_vec(), &b"same\n".to_vec()).unwrap();
    assert!(d.hunks.is_empty());
}

#[test]
fn oversized_files_are_listed_without_lines() {
    assert!(too_large_to_show(256 * 1024 + 1));
    assert!(!too_large_to_show(256 * 1024));
    let d = oversized_file_diff("big", &FileStatus::Removed);
    assert_eq!(d.status, "removed");
    assert!(!d.is_binary && d.hunks.is_empty());
}

#[test]
fn web_lines_have_the_numbers_of_their_kind() {
    let d = lupe::webdiff::text_file_diff(
        "f",
        &lupe::webdiff::FileStatus::Modified,
        &b"a\nb\nc\nd\n".to_vec(),
        &b"a\nB\nc\nd\ne\n".to_vec(),
    )
    .unwrap();
    assert!(!d.hunks.is_empty());
    for h in &d.hunks {
        assert!(!h.lines.is_empty());
        for l in &h.lines {
            match l.kind.as_str() {
                "context" => assert!(l.old_line.is_some() && l.new_line.is_some()),
                "added" => assert!(l.old_line.is_none() && l.new_line.is_some()),
                "removed" => assert!(l.old_line.is_some() && l.new_line.is_none()),
                other => panic!("unexpected kind {other}"),
            }
        }
    }
}
