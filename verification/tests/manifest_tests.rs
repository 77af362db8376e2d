use lupe::manifest::{diff_manifests, FileEntry, Manifest};
use lupe::report::{diff_lines, file_change_counts};
use lupe::snapshot::{build_snapshot, hash_bytes, object_path, paths_to_remove};
use lupe::{Colors, LupeError};

fn entry(path: &str, hash: &str) -> FileEntry {
    FileEntry { path: path.to_string(), hash: hash.to_string(), len: 1 }
}

fn manifest(files: &[(&str, &str)]) -> Manifest {
    Manifest { files: files.iter().map(|(p, h)| entry(p, h)).collect() }
}

#[test]
fn diff_reports_added_modified_removed_in_path_order() {
    let a = manifest(&[("src/b.rs", "1"), ("a.txt", "2"), ("gone.txt", "3"), ("same", "4")]);
    let b = manifest(&[("z.txt", "9"), ("src/b.rs", "5"), ("a.txt", "6"), ("new.txt", "7"), ("same", "4")]);
    let d = diff_manifests(1, 2, &a, &b);
    assert_eq!(d.from, 1);
    assert_eq!(d.to, 2);
    assert_eq!(d.added, vec!["new.txt".to_string(), "z.txt".to_string()]);
    assert_eq!(d.modified, vec!["a.txt".to_string(), "src/b.rs".to_string()]);
    assert_eq!(d.removed, vec!["gone.txt".to_string()]);
}

#[test]
fn diff_with_itself_is_empty() {
    let a = manifest(&[("x", "1"), ("y", "2")]);
    let d = diff_manifests(7, 7, &a, &a);
    assert!(d.added.is_empty() && d.modified.is_empty() && d.removed.is_empty());
}

#[test]
fn diff_swapped_swaps_added_and_removed() {
    let a = manifest(&[("x", "1"), ("y", "2")]);
    let b = manifest(&[("y", "3"), ("z", "4")]);
    let ab = diff_manifests(1, 2, &a, &b);
    let ba = diff_manifests(2, 1, &b, &a);
    assert_eq!(ab.removed, ba.added);
    assert_eq!(ab.added, ba.removed);
    assert_eq!(ab.modified, ba.modified);
}

#[test]
fn diff_later_entry_wins() {
    let a = manifest(&[("x", "1"), ("x", "2")]);
    let b = manifest(&[("x", "2")]);
    let d = diff_manifests(1, 2, &a, &b);
    assert!(d.modified.is_empty());
}

#[test]
fn change_counts_match_diff() {
    let a = manifest(&[("x", "1"), ("y", "2"), ("w", "0")]);
    let b = manifest(&[("y", "3"), ("z", "4")]);
    assert_eq!(file_change_counts(Some(&a), &b), (1, 1, 2));
    assert_eq!(file_change_counts(None, &b), (2, 0, 0));
}

#[test]
fn diff_lines_shows_at_most_eight() {
    let a = manifest(&[]);
    let files: Vec<(String, String)> = (0..10).map(|i| (format!("f{i}"), "h".to_string())).collect();
    let b = Manifest { files: files.iter().map(|(p, h)| entry(p, h)).collect() };
    let d = diff_manifests(1, 2, &a, &b);
    let lines = diff_lines(&d, &Colors::new(false), "|", "  ");
    assert_eq!(lines.len(), 9);
    assert_eq!(lines[0], "|  + f0");
    assert_eq!(lines[8], "|  ... +2 more");
    let colored = diff_lines(&d, &Colors::new(true), "|", " ");
    assert_eq!(colored[0], "| \x1b[32m+ f0\x1b[0m");
    assert_eq!(colored[8], "| \x1b[2m... +2 more\x1b[0m");
}

#[test]
fn diff_lines_orders_kinds() {
    let a = manifest(&[("m", "1"), ("r", "1")]);
    let b = manifest(&[("m", "2"), ("a", "1")]);
    let d = diff_manifests(1, 2, &a, &b);
    let lines = diff_lines(&d, &Colors::new(false), "", "");
    assert_eq!(lines, vec!["+ a".to_string(), "~ m".to_string(), "- r".to_string()]);
}

#[test]
fn hash_bytes_is_sha256_hex() {
    assert_eq!(
        hash_bytes(b"hello"),
        "2cf24dba5fb0a30e26e83b2ac5b9e29e1b161e5c1fa7425e73043362938b9824"
    );
}

#[test]
fn object_path_splits_hash() {
    assert_eq!(object_path("objs", "abcdef").unwrap(), "objs/ab/cdef");
    assert_eq!(object_path("/o/", "abc").unwrap(), "/o/ab/c");
    match object_path("objs", "ab") {
        Err(LupeError::InvalidObjectHash(h)) => assert_eq!(h, "ab"),
        _ => panic!("short hash accepted"),
    }
}

#[test]
fn snapshot_sorts_and_hashes() {
    let files = vec![entry("b/c.rs", "h2"), entry("a.txt", "h1")];
    let snap = build_snapshot(files);
    assert_eq!(snap.file_count, 2);
    let paths: Vec<&str> = snap.manifest.files.iter().map(|f| f.path.as_str()).collect();
    assert_eq!(paths, vec!["a.txt", "b/c.rs"]);
    assert_eq!(
        snap.root_hash,
        "32001236752e0db1bf4a0bd4904b264fa386dea430fd279244501b5196681f38"
    );
}

#[test]
fn snapshot_of_nothing() {
    let snap = build_snapshot(Vec::new());
    assert_eq!(snap.file_count, 0);
    assert_eq!(
        snap.root_hash,
        "44136fa355b3678a1146ad16f7e8649e94fb4fc21fe77e8310c060f61caaff8a"
    );
}

#[test]
fn snapshot_ignores_walk_order() {
    let one = build_snapshot(vec![entry("x", "1"), entry("y", "2"), entry("a", "3")]);
    let two = build_snapshot(vec![entry("y", "2"), entry("a", "3"), entry("x", "1")]);
    assert_eq!(one.root_hash, two.root_hash);
}

#[test]
fn restore_removes_unlisted_files() {
    let m = manifest(&[("keep.txt", "1"), ("dir/keep.rs", "2")]);
    let present = vec!["keep.txt".to_string(), "stale.txt".to_string(), "dir/keep.rs".to_string(), "dir/old.rs".to_string()];
    assert_eq!(paths_to_remove(&m, &present), vec!["stale.txt".to_string(), "dir/old.rs".to_string()]);
}
