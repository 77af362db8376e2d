use lupe::store_plan::{
    checkpoint_filter, checkpoint_parent, checkpoint_ref, diff_range_finish, diff_range_plan, found_id, head_after_branch,
    head_after_check, head_after_latest, head_after_save, head_start, manifest_after_checkpoint_files,
    manifest_after_first_save, manifest_after_save_files, manifest_after_save_manifest, search_pattern, CheckpointRef,
    HeadStep, ManifestStep, RangePlan,
};
use lupe::LupeError;

const A: u128 = 0x0190_0000_0000_7000_8000_0000_0000_000a;
const B: u128 = 0x0190_0000_0000_7000_8000_0000_0000_000b;
const A_TEXT: &str = "01900000-0000-7000-8000-00000000000a";
const B_TEXT: &str = "01900000-0000-7000-8000-00000000000b";

#[test]
fn diff_range_with_both_ends_is_ready() {
    assert!(matches!(diff_range_plan(Some(A), Some(B), None), Ok(RangePlan::Ready(A, B))));
    assert!(matches!(diff_range_plan(Some(A), Some(B), Some(B)), Ok(RangePlan::Ready(A, B))));
}

#[test]
fn diff_range_with_one_end_compares_with_its_parent() {
    assert!(matches!(
        diff_range_plan(Some(B), None, Some(A)),
        Ok(RangePlan::ParentOf { id: B, latest: false })
    ));
}

#[test]
fn diff_range_without_ends_uses_head() {
    assert!(matches!(diff_range_plan(None, None, Some(A)), Ok(RangePlan::ParentOf { id: A, latest: true })));
    assert!(matches!(diff_range_plan(None, None, None), Err(LupeError::NoHead)));
}

#[test]
fn diff_range_with_only_the_end_is_refused() {
    assert!(matches!(diff_range_plan(None, Some(B), Some(A)), Err(LupeError::BadDiffRange)));
}

#[test]
fn diff_range_finish_puts_parent_first() {
    assert!(matches!(diff_range_finish(B, false, Some(A_TEXT.to_string())), Ok((A, B))));
    assert!(matches!(diff_range_finish(B, false, None), Err(LupeError::NoParent(B))));
    assert!(matches!(diff_range_finish(B, true, None), Err(LupeError::OnlyOneCheckpoint)));
    match diff_range_finish(B, false, Some("nope".to_string())) {
        Err(LupeError::InvalidUuid(v)) => assert_eq!(v, "nope"),
        other => panic!("unexpected {other:?}"),
    }
}

#[test]
fn found_id_reports_the_missing_error() {
    assert!(matches!(found_id(None, LupeError::NoCheckpoint), Err(LupeError::NoCheckpoint)));
    assert!(matches!(found_id(Some(B_TEXT.to_string()), LupeError::NoCheckpoint), Ok(B)));
    match found_id(None, LupeError::NoBranch("feat".to_string())) {
        Err(LupeError::NoBranch(n)) => assert_eq!(n, "feat"),
        other => panic!("unexpected {other:?}"),
    }
}

#[test]
fn checkpoint_parent_prefers_the_branch_head() {
    assert_eq!(checkpoint_parent(Some(A_TEXT.to_string()), Some(B)), Some(A));
    assert_eq!(checkpoint_parent(None, Some(B)), Some(B));
    assert_eq!(checkpoint_parent(Some("garbage".to_string()), Some(B)), Some(B));
    assert_eq!(checkpoint_parent(None, None), None);
}

#[test]
fn checkpoint_ref_takes_whole_ids_and_prefixes() {
    assert!(matches!(checkpoint_ref(A_TEXT), CheckpointRef::Exact(A)));
    match checkpoint_ref("0190ab") {
        CheckpointRef::Prefix(p) => assert_eq!(p, "0190ab%"),
        other => panic!("unexpected {other:?}"),
    }
}

#[test]
fn search_pattern_trims_and_wraps() {
    assert_eq!(search_pattern("  login bug \n"), Some("%login bug%".to_string()));
    assert_eq!(search_pattern(" \t\n"), None);
    assert_eq!(search_pattern(""), None);
}

#[test]
fn head_bootstrap_without_head_file_looks_for_latest_main() {
    assert!(matches!(head_start(None), HeadStep::FindLatestMain));
    assert!(matches!(head_after_latest(None), Ok(HeadStep::Done)));
    assert!(matches!(head_after_latest(Some(A_TEXT.to_string())), Ok(HeadStep::WriteHeadAndMain(A))));
    assert!(matches!(head_after_latest(Some("x".to_string())), Err(LupeError::InvalidUuid(_))));
}

#[test]
fn head_bootstrap_with_head_file_checks_its_id() {
    let content = format!("  {A_TEXT}\n");
    assert!(matches!(head_start(Some(&content)), HeadStep::CheckCheckpoint(A)));
    assert!(matches!(head_start(Some("not an id")), HeadStep::Done));
    assert!(matches!(head_after_check(A, true), HeadStep::ReadBranch { id: A, write_head: false }));
    assert!(matches!(head_after_check(A, false), HeadStep::FindSaveCheckpoint(A)));
}

#[test]
fn head_bootstrap_moves_head_from_a_save_to_its_checkpoint() {
    assert!(matches!(head_after_save(Some(B_TEXT.to_string())), HeadStep::ReadBranch { id: B, write_head: true }));
    assert!(matches!(head_after_save(None), HeadStep::Done));
    assert!(matches!(head_after_save(Some("bad".to_string())), HeadStep::Done));
}

#[test]
fn head_bootstrap_points_main_only_at_main_checkpoints() {
    assert!(matches!(head_after_branch(A, Some("main".to_string())), HeadStep::PointMain(A)));
    assert!(matches!(head_after_branch(A, None), HeadStep::PointMain(A)));
    assert!(matches!(head_after_branch(A, Some("feature".to_string())), HeadStep::Done));
    assert!(matches!(head_after_branch(A, Some("mai".to_string())), HeadStep::Done));
    assert!(matches!(head_after_branch(A, Some("mainx".to_string())), HeadStep::Done));
}

#[test]
fn listing_filters() {
    assert_eq!(checkpoint_filter(true, true), "");
    assert_eq!(checkpoint_filter(true, false), " where private = 0");
    assert_eq!(checkpoint_filter(false, true), " where branch_name = 'main'");
    assert_eq!(checkpoint_filter(false, false), " where branch_name = 'main' and private = 0");
}

fn entry(p: &str) -> lupe::FileEntry {
    lupe::FileEntry { path: p.to_string(), hash: "abc".to_string(), len: 1 }
}

#[test]
fn manifest_lookup_falls_back_to_saves() {
    match manifest_after_checkpoint_files(vec![entry("a")]) {
        ManifestStep::Found(m) => assert_eq!(m.files[0].path, "a"),
        other => panic!("unexpected {other:?}"),
    }
    assert!(matches!(manifest_after_checkpoint_files(vec![]), ManifestStep::FindFirstSave));
    match manifest_after_first_save(None) {
        ManifestStep::Found(m) => assert!(m.files.is_empty()),
        other => panic!("unexpected {other:?}"),
    }
    match manifest_after_first_save(Some("s1".to_string())) {
        ManifestStep::ReadSaveFiles(s) => assert_eq!(s, "s1"),
        other => panic!("unexpected {other:?}"),
    }
    match manifest_after_save_files("s1".to_string(), vec![]) {
        ManifestStep::ReadSaveManifest(s) => assert_eq!(s, "s1"),
        other => panic!("unexpected {other:?}"),
    }
    match manifest_after_save_files("s1".to_string(), vec![entry("b")]) {
        ManifestStep::Found(m) => assert_eq!(m.files.len(), 1),
        other => panic!("unexpected {other:?}"),
    }
    assert!(manifest_after_save_manifest(None).files.is_empty());
    let m = lupe::Manifest { files: vec![entry("c")] };
    assert_eq!(manifest_after_save_manifest(Some(m)).files[0].path, "c");
}
