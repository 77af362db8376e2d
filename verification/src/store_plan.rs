//! The decisions the store makes between its database queries: which
//! checkpoints a diff compares, which checkpoint a new one descends from,
//! how a checkpoint is looked up by a text, and how HEAD is brought in line
//! with the recorded checkpoints when the store opens.
use vstd::prelude::*;
use crate::error::LupeError;
use crate::manifest::{FileEntry, Manifest};
use crate::ids::{parse_uuid, uuid_parse};
use crate::order::chars_eq;
use crate::workspace::opt_text;
use crate::text::{chars_of, push_str_chars, string_of, trim, trim_chars};

verus! {

/// The id an optional stored text names, when it names one.
pub open spec fn named_id(found: Option<Seq<char>>) -> Option<u128> {
    match found {
        Some(s) => uuid_parse(s),
        None => None,
    }
}

/// Reads the id a lookup found; `missing` is the error when it found none.
pub fn found_id(found: Option<String>, missing: LupeError) -> (r: Result<u128, LupeError>)
    ensures
        found is None ==> r == Err::<u128, LupeError>(missing),
        found matches Some(s) ==> match uuid_parse(s@) {
            Some(id) => r == Ok::<u128, LupeError>(id),
            None => r matches Err(e) && e matches LupeError::InvalidUuid(v) && v@ == s@,
        },
{
    match found {
        None => Err(missing),
        Some(s) => parse_uuid(s),
    }
}

/// What comparing two checkpoints needs next.
#[derive(Debug)]
pub enum RangePlan {
    /// Both ends are known: compare `from` with `to`.
    Ready(u128, u128),
    /// Compare the checkpoint with its parent, which is still to be read;
    /// `latest` tells that the checkpoint is HEAD, taken because no end was
    /// given.
    ParentOf { id: u128, latest: bool },
}

/// Which checkpoints `lupe diff` compares, from the ends given on the
/// command line and the checkpoint HEAD names: both ends as given; one id
/// against its parent; no id, HEAD against its parent. An end alone is
/// refused.
pub fn diff_range_plan(from: Option<u128>, to: Option<u128>, head: Option<u128>) -> (r: Result<RangePlan, LupeError>)
    ensures
        r == match (from, to) {
            (Some(f), Some(t)) => Ok(RangePlan::Ready(f, t)),
            (Some(t), None) => Ok(RangePlan::ParentOf { id: t, latest: false }),
            (None, None) => match head {
                Some(h) => Ok(RangePlan::ParentOf { id: h, latest: true }),
                None => Err(LupeError::NoHead),
            },
            (None, Some(_)) => Err(LupeError::BadDiffRange),
        },
{
    match (from, to) {
        (Some(f), Some(t)) => Ok(RangePlan::Ready(f, t)),
        (Some(t), None) => Ok(RangePlan::ParentOf { id: t, latest: false }),
        (None, None) => match head {
            Some(h) => Ok(RangePlan::ParentOf { id: h, latest: true }),
            None => Err(LupeError::NoHead),
        },
        (None, Some(_)) => Err(LupeError::BadDiffRange),
    }
}

/// The pair compared once the parent of `id` has been read: the parent
/// first. Without a parent there is nothing to compare against.
pub fn diff_range_finish(id: u128, latest: bool, parent: Option<String>) -> (r: Result<(u128, u128), LupeError>)
    ensures
        parent is None ==> r == Err::<(u128, u128), LupeError>(
            if latest { LupeError::OnlyOneCheckpoint } else { LupeError::NoParent(id) },
        ),
        parent matches Some(p) ==> match uuid_parse(p@) {
            Some(pid) => r == Ok::<(u128, u128), LupeError>((pid, id)),
            None => r matches Err(e) && e matches LupeError::InvalidUuid(v) && v@ == p@,
        },
{
    let missing = if latest {
        LupeError::OnlyOneCheckpoint
    } else {
        LupeError::NoParent(id)
    };
    match found_id(parent, missing) {
        Ok(pid) => Ok((pid, id)),
        Err(e) => Err(e),
    }
}

/// The parent of a new checkpoint: the head of its branch when the branch
/// has one that reads as an id, else the checkpoint HEAD names.
pub fn checkpoint_parent(branch_head: Option<String>, head: Option<u128>) -> (r: Option<u128>)
    ensures
        r == match named_id(opt_text(branch_head)) {
            Some(id) => Some(id),
            None => head,
        },
{
    match branch_head {
        Some(s) => match parse_uuid(s) {
            Ok(id) => Some(id),
            Err(_) => head,
        },
        None => head,
    }
}

/// How a checkpoint given as a text is looked up.
#[derive(Debug)]
pub enum CheckpointRef {
    /// The text is a whole id.
    Exact(u128),
    /// The text is not an id: look for an id beginning with it, with this
    /// `LIKE` pattern.
    Prefix(String),
}

/// How `lupe cat` and `lupe files` find the checkpoint a text names: a
/// whole id is taken as it is; any other text is matched against the
/// beginning of the stored ids.
pub fn checkpoint_ref(s: &str) -> (r: CheckpointRef)
    ensures
        match uuid_parse(s@) {
            Some(id) => r == CheckpointRef::Exact(id),
            None => r matches CheckpointRef::Prefix(p) && p@ == s@ + "%"@,
        },
{
    let t = s.to_string();
    match parse_uuid(t) {
        Ok(id) => CheckpointRef::Exact(id),
        Err(_) => {
            let mut out: Vec<char> = Vec::new();
            push_str_chars(&mut out, s);
            push_str_chars(&mut out, "%");
            CheckpointRef::Prefix(string_of(&out))
        },
    }
}

/// The `LIKE` pattern a search runs with: the query without surrounding
/// whitespace, between `%` signs. A query of whitespace alone finds
/// nothing, and is not run.
pub fn search_pattern(query: &str) -> (r: Option<String>)
    ensures
        trim(query@).len() == 0 ==> r is None,
        trim(query@).len() > 0 ==> (r matches Some(p) && p@ == "%"@ + trim(query@) + "%"@),
{
    let t = trim_chars(&chars_of(query));
    if t.len() == 0 {
        return None;
    }
    let mut out: Vec<char> = Vec::new();
    push_str_chars(&mut out, "%");
    let mut i: usize = 0;
    while i < t.len()
        invariant
            i <= t@.len(),
            out@ == "%"@ + t@.take(i as int),
        decreases t@.len() - i,
    {
        out.push(t[i]);
        assert(t@.take(i + 1) =~= t@.take(i as int).push(t@[i as int]));
        i = i + 1;
    }
    assert(t@.take(t@.len() as int) =~= t@);
    push_str_chars(&mut out, "%");
    Some(string_of(&out))
}

}

verus! {

/// What the store reads or writes next while it makes sure that HEAD names
/// a checkpoint and that `main` points at it.
#[derive(Debug)]
pub enum HeadStep {
    /// Nothing more to do.
    Done,
    /// There is no HEAD file: read the newest checkpoint on `main` (or on no
    /// branch).
    FindLatestMain,
    /// Read whether the id in the HEAD file names a checkpoint.
    CheckCheckpoint(u128),
    /// The id in the HEAD file names no checkpoint: read the checkpoint of
    /// the save with that id.
    FindSaveCheckpoint(u128),
    /// Write `id` to HEAD when `write_head` is set, then read the branch of
    /// checkpoint `id`.
    ReadBranch { id: u128, write_head: bool },
    /// Write `id` to HEAD and point `main` at it.
    WriteHeadAndMain(u128),
    /// Point `main` at checkpoint `id`.
    PointMain(u128),
}

/// The first step, from the content of the HEAD file if there is one.
pub open spec fn head_start_spec(head_file: Option<Seq<char>>) -> HeadStep {
    match head_file {
        None => HeadStep::FindLatestMain,
        Some(raw) => match uuid_parse(trim(raw)) {
            Some(id) => HeadStep::CheckCheckpoint(id),
            None => HeadStep::Done,
        },
    }
}

/// The first step: without a HEAD file, look for the newest checkpoint on
/// `main`; with one, check the id it holds (surrounding whitespace aside);
/// a HEAD file that holds no id is left as it is.
pub fn head_start(head_file: Option<&str>) -> (r: HeadStep)
    ensures
        r == head_start_spec(match head_file {
            Some(s) => Some(s@),
            None => None,
        }),
{
    match head_file {
        None => HeadStep::FindLatestMain,
        Some(raw) => {
            let t = string_of(&trim_chars(&chars_of(raw)));
            match parse_uuid(t) {
                Ok(id) => HeadStep::CheckCheckpoint(id),
                Err(_) => HeadStep::Done,
            }
        },
    }
}

/// After checking the HEAD id: a checkpoint has its branch read; any other
/// id is looked up as a save.
pub fn head_after_check(id: u128, is_checkpoint: bool) -> (r: HeadStep)
    ensures
        r == if is_checkpoint {
            HeadStep::ReadBranch { id, write_head: false }
        } else {
            HeadStep::FindSaveCheckpoint(id)
        },
{
    if is_checkpoint {
        HeadStep::ReadBranch { id, write_head: false }
    } else {
        HeadStep::FindSaveCheckpoint(id)
    }
}

/// After looking the HEAD id up as a save: HEAD moves to the save's
/// checkpoint, whose branch is then read; without one, nothing changes.
pub fn head_after_save(save_checkpoint: Option<String>) -> (r: HeadStep)
    ensures
        r == match named_id(opt_text(save_checkpoint)) {
            Some(id) => HeadStep::ReadBranch { id, write_head: true },
            None => HeadStep::Done,
        },
{
    match save_checkpoint {
        None => HeadStep::Done,
        Some(s) => match parse_uuid(s) {
            Ok(id) => HeadStep::ReadBranch { id, write_head: true },
            Err(_) => HeadStep::Done,
        },
    }
}

/// Whether a checkpoint's branch, as stored, is `main` (a checkpoint
/// without a branch counts as on `main`).
pub open spec fn on_main(branch: Option<Seq<char>>) -> bool {
    match branch {
        Some(b) => b == "main"@,
        None => true,
    }
}

/// After reading the branch of the HEAD checkpoint: `main` is pointed at it
/// only when it is on `main`.
pub fn head_after_branch(id: u128, branch: Option<String>) -> (r: HeadStep)
    ensures
        r == if on_main(opt_text(branch)) {
            HeadStep::PointMain(id)
        } else {
            HeadStep::Done
        },
{
    let main = match &branch {
        Some(b) => chars_eq(&chars_of(b.as_str()), &chars_of("main")),
        None => true,
    };
    if main {
        HeadStep::PointMain(id)
    } else {
        HeadStep::Done
    }
}

/// After looking for the newest checkpoint on `main` when there was no HEAD
/// file: HEAD and `main` both move to it; a stored id that does not read is
/// an error; with no checkpoint at all nothing changes.
pub fn head_after_latest(latest: Option<String>) -> (r: Result<HeadStep, LupeError>)
    ensures
        latest is None ==> r == Ok::<HeadStep, LupeError>(HeadStep::Done),
        latest matches Some(s) ==> match uuid_parse(s@) {
            Some(id) => r == Ok::<HeadStep, LupeError>(HeadStep::WriteHeadAndMain(id)),
            None => r matches Err(e) && e matches LupeError::InvalidUuid(v) && v@ == s@,
        },
{
    match latest {
        None => Ok(HeadStep::Done),
        Some(s) => match parse_uuid(s) {
            Ok(id) => Ok(HeadStep::WriteHeadAndMain(id)),
            Err(e) => Err(e),
        },
    }
}

}

verus! {

/// Which checkpoints a listing shows: all branches or only `main`, and
/// private ones or not. The text is the `where` clause of the listing's
/// query, empty when every checkpoint is shown.
pub open spec fn checkpoint_filter_spec(all: bool, include_private: bool) -> Seq<char> {
    if all {
        if include_private { Seq::empty() } else { " where private = 0"@ }
    } else {
        if include_private { " where branch_name = 'main'"@ } else { " where branch_name = 'main' and private = 0"@ }
    }
}

/// The `where` clause that selects the checkpoints a listing shows.
pub fn checkpoint_filter(all: bool, include_private: bool) -> (s: &'static str)
    ensures
        s@ == checkpoint_filter_spec(all, include_private),
{
    if all {
        if include_private {
            proof {
                reveal_strlit("");
            }
            ""
        } else {
            " where private = 0"
        }
    } else {
        if include_private {
            " where branch_name = 'main'"
        } else {
            " where branch_name = 'main' and private = 0"
        }
    }
}

}

verus! {

/// What reading a checkpoint's manifest needs next. Files are recorded per
/// checkpoint; stores written before that kept them per save, first as
/// rows and earlier as a manifest text.
#[derive(Debug)]
pub enum ManifestStep {
    /// The manifest is found.
    Found(Manifest),
    /// No files are recorded for the checkpoint: read the id of its first
    /// save.
    FindFirstSave,
    /// Read the files recorded for the save with this id.
    ReadSaveFiles(String),
    /// No files are recorded for the save: read its manifest text.
    ReadSaveManifest(String),
}

/// After reading the files recorded for the checkpoint: those files, when
/// there are any.
pub fn manifest_after_checkpoint_files(files: Vec<FileEntry>) -> (r: ManifestStep)
    ensures
        files@.len() > 0 ==> (r matches ManifestStep::Found(m) && m.files@ == files@),
        files@.len() == 0 ==> r is FindFirstSave,
{
    if files.len() > 0 {
        ManifestStep::Found(Manifest { files })
    } else {
        ManifestStep::FindFirstSave
    }
}

/// After looking for the checkpoint's first save: without one the manifest
/// is empty, with one its files are read.
pub fn manifest_after_first_save(save_id: Option<String>) -> (r: ManifestStep)
    ensures
        save_id is None ==> (r matches ManifestStep::Found(m) && m.files@.len() == 0),
        save_id matches Some(s) ==> (r matches ManifestStep::ReadSaveFiles(t) && t@ == s@),
{
    match save_id {
        None => ManifestStep::Found(Manifest { files: Vec::new() }),
        Some(s) => ManifestStep::ReadSaveFiles(s),
    }
}

/// After reading the files recorded for the save: those files, when there
/// are any, else the save's manifest text is read.
pub fn manifest_after_save_files(save_id: String, files: Vec<FileEntry>) -> (r: ManifestStep)
    ensures
        files@.len() > 0 ==> (r matches ManifestStep::Found(m) && m.files@ == files@),
        files@.len() == 0 ==> (r matches ManifestStep::ReadSaveManifest(t) && t@ == save_id@),
{
    if files.len() > 0 {
        ManifestStep::Found(Manifest { files })
    } else {
        ManifestStep::ReadSaveManifest(save_id)
    }
}

/// After reading the save's manifest text: the manifest it holds, or an
/// empty one when the save has none.
pub fn manifest_after_save_manifest(parsed: Option<Manifest>) -> (m: Manifest)
    ensures
        parsed matches Some(p) ==> m.files@ == p.files@,
        parsed is None ==> m.files@.len() == 0,
{
    match parsed {
        Some(p) => p,
        None => Manifest { files: Vec::new() },
    }
}

}
