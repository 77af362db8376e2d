//! Content hashes, object paths, and snapshots of a workspace.
use vstd::prelude::*;
use crate::error::LupeError;
use crate::ids::hex_char;
use crate::manifest::{FileEntry, Manifest};
use crate::order::strictly_sorted;
use crate::keyed::{keys_of, sort_by_text_key, TextKeyed};
use crate::text::{byte_prefix, bytes_len, chars_of, is_boundary, prefix_for_bytes, string_of};

verus! {

/// The SHA-256 digest of `data`.
pub uninterp spec fn sha256_digest(data: Seq<u8>) -> Seq<u8>;

/// Calls `sha2::Sha256::digest`, which returns the 32-byte SHA-256 digest
/// of its input; the digest itself is only named here.
#[verifier::external_body]
fn sha256(data: &[u8]) -> (d: Vec<u8>)
    ensures
        d@ == sha256_digest(data@),
        d@.len() == 32,
{
    <sha2::Sha256 as sha2::Digest>::digest(data).to_vec()
}

/// `data` in lower-case hexadecimal, two digits per byte, high digit first.
pub open spec fn hex_lower(data: Seq<u8>) -> Seq<char>
    decreases data.len(),
{
    if data.len() == 0 {
        Seq::empty()
    } else {
        seq![hex_char((data[0] / 16) as nat), hex_char((data[0] % 16) as nat)] + hex_lower(data.drop_first())
    }
}

/// Calls `hex::encode`, which writes each byte as two lower-case hexadecimal
/// digits, high digit first (its documentation and source say so).
#[verifier::external_body]
fn hex_encode(data: &Vec<u8>) -> (s: String)
    ensures
        s@ == hex_lower(data@),
{
    hex::encode(data)
}

/// The content hash of `bytes`: its SHA-256 digest in lower-case hexadecimal.
pub fn hash_bytes(bytes: &[u8]) -> (h: String)
    ensures
        h@ == hex_lower(sha256_digest(bytes@)),
{
    let d = sha256(bytes);
    hex_encode(&d)
}

/// The path text that joining `part` onto `base` gives.
pub uninterp spec fn joined_path(base: Seq<char>, part: Seq<char>) -> Seq<char>;

/// Calls `Path::join` on paths given as text and returns the result as
/// text. The joined path is only named here: its documentation says that an
/// absolute `part` replaces `base`, and that otherwise `part` is added
/// after a separator; neither is stated as a clause.
#[verifier::external_body]
pub(crate) fn join_path(base: &str, part: &str) -> (out: String)
    ensures
        out@ == joined_path(base@, part@),
{
    std::path::Path::new(base).join(part).to_string_lossy().into_owned()
}

/// Hashes shorter than this many bytes name no object.
pub const MIN_HASH_LEN: usize = 3;

/// Where the object with hash `hash` lives under `object_dir`: in the
/// directory named by the first two bytes of the hash, under the rest.
pub open spec fn object_path_spec(object_dir: Seq<char>, hash: Seq<char>) -> Seq<char> {
    let prefix = byte_prefix(hash, 2);
    joined_path(joined_path(object_dir, prefix), hash.skip(prefix.len() as int))
}

/// The path of the stored object with hash `hash`, or an error for a hash
/// shorter than 3 bytes.
pub fn object_path(object_dir: &str, hash: &str) -> (r: Result<String, LupeError>)
    requires
        bytes_len(hash@) >= MIN_HASH_LEN ==> is_boundary(hash@, 2),
    ensures
        bytes_len(hash@) < MIN_HASH_LEN <==> r is Err,
        r matches Err(e) ==> e matches LupeError::InvalidObjectHash(h) && h@ == hash@,
        r matches Ok(p) ==> p@ == object_path_spec(object_dir@, hash@),
{
    let cs = chars_of(hash);
    let (k, exact) = prefix_for_bytes(&cs, MIN_HASH_LEN - 1);
    if k == cs.len() {
        proof {
            assert(cs@.take(k as int) =~= cs@);
        }
        return Err(LupeError::InvalidObjectHash(string_of(&cs)));
    }
    proof {
        crate::text::lemma_bytes_len_take_mono(cs@, k as int + 1, cs@.len() as int);
        assert(cs@.take(k + 1) =~= cs@.take(k as int).push(cs@[k as int]));
        crate::text::lemma_bytes_len_push(cs@.take(k as int), cs@[k as int]);
        assert(cs@.take(cs@.len() as int) =~= cs@);
    }
    let mut prefix: Vec<char> = Vec::new();
    let mut rest: Vec<char> = Vec::new();
    for i in 0..cs.len()
        invariant
            k < cs.len(),
            i <= k ==> prefix@ == cs@.take(i as int) && rest@.len() == 0,
            i > k ==> prefix@ == cs@.take(k as int) && rest@ == cs@.subrange(k as int, i as int),
    {
        if i < k {
            prefix.push(cs[i]);
            assert(cs@.take(i + 1) =~= cs@.take(i as int).push(cs@[i as int]));
        } else {
            rest.push(cs[i]);
            assert(cs@.subrange(k as int, i + 1) =~= cs@.subrange(k as int, i as int).push(cs@[i as int]));
        }
    }
    assert(rest@ =~= cs@.skip(k as int));
    let p = string_of(&prefix);
    let r = string_of(&rest);
    let first = join_path(object_dir, p.as_str());
    Ok(join_path(first.as_str(), r.as_str()))
}

}

verus! {

/// The paths of a sequence of file entries.
pub open spec fn paths_of(files: Seq<FileEntry>) -> Seq<Seq<char>> {
    files.map_values(|f: FileEntry| f.path@)
}

/// No two entries share a path.
pub open spec fn distinct_paths(files: Seq<FileEntry>) -> bool {
    forall|i: int, j: int| 0 <= i < j < files.len() ==> #[trigger] files[i].path@ != #[trigger] files[j].path@
}

/// `out` holds the entries of `files`, each once.
pub open spec fn same_entries(out: Seq<FileEntry>, files: Seq<FileEntry>) -> bool {
    &&& out.len() == files.len()
    &&& forall|e: FileEntry| out.contains(e) <==> files.contains(e)
}

impl TextKeyed for FileEntry {
    open spec fn text_key(&self) -> Seq<char> {
        self.path@
    }

    fn key_chars(&self) -> (k: Vec<char>) {
        chars_of(self.path.as_str())
    }
}

/// The entries of `files` ordered by path, as a stable sort by path does
/// when no two entries share a path.
pub fn sort_by_path(files: Vec<FileEntry>) -> (out: Vec<FileEntry>)
    requires
        distinct_paths(files@),
    ensures
        strictly_sorted(paths_of(out@)),
        same_entries(out@, files@),
{
    let out = sort_by_text_key(files);
    assert(keys_of(out@) =~= paths_of(out@));
    out
}

}

verus! {

/// The error `serde_json` reports when it cannot encode a value; carried
/// through as it is.
#[verifier::external_type_specification]
#[verifier::external_body]
pub struct ExJsonError(serde_json::Error);

/// The texts of a sequence of text pairs.
pub open spec fn pairs_view(v: Seq<(String, String)>) -> Seq<(Seq<char>, Seq<char>)> {
    v.map_values(|p: (String, String)| (p.0@, p.1@))
}

/// The bytes `serde_json` writes for a JSON object with these entries, in
/// this order.
pub uninterp spec fn json_object_bytes(entries: Seq<(Seq<char>, Seq<char>)>) -> Seq<u8>;

/// Calls `serde_json::to_vec` on a `BTreeMap` from path to hash. The entries
/// come with strictly increasing distinct keys, so the map holds them one
/// for one and in the same order. The bytes are only named. The call
/// succeeds: `serde_json` fails only for a `Serialize` impl that reports an
/// error or for map keys that are not strings, and a map from `String` to
/// `String` written into a `Vec` has neither.
#[verifier::external_body]
fn json_map_bytes(entries: &Vec<(String, String)>) -> (r: Result<Vec<u8>, serde_json::Error>)
    requires
        strictly_sorted(pairs_view(entries@).map_values(|p: (Seq<char>, Seq<char>)| p.0)),
    ensures
        r is Ok,
        r matches Ok(b) ==> b@ == json_object_bytes(pairs_view(entries@)),
{
    serde_json::to_vec(&entries.iter().cloned().collect::<std::collections::BTreeMap<String, String>>())
}

/// Path and hash of each entry.
pub open spec fn entry_pairs(files: Seq<FileEntry>) -> Seq<(Seq<char>, Seq<char>)> {
    files.map_values(|f: FileEntry| (f.path@, f.hash@))
}

/// The hash of a snapshot as a whole: SHA-256, in hexadecimal, of the JSON
/// object from each path to its content hash.
pub open spec fn root_hash_of(files: Seq<FileEntry>) -> Seq<char> {
    hex_lower(sha256_digest(json_object_bytes(entry_pairs(files))))
}

/// A snapshot of a workspace: its root hash, how many files it holds, and
/// their manifest.
#[derive(Clone, Debug)]
pub struct Snapshot {
    pub root_hash: String,
    pub file_count: i64,
    pub manifest: Manifest,
}

/// `s` is the snapshot of a workspace whose files are `files`: the files
/// in path order, their count, and their root hash.
pub open spec fn snapshot_of(s: Snapshot, files: Seq<FileEntry>) -> bool {
    &&& strictly_sorted(paths_of(s.manifest.files@))
    &&& same_entries(s.manifest.files@, files)
    &&& s.file_count == files.len()
    &&& s.root_hash@ == root_hash_of(s.manifest.files@)
}

/// The snapshot of a workspace whose files are `files`: the files in path
/// order, their count, and their root hash.
pub fn build_snapshot(files: Vec<FileEntry>) -> (s: Snapshot)
    requires
        distinct_paths(files@),
        files@.len() <= i64::MAX,
    ensures
        snapshot_of(s, files@),
{
    let sorted = sort_by_path(files);
    let mut entries: Vec<(String, String)> = Vec::new();
    for i in 0..sorted.len()
        invariant
            pairs_view(entries@) == entry_pairs(sorted@.take(i as int)),
    {
        let f = &sorted[i];
        let ghost before = entries@;
        let p = f.path.clone();
        let h = f.hash.clone();
        entries.push((p, h));
        assert(entries@ == before.push((p, h)));
        assert(pairs_view(entries@) =~= pairs_view(before).push((p@, h@)));
        assert(sorted@.take(i + 1) =~= sorted@.take(i as int).push(sorted@[i as int]));
        assert(pairs_view(entries@) =~= entry_pairs(sorted@.take(i + 1)));
    }
    assert(sorted@.take(sorted.len() as int) =~= sorted@);
    assert(pairs_view(entries@).map_values(|p: (Seq<char>, Seq<char>)| p.0) =~= paths_of(sorted@));
    let bytes = match json_map_bytes(&entries) {
        Ok(b) => b,
        Err(_) => {
            proof {
                assert(false);
            }
            unreached()
        },
    };
    let root_hash = hash_bytes(bytes.as_slice());
    let file_count = sorted.len() as i64;
    Snapshot { root_hash, file_count, manifest: Manifest { files: sorted } }
}

/// The paths in `present` that the manifest does not hold, in the order given.
pub open spec fn unwanted_paths(wanted: Seq<Seq<char>>, present: Seq<Seq<char>>) -> Seq<Seq<char>>
    decreases present.len(),
{
    if present.len() == 0 {
        Seq::empty()
    } else {
        let r = unwanted_paths(wanted, present.drop_last());
        if wanted.contains(present.last()) {
            r
        } else {
            r.push(present.last())
        }
    }
}

/// Which of the files now in a workspace a restore removes: those whose
/// relative path the manifest does not list.
pub fn paths_to_remove(manifest: &Manifest, present: &Vec<String>) -> (out: Vec<String>)
    ensures
        crate::manifest::strings_view(out@) == unwanted_paths(paths_of(manifest.files@), crate::manifest::strings_view(present@)),
{
    let pm = crate::manifest::path_map_of(manifest);
    let mut out: Vec<String> = Vec::new();
    let ghost wanted = paths_of(manifest.files@);
    proof {
        lemma_manifest_dom(manifest.files@);
    }
    for i in 0..present.len()
        invariant
            pm.wf(),
            pm.to_map() == crate::manifest::manifest_map(manifest.files@),
            wanted == paths_of(manifest.files@),
            forall|p: Seq<char>| pm.to_map().dom().contains(p) <==> wanted.contains(p),
            crate::manifest::strings_view(out@) == unwanted_paths(wanted, crate::manifest::strings_view(present@.take(i as int))),
    {
        let key = chars_of(present[i].as_str());
        let found = pm.find(&key);
        assert(crate::manifest::strings_view(present@.take(i + 1)).drop_last() =~= crate::manifest::strings_view(present@.take(i as int)));
        if found.is_none() {
            out.push(present[i].clone());
            assert(crate::manifest::strings_view(out@) =~= unwanted_paths(wanted, crate::manifest::strings_view(present@.take(i + 1))));
        }
    }
    assert(present@.take(present.len() as int) =~= present@);
    out
}

/// The paths a manifest maps are exactly the paths its entries list.
pub proof fn lemma_manifest_dom(files: Seq<FileEntry>)
    ensures
        forall|p: Seq<char>| crate::manifest::manifest_map(files).dom().contains(p) <==> paths_of(files).contains(p),
    decreases files.len(),
{
    if files.len() > 0 {
        lemma_manifest_dom(files.drop_last());
        let init = files.drop_last();
        assert forall|p: Seq<char>| crate::manifest::manifest_map(files).dom().contains(p) <==> paths_of(files).contains(p) by {
            if paths_of(init).contains(p) {
                let i = choose|i: int| 0 <= i < paths_of(init).len() && paths_of(init)[i] == p;
                assert(paths_of(files)[i] == p);
            }
            if p == files.last().path@ {
                assert(paths_of(files)[files.len() - 1] == p);
            }
            if paths_of(files).contains(p) {
                let i = choose|i: int| 0 <= i < paths_of(files).len() && paths_of(files)[i] == p;
                if i < files.len() - 1 {
                    assert(paths_of(init)[i] == p);
                }
            }
        }
    }
}

}
