//! File manifests of checkpoints and the differences between them.
use vstd::prelude::*;
use crate::order::{lemma_lex_irreflexive, lex_lt, strictly_sorted, chars_eq};
use crate::pathmap::PathMap;
use crate::text::{chars_of, string_of};

verus! {

/// One file of a snapshot: its path relative to the workspace, the hash of
/// its content and its length in bytes.
#[derive(Clone, Debug)]
pub struct FileEntry {
    pub path: String,
    pub hash: String,
    pub len: u64,
}

/// The files of a snapshot.
#[derive(Clone, Debug)]
pub struct Manifest {
    pub files: Vec<FileEntry>,
}

/// Path to hash, as the entries of `files` give it; a later entry for the
/// same path wins, as collecting into a map does.
pub open spec fn manifest_map(files: Seq<FileEntry>) -> Map<Seq<char>, Seq<char>>
    decreases files.len(),
{
    if files.len() == 0 {
        Map::empty()
    } else {
        manifest_map(files.drop_last()).insert(files.last().path@, files.last().hash@)
    }
}

/// The texts held by a sequence of strings.
pub open spec fn strings_view(v: Seq<String>) -> Seq<Seq<char>> {
    v.map_values(|s: String| s@)
}

/// `v` lists the elements of `s` in increasing order, each once.
pub open spec fn lists_exactly(v: Seq<Seq<char>>, s: Set<Seq<char>>) -> bool {
    &&& strictly_sorted(v)
    &&& forall|p: Seq<char>| v.contains(p) <==> s.contains(p)
}

/// Paths of `b` that `a` lacks.
pub open spec fn paths_added(a: Map<Seq<char>, Seq<char>>, b: Map<Seq<char>, Seq<char>>) -> Set<Seq<char>> {
    Set::new(|p: Seq<char>| b.dom().contains(p) && !a.dom().contains(p))
}

/// Paths of both whose hashes differ.
pub open spec fn paths_modified(a: Map<Seq<char>, Seq<char>>, b: Map<Seq<char>, Seq<char>>) -> Set<Seq<char>> {
    Set::new(|p: Seq<char>| a.dom().contains(p) && b.dom().contains(p) && a[p] != b[p])
}

/// The map of a manifest, with its paths in order.
pub fn path_map_of(m: &Manifest) -> (pm: PathMap)
    ensures
        pm.wf(),
        pm.to_map() == manifest_map(m.files@),
{
    let mut pm = PathMap::new();
    for i in 0..m.files.len()
        invariant
            pm.wf(),
            pm.to_map() == manifest_map(m.files@.take(i as int)),
    {
        let f = &m.files[i];
        let k = chars_of(f.path.as_str());
        let v = chars_of(f.hash.as_str());
        pm.insert(k, v);
        assert(m.files@.take(i + 1).drop_last() =~= m.files@.take(i as int));
    }
    assert(m.files@.take(m.files.len() as int) =~= m.files@);
    pm
}

/// The keys of `src`, in order, that `other` lacks (`missing`), or that
/// `other` holds with another value (`!missing`).
fn select_keys(src: &PathMap, other: &PathMap, missing: bool) -> (out: Vec<String>)
    requires
        src.wf(),
        other.wf(),
    ensures
        lists_exactly(
            strings_view(out@),
            if missing {
                paths_added(other.to_map(), src.to_map())
            } else {
                paths_modified(src.to_map(), other.to_map())
            },
        ),
{
    let ghost target = if missing {
        paths_added(other.to_map(), src.to_map())
    } else {
        paths_modified(src.to_map(), other.to_map())
    };
    let mut out: Vec<String> = Vec::new();
    let n = src.len();
    let mut i: usize = 0;
    while i < n
        invariant
            0 <= i <= n,
            src.wf(),
            other.wf(),
            n == src.keys@.len(),
            target == (if missing {
                paths_added(other.to_map(), src.to_map())
            } else {
                paths_modified(src.to_map(), other.to_map())
            }),
            strictly_sorted(strings_view(out@)),
            forall|x: int| #![trigger strings_view(out@)[x]] 0 <= x < out@.len() ==> exists|j: int| 0 <= j < i && #[trigger] src.key_seq()[j] == strings_view(out@)[x],
            forall|j: int| 0 <= j < i ==> (strings_view(out@).contains(#[trigger] src.key_seq()[j]) <==> target.contains(src.key_seq()[j])),
            forall|p: Seq<char>| strings_view(out@).contains(p) ==> target.contains(p),
        decreases n - i,
    {
        let key = &src.keys[i];
        let ghost k = src.key_seq()[i as int];
        proof {
            src.lemma_lookup(i as int);
        }
        let found = other.find(key);
        let wanted = match found {
            None => missing,
            Some(j) => {
                proof {
                    other.lemma_lookup(j as int);
                }
                !missing && !chars_eq(&src.vals[i], &other.vals[j])
            },
        };
        let ghost before = strings_view(out@);
        if wanted {
            out.push(string_of(key));
            proof {
                assert(strings_view(out@) =~= before.push(k));
                assert forall|x: int, y: int| 0 <= x < y < strings_view(out@).len() implies lex_lt(
                    #[trigger] strings_view(out@)[x],
                    #[trigger] strings_view(out@)[y],
                ) by {
                    if y == before.len() {
                        let j = choose|j: int| 0 <= j < i && #[trigger] src.key_seq()[j] == before[x];
                        assert(lex_lt(src.key_seq()[j], src.key_seq()[i as int]));
                    }
                }
            }
        }
        proof {
            assert(wanted == target.contains(k));
            assert forall|x: int| #![trigger strings_view(out@)[x]] 0 <= x < out@.len() implies exists|j: int| 0 <= j < i + 1 && #[trigger] src.key_seq()[j] == strings_view(out@)[x] by {
                if x < before.len() {
                    let j = choose|j: int| 0 <= j < i && #[trigger] src.key_seq()[j] == before[x];
                    assert(src.key_seq()[j] == strings_view(out@)[x]);
                } else {
                    assert(src.key_seq()[i as int] == strings_view(out@)[x]);
                }
            }
            assert forall|j: int| 0 <= j < i + 1 implies (strings_view(out@).contains(#[trigger] src.key_seq()[j]) <==> target.contains(src.key_seq()[j])) by {
                let kj = src.key_seq()[j];
                if j < i {
                    assert(lex_lt(kj, k));
                    lemma_lex_irreflexive(k);
                    if wanted {
                        if strings_view(out@).contains(kj) {
                            let x = choose|x: int| 0 <= x < strings_view(out@).len() && strings_view(out@)[x] == kj;
                            if x == before.len() {
                            } else {
                                assert(before.contains(kj));
                            }
                        }
                        if before.contains(kj) {
                            let x = choose|x: int| 0 <= x < before.len() && before[x] == kj;
                            assert(strings_view(out@)[x] == kj);
                        }
                    }
                } else {
                    if wanted {
                        assert(strings_view(out@)[before.len() as int] == k);
                    } else {
                        if before.contains(k) {
                            let x = choose|x: int| 0 <= x < before.len() && before[x] == k;
                            let j2 = choose|j2: int| 0 <= j2 < i && #[trigger] src.key_seq()[j2] == before[x];
                            assert(lex_lt(src.key_seq()[j2], k));
                            lemma_lex_irreflexive(k);
                        }
                    }
                }
            }
            assert forall|p: Seq<char>| strings_view(out@).contains(p) implies target.contains(p) by {
                if wanted && p == k {
                } else if strings_view(out@).contains(p) {
                    let x = choose|x: int| 0 <= x < strings_view(out@).len() && strings_view(out@)[x] == p;
                    if x < before.len() {
                        assert(before.contains(p));
                    }
                }
            }
        }
        i = i + 1;
    }
    proof {
        assert forall|p: Seq<char>| target.contains(p) implies strings_view(out@).contains(p) by {
            let m = src.to_map();
            assert(m.dom().contains(p));
            let j = choose|j: int| 0 <= j < src.key_seq().len() && src.key_seq()[j] == p;
        }
    }
    out
}

/// What changed from manifest `from` to manifest `to`, path by path.
#[derive(Clone, Debug)]
pub struct DiffView {
    pub from: u128,
    pub to: u128,
    pub added: Vec<String>,
    pub modified: Vec<String>,
    pub removed: Vec<String>,
}

/// The changes from manifest `a` (checkpoint `from`) to manifest `b`
/// (checkpoint `to`): the paths only `b` has, the paths both have with
/// different hashes, and the paths only `a` has, each list in path order.
pub fn diff_manifests(from: u128, to: u128, a: &Manifest, b: &Manifest) -> (d: DiffView)
    ensures
        d.from == from,
        d.to == to,
        lists_exactly(strings_view(d.added@), paths_added(manifest_map(a.files@), manifest_map(b.files@))),
        lists_exactly(strings_view(d.modified@), paths_modified(manifest_map(a.files@), manifest_map(b.files@))),
        lists_exactly(strings_view(d.removed@), paths_added(manifest_map(b.files@), manifest_map(a.files@))),
{
    let ma = path_map_of(a);
    let mb = path_map_of(b);
    let added = select_keys(&mb, &ma, true);
    let modified = select_keys(&ma, &mb, false);
    let removed = select_keys(&ma, &mb, true);
    DiffView { from, to, added, modified, removed }
}

}
