//! Properties that hold across calls of the library.
use vstd::prelude::*;
use crate::manifest::{lists_exactly, manifest_map, paths_added, paths_modified, FileEntry};
use crate::order::{lemma_lex_asymmetric, lemma_lex_irreflexive, lex_lt, strictly_sorted};
use crate::snapshot::{paths_of, same_entries};
use crate::webdiff::{changed_paths, rows_map};

verus! {

/// Comparing a manifest with itself finds no added, modified or removed file.
pub proof fn law_diff_with_itself_is_empty(files: Seq<FileEntry>)
    ensures
        paths_added(manifest_map(files), manifest_map(files)) == Set::<Seq<char>>::empty(),
        paths_modified(manifest_map(files), manifest_map(files)) == Set::<Seq<char>>::empty(),
        forall|v: Seq<Seq<char>>| lists_exactly(v, paths_added(manifest_map(files), manifest_map(files))) ==> v.len() == 0,
        forall|v: Seq<Seq<char>>| lists_exactly(v, paths_modified(manifest_map(files), manifest_map(files))) ==> v.len() == 0,
{
    let m = manifest_map(files);
    assert(paths_added(m, m) =~= Set::<Seq<char>>::empty());
    assert(paths_modified(m, m) =~= Set::<Seq<char>>::empty());
    assert forall|v: Seq<Seq<char>>| lists_exactly(v, paths_added(m, m)) implies v.len() == 0 by {
        if v.len() > 0 {
            assert(v.contains(v[0]));
        }
    }
    assert forall|v: Seq<Seq<char>>| lists_exactly(v, paths_modified(m, m)) implies v.len() == 0 by {
        if v.len() > 0 {
            assert(v.contains(v[0]));
        }
    }
}

/// Swapping the two manifests swaps the added and removed lists and keeps
/// the modified list: what `diff_manifests(a, b)` reports as removed,
/// `diff_manifests(b, a)` reports as added, in the same order, and both
/// report the same modified list.
pub proof fn law_diff_swap(
    a: Seq<FileEntry>,
    b: Seq<FileEntry>,
    removed_ab: Seq<Seq<char>>,
    added_ba: Seq<Seq<char>>,
    modified_ab: Seq<Seq<char>>,
    modified_ba: Seq<Seq<char>>,
)
    requires
        lists_exactly(removed_ab, paths_added(manifest_map(b), manifest_map(a))),
        lists_exactly(added_ba, paths_added(manifest_map(b), manifest_map(a))),
        lists_exactly(modified_ab, paths_modified(manifest_map(a), manifest_map(b))),
        lists_exactly(modified_ba, paths_modified(manifest_map(b), manifest_map(a))),
    ensures
        removed_ab == added_ba,
        modified_ab == modified_ba,
{
    crate::order::lemma_sorted_unique(removed_ab, added_ba);
    assert(paths_modified(manifest_map(a), manifest_map(b)) =~= paths_modified(manifest_map(b), manifest_map(a)));
    crate::order::lemma_sorted_unique(modified_ab, modified_ba);
}

/// No path is reported in two of the added, modified and removed lists.
pub proof fn law_diff_lists_disjoint(a: Seq<FileEntry>, b: Seq<FileEntry>)
    ensures
        paths_added(manifest_map(a), manifest_map(b)).disjoint(paths_added(manifest_map(b), manifest_map(a))),
        paths_added(manifest_map(a), manifest_map(b)).disjoint(paths_modified(manifest_map(a), manifest_map(b))),
        paths_modified(manifest_map(a), manifest_map(b)).disjoint(paths_added(manifest_map(b), manifest_map(a))),
{
}

/// A diff reports no change exactly when the two manifests map the same
/// paths to the same hashes.
pub proof fn law_no_change_iff_same_files(a: Seq<FileEntry>, b: Seq<FileEntry>)
    ensures
        (paths_added(manifest_map(a), manifest_map(b)).is_empty() && paths_modified(manifest_map(a), manifest_map(b)).is_empty()
            && paths_added(manifest_map(b), manifest_map(a)).is_empty()) <==> manifest_map(a) == manifest_map(b),
{
    let ma = manifest_map(a);
    let mb = manifest_map(b);
    if paths_added(ma, mb).is_empty() && paths_modified(ma, mb).is_empty() && paths_added(mb, ma).is_empty() {
        assert forall|p: Seq<char>| ma.dom().contains(p) <==> mb.dom().contains(p) by {
            if mb.dom().contains(p) && !ma.dom().contains(p) {
                assert(paths_added(ma, mb).contains(p));
            }
            if ma.dom().contains(p) && !mb.dom().contains(p) {
                assert(paths_added(mb, ma).contains(p));
            }
        }
        assert forall|p: Seq<char>| ma.dom().contains(p) implies ma[p] == mb[p] by {
            if ma[p] != mb[p] {
                assert(paths_modified(ma, mb).contains(p));
            }
        }
        assert(ma =~= mb);
    }
    if ma == mb {
        law_diff_with_itself_is_empty(a);
        assert(paths_added(ma, mb).is_empty());
        assert(paths_modified(ma, mb).is_empty());
    }
}

/// Comparing rows with themselves shows no changed file in the web view.
pub proof fn law_web_diff_with_itself_is_empty(rows: Seq<(String, String)>)
    ensures
        changed_paths(rows_map(rows), rows_map(rows)) == Set::<Seq<char>>::empty(),
{
    assert(changed_paths(rows_map(rows), rows_map(rows)) =~= Set::<Seq<char>>::empty());
}

/// Two sequences of entries with strictly increasing paths and the same
/// entries are the same sequence.
proof fn lemma_sorted_entries_unique(x: Seq<FileEntry>, y: Seq<FileEntry>)
    requires
        strictly_sorted(paths_of(x)),
        strictly_sorted(paths_of(y)),
        forall|e: FileEntry| x.contains(e) <==> y.contains(e),
    ensures
        x == y,
    decreases x.len(),
{
    if x.len() == 0 {
        if y.len() > 0 {
            assert(y.contains(y[0]));
        }
        assert(x =~= y);
    } else if y.len() == 0 {
        assert(x.contains(x[0]));
    } else {
        assert(x.contains(x[0]));
        assert(y.contains(y[0]));
        let jy = choose|j: int| 0 <= j < y.len() && y[j] == x[0];
        let ix = choose|i: int| 0 <= i < x.len() && x[i] == y[0];
        if jy > 0 {
            assert(lex_lt(paths_of(y)[0], paths_of(y)[jy]));
            if ix > 0 {
                assert(lex_lt(paths_of(x)[0], paths_of(x)[ix]));
                lemma_lex_asymmetric(x[0].path@, y[0].path@);
            } else {
                lemma_lex_irreflexive(x[0].path@);
            }
        }
        assert(x[0] == y[0]);
        let x1 = x.drop_first();
        let y1 = y.drop_first();
        assert(paths_of(x1) =~= paths_of(x).drop_first());
        assert(paths_of(y1) =~= paths_of(y).drop_first());
        assert forall|e: FileEntry| x1.contains(e) <==> y1.contains(e) by {
            if x1.contains(e) {
                let i = choose|i: int| 0 <= i < x1.len() && x1[i] == e;
                assert(x.contains(e));
                let j = choose|j: int| 0 <= j < y.len() && y[j] == e;
                assert(lex_lt(paths_of(x)[0], paths_of(x)[i + 1]));
                if j == 0 {
                    lemma_lex_irreflexive(e.path@);
                }
                assert(y1[j - 1] == e);
            }
            if y1.contains(e) {
                let j = choose|j: int| 0 <= j < y1.len() && y1[j] == e;
                assert(y.contains(e));
                let i = choose|i: int| 0 <= i < x.len() && x[i] == e;
                assert(lex_lt(paths_of(y)[0], paths_of(y)[j + 1]));
                if i == 0 {
                    lemma_lex_irreflexive(e.path@);
                }
                assert(x1[i - 1] == e);
            }
        }
        lemma_sorted_entries_unique(x1, y1);
        assert(x =~= seq![x[0]] + x1);
        assert(y =~= seq![y[0]] + y1);
    }
}

/// A snapshot does not depend on the order in which the files were found:
/// two snapshots of the same entries have the same manifest, and so the
/// same root hash.
pub proof fn law_snapshot_order_independent(
    files1: Seq<FileEntry>,
    files2: Seq<FileEntry>,
    out1: Seq<FileEntry>,
    out2: Seq<FileEntry>,
)
    requires
        forall|e: FileEntry| files1.contains(e) <==> files2.contains(e),
        strictly_sorted(paths_of(out1)),
        same_entries(out1, files1),
        strictly_sorted(paths_of(out2)),
        same_entries(out2, files2),
    ensures
        out1 == out2,
        crate::snapshot::root_hash_of(out1) == crate::snapshot::root_hash_of(out2),
{
    lemma_sorted_entries_unique(out1, out2);
}

}

verus! {

/// A title made from a prompt is never empty.
pub proof fn law_prompt_title_not_empty(p: Seq<char>)
    ensures
        crate::titles::prompt_title_spec(p).len() > 0,
{
    let t = crate::titles::one_line_spec(p);
    if t.len() > 0 {
        let n = crate::titles::PROMPT_TITLE_MAX as int;
        if crate::text::bytes_len(t) > n {
            assert(crate::text::shorten(t, n).len() >= 3);
        }
    }
}

/// A restore removes exactly the files present in the workspace that the
/// manifest does not list.
pub proof fn law_restore_removes_exactly_unlisted(wanted: Seq<Seq<char>>, present: Seq<Seq<char>>)
    ensures
        forall|x: Seq<char>| crate::snapshot::unwanted_paths(wanted, present).contains(x) <==> (present.contains(x)
            && !wanted.contains(x)),
    decreases present.len(),
{
    if present.len() > 0 {
        let init = present.drop_last();
        law_restore_removes_exactly_unlisted(wanted, init);
        assert(present =~= init.push(present.last()));
        assert forall|x: Seq<char>| crate::snapshot::unwanted_paths(wanted, present).contains(x) <==> (present.contains(x)
            && !wanted.contains(x)) by {
            crate::text::lemma_contains_push(init, present.last(), x);
            crate::text::lemma_contains_push(crate::snapshot::unwanted_paths(wanted, init), present.last(), x);
        }
    } else {
        assert forall|x: Seq<char>| crate::snapshot::unwanted_paths(wanted, present).contains(x) <==> (present.contains(x)
            && !wanted.contains(x)) by {
            assert(crate::snapshot::unwanted_paths(wanted, present) =~= Seq::<Seq<char>>::empty());
        }
    }
}

}

verus! {

/// Splitting at line feeds: text without a line feed extends the last piece.
proof fn lemma_nl_pieces_extend(x: Seq<char>, w: Seq<char>)
    requires
        forall|i: int| 0 <= i < w.len() ==> w[i] != '\n',
    ensures
        crate::text::nl_pieces(x + w) == crate::text::nl_pieces(x).drop_last().push(crate::text::nl_pieces(x).last() + w),
    decreases w.len(),
{
    crate::text::lemma_nl_pieces_nonempty(x);
    let p = crate::text::nl_pieces(x);
    if w.len() == 0 {
        assert(x + w =~= x);
        assert(p.last() + w =~= p.last());
        assert(p.drop_last().push(p.last()) =~= p);
    } else {
        let w0 = w.drop_last();
        lemma_nl_pieces_extend(x, w0);
        assert((x + w).drop_last() =~= x + w0);
        assert((x + w).last() == w.last());
        crate::text::lemma_nl_pieces_nonempty(x + w0);
        let r = crate::text::nl_pieces(x + w0);
        assert(r.drop_last() =~= p.drop_last());
        assert(r.last().push(w.last()) =~= p.last() + w);
        assert(r.drop_last().push(r.last().push(w.last())) =~= p.drop_last().push(p.last() + w));
    }
}

/// Ensuring that `.gitignore` lists the store directory a second time
/// changes nothing: the content written the first time already lists it.
pub proof fn law_gitignore_once(existing: Seq<char>)
    ensures
        crate::workspace::gitignore_update_spec(existing) matches Some(u) ==> crate::workspace::gitignore_update_spec(u)
            is None,
{
    if let Some(u) = crate::workspace::gitignore_update_spec(existing) {
        reveal_strlit("\n# Lupe\n");
        reveal_strlit(".lupe/");
        let sep = if existing.len() > 0 && existing.last() != '\n' {
            seq!['\n']
        } else {
            Seq::<char>::empty()
        };
        let x = existing + sep + "\n# Lupe\n"@;
        let w = ".lupe/"@;
        assert(u =~= (x + w) + seq!['\n']);
        assert(x.last() == '\n');
        // the pieces of x end with an empty one
        crate::text::lemma_nl_pieces_nonempty(x.drop_last());
        assert(x.drop_last() + seq!['\n'] =~= x);
        assert(crate::text::nl_pieces(x).last().len() == 0);
        lemma_nl_pieces_extend(x, w);
        assert((x + w + seq!['\n']).drop_last() =~= x + w);
        let px = crate::text::nl_pieces(x);
        let pu = crate::text::nl_pieces(u);
        assert(px.last() + w =~= w);
        assert(pu == crate::text::nl_pieces(x + w).push(Seq::<char>::empty()));
        let ls = crate::text::lines_of(u);
        let k = px.drop_last().len() as int;
        assert(pu.drop_last() =~= px.drop_last().push(w));
        assert(ls =~= pu.drop_last().map_values(|l: Seq<char>| crate::text::strip_cr(l)));
        assert(ls[k] == crate::text::strip_cr(w));
        assert(crate::text::strip_cr(w) == w);
        assert(crate::text::trim_start(w) == w);
        assert(crate::text::trim_end(w) == w);
        assert(crate::text::trim(ls[k]) == ".lupe/"@);
        assert(crate::workspace::has_line(u, ".lupe/"@));
    }
}

/// The tick watcher announces a checkpoint once: reading the same tick
/// file again right after announcing it announces nothing.
pub proof fn law_tick_announced_once(last: Seq<char>, content: Seq<char>)
    ensures
        crate::serve::tick_news(last, Some(content)) matches Some(t) ==> crate::serve::tick_news(t, Some(content)) is None,
{
}

/// Each checkpoint of a branch chain after the first is a child of the one
/// before it, on the branch of the entry.
pub proof fn law_chain_links(all: Seq<crate::graph::GraphNode>, entry: int, fuel: nat)
    requires
        0 <= entry < all.len(),
    ensures
        ({
            let w = crate::graph::walk(all, entry, all[entry].branch@, fuel);
            &&& w.len() >= 1
            &&& w[0] == entry
            &&& forall|j: int| 0 <= j < w.len() ==> 0 <= #[trigger] w[j] < all.len()
            &&& forall|j: int| 1 <= j < w.len() ==> crate::graph::is_child_on(
                all[#[trigger] w[j]],
                all[w[j - 1]].id,
                all[entry].branch@,
            )
        }),
{
    lemma_walk_links(all, entry, all[entry].branch@, fuel);
}

proof fn lemma_walk_links(all: Seq<crate::graph::GraphNode>, idx: int, b: Seq<char>, fuel: nat)
    requires
        0 <= idx < all.len(),
    ensures
        ({
            let w = crate::graph::walk(all, idx, b, fuel);
            &&& w.len() >= 1
            &&& w[0] == idx
            &&& forall|j: int| 0 <= j < w.len() ==> 0 <= #[trigger] w[j] < all.len()
            &&& forall|j: int| 1 <= j < w.len() ==> crate::graph::is_child_on(all[#[trigger] w[j]], all[w[j - 1]].id, b)
        }),
    decreases fuel,
{
    let w = crate::graph::walk(all, idx, b, fuel);
    crate::graph::lemma_first_child_in_range(all, all[idx].id, b, 0);
    match crate::graph::first_child_from(all, all[idx].id, b, 0) {
        None => {},
        Some(n) => {
            if fuel > 0 {
                lemma_walk_links(all, n, b, (fuel - 1) as nat);
                let rest = crate::graph::walk(all, n, b, (fuel - 1) as nat);
                assert(w == seq![idx] + rest);
                assert forall|j: int| 1 <= j < w.len() implies crate::graph::is_child_on(all[#[trigger] w[j]], all[w[j - 1]].id, b) by {
                    assert(w[j] == rest[j - 1]);
                    if j >= 2 {
                        assert(w[j - 1] == rest[j - 2]);
                    }
                }
                assert forall|j: int| 0 <= j < w.len() implies 0 <= #[trigger] w[j] < all.len() by {
                    if j >= 1 {
                        assert(w[j] == rest[j - 1]);
                    }
                }
            }
        },
    }
}

}

verus! {

/// `t` has whitespace only as single spaces between non-space characters,
/// possibly with one space at its end.
pub open spec fn spaced_words(t: Seq<char>) -> bool {
    &&& forall|i: int| 0 <= i < t.len() && crate::text::unicode_whitespace(#[trigger] t[i]) ==> t[i] == ' '
    &&& t.len() > 0 ==> t[0] != ' '
    &&& forall|i: int| 0 <= i < t.len() - 1 && #[trigger] t[i] == ' ' ==> t[i + 1] != ' '
}

/// Collapsing whitespace gives words joined by single spaces, with no space
/// at the end.
proof fn lemma_collapse_ws_spaced(s: Seq<char>)
    ensures
        spaced_words(crate::text::collapse_ws(s)),
        crate::text::collapse_ws(s).len() > 0 ==> crate::text::collapse_ws(s).last() != ' ',
    decreases s.len(),
{
    if s.len() > 0 {
        lemma_collapse_ws_spaced(s.drop_last());
        let r = crate::text::collapse_ws(s.drop_last());
        let c = s.last();
        let out = crate::text::collapse_ws(s);
        if !crate::text::unicode_whitespace(c) {
            if s.len() >= 2 && crate::text::unicode_whitespace(s[s.len() - 2]) && r.len() > 0 {
                assert(out == r.push(' ').push(c));
                assert forall|i: int| 0 <= i < out.len() - 1 && #[trigger] out[i] == ' ' implies out[i + 1] != ' ' by {
                    if i < r.len() - 1 {
                        assert(out[i] == r[i]);
                        assert(out[i + 1] == r[i + 1]);
                    }
                }
                assert forall|i: int| 0 <= i < out.len() && crate::text::unicode_whitespace(#[trigger] out[i]) implies out[i] == ' ' by {
                    if i < r.len() {
                        assert(out[i] == r[i]);
                    }
                }
            } else {
                assert(out == r.push(c));
                assert forall|i: int| 0 <= i < out.len() - 1 && #[trigger] out[i] == ' ' implies out[i + 1] != ' ' by {
                    if i < r.len() - 1 {
                        assert(out[i] == r[i]);
                        assert(out[i + 1] == r[i + 1]);
                    }
                }
                assert forall|i: int| 0 <= i < out.len() && crate::text::unicode_whitespace(#[trigger] out[i]) implies out[i] == ' ' by {
                    if i < r.len() {
                        assert(out[i] == r[i]);
                    }
                }
            }
        }
    }
}

/// Words already joined by single spaces collapse to themselves, less a
/// space at the end.
proof fn lemma_collapse_ws_spaced_fixed(t: Seq<char>)
    requires
        spaced_words(t),
    ensures
        crate::text::collapse_ws(t) == if t.len() > 0 && t.last() == ' ' { t.drop_last() } else { t },
    decreases t.len(),
{
    if t.len() > 0 {
        let t0 = t.drop_last();
        assert(spaced_words(t0)) by {
            assert forall|i: int| 0 <= i < t0.len() - 1 && #[trigger] t0[i] == ' ' implies t0[i + 1] != ' ' by {
                assert(t[i] == ' ');
            }
            assert forall|i: int| 0 <= i < t0.len() && crate::text::unicode_whitespace(#[trigger] t0[i]) implies t0[i] == ' ' by {
                assert(t[i] == t0[i]);
            }
        }
        lemma_collapse_ws_spaced_fixed(t0);
        let c = t.last();
        assert(crate::text::unicode_whitespace(' '));
        if c == ' ' {
            if t0.len() > 0 {
                assert(t[t.len() - 2] == t0.last());
                assert(t0.last() != ' ');
            }
        } else {
            assert(!crate::text::unicode_whitespace(c));
            if t.len() >= 2 && crate::text::unicode_whitespace(t[t.len() - 2]) {
                assert(t0.last() == ' ');
                assert(t0.len() >= 2);
                assert(t0.drop_last().len() > 0);
                assert(t0.drop_last().push(' ').push(c) =~= t);
            } else {
                assert(t0.push(c) =~= t);
            }
        }
    }
}

/// Collapsing whitespace twice is collapsing it once.
pub proof fn law_collapse_ws_idempotent(s: Seq<char>)
    ensures
        crate::text::collapse_ws(crate::text::collapse_ws(s)) == crate::text::collapse_ws(s),
{
    lemma_collapse_ws_spaced(s);
    lemma_collapse_ws_spaced_fixed(crate::text::collapse_ws(s));
}

/// A text that fits on one line without being cut stays as it is when made
/// one line again.
pub proof fn law_one_line_idempotent(v: Seq<char>)
    requires
        crate::text::bytes_len(crate::text::collapse_ws(v)) <= crate::titles::ONE_LINE_MAX,
    ensures
        crate::titles::one_line_spec(crate::titles::one_line_spec(v)) == crate::titles::one_line_spec(v),
{
    law_collapse_ws_idempotent(v);
}

}

verus! {

/// What `one_line` gives holds no whitespace but single spaces: in
/// particular no line break.
pub proof fn law_one_line_is_one_line(v: Seq<char>)
    requires
        crate::titles::one_line_defined(v),
    ensures
        forall|i: int|
            0 <= i < crate::titles::one_line_spec(v).len() && crate::text::unicode_whitespace(
                #[trigger] crate::titles::one_line_spec(v)[i],
            ) ==> crate::titles::one_line_spec(v)[i] == ' ',
{
    let s = crate::text::collapse_ws(v);
    lemma_collapse_ws_spaced(v);
    let out = crate::titles::one_line_spec(v);
    if crate::text::bytes_len(s) > crate::titles::ONE_LINE_MAX {
        let k = choose|k: int| 0 <= k <= s.len() && #[trigger] crate::text::bytes_len(s.take(k)) == crate::titles::ONE_LINE_MAX;
        let t = s.take(k);
        assert(out == t + crate::text::ellipsis());
        assert forall|i: int| 0 <= i < out.len() && crate::text::unicode_whitespace(#[trigger] out[i]) implies out[i] == ' ' by {
            if i < t.len() {
                assert(out[i] == s[i]);
            } else {
                assert(out[i] == '.');
            }
        }
    }
}

}

verus! {

/// The store found from the working directory is the nearest ancestor
/// holding one, and the search never passes the home directory: no
/// ancestor up to the chosen one is the home directory, and none before it
/// holds a store.
pub proof fn law_store_not_beyond_home(is_home: Seq<bool>, has_store: Seq<bool>)
    requires
        is_home.len() == has_store.len(),
    ensures
        crate::workspace::home_choice(is_home, has_store) matches Some(i) ==> {
            &&& 0 <= i < has_store.len()
            &&& has_store[i]
            &&& forall|j: int| 0 <= j <= i ==> !#[trigger] is_home[j]
            &&& forall|j: int| 0 <= j < i ==> !#[trigger] has_store[j]
        },
        crate::workspace::home_choice(is_home, has_store) is None ==> forall|i: int|
            0 <= i < has_store.len() && #[trigger] has_store[i] ==> exists|j: int| 0 <= j <= i && #[trigger] is_home[j],
    decreases is_home.len(),
{
    if is_home.len() > 0 && !is_home[0] && !has_store[0] {
        let ih = is_home.drop_first();
        let hs = has_store.drop_first();
        law_store_not_beyond_home(ih, hs);
        match crate::workspace::home_choice(ih, hs) {
            Some(k) => {
                assert forall|j: int| 0 <= j <= k + 1 implies !#[trigger] is_home[j] by {
                    if j > 0 {
                        assert(is_home[j] == ih[j - 1]);
                    }
                }
                assert forall|j: int| 0 <= j < k + 1 implies !#[trigger] has_store[j] by {
                    if j > 0 {
                        assert(has_store[j] == hs[j - 1]);
                    }
                }
            },
            None => {
                assert forall|i: int| 0 <= i < has_store.len() && #[trigger] has_store[i] implies exists|j: int|
                    0 <= j <= i && #[trigger] is_home[j] by {
                    assert(i > 0);
                    assert(hs[i - 1]);
                    let j = choose|j: int| 0 <= j <= i - 1 && #[trigger] ih[j];
                    assert(is_home[j + 1]);
                }
            },
        }
    } else if is_home.len() > 0 && is_home[0] {
        assert forall|i: int| 0 <= i < has_store.len() && #[trigger] has_store[i] implies exists|j: int|
            0 <= j <= i && #[trigger] is_home[j] by {
            assert(is_home[0]);
        }
    }
}

}

verus! {

/// Shortening a text to `n` bytes leaves at most `n` bytes and the three
/// dots of the ellipsis.
proof fn lemma_shorten_len(s: Seq<char>, n: int)
    requires
        crate::text::can_shorten(s, n),
        n >= 0,
    ensures
        crate::text::bytes_len(crate::text::shorten(s, n)) <= n + 3,
{
    if crate::text::bytes_len(s) > n {
        let k = choose|k: int| 0 <= k <= s.len() && #[trigger] crate::text::bytes_len(s.take(k)) == n;
        lemma_ellipsis_len();
        crate::text::lemma_bytes_len_concat(s.take(k), crate::text::ellipsis());
    }
}

proof fn lemma_ellipsis_len()
    ensures
        crate::text::bytes_len(crate::text::ellipsis()) == 3,
{
    reveal_with_fuel(crate::text::bytes_len, 4);
    assert(crate::text::ellipsis().drop_first() =~= seq!['.', '.']);
    assert(seq!['.', '.'].drop_first() =~= seq!['.']);
    assert(seq!['.'].drop_first() =~= Seq::<char>::empty());
}

/// What `one_line` gives is at most 143 bytes: 140 and an ellipsis.
pub proof fn law_one_line_short(v: Seq<char>)
    requires
        crate::titles::one_line_defined(v),
    ensures
        crate::text::bytes_len(crate::titles::one_line_spec(v)) <= crate::titles::ONE_LINE_MAX + 3,
{
    lemma_shorten_len(crate::text::collapse_ws(v), crate::titles::ONE_LINE_MAX as int);
}

/// A title made from a prompt is at most 63 bytes: 60 and an ellipsis.
pub proof fn law_prompt_title_short(p: Seq<char>)
    requires
        crate::titles::prompt_title_defined(p),
    ensures
        crate::text::bytes_len(crate::titles::prompt_title_spec(p)) <= crate::titles::PROMPT_TITLE_MAX + 3,
{
    let t = crate::titles::one_line_spec(p);
    if t.len() == 0 {
        reveal_with_fuel(crate::text::bytes_len, 7);
        let w = seq!['p', 'r', 'o', 'm', 'p', 't'];
        assert(w.drop_first() =~= seq!['r', 'o', 'm', 'p', 't']);
        assert(seq!['r', 'o', 'm', 'p', 't'].drop_first() =~= seq!['o', 'm', 'p', 't']);
        assert(seq!['o', 'm', 'p', 't'].drop_first() =~= seq!['m', 'p', 't']);
        assert(seq!['m', 'p', 't'].drop_first() =~= seq!['p', 't']);
        assert(seq!['p', 't'].drop_first() =~= seq!['t']);
        assert(seq!['t'].drop_first() =~= Seq::<char>::empty());
    } else {
        lemma_shorten_len(t, crate::titles::PROMPT_TITLE_MAX as int);
    }
}

/// A title taken from a response is at most 83 bytes: 80 and an ellipsis.
pub proof fn law_response_title_short(r: Seq<char>)
    requires
        crate::titles::response_title_defined(r),
    ensures
        crate::titles::response_title_spec(r) matches Some(t) ==> crate::text::bytes_len(t)
            <= crate::titles::RESPONSE_TITLE_MAX + 3,
{
    if let Some(c) = crate::titles::first_candidate(crate::text::lines_of(r)) {
        if crate::text::bytes_len(c) > crate::titles::RESPONSE_TITLE_MAX {
            let k = choose|k: int| 0 <= k <= c.len() && #[trigger] crate::text::bytes_len(c.take(k))
                == crate::titles::RESPONSE_TITLE_MAX;
            let t = c.take(k);
            lemma_ellipsis_len();
            match crate::text::last_space(t) {
                Some(p) => {
                    lemma_last_space_in_range(t);
                    assert(t.take(p) =~= c.take(p));
                    crate::text::lemma_bytes_len_take_mono(c, p, k);
                    crate::text::lemma_bytes_len_concat(t.take(p), crate::text::ellipsis());
                },
                None => {
                    crate::text::lemma_bytes_len_concat(t, crate::text::ellipsis());
                },
            }
        }
    }
}

proof fn lemma_last_space_in_range(s: Seq<char>)
    ensures
        crate::text::last_space(s) matches Some(p) ==> 0 <= p < s.len(),
    decreases s.len(),
{
    if s.len() > 0 && s.last() != ' ' {
        lemma_last_space_in_range(s.drop_last());
    }
}

}

verus! {

/// Every text matches itself as a pattern.
proof fn lemma_glob_self(x: Seq<char>)
    ensures
        crate::workspace::glob_match(x, x),
    decreases x.len(),
{
    if x.len() > 0 {
        lemma_glob_self(x.drop_first());
        if x[0] == '*' {
            // the star takes the text's own star, then the rest matches itself
            lemma_glob_star_then(x.drop_first());
            assert(x =~= seq!['*'] + x.drop_first());
        }
    }
}

/// A star followed by `x` matches `x` itself.
proof fn lemma_glob_star_then(x: Seq<char>)
    requires
        crate::workspace::glob_match(x, x),
    ensures
        crate::workspace::glob_match(seq!['*'] + x, x),
{
    assert((seq!['*'] + x).drop_first() =~= x);
}

/// A pattern of a star followed by `x` matches every text that ends in `x`:
/// `*.map` names every source map, whatever comes before the suffix.
pub proof fn law_star_matches_suffix(x: Seq<char>, y: Seq<char>)
    ensures
        crate::workspace::glob_match(seq!['*'] + x, y + x),
    decreases y.len(),
{
    let p = seq!['*'] + x;
    assert(p.drop_first() =~= x);
    if y.len() == 0 {
        assert(y + x =~= x);
        lemma_glob_self(x);
    } else {
        law_star_matches_suffix(x, y.drop_first());
        assert((y + x).drop_first() =~= y.drop_first() + x);
    }
}

}

verus! {

/// Two snapshots of the same files, found in any order, are equal: the same
/// manifest, the same file count and the same root hash.
pub proof fn law_snapshots_of_same_files_agree(
    files1: Seq<FileEntry>,
    files2: Seq<FileEntry>,
    s1: crate::snapshot::Snapshot,
    s2: crate::snapshot::Snapshot,
)
    requires
        forall|e: FileEntry| files1.contains(e) <==> files2.contains(e),
        crate::snapshot::snapshot_of(s1, files1),
        crate::snapshot::snapshot_of(s2, files2),
    ensures
        s1.manifest.files@ == s2.manifest.files@,
        s1.file_count == s2.file_count,
        s1.root_hash@ == s2.root_hash@,
{
    law_snapshot_order_independent(files1, files2, s1.manifest.files@, s2.manifest.files@);
}

/// The counts the web graph shows for a checkpoint are the lengths of the
/// lists `lupe diff` prints for it against its parent; without a parent,
/// every file counts as added.
pub proof fn law_counts_match_diff(
    from: crate::manifest::Manifest,
    to: crate::manifest::Manifest,
    added: Seq<Seq<char>>,
    modified: Seq<Seq<char>>,
    removed: Seq<Seq<char>>,
)
    requires
        lists_exactly(added, paths_added(manifest_map(from.files@), manifest_map(to.files@))),
        lists_exactly(modified, paths_modified(manifest_map(from.files@), manifest_map(to.files@))),
        lists_exactly(removed, paths_added(manifest_map(to.files@), manifest_map(from.files@))),
    ensures
        crate::report::change_counts_spec(Some(from), to) == (added.len() as int, modified.len() as int, removed.len() as int),
        crate::report::change_counts_spec(None, to) == (to.files@.len() as int, 0int, 0int),
{
    crate::report::lemma_list_len(added, paths_added(manifest_map(from.files@), manifest_map(to.files@)));
    crate::report::lemma_list_len(modified, paths_modified(manifest_map(from.files@), manifest_map(to.files@)));
    crate::report::lemma_list_len(removed, paths_added(manifest_map(to.files@), manifest_map(from.files@)));
}

}

verus! {

/// A file with a zero byte on either side is shown as binary, with no
/// lines; a file with none on either side is not binary.
pub proof fn law_binary_files_have_no_lines(
    path: Seq<char>,
    status: crate::webdiff::FileStatus,
    old: Seq<u8>,
    new: Seq<u8>,
)
    ensures
        (old.contains(0u8) || new.contains(0u8)) ==> crate::webdiff::text_file_diff_spec(path, status, old, new)
            == Some((path, status.word(), true, Seq::<(u32, u32, Seq<(Seq<char>, Seq<char>, Option<u32>, Option<u32>)>)>::empty())),
        crate::webdiff::text_file_diff_spec(path, status, old, new) matches Some(v) ==> (v.2 <==> (old.contains(0u8)
            || new.contains(0u8))),
{
}

/// The first line of `ls` that may become a title is the one chosen.
proof fn lemma_first_candidate_at(ls: Seq<Seq<char>>, k: int)
    requires
        0 <= k < ls.len(),
        crate::titles::line_candidate(ls[k]) is Some,
        forall|j: int| 0 <= j < k ==> crate::titles::line_candidate(#[trigger] ls[j]) is None,
    ensures
        crate::titles::first_candidate(ls) == crate::titles::line_candidate(ls[k]),
    decreases k,
{
    if k > 0 {
        let rest = ls.drop_first();
        assert(crate::titles::line_candidate(ls[0]) is None);
        assert forall|j: int| 0 <= j < k - 1 implies crate::titles::line_candidate(#[trigger] rest[j]) is None by {
            assert(rest[j] == ls[j + 1]);
        }
        assert(rest[k - 1] == ls[k]);
        lemma_first_candidate_at(rest, k - 1);
    }
}

/// Without a line that may become a title there is no title.
proof fn lemma_no_candidate(ls: Seq<Seq<char>>)
    requires
        forall|j: int| 0 <= j < ls.len() ==> crate::titles::line_candidate(#[trigger] ls[j]) is None,
    ensures
        crate::titles::first_candidate(ls) is None,
    decreases ls.len(),
{
    if ls.len() > 0 {
        let rest = ls.drop_first();
        assert(crate::titles::line_candidate(ls[0]) is None);
        assert forall|j: int| 0 <= j < rest.len() implies crate::titles::line_candidate(#[trigger] rest[j]) is None by {
            assert(rest[j] == ls[j + 1]);
        }
        lemma_no_candidate(rest);
    }
}

/// A title taken from a response is made from its first line that may
/// become one, whatever lines follow; with no such line there is no title.
pub proof fn law_title_from_first_eligible_line(r: Seq<char>, k: int)
    ensures
        (0 <= k < crate::text::lines_of(r).len() && crate::titles::line_candidate(crate::text::lines_of(r)[k]) is Some
            && forall|j: int| 0 <= j < k ==> crate::titles::line_candidate(#[trigger] crate::text::lines_of(r)[j]) is None)
            ==> crate::titles::response_title_spec(r) == Some(
            crate::titles::candidate_title(crate::titles::line_candidate(crate::text::lines_of(r)[k])->0),
        ),
        (forall|j: int| 0 <= j < crate::text::lines_of(r).len() ==> crate::titles::line_candidate(
            #[trigger] crate::text::lines_of(r)[j],
        ) is None) ==> crate::titles::response_title_spec(r) is None,
{
    let ls = crate::text::lines_of(r);
    if 0 <= k < ls.len() && crate::titles::line_candidate(ls[k]) is Some && forall|j: int|
        0 <= j < k ==> crate::titles::line_candidate(#[trigger] ls[j]) is None {
        lemma_first_candidate_at(ls, k);
    }
    if forall|j: int| 0 <= j < ls.len() ==> crate::titles::line_candidate(#[trigger] ls[j]) is None {
        lemma_no_candidate(ls);
    }
}

/// The English ordinal suffix of a day: `th` for 11 to 13 (of any
/// hundred), else `st`, `nd`, `rd` after a last digit of 1, 2, 3, else `th`.
pub proof fn law_ordinal_suffix(day: u32)
    ensures
        11 <= day % 100 <= 13 ==> crate::ids::ordinal_spec(day) == "th"@,
        !(11 <= day % 100 <= 13) && day % 10 == 1 ==> crate::ids::ordinal_spec(day) == "st"@,
        !(11 <= day % 100 <= 13) && day % 10 == 2 ==> crate::ids::ordinal_spec(day) == "nd"@,
        !(11 <= day % 100 <= 13) && day % 10 == 3 ==> crate::ids::ordinal_spec(day) == "rd"@,
        (day % 10 == 0 || day % 10 >= 4) ==> crate::ids::ordinal_spec(day) == "th"@,
{
}

/// A path below the workspace is skipped as soon as any one of its
/// components below the workspace matches any ignore pattern; a path
/// outside the workspace is always skipped; and a path inside it none of
/// whose components matches is kept.
pub proof fn law_skip_any_ignored_component(w: Seq<Seq<char>>, p: Seq<Seq<char>>, ig: Seq<Seq<char>>)
    ensures
        !crate::workspace::components_prefix(w, p) ==> crate::workspace::skip_spec(w, p, ig),
        forall|i: int, j: int|
            w.len() <= i < p.len() && 0 <= j < ig.len() && crate::workspace::glob_match(#[trigger] ig[j], #[trigger] p[i])
                ==> crate::workspace::skip_spec(w, p, ig),
        (crate::workspace::components_prefix(w, p) && forall|i: int, j: int|
            w.len() <= i < p.len() && 0 <= j < ig.len() ==> !crate::workspace::glob_match(#[trigger] ig[j], #[trigger] p[i]))
            ==> !crate::workspace::skip_spec(w, p, ig),
{
}

/// An agent that announces itself names the label, followed by `/` and the
/// model, whether or not Cursor's variable is also set; the explicit agent
/// and `LUPE_AGENT` come first.
pub proof fn law_announced_agent_names_label(
    a: Seq<char>,
    cursor: bool,
    model: Option<Seq<char>>,
    explicit: Seq<char>,
    lupe_agent: Seq<char>,
)
    ensures
        crate::workspace::agent_label_spec(None, None, Some(a), cursor, model) == a + "/"@ + match model {
            Some(m) => m,
            None => "unknown"@,
        },
        crate::workspace::agent_label_spec(None, None, Some(a), cursor, model).take(a.len() as int + 1) == a + "/"@,
        crate::workspace::agent_label_spec(Some(explicit), None, Some(a), cursor, model) == explicit,
        crate::workspace::agent_label_spec(None, Some(lupe_agent), Some(a), cursor, model) == lupe_agent,
{
    reveal_strlit("/");
    let l = crate::workspace::agent_label_spec(None, None, Some(a), cursor, model);
    let m = match model {
        Some(m) => m,
        None => "unknown"@,
    };
    assert(l == (a + "/"@) + m);
    assert(l.take(a.len() as int + 1) =~= a + "/"@);
}

}
