//! Lines the command line prints about checkpoints and their changes.
use vstd::prelude::*;
use crate::colors::{painted, Colors};
use crate::ids::{decimal, decimal_text};
use crate::manifest::{strings_view, DiffView, Manifest};
use crate::text::{push_str_chars, string_of};

verus! {

/// How many changed paths a graph shows under a checkpoint.
pub const SHOWN_CHANGES: usize = 8;

/// Each path of `paths` after `mark`, painted with `code`.
pub open spec fn marked_lines(enabled: bool, code: Seq<char>, mark: Seq<char>, paths: Seq<Seq<char>>) -> Seq<Seq<char>> {
    paths.map_values(|p: Seq<char>| painted(enabled, code, mark + p))
}

/// The change lines of a diff: added paths (`+`, green), then modified
/// ones (`~`, yellow), then removed ones (`-`, red).
pub open spec fn change_lines(enabled: bool, d: DiffView) -> Seq<Seq<char>> {
    marked_lines(enabled, "32"@, "+ "@, strings_view(d.added@)) + marked_lines(
        enabled,
        "33"@,
        "~ "@,
        strings_view(d.modified@),
    ) + marked_lines(enabled, "31"@, "- "@, strings_view(d.removed@))
}

/// What `diff_lines` returns: the first 8 change lines after `pipe` and
/// `indent`, and when there are more, a dim line saying how many more.
pub open spec fn diff_lines_spec(enabled: bool, d: DiffView, pipe: Seq<char>, indent: Seq<char>) -> Seq<Seq<char>> {
    let all = change_lines(enabled, d);
    let shown = if all.len() > SHOWN_CHANGES { all.take(SHOWN_CHANGES as int) } else { all };
    let lines = shown.map_values(|l: Seq<char>| pipe + indent + l);
    if all.len() > SHOWN_CHANGES {
        lines.push(pipe + indent + painted(enabled, "2"@, "... +"@ + decimal((all.len() - SHOWN_CHANGES) as nat) + " more"@))
    } else {
        lines
    }
}

fn push_marked(out: &mut Vec<String>, colors: &Colors, code: &str, mark: &str, paths: &Vec<String>)
    ensures
        strings_view(final(out)@) == strings_view(old(out)@) + marked_lines(colors.enabled, code@, mark@, strings_view(paths@)),
{
    let ghost start = strings_view(out@);
    for i in 0..paths.len()
        invariant
            strings_view(out@) == start + marked_lines(colors.enabled, code@, mark@, strings_view(paths@.take(i as int))),
    {
        let mut cs: Vec<char> = Vec::new();
        push_str_chars(&mut cs, mark);
        push_str_chars(&mut cs, paths[i].as_str());
        let text = string_of(&cs);
        let line = colors.paint(code, text.as_str());
        let ghost before = out@;
        out.push(line);
        proof {
            assert(out@ == before.push(line));
            assert(strings_view(out@) =~= strings_view(before).push(line@));
            assert(strings_view(paths@.take(i + 1)) =~= strings_view(paths@.take(i as int)).push(paths@[i as int]@));
            assert(marked_lines(colors.enabled, code@, mark@, strings_view(paths@.take(i + 1))) =~= marked_lines(
                colors.enabled,
                code@,
                mark@,
                strings_view(paths@.take(i as int)),
            ).push(line@));
        }
    }
    assert(paths@.take(paths.len() as int) =~= paths@);
}

/// The lines a graph prints under a checkpoint for its changes, each after
/// `pipe` and `indent`: at most 8 paths, then how many more there are.
pub fn diff_lines(diff: &DiffView, colors: &Colors, pipe: &str, indent: &str) -> (out: Vec<String>)
    ensures
        strings_view(out@) == diff_lines_spec(colors.enabled, *diff, pipe@, indent@),
{
    let mut all: Vec<String> = Vec::new();
    push_marked(&mut all, colors, "32", "+ ", &diff.added);
    push_marked(&mut all, colors, "33", "~ ", &diff.modified);
    push_marked(&mut all, colors, "31", "- ", &diff.removed);
    let ghost all_v = change_lines(colors.enabled, *diff);
    assert(strings_view(all@) =~= all_v);
    let total = all.len();
    let shown = if total > SHOWN_CHANGES { SHOWN_CHANGES } else { total };
    let mut out: Vec<String> = Vec::new();
    for i in 0..shown
        invariant
            shown <= total,
            total == all@.len(),
            strings_view(all@) == all_v,
            strings_view(out@) == all_v.take(i as int).map_values(|l: Seq<char>| pipe@ + indent@ + l),
    {
        let mut cs: Vec<char> = Vec::new();
        push_str_chars(&mut cs, pipe);
        push_str_chars(&mut cs, indent);
        push_str_chars(&mut cs, all[i].as_str());
        let line = string_of(&cs);
        let ghost before = out@;
        out.push(line);
        proof {
            assert(strings_view(all@)[i as int] == all@[i as int]@);
            assert(out@ == before.push(line));
            assert(strings_view(out@) =~= strings_view(before).push(line@));
            assert(all_v.take(i + 1) =~= all_v.take(i as int).push(all_v[i as int]));
            assert(strings_view(out@) =~= all_v.take(i + 1).map_values(|l: Seq<char>| pipe@ + indent@ + l));
        }
    }
    if total > SHOWN_CHANGES {
        let more = decimal_text((total - SHOWN_CHANGES) as u64);
        let mut cs: Vec<char> = Vec::new();
        push_str_chars(&mut cs, "... +");
        push_str_chars(&mut cs, more.as_str());
        push_str_chars(&mut cs, " more");
        let text = string_of(&cs);
        let dimmed = colors.dim(text.as_str());
        let mut ls: Vec<char> = Vec::new();
        push_str_chars(&mut ls, pipe);
        push_str_chars(&mut ls, indent);
        push_str_chars(&mut ls, dimmed.as_str());
        let line = string_of(&ls);
        let ghost before = out@;
        out.push(line);
        proof {
            assert(out@ == before.push(line));
            assert(strings_view(out@) =~= strings_view(before).push(line@));
        }
    } else {
        assert(all_v.take(total as int) =~= all_v);
    }
    out
}

/// How many files were added, modified and removed from one manifest to
/// the next; with no earlier manifest every file counts as added.
pub open spec fn change_counts_spec(from: Option<Manifest>, to: Manifest) -> (int, int, int) {
    match from {
        None => (to.files@.len() as int, 0, 0),
        Some(a) => (
            crate::manifest::paths_added(crate::manifest::manifest_map(a.files@), crate::manifest::manifest_map(to.files@)).len() as int,
            crate::manifest::paths_modified(crate::manifest::manifest_map(a.files@), crate::manifest::manifest_map(to.files@)).len() as int,
            crate::manifest::paths_added(crate::manifest::manifest_map(to.files@), crate::manifest::manifest_map(a.files@)).len() as int,
        ),
    }
}

}

verus! {

/// A list that holds a set once per element is as long as the set is large.
pub proof fn lemma_list_len(v: Seq<Seq<char>>, s: Set<Seq<char>>)
    requires
        crate::manifest::lists_exactly(v, s),
    ensures
        v.len() == s.len(),
        s.finite(),
{
    assert(v.no_duplicates()) by {
        assert forall|i: int, j: int| 0 <= i < v.len() && 0 <= j < v.len() && i != j implies v[i] != v[j] by {
            if i < j {
                assert(crate::order::lex_lt(v[i], v[j]));
            } else {
                assert(crate::order::lex_lt(v[j], v[i]));
            }
            crate::order::lemma_lex_irreflexive(v[i]);
        }
    }
    v.unique_seq_to_set();
    assert(v.to_set() =~= s);
}

/// How many files were added, modified and removed between two snapshots;
/// with no earlier one, every file of the later one counts as added.
pub fn file_change_counts(from: Option<&Manifest>, to: &Manifest) -> (r: (i64, i64, i64))
    requires
        to.files@.len() <= i64::MAX,
        from matches Some(a) ==> a.files@.len() <= i64::MAX,
    ensures
        r.0 == change_counts_spec(match from { Some(a) => Some(*a), None => None }, *to).0,
        r.1 == change_counts_spec(match from { Some(a) => Some(*a), None => None }, *to).1,
        r.2 == change_counts_spec(match from { Some(a) => Some(*a), None => None }, *to).2,
{
    match from {
        None => (to.files.len() as i64, 0, 0),
        Some(a) => {
            let d = crate::manifest::diff_manifests(0, 0, a, to);
            proof {
                let ma = crate::manifest::manifest_map(a.files@);
                let mb = crate::manifest::manifest_map(to.files@);
                lemma_list_len(strings_view(d.added@), crate::manifest::paths_added(ma, mb));
                lemma_list_len(strings_view(d.modified@), crate::manifest::paths_modified(ma, mb));
                lemma_list_len(strings_view(d.removed@), crate::manifest::paths_added(mb, ma));
                crate::snapshot::lemma_manifest_dom(a.files@);
                crate::snapshot::lemma_manifest_dom(to.files@);
                lemma_dom_len(a.files@);
                lemma_dom_len(to.files@);
                assert(crate::manifest::paths_added(ma, mb).subset_of(mb.dom()));
                assert(crate::manifest::paths_modified(ma, mb).subset_of(ma.dom()));
                assert(crate::manifest::paths_added(mb, ma).subset_of(ma.dom()));
                vstd::set_lib::lemma_len_subset(crate::manifest::paths_added(ma, mb), mb.dom());
                vstd::set_lib::lemma_len_subset(crate::manifest::paths_modified(ma, mb), ma.dom());
                vstd::set_lib::lemma_len_subset(crate::manifest::paths_added(mb, ma), ma.dom());
            }
            (d.added.len() as i64, d.modified.len() as i64, d.removed.len() as i64)
        },
    }
}

/// A manifest maps at most as many paths as it has entries.
pub proof fn lemma_dom_len(files: Seq<crate::manifest::FileEntry>)
    ensures
        crate::manifest::manifest_map(files).dom().finite(),
        crate::manifest::manifest_map(files).dom().len() <= files.len(),
    decreases files.len(),
{
    if files.len() > 0 {
        lemma_dom_len(files.drop_last());
    }
}

}

verus! {

/// The lines `lupe diff` prints for one list of paths: the label with the
/// number of paths, then each path indented by two spaces.
pub open spec fn path_list_spec(label: Seq<char>, paths: Seq<Seq<char>>) -> Seq<Seq<char>> {
    seq![label + ": "@ + decimal(paths.len())] + paths.map_values(|p: Seq<char>| "  "@ + p)
}

/// The lines `lupe diff` prints for one list of paths.
pub fn path_list_lines(label: &str, paths: &Vec<String>) -> (out: Vec<String>)
    ensures
        strings_view(out@) == path_list_spec(label@, strings_view(paths@)),
{
    let mut head: Vec<char> = Vec::new();
    push_str_chars(&mut head, label);
    push_str_chars(&mut head, ": ");
    let count = decimal_text(paths.len() as u64);
    push_str_chars(&mut head, count.as_str());
    let mut out: Vec<String> = Vec::new();
    out.push(string_of(&head));
    for i in 0..paths.len()
        invariant
            strings_view(out@) == seq![label@ + ": "@ + decimal(paths@.len())]
                + strings_view(paths@.take(i as int)).map_values(|p: Seq<char>| "  "@ + p),
    {
        let mut line: Vec<char> = Vec::new();
        push_str_chars(&mut line, "  ");
        push_str_chars(&mut line, paths[i].as_str());
        let ghost before = out@;
        out.push(string_of(&line));
        proof {
            assert(strings_view(paths@.take(i + 1)) =~= strings_view(paths@.take(i as int)).push(paths@[i as int]@));
            assert(strings_view(out@) =~= strings_view(before).push(line@));
            assert(strings_view(out@) =~= seq![label@ + ": "@ + decimal(paths@.len())]
                + strings_view(paths@.take(i + 1)).map_values(|p: Seq<char>| "  "@ + p));
        }
    }
    assert(paths@.take(paths@.len() as int) =~= paths@);
    out
}

}
