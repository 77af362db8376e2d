//! File-by-file changes between two checkpoints, line by line, for the web view.
use vstd::prelude::*;
use vstd::utf8::{decode_utf8, valid_utf8};
use crate::manifest::lists_exactly;
use crate::order::{lex_lt, lemma_lex_irreflexive, strictly_sorted};
use crate::pathmap::PathMap;
use crate::text::{chars_of, string_of};

verus! {

/// Path to hash, as a list of rows gives it; a later row for the same path wins.
pub open spec fn rows_map(rows: Seq<(String, String)>) -> Map<Seq<char>, Seq<char>>
    decreases rows.len(),
{
    if rows.len() == 0 {
        Map::empty()
    } else {
        rows_map(rows.drop_last()).insert(rows.last().0@, rows.last().1@)
    }
}

/// The map of a list of (path, hash) rows, with its paths in order.
pub fn path_map_of_rows(rows: &Vec<(String, String)>) -> (pm: PathMap)
    ensures
        pm.wf(),
        pm.to_map() == rows_map(rows@),
{
    let mut pm = PathMap::new();
    for i in 0..rows.len()
        invariant
            pm.wf(),
            pm.to_map() == rows_map(rows@.take(i as int)),
    {
        let k = chars_of(rows[i].0.as_str());
        let v = chars_of(rows[i].1.as_str());
        pm.insert(k, v);
        assert(rows@.take(i + 1).drop_last() =~= rows@.take(i as int));
    }
    assert(rows@.take(rows.len() as int) =~= rows@);
    pm
}

/// How a file changed.
#[derive(Clone, Copy, Debug)]
pub enum FileStatus {
    Added,
    Removed,
    Modified,
}

impl FileStatus {
    /// The word the web view shows for the status.
    pub open spec fn word(self) -> Seq<char> {
        match self {
            FileStatus::Added => "added"@,
            FileStatus::Removed => "removed"@,
            FileStatus::Modified => "modified"@,
        }
    }

    pub fn as_str(&self) -> (s: &'static str)
        ensures
            s@ == self.word(),
    {
        match self {
            FileStatus::Added => "added",
            FileStatus::Removed => "removed",
            FileStatus::Modified => "modified",
        }
    }
}

/// A file that differs between two checkpoints, with its hash on each side.
#[derive(Debug)]
pub struct FileChange {
    pub path: String,
    pub status: FileStatus,
    pub old_hash: Option<String>,
    pub new_hash: Option<String>,
}

/// The text of an optional string.
pub open spec fn opt_view(o: Option<String>) -> Option<Seq<char>> {
    match o {
        Some(s) => Some(s@),
        None => None,
    }
}

/// The path is in one of the maps and not mapped to the same hash by both.
pub open spec fn changed_paths(a: Map<Seq<char>, Seq<char>>, b: Map<Seq<char>, Seq<char>>) -> Set<Seq<char>> {
    Set::new(
        |p: Seq<char>|
            (a.dom().contains(p) || b.dom().contains(p)) && !(a.dom().contains(p) && b.dom().contains(p)
                && a[p] == b[p]),
    )
}

/// `c` describes how its path changed from `a` to `b`.
pub open spec fn describes(c: FileChange, a: Map<Seq<char>, Seq<char>>, b: Map<Seq<char>, Seq<char>>) -> bool {
    let p = c.path@;
    &&& opt_view(c.old_hash) == (if a.dom().contains(p) { Some(a[p]) } else { None::<Seq<char>> })
    &&& opt_view(c.new_hash) == (if b.dom().contains(p) { Some(b[p]) } else { None::<Seq<char>> })
    &&& c.status == (if !a.dom().contains(p) {
        FileStatus::Added
    } else if !b.dom().contains(p) {
        FileStatus::Removed
    } else {
        FileStatus::Modified
    })
}

/// The paths of a list of changes.
pub open spec fn change_paths(v: Seq<FileChange>) -> Seq<Seq<char>> {
    v.map_values(|c: FileChange| c.path@)
}

/// The files that differ between the rows of the older checkpoint (`from`)
/// and those of the newer (`to`), in path order, unchanged files left out.
pub fn plan_web_diff(from_rows: &Vec<(String, String)>, to_rows: &Vec<(String, String)>) -> (out: Vec<FileChange>)
    ensures
        lists_exactly(change_paths(out@), changed_paths(rows_map(from_rows@), rows_map(to_rows@))),
        forall|i: int| 0 <= i < out@.len() ==> describes(#[trigger] out@[i], rows_map(from_rows@), rows_map(to_rows@)),
{
    let a = path_map_of_rows(from_rows);
    let b = path_map_of_rows(to_rows);
    let ghost ma = a.to_map();
    let ghost mb = b.to_map();
    // all paths, in order
    let mut all = PathMap::new();
    let na = a.len();
    let mut i: usize = 0;
    while i < na
        invariant
            0 <= i <= na,
            na == a.keys@.len(),
            a.wf(),
            all.wf(),
            forall|p: Seq<char>| all.to_map().dom().contains(p) <==> a.key_seq().take(i as int).contains(p),
        decreases na - i,
    {
        let mut k: Vec<char> = Vec::new();
        crate::text::push_all(&mut k, &a.keys[i]);
        assert(k@ =~= a.key_seq()[i as int]);
        let ghost before = all.to_map();
        all.insert(k, Vec::new());
        proof {
            assert forall|p: Seq<char>| all.to_map().dom().contains(p) <==> a.key_seq().take(i + 1).contains(p) by {
                assert(a.key_seq().take(i + 1) =~= a.key_seq().take(i as int).push(a.key_seq()[i as int]));
                crate::text::lemma_contains_push(a.key_seq().take(i as int), a.key_seq()[i as int], p);
            }
        }
        i = i + 1;
    }
    assert(a.key_seq().take(na as int) =~= a.key_seq());
    let nb = b.len();
    let mut i: usize = 0;
    while i < nb
        invariant
            0 <= i <= nb,
            nb == b.keys@.len(),
            a.wf(),
            b.wf(),
            all.wf(),
            forall|p: Seq<char>| #![trigger all.to_map().dom().contains(p)] all.to_map().dom().contains(p) <==> (a.key_seq().contains(p) || b.key_seq().take(i as int).contains(p)),
        decreases nb - i,
    {
        let mut k: Vec<char> = Vec::new();
        crate::text::push_all(&mut k, &b.keys[i]);
        assert(k@ =~= b.key_seq()[i as int]);
        let ghost before = all.to_map();
        all.insert(k, Vec::new());
        proof {
            assert forall|p: Seq<char>| #![trigger all.to_map().dom().contains(p)] all.to_map().dom().contains(p) <==> (a.key_seq().contains(p) || b.key_seq().take(i + 1).contains(p)) by {
                assert(b.key_seq().take(i + 1) =~= b.key_seq().take(i as int).push(b.key_seq()[i as int]));
                crate::text::lemma_contains_push(b.key_seq().take(i as int), b.key_seq()[i as int], p);
            }
        }
        i = i + 1;
    }
    assert(b.key_seq().take(nb as int) =~= b.key_seq());
    let ghost target = changed_paths(ma, mb);
    let mut out: Vec<FileChange> = Vec::new();
    let n = all.len();
    let mut i: usize = 0;
    while i < n
        invariant
            0 <= i <= n,
            n == all.keys@.len(),
            a.wf(),
            b.wf(),
            all.wf(),
            ma == a.to_map(),
            mb == b.to_map(),
            target == changed_paths(ma, mb),
            forall|p: Seq<char>| all.to_map().dom().contains(p) <==> (ma.dom().contains(p) || mb.dom().contains(p)),
            strictly_sorted(change_paths(out@)),
            forall|x: int| #![trigger change_paths(out@)[x]] 0 <= x < out@.len() ==> exists|j: int| 0 <= j < i && #[trigger] all.key_seq()[j] == change_paths(out@)[x],
            forall|j: int| 0 <= j < i ==> (change_paths(out@).contains(#[trigger] all.key_seq()[j]) <==> target.contains(all.key_seq()[j])),
            forall|p: Seq<char>| change_paths(out@).contains(p) ==> target.contains(p),
            forall|x: int| 0 <= x < out@.len() ==> describes(#[trigger] out@[x], ma, mb),
        decreases n - i,
    {
        let key = &all.keys[i];
        let ghost k = all.key_seq()[i as int];
        proof {
            all.lemma_lookup(i as int);
        }
        let fa = a.find(key);
        let fb = b.find(key);
        let change: Option<FileChange> = match (fa, fb) {
            (None, Some(jb)) => {
                proof { b.lemma_lookup(jb as int); }
                Some(FileChange { path: string_of(key), status: FileStatus::Added, old_hash: None, new_hash: Some(string_of(&b.vals[jb])) })
            },
            (Some(ja), None) => {
                proof { a.lemma_lookup(ja as int); }
                Some(FileChange { path: string_of(key), status: FileStatus::Removed, old_hash: Some(string_of(&a.vals[ja])), new_hash: None })
            },
            (Some(ja), Some(jb)) => {
                proof { a.lemma_lookup(ja as int); b.lemma_lookup(jb as int); }
                if crate::order::chars_eq(&a.vals[ja], &b.vals[jb]) {
                    None
                } else {
                    Some(FileChange { path: string_of(key), status: FileStatus::Modified, old_hash: Some(string_of(&a.vals[ja])), new_hash: Some(string_of(&b.vals[jb])) })
                }
            },
            (None, None) => None,
        };
        let ghost before = change_paths(out@);
        let ghost wanted = change.is_some();
        proof {
            assert(all.to_map().dom().contains(k));
            assert(wanted == target.contains(k));
        }
        match change {
            Some(c) => {
                out.push(c);
                proof {
                    assert(change_paths(out@) =~= before.push(k));
                    assert forall|x: int, y: int| 0 <= x < y < change_paths(out@).len() implies lex_lt(
                        #[trigger] change_paths(out@)[x],
                        #[trigger] change_paths(out@)[y],
                    ) by {
                        if y == before.len() {
                            let j = choose|j: int| 0 <= j < i && #[trigger] all.key_seq()[j] == before[x];
                            assert(lex_lt(all.key_seq()[j], all.key_seq()[i as int]));
                        }
                    }
                }
            },
            None => {},
        }
        proof {
            assert forall|x: int| #![trigger change_paths(out@)[x]] 0 <= x < out@.len() implies exists|j: int| 0 <= j < i + 1 && #[trigger] all.key_seq()[j] == change_paths(out@)[x] by {
                if x < before.len() {
                    let j = choose|j: int| 0 <= j < i && #[trigger] all.key_seq()[j] == before[x];
                    assert(all.key_seq()[j] == change_paths(out@)[x]);
                } else {
                    assert(all.key_seq()[i as int] == change_paths(out@)[x]);
                }
            }
            assert forall|j: int| 0 <= j < i + 1 implies (change_paths(out@).contains(#[trigger] all.key_seq()[j]) <==> target.contains(all.key_seq()[j])) by {
                let kj = all.key_seq()[j];
                if j < i {
                    assert(lex_lt(kj, k));
                    lemma_lex_irreflexive(k);
                    if wanted {
                        if change_paths(out@).contains(kj) {
                            let x = choose|x: int| 0 <= x < change_paths(out@).len() && change_paths(out@)[x] == kj;
                            if x < before.len() {
                                assert(before.contains(kj));
                            }
                        }
                        if before.contains(kj) {
                            let x = choose|x: int| 0 <= x < before.len() && before[x] == kj;
                            assert(change_paths(out@)[x] == kj);
                        }
                    }
                } else {
                    if wanted {
                        assert(change_paths(out@)[before.len() as int] == k);
                    } else {
                        if before.contains(k) {
                            let x = choose|x: int| 0 <= x < before.len() && before[x] == k;
                            let j2 = choose|j2: int| 0 <= j2 < i && #[trigger] all.key_seq()[j2] == before[x];
                            assert(lex_lt(all.key_seq()[j2], k));
                            lemma_lex_irreflexive(k);
                        }
                    }
                }
            }
            assert forall|p: Seq<char>| change_paths(out@).contains(p) implies target.contains(p) by {
                if wanted && p == k {
                } else {
                    let x = choose|x: int| 0 <= x < change_paths(out@).len() && change_paths(out@)[x] == p;
                    if x < before.len() {
                        assert(before.contains(p));
                    }
                }
            }
        }
        i = i + 1;
    }
    proof {
        assert forall|p: Seq<char>| target.contains(p) implies change_paths(out@).contains(p) by {
            assert(all.to_map().dom().contains(p));
            let j = choose|j: int| 0 <= j < all.key_seq().len() && all.key_seq()[j] == p;
        }
    }
    out
}

}

verus! {

/// How a line takes part in a change.
#[derive(PartialEq, Eq, Structural)]
pub enum ChangeKind {
    Equal,
    Insert,
    Delete,
}

/// One line of a line diff: its kind, its index in the old and in the new
/// text (where it occurs there), and its text with its line ending.
pub struct LineChange {
    pub kind: ChangeKind,
    pub old_index: Option<usize>,
    pub new_index: Option<usize>,
    pub value: String,
}

/// The plain values of a line change.
pub open spec fn change_view(c: LineChange) -> (ChangeKind, Option<usize>, Option<usize>, Seq<char>) {
    (c.kind, c.old_index, c.new_index, c.value@)
}

/// The plain values of groups of line changes.
pub open spec fn groups_view(g: Seq<Vec<LineChange>>) -> Seq<Seq<(ChangeKind, Option<usize>, Option<usize>, Seq<char>)>> {
    g.map_values(|v: Vec<LineChange>| v@.map_values(|c: LineChange| change_view(c)))
}

/// The groups of line changes, each with up to `context` unchanged lines
/// around its changes, that `similar` finds between two texts.
pub uninterp spec fn line_diff_groups(
    old: Seq<char>,
    new: Seq<char>,
    context: usize,
) -> Seq<Seq<(ChangeKind, Option<usize>, Option<usize>, Seq<char>)>>;

/// Which line indices a change carries: an unchanged line has one in each
/// text, an inserted line only in the new text, a deleted line only in the
/// old one.
pub open spec fn index_shape(c: (ChangeKind, Option<usize>, Option<usize>, Seq<char>)) -> bool {
    match c.0 {
        ChangeKind::Equal => c.1 is Some && c.2 is Some,
        ChangeKind::Insert => c.1 is None && c.2 is Some,
        ChangeKind::Delete => c.1 is Some && c.2 is None,
    }
}

/// Calls `similar::TextDiff::from_lines`, then `grouped_ops(context)` and
/// `iter_changes` on each operation, and hands back every change as plain
/// values, group by group. Which lines the diff algorithm pairs up is only
/// named here; what `similar`'s change iterator gives each kind of change
/// is stated: both indices for an unchanged line, only the new one for an
/// insertion, only the old one for a deletion.
#[verifier::external_body]
fn grouped_line_changes(old: &str, new: &str, context: usize) -> (out: Vec<Vec<LineChange>>)
    ensures
        groups_view(out@) == line_diff_groups(old@, new@, context),
        forall|g: int, c: int|
            0 <= g < out@.len() && 0 <= c < out@[g]@.len() ==> index_shape(#[trigger] change_view(out@[g]@[c])),
{
    let diff = similar::TextDiff::from_lines(old, new);
    diff.grouped_ops(context).iter().map(|group| group.iter().flat_map(|op| diff.iter_changes(op)).map(|c| LineChange {
        kind: match c.tag() {
            similar::ChangeTag::Equal => ChangeKind::Equal,
            similar::ChangeTag::Insert => ChangeKind::Insert,
            similar::ChangeTag::Delete => ChangeKind::Delete,
        },
        old_index: c.old_index(),
        new_index: c.new_index(),
        value: c.value().to_string(),
    }).collect()).collect()
}

/// The text `String::from_utf8_lossy` makes of `bytes`.
pub uninterp spec fn lossy_utf8(bytes: Seq<u8>) -> Seq<char>;

/// Calls `String::from_utf8_lossy`. Its documentation says that invalid
/// sequences become U+FFFD and valid UTF-8 is decoded as it stands; the
/// second is stated, the first only named.
#[verifier::external_body]
fn utf8_lossy(bytes: &Vec<u8>) -> (s: String)
    ensures
        s@ == lossy_utf8(bytes@),
        valid_utf8(bytes@) ==> s@ == decode_utf8(bytes@),
{
    String::from_utf8_lossy(bytes).into_owned()
}

/// A line of a hunk as the web view shows it.
#[derive(Clone, Debug)]
pub struct WebDiffLine {
    pub kind: String,
    pub content: String,
    pub old_line: Option<u32>,
    pub new_line: Option<u32>,
}

/// A run of changed lines with context, and where it starts on each side.
#[derive(Clone, Debug)]
pub struct WebHunk {
    pub old_start: u32,
    pub new_start: u32,
    pub lines: Vec<WebDiffLine>,
}

/// How one file changed, for the web view.
#[derive(Clone, Debug)]
pub struct WebFileDiff {
    pub path: String,
    pub status: String,
    pub is_binary: bool,
    pub hunks: Vec<WebHunk>,
}

/// The word the web view uses for a kind of line.
pub open spec fn kind_word(k: ChangeKind) -> Seq<char> {
    match k {
        ChangeKind::Equal => "context"@,
        ChangeKind::Insert => "added"@,
        ChangeKind::Delete => "removed"@,
    }
}

/// `s` without the line feeds at its end.
pub open spec fn trim_newlines(s: Seq<char>) -> Seq<char>
    decreases s.len(),
{
    if s.len() > 0 && s.last() == '\n' {
        trim_newlines(s.drop_last())
    } else {
        s
    }
}

/// A zero-based line index as a one-based line number.
pub open spec fn line_number(i: Option<usize>) -> Option<u32> {
    match i {
        Some(x) => Some((x + 1) as u32),
        None => None,
    }
}

/// Every line index of the groups has a one-based number that fits in `u32`.
pub open spec fn indices_fit(g: Seq<Seq<(ChangeKind, Option<usize>, Option<usize>, Seq<char>)>>) -> bool {
    forall|i: int, j: int|
        0 <= i < g.len() && 0 <= j < g[i].len() ==> {
            &&& (#[trigger] g[i][j]).1 matches Some(x) ==> x < u32::MAX
            &&& g[i][j].2 matches Some(x) ==> x < u32::MAX
        }
}

/// The plain values of a web diff line.
pub open spec fn web_line_view(l: WebDiffLine) -> (Seq<char>, Seq<char>, Option<u32>, Option<u32>) {
    (l.kind@, l.content@, l.old_line, l.new_line)
}

/// The web line for one change.
pub open spec fn web_line_of(c: (ChangeKind, Option<usize>, Option<usize>, Seq<char>)) -> (Seq<char>, Seq<char>, Option<u32>, Option<u32>) {
    (kind_word(c.0), trim_newlines(c.3), line_number(c.1), line_number(c.2))
}

/// The plain values of a hunk.
pub open spec fn hunk_view(h: WebHunk) -> (u32, u32, Seq<(Seq<char>, Seq<char>, Option<u32>, Option<u32>)>) {
    (h.old_start, h.new_start, h.lines@.map_values(|l: WebDiffLine| web_line_view(l)))
}

/// The hunk for a non-empty group: its lines, and the line numbers of its
/// first line on each side, each falling back on the other and then on 1.
pub open spec fn hunk_of(g: Seq<(ChangeKind, Option<usize>, Option<usize>, Seq<char>)>) -> (u32, u32, Seq<(Seq<char>, Seq<char>, Option<u32>, Option<u32>)>) {
    let first = web_line_of(g[0]);
    let old_start = match first.2 {
        Some(n) => n,
        None => match first.3 {
            Some(n) => n,
            None => 1u32,
        },
    };
    let new_start = match first.3 {
        Some(n) => n,
        None => match first.2 {
            Some(n) => n,
            None => 1u32,
        },
    };
    (old_start, new_start, g.map_values(|c: (ChangeKind, Option<usize>, Option<usize>, Seq<char>)| web_line_of(c)))
}

/// The hunks of the groups: one for each group that has lines.
pub open spec fn hunks_of(g: Seq<Seq<(ChangeKind, Option<usize>, Option<usize>, Seq<char>)>>) -> Seq<(u32, u32, Seq<(Seq<char>, Seq<char>, Option<u32>, Option<u32>)>)>
    decreases g.len(),
{
    if g.len() == 0 {
        Seq::empty()
    } else {
        let r = hunks_of(g.drop_last());
        if g.last().len() == 0 {
            r
        } else {
            r.push(hunk_of(g.last()))
        }
    }
}

fn trim_newlines_chars(cs: &Vec<char>) -> (out: Vec<char>)
    ensures
        out@ == trim_newlines(cs@),
{
    let mut end = cs.len();
    assert(cs@.take(end as int) =~= cs@);
    while end > 0 && cs[end - 1] == '\n'
        invariant
            end <= cs.len(),
            trim_newlines(cs@) == trim_newlines(cs@.take(end as int)),
        decreases end,
    {
        assert(cs@.take(end as int).drop_last() =~= cs@.take(end - 1));
        end = end - 1;
    }
    crate::text::take_chars(cs, end)
}

fn number_of(i: Option<usize>) -> (n: Option<u32>)
    requires
        i matches Some(x) ==> x < u32::MAX,
    ensures
        n == line_number(i),
{
    match i {
        Some(x) => Some(x as u32 + 1),
        None => None,
    }
}

fn web_line(c: &LineChange) -> (l: WebDiffLine)
    requires
        c.old_index matches Some(x) ==> x < u32::MAX,
        c.new_index matches Some(x) ==> x < u32::MAX,
    ensures
        web_line_view(l) == web_line_of(change_view(*c)),
{
    let kind = match c.kind {
        ChangeKind::Equal => "context",
        ChangeKind::Insert => "added",
        ChangeKind::Delete => "removed",
    };
    let kind_s = string_of(&chars_of(kind));
    let content = string_of(&trim_newlines_chars(&chars_of(c.value.as_str())));
    WebDiffLine { kind: kind_s, content, old_line: number_of(c.old_index), new_line: number_of(c.new_index) }
}

/// The web hunks for groups of line changes.
pub fn hunks_from_groups(groups: &Vec<Vec<LineChange>>) -> (out: Vec<WebHunk>)
    requires
        indices_fit(groups_view(groups@)),
    ensures
        out@.map_values(|h: WebHunk| hunk_view(h)) == hunks_of(groups_view(groups@)),
{
    let ghost gv = groups_view(groups@);
    let mut out: Vec<WebHunk> = Vec::new();
    for i in 0..groups.len()
        invariant
            gv == groups_view(groups@),
            indices_fit(gv),
            out@.map_values(|h: WebHunk| hunk_view(h)) == hunks_of(gv.take(i as int)),
    {
        let group = &groups[i];
        let ghost g = gv[i as int];
        let mut lines: Vec<WebDiffLine> = Vec::new();
        for j in 0..group.len()
            invariant
                gv == groups_view(groups@),
                indices_fit(gv),
                0 <= i < groups@.len(),
                group == groups@[i as int],
                g == gv[i as int],
                g == group@.map_values(|c: LineChange| change_view(c)),
                lines@.map_values(|l: WebDiffLine| web_line_view(l)) == g.take(j as int).map_values(
                    |c: (ChangeKind, Option<usize>, Option<usize>, Seq<char>)| web_line_of(c),
                ),
        {
            proof {
                assert(g[j as int] == change_view(group@[j as int]));
                assert(gv[i as int][j as int] == g[j as int]);
            }
            let l = web_line(&group[j]);
            let ghost before = lines@;
            lines.push(l);
            assert(lines@ == before.push(l));
            assert(lines@.map_values(|l: WebDiffLine| web_line_view(l)) =~= before.map_values(|l: WebDiffLine| web_line_view(l)).push(web_line_view(l)));
            assert(g.take(j + 1) =~= g.take(j as int).push(g[j as int]));
            assert(lines@.map_values(|l: WebDiffLine| web_line_view(l)) =~= g.take(j + 1).map_values(
                |c: (ChangeKind, Option<usize>, Option<usize>, Seq<char>)| web_line_of(c),
            ));
        }
        assert(g.take(group.len() as int) =~= g);
        assert(gv.take(i + 1).drop_last() =~= gv.take(i as int));
        if lines.len() > 0 {
            let first = &lines[0];
            let old_start = match first.old_line {
                Some(n) => n,
                None => match first.new_line {
                    Some(n) => n,
                    None => 1,
                },
            };
            let new_start = match first.new_line {
                Some(n) => n,
                None => match first.old_line {
                    Some(n) => n,
                    None => 1,
                },
            };
            proof {
                assert(lines@.map_values(|l: WebDiffLine| web_line_view(l))[0] == web_line_view(lines@[0]));
                assert(g.take(g.len() as int).map_values(|c: (ChangeKind, Option<usize>, Option<usize>, Seq<char>)| web_line_of(c))[0] == web_line_of(g[0]));
                assert(web_line_view(lines@[0]) == web_line_of(g[0]));
            }
            let ghost before = out@.map_values(|h: WebHunk| hunk_view(h));
            out.push(WebHunk { old_start, new_start, lines });
            assert(out@.map_values(|h: WebHunk| hunk_view(h)) =~= before.push(hunk_of(g)));
        } else {
            assert(g.len() == 0);
        }
    }
    assert(gv.take(groups.len() as int) =~= gv);
    out
}

}

verus! {

/// Unchanged lines shown around each change.
pub const DIFF_CONTEXT: usize = 3;

/// Stored files longer than this many bytes are not shown line by line.
pub const MAX_FILE_BYTES: u64 = 256 * 1024;

/// Whether a stored file of `len` bytes is too long to show line by line.
pub fn too_large_to_show(len: u64) -> (b: bool)
    ensures
        b == (len > MAX_FILE_BYTES),
{
    len > MAX_FILE_BYTES
}

/// Whether `bytes` holds a zero byte, the mark of a binary file.
pub fn has_zero_byte(bytes: &Vec<u8>) -> (b: bool)
    ensures
        b == bytes@.contains(0u8),
{
    for i in 0..bytes.len()
        invariant
            forall|j: int| 0 <= j < i ==> bytes@[j] != 0u8,
    {
        if bytes[i] == 0 {
            assert(bytes@[i as int] == 0u8);
            return true;
        }
    }
    false
}

/// The plain values of a file diff.
pub open spec fn file_diff_view(d: WebFileDiff) -> (Seq<char>, Seq<char>, bool, Seq<(u32, u32, Seq<(Seq<char>, Seq<char>, Option<u32>, Option<u32>)>)>) {
    (d.path@, d.status@, d.is_binary, d.hunks@.map_values(|h: WebHunk| hunk_view(h)))
}

/// The entry for a file too long to show: its path and status, no lines.
pub fn oversized_file_diff(path: &str, status: &FileStatus) -> (d: WebFileDiff)
    ensures
        file_diff_view(d) == (path@, status.word(), false, Seq::<(u32, u32, Seq<(Seq<char>, Seq<char>, Option<u32>, Option<u32>)>)>::empty()),
{
    let d = WebFileDiff {
        path: string_of(&chars_of(path)),
        status: string_of(&chars_of(status.as_str())),
        is_binary: false,
        hunks: Vec::new(),
    };
    assert(d.hunks@.map_values(|h: WebHunk| hunk_view(h)) =~= Seq::<(u32, u32, Seq<(Seq<char>, Seq<char>, Option<u32>, Option<u32>)>)>::empty());
    d
}

/// Whether every line index of the groups has a number that fits in `u32`.
pub fn groups_fit(groups: &Vec<Vec<LineChange>>) -> (b: bool)
    ensures
        b == indices_fit(groups_view(groups@)),
{
    let ghost gv = groups_view(groups@);
    for i in 0..groups.len()
        invariant
            gv == groups_view(groups@),
            forall|a: int, b: int| 0 <= a < i && 0 <= b < gv[a].len() ==> {
                &&& (#[trigger] gv[a][b]).1 matches Some(x) ==> x < u32::MAX
                &&& gv[a][b].2 matches Some(x) ==> x < u32::MAX
            },
    {
        let group = &groups[i];
        for j in 0..group.len()
            invariant
                gv == groups_view(groups@),
                0 <= i < groups@.len(),
                group == groups@[i as int],
                forall|a: int, b: int| 0 <= a < i && 0 <= b < gv[a].len() ==> {
                    &&& (#[trigger] gv[a][b]).1 matches Some(x) ==> x < u32::MAX
                    &&& gv[a][b].2 matches Some(x) ==> x < u32::MAX
                },
                forall|b: int| 0 <= b < j ==> {
                    &&& (#[trigger] gv[i as int][b]).1 matches Some(x) ==> x < u32::MAX
                    &&& gv[i as int][b].2 matches Some(x) ==> x < u32::MAX
                },
        {
            let c = &group[j];
            assert(gv[i as int][j as int] == change_view(*c));
            match c.old_index {
                Some(x) => {
                    if x >= u32::MAX as usize {
                        return false;
                    }
                },
                None => {},
            }
            match c.new_index {
                Some(x) => {
                    if x >= u32::MAX as usize {
                        return false;
                    }
                },
                None => {},
            }
        }
    }
    true
}

/// What `text_file_diff` gives for the stored bytes of a file on each side:
/// a binary file (one with a zero byte) has no lines; otherwise the hunks of
/// the line diff, with 3 lines of context, of the two texts decoded leniently.
pub open spec fn text_file_diff_spec(path: Seq<char>, status: FileStatus, old: Seq<u8>, new: Seq<u8>) -> Option<(Seq<char>, Seq<char>, bool, Seq<(u32, u32, Seq<(Seq<char>, Seq<char>, Option<u32>, Option<u32>)>)>)> {
    if old.contains(0u8) || new.contains(0u8) {
        Some((path, status.word(), true, Seq::empty()))
    } else {
        let g = line_diff_groups(lossy_utf8(old), lossy_utf8(new), DIFF_CONTEXT);
        if indices_fit(g) {
            Some((path, status.word(), false, hunks_of(g)))
        } else {
            None
        }
    }
}

/// Every change of the groups carries the line indices of its kind.
pub open spec fn groups_shaped(g: Seq<Seq<(ChangeKind, Option<usize>, Option<usize>, Seq<char>)>>) -> bool {
    forall|i: int, j: int| 0 <= i < g.len() && 0 <= j < g[i].len() ==> index_shape(#[trigger] g[i][j])
}

/// A web line is a context line with both line numbers, an added line with
/// only the new one, or a removed line with only the old one.
pub open spec fn web_line_shaped(l: (Seq<char>, Seq<char>, Option<u32>, Option<u32>)) -> bool {
    ||| (l.0 == "context"@ && l.2 is Some && l.3 is Some)
    ||| (l.0 == "added"@ && l.2 is None && l.3 is Some)
    ||| (l.0 == "removed"@ && l.2 is Some && l.3 is None)
}

/// Every hunk has lines, and every line has the shape of its kind.
pub open spec fn hunks_shaped(hs: Seq<(u32, u32, Seq<(Seq<char>, Seq<char>, Option<u32>, Option<u32>)>)>) -> bool {
    forall|i: int| 0 <= i < hs.len() ==> {
        &&& (#[trigger] hs[i]).2.len() > 0
        &&& forall|j: int| 0 <= j < hs[i].2.len() ==> web_line_shaped(#[trigger] hs[i].2[j])
    }
}

/// The hunks of shaped groups are shaped.
pub proof fn lemma_hunks_shaped(g: Seq<Seq<(ChangeKind, Option<usize>, Option<usize>, Seq<char>)>>)
    requires
        groups_shaped(g),
    ensures
        hunks_shaped(hunks_of(g)),
    decreases g.len(),
{
    if g.len() > 0 {
        let g0 = g.drop_last();
        assert(groups_shaped(g0)) by {
            assert forall|i: int, j: int| 0 <= i < g0.len() && 0 <= j < g0[i].len() implies index_shape(#[trigger] g0[i][j]) by {
                assert(g0[i] == g[i]);
            }
        }
        lemma_hunks_shaped(g0);
        if g.last().len() > 0 {
            let last = g.last();
            let h = hunk_of(last);
            assert forall|j: int| 0 <= j < h.2.len() implies web_line_shaped(#[trigger] h.2[j]) by {
                assert(h.2[j] == web_line_of(last[j]));
                assert(last[j] == g[g.len() - 1][j]);
                assert(index_shape(last[j]));
            }
            let r = hunks_of(g0);
            assert forall|i: int| 0 <= i < r.push(h).len() implies {
                &&& (#[trigger] r.push(h)[i]).2.len() > 0
                &&& forall|j: int| 0 <= j < r.push(h)[i].2.len() ==> web_line_shaped(#[trigger] r.push(h)[i].2[j])
            } by {
                if i < r.len() {
                    assert(r.push(h)[i] == r[i]);
                }
            }
        }
    }
}

/// How a file changed, line by line, from its old stored bytes to its new
/// ones; `None` when a line number would not fit in `u32`. Every hunk has
/// lines, and each line is a context line with both line numbers, an added
/// line with only the new one, or a removed line with only the old one.
pub fn text_file_diff(path: &str, status: &FileStatus, old: &Vec<u8>, new: &Vec<u8>) -> (r: Option<WebFileDiff>)
    ensures
        r matches Some(d) ==> text_file_diff_spec(path@, *status, old@, new@) == Some(file_diff_view(d)),
        r is None ==> text_file_diff_spec(path@, *status, old@, new@) is None,
        r matches Some(d) ==> hunks_shaped(file_diff_view(d).3),
        r matches Some(d) ==> (d.is_binary <==> (old@.contains(0u8) || new@.contains(0u8))),
        (old@.contains(0u8) || new@.contains(0u8)) ==> (r matches Some(d) && d.is_binary && d.hunks@.len() == 0
            && d.path@ == path@ && d.status@ == status.word()),
{
    let path_s = string_of(&chars_of(path));
    let status_s = string_of(&chars_of(status.as_str()));
    if has_zero_byte(old) || has_zero_byte(new) {
        let d = WebFileDiff { path: path_s, status: status_s, is_binary: true, hunks: Vec::new() };
        assert(d.hunks@.map_values(|h: WebHunk| hunk_view(h)) =~= Seq::<(u32, u32, Seq<(Seq<char>, Seq<char>, Option<u32>, Option<u32>)>)>::empty());
        return Some(d);
    }
    let old_text = utf8_lossy(old);
    let new_text = utf8_lossy(new);
    let groups = grouped_line_changes(old_text.as_str(), new_text.as_str(), DIFF_CONTEXT);
    if !groups_fit(&groups) {
        return None;
    }
    proof {
        let gv = groups_view(groups@);
        assert forall|i: int, j: int| 0 <= i < gv.len() && 0 <= j < gv[i].len() implies index_shape(#[trigger] gv[i][j]) by {
            assert(gv[i][j] == change_view(groups@[i]@[j]));
        }
        lemma_hunks_shaped(gv);
    }
    let hunks = hunks_from_groups(&groups);
    Some(WebFileDiff { path: path_s, status: status_s, is_binary: false, hunks })
}

}
