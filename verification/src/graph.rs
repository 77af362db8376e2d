//! The branches the text graph draws off the main chain: which checkpoints
//! start a branch at a main checkpoint, and the chain each one heads.
use vstd::prelude::*;
use crate::order::chars_eq;
use crate::text::chars_of;

verus! {

/// What the graph reads of a checkpoint: its id, its parent and its branch.
#[derive(Clone, Debug)]
pub struct GraphNode {
    pub id: u128,
    pub parent: Option<u128>,
    pub branch: String,
}

/// `n` is a child of checkpoint `tip` on branch `b`.
pub open spec fn is_child_on(n: GraphNode, tip: u128, b: Seq<char>) -> bool {
    n.parent == Some(tip) && n.branch@ == b
}

/// The first position at or after `i` holding a child of `tip` on branch
/// `b`.
pub open spec fn first_child_from(all: Seq<GraphNode>, tip: u128, b: Seq<char>, i: int) -> Option<int>
    decreases all.len() - i,
{
    if i < 0 || i >= all.len() {
        None
    } else if is_child_on(all[i], tip, b) {
        Some(i)
    } else {
        first_child_from(all, tip, b, i + 1)
    }
}

/// The chain a branch entry heads, as positions in `all`: the entry, then
/// each time the first child of the last one on the same branch, taking at
/// most `fuel` such steps.
pub open spec fn walk(all: Seq<GraphNode>, idx: int, b: Seq<char>, fuel: nat) -> Seq<int>
    decreases fuel,
{
    match first_child_from(all, all[idx].id, b, 0) {
        None => seq![idx],
        Some(n) => if fuel == 0 {
            seq![idx]
        } else {
            seq![idx] + walk(all, n, b, (fuel - 1) as nat)
        },
    }
}

/// The chain from `idx` comes to its end within `fuel` steps.
pub open spec fn ends_within(all: Seq<GraphNode>, idx: int, b: Seq<char>, fuel: nat) -> bool
    decreases fuel,
{
    match first_child_from(all, all[idx].id, b, 0) {
        None => true,
        Some(n) => fuel > 0 && ends_within(all, n, b, (fuel - 1) as nat),
    }
}

/// The first child found is in range and is a child on the branch.
pub proof fn lemma_first_child_in_range(all: Seq<GraphNode>, tip: u128, b: Seq<char>, i: int)
    ensures
        first_child_from(all, tip, b, i) matches Some(k) ==> i <= k < all.len() && is_child_on(all[k], tip, b),
    decreases all.len() - i,
{
    if 0 <= i < all.len() && !is_child_on(all[i], tip, b) {
        lemma_first_child_in_range(all, tip, b, i + 1);
    }
}

/// The first checkpoint of `all` that is a child of `tip` on branch `b`.
fn first_child(all: &Vec<GraphNode>, tip: u128, b: &Vec<char>) -> (r: Option<usize>)
    ensures
        r matches Some(k) ==> first_child_from(all@, tip, b@, 0) == Some(k as int),
        r is None ==> first_child_from(all@, tip, b@, 0) is None,
{
    let mut i: usize = 0;
    while i < all.len()
        invariant
            i <= all@.len(),
            first_child_from(all@, tip, b@, 0) == first_child_from(all@, tip, b@, i as int),
        decreases all@.len() - i,
    {
        let n = &all[i];
        let nb = chars_of(n.branch.as_str());
        if n.parent == Some(tip) && chars_eq(&nb, b) {
            return Some(i);
        }
        i = i + 1;
    }
    None
}

/// `n` starts a branch at checkpoint `id`: a child of it off `main`.
pub open spec fn starts_branch_at(n: GraphNode, id: u128) -> bool {
    n.parent == Some(id) && n.branch@ != "main"@
}

/// The checkpoints that start a branch at checkpoint `id`, as positions in
/// `all`, in the order of `all`.
pub fn branch_entries(all: &Vec<GraphNode>, id: u128) -> (out: Vec<usize>)
    ensures
        forall|k: int| 0 <= k < out@.len() ==> out@[k] < all@.len() && starts_branch_at(all@[out@[k] as int], id),
        forall|k: int, l: int| 0 <= k < l < out@.len() ==> out@[k] < out@[l],
        forall|i: int| 0 <= i < all@.len() && starts_branch_at(all@[i], id) ==> out@.contains(i as usize),
{
    let main = chars_of("main");
    let mut out: Vec<usize> = Vec::new();
    let mut i: usize = 0;
    while i < all.len()
        invariant
            i <= all@.len(),
            main@ == "main"@,
            forall|k: int| 0 <= k < out@.len() ==> out@[k] < i && starts_branch_at(all@[out@[k] as int], id),
            forall|k: int, l: int| 0 <= k < l < out@.len() ==> out@[k] < out@[l],
            forall|j: int| 0 <= j < i && starts_branch_at(all@[j], id) ==> out@.contains(j as usize),
        decreases all@.len() - i,
    {
        let n = &all[i];
        let nb = chars_of(n.branch.as_str());
        if n.parent == Some(id) && !chars_eq(&nb, &main) {
            let ghost before = out@;
            out.push(i);
            proof {
                assert forall|j: int| 0 <= j < i + 1 && starts_branch_at(all@[j], id) implies out@.contains(j as usize) by {
                    if j < i {
                        let k = choose|k: int| 0 <= k < before.len() && before[k] == j as usize;
                        assert(out@[k] == j as usize);
                    } else {
                        assert(out@[before.len() as int] == i);
                    }
                }
            }
        } else {
            proof {
                assert forall|j: int| 0 <= j < i + 1 && starts_branch_at(all@[j], id) implies out@.contains(j as usize) by {
                    if j == i {
                        assert(nb@ == all@[j].branch@);
                    }
                }
            }
        }
        i = i + 1;
    }
    out
}

/// The chain the branch entry at position `entry` heads, as positions in
/// `all`: the entry, then each time the first child on the same branch of
/// the last checkpoint taken, until one has none. `None` when the chain
/// does not end within as many steps as there are checkpoints, which only
/// parent links that loop can cause.
pub fn branch_chain(all: &Vec<GraphNode>, entry: usize) -> (r: Option<Vec<usize>>)
    requires
        entry < all@.len(),
    ensures
        r matches Some(c) ==> ends_within(all@, entry as int, all@[entry as int].branch@, all@.len() as nat)
            && c@.map_values(|k: usize| k as int) == walk(all@, entry as int, all@[entry as int].branch@, all@.len() as nat),
        r is None ==> !ends_within(all@, entry as int, all@[entry as int].branch@, all@.len() as nat),
{
    let b = chars_of(all[entry].branch.as_str());
    let ghost bs = all@[entry as int].branch@;
    let ghost n = all@.len() as nat;
    let ghost whole = walk(all@, entry as int, bs, n);
    let mut chain: Vec<usize> = Vec::new();
    chain.push(entry);
    let mut tip: usize = entry;
    let mut fuel: usize = all.len();
    assert(chain@.map_values(|k: usize| k as int).drop_last() + walk(all@, tip as int, bs, fuel as nat) =~= whole);
    loop
        invariant
            b@ == bs,
            entry < all@.len(),
            bs == all@[entry as int].branch@,
            n == all@.len() as nat,
            whole == walk(all@, entry as int, bs, n),
            tip < all@.len(),
            fuel <= all@.len(),
            chain@.len() > 0,
            chain@.last() == tip,
            forall|k: int| 0 <= k < chain@.len() ==> chain@[k] < all@.len(),
            chain@.map_values(|k: usize| k as int).drop_last() + walk(all@, tip as int, bs, fuel as nat) == whole,
            ends_within(all@, entry as int, bs, n) == ends_within(all@, tip as int, bs, fuel as nat),
        decreases fuel,
    {
        let next = first_child(all, all[tip].id, &b);
        proof {
            lemma_first_child_in_range(all@, all@[tip as int].id, bs, 0);
        }
        match next {
            None => {
                assert(chain@.map_values(|k: usize| k as int) =~= chain@.map_values(|k: usize| k as int).drop_last() + seq![tip as int]);
                return Some(chain);
            },
            Some(nx) => {
                if fuel == 0 {
                    return None;
                }
                let ghost before = chain@.map_values(|k: usize| k as int);
                chain.push(nx);
                proof {
                    let after = chain@.map_values(|k: usize| k as int);
                    assert(after.drop_last() =~= before);
                    assert(before =~= before.drop_last() + seq![tip as int]);
                    assert(walk(all@, tip as int, bs, fuel as nat) == seq![tip as int] + walk(all@, nx as int, bs, (fuel - 1) as nat));
                    assert(before.drop_last() + (seq![tip as int] + walk(all@, nx as int, bs, (fuel - 1) as nat))
                        =~= before + walk(all@, nx as int, bs, (fuel - 1) as nat));
                }
                tip = nx;
                fuel = fuel - 1;
            },
        }
    }
}

}
