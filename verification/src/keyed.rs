//! Ordering items by a text key.
use vstd::prelude::*;
use crate::order::{lemma_lex_total, lemma_lex_transitive, lex_less, lex_lt, strictly_sorted};
use crate::text::views_of;

verus! {

/// A value ordered by a text: a path, a name.
pub trait TextKeyed: Sized {
    /// The text the value is ordered by.
    spec fn text_key(&self) -> Seq<char>;

    /// The characters of the key.
    fn key_chars(&self) -> (k: Vec<char>)
        ensures
            k@ == self.text_key();
}

/// The keys of a sequence of items.
pub open spec fn keys_of<T: TextKeyed>(items: Seq<T>) -> Seq<Seq<char>> {
    items.map_values(|t: T| t.text_key())
}

/// No two items share a key.
pub open spec fn distinct_keys<T: TextKeyed>(items: Seq<T>) -> bool {
    forall|i: int, j: int| 0 <= i < j < items.len() ==> #[trigger] items[i].text_key() != #[trigger] items[j].text_key()
}

/// `out` holds the items of `items`, each once.
pub open spec fn same_items<T>(out: Seq<T>, items: Seq<T>) -> bool {
    &&& out.len() == items.len()
    &&& forall|e: T| out.contains(e) <==> items.contains(e)
}

/// The items ordered by key, as a stable sort by key does when no two items
/// share a key.
pub fn sort_by_text_key<T: TextKeyed>(items: Vec<T>) -> (out: Vec<T>)
    requires
        distinct_keys(items@),
    ensures
        strictly_sorted(keys_of(out@)),
        same_items(out@, items@),
{
    let ghost input = items@;
    let mut files = items;
    let mut out: Vec<T> = Vec::new();
    let mut keys: Vec<Vec<char>> = Vec::new();
    let n = files.len();
    // take entries from the back so that each removal is cheap
    let mut remaining = n;
    while remaining > 0
        invariant
            remaining <= n,
            n == input.len(),
            files@ == input.take(remaining as int),
            distinct_keys(input),
            keys@.len() == out@.len(),
            views_of(keys@) == keys_of(out@),
            strictly_sorted(keys_of(out@)),
            out@.len() == n - remaining,
            forall|e: T| out@.contains(e) <==> input.skip(remaining as int).contains(e),
        decreases remaining,
    {
        let f = files.pop().unwrap();
        proof {
            assert(f == input[remaining - 1]);
        }
        let key = f.key_chars();
        // lower bound of key among keys
        let mut lo: usize = 0;
        let mut hi: usize = keys.len();
        while lo < hi
            invariant
                lo <= hi <= keys@.len(),
                keys@.len() == out@.len(),
                views_of(keys@) == keys_of(out@),
                strictly_sorted(keys_of(out@)),
                forall|i: int| 0 <= i < lo ==> lex_lt(#[trigger] keys_of(out@)[i], key@),
                forall|i: int| hi <= i < keys@.len() ==> !lex_lt(#[trigger] keys_of(out@)[i], key@),
            decreases hi - lo,
        {
            let mid = lo + (hi - lo) / 2;
            assert(views_of(keys@)[mid as int] == keys@[mid as int]@);
            if lex_less(&keys[mid], &key) {
                assert forall|i: int| 0 <= i < mid + 1 implies lex_lt(#[trigger] keys_of(out@)[i], key@) by {
                    if i < mid {
                        lemma_lex_transitive(keys_of(out@)[i], keys_of(out@)[mid as int], key@);
                    }
                }
                lo = mid + 1;
            } else {
                assert forall|i: int| mid <= i < keys@.len() implies !lex_lt(#[trigger] keys_of(out@)[i], key@) by {
                    if mid < i && lex_lt(keys_of(out@)[i], key@) {
                        lemma_lex_transitive(keys_of(out@)[mid as int], keys_of(out@)[i], key@);
                    }
                }
                hi = mid;
            }
        }
        let ghost old_out = out@;
        let ghost old_paths = keys_of(out@);
        proof {
            // the new path differs from every path already placed
            assert forall|i: int| 0 <= i < old_paths.len() implies #[trigger] old_paths[i] != key@ by {
                assert(old_out.contains(old_out[i]));
                assert(input.skip(remaining as int).contains(old_out[i]));
                let j = choose|j: int| 0 <= j < input.skip(remaining as int).len() && input.skip(remaining as int)[j] == old_out[i];
                assert(input[remaining + j] == old_out[i]);
                assert(input[remaining - 1].text_key() != input[remaining + j].text_key());
            }
            if lo < old_paths.len() {
                lemma_lex_total(old_paths[lo as int], key@);
            }
        }
        out.insert(lo, f);
        keys.insert(lo, key);
        remaining = remaining - 1;
        proof {
            let ps = keys_of(out@);
            assert(out@ == old_out.insert(lo as int, f));
            assert(ps =~= old_paths.insert(lo as int, key@));
            assert(views_of(keys@) =~= ps);
            assert forall|i: int, j: int| 0 <= i < j < ps.len() implies lex_lt(#[trigger] ps[i], #[trigger] ps[j]) by {
                if i < lo && j == lo {
                } else if i == lo && j > lo {
                    if j - 1 > lo {
                        lemma_lex_transitive(key@, old_paths[lo as int], old_paths[j - 1]);
                    }
                } else if i < lo && j > lo {
                    assert(ps[j] == old_paths[j - 1]);
                } else if i > lo {
                    assert(ps[i] == old_paths[i - 1]);
                    assert(ps[j] == old_paths[j - 1]);
                }
            }
            let rest0 = input.skip(remaining as int);
            let rest1 = input.skip(remaining + 1);
            assert(rest0 =~= seq![f] + rest1);
            assert forall|e: T| out@.contains(e) <==> rest0.contains(e) by {
                if out@.contains(e) {
                    let i = choose|i: int| 0 <= i < out@.len() && out@[i] == e;
                    if i < lo {
                        assert(old_out.contains(e));
                    } else if i > lo {
                        assert(old_out[i - 1] == e);
                        assert(old_out.contains(e));
                    }
                    if e != f {
                        assert(rest1.contains(e));
                        let j = choose|j: int| 0 <= j < rest1.len() && rest1[j] == e;
                        assert(rest0[j + 1] == e);
                    } else {
                        assert(rest0[0] == e);
                    }
                }
                if rest0.contains(e) {
                    let j = choose|j: int| 0 <= j < rest0.len() && rest0[j] == e;
                    if j == 0 {
                        assert(out@[lo as int] == e);
                    } else {
                        assert(rest1[j - 1] == e);
                        assert(old_out.contains(e));
                        let i = choose|i: int| 0 <= i < old_out.len() && old_out[i] == e;
                        if i < lo {
                            assert(out@[i] == e);
                        } else {
                            assert(out@[i + 1] == e);
                        }
                    }
                }
            }
        }
    }
    assert(input.skip(0) =~= input);
    out
}

}
