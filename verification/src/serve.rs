//! The decisions of the web graph's HTTP server: which asset a request
//! path names, which checkpoints a diff request compares, and when a new
//! checkpoint is announced to the listening pages.
use vstd::prelude::*;
use crate::ids::{parse_uuid, uuid_parse};
use crate::text::{chars_of, string_of, trim, trim_chars};
use crate::order::chars_eq;

verus! {

/// The query of a diff request: the checkpoint compared against, if any,
/// and the checkpoint shown.
#[derive(Clone, Debug)]
pub struct DiffQuery {
    pub from: Option<String>,
    pub to: String,
}

/// The ids a diff request compares: `None` when `to` is not an id (the
/// request is refused); a `from` that is not an id is left out, so that
/// every file of `to` shows as added.
pub fn diff_request_ids(q: &DiffQuery) -> (r: Option<(Option<u128>, u128)>)
    ensures
        uuid_parse(q.to@) is None ==> r is None,
        uuid_parse(q.to@) matches Some(t) ==> r == Some((
            match q.from {
                Some(f) => uuid_parse(f@),
                None => None,
            },
            t,
        )),
{
    let to = match parse_uuid(q.to.clone()) {
        Ok(t) => t,
        Err(_) => return None,
    };
    let from = match &q.from {
        Some(f) => match parse_uuid(f.clone()) {
            Ok(id) => Some(id),
            Err(_) => None,
        },
        None => None,
    };
    Some((from, to))
}

/// `s` without the `/` characters it begins with.
pub open spec fn strip_leading_slashes(s: Seq<char>) -> Seq<char>
    decreases s.len(),
{
    if s.len() > 0 && s[0] == '/' {
        strip_leading_slashes(s.drop_first())
    } else {
        s
    }
}

/// The embedded asset a request path asks for: the path without its
/// leading slashes, and `index.html` for the root.
pub open spec fn asset_path_spec(path: Seq<char>) -> Seq<char> {
    let p = strip_leading_slashes(path);
    if p.len() == 0 {
        "index.html"@
    } else {
        p
    }
}

/// The embedded asset a request path asks for.
pub fn static_asset_path(path: &str) -> (out: String)
    ensures
        out@ == asset_path_spec(path@),
{
    let cs = chars_of(path);
    let mut i: usize = 0;
    assert(cs@.skip(0) =~= cs@);
    while i < cs.len() && cs[i] == '/'
        invariant
            i <= cs@.len(),
            strip_leading_slashes(cs@) == strip_leading_slashes(cs@.skip(i as int)),
        decreases cs@.len() - i,
    {
        assert(cs@.skip(i as int).drop_first() =~= cs@.skip(i + 1));
        i = i + 1;
    }
    if i == cs.len() {
        assert(cs@.skip(i as int).len() == 0);
        return "index.html".to_string();
    }
    let mut out: Vec<char> = Vec::new();
    let mut j: usize = i;
    while j < cs.len()
        invariant
            i <= j <= cs@.len(),
            out@ == cs@.subrange(i as int, j as int),
        decreases cs@.len() - j,
    {
        out.push(cs[j]);
        assert(cs@.subrange(i as int, j + 1) =~= cs@.subrange(i as int, j as int).push(cs@[j as int]));
        j = j + 1;
    }
    assert(cs@.subrange(i as int, cs@.len() as int) =~= cs@.skip(i as int));
    string_of(&out)
}

/// What the tick watcher announces after reading the tick file: the id it
/// holds, without surrounding whitespace, when that is not empty and
/// differs from the last one announced; nothing when the file could not be
/// read.
pub open spec fn tick_news(last: Seq<char>, read: Option<Seq<char>>) -> Option<Seq<char>> {
    match read {
        None => None,
        Some(c) => if trim(c).len() > 0 && trim(c) != last {
            Some(trim(c))
        } else {
            None
        },
    }
}

/// One round of the tick watcher: what to announce, which then becomes the
/// last one announced.
pub fn tick_step(last: &str, read: Option<&str>) -> (r: Option<String>)
    ensures
        r matches Some(t) ==> tick_news(last@, match read { Some(c) => Some(c@), None => None }) == Some(t@),
        r is None ==> tick_news(last@, match read { Some(c) => Some(c@), None => None }) is None,
{
    match read {
        None => None,
        Some(c) => {
            let t = trim_chars(&chars_of(c));
            let l = chars_of(last);
            if t.len() > 0 && !chars_eq(&t, &l) {
                Some(string_of(&t))
            } else {
                None
            }
        },
    }
}

}
