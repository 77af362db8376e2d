//! Character-level string helpers with specifications.
//!
//! Strings are viewed as sequences of `char`; lengths in bytes are the
//! lengths of their UTF-8 encodings.
use vstd::prelude::*;
use vstd::utf8::*;

verus! {

pub assume_specification[ String::push ](s: &mut String, ch: char)
    ensures
        final(s)@ == old(s)@.push(ch),
;

/// Whether `c` has the Unicode `White_Space` property, which is what
/// `char::is_whitespace` tests: the controls from tab to carriage return,
/// space, next line, no-break space, ogham space mark, the spaces from en
/// quad to hair space, the line and paragraph separators, narrow no-break
/// space, medium mathematical space and ideographic space.
pub open spec fn unicode_whitespace(c: char) -> bool {
    let u = c as u32;
    ||| 0x09 <= u <= 0x0D
    ||| u == 0x20
    ||| u == 0x85
    ||| u == 0xA0
    ||| u == 0x1680
    ||| 0x2000 <= u <= 0x200A
    ||| u == 0x2028
    ||| u == 0x2029
    ||| u == 0x202F
    ||| u == 0x205F
    ||| u == 0x3000
}

/// Whether `c` is whitespace, as `char::is_whitespace` reports it.
pub fn is_whitespace(c: char) -> (b: bool)
    ensures
        b == unicode_whitespace(c),
{
    let u = c as u32;
    (0x09 <= u && u <= 0x0D) || u == 0x20 || u == 0x85 || u == 0xA0 || u == 0x1680 || (0x2000 <= u && u
        <= 0x200A) || u == 0x2028 || u == 0x2029 || u == 0x202F || u == 0x205F || u == 0x3000
}

/// Number of bytes in the UTF-8 encoding of `c`.
pub open spec fn char_width(c: char) -> nat {
    if (c as u32) < 0x80 {
        1
    } else if (c as u32) < 0x800 {
        2
    } else if (c as u32) < 0x10000 {
        3
    } else {
        4
    }
}

/// Number of bytes in the UTF-8 encoding of `s`.
pub open spec fn bytes_len(s: Seq<char>) -> nat
    decreases s.len(),
{
    if s.len() == 0 {
        0
    } else {
        char_width(s[0]) + bytes_len(s.drop_first())
    }
}

/// The byte length used here is that of vstd's UTF-8 encoding.
pub proof fn lemma_bytes_len_is_encoding_len(s: Seq<char>)
    ensures
        bytes_len(s) == encode_utf8(s).len(),
    decreases s.len(),
{
    if s.len() > 0 {
        lemma_bytes_len_is_encoding_len(s.drop_first());
        let c = s[0] as u32;
        char_is_scalar(s[0]);
        assert(encode_scalar(c).len() == char_width(s[0]));
    }
}

pub proof fn lemma_bytes_len_concat(a: Seq<char>, b: Seq<char>)
    ensures
        bytes_len(a + b) == bytes_len(a) + bytes_len(b),
    decreases a.len(),
{
    if a.len() > 0 {
        assert((a + b).drop_first() =~= a.drop_first() + b);
        lemma_bytes_len_concat(a.drop_first(), b);
    } else {
        assert(a + b =~= b);
    }
}

pub proof fn lemma_bytes_len_push(a: Seq<char>, c: char)
    ensures
        bytes_len(a.push(c)) == bytes_len(a) + char_width(c),
{
    assert(a.push(c) =~= a + seq![c]);
    lemma_bytes_len_concat(a, seq![c]);
    assert(seq![c].drop_first() =~= Seq::<char>::empty());
    reveal_with_fuel(bytes_len, 2);
}

/// `n` bytes into `s` falls between two characters (or at an end).
pub open spec fn is_boundary(s: Seq<char>, n: int) -> bool {
    exists|k: int| 0 <= k <= s.len() && #[trigger] bytes_len(s.take(k)) == n
}

/// The characters of `s` that make up its first `n` bytes, when `n` is a boundary.
pub open spec fn byte_prefix(s: Seq<char>, n: int) -> Seq<char> {
    s.take(choose|k: int| 0 <= k <= s.len() && #[trigger] bytes_len(s.take(k)) == n)
}

pub proof fn lemma_bytes_len_take_mono(s: Seq<char>, i: int, j: int)
    requires
        0 <= i <= j <= s.len(),
    ensures
        bytes_len(s.take(i)) <= bytes_len(s.take(j)),
        i < j ==> bytes_len(s.take(i)) < bytes_len(s.take(j)),
    decreases j - i,
{
    if i < j {
        lemma_bytes_len_take_mono(s, i, j - 1);
        assert(s.take(j) =~= s.take(j - 1).push(s[j - 1]));
        lemma_bytes_len_push(s.take(j - 1), s[j - 1]);
    }
}

/// The boundary index is unique, so `byte_prefix` is the prefix found by any witness.
pub proof fn lemma_byte_prefix_unique(s: Seq<char>, n: int, k: int)
    requires
        0 <= k <= s.len(),
        bytes_len(s.take(k)) == n,
    ensures
        is_boundary(s, n),
        byte_prefix(s, n) == s.take(k),
{
    let k2 = choose|k: int| 0 <= k <= s.len() && #[trigger] bytes_len(s.take(k)) == n;
    if k2 < k {
        lemma_bytes_len_take_mono(s, k2, k);
    } else if k < k2 {
        lemma_bytes_len_take_mono(s, k, k2);
    }
}

/// Byte width of a character, computed.
pub fn width_of(c: char) -> (w: usize)
    ensures
        w == char_width(c),
{
    let u = c as u32;
    if u < 0x80 {
        1
    } else if u < 0x800 {
        2
    } else if u < 0x10000 {
        3
    } else {
        4
    }
}

/// The characters of `s`, in order.
pub fn chars_of(s: &str) -> (out: Vec<char>)
    ensures
        out@ == s@,
{
    let mut out: Vec<char> = Vec::new();
    for c in it: s.chars()
        invariant
            out@ == it.seq().take(it.index() as int),
    {
        out.push(c);
    }
    out
}

/// A string holding exactly the given characters.
pub fn string_of(cs: &Vec<char>) -> (s: String)
    ensures
        s@ == cs@,
{
    let mut s = String::new();
    for i in 0..cs.len()
        invariant
            s@ == cs@.take(i as int),
    {
        s.push(cs[i]);
        assert(cs@.take(i + 1) == cs@.take(i as int).push(cs@[i as int]));
    }
    assert(cs@.take(cs.len() as int) == cs@);
    s
}

/// Appends the characters of `t` to `out`.
pub fn push_all(out: &mut Vec<char>, t: &Vec<char>)
    ensures
        final(out)@ == old(out)@ + t@,
{
    let ghost start = out@;
    for i in 0..t.len()
        invariant
            out@ == start + t@.take(i as int),
    {
        out.push(t[i]);
        assert(t@.take(i + 1) == t@.take(i as int).push(t@[i as int]));
    }
    assert(t@.take(t.len() as int) == t@);
}

/// Appends the characters of the string `t` to `out`.
pub fn push_str_chars(out: &mut Vec<char>, t: &str)
    ensures
        final(out)@ == old(out)@ + t@,
{
    let cs = chars_of(t);
    push_all(out, &cs);
}

/// Number of leading characters of `s` whose UTF-8 encoding fits in `n` bytes,
/// and whether those bytes are exactly `n`.
pub fn prefix_for_bytes(s: &Vec<char>, n: usize) -> (res: (usize, bool))
    ensures
        res.0 <= s@.len(),
        bytes_len(s@.take(res.0 as int)) <= n,
        res.1 <==> bytes_len(s@.take(res.0 as int)) == n,
        res.0 < s@.len() ==> bytes_len(s@.take(res.0 as int)) + char_width(s@[res.0 as int]) > n,
        res.1 ==> byte_prefix(s@, n as int) == s@.take(res.0 as int),
        is_boundary(s@, n as int) ==> res.1,
{
    let mut k: usize = 0;
    let mut used: usize = 0;
    let mut full = false;
    while k < s.len() && !full
        invariant
            k <= s@.len(),
            used <= n,
            used == bytes_len(s@.take(k as int)),
            full ==> k < s@.len() && used + char_width(s@[k as int]) > n,
        decreases s@.len() - k, if full { 0int } else { 1int },
    {
        let w = width_of(s[k]);
        if w > n - used {
            full = true;
        } else {
            proof {
                assert(s@.take(k + 1) =~= s@.take(k as int).push(s@[k as int]));
                lemma_bytes_len_push(s@.take(k as int), s@[k as int]);
            }
            used = used + w;
            k = k + 1;
        }
    }
    proof {
        if used == n {
            lemma_byte_prefix_unique(s@, n as int, k as int);
        }
        if is_boundary(s@, n as int) {
            let k2 = choose|k2: int| 0 <= k2 <= s@.len() && #[trigger] bytes_len(s@.take(k2)) == n;
            if k2 > k {
                lemma_bytes_len_take_mono(s@, k as int + 1, k2);
                assert(s@.take(k + 1) =~= s@.take(k as int).push(s@[k as int]));
                lemma_bytes_len_push(s@.take(k as int), s@[k as int]);
            } else if k2 < k {
                lemma_bytes_len_take_mono(s@, k2, k as int);
            }
        }
    }
    (k, used == n)
}

}

verus! {

/// `s` with every run of whitespace collapsed to one space and no whitespace
/// at either end: the words of `s` joined by single spaces.
pub open spec fn collapse_ws(s: Seq<char>) -> Seq<char>
    decreases s.len(),
{
    if s.len() == 0 {
        Seq::empty()
    } else {
        let r = collapse_ws(s.drop_last());
        let c = s.last();
        if unicode_whitespace(c) {
            r
        } else if s.len() >= 2 && unicode_whitespace(s[s.len() - 2]) && r.len() > 0 {
            r.push(' ').push(c)
        } else {
            r.push(c)
        }
    }
}

/// Collapses whitespace as `split_whitespace` followed by `join(" ")` does.
pub fn collapse_whitespace(cs: &Vec<char>) -> (out: Vec<char>)
    ensures
        out@ == collapse_ws(cs@),
{
    let mut out: Vec<char> = Vec::new();
    let mut prev_ws = false;
    for i in 0..cs.len()
        invariant
            out@ == collapse_ws(cs@.take(i as int)),
            i > 0 ==> prev_ws == unicode_whitespace(cs@[i - 1]),
    {
        let c = cs[i];
        let ws = is_whitespace(c);
        let ghost p = cs@.take(i + 1);
        proof {
            assert(p.drop_last() =~= cs@.take(i as int));
            assert(p.last() == c);
        }
        if !ws {
            if i > 0 && prev_ws && out.len() > 0 {
                out.push(' ');
            }
            out.push(c);
        }
        prev_ws = ws;
    }
    assert(cs@.take(cs.len() as int) =~= cs@);
    out
}

/// `s` without leading whitespace.
pub open spec fn trim_start(s: Seq<char>) -> Seq<char>
    decreases s.len(),
{
    if s.len() > 0 && unicode_whitespace(s[0]) {
        trim_start(s.drop_first())
    } else {
        s
    }
}

/// `s` without trailing whitespace.
pub open spec fn trim_end(s: Seq<char>) -> Seq<char>
    decreases s.len(),
{
    if s.len() > 0 && unicode_whitespace(s.last()) {
        trim_end(s.drop_last())
    } else {
        s
    }
}

/// `s` without whitespace at either end, as `str::trim` leaves it.
pub open spec fn trim(s: Seq<char>) -> Seq<char> {
    trim_end(trim_start(s))
}

proof fn lemma_trim_start_skip(s: Seq<char>, i: int)
    requires
        0 <= i <= s.len(),
        forall|j: int| 0 <= j < i ==> unicode_whitespace(#[trigger] s[j]),
    ensures
        trim_start(s) == trim_start(s.skip(i)),
    decreases i,
{
    if i > 0 {
        assert(s.skip(i) =~= s.drop_first().skip(i - 1));
        lemma_trim_start_skip(s.drop_first(), i - 1);
    } else {
        assert(s.skip(0) =~= s);
    }
}

proof fn lemma_trim_end_take(s: Seq<char>, i: int)
    requires
        0 <= i <= s.len(),
        forall|j: int| i <= j < s.len() ==> unicode_whitespace(#[trigger] s[j]),
    ensures
        trim_end(s) == trim_end(s.take(i)),
    decreases s.len() - i,
{
    if i < s.len() {
        assert(s.drop_last().take(i) =~= s.take(i));
        lemma_trim_end_take(s.drop_last(), i);
    } else {
        assert(s.take(i) =~= s);
    }
}

/// `cs` without whitespace at either end.
pub fn trim_chars(cs: &Vec<char>) -> (out: Vec<char>)
    ensures
        out@ == trim(cs@),
{
    let mut start: usize = 0;
    while start < cs.len() && is_whitespace(cs[start])
        invariant
            start <= cs.len(),
            forall|j: int| 0 <= j < start ==> unicode_whitespace(#[trigger] cs@[j]),
        decreases cs.len() - start,
    {
        start = start + 1;
    }
    proof {
        lemma_trim_start_skip(cs@, start as int);
    }
    let ghost t = cs@.skip(start as int);
    assert(trim_start(t) == t);
    let mut end: usize = cs.len();
    while end > start && is_whitespace(cs[end - 1])
        invariant
            start <= end <= cs.len(),
            forall|j: int| end <= j < cs.len() ==> unicode_whitespace(#[trigger] cs@[j]),
        decreases end,
    {
        end = end - 1;
    }
    proof {
        lemma_trim_end_take(t, end - start);
        assert(t.take(end - start) =~= cs@.subrange(start as int, end as int));
    }
    let mut out: Vec<char> = Vec::new();
    for i in start..end
        invariant
            end <= cs.len(),
            out@ == cs@.subrange(start as int, i as int),
    {
        out.push(cs[i]);
        assert(cs@.subrange(start as int, i + 1) =~= cs@.subrange(start as int, i as int).push(cs@[i as int]));
    }
    out
}

/// The first `k` characters of `cs`.
pub fn take_chars(cs: &Vec<char>, k: usize) -> (out: Vec<char>)
    requires
        k <= cs.len(),
    ensures
        out@ == cs@.take(k as int),
{
    let mut out: Vec<char> = Vec::new();
    for i in 0..k
        invariant
            k <= cs.len(),
            out@ == cs@.take(i as int),
    {
        out.push(cs[i]);
        assert(cs@.take(i + 1) =~= cs@.take(i as int).push(cs@[i as int]));
    }
    out
}

/// The three dots that mark a shortened text.
pub open spec fn ellipsis() -> Seq<char> {
    seq!['.', '.', '.']
}

/// `s` cut to its first `n` bytes followed by an ellipsis when it is longer
/// than `n` bytes; `s` itself otherwise.
pub open spec fn shorten(s: Seq<char>, n: int) -> Seq<char> {
    if bytes_len(s) > n {
        byte_prefix(s, n) + ellipsis()
    } else {
        s
    }
}

/// Cutting `s` at byte `n` is defined: it is short enough, or `n` falls between characters.
pub open spec fn can_shorten(s: Seq<char>, n: int) -> bool {
    bytes_len(s) > n ==> is_boundary(s, n)
}

/// `cs` shortened to `n` bytes with an ellipsis, as `format!("{}...", &s[..n])` does.
pub fn shorten_chars(cs: &Vec<char>, n: usize) -> (out: Vec<char>)
    requires
        can_shorten(cs@, n as int),
    ensures
        out@ == shorten(cs@, n as int),
{
    let (k, exact) = prefix_for_bytes(cs, n);
    if k < cs.len() {
        proof {
            lemma_bytes_len_take_mono(cs@, k + 1, cs@.len() as int);
            assert(cs@.take(k + 1) =~= cs@.take(k as int).push(cs@[k as int]));
            lemma_bytes_len_push(cs@.take(k as int), cs@[k as int]);
            assert(cs@.take(cs@.len() as int) =~= cs@);
        }
        let mut out = take_chars(cs, k);
        out.push('.');
        out.push('.');
        out.push('.');
        assert(out@ =~= byte_prefix(cs@, n as int) + ellipsis());
        out
    } else {
        assert(cs@.take(k as int) =~= cs@);
        let mut out: Vec<char> = Vec::new();
        push_all(&mut out, cs);
        out
    }
}

}

verus! {

/// `p` is a prefix of `s`.
pub open spec fn starts_with(s: Seq<char>, p: Seq<char>) -> bool {
    p.len() <= s.len() && s.take(p.len() as int) == p
}

/// `n` occurs in `h` as a contiguous run of characters.
pub open spec fn contains_seq(h: Seq<char>, n: Seq<char>) -> bool {
    exists|i: int| 0 <= i && i + n.len() <= h.len() && #[trigger] h.subrange(i, i + n.len()) == n
}

/// Whether `p` is a prefix of `cs`.
pub fn starts_with_chars(cs: &Vec<char>, p: &str) -> (b: bool)
    ensures
        b == starts_with(cs@, p@),
{
    let pc = chars_of(p);
    if pc.len() > cs.len() {
        return false;
    }
    let mut i: usize = 0;
    while i < pc.len()
        invariant
            pc@ == p@,
            pc.len() <= cs.len(),
            i <= pc.len(),
            forall|j: int| 0 <= j < i ==> cs@[j] == pc@[j],
        decreases pc.len() - i,
    {
        if cs[i] != pc[i] {
            assert(cs@.take(pc.len() as int)[i as int] == cs@[i as int]);
            assert(cs@.take(pc.len() as int) != pc@);
            return false;
        }
        i = i + 1;
    }
    assert(cs@.take(pc.len() as int) =~= pc@);
    true
}

/// Whether `n` occurs in `h`.
pub fn contains_chars(h: &Vec<char>, n: &Vec<char>) -> (b: bool)
    ensures
        b == contains_seq(h@, n@),
{
    if n.len() > h.len() {
        return false;
    }
    if n.len() == 0 {
        assert(h@.subrange(0int, 0int + n@.len()) =~= n@);
        return true;
    }
    let last = h.len() - n.len();
    let mut i: usize = 0;
    while i <= last
        invariant
            last == h.len() - n.len(),
            0 < n.len() <= h.len(),
            forall|k: int| 0 <= k < i ==> #[trigger] h@.subrange(k, k + n@.len()) != n@,
        decreases last + 1 - i,
    {
        let mut j: usize = 0;
        let mut same = true;
        while j < n.len() && same
            invariant
                i <= last,
                last == h.len() - n.len(),
                j <= n.len(),
                same ==> forall|m: int| 0 <= m < j ==> h@[i + m] == n@[m],
                !same ==> h@.subrange(i as int, i + n@.len()) != n@,
            decreases n.len() - j, if same { 1int } else { 0int },
        {
            if h[i + j] != n[j] {
                assert(h@.subrange(i as int, i + n@.len())[j as int] != n@[j as int]);
                same = false;
            } else {
                j = j + 1;
            }
        }
        if same {
            assert(h@.subrange(i as int, i + n@.len()) =~= n@);
            return true;
        }
        i = i + 1;
    }
    assert forall|k: int| 0 <= k && k + n@.len() <= h@.len() implies #[trigger] h@.subrange(k, k + n@.len()) != n@ by {
        assert(k < i);
    }
    false
}

}

verus! {

/// The pieces of `s` between line feeds; there is one more piece than there are line feeds.
pub open spec fn nl_pieces(s: Seq<char>) -> Seq<Seq<char>>
    decreases s.len(),
{
    if s.len() == 0 {
        seq![Seq::empty()]
    } else {
        let r = nl_pieces(s.drop_last());
        if s.last() == '\n' {
            r.push(Seq::empty())
        } else {
            r.drop_last().push(r.last().push(s.last()))
        }
    }
}

pub proof fn lemma_nl_pieces_nonempty(s: Seq<char>)
    ensures
        nl_pieces(s).len() >= 1,
    decreases s.len(),
{
    if s.len() > 0 {
        lemma_nl_pieces_nonempty(s.drop_last());
    }
}

/// `l` without one trailing carriage return.
pub open spec fn strip_cr(l: Seq<char>) -> Seq<char> {
    if l.len() > 0 && l.last() == '\r' {
        l.drop_last()
    } else {
        l
    }
}

/// The lines of `s` as `str::lines` yields them: split at line feeds, a
/// carriage return before a line feed dropped, and no empty last line.
pub open spec fn lines_of(s: Seq<char>) -> Seq<Seq<char>> {
    let p = nl_pieces(s);
    let done = p.drop_last().map_values(|l: Seq<char>| strip_cr(l));
    if p.last().len() > 0 {
        done.push(p.last())
    } else {
        done
    }
}

fn strip_cr_chars(l: Vec<char>) -> (out: Vec<char>)
    ensures
        out@ == strip_cr(l@),
{
    let mut l = l;
    if l.len() > 0 && l[l.len() - 1] == '\r' {
        l.pop();
    }
    l
}

/// The character sequences held by `v`.
pub open spec fn views_of(v: Seq<Vec<char>>) -> Seq<Seq<char>> {
    v.map_values(|x: Vec<char>| x@)
}

/// The lines of `cs`, as `str::lines` yields them.
pub fn split_lines(cs: &Vec<char>) -> (out: Vec<Vec<char>>)
    ensures
        views_of(out@) == lines_of(cs@),
{
    let mut done: Vec<Vec<char>> = Vec::new();
    let mut cur: Vec<char> = Vec::new();
    for i in 0..cs.len()
        invariant
            nl_pieces(cs@.take(i as int)).len() >= 1,
            views_of(done@) == nl_pieces(cs@.take(i as int)).drop_last().map_values(
                |l: Seq<char>| strip_cr(l),
            ),
            cur@ == nl_pieces(cs@.take(i as int)).last(),
    {
        let ghost before = cs@.take(i as int);
        proof {
            assert(cs@.take(i + 1).drop_last() =~= before);
            lemma_nl_pieces_nonempty(cs@.take(i + 1));
        }
        let c = cs[i];
        let ghost done_before = done@;
        let ghost cur_before = cur@;
        if c == '\n' {
            let mut line: Vec<char> = Vec::new();
            std::mem::swap(&mut line, &mut cur);
            let line = strip_cr_chars(line);
            done.push(line);
            proof {
                let p = nl_pieces(cs@.take(i + 1));
                assert(p == nl_pieces(before).push(Seq::empty()));
                assert(p.drop_last() =~= nl_pieces(before));
                let q = nl_pieces(before);
                assert(done@ == done_before.push(line));
                assert(views_of(done@) =~= views_of(done_before).push(line@));
                assert(q =~= q.drop_last().push(q.last()));
                assert(q.map_values(|l: Seq<char>| strip_cr(l)) =~= q.drop_last().map_values(
                    |l: Seq<char>| strip_cr(l),
                ).push(strip_cr(q.last())));
                assert(views_of(done@) =~= p.drop_last().map_values(|l: Seq<char>| strip_cr(l)));
            }
        } else {
            cur.push(c);
            proof {
                let p = nl_pieces(cs@.take(i + 1));
                assert(p.drop_last() =~= nl_pieces(before).drop_last());
            }
        }
    }
    assert(cs@.take(cs.len() as int) =~= cs@);
    if cur.len() > 0 {
        done.push(cur);
        assert(views_of(done@) =~= lines_of(cs@));
    }
    done
}

/// `s` without the characters `*`, `_` and backquote.
pub open spec fn strip_markup(s: Seq<char>) -> Seq<char>
    decreases s.len(),
{
    if s.len() == 0 {
        s
    } else {
        let r = strip_markup(s.drop_last());
        let c = s.last();
        if c == '*' || c == '_' || c == '`' {
            r
        } else {
            r.push(c)
        }
    }
}

/// Removes emphasis and code marks, as replacing `**`, `*`, `_` and backquote by nothing does.
pub fn strip_markup_chars(cs: &Vec<char>) -> (out: Vec<char>)
    ensures
        out@ == strip_markup(cs@),
{
    let mut out: Vec<char> = Vec::new();
    for i in 0..cs.len()
        invariant
            out@ == strip_markup(cs@.take(i as int)),
    {
        let c = cs[i];
        assert(cs@.take(i + 1).drop_last() =~= cs@.take(i as int));
        if !(c == '*' || c == '_' || c == '`') {
            out.push(c);
        }
    }
    assert(cs@.take(cs.len() as int) =~= cs@);
    out
}

/// Index of the last space in `s`, if any.
pub open spec fn last_space(s: Seq<char>) -> Option<int>
    decreases s.len(),
{
    if s.len() == 0 {
        None
    } else if s.last() == ' ' {
        Some(s.len() - 1)
    } else {
        last_space(s.drop_last())
    }
}

/// Finds the last space in `cs`.
pub fn find_last_space(cs: &Vec<char>) -> (r: Option<usize>)
    ensures
        r matches Some(p) ==> last_space(cs@) == Some(p as int) && p < cs@.len(),
        r is None ==> last_space(cs@) is None,
{
    let mut i = cs.len();
    assert(cs@.take(i as int) =~= cs@);
    while i > 0
        invariant
            i <= cs.len(),
            last_space(cs@) == last_space(cs@.take(i as int)),
        decreases i,
    {
        assert(cs@.take(i as int).drop_last() =~= cs@.take(i - 1));
        if cs[i - 1] == ' ' {
            return Some(i - 1);
        }
        i = i - 1;
    }
    None
}

}

verus! {

/// Whether cutting `cs` at byte `n` is defined: it is no longer than `n`
/// bytes, or byte `n` falls between two characters.
pub fn can_shorten_chars(cs: &Vec<char>, n: usize) -> (b: bool)
    ensures
        b == can_shorten(cs@, n as int),
{
    if !bytes_len_exceeds(cs, n) {
        return true;
    }
    let (k, exact) = prefix_for_bytes(cs, n);
    proof {
        if exact {
            lemma_byte_prefix_unique(cs@, n as int, k as int);
        }
    }
    exact
}

/// Whether the UTF-8 encoding of `cs` is longer than `n` bytes.
pub fn bytes_len_exceeds(cs: &Vec<char>, n: usize) -> (b: bool)
    ensures
        b == (bytes_len(cs@) > n),
{
    let (k, _exact) = prefix_for_bytes(cs, n);
    proof {
        assert(cs@.take(cs@.len() as int) =~= cs@);
        if k < cs.len() {
            lemma_bytes_len_take_mono(cs@, k + 1, cs@.len() as int);
            assert(cs@.take(k + 1) =~= cs@.take(k as int).push(cs@[k as int]));
            lemma_bytes_len_push(cs@.take(k as int), cs@[k as int]);
        }
    }
    k < cs.len()
}

}

verus! {

pub proof fn lemma_contains_push<A>(s: Seq<A>, x: A, p: A)
    ensures
        s.push(x).contains(p) <==> (s.contains(p) || p == x),
{
    if s.contains(p) {
        let i = choose|i: int| 0 <= i < s.len() && s[i] == p;
        assert(s.push(x)[i] == p);
    }
    if p == x {
        assert(s.push(x)[s.len() as int] == p);
    }
    if s.push(x).contains(p) {
        let i = choose|i: int| 0 <= i < s.push(x).len() && s.push(x)[i] == p;
        if i < s.len() {
            assert(s[i] == p);
        }
    }
}

}
