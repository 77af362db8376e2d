//! Short, single-line texts for prompts and titles.
use vstd::prelude::*;
use crate::text::{
    byte_prefix, bytes_len, bytes_len_exceeds, can_shorten, can_shorten_chars, chars_of, collapse_whitespace, collapse_ws, contains_chars,
    contains_seq, ellipsis, find_last_space, last_space, lines_of, prefix_for_bytes, shorten,
    shorten_chars, split_lines, starts_with, starts_with_chars, string_of, strip_markup,
    strip_markup_chars, take_chars, trim, trim_chars, views_of,
};

verus! {

/// Longest text `one_line` keeps before cutting, in bytes.
pub const ONE_LINE_MAX: usize = 140;

/// Longest title `title_from_prompt` keeps before cutting, in bytes.
pub const PROMPT_TITLE_MAX: usize = 60;

/// What `one_line` makes of `v`: whitespace collapsed, cut to 140 bytes with an ellipsis.
pub open spec fn one_line_spec(v: Seq<char>) -> Seq<char> {
    shorten(collapse_ws(v), ONE_LINE_MAX as int)
}

/// `one_line` is defined on `v`: the collapsed text is short, or byte 140 falls between characters.
pub open spec fn one_line_defined(v: Seq<char>) -> bool {
    can_shorten(collapse_ws(v), ONE_LINE_MAX as int)
}

/// What `title_from_prompt` makes of `p`.
pub open spec fn prompt_title_spec(p: Seq<char>) -> Seq<char> {
    let t = one_line_spec(p);
    if t.len() == 0 {
        seq!['p', 'r', 'o', 'm', 'p', 't']
    } else {
        shorten(t, PROMPT_TITLE_MAX as int)
    }
}

/// `title_from_prompt` is defined on `p`.
pub open spec fn prompt_title_defined(p: Seq<char>) -> bool {
    one_line_defined(p) && can_shorten(one_line_spec(p), PROMPT_TITLE_MAX as int)
}

fn one_line_chars(value: &str) -> (out: Vec<char>)
    requires
        one_line_defined(value@),
    ensures
        out@ == one_line_spec(value@),
{
    let cs = chars_of(value);
    let collapsed = collapse_whitespace(&cs);
    shorten_chars(&collapsed, ONE_LINE_MAX)
}

/// The words of `value` joined by single spaces, cut to 140 bytes with `...`.
pub fn one_line(value: &str) -> (out: String)
    requires
        one_line_defined(value@),
    ensures
        out@ == one_line_spec(value@),
{
    let cs = one_line_chars(value);
    string_of(&cs)
}

/// A title for a checkpoint made from its prompt: the prompt on one line,
/// cut to 60 bytes with `...`, or `prompt` when nothing is left.
pub fn title_from_prompt(prompt: &str) -> (out: String)
    requires
        prompt_title_defined(prompt@),
    ensures
        out@ == prompt_title_spec(prompt@),
{
    let line = one_line_chars(prompt);
    if line.len() == 0 {
        let mut out = String::new();
        out.push('p');
        out.push('r');
        out.push('o');
        out.push('m');
        out.push('p');
        out.push('t');
        out
    } else {
        let short = shorten_chars(&line, PROMPT_TITLE_MAX);
        string_of(&short)
    }
}

/// `one_line` where it is defined; `None` where the collapsed text is
/// longer than 140 bytes and byte 140 falls inside a character.
pub fn one_line_checked(value: &str) -> (r: Option<String>)
    ensures
        one_line_defined(value@) ==> (r matches Some(s) && s@ == one_line_spec(value@)),
        !one_line_defined(value@) ==> r is None,
{
    let collapsed = collapse_whitespace(&chars_of(value));
    if can_shorten_chars(&collapsed, ONE_LINE_MAX) {
        Some(one_line(value))
    } else {
        None
    }
}

/// `title_from_prompt` where it is defined; `None` where a cut at byte 140
/// or at byte 60 would fall inside a character.
pub fn title_from_prompt_checked(prompt: &str) -> (r: Option<String>)
    ensures
        prompt_title_defined(prompt@) ==> (r matches Some(s) && s@ == prompt_title_spec(prompt@)),
        !prompt_title_defined(prompt@) ==> r is None,
{
    let collapsed = collapse_whitespace(&chars_of(prompt));
    if !can_shorten_chars(&collapsed, ONE_LINE_MAX) {
        return None;
    }
    let line = one_line_chars(prompt);
    if can_shorten_chars(&line, PROMPT_TITLE_MAX) {
        Some(title_from_prompt(prompt))
    } else {
        None
    }
}

}

verus! {

/// Longest title `title_from_response` keeps before cutting, in bytes.
pub const RESPONSE_TITLE_MAX: usize = 80;

/// Fewest bytes a cleaned line needs to become a title.
pub const RESPONSE_TITLE_MIN: usize = 10;

/// The lower-case form of `s` that `str::to_lowercase` returns.
pub uninterp spec fn unicode_lowercase(s: Seq<char>) -> Seq<char>;

/// Calls `str::to_lowercase`, which maps every character to its Unicode
/// lower-case form; that mapping is not written out here, only named.
#[verifier::external_body]
fn to_lowercase(s: &str) -> (out: String)
    ensures
        out@ == unicode_lowercase(s@),
{
    s.to_lowercase()
}

/// Words that keep a line from becoming a title.
pub open spec fn sensitive_keywords() -> Seq<Seq<char>> {
    seq![
        "secret"@,
        "password"@,
        "token"@,
        "api key"@,
        "api_key"@,
        "credential"@,
        "vulnerability"@,
        "exploit"@,
        "cve"@,
        "private key"@,
        "private_key"@,
        "certificate"@,
        ".env"@,
        "auth"@,
    ]
}

/// `lower` holds one of the sensitive keywords.
pub open spec fn has_keyword(lower: Seq<char>) -> bool {
    exists|i: int| 0 <= i < sensitive_keywords().len() && contains_seq(lower, #[trigger] sensitive_keywords()[i])
}

/// The lower-case form of `t` holds one of the sensitive keywords.
pub open spec fn is_sensitive(t: Seq<char>) -> bool {
    has_keyword(unicode_lowercase(t))
}

/// Whether an already lower-cased text holds one of the sensitive keywords.
pub fn has_sensitive_keyword(lower: &str) -> (b: bool)
    ensures
        b == has_keyword(lower@),
{
    let lower_cs = chars_of(lower);
    let keywords = vec![
        "secret",
        "password",
        "token",
        "api key",
        "api_key",
        "credential",
        "vulnerability",
        "exploit",
        "cve",
        "private key",
        "private_key",
        "certificate",
        ".env",
        "auth",
    ];
    assert(keywords@.len() == sensitive_keywords().len());
    assert(forall|i: int| 0 <= i < keywords@.len() ==> #[trigger] keywords@[i]@ == sensitive_keywords()[i]);
    for i in 0..keywords.len()
        invariant
            lower_cs@ == lower@,
            keywords@.len() == sensitive_keywords().len(),
            forall|j: int| 0 <= j < keywords@.len() ==> #[trigger] keywords@[j]@ == sensitive_keywords()[j],
            forall|j: int| 0 <= j < i ==> !contains_seq(lower@, #[trigger] sensitive_keywords()[j]),
    {
        let k = chars_of(keywords[i]);
        if contains_chars(&lower_cs, &k) {
            return true;
        }
    }
    false
}

/// Whether the lower-case form of `title` holds a sensitive keyword.
fn title_contains_sensitive(title: &str) -> (b: bool)
    ensures
        b == is_sensitive(title@),
{
    let lower = to_lowercase(title);
    has_sensitive_keyword(lower.as_str())
}

}

verus! {

/// A trimmed line that never becomes a title: empty, a code fence, a heading,
/// a quote, a list item or a table row.
pub open spec fn is_skipped_line(l: Seq<char>) -> bool {
    ||| l.len() == 0
    ||| starts_with(l, "```"@)
    ||| l[0] == '#'
    ||| l[0] == '>'
    ||| l[0] == '-'
    ||| l[0] == '|'
}

/// The cleaned text of `line` when it may become a title.
pub open spec fn line_candidate(line: Seq<char>) -> Option<Seq<char>> {
    let l = trim(line);
    if is_skipped_line(l) {
        None
    } else {
        let c = trim(strip_markup(l));
        if bytes_len(c) < RESPONSE_TITLE_MIN || is_sensitive(c) {
            None
        } else {
            Some(c)
        }
    }
}

/// The first line of `ls` that may become a title, cleaned.
pub open spec fn first_candidate(ls: Seq<Seq<char>>) -> Option<Seq<char>>
    decreases ls.len(),
{
    if ls.len() == 0 {
        None
    } else {
        match line_candidate(ls[0]) {
            Some(c) => Some(c),
            None => first_candidate(ls.drop_first()),
        }
    }
}

/// The title made from a candidate line: the line itself, or when longer than
/// 80 bytes its first 80 bytes cut back to the last space, then `...`.
pub open spec fn candidate_title(c: Seq<char>) -> Seq<char> {
    if bytes_len(c) > RESPONSE_TITLE_MAX {
        let t = byte_prefix(c, RESPONSE_TITLE_MAX as int);
        match last_space(t) {
            Some(p) => t.take(p) + ellipsis(),
            None => t + ellipsis(),
        }
    } else {
        c
    }
}

/// What `title_from_response` returns for `r`.
pub open spec fn response_title_spec(r: Seq<char>) -> Option<Seq<char>> {
    match first_candidate(lines_of(r)) {
        Some(c) => Some(candidate_title(c)),
        None => None,
    }
}

/// `title_from_response` is defined on `r`: the chosen line is short, or byte 80 falls between characters.
pub open spec fn response_title_defined(r: Seq<char>) -> bool {
    match first_candidate(lines_of(r)) {
        Some(c) => can_shorten(c, RESPONSE_TITLE_MAX as int),
        None => true,
    }
}

fn candidate_of_line(line: &Vec<char>) -> (r: Option<Vec<char>>)
    ensures
        r matches Some(c) ==> line_candidate(line@) == Some(c@),
        r is None ==> line_candidate(line@) is None,
{
    let l = trim_chars(line);
    if l.len() == 0 || starts_with_chars(&l, "```") || l[0] == '#' || l[0] == '>' || l[0] == '-'
        || l[0] == '|' {
        return None;
    }
    let stripped = strip_markup_chars(&l);
    let clean = trim_chars(&stripped);
    if !bytes_len_exceeds(&clean, RESPONSE_TITLE_MIN - 1) {
        return None;
    }
    let s = string_of(&clean);
    if title_contains_sensitive(s.as_str()) {
        return None;
    }
    Some(clean)
}

fn title_of(c: &Vec<char>) -> (t: Vec<char>)
    requires
        can_shorten(c@, RESPONSE_TITLE_MAX as int),
    ensures
        t@ == candidate_title(c@),
{
    if !bytes_len_exceeds(c, RESPONSE_TITLE_MAX) {
        let mut out: Vec<char> = Vec::new();
        crate::text::push_all(&mut out, c);
        return out;
    }
    let (k, _exact) = prefix_for_bytes(c, RESPONSE_TITLE_MAX);
    let truncated = take_chars(c, k);
    let mut out = match find_last_space(&truncated) {
        Some(pos) => take_chars(&truncated, pos),
        None => truncated,
    };
    out.push('.');
    out.push('.');
    out.push('.');
    proof {
        let t = byte_prefix(c@, RESPONSE_TITLE_MAX as int);
        match last_space(t) {
            Some(p) => {
                assert(out@ =~= t.take(p) + ellipsis());
            },
            None => {
                assert(out@ =~= t + ellipsis());
            },
        }
    }
    out
}

/// The first line of `response` that may become a title, cleaned.
fn first_candidate_of(response: &str) -> (r: Option<Vec<char>>)
    ensures
        r matches Some(c) ==> first_candidate(lines_of(response@)) == Some(c@),
        r is None ==> first_candidate(lines_of(response@)) is None,
{
    let cs = chars_of(response);
    let lines = split_lines(&cs);
    let ghost ls = lines_of(response@);
    assert(ls.skip(0) =~= ls);
    for i in 0..lines.len()
        invariant
            views_of(lines@) == ls,
            ls == lines_of(response@),
            first_candidate(ls) == first_candidate(ls.skip(i as int)),
    {
        proof {
            assert(ls.skip(i as int).drop_first() =~= ls.skip(i + 1));
            assert(ls.skip(i as int)[0] == lines@[i as int]@);
        }
        match candidate_of_line(&lines[i]) {
            Some(c) => {
                return Some(c);
            },
            None => {},
        }
    }
    assert(ls.skip(lines.len() as int) =~= Seq::<Seq<char>>::empty());
    None
}

/// `title_from_response` where it is defined; `None` where the chosen
/// line is longer than 80 bytes and byte 80 falls inside a character.
pub fn title_from_response_checked(response: &str) -> (r: Option<Option<String>>)
    ensures
        response_title_defined(response@) ==> (r matches Some(o) && match o {
            Some(t) => response_title_spec(response@) == Some(t@),
            None => response_title_spec(response@) is None,
        }),
        !response_title_defined(response@) ==> r is None,
{
    match first_candidate_of(response) {
        Some(c) => if can_shorten_chars(&c, RESPONSE_TITLE_MAX) {
            Some(Some(string_of(&title_of(&c))))
        } else {
            None
        },
        None => Some(None),
    }
}

/// A title taken from an agent's response: the first line that is not
/// blank, a code fence, a heading, a quote, a list item or a table row,
/// with emphasis marks removed, at least 10 bytes long and free of
/// sensitive words; cut to about 80 bytes at a space with `...`.
pub fn title_from_response(response: &str) -> (out: Option<String>)
    requires
        response_title_defined(response@),
    ensures
        out matches Some(t) ==> response_title_spec(response@) == Some(t@),
        out is None ==> response_title_spec(response@) is None,
{
    match first_candidate_of(response) {
        Some(c) => Some(string_of(&title_of(&c))),
        None => None,
    }
}

}
