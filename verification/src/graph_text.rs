//! The lines of the text graph: one block per checkpoint of the main chain,
//! the changes it made, and the checkpoints of the branches drawn off it.
use vstd::prelude::*;
use crate::colors::{painted, Colors};
use crate::ids::{decimal, decimal_text, id_text, short_id, uuid_hyphenated};
use crate::manifest::{strings_view, DiffView};
use crate::report::{diff_lines, diff_lines_spec};
use crate::text::{
    byte_prefix, bytes_len, bytes_len_exceeds, can_shorten_chars, chars_of, collapse_whitespace, is_boundary,
    lemma_byte_prefix_unique, prefix_for_bytes, push_str_chars, string_of, take_chars,
};
use crate::titles::{one_line, one_line_defined, one_line_spec};

verus! {

/// What the text graph shows of a checkpoint.
#[derive(Clone, Debug)]
pub struct GraphCheckpoint {
    pub id: u128,
    pub title: String,
    pub prompt: Option<String>,
    pub agent: Option<String>,
    pub session_id: Option<String>,
    pub file_count: i64,
    pub root_hash: String,
    pub private: bool,
    pub branch_name: String,
}

/// The decimal text of `n`, with a minus sign when it is negative.
pub open spec fn signed_decimal(n: int) -> Seq<char> {
    if n < 0 {
        "-"@ + decimal((-n) as nat)
    } else {
        decimal(n as nat)
    }
}

/// The decimal text of `n`, with a minus sign when it is negative.
pub fn signed_decimal_text(n: i64) -> (s: String)
    ensures
        s@ == signed_decimal(n as int),
{
    if n < 0 {
        let m: u64 = (0i128 - (n as i128)) as u64;
        let digits = decimal_text(m);
        let mut out: Vec<char> = Vec::new();
        push_str_chars(&mut out, "-");
        push_str_chars(&mut out, digits.as_str());
        string_of(&out)
    } else {
        decimal_text(n as u64)
    }
}

/// The first 12 bytes of a root hash, as the graph shows it.
pub open spec fn root_prefix(r: Seq<char>) -> Seq<char> {
    byte_prefix(r, 12)
}

/// The root hash can be cut at byte 12: it is that long and byte 12 falls
/// between two characters.
pub open spec fn root_prefix_defined(r: Seq<char>) -> bool {
    bytes_len(r) >= 12 && is_boundary(r, 12)
}

/// The first 12 bytes of a root hash, or `None` when it cannot be cut there.
fn root_prefix_text(r: &str) -> (out: Option<String>)
    ensures
        root_prefix_defined(r@) ==> (out matches Some(p) && p@ == root_prefix(r@)),
        !root_prefix_defined(r@) ==> out is None,
{
    let cs = chars_of(r);
    if !bytes_len_exceeds(&cs, 11) {
        return None;
    }
    let (k, exact) = prefix_for_bytes(&cs, 12);
    if !exact {
        return None;
    }
    proof {
        lemma_byte_prefix_unique(cs@, 12, k as int);
    }
    Some(string_of(&take_chars(&cs, k)))
}

/// The text of an optional prompt, empty when there is none.
pub open spec fn prompt_text(p: Option<String>) -> Seq<char> {
    match p {
        Some(s) => s@,
        None => Seq::empty(),
    }
}

/// The prompt line shows the prompt itself rather than `[private]`.
pub open spec fn shows_prompt(c: GraphCheckpoint, show_private: bool) -> bool {
    !c.private || show_private
}

/// The first line of a checkpoint's block: its marker, label, id, time,
/// title, file count and root hash, and `[HEAD]` when HEAD names it.
pub open spec fn header_line(c: GraphCheckpoint, time: Seq<char>, e: bool, is_head: bool, show_private: bool) -> Seq<char> {
    let label = "checkpoint "@ + uuid_hyphenated(c.id).take(8);
    let sym = if c.private { painted(e, "36"@, "◆"@) } else { painted(e, "35;1"@, "◆"@) };
    let cp_label = if c.private { painted(e, "36"@, label) } else { painted(e, "35;1"@, label) };
    let title = if c.private {
        painted(e, "36"@, if show_private { c.title@ } else { "[private]"@ })
    } else {
        painted(e, "1"@, c.title@)
    };
    sym + " "@ + cp_label + " "@ + painted(e, "2"@, "("@ + uuid_hyphenated(c.id) + ")"@) + " "@ + painted(e, "2"@, time)
        + " "@ + title + " files="@ + signed_decimal(c.file_count as int) + " root="@ + root_prefix(c.root_hash@)
        + if is_head { " [HEAD]"@ } else { Seq::<char>::empty() }
}

/// The second line of a checkpoint's block: its prompt on one line, or
/// `[private]` for a private checkpoint shown without its details.
pub open spec fn prompt_line(c: GraphCheckpoint, e: bool, show_private: bool) -> Seq<char> {
    let pipe = if c.private { painted(e, "36"@, "│"@) } else { painted(e, "2"@, "│"@) };
    let label = if c.private { painted(e, "36"@, "prompt:"@) } else { painted(e, "2"@, "prompt:"@) };
    let shown = if shows_prompt(c, show_private) { one_line_spec(prompt_text(c.prompt)) } else { "[private]"@ };
    pipe + " "@ + label + " "@ + shown
}

/// The line naming the agent, and the session when there is one.
pub open spec fn agent_line(agent: Seq<char>, session: Option<Seq<char>>, e: bool) -> Seq<char> {
    painted(e, "2"@, "│"@) + " "@ + painted(e, "2"@, "agent:"@) + " "@ + agent + match session {
        Some(s) => "  "@ + painted(e, "2"@, "session: "@ + s),
        None => Seq::<char>::empty(),
    }
}

/// The text of an optional string.
pub open spec fn opt_seq(o: Option<String>) -> Option<Seq<char>> {
    match o {
        Some(s) => Some(s@),
        None => None,
    }
}

/// The lines of a main-chain checkpoint's block: the header, the prompt,
/// and the agent when the details are shown and there is one.
pub open spec fn checkpoint_lines_spec(c: GraphCheckpoint, time: Seq<char>, e: bool, is_head: bool, show_private: bool) -> Seq<Seq<char>> {
    seq![header_line(c, time, e, is_head, show_private), prompt_line(c, e, show_private)] + match c.agent {
        Some(a) => if shows_prompt(c, show_private) {
            seq![agent_line(a@, opt_seq(c.session_id), e)]
        } else {
            Seq::<Seq<char>>::empty()
        },
        None => Seq::<Seq<char>>::empty(),
    }
}

/// The block can be drawn: the root hash can be cut at byte 12, and a shown
/// prompt can be put on one line.
pub open spec fn checkpoint_lines_defined(c: GraphCheckpoint, show_private: bool) -> bool {
    &&& root_prefix_defined(c.root_hash@)
    &&& shows_prompt(c, show_private) ==> one_line_defined(prompt_text(c.prompt))
}

/// `one_line` of a text, or `None` where it is not defined.
fn one_line_if_defined(s: &str) -> (out: Option<String>)
    ensures
        one_line_defined(s@) ==> (out matches Some(t) && t@ == one_line_spec(s@)),
        !one_line_defined(s@) ==> out is None,
{
    let collapsed = collapse_whitespace(&chars_of(s));
    if can_shorten_chars(&collapsed, 140) {
        Some(one_line(s))
    } else {
        None
    }
}

/// The lines of a main-chain checkpoint's block, given the text of its time;
/// `None` where the block cannot be drawn (see `checkpoint_lines_defined`).
pub fn checkpoint_lines(
    c: &GraphCheckpoint,
    time: &str,
    colors: &Colors,
    is_head: bool,
    show_private: bool,
) -> (out: Option<Vec<String>>)
    ensures
        checkpoint_lines_defined(*c, show_private) ==> (out matches Some(v) && strings_view(v@)
            == checkpoint_lines_spec(*c, time@, colors.enabled, is_head, show_private)),
        !checkpoint_lines_defined(*c, show_private) ==> out is None,
{
    let e = colors.enabled;
    let root = match root_prefix_text(c.root_hash.as_str()) {
        Some(r) => r,
        None => return None,
    };
    let shows = !c.private || show_private;
    let prompt = match &c.prompt {
        Some(p) => p.as_str(),
        None => "",
    };
    proof {
        reveal_strlit("");
        assert(prompt@ == prompt_text(c.prompt));
    }
    let shown: String = if shows {
        match one_line_if_defined(prompt) {
            Some(t) => t,
            None => return None,
        }
    } else {
        "[private]".to_string()
    };
    let short = short_id(c.id);
    let full = id_text(c.id);
    // header
    let mut label_cs: Vec<char> = Vec::new();
    push_str_chars(&mut label_cs, "checkpoint ");
    push_str_chars(&mut label_cs, short.as_str());
    let label = string_of(&label_cs);
    let (sym, cp_label, title) = if c.private {
        let t = if show_private { colors.private_cp(c.title.as_str()) } else { colors.private_cp("[private]") };
        (colors.private_cp("◆"), colors.private_cp(label.as_str()), t)
    } else {
        (colors.checkpoint("◆"), colors.checkpoint(label.as_str()), colors.bold(c.title.as_str()))
    };
    let mut paren: Vec<char> = Vec::new();
    push_str_chars(&mut paren, "(");
    push_str_chars(&mut paren, full.as_str());
    push_str_chars(&mut paren, ")");
    let paren_s = string_of(&paren);
    let id_part = colors.dim(paren_s.as_str());
    let time_part = colors.dim(time);
    let count = signed_decimal_text(c.file_count);
    let mut h: Vec<char> = Vec::new();
    push_str_chars(&mut h, sym.as_str());
    push_str_chars(&mut h, " ");
    push_str_chars(&mut h, cp_label.as_str());
    push_str_chars(&mut h, " ");
    push_str_chars(&mut h, id_part.as_str());
    push_str_chars(&mut h, " ");
    push_str_chars(&mut h, time_part.as_str());
    push_str_chars(&mut h, " ");
    push_str_chars(&mut h, title.as_str());
    push_str_chars(&mut h, " files=");
    push_str_chars(&mut h, count.as_str());
    push_str_chars(&mut h, " root=");
    push_str_chars(&mut h, root.as_str());
    if is_head {
        push_str_chars(&mut h, " [HEAD]");
    }
    proof {
        let hs = header_line(*c, time@, e, is_head, show_private);
        assert(h@ =~= hs);
    }
    // prompt line
    let (pipe, plabel) = if c.private {
        (colors.private_cp("│"), colors.private_cp("prompt:"))
    } else {
        (colors.dim("│"), colors.dim("prompt:"))
    };
    let mut pl: Vec<char> = Vec::new();
    push_str_chars(&mut pl, pipe.as_str());
    push_str_chars(&mut pl, " ");
    push_str_chars(&mut pl, plabel.as_str());
    push_str_chars(&mut pl, " ");
    push_str_chars(&mut pl, shown.as_str());
    assert(pl@ =~= prompt_line(*c, e, show_private));
    let mut out: Vec<String> = Vec::new();
    out.push(string_of(&h));
    out.push(string_of(&pl));
    if shows {
        match &c.agent {
            Some(a) => {
                let bar = colors.dim("│");
                let alabel = colors.dim("agent:");
                let mut al: Vec<char> = Vec::new();
                push_str_chars(&mut al, bar.as_str());
                push_str_chars(&mut al, " ");
                push_str_chars(&mut al, alabel.as_str());
                push_str_chars(&mut al, " ");
                push_str_chars(&mut al, a.as_str());
                match &c.session_id {
                    Some(s) => {
                        let mut st: Vec<char> = Vec::new();
                        push_str_chars(&mut st, "session: ");
                        push_str_chars(&mut st, s.as_str());
                        let st_s = string_of(&st);
                        let painted_s = colors.dim(st_s.as_str());
                        push_str_chars(&mut al, "  ");
                        push_str_chars(&mut al, painted_s.as_str());
                    },
                    None => {},
                }
                assert(al@ =~= agent_line(a@, opt_seq(c.session_id), e));
                out.push(string_of(&al));
            },
            None => {},
        }
    }
    assert(strings_view(out@) =~= checkpoint_lines_spec(*c, time@, e, is_head, show_private));
    Some(out)
}

/// The lines about what a checkpoint changed from its parent: the counts,
/// then the changed paths as `diff_lines` gives them; none when nothing
/// changed.
pub open spec fn change_lines_spec(d: DiffView, e: bool) -> Seq<Seq<char>> {
    if d.added@.len() + d.modified@.len() + d.removed@.len() > 0 {
        seq![
            painted(e, "2"@, "│"@) + " "@ + painted(e, "2"@, "changes:"@) + " +"@ + decimal(d.added@.len()) + " ~"@
                + decimal(d.modified@.len()) + " -"@ + decimal(d.removed@.len()),
        ] + diff_lines_spec(e, d, painted(e, "2"@, "│"@), "  "@)
    } else {
        Seq::empty()
    }
}

/// The lines about what a checkpoint changed from its parent.
pub fn change_lines(diff: &DiffView, colors: &Colors) -> (out: Vec<String>)
    ensures
        strings_view(out@) == change_lines_spec(*diff, colors.enabled),
{
    let e = colors.enabled;
    if diff.added.len() == 0 && diff.modified.len() == 0 && diff.removed.len() == 0 {
        let out: Vec<String> = Vec::new();
        assert(strings_view(out@) =~= Seq::<Seq<char>>::empty());
        return out;
    }
    let bar = colors.dim("│");
    let label = colors.dim("changes:");
    let a = decimal_text(diff.added.len() as u64);
    let m = decimal_text(diff.modified.len() as u64);
    let r = decimal_text(diff.removed.len() as u64);
    let mut l: Vec<char> = Vec::new();
    push_str_chars(&mut l, bar.as_str());
    push_str_chars(&mut l, " ");
    push_str_chars(&mut l, label.as_str());
    push_str_chars(&mut l, " +");
    push_str_chars(&mut l, a.as_str());
    push_str_chars(&mut l, " ~");
    push_str_chars(&mut l, m.as_str());
    push_str_chars(&mut l, " -");
    push_str_chars(&mut l, r.as_str());
    let mut out: Vec<String> = Vec::new();
    out.push(string_of(&l));
    let rest = diff_lines(diff, colors, bar.as_str(), "  ");
    let ghost first = out@;
    let mut i: usize = 0;
    while i < rest.len()
        invariant
            i <= rest@.len(),
            strings_view(out@) == strings_view(first) + strings_view(rest@.take(i as int)),
        decreases rest@.len() - i,
    {
        let ghost before = out@;
        let line = string_of(&chars_of(rest[i].as_str()));
        out.push(line);
        assert(strings_view(out@) =~= strings_view(before).push(rest@[i as int]@));
        assert(strings_view(rest@.take(i + 1)) =~= strings_view(rest@.take(i as int)).push(rest@[i as int]@));
        i = i + 1;
    }
    assert(rest@.take(rest@.len() as int) =~= rest@);
    assert(strings_view(out@) =~= change_lines_spec(*diff, e));
    out
}

/// The lines of one checkpoint of a branch chain: a connecting bar, the
/// checkpoint with the branch name when it starts the chain, and its prompt
/// when it has one. `last_branch` tells that no other branch follows at
/// the same main checkpoint.
pub open spec fn chain_lines_spec(c: GraphCheckpoint, e: bool, last_branch: bool, first: bool) -> Seq<Seq<char>> {
    let bp = if last_branch { " "@ } else { "│"@ };
    let indent = if first { bp + "  "@ } else { bp + "     "@ };
    let connector = if first { "╰─ ◆"@ } else { "   ◆"@ };
    let tag = if first { "branch: "@ + c.branch_name@ + " "@ } else { Seq::<char>::empty() };
    let body = indent + connector + " "@ + tag + uuid_hyphenated(c.id).take(8) + " ("@ + uuid_hyphenated(c.id) + ") "@
        + c.title@ + " files="@ + signed_decimal(c.file_count as int) + " root="@ + root_prefix(c.root_hash@);
    seq![painted(e, "2"@, indent + "│"@), painted(e, "2;33"@, body)] + match c.prompt {
        Some(p) => if p@.len() > 0 {
            seq![painted(e, "2;33"@, indent + "         prompt: "@ + one_line_spec(p@))]
        } else {
            Seq::<Seq<char>>::empty()
        },
        None => Seq::<Seq<char>>::empty(),
    }
}

/// A branch checkpoint can be drawn: its root hash can be cut at byte 12
/// and its prompt put on one line.
pub open spec fn chain_lines_defined(c: GraphCheckpoint) -> bool {
    &&& root_prefix_defined(c.root_hash@)
    &&& one_line_defined(prompt_text(c.prompt))
}

/// The lines of one checkpoint of a branch chain; `None` where it cannot be
/// drawn (see `chain_lines_defined`).
pub fn chain_lines(c: &GraphCheckpoint, colors: &Colors, last_branch: bool, first: bool) -> (out: Option<Vec<String>>)
    ensures
        chain_lines_defined(*c) ==> (out matches Some(v) && strings_view(v@) == chain_lines_spec(*c, colors.enabled, last_branch, first)),
        !chain_lines_defined(*c) ==> out is None,
{
    let e = colors.enabled;
    let root = match root_prefix_text(c.root_hash.as_str()) {
        Some(r) => r,
        None => return None,
    };
    let prompt = match &c.prompt {
        Some(p) => p.as_str(),
        None => "",
    };
    proof {
        reveal_strlit("");
        assert(prompt@ == prompt_text(c.prompt));
    }
    let shown = match one_line_if_defined(prompt) {
        Some(t) => t,
        None => return None,
    };
    let short = short_id(c.id);
    let full = id_text(c.id);
    let mut indent: Vec<char> = Vec::new();
    push_str_chars(&mut indent, if last_branch { " " } else { "│" });
    push_str_chars(&mut indent, if first { "  " } else { "     " });
    let indent_s = string_of(&indent);
    let mut bar: Vec<char> = Vec::new();
    push_str_chars(&mut bar, indent_s.as_str());
    push_str_chars(&mut bar, "│");
    let bar_s = string_of(&bar);
    let mut body: Vec<char> = Vec::new();
    push_str_chars(&mut body, indent_s.as_str());
    push_str_chars(&mut body, if first { "╰─ ◆" } else { "   ◆" });
    push_str_chars(&mut body, " ");
    if first {
        push_str_chars(&mut body, "branch: ");
        push_str_chars(&mut body, c.branch_name.as_str());
        push_str_chars(&mut body, " ");
    }
    push_str_chars(&mut body, short.as_str());
    push_str_chars(&mut body, " (");
    push_str_chars(&mut body, full.as_str());
    push_str_chars(&mut body, ") ");
    push_str_chars(&mut body, c.title.as_str());
    push_str_chars(&mut body, " files=");
    let count = signed_decimal_text(c.file_count);
    push_str_chars(&mut body, count.as_str());
    push_str_chars(&mut body, " root=");
    push_str_chars(&mut body, root.as_str());
    let body_s = string_of(&body);
    let mut out: Vec<String> = Vec::new();
    out.push(colors.dim(bar_s.as_str()));
    out.push(colors.branch(body_s.as_str()));
    proof {
        let bp = if last_branch { " "@ } else { "│"@ };
        let ind = if first { bp + "  "@ } else { bp + "     "@ };
        assert(indent_s@ =~= ind);
        assert(bar_s@ =~= ind + "│"@);
        let tag = if first { "branch: "@ + c.branch_name@ + " "@ } else { Seq::<char>::empty() };
        let connector = if first { "╰─ ◆"@ } else { "   ◆"@ };
        assert(body_s@ =~= ind + connector + " "@ + tag + uuid_hyphenated(c.id).take(8) + " ("@ + uuid_hyphenated(c.id)
            + ") "@ + c.title@ + " files="@ + signed_decimal(c.file_count as int) + " root="@ + root_prefix(c.root_hash@));
    }
    match &c.prompt {
        Some(p) => {
            let pc = chars_of(p.as_str());
            if pc.len() > 0 {
                let mut pl: Vec<char> = Vec::new();
                push_str_chars(&mut pl, indent_s.as_str());
                push_str_chars(&mut pl, "         prompt: ");
                push_str_chars(&mut pl, shown.as_str());
                let pl_s = string_of(&pl);
                out.push(colors.branch(pl_s.as_str()));
            }
        },
        None => {},
    }
    assert(strings_view(out@) =~= chain_lines_spec(*c, e, last_branch, first));
    Some(out)
}

}

verus! {

/// The first line of a listed checkpoint: short id, id, time and title.
pub open spec fn listing_head(id: u128, time: Seq<char>, title: Seq<char>) -> Seq<char> {
    uuid_hyphenated(id).take(8) + " ("@ + uuid_hyphenated(id) + ")  "@ + time + "  "@ + title
}

fn listing_head_text(id: u128, time: &str, title: &str) -> (out: String)
    ensures
        out@ == listing_head(id, time@, title@),
{
    let short = short_id(id);
    let full = id_text(id);
    let mut l: Vec<char> = Vec::new();
    push_str_chars(&mut l, short.as_str());
    push_str_chars(&mut l, " (");
    push_str_chars(&mut l, full.as_str());
    push_str_chars(&mut l, ")  ");
    push_str_chars(&mut l, time);
    push_str_chars(&mut l, "  ");
    push_str_chars(&mut l, title);
    string_of(&l)
}

/// The lines `lupe history` prints for a checkpoint: the heading, the agent
/// when there is one, and the prompt on one line.
pub open spec fn history_lines_spec(c: GraphCheckpoint, time: Seq<char>) -> Seq<Seq<char>> {
    seq![listing_head(c.id, time, c.title@)] + match c.agent {
        Some(a) => seq!["  agent: "@ + a@],
        None => Seq::<Seq<char>>::empty(),
    } + seq!["  prompt: "@ + one_line_spec(prompt_text(c.prompt))]
}

/// The lines `lupe history` prints for a checkpoint; `None` where the
/// prompt cannot be put on one line.
pub fn history_lines(c: &GraphCheckpoint, time: &str) -> (out: Option<Vec<String>>)
    ensures
        one_line_defined(prompt_text(c.prompt)) ==> (out matches Some(v) && strings_view(v@) == history_lines_spec(*c, time@)),
        !one_line_defined(prompt_text(c.prompt)) ==> out is None,
{
    let prompt = match &c.prompt {
        Some(p) => p.as_str(),
        None => "",
    };
    proof {
        reveal_strlit("");
        assert(prompt@ == prompt_text(c.prompt));
    }
    let shown = match one_line_if_defined(prompt) {
        Some(t) => t,
        None => return None,
    };
    let mut out: Vec<String> = Vec::new();
    out.push(listing_head_text(c.id, time, c.title.as_str()));
    match &c.agent {
        Some(a) => {
            let mut l: Vec<char> = Vec::new();
            push_str_chars(&mut l, "  agent: ");
            push_str_chars(&mut l, a.as_str());
            out.push(string_of(&l));
        },
        None => {},
    }
    let mut l: Vec<char> = Vec::new();
    push_str_chars(&mut l, "  prompt: ");
    push_str_chars(&mut l, shown.as_str());
    out.push(string_of(&l));
    assert(strings_view(out@) =~= history_lines_spec(*c, time@));
    Some(out)
}

/// The lines `lupe prompts` prints for a checkpoint: the heading, the agent
/// when there is one, the whole prompt, the response when there is one,
/// and an empty line.
pub open spec fn prompt_lines_spec(c: GraphCheckpoint, response: Option<Seq<char>>, time: Seq<char>) -> Seq<Seq<char>> {
    seq![listing_head(c.id, time, c.title@)] + match c.agent {
        Some(a) => seq!["agent: "@ + a@],
        None => Seq::<Seq<char>>::empty(),
    } + seq!["prompt: "@ + prompt_text(c.prompt)] + match response {
        Some(r) => seq!["response: "@ + r],
        None => Seq::<Seq<char>>::empty(),
    } + seq![Seq::<char>::empty()]
}

/// The lines `lupe prompts` prints for a checkpoint.
pub fn prompt_lines(c: &GraphCheckpoint, response: Option<&str>, time: &str) -> (out: Vec<String>)
    ensures
        strings_view(out@) == prompt_lines_spec(*c, match response { Some(r) => Some(r@), None => None }, time@),
{
    let mut out: Vec<String> = Vec::new();
    out.push(listing_head_text(c.id, time, c.title.as_str()));
    match &c.agent {
        Some(a) => {
            let mut l: Vec<char> = Vec::new();
            push_str_chars(&mut l, "agent: ");
            push_str_chars(&mut l, a.as_str());
            out.push(string_of(&l));
        },
        None => {},
    }
    let mut l: Vec<char> = Vec::new();
    push_str_chars(&mut l, "prompt: ");
    match &c.prompt {
        Some(p) => push_str_chars(&mut l, p.as_str()),
        None => {},
    }
    assert(l@ =~= "prompt: "@ + prompt_text(c.prompt));
    out.push(string_of(&l));
    match response {
        Some(r) => {
            let mut l: Vec<char> = Vec::new();
            push_str_chars(&mut l, "response: ");
            push_str_chars(&mut l, r);
            out.push(string_of(&l));
        },
        None => {},
    }
    let empty: Vec<char> = Vec::new();
    out.push(string_of(&empty));
    assert(strings_view(out@) =~= prompt_lines_spec(*c, match response { Some(r) => Some(r@), None => None }, time@));
    out
}

}
