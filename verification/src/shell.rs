//! Shell quoting and the hook command that agents run.
use vstd::prelude::*;
use crate::text::{chars_of, contains_chars, contains_seq, push_str_chars, string_of};

verus! {

/// The characters of `s` with every single quote written as `'\''`.
pub open spec fn quote_escaped(s: Seq<char>) -> Seq<char>
    decreases s.len(),
{
    if s.len() == 0 {
        s
    } else {
        let r = quote_escaped(s.drop_last());
        if s.last() == '\'' {
            r + seq!['\'', '\\', '\'', '\'']
        } else {
            r.push(s.last())
        }
    }
}

/// `s` as one single-quoted POSIX shell word.
pub open spec fn shell_quoted(s: Seq<char>) -> Seq<char> {
    seq!['\''] + quote_escaped(s) + seq!['\'']
}

/// Quotes `value` for a POSIX shell: wrapped in single quotes, each single
/// quote inside written as `'\''`.
pub fn shell_quote(value: &str) -> (out: String)
    ensures
        out@ == shell_quoted(value@),
{
    let cs = chars_of(value);
    let mut out: Vec<char> = Vec::new();
    out.push('\'');
    for i in 0..cs.len()
        invariant
            cs@ == value@,
            out@ == seq!['\''] + quote_escaped(cs@.take(i as int)),
    {
        let c = cs[i];
        assert(cs@.take(i + 1).drop_last() =~= cs@.take(i as int));
        if c == '\'' {
            out.push('\'');
            out.push('\\');
            out.push('\'');
            out.push('\'');
            assert(out@ =~= seq!['\''] + quote_escaped(cs@.take(i + 1)));
        } else {
            out.push(c);
            assert(out@ =~= seq!['\''] + quote_escaped(cs@.take(i + 1)));
        }
    }
    assert(cs@.take(cs.len() as int) =~= cs@);
    out.push('\'');
    string_of(&out)
}

/// Quotes a path, given as its text, for a POSIX shell.
pub fn shell_quote_path(path: &str) -> (out: String)
    ensures
        out@ == shell_quoted(path@),
{
    shell_quote(path)
}

/// The command a hook runs: the `lupe` binary exported as `LUPE_BIN`, then
/// the hook script run with `python3`, both paths quoted.
pub open spec fn hook_command_text(lupe_bin: Seq<char>, script_dest: Seq<char>) -> Seq<char> {
    "LUPE_BIN="@ + shell_quoted(lupe_bin) + " python3 "@ + shell_quoted(script_dest)
}

pub fn hook_command(lupe_bin: &str, script_dest: &str) -> (out: String)
    ensures
        out@ == hook_command_text(lupe_bin@, script_dest@),
{
    let bin = shell_quote_path(lupe_bin);
    let script = shell_quote_path(script_dest);
    let mut cs: Vec<char> = Vec::new();
    push_str_chars(&mut cs, "LUPE_BIN=");
    push_str_chars(&mut cs, bin.as_str());
    push_str_chars(&mut cs, " python3 ");
    push_str_chars(&mut cs, script.as_str());
    string_of(&cs)
}

}

verus! {

/// The first index whose command mentions `lupe`.
pub open spec fn lupe_hook_index(commands: Seq<Option<Seq<char>>>) -> Option<int>
    decreases commands.len(),
{
    if commands.len() == 0 {
        None
    } else if commands[0] matches Some(c) && contains_seq(c, "lupe"@) {
        Some(0)
    } else {
        match lupe_hook_index(commands.drop_first()) {
            Some(i) => Some(i + 1),
            None => None,
        }
    }
}

/// The text of each optional command.
pub open spec fn commands_view(v: Seq<Option<String>>) -> Seq<Option<Seq<char>>> {
    v.map_values(|o: Option<String>| match o {
        Some(s) => Some(s@),
        None => None,
    })
}

/// Which existing hook entry to point at the new command: the first whose
/// command mentions `lupe`; `None` means a new entry is added.
pub fn find_lupe_hook(commands: &Vec<Option<String>>) -> (r: Option<usize>)
    ensures
        r matches Some(i) ==> lupe_hook_index(commands_view(commands@)) == Some(i as int),
        r is None ==> lupe_hook_index(commands_view(commands@)) is None,
{
    let ghost cv = commands_view(commands@);
    let word = chars_of("lupe");
    let n = commands.len();
    let mut i: usize = 0;
    assert(cv.skip(0) =~= cv);
    while i < n
        invariant
            0 <= i <= n,
            n == commands@.len(),
            cv == commands_view(commands@),
            word@ == "lupe"@,
            lupe_hook_index(cv) == match lupe_hook_index(cv.skip(i as int)) {
                Some(k) => Some(k + i),
                None => None::<int>,
            },
        decreases n - i,
    {
        assert(cv.skip(i as int).drop_first() =~= cv.skip(i + 1));
        assert(cv.skip(i as int)[0] == cv[i as int]);
        match &commands[i] {
            Some(c) => {
                let cc = chars_of(c.as_str());
                if contains_chars(&cc, &word) {
                    return Some(i);
                }
            },
            None => {},
        }
        i = i + 1;
    }
    None
}

/// How an agent's hook list is brought to run the lupe hook.
#[derive(Debug)]
pub enum HookEdit {
    /// Point the entry at this index, the first that mentions `lupe`, at
    /// the new command.
    Replace(usize),
    /// Add an entry with the new command at the end of the list.
    Append,
    /// There is no list of stop hooks: make one holding only the new entry.
    CreateList,
}

/// How to install the hook into an agent's settings, given the commands of
/// its stop hooks when they form a list (an entry without a text command
/// counts as `None`).
pub fn hook_edit(stop_commands: Option<Vec<Option<String>>>) -> (r: HookEdit)
    ensures
        stop_commands is None ==> r == HookEdit::CreateList,
        stop_commands matches Some(cs) ==> match lupe_hook_index(commands_view(cs@)) {
            Some(i) => r == HookEdit::Replace(i as usize) && i < cs@.len(),
            None => r == HookEdit::Append,
        },
{
    match stop_commands {
        None => HookEdit::CreateList,
        Some(cs) => match find_lupe_hook(&cs) {
            Some(i) => {
                proof {
                    lemma_lupe_hook_index_in_range(commands_view(cs@));
                }
                HookEdit::Replace(i)
            },
            None => HookEdit::Append,
        },
    }
}

/// How to install the hook into settings that nest stop hooks under a
/// `hooks` object, each stop entry running the command of its first hook.
/// The flag tells whether `hooks` must first be made an empty object: when
/// there is no list of stop hooks and `hooks` is not an object. The edit is
/// the one `hook_edit` chooses over the command of each entry's first hook.
pub fn nested_hook_edit(hooks_is_object: bool, stop_commands: Option<Vec<Option<String>>>) -> (r: (bool, HookEdit))
    ensures
        r.0 == (stop_commands is None && !hooks_is_object),
        stop_commands is None ==> r.1 == HookEdit::CreateList,
        stop_commands matches Some(cs) ==> match lupe_hook_index(commands_view(cs@)) {
            Some(i) => r.1 == HookEdit::Replace(i as usize) && i < cs@.len(),
            None => r.1 == HookEdit::Append,
        },
{
    let reset = stop_commands.is_none() && !hooks_is_object;
    (reset, hook_edit(stop_commands))
}

proof fn lemma_lupe_hook_index_in_range(commands: Seq<Option<Seq<char>>>)
    ensures
        lupe_hook_index(commands) matches Some(i) ==> 0 <= i < commands.len(),
    decreases commands.len(),
{
    if commands.len() > 0 {
        lemma_lupe_hook_index_in_range(commands.drop_first());
    }
}

}

verus! {

/// The value a POSIX shell reads from a word made of single-quoted runs,
/// backslash-escaped characters and plain characters, starting inside a
/// quoted run when `quoted`; `None` when a quote is left open or a
/// backslash ends the word.
pub open spec fn shell_word_value(w: Seq<char>, quoted: bool) -> Option<Seq<char>>
    decreases w.len(),
{
    if w.len() == 0 {
        if quoted {
            None
        } else {
            Some(Seq::empty())
        }
    } else if quoted {
        if w[0] == '\'' {
            shell_word_value(w.drop_first(), false)
        } else {
            match shell_word_value(w.drop_first(), true) {
                Some(r) => Some(seq![w[0]] + r),
                None => None,
            }
        }
    } else if w[0] == '\'' {
        shell_word_value(w.drop_first(), true)
    } else if w[0] == '\\' {
        if w.len() < 2 {
            None
        } else {
            match shell_word_value(w.skip(2), false) {
                Some(r) => Some(seq![w[1]] + r),
                None => None,
            }
        }
    } else {
        match shell_word_value(w.drop_first(), false) {
            Some(r) => Some(seq![w[0]] + r),
            None => None,
        }
    }
}

proof fn lemma_escaped_reads_back(s: Seq<char>, rest: Seq<char>)
    ensures
        shell_word_value(quote_escaped(s) + rest, true) == match shell_word_value(rest, true) {
            Some(r) => Some(s + r),
            None => None::<Seq<char>>,
        },
    decreases s.len(),
{
    if s.len() == 0 {
        assert(quote_escaped(s) + rest =~= rest);
        match shell_word_value(rest, true) {
            Some(r) => {
                assert(s + r =~= r);
            },
            None => {},
        }
    } else {
        let s1 = s.drop_last();
        let c = s.last();
        let tail = if c == '\'' {
            seq!['\'', '\\', '\'', '\'']
        } else {
            seq![c]
        };
        assert(quote_escaped(s) =~= quote_escaped(s1) + tail);
        assert(quote_escaped(s) + rest =~= quote_escaped(s1) + (tail + rest));
        lemma_escaped_reads_back(s1, tail + rest);
        // reading the characters written for `c`, inside a quoted run
        if c == '\'' {
            let w = tail + rest;
            assert(w[0] == '\'');
            assert(w.drop_first() =~= seq!['\\', '\'', '\''] + rest);
            let w1 = w.drop_first();
            assert(w1[0] == '\\');
            assert(w1.skip(2) =~= seq!['\''] + rest);
            let w2 = w1.skip(2);
            assert(w2[0] == '\'');
            assert(w2.drop_first() =~= rest);
            assert(w1[1] == '\'');
            assert(shell_word_value(w2, false) == shell_word_value(rest, true));
            assert(shell_word_value(w, true) == shell_word_value(w1, false));
            assert(shell_word_value(w, true) == match shell_word_value(rest, true) {
                Some(r) => Some(seq![c] + r),
                None => None::<Seq<char>>,
            });
        } else {
            let w = tail + rest;
            assert(w[0] == c);
            assert(w.drop_first() =~= rest);
            assert(shell_word_value(w, true) == match shell_word_value(rest, true) {
                Some(r) => Some(seq![c] + r),
                None => None::<Seq<char>>,
            });
        }
        match shell_word_value(rest, true) {
            Some(r) => {
                assert(s1 + (seq![c] + r) =~= s + r);
            },
            None => {},
        }
    }
}

/// A quoted word reads back as the value that was quoted.
pub proof fn law_shell_quote_reads_back(s: Seq<char>)
    ensures
        shell_word_value(shell_quoted(s), false) == Some(s),
{
    let w = shell_quoted(s);
    assert(w[0] == '\'');
    assert(w.drop_first() =~= quote_escaped(s) + seq!['\'']);
    lemma_escaped_reads_back(s, seq!['\'']);
    let last = seq!['\''];
    assert(last.drop_first() =~= Seq::<char>::empty());
    assert(shell_word_value(last, true) == shell_word_value(Seq::<char>::empty(), false));
    assert(s + Seq::<char>::empty() =~= s);
}

/// `t` with each `'\''` turned back into a single quote, read from the
/// front as a text replacement does.
pub open spec fn unescape_quotes(t: Seq<char>) -> Seq<char>
    decreases t.len(),
{
    if t.len() >= 4 && t.take(4) == seq!['\'', '\\', '\'', '\''] {
        seq!['\''] + unescape_quotes(t.skip(4))
    } else if t.len() == 0 {
        t
    } else {
        seq![t[0]] + unescape_quotes(t.drop_first())
    }
}

/// Escaping distributes over concatenation.
proof fn lemma_quote_escaped_concat(a: Seq<char>, b: Seq<char>)
    ensures
        quote_escaped(a + b) == quote_escaped(a) + quote_escaped(b),
    decreases b.len(),
{
    if b.len() == 0 {
        assert(a + b =~= a);
        assert(quote_escaped(a) + quote_escaped(b) =~= quote_escaped(a));
    } else {
        lemma_quote_escaped_concat(a, b.drop_last());
        assert((a + b).drop_last() =~= a + b.drop_last());
        assert((a + b).last() == b.last());
        if b.last() == '\'' {
            assert(quote_escaped(a + b) =~= quote_escaped(a) + quote_escaped(b));
        } else {
            assert(quote_escaped(a + b) =~= quote_escaped(a) + quote_escaped(b));
        }
    }
}

proof fn lemma_unescape_escaped(s: Seq<char>)
    ensures
        unescape_quotes(quote_escaped(s)) == s,
    decreases s.len(),
{
    if s.len() > 0 {
        let c = s[0];
        let rest = s.drop_first();
        assert(s =~= seq![c] + rest);
        lemma_quote_escaped_concat(seq![c], rest);
        lemma_unescape_escaped(rest);
        assert(seq![c].drop_last() =~= Seq::<char>::empty());
        assert(quote_escaped(seq![c].drop_last()) =~= Seq::<char>::empty());
        assert(seq![c].last() == c);
        let t = quote_escaped(s);
        if c == '\'' {
            assert(quote_escaped(seq![c]) =~= seq!['\'', '\\', '\'', '\'']);
            assert(t.take(4) =~= seq!['\'', '\\', '\'', '\'']);
            assert(t.skip(4) =~= quote_escaped(rest));
        } else {
            assert(quote_escaped(seq![c]) =~= seq![c]);
            assert(t[0] == c);
            assert(t.drop_first() =~= quote_escaped(rest));
            if t.len() >= 4 {
                assert(t.take(4)[0] != '\'');
            }
        }
    }
}

/// Read as text, a quoted word is the value between two single quotes with
/// each of its single quotes written as `'\''`: undoing that gives the
/// value back.
pub proof fn law_shell_quote_unescapes(s: Seq<char>)
    ensures
        shell_quoted(s).len() >= 2,
        shell_quoted(s)[0] == '\'',
        shell_quoted(s).last() == '\'',
        unescape_quotes(shell_quoted(s).subrange(1, shell_quoted(s).len() - 1)) == s,
{
    let q = shell_quoted(s);
    assert(q.subrange(1, q.len() - 1) =~= quote_escaped(s));
    lemma_unescape_escaped(s);
}

}
