//! Rules about a workspace: which paths a snapshot skips, which files hold
//! its settings, and what setup writes into it.
use vstd::prelude::*;
use crate::text::{chars_of, lines_of, push_all, push_str_chars, split_lines, string_of, trim, trim_chars, views_of};
use crate::manifest::strings_view;

verus! {

/// `p` begins with the components of `w`.
pub open spec fn components_prefix(w: Seq<Seq<char>>, p: Seq<Seq<char>>) -> bool {
    w.len() <= p.len() && p.take(w.len() as int) == w
}

/// Whether the text `s` matches the pattern `p`, in which each `*` stands
/// for any run of characters and every other character for itself.
pub open spec fn glob_match(p: Seq<char>, s: Seq<char>) -> bool
    decreases p.len(), s.len(),
{
    if p.len() == 0 {
        s.len() == 0
    } else if p[0] == '*' {
        glob_match(p.drop_first(), s) || (s.len() > 0 && glob_match(p, s.drop_first()))
    } else {
        s.len() > 0 && s[0] == p[0] && glob_match(p.drop_first(), s.drop_first())
    }
}

/// Whether the text `s` matches the pattern `p`, `*` standing for any run
/// of characters.
pub fn glob_matches(p: &Vec<char>, s: &Vec<char>) -> (b: bool)
    ensures
        b == glob_match(p@, s@),
{
    let pn = p.len();
    let sn = s.len();
    // next[k] tells whether the pattern from position i + 1 matches the text
    // from position k; it starts as the row of the empty pattern.
    let mut next: Vec<bool> = Vec::new();
    let mut k: usize = 0;
    while k < sn
        invariant
            k <= sn,
            sn == s@.len(),
            pn == p@.len(),
            next@.len() == k,
            forall|m: int| 0 <= m < k ==> next@[m] == glob_match(p@.skip(pn as int), s@.skip(m)),
        decreases sn - k,
    {
        proof {
            assert(p@.skip(pn as int).len() == 0);
        }
        next.push(false);
        k = k + 1;
    }
    proof {
        assert(s@.skip(sn as int).len() == 0);
        assert(p@.skip(pn as int).len() == 0);
    }
    next.push(true);
    let mut i: usize = pn;
    while i > 0
        invariant
            i <= pn,
            sn == s@.len(),
            pn == p@.len(),
            next@.len() == sn + 1,
            forall|m: int| 0 <= m <= sn ==> next@[m] == glob_match(p@.skip(i as int), s@.skip(m)),
        decreases i,
    {
        i = i - 1;
        let c = p[i];
        proof {
            assert(p@.skip(i as int).len() > 0);
            assert(p@.skip(i as int)[0] == c);
            assert(p@.skip(i as int).drop_first() =~= p@.skip(i + 1));
        }
        let mut cur: Vec<bool> = Vec::new();
        let mut k: usize = 0;
        while k < sn
            invariant
                k <= sn,
                cur@.len() == k,
            decreases sn - k,
        {
            cur.push(false);
            k = k + 1;
        }
        proof {
            assert(s@.skip(sn as int).len() == 0);
        }
        let last = if c == '*' { next[sn] } else { false };
        cur.push(last);
        let mut j: usize = sn;
        while j > 0
            invariant
                j <= sn,
                i < pn,
                c == p@[i as int],
                sn == s@.len(),
                pn == p@.len(),
                cur@.len() == sn + 1,
                next@.len() == sn + 1,
                p@.skip(i as int).len() > 0,
                p@.skip(i as int)[0] == c,
                p@.skip(i as int).drop_first() == p@.skip(i + 1),
                forall|m: int| 0 <= m <= sn ==> next@[m] == glob_match(p@.skip(i + 1), s@.skip(m)),
                forall|m: int| j <= m <= sn ==> cur@[m] == glob_match(p@.skip(i as int), s@.skip(m)),
            decreases j,
        {
            j = j - 1;
            proof {
                assert(s@.skip(j as int).len() > 0);
                assert(s@.skip(j as int)[0] == s@[j as int]);
                assert(s@.skip(j as int).drop_first() =~= s@.skip(j + 1));
            }
            let v = if c == '*' {
                next[j] || cur[j + 1]
            } else {
                s[j] == c && next[j + 1]
            };
            cur.set(j, v);
        }
        next = cur;
    }
    proof {
        assert(p@.skip(0) =~= p@);
        assert(s@.skip(0) =~= s@);
    }
    next[0]
}

/// What `should_skip` decides: a path outside the workspace is skipped, and
/// so is one with a component, below the workspace, that matches an ignore
/// pattern (`*` standing for any run of characters, so `*.map` names every
/// source map).
pub open spec fn skip_spec(workspace: Seq<Seq<char>>, path: Seq<Seq<char>>, ignore: Seq<Seq<char>>) -> bool {
    if !components_prefix(workspace, path) {
        true
    } else {
        exists|i: int, j: int|
            workspace.len() <= i < path.len() && 0 <= j < ignore.len() && #[trigger] glob_match(ignore[j], path[i])
    }
}

/// Whether a snapshot skips `path`. Both paths are given as their components.
pub fn should_skip(workspace: &Vec<String>, path: &Vec<String>, ignore: &Vec<String>) -> (b: bool)
    ensures
        b == skip_spec(strings_view(workspace@), strings_view(path@), strings_view(ignore@)),
        forall|i: int, j: int|
            workspace@.len() <= i < path@.len() && 0 <= j < ignore@.len() && glob_match(
                #[trigger] ignore@[j]@,
                #[trigger] path@[i]@,
            ) ==> b,
{
    let ghost w = strings_view(workspace@);
    let ghost p = strings_view(path@);
    let ghost ig = strings_view(ignore@);
    if workspace.len() > path.len() {
        return true;
    }
    for i in 0..workspace.len()
        invariant
            workspace@.len() <= path@.len(),
            w == strings_view(workspace@),
            p == strings_view(path@),
            forall|k: int| 0 <= k < i ==> p[k] == w[k],
    {
        if workspace[i] != path[i] {
            assert(p.take(w.len() as int)[i as int] != w[i as int]);
            return true;
        }
    }
    assert(p.take(w.len() as int) =~= w);
    let mut i = workspace.len();
    while i < path.len()
        invariant
            workspace@.len() <= i <= path@.len(),
            w == strings_view(workspace@),
            p == strings_view(path@),
            ig == strings_view(ignore@),
            forall|a: int, c: int| workspace@.len() <= a < i && 0 <= c < ig.len() ==> !#[trigger] glob_match(ig[c], p[a]),
        decreases path@.len() - i,
    {
        let component = chars_of(path[i].as_str());
        for j in 0..ignore.len()
            invariant
                workspace@.len() <= i < path@.len(),
                p == strings_view(path@),
                ig == strings_view(ignore@),
                component@ == p[i as int],
                forall|c: int| 0 <= c < j ==> !#[trigger] glob_match(ig[c], p[i as int]),
        {
            let pattern = chars_of(ignore[j].as_str());
            if glob_matches(&pattern, &component) {
                assert(glob_match(ig[j as int], p[i as int]));
                return true;
            }
        }
        i = i + 1;
    }
    proof {
        assert forall|a: int, c: int|
            workspace@.len() <= a < path@.len() && 0 <= c < ignore@.len() implies !glob_match(
                #[trigger] ignore@[c]@,
                #[trigger] path@[a]@,
            ) by {
            assert(ig[c] == ignore@[c]@);
            assert(p[a] == path@[a]@);
        }
    }
    false
}

/// The patterns of a settings file: its lines trimmed, without empty lines
/// and without lines starting with `#`.
pub open spec fn pattern_lines(content: Seq<char>) -> Seq<Seq<char>> {
    lines_of(content).map_values(|l: Seq<char>| trim(l)).filter(|l: Seq<char>| l.len() > 0 && l[0] != '#')
}

/// The patterns listed in a settings file's content.
pub fn parse_pattern_lines(content: &str) -> (out: Vec<String>)
    ensures
        strings_view(out@) == pattern_lines(content@),
{
    let cs = chars_of(content);
    let lines = split_lines(&cs);
    let ghost trimmed = lines_of(content@).map_values(|l: Seq<char>| trim(l));
    let mut out: Vec<String> = Vec::new();
    for i in 0..lines.len()
        invariant
            views_of(lines@) == lines_of(content@),
            trimmed == lines_of(content@).map_values(|l: Seq<char>| trim(l)),
            strings_view(out@) == trimmed.take(i as int).filter(|l: Seq<char>| l.len() > 0 && l[0] != '#'),
    {
        let t = trim_chars(&lines[i]);
        proof {
            assert(views_of(lines@)[i as int] == lines@[i as int]@);
            assert(trimmed.take(i + 1).drop_last() =~= trimmed.take(i as int));
            reveal_with_fuel(Seq::filter, 1);
        }
        let ghost before = strings_view(out@);
        if t.len() > 0 && t[0] != '#' {
            out.push(string_of(&t));
            assert(strings_view(out@) =~= before.push(t@));
        }
    }
    assert(trimmed.take(lines.len() as int) =~= trimmed);
    out
}

/// The patterns a snapshot skips when a workspace has no `.lupeignore`.
pub open spec fn default_ignore_spec() -> Seq<Seq<char>> {
    seq![
        ".git"@,
        ".lupe"@,
        "target"@,
        "node_modules"@,
        ".next"@,
        "dist"@,
        "build"@,
        "out"@,
        ".cache"@,
        ".turbo"@,
        ".vercel"@,
        "__pycache__"@,
        ".venv"@,
        "venv"@,
        "coverage"@,
        "*.map"@,
        "*.pyc"@,
    ]
}

fn to_strings(v: Vec<&str>) -> (out: Vec<String>)
    ensures
        strings_view(out@) == v@.map_values(|s: &str| s@),
{
    let mut out: Vec<String> = Vec::new();
    for i in 0..v.len()
        invariant
            strings_view(out@) == v@.take(i as int).map_values(|s: &str| s@),
    {
        let ghost before = out@;
        let s = string_of(&chars_of(v[i]));
        out.push(s);
        assert(out@ == before.push(s));
        assert(strings_view(out@) =~= strings_view(before).push(s@));
        assert(v@.take(i + 1) =~= v@.take(i as int).push(v@[i as int]));
        assert(strings_view(out@) =~= v@.take(i + 1).map_values(|s: &str| s@));
    }
    assert(v@.take(v.len() as int) =~= v@);
    out
}

/// The patterns to skip: those of the workspace's `.lupeignore` when it
/// could be read (its content given), the default patterns otherwise.
pub fn ignore_patterns(lupeignore: Option<&str>) -> (out: Vec<String>)
    ensures
        strings_view(out@) == match lupeignore {
            Some(c) => pattern_lines(c@),
            None => default_ignore_spec(),
        },
{
    match lupeignore {
        Some(c) => parse_pattern_lines(c),
        None => {
            let v = vec![
                ".git",
                ".lupe",
                "target",
                "node_modules",
                ".next",
                "dist",
                "build",
                "out",
                ".cache",
                ".turbo",
                ".vercel",
                "__pycache__",
                ".venv",
                "venv",
                "coverage",
                "*.map",
                "*.pyc",
            ];
            let out = to_strings(v);
            assert(strings_view(out@) =~= default_ignore_spec());
            out
        },
    }
}

/// The paths to link into new workspaces: those of `.lupeshared` when it
/// could be read (its content given), none otherwise.
pub fn shared_paths(lupeshared: Option<&str>) -> (out: Vec<String>)
    ensures
        strings_view(out@) == match lupeshared {
            Some(c) => pattern_lines(c@),
            None => Seq::<Seq<char>>::empty(),
        },
{
    match lupeshared {
        Some(c) => parse_pattern_lines(c),
        None => {
            let out: Vec<String> = Vec::new();
            assert(strings_view(out@) =~= Seq::<Seq<char>>::empty());
            out
        },
    }
}

/// The branch a workspace routes checkpoints to: the trimmed content of its
/// `.lupe-branch` when it could be read, `main` otherwise.
pub fn workspace_branch(lupe_branch: Option<&str>) -> (out: String)
    ensures
        out@ == match lupe_branch {
            Some(c) => trim(c@),
            None => "main"@,
        },
{
    match lupe_branch {
        Some(c) => string_of(&trim_chars(&chars_of(c))),
        None => {
            string_of(&chars_of("main"))
        },
    }
}

}

verus! {

/// Some line of `content`, trimmed, is `entry`.
pub open spec fn has_line(content: Seq<char>, entry: Seq<char>) -> bool {
    exists|i: int| 0 <= i < lines_of(content).len() && trim(#[trigger] lines_of(content)[i]) == entry
}

/// What `gitignore_update` returns: nothing when `.lupe/` is already listed;
/// otherwise the content with a line break closing its last line, a blank
/// line, a `# Lupe` comment and `.lupe/`.
pub open spec fn gitignore_update_spec(existing: Seq<char>) -> Option<Seq<char>> {
    if has_line(existing, ".lupe/"@) {
        None
    } else {
        let sep = if existing.len() > 0 && existing.last() != '\n' {
            seq!['\n']
        } else {
            Seq::<char>::empty()
        };
        Some(existing + sep + "\n# Lupe\n"@ + ".lupe/"@ + seq!['\n'])
    }
}

/// The new content of a git repository's `.gitignore` so that it lists the
/// store directory, or `None` when it already does.
pub fn gitignore_update(existing: &str) -> (out: Option<String>)
    ensures
        out matches Some(s) ==> gitignore_update_spec(existing@) == Some(s@),
        out is None ==> gitignore_update_spec(existing@) is None,
{
    let cs = chars_of(existing);
    let lines = split_lines(&cs);
    let entry = chars_of(".lupe/");
    for i in 0..lines.len()
        invariant
            views_of(lines@) == lines_of(existing@),
            entry@ == ".lupe/"@,
            forall|j: int| 0 <= j < i ==> trim(#[trigger] lines_of(existing@)[j]) != ".lupe/"@,
    {
        let t = trim_chars(&lines[i]);
        assert(views_of(lines@)[i as int] == lines@[i as int]@);
        if crate::order::chars_eq(&t, &entry) {
            return None;
        }
    }
    let mut out: Vec<char> = Vec::new();
    push_all(&mut out, &cs);
    if cs.len() > 0 && cs[cs.len() - 1] != '\n' {
        out.push('\n');
    }
    push_str_chars(&mut out, "\n# Lupe\n");
    push_str_chars(&mut out, ".lupe/");
    out.push('\n');
    proof {
        let sep = if existing@.len() > 0 && existing@.last() != '\n' {
            seq!['\n']
        } else {
            Seq::<char>::empty()
        };
        assert(out@ =~= existing@ + sep + "\n# Lupe\n"@ + ".lupe/"@ + seq!['\n']);
    }
    Some(string_of(&out))
}

/// The marker that opens the agent workflow section.
pub const AGENT_SECTION_MARKER: &'static str = "<!-- lupe-agent-workflow -->";

/// What follows the marker in the agent workflow section.
pub const AGENT_SECTION_BODY: &'static str = r#"
# Lupe Agent Workflow

Lupe is prompt-driven source control for agents.

## Privacy — MANDATORY

**Before starting ANY task, check `.lupeprivate` if it exists, then check the
user's prompt against it. If any keyword matches, or any file being touched
matches a path pattern — run `lupe private` immediately. No exceptions.**

Built-in triggers — ALWAYS mark private without needing `.lupeprivate`:
- Prompt contains: secret, password, token, api key, credential, vulnerability,
  exploit, CVE, auth, private key, certificate, .env
- Task touches: .env, .env.*, secrets/, *secret*, *credential*, *private_key*
- User says: "don't log this", "keep this private", "sensitive", "confidential"

```bash
lupe private                  # mark current checkpoint private
lupe prompt --private "..."   # create private checkpoint from the start
```

## Project Setup — Do This First

At the start of any session in a new project, check for `.lupeignore`. If missing,
detect the stack and create it.

Detect stack: `package.json` → Node, `Cargo.toml` → Rust, `requirements.txt`/
`pyproject.toml` → Python, `go.mod` → Go, `pom.xml`/`build.gradle` → Java.

`.lupeignore` — what lupe does NOT snapshot. Auto-created on first `lupe prompt`
with generic defaults, but create it early with stack-specific entries
(e.g. `dist`, `.next`, `__pycache__`, `build`).

## Branches — MANDATORY

**Before modifying any file, you MUST create a branch and activate it. No exceptions.**

```bash
lupe branch "fix-login-bug"       # 1. create branch
lupe use fix-login-bug            # 2. REQUIRED: route your checkpoints to it
# ... do work ...
lupe use main                     # 3. switch back when done
```

`lupe use <branch>` writes `.lupe-branch` to the current directory so the
auto-capture hook routes ALL checkpoints (including ones triggered by the
stop hook) to the right branch instead of main. Without this step your
work appears on main in the graph.

Do NOT skip `lupe use` even for "small" changes.

Trying an alternative approach:
1. `lupe branch "<task-name>"` — create branch
2. `lupe use "<task-name>"` — activate it (REQUIRED)
3. Make the change
4. `lupe save "what changed"`
5. If it works: keep going. If not: `lupe restore <branch-name>` to roll back.
6. `lupe use main` — deactivate when done

## Workflow

At the start of every user request that may modify files, run:

```bash
lupe prompt "<full user prompt>"
```

During work, run:

```bash
lupe save "<short description of what changed or now works>"
```

Save after each coherent functional unit, before risky changes, after tests pass,
and before restore/destructive operations.

**Never revert work by editing files manually. Always use `lupe restore`.**

Useful commands:

```bash
lupe history
lupe prompts
lupe branches
lupe graph
lupe search "<topic>"
lupe diff
lupe diff <checkpoint-uuid>
lupe diff <from-uuid> <to-uuid>
lupe restore <checkpoint-uuid-or-branch-name>
lupe branch "name"
lupe use "name"          # activate branch (routes hook checkpoints to it)
lupe use main            # deactivate (back to main)
lupe author
lupe author --name "Name" --email "email"
```

Lupe does not automatically see prompts unless the agent or host calls Lupe.
This file is the contract that tells agents when to call it.
<!-- /lupe-agent-workflow -->
"#;

/// The agent workflow section written into `AGENTS.md`: the marker, then the body.
pub open spec fn agent_section() -> Seq<char> {
    AGENT_SECTION_MARKER@ + AGENT_SECTION_BODY@
}

/// The agent workflow section.
pub fn lupe_agent_section() -> (s: String)
    ensures
        s@ == agent_section(),
{
    let mut cs: Vec<char> = Vec::new();
    push_str_chars(&mut cs, AGENT_SECTION_MARKER);
    push_str_chars(&mut cs, AGENT_SECTION_BODY);
    string_of(&cs)
}

/// The new content of `AGENTS.md` given its current content (`None` when it
/// does not exist): always `None`. Agents learn the workflow from skills,
/// and Lupe never creates or edits instruction files in a project.
pub fn agents_md_update(current: Option<&str>) -> (out: Option<String>)
    ensures
        out is None,
{
    None
}

/// The `.lupeignore` written into a workspace that has none.
pub const DEFAULT_LUPEIGNORE: &'static str = "# Lupe ignore — files and directories lupe will not snapshot\n.git\n.lupe\ntarget\nnode_modules\n.next\ndist\nbuild\nout\n.cache\n.turbo\n.vercel\n__pycache__\n.venv\nvenv\ncoverage\n*.map\n*.pyc\n";

/// The content of a default `.lupeignore`.
pub fn default_lupeignore() -> (s: &'static str)
    ensures
        s@ == DEFAULT_LUPEIGNORE@,
{
    DEFAULT_LUPEIGNORE
}

}

verus! {

/// What `agent_label` returns: the explicit agent, else `LUPE_AGENT`, else
/// the detected tool and the model, separated by `/`. The tool is the agent
/// announced by a variable of its own when there is one, else Cursor when
/// `CURSOR_EDITOR` is set, else `unknown`.
pub open spec fn agent_label_spec(
    override_val: Option<Seq<char>>,
    lupe_agent: Option<Seq<char>>,
    announced: Option<Seq<char>>,
    cursor: bool,
    model: Option<Seq<char>>,
) -> Seq<char> {
    match override_val {
        Some(v) => v,
        None => match lupe_agent {
            Some(v) => v,
            None => {
                let name = match announced {
                    Some(a) => a,
                    None => if cursor {
                        "cursor"@
                    } else {
                        "unknown"@
                    },
                };
                let m = match model {
                    Some(m) => m,
                    None => "unknown"@,
                };
                name + "/"@ + m
            },
        },
    }
}

/// The text of an optional string.
pub open spec fn opt_text(o: Option<String>) -> Option<Seq<char>> {
    match o {
        Some(s) => Some(s@),
        None => None,
    }
}

/// Names the agent that records a checkpoint, from an explicit choice and
/// from what the environment tells: `LUPE_AGENT`, the name of an agent that
/// announces itself through a variable of its own (checked before Cursor),
/// whether `CURSOR_EDITOR` is set, and `LUPE_AGENT_MODEL`.
pub fn agent_label(
    override_val: Option<String>,
    lupe_agent: Option<String>,
    announced: Option<String>,
    cursor: bool,
    model: Option<String>,
) -> (out: String)
    ensures
        out@ == agent_label_spec(
            opt_text(override_val),
            opt_text(lupe_agent),
            opt_text(announced),
            cursor,
            opt_text(model),
        ),
{
    if let Some(v) = override_val {
        return v;
    }
    if let Some(v) = lupe_agent {
        return v;
    }
    let mut out: Vec<char> = Vec::new();
    match &announced {
        Some(a) => push_str_chars(&mut out, a.as_str()),
        None => push_str_chars(&mut out, if cursor {
            "cursor"
        } else {
            "unknown"
        }),
    }
    push_str_chars(&mut out, "/");
    match &model {
        Some(m) => push_str_chars(&mut out, m.as_str()),
        None => push_str_chars(&mut out, "unknown"),
    }
    string_of(&out)
}

/// Among the ancestors of the working directory, nearest first, the first
/// holding a store directory, looking no further than the home directory.
pub open spec fn home_choice(is_home: Seq<bool>, has_store: Seq<bool>) -> Option<int>
    decreases is_home.len(),
{
    if is_home.len() == 0 || has_store.len() == 0 || is_home[0] {
        None
    } else if has_store[0] {
        Some(0)
    } else {
        match home_choice(is_home.drop_first(), has_store.drop_first()) {
            Some(i) => Some(i + 1),
            None => None,
        }
    }
}

/// Which ancestor's store directory to use, given for each ancestor of the
/// working directory (nearest first) whether it is the home directory and
/// whether it holds a store directory; `None` starts a new store in the
/// working directory.
pub fn project_home_choice(is_home: &Vec<bool>, has_store: &Vec<bool>) -> (r: Option<usize>)
    requires
        is_home@.len() == has_store@.len(),
    ensures
        r matches Some(i) ==> home_choice(is_home@, has_store@) == Some(i as int),
        r is None ==> home_choice(is_home@, has_store@) is None,
{
    let n = is_home.len();
    let mut i: usize = 0;
    assert(is_home@.skip(0) =~= is_home@);
    assert(has_store@.skip(0) =~= has_store@);
    while i < n
        invariant
            0 <= i <= n,
            n == is_home@.len(),
            n == has_store@.len(),
            home_choice(is_home@, has_store@) == match home_choice(is_home@.skip(i as int), has_store@.skip(i as int)) {
                Some(k) => Some(k + i),
                None => None::<int>,
            },
        decreases n - i,
    {
        assert(is_home@.skip(i as int).drop_first() =~= is_home@.skip(i + 1));
        assert(has_store@.skip(i as int).drop_first() =~= has_store@.skip(i + 1));
        if is_home[i] {
            return None;
        }
        if has_store[i] {
            return Some(i);
        }
        i = i + 1;
    }
    None
}

}
