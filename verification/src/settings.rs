//! The store's own settings: where the store lives, who authors the
//! checkpoints, and the isolated workspaces it has set up.
use vstd::prelude::*;
use crate::keyed::{distinct_keys, keys_of, same_items, sort_by_text_key, TextKeyed};
use crate::order::strictly_sorted;
use crate::snapshot::{join_path, joined_path};
use crate::text::{chars_of, push_str_chars, string_of, trim, trim_chars};
use crate::workspace::{home_choice, project_home_choice};

verus! {

/// The author recorded on checkpoints, as far as it is configured.
#[derive(Clone, Debug)]
pub struct AuthorConfig {
    pub name: Option<String>,
    pub email: Option<String>,
}

impl Default for AuthorConfig {
    fn default() -> (a: Self)
        ensures
            a.name is None,
            a.email is None,
    {
        AuthorConfig { name: None, email: None }
    }
}

/// The text of an optional string.
pub open spec fn text_of(o: Option<String>) -> Option<Seq<char>> {
    match o {
        Some(s) => Some(s@),
        None => None,
    }
}

/// The author after `lupe author`: each part given replaces the one
/// configured. The flag tells whether anything was given, and so whether the
/// configuration is written back.
pub fn author_update(author: AuthorConfig, name: Option<String>, email: Option<String>) -> (r: (AuthorConfig, bool))
    ensures
        r.1 == (name is Some || email is Some),
        text_of(r.0.name) == if name is Some { text_of(name) } else { text_of(author.name) },
        text_of(r.0.email) == if email is Some { text_of(email) } else { text_of(author.email) },
{
    let setting = name.is_some() || email.is_some();
    let new_name = match name {
        Some(n) => Some(n),
        None => author.name,
    };
    let new_email = match email {
        Some(e) => Some(e),
        None => author.email,
    };
    (AuthorConfig { name: new_name, email: new_email }, setting)
}

/// The line `lupe status` shows about the author.
pub open spec fn author_status_spec(name: Option<Seq<char>>, email: Option<Seq<char>>) -> Seq<char> {
    match (name, email) {
        (Some(n), Some(e)) => "author "@ + n + " <"@ + e + ">"@,
        (Some(n), None) => "author "@ + n + " <email not set>"@,
        (None, Some(e)) => "author <name not set> <"@ + e + ">"@,
        (None, None) => "author not configured"@,
    }
}

/// The line `lupe status` shows about the author.
pub fn author_status_line(author: &AuthorConfig) -> (out: String)
    ensures
        out@ == author_status_spec(text_of(author.name), text_of(author.email)),
{
    let mut out: Vec<char> = Vec::new();
    match (&author.name, &author.email) {
        (Some(n), Some(e)) => {
            push_str_chars(&mut out, "author ");
            push_str_chars(&mut out, n.as_str());
            push_str_chars(&mut out, " <");
            push_str_chars(&mut out, e.as_str());
            push_str_chars(&mut out, ">");
        },
        (Some(n), None) => {
            push_str_chars(&mut out, "author ");
            push_str_chars(&mut out, n.as_str());
            push_str_chars(&mut out, " <email not set>");
        },
        (None, Some(e)) => {
            push_str_chars(&mut out, "author <name not set> <");
            push_str_chars(&mut out, e.as_str());
            push_str_chars(&mut out, ">");
        },
        (None, None) => {
            push_str_chars(&mut out, "author not configured");
        },
    }
    string_of(&out)
}

/// The lines `lupe author` prints.
pub open spec fn author_report_spec(name: Option<Seq<char>>, email: Option<Seq<char>>) -> Seq<Seq<char>> {
    match (name, email) {
        (Some(n), Some(e)) => seq!["name  "@ + n, "email "@ + e],
        (Some(n), None) => seq!["name  "@ + n, "email (not set)"@],
        (None, Some(e)) => seq!["name  (not set)"@, "email "@ + e],
        (None, None) => seq![
            "author not configured"@,
            "set with: lupe author --name \"Your Name\" --email \"your@email.com\""@,
        ],
    }
}

/// `prefix` followed by `s`.
fn prefixed(prefix: &str, s: &str) -> (out: String)
    ensures
        out@ == prefix@ + s@,
{
    let mut out: Vec<char> = Vec::new();
    push_str_chars(&mut out, prefix);
    push_str_chars(&mut out, s);
    string_of(&out)
}

/// The lines `lupe author` prints.
pub fn author_report(author: &AuthorConfig) -> (out: Vec<String>)
    ensures
        out@.len() == 2,
        out@[0]@ == author_report_spec(text_of(author.name), text_of(author.email))[0],
        out@[1]@ == author_report_spec(text_of(author.name), text_of(author.email))[1],
{
    let mut out: Vec<String> = Vec::new();
    match (&author.name, &author.email) {
        (Some(n), Some(e)) => {
            out.push(prefixed("name  ", n.as_str()));
            out.push(prefixed("email ", e.as_str()));
        },
        (Some(n), None) => {
            out.push(prefixed("name  ", n.as_str()));
            out.push("email (not set)".to_string());
        },
        (None, Some(e)) => {
            out.push("name  (not set)".to_string());
            out.push(prefixed("email ", e.as_str()));
        },
        (None, None) => {
            out.push("author not configured".to_string());
            out.push("set with: lupe author --name \"Your Name\" --email \"your@email.com\"".to_string());
        },
    }
    out
}

/// An isolated workspace the store has set up: its directory name, where it
/// is, and the branch its checkpoints go to.
#[derive(Clone, Debug)]
pub struct WorkspaceInfo {
    pub name: String,
    pub path: String,
    pub branch: String,
}

impl TextKeyed for WorkspaceInfo {
    open spec fn text_key(&self) -> Seq<char> {
        self.name@
    }

    fn key_chars(&self) -> (k: Vec<char>) {
        chars_of(self.name.as_str())
    }
}

/// The branch a listed workspace shows: the trimmed content of its
/// `.lupe-branch`, else of the older `.lupe-fork`, else its name.
pub fn workspace_branch_label(branch_file: Option<&str>, fork_file: Option<&str>, name: &str) -> (out: String)
    ensures
        out@ == trim(match branch_file {
            Some(b) => b@,
            None => match fork_file {
                Some(f) => f@,
                None => name@,
            },
        }),
{
    let raw = match branch_file {
        Some(b) => b,
        None => match fork_file {
            Some(f) => f,
            None => name,
        },
    };
    string_of(&trim_chars(&chars_of(raw)))
}

/// The workspaces ordered by name. They are the directories of one parent,
/// so no two share a name.
pub fn sort_workspaces(workspaces: Vec<WorkspaceInfo>) -> (out: Vec<WorkspaceInfo>)
    requires
        distinct_keys(workspaces@),
    ensures
        strictly_sorted(keys_of(out@)),
        same_items(out@, workspaces@),
{
    sort_by_text_key(workspaces)
}

/// Where the store lives and how it was found: the `.lupe` directory of the
/// nearest ancestor of the working directory that holds one, looking no
/// further than the home directory (`project`), else a new one in the
/// working directory (`project-auto-started`).
pub open spec fn project_home_spec(
    cwd: Seq<char>,
    ancestors: Seq<Seq<char>>,
    is_home: Seq<bool>,
    has_store: Seq<bool>,
) -> (Seq<char>, Seq<char>) {
    match home_choice(is_home, has_store) {
        Some(i) => (joined_path(ancestors[i], ".lupe"@), "project"@),
        None => (joined_path(cwd, ".lupe"@), "project-auto-started"@),
    }
}

/// The texts of a sequence of strings.
pub open spec fn texts(v: Seq<String>) -> Seq<Seq<char>> {
    v.map_values(|s: String| s@)
}

/// Where the store lives and how it was found, given the ancestors of the
/// working directory `cwd`, nearest first and `cwd` itself among them, and
/// for each whether it is the home directory and whether it holds a `.lupe`
/// directory.
pub fn discover_or_start_project_home(
    cwd: &str,
    ancestors: &Vec<String>,
    is_home: &Vec<bool>,
    has_store: &Vec<bool>,
) -> (r: (String, String))
    requires
        ancestors@.len() == is_home@.len(),
        ancestors@.len() == has_store@.len(),
    ensures
        (r.0@, r.1@) == project_home_spec(cwd@, texts(ancestors@), is_home@, has_store@),
{
    proof {
        lemma_home_choice_in_range(is_home@, has_store@);
    }
    match project_home_choice(is_home, has_store) {
        Some(i) => (join_path(ancestors[i].as_str(), ".lupe"), "project".to_string()),
        None => (join_path(cwd, ".lupe"), "project-auto-started".to_string()),
    }
}

/// The directory of the store, found as `discover_or_start_project_home`
/// finds it.
pub fn find_home(cwd: &str, ancestors: &Vec<String>, is_home: &Vec<bool>, has_store: &Vec<bool>) -> (home: String)
    requires
        ancestors@.len() == is_home@.len(),
        ancestors@.len() == has_store@.len(),
    ensures
        home@ == project_home_spec(cwd@, texts(ancestors@), is_home@, has_store@).0,
{
    let (home, _) = discover_or_start_project_home(cwd, ancestors, is_home, has_store);
    home
}

proof fn lemma_home_choice_in_range(is_home: Seq<bool>, has_store: Seq<bool>)
    ensures
        home_choice(is_home, has_store) matches Some(i) ==> 0 <= i < is_home.len() && i < has_store.len(),
    decreases is_home.len(),
{
    if is_home.len() > 0 && has_store.len() > 0 && !is_home[0] && !has_store[0] {
        lemma_home_choice_in_range(is_home.drop_first(), has_store.drop_first());
    }
}

}
