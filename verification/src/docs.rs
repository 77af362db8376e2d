//! The reference text `lupe docs` prints.
use vstd::prelude::*;

verus! {

/// Reference documentation for every command, written for agents.
pub const DOCS: &'static str = r#"
LUPE — agent-native source control
===================================
Run `lupe <command> --help` for full flag details on any command.

WORKFLOW
--------
Every agent session follows this pattern:

  lupe prompt "<user prompt>"      — auto-called by stop hook. Records what was asked.
  lupe save "<message>"            — snapshot workspace as a new checkpoint.
  lupe branch <name>               — create a named branch at current HEAD.
  lupe restore <checkpoint|branch> — roll back to any checkpoint. Never edit files manually to undo.

TRACKING
--------
  lupe prompt <text>            Record a user prompt + snapshot. --private to hide from history.
  lupe checkpoint <title>       Create a named checkpoint manually.
  lupe save [message]           Snapshot current workspace as a new checkpoint.
  lupe respond <text>           Attach agent response to latest checkpoint (called by hook).
  lupe title <title>            Update the title of the latest checkpoint.
  lupe private                  Flag the NEXT checkpoint as private.

HISTORY & INSPECTION
--------------------
  lupe history [--all]          List checkpoints. --all includes all branches.
  lupe graph [--all]            Visual tree of checkpoints.
  lupe prompts [--all]          List checkpoints showing only the user prompt.
  lupe diff [from] [to]         File changes between two checkpoints.
  lupe search <query>           Full-text search across prompts, titles, responses.
  lupe files <checkpoint-id>    List all files tracked in a checkpoint.
  lupe cat <file> <checkpoint>  Print file contents as they existed in a checkpoint.

  Add --show-private to history, graph, or prompts to reveal private checkpoints.

BRANCHES & WORKSPACES
---------------------
  lupe branch <name>            Create a named branch at current HEAD.
  lupe branches                 List all branches.
  lupe use <branch>             Set active branch for this directory. Writes .lupe-branch
                                so ALL subsequent checkpoints (including auto-hook ones)
                                go to that branch. Use 'main' to switch back.
  lupe restore <branch-name>    Restore workspace to a branch's head checkpoint.
  lupe workspace new <branch>   Create an isolated directory for parallel agent work.
  lupe workspace list           List active workspaces.
  lupe workspace drop <name>    Remove a workspace.

  AGENT WORKFLOW — when asked to work on a branch:
    1. lupe branch <name>          — create the branch
    2. lupe use <name>             — route your checkpoints to it (REQUIRED)
    3. ... do work, save files ...
    4. lupe use main               — switch back when done

  This ensures all auto-captured checkpoints (from the stop hook) go to the
  right branch, not main. Without `lupe use`, the hook always writes to main.

  Workspaces are isolated directories at .lupe/workspaces/<name>/.
  Files are copied from the current HEAD state. Each workspace has a .lupe-branch
  file that routes lupe checkpoints to the correct branch automatically.

  .lupeshared — list paths to SYMLINK into every workspace instead of copy.
  Use this for large shared dirs (node_modules, .venv, .env) so workspaces
  don't duplicate them. Example .lupeshared:
    node_modules
    .env

  To run a dev server from a workspace, cd into the workspace dir and run
  your dev command normally. node_modules will be available via symlink if
  .lupeshared is configured. Use a different port than main (e.g. --port 3002).

  NEVER copy workspace files into main manually. Use lupe merge workflow instead.

SETUP
-----
  lupe status / lupe init       Show current state. Init lupe in a new project.
  lupe install                  Install hooks + agent instructions into a workspace.
  lupe author --name --email    Set author identity.

MERGE WORKFLOW (manual, agent-driven)
--------------------------------------
To merge two branches:
  1. lupe graph --all                                  — identify the two branch tips
  2. lupe diff <ancestor-checkpoint> <main-tip>        — what main changed
  3. lupe diff <ancestor-checkpoint> <branch-tip>      — what branch changed
  4. lupe files <branch-checkpoint>                    — see all files in branch
  5. lupe cat <file> <branch-checkpoint>               — read a specific file from branch
  6. Resolve conflicts by writing files to disk
  7. lupe save "merged <branch-name> into main"
"#;

}
