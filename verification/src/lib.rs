//! Core logic of an agent-oriented source control store: snapshots of a
//! workspace as manifests of content hashes, the differences between
//! them, the titles and labels recorded with each checkpoint, and the
//! workspace settings and setup texts.
use vstd::prelude::*;

pub mod colors;
pub mod docs;
pub mod error;
pub mod graph;
pub mod graph_text;
pub mod ids;
pub mod keyed;
pub mod laws;
pub mod manifest;
pub mod order;
pub mod pathmap;
pub mod report;
pub mod shell;
pub mod serve;
pub mod settings;
pub mod snapshot;
pub mod store_plan;
pub mod text;
pub mod titles;
pub mod webdiff;
pub mod workspace;

pub use colors::Colors;
pub use docs::DOCS;
pub use error::LupeError;
pub use graph::{branch_chain, branch_entries, GraphNode};
pub use ids::{friendly_time, id_text, optional_uuid, parse_time, parse_uuid, short_id};
pub use manifest::{diff_manifests, DiffView, FileEntry, Manifest};
pub use report::{diff_lines, file_change_counts, path_list_lines};
pub use serve::{diff_request_ids, static_asset_path, tick_step, DiffQuery};
pub use settings::{
    author_report, author_status_line, author_update, discover_or_start_project_home, find_home, sort_workspaces,
    workspace_branch_label, AuthorConfig, WorkspaceInfo,
};
pub use shell::{find_lupe_hook, hook_command, hook_edit, shell_quote, shell_quote_path, HookEdit};
pub use snapshot::{build_snapshot, hash_bytes, object_path, paths_to_remove, Snapshot};
pub use store_plan::{
    checkpoint_filter, checkpoint_parent, checkpoint_ref, diff_range_finish, diff_range_plan, found_id,
    head_after_branch, head_after_check, head_after_latest, head_after_save, head_start, search_pattern,
    CheckpointRef, HeadStep, RangePlan,
};
pub use titles::{
    one_line, one_line_checked, title_from_prompt, title_from_prompt_checked, title_from_response,
    title_from_response_checked,
};
pub use webdiff::{plan_web_diff, text_file_diff, FileChange, FileStatus, WebDiffLine, WebFileDiff, WebHunk};
pub use workspace::{
    agent_label, agents_md_update, default_lupeignore, gitignore_update, ignore_patterns, lupe_agent_section,
    project_home_choice, shared_paths, should_skip, workspace_branch,
};

verus! {
}
