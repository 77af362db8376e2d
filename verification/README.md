# lupe

Agent-native source control: every prompt an agent receives becomes a
checkpoint, a snapshot of the workspace stored as a manifest of content
hashes, with branches, isolated workspaces and a graph of the history.

## Layout

- `src/` is the verified library. Each public function carries a contract
  that Verus proves:
  - `manifest`, `pathmap`, `order`, `keyed`: manifests, sorted path maps and
    the differences between two checkpoints;
  - `snapshot`: content hashes, object paths, snapshots and restores;
  - `store_plan`: the decisions the store makes between database queries
    (diff ranges, parents, lookups, bringing HEAD in line);
  - `titles`, `text`: one-line texts and titles taken from prompts and
    responses;
  - `workspace`, `settings`, `shell`: ignore lists and their `*` patterns,
    `.gitignore` updates, the store's location, authors, workspaces and the
    stop hook command;
  - `graph`, `graph_text`, `report`, `colors`, `ids`: what the command line
    prints;
  - `webdiff`, `serve`: the line-by-line diff and the decisions of the web
    graph's server;
  - `laws`: properties that span several calls.
- `app/` is the command line around the library: argument parsing, the
  SQLite database, the file system, and the agents' hook files.
- `tests/` exercises the library on concrete values.
