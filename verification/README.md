# work

A git worktree manager that keeps worktrees under `~/.worktrees/<repo>/<name>`,
with the same layout for jj workspaces.

- `src/` is the verified library: it derives repository names from remote URLs,
  `jj git remote list` output and checkout roots; joins paths and takes their parent
  over the path's bytes, so a home directory that is not valid UTF-8 is kept as it
  is, and takes their final component; builds every git and jj argument list, as
  bytes; plans adding, resolving, moving (step by step) and going to worktrees; and
  orders the names that are listed. `src/laws.rs`
  holds the properties proved across these functions.
- `app/` is the `work` command: argument parsing, running git and jj, reading
  directories, and printing. The jj commands are not offered on the command line;
  their listings return the described workspaces rather than printing them.
- `tests/` runs the library on concrete values.
