# agentbox

A workspace-local context manager for independent git repositories: repos
are registered in a workspace manifest, cloned under `repos/`, and given
writable bind mounts from workspace-owned `context/` directories.

- `src/` is the library, verified with Verus: identifiers and paths, the
  manifest and its updates, mount rules and their conflicts, the mount-table
  parser, the receipts that prove a mount was made here, the status and
  lifecycle decisions, the plans for mounting, unmounting, importing,
  detaching and (de)materializing, directory-tree comparison, and the
  command output.
- `app/` is the `agentbox` command: argument parsing, TOML and JSON files,
  git, the kernel's mount calls and the file system. It reads what the
  library needs, lets it decide, and carries out the decision.
- `tests/` exercises the library on concrete values.
