# git_staircase

A library for stacked Git branches ("staircases"), verified with Verus, and
a command-line front end around it.

- `src/` is the verified library. It discovers staircases among local
  branches and builds their branch graph. It reads and writes staircase
  records (structure, descriptive metadata, lifecycle, archive manifest) and
  plans every ref change as a mutation plan. It restacks, splits, joins,
  lands, archives and unarchives staircases, and journals resumable
  operations. Contracts are stated over spec functions. The library runs
  no process and touches no file: it asks a host (`RepoHost`) to run `git`
  and to keep its small state files. The host carries no contract, so
  where a result depends on what Git answers, a function states what holds
  whatever the answer was; many of the decisions (record publication and
  unarchive plans, archive manifests, replay chains, status parsing) stand
  in verified functions that take those answers as arguments, with exact
  contracts.
- `tests/` holds the tests of the library.
- `app/` is the front end: argument parsing, the process and file-system
  host, JSON (de)serialisation of stored documents, and the monorepo
  worktree commands.
