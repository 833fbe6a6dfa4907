# sourcetrait

Utilities for tools that work on source repositories, written in Verus: the
logic is in `src/` with its contracts proved, and `app/` holds the parts that
talk to the world.

## src/

- `base62`, `nom`, `nonce`: base-62 codes, hashed identifiers, and nonces.
- `penver`: pedantic versions and their text form.
- `normalize`, `scan`, `text`: paths, trimming, lines and words, joining and
  splitting text.
- `pathgraph`: a dependency graph of files, with cycle detection and a
  topological order.
- `inlined`: include directories, include checks, and the decisions of
  reading and writing inlined RON.
- `gitstatus`, `gittypes`, `gitoptions`, `gitcli`, `gitinterface`,
  `giterror`: git status parsing, object ids, upstreams, option rules, and
  the arguments and environment of git commands.
- `gitlib`, `gitlog`: the decisions of a backend that works through
  libgit2: status flags and diff deltas, the steps of a pull, a merge and a
  push, and the log built from commit records. The libgit2 calls
  themselves are not part of this crate: the `git2` bindings are not among
  its dependencies, so no backend in `app/` makes them.
- `dotrepo`, `tenant`: definitions of `.repo` tenants, how a tenant is
  opened or created and the steps of creating it, and which entries and
  directories a walk keeps.
- `subsys`, `sysgreen`, `greensys`, `channel`: messages, packets and the
  control decisions of green systems.
- `osable`, `stdx`: system lookups' decisions and small helpers.

## app/

The git command line, user and group lookups, files and walks, async
channels and the control loop, the serde forms of inlined RON, and exit
codes. It calls the library for every decision.

## tests/

Tests of the library on concrete values.
