# jj-spr

A Jujutsu subcommand for submitting and updating GitHub pull requests from local
Jujutsu commits that may be amended and rebased.

The library, in `src/`, decides what is run, what is asked and what is told; it
is verified with Verus. The program in `app/` runs `jj`, reads the disk and the
Git repository, and talks to GitHub.

- `text`: reading what another program printed
- `error`: what is told when something goes wrong
- `command`: the programs that are run, and what comes back from them
- `oid`: the ids of Git objects
- `message`: the sections of a commit message
- `jj`: the workspace and the Git repository behind it
- `backend`: finding that repository
- `range`: preparing the commits between two revisions
- `rewrite`: writing changed messages back
- `commands::amend`, `commands::squash`: the two commands
- `options`: the command line and the configuration

An operation that needs the outside world in between is a chain of values: each
one says what it needs next, and is used up when it gets the answer.
