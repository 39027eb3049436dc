# xen

xen is a virtual-monorepo layer: it materializes independent git repos into one
workspace without collapsing their gitflows. It stores *intent* (which repos
exist, where they materialize, what `dev` means in each, which paths are
visible); git stores *facts*.

This crate is the part of xen that decides, written in Verus. Every function in
`src/` has a contract, and Verus proves it.

## Layout

- `src/key.rs`: the keyspace. Which keys exist, and which layer each belongs to.
- `src/store.rs`: what the config files hold, and how a key changes them.
- `src/verbs/`: the verbs. Each one is a function from what was read to what is
  shown, or a small machine that says what it needs next (a process, a
  directory, a line on the terminal) and takes what came of it.
- `src/rules.rs`, `src/hooks.rs`, `src/invocation.rs`: the predicates that have
  a say before a cascade, and the shell commands that run around a verb.
- `src/gitignore.rs`: the managed block in the workspace's `.gitignore`.
- `src/proc.rs`: what to spawn, and what a finished process means.
- `src/pattern.rs`: regular expressions, from the `regex` crate.
- `src/place.rs`: where a repo is placed, and paths by their components.
- `src/text.rs`, `src/textmap.rs`: text, and maps keyed by text.
- `app/`: the program. It parses the command line, reads and writes TOML, walks
  directories, spawns processes and prints, as the library asks.
- `tests/`: the library on concrete values, and whole invocations against a
  workspace in memory.

## What is proved

Contracts say exactly what a function returns. Public proof functions named
`law_*` state what holds across functions, among them:

- a key parses back from its dotted form; auth never reaches the shared layer
  and a URL never the private one;
- what `env set` wrote is what `env get` shows; unsetting undoes setting;
- two repos are never portaled into overlapping paths, compared component by
  component, and a failed clone leaves nothing to record;
- a branchtype that some repo does not map is refused before anything is
  spawned, with exactly the repos that lack it;
- a sync fast-forwards branches and never resets one;
- a clean working tree is moved to a new placement by one rename and without a
  clone; one is moved only after git said that nothing in it is uncommitted;
- no user command of a cascade spawns before every matching rule has allowed it
  in every selected repo;
- a verb runs only after every matching pre-hook succeeded;
- `resonate` never overwrites without `--force`, never leaves the placement, and
  copies every file that it found;
- lines outside the managed block of `.gitignore` stay as they are, and
  reconciling twice is reconciling once.

Three functions are trusted rather than proved: `text::quoted` (the `Debug`
form of a string), and `pattern::regex_new` and `pattern::regex_is_match` (the
`regex` crate). Each says in its doc comment what is believed of it.
