//! The subprocess primitive: what to spawn, and what a finished process
//! means.
//!
//! There is no typed git wrapper. Verbs that need to talk to git write the
//! literal argv at the call site. Two shapes are in use: `run` is a direct
//! exec with explicit argv, so that spaces, quoting and the user's shell are
//! not in the loop; `sh` is a shell line, for commands that the user wrote.
//!
//! `GIT_TERMINAL_PROMPT=0` is set on every spawn, and standard input is null,
//! so that auth failures surface as non-zero exits rather than hangs.

use crate::text::{self, outcome, Class, Text};
use vstd::prelude::*;

verus! {

// --- what to spawn ----------------------------------------------------------

/// A process to spawn.
#[derive(Debug)]
pub struct Spawn {
    /// The working directory.
    pub dir: String,
    /// The program and its arguments.
    pub argv: Vec<String>,
    /// Environment variables on top of the inherited ones, in the order in
    /// which they are set.
    pub env: Vec<(String, String)>,
    /// Whether standard input is null, so that nothing can be read from it.
    pub stdin_null: bool,
}

/// What a `Spawn` stands for.
#[verifier::ext_equal]
pub struct SpawnModel {
    pub dir: Text,
    pub argv: Seq<Text>,
    pub env: Seq<(Text, Text)>,
    pub stdin_null: bool,
}

impl DeepView for Spawn {
    type V = SpawnModel;

    open spec fn deep_view(&self) -> SpawnModel {
        SpawnModel {
            dir: self.dir@,
            argv: self.argv.deep_view(),
            env: self.env.deep_view(),
            stdin_null: self.stdin_null,
        }
    }
}

/// The variable that keeps git from prompting.
pub open spec fn quiet() -> (Text, Text) {
    ("GIT_TERMINAL_PROMPT"@, "0"@)
}

/// `env` on top of what every spawn sets.
pub open spec fn layered(env: Seq<(Text, Text)>) -> Seq<(Text, Text)> {
    seq![quiet()] + env
}

/// The value that `name` has once all of `env` has been set in order.
pub open spec fn value_in(env: Seq<(Text, Text)>, name: Text) -> Option<Text>
    decreases env.len(),
{
    if env.len() == 0 {
        None
    } else if env.last().0 == name {
        Some(env.last().1)
    } else {
        value_in(env.drop_last(), name)
    }
}

/// A direct exec of `argv` in `dir`, with nothing to read on standard input.
pub open spec fn spawn_of(dir: Text, argv: Seq<Text>, env: Seq<(Text, Text)>) -> SpawnModel {
    SpawnModel { dir, argv, env: layered(env), stdin_null: true }
}

/// The shell line `command` in `dir`.
pub open spec fn shell_of(dir: Text, command: Text, env: Seq<(Text, Text)>) -> SpawnModel {
    spawn_of(dir, seq!["sh"@, "-c"@, command], env)
}

/// **Every spawn is quiet**: standard input is null, and git never prompts on
/// the terminal, unless the variables of the caller say otherwise.
pub proof fn law_quiet(dir: Text, argv: Seq<Text>, env: Seq<(Text, Text)>)
    ensures
        spawn_of(dir, argv, env).stdin_null,
        value_in(spawn_of(dir, argv, env).env, "GIT_TERMINAL_PROMPT"@) == (match value_in(
            env,
            "GIT_TERMINAL_PROMPT"@,
        ) {
            Some(v) => Some(v),
            None => Some("0"@),
        }),
    decreases env.len(),
{
    let all = layered(env);
    if env.len() == 0 {
        assert(all.last() == quiet());
    } else {
        assert(all.last() == env.last());
        assert(all.drop_last() =~= layered(env.drop_last()));
        law_quiet(dir, argv, env.drop_last());
    }
}

/// The texts of `parts`, owned.
pub fn words(parts: &[&str]) -> (r: Vec<String>)
    ensures
        r.deep_view() == parts.deep_view(),
{
    let mut out: Vec<String> = Vec::new();
    for i in 0..parts.len()
        invariant
            out.deep_view() == parts.deep_view().take(i as int),
    {
        let ghost done = out.deep_view();
        out.push(parts[i].to_owned());
        assert(out.deep_view() =~= done.push(parts.deep_view()[i as int]));
        assert(parts.deep_view().take(i + 1) =~= parts.deep_view().take(i as int).push(
            parts.deep_view()[i as int],
        ));
    }
    assert(parts.deep_view().take(parts@.len() as int) =~= parts.deep_view());
    out
}

fn layer(env: &Vec<(String, String)>) -> (r: Vec<(String, String)>)
    ensures
        r.deep_view() == layered(env.deep_view()),
{
    let mut out: Vec<(String, String)> = Vec::new();
    out.push(("GIT_TERMINAL_PROMPT".to_owned(), "0".to_owned()));
    assert(out.deep_view() =~= layered(env.deep_view().take(0)));
    for i in 0..env.len()
        invariant
            out.deep_view() == layered(env.deep_view().take(i as int)),
    {
        let ghost done = out.deep_view();
        out.push((env[i].0.clone(), env[i].1.clone()));
        assert(out.deep_view() =~= done.push(env.deep_view()[i as int]));
        assert(layered(env.deep_view().take(i + 1)) =~= layered(env.deep_view().take(i as int)).push(
            env.deep_view()[i as int],
        ));
    }
    assert(env.deep_view().take(env@.len() as int) =~= env.deep_view());
    out
}

/// A direct exec of `argv` in `dir`, or why there is none.
pub open spec fn spawned(dir: Text, argv: Seq<Text>, env: Seq<(Text, Text)>) -> Result<
    SpawnModel,
    Text,
> {
    if argv.len() == 0 {
        Err("empty argv"@)
    } else {
        Ok(spawn_of(dir, argv, env))
    }
}

/// Direct exec inside `cwd` with the supplied variables layered on top of the
/// inherited ones.
pub fn run_env(cwd: &str, argv: Vec<String>, env: &Vec<(String, String)>) -> (r: Result<
    Spawn,
    String,
>)
    ensures
        outcome(r) == spawned(cwd@, argv.deep_view(), env.deep_view()),
{
    if argv.len() == 0 {
        return Err("empty argv".to_owned());
    }
    Ok(Spawn { dir: cwd.to_owned(), argv, env: layer(env), stdin_null: true })
}

/// Direct exec inside `cwd` with no extra variables.
pub fn run(cwd: &str, argv: Vec<String>) -> (r: Result<Spawn, String>)
    ensures
        outcome(r) == spawned(cwd@, argv.deep_view(), Seq::empty()),
{
    let none: Vec<(String, String)> = Vec::new();
    assert(none.deep_view() =~= Seq::empty());
    run_env(cwd, argv, &none)
}

/// `git` with `args`, inside `cwd`.
pub fn git(cwd: &str, args: &[&str], env: &Vec<(String, String)>) -> (r: Spawn)
    ensures
        r.deep_view() == spawn_of(cwd@, seq!["git"@] + args.deep_view(), env.deep_view()),
{
    let mut argv: Vec<String> = Vec::new();
    argv.push("git".to_owned());
    let mut rest: Vec<String> = words(args);
    let ghost tail = rest@;
    let ghost head = argv@;
    argv.append(&mut rest);
    assert(argv@ =~= head + tail);
    assert(argv.deep_view() =~= seq!["git"@] + args.deep_view());
    Spawn { dir: cwd.to_owned(), argv, env: layer(env), stdin_null: true }
}

/// A shell line inside `cwd`, with nothing to read on standard input.
pub fn sh_env(cwd: &str, command: &str, env: &Vec<(String, String)>) -> (r: Spawn)
    ensures
        r.deep_view() == shell_of(cwd@, command@, env.deep_view()),
{
    let mut argv: Vec<String> = Vec::new();
    argv.push("sh".to_owned());
    argv.push("-c".to_owned());
    argv.push(command.to_owned());
    assert(argv.deep_view() =~= seq!["sh"@, "-c"@, command@]);
    Spawn { dir: cwd.to_owned(), argv, env: layer(env), stdin_null: true }
}

// --- what came of it --------------------------------------------------------

/// What a finished process left behind.
#[derive(Debug)]
pub struct Output {
    /// The exit status; -1 where a signal ended the process.
    pub status: i32,
    pub stdout: String,
    pub stderr: String,
}

/// What an `Output` stands for.
pub struct OutputModel {
    pub status: int,
    pub stdout: Text,
    pub stderr: Text,
}

impl DeepView for Output {
    type V = OutputModel;

    open spec fn deep_view(&self) -> OutputModel {
        OutputModel { status: self.status as int, stdout: self.stdout@, stderr: self.stderr@ }
    }
}

impl OutputModel {
    /// Whether the process succeeded.
    pub open spec fn ok(self) -> bool {
        self.status == 0
    }
}

impl Output {
    /// Whether the process succeeded.
    pub fn ok(&self) -> (r: bool)
        ensures
            r == self.deep_view().ok(),
    {
        self.status == 0
    }

    /// Builds an output from an exit code, which a process ended by a signal
    /// does not have.
    pub fn new(code: Option<i32>, stdout: String, stderr: String) -> (r: Output)
        ensures
            r.status == (match code {
                Some(c) => c,
                None => -1i32,
            }),
            r.stdout == stdout,
            r.stderr == stderr,
    {
        let status: i32 = match code {
            Some(c) => c,
            None => -1,
        };
        Output { status, stdout, stderr }
    }
}

/// What came of a spawn.
#[derive(Debug)]
pub enum Reply {
    /// The process ran to its end.
    Ran(Output),
    /// No process was spawned, for this reason.
    Lost(String),
}

/// What a `Reply` stands for.
pub enum ReplyModel {
    Ran(OutputModel),
    Lost(Text),
}

impl DeepView for Reply {
    type V = ReplyModel;

    open spec fn deep_view(&self) -> ReplyModel {
        match self {
            Reply::Ran(o) => ReplyModel::Ran(o.deep_view()),
            Reply::Lost(w) => ReplyModel::Lost(w@),
        }
    }
}

impl ReplyModel {
    /// Whether a process ran and succeeded.
    pub open spec fn ok(self) -> bool {
        self is Ran && self->Ran_0.ok()
    }

    /// What a process that succeeded wrote, without surrounding white space.
    pub open spec fn answer(self) -> Option<Text> {
        if self.ok() {
            Some(text::trimmed(self->Ran_0.stdout, Class::White))
        } else {
            None
        }
    }
}

impl Reply {
    /// Whether a process ran and succeeded.
    pub fn ok(&self) -> (r: bool)
        ensures
            r == self.deep_view().ok(),
    {
        match self {
            Reply::Ran(o) => o.ok(),
            Reply::Lost(_) => false,
        }
    }

    /// What a process that succeeded wrote, without surrounding white space.
    pub fn answer(&self) -> (r: Option<String>)
        ensures
            r.deep_view() == self.deep_view().answer(),
    {
        match self {
            Reply::Ran(o) => if o.ok() {
                Some(text::trim(o.stdout.as_str(), Class::White))
            } else {
                None
            },
            Reply::Lost(_) => None,
        }
    }
}

/// A list of texts as a programmer writes it.
pub open spec fn listed(argv: Seq<Text>) -> Text
    decreases argv.len(),
{
    if argv.len() == 0 {
        Seq::empty()
    } else if argv.len() == 1 {
        text::debug_text(argv[0])
    } else {
        listed(argv.drop_last()) + ", "@ + text::debug_text(argv.last())
    }
}

fn list(argv: &Vec<String>) -> (r: String)
    ensures
        r@ == listed(argv.deep_view()),
{
    let mut out: String = String::new();
    let ghost q = argv.deep_view();
    assert(listed(q.take(0)) =~= out@);
    for i in 0..argv.len()
        invariant
            q == argv.deep_view(),
            out@ == listed(q.take(i as int)),
    {
        assert(q.take(i + 1).drop_last() =~= q.take(i as int));
        if i > 0 {
            out.append(", ");
        }
        out.append(text::quoted(argv[i].as_str()).as_str());
        assert(out@ =~= listed(q.take(i + 1)));
    }
    assert(q.take(argv@.len() as int) =~= q);
    out
}

/// The program that a spawn runs.
pub open spec fn program(s: SpawnModel) -> Text {
    if s.argv.len() > 0 {
        s.argv[0]
    } else {
        Seq::empty()
    }
}

/// Why a process was not spawned.
pub open spec fn not_spawned(s: SpawnModel, why: Text) -> Text {
    "spawn "@ + program(s) + " in "@ + s.dir + ": "@ + why
}

/// What a process must have done for its caller to go on, and otherwise why
/// the caller stops.
pub open spec fn checked(s: SpawnModel, reply: ReplyModel) -> Result<Text, Text> {
    match reply {
        ReplyModel::Lost(why) => Err(not_spawned(s, why)),
        ReplyModel::Ran(o) => if o.ok() {
            Ok(o.stdout)
        } else {
            Err(
                "["@ + listed(s.argv) + "] failed: "@ + text::trimmed(o.stderr, Class::White),
            )
        },
    }
}

/// Takes the standard output of a process that succeeded, and stops on any
/// other.
pub fn check_env(spawn: &Spawn, reply: &Reply) -> (r: Result<String, String>)
    ensures
        outcome(r) == checked(spawn.deep_view(), reply.deep_view()),
{
    match reply {
        Reply::Lost(why) => {
            let prog: &str = if spawn.argv.len() > 0 {
                spawn.argv[0].as_str()
            } else {
                ""
            };
            proof {
                reveal_strlit("");
                assert(""@ =~= Seq::empty());
            }
            let mut e: String = text::cat("spawn ", prog);
            e.append(" in ");
            e.append(spawn.dir.as_str());
            e.append(": ");
            e.append(why.as_str());
            Err(e)
        },
        Reply::Ran(o) => if o.ok() {
            Ok(o.stdout.clone())
        } else {
            let mut e: String = text::cat("[", list(&spawn.argv).as_str());
            e.append("] failed: ");
            e.append(text::trim(o.stderr.as_str(), Class::White).as_str());
            Err(e)
        },
    }
}

/// Why a shell line was not spawned.
pub open spec fn shell_not_spawned(dir: Text, command: Text) -> Text {
    "spawn sh -c "@ + text::debug_text(command) + " in "@ + dir
}

/// Says why a shell line was not spawned.
pub fn shell_lost(dir: &str, command: &str) -> (r: String)
    ensures
        r@ == shell_not_spawned(dir@, command@),
{
    let mut e: String = text::cat("spawn sh -c ", text::quoted(command).as_str());
    e.append(" in ");
    e.append(dir);
    e
}

} // verus!
