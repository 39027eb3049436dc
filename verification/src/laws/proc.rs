//! What the subprocess primitive is for.

use crate::proc::{
    checked, listed, shell_not_spawned, shell_of, spawn_of, spawned, OutputModel, ReplyModel,
    SpawnModel,
};
use crate::text::{debug_text, trimmed, Class, Text};
use vstd::prelude::*;

verus! {

/// **A spawn is what was asked for**: the words as they stand, in the directory
/// that was named, with git kept from prompting ahead of the caller's
/// variables, and with nothing to read.
pub proof fn law_spawn(dir: Text, argv: Seq<Text>, env: Seq<(Text, Text)>)
    ensures
        spawn_of(dir, argv, env).dir == dir,
        spawn_of(dir, argv, env).argv == argv,
        spawn_of(dir, argv, env).env == seq![("GIT_TERMINAL_PROMPT"@, "0"@)] + env,
        spawn_of(dir, argv, env).stdin_null,
{
}

/// **A shell line is handed to `sh -c` as one word.**
pub proof fn law_shell_line(dir: Text, command: Text, env: Seq<(Text, Text)>)
    ensures
        shell_of(dir, command, env).dir == dir,
        shell_of(dir, command, env).argv == seq!["sh"@, "-c"@, command],
        shell_of(dir, command, env).env == seq![("GIT_TERMINAL_PROMPT"@, "0"@)] + env,
        shell_of(dir, command, env).stdin_null,
{
}

/// **Only exit status zero is success**: what the process wrote is then taken
/// as it stands, and its answer is that without surrounding white space.
pub proof fn law_success(s: SpawnModel, stdout: Text, stderr: Text)
    ensures
        ({
            let r = ReplyModel::Ran(OutputModel { status: 0, stdout, stderr });
            &&& r.ok()
            &&& checked(s, r) == Ok::<Text, Text>(stdout)
            &&& r.answer() == Some(trimmed(stdout, Class::White))
        }),
{
}

/// **Every other exit status is failure**: the error holds the words that were
/// run and what the process wrote to standard error.
pub proof fn law_failure(s: SpawnModel, status: int, stdout: Text, stderr: Text)
    requires
        status != 0,
    ensures
        ({
            let r = ReplyModel::Ran(OutputModel { status, stdout, stderr });
            &&& !r.ok()
            &&& checked(s, r) == Err::<Text, Text>(
                "["@ + listed(s.argv) + "] failed: "@ + trimmed(stderr, Class::White),
            )
            &&& r.answer() is None
        }),
{
}

/// **A process that could not be spawned is failure**: the error holds the
/// program, the directory and the reason.
pub proof fn law_lost(s: SpawnModel, why: Text, dir: Text, command: Text)
    ensures
        ({
            let r = ReplyModel::Lost(why);
            &&& !r.ok()
            &&& s.argv.len() > 0 ==> checked(s, r) == Err::<Text, Text>(
                "spawn "@ + s.argv[0] + " in "@ + s.dir + ": "@ + why,
            )
            &&& checked(s, r) is Err
            &&& r.answer() is None
        }),
        shell_not_spawned(dir, command) == "spawn sh -c "@ + debug_text(command) + " in "@ + dir,
{
}

/// **Every word is listed, in order**, quoted, with commas between.
pub proof fn law_listed(argv: Seq<Text>, word: Text)
    ensures
        listed(Seq::empty()) == Seq::<char>::empty(),
        listed(seq![word]) == debug_text(word),
        argv.len() > 0 ==> listed(argv.push(word)) == listed(argv) + ", "@ + debug_text(word),
{
    assert(argv.push(word).drop_last() =~= argv);
}

/// **Nothing is spawned where there is no word**; otherwise all of them are.
pub proof fn law_spawned(dir: Text, argv: Seq<Text>, env: Seq<(Text, Text)>)
    ensures
        argv.len() == 0 ==> spawned(dir, argv, env) == Err::<SpawnModel, Text>("empty argv"@),
        argv.len() > 0 ==> spawned(dir, argv, env) == Ok::<SpawnModel, Text>(
            SpawnModel {
                dir,
                argv,
                env: seq![("GIT_TERMINAL_PROMPT"@, "0"@)] + env,
                stdin_null: true,
            },
        ),
{
}

} // verus!
