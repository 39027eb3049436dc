//! What `cascade` is for.

use crate::invocation::EndingModel;
use crate::place::place_of;
use crate::proc::{OutputModel, ReplyModel, SpawnModel};
use crate::rules::{compiled, gates_of, passed, RuleModel};
use crate::store::{joined_path, SharedRuleModel};
use crate::text::{debug_text, decimal, joined, signed_decimal, trimmed, Class, Text};
use crate::textmap::keys_of;
use crate::verbs::cascade::{
    all_gates, branch_flags, branch_probes, cascaded, change_probes, changed_flags, failures, kept,
    launches, reported, summary, AskModel, CandidateModel, CascadeModel, EventModel, StageModel,
};
use crate::verbs::glob::globbed;
use crate::verbs::merged::MergedRepoModel;
use vstd::prelude::*;

verus! {

/// **Every repo is a candidate, once, in name order**, where it stands and with
/// its auth. The command is the words with a space between each two; a blank
/// one is refused. First the candidates are looked for on disk.
pub proof fn law_every_repo_is_a_candidate(
    root: Text,
    m: Map<Text, MergedRepoModel>,
    words: Seq<Text>,
    changed_only: bool,
    pattern: Option<Text>,
)
    ensures
        ({
            let command = joined(words, " "@);
            let r = cascaded(root, m, words, changed_only, pattern);
            &&& trimmed(command, Class::White).len() == 0 ==> r == Err::<CascadeModel, Text>(
                "cascade: empty command"@,
            )
            &&& trimmed(command, Class::White).len() > 0 ==> (r matches Ok(s) && {
                &&& s.command == command
                &&& s.changed_only == changed_only
                &&& s.pattern == pattern
                &&& s.cands == keys_of(m).map_values(
                    |k: Text|
                        CandidateModel {
                            name: k,
                            dir: joined_path(root, place_of(m[k].at, m[k].url, k)),
                            auth: m[k].auth_env,
                        },
                )
                &&& s.next() == AskModel::Exists(s.cands)
                &&& s.stage is Exists
            })
        }),
{
}

/// **A filter keeps what it flags, in order, and each once**: what is left are
/// the candidates at the flagged places.
pub proof fn law_filter_keeps_what_it_flags(cs: Seq<CandidateModel>, flags: Seq<bool>)
    ensures
        kept(cs, flags) == Seq::new(cs.len(), |i: int| i).filter(
            |i: int| i < flags.len() && flags[i],
        ).map_values(|i: int| cs[i]),
    decreases cs.len(),
{
    reveal(Seq::filter);
    let at = Seq::new(cs.len(), |i: int| i);
    let f = |i: int| i < flags.len() && flags[i];
    let g = |i: int| cs[i];
    if cs.len() > 0 {
        let init = cs.drop_last();
        law_filter_keeps_what_it_flags(init, flags);
        let before = Seq::new(init.len(), |i: int| i);
        let h = |i: int| init[i];
        assert(at.drop_last() =~= before);
        lemma_filter_within(before, f);
        assert(before.filter(f).map_values(h) =~= before.filter(f).map_values(g)) by {
            assert forall|j: int| 0 <= j < before.filter(f).len() implies h(before.filter(f)[j])
                == g(before.filter(f)[j]) by {
                assert(before.contains(before.filter(f)[j]));
                let k = before.index_of(before.filter(f)[j]);
                assert(before[k] == k);
            }
        }
        if f(at.last()) {
            assert(at.filter(f) == before.filter(f).push(at.last()));
            assert(at.filter(f).map_values(g) =~= before.filter(f).map_values(g).push(cs.last()));
        } else {
            assert(at.filter(f) == before.filter(f));
        }
    } else {
        assert(at =~= Seq::empty());
        assert(at.filter(f) =~= Seq::empty());
        assert(kept(cs, flags) =~= at.filter(f).map_values(g));
    }
}

proof fn lemma_filter_within<A>(q: Seq<A>, f: spec_fn(A) -> bool)
    ensures
        forall|j: int| 0 <= j < q.filter(f).len() ==> q.contains(#[trigger] q.filter(f)[j]),
    decreases q.len(),
{
    reveal(Seq::filter);
    if q.len() > 0 {
        let init = q.drop_last();
        lemma_filter_within(init, f);
        assert forall|j: int| 0 <= j < q.filter(f).len() implies q.contains(
            #[trigger] q.filter(f)[j],
        ) by {
            if j < init.filter(f).len() {
                let x = init.filter(f)[j];
                assert(init.contains(x));
                let k = init.index_of(x);
                assert(q[k] == x);
            } else {
                assert(q[q.len() - 1] == q.last());
            }
        }
    }
}

/// Whether a process stands in a candidate, with its auth.
pub open spec fn runs_in(s: SpawnModel, c: CandidateModel) -> bool {
    &&& s.dir == c.dir
    &&& s.env == seq![("GIT_TERMINAL_PROMPT"@, "0"@)] + c.auth
    &&& s.stdin_null
}

/// **Two questions for each candidate say whether it has changed**: what is not
/// committed, and what is not pushed from any branch.
pub proof fn law_change_probes(cs: Seq<CandidateModel>, i: int)
    ensures
        change_probes(cs).len() == 2 * cs.len(),
        0 <= i < cs.len() ==> runs_in(change_probes(cs)[2 * i], cs[i]) && change_probes(cs)[2
            * i].argv == seq!["git"@, "status"@, "--porcelain"@],
        0 <= i < cs.len() ==> runs_in(change_probes(cs)[2 * i + 1], cs[i]) && change_probes(cs)[2
            * i + 1].argv == seq![
            "git"@,
            "log"@,
            "--branches"@,
            "--not"@,
            "--remotes"@,
            "--oneline"@,
        ],
    decreases cs.len(),
{
    if cs.len() > 0 {
        law_change_probes(cs.drop_last(), i);
    }
}

/// **One question for each candidate says which branch it is on.**
pub proof fn law_branch_probes(cs: Seq<CandidateModel>, i: int)
    ensures
        branch_probes(cs).len() == cs.len(),
        0 <= i < cs.len() ==> runs_in(branch_probes(cs)[i], cs[i]) && branch_probes(cs)[i].argv
            == seq!["git"@, "symbolic-ref"@, "--quiet"@, "--short"@, "HEAD"@],
{
}

/// **A candidate has changed where either question was answered with anything**:
/// the process succeeded and wrote more than white space.
pub proof fn law_changed(rs: Seq<ReplyModel>, n: nat, i: int)
    requires
        0 <= i < n,
        rs.len() == 2 * n,
    ensures
        changed_flags(rs, n).len() == n,
        changed_flags(rs, n)[i] <==> {
            ||| rs[2 * i].ok() && trimmed(rs[2 * i]->Ran_0.stdout, Class::White).len() > 0
            ||| rs[2 * i + 1].ok() && trimmed(rs[2 * i + 1]->Ran_0.stdout, Class::White).len() > 0
        },
{
}

/// **A candidate is on a matching branch where git named one that the pattern
/// matches.**
pub proof fn law_on_branch(rs: Seq<ReplyModel>, pattern: Text, n: nat, i: int)
    requires
        0 <= i < n,
        rs.len() == n,
    ensures
        branch_flags(rs, pattern, n).len() == n,
        branch_flags(rs, pattern, n)[i] <==> rs[i].ok() && globbed(
            pattern,
            trimmed(rs[i]->Ran_0.stdout, Class::White),
        ),
{
}

/// **The questions are asked in order**: of what exists on disk, for changes
/// where that is asked for, then for the branch where that is asked for, and
/// then for the rules; where no candidate is left the cascade is over, and
/// well.
pub proof fn law_questions_in_order(s: CascadeModel, there: Seq<bool>, rs: Seq<ReplyModel>)
    ensures
        s.stage is Exists ==> {
            let t = s.after(EventModel::Exist(there));
            let left = kept(s.cands, there);
            &&& t.cands == left
            &&& s.changed_only ==> t.next() == AskModel::Each(change_probes(left))
                && t.stage is Changed
            &&& !s.changed_only && s.pattern is Some ==> t.next() == AskModel::Each(
                branch_probes(left),
            ) && t.stage is Branch
            &&& !s.changed_only && s.pattern is None && left.len() > 0 ==> t.next()
                == AskModel::Rules
            &&& !s.changed_only && s.pattern is None && left.len() == 0 ==> t.next()
                == AskModel::End("cascade: no repos matched\n"@, EndingModel::Fine)
        },
        s.stage is Changed ==> {
            let t = s.after(EventModel::RanEach(rs));
            let left = kept(s.cands, changed_flags(rs, s.cands.len()));
            &&& t.cands == left
            &&& s.pattern is Some ==> t.next() == AskModel::Each(branch_probes(left))
                && t.stage is Branch
            &&& s.pattern is None && left.len() > 0 ==> t.next() == AskModel::Rules
            &&& s.pattern is None && left.len() == 0 ==> t.next() == AskModel::End(
                "cascade: no repos matched\n"@,
                EndingModel::Fine,
            )
        },
        s.stage is Branch ==> (s.pattern matches Some(p) ==> {
            let t = s.after(EventModel::RanEach(rs));
            let left = kept(s.cands, branch_flags(rs, p, s.cands.len()));
            &&& t.cands == left
            &&& left.len() > 0 ==> t.next() == AskModel::Rules
            &&& left.len() == 0 ==> t.next() == AskModel::End(
                "cascade: no repos matched\n"@,
                EndingModel::Fine,
            )
        }),
{
}

/// **Every candidate has the gates of every rule that matches**, candidate by
/// candidate.
pub proof fn law_gates_of_every_candidate(
    rs: Seq<RuleModel>,
    command: Text,
    cs: Seq<CandidateModel>,
)
    ensures
        all_gates(rs, command, cs) == cs.map_values(
            |c: CandidateModel| gates_of(rs, command, c.name, c.dir),
        ).flatten(),
    decreases cs.len(),
{
    let f = |c: CandidateModel| gates_of(rs, command, c.name, c.dir);
    let parts = cs.map_values(f);
    parts.lemma_flatten_and_flatten_alt_are_equivalent();
    if cs.len() > 0 {
        law_gates_of_every_candidate(rs, command, cs.drop_last());
        assert(parts.drop_last() =~= cs.drop_last().map_values(f));
        parts.drop_last().lemma_flatten_and_flatten_alt_are_equivalent();
        assert(parts.last() == f(cs.last()));
    }
}

/// **The command is run as it was given, in every candidate that is left**, by
/// `sh -c`.
pub proof fn law_launch(command: Text, cs: Seq<CandidateModel>, i: int)
    ensures
        launches(command, cs).len() == cs.len(),
        0 <= i < cs.len() ==> runs_in(launches(command, cs)[i], cs[i]) && launches(
            command,
            cs,
        )[i].argv == seq!["sh"@, "-c"@, command],
{
}

/// **The gates are asked one after the other, and then the command is run
/// everywhere at once**: rules that do not compile, and the first gate that
/// does not let the cascade through, end it with the reason.
pub proof fn law_gates_then_launch(s: CascadeModel, m: Map<Text, SharedRuleModel>, r: ReplyModel)
    ensures
        s.stage is Rules ==> {
            let t = s.after(EventModel::Loaded(m));
            match compiled(m, keys_of(m)) {
                Err(why) => t.next() == AskModel::End(
                    Seq::empty(),
                    EndingModel::Failed(Some(why)),
                ),
                Ok(rs) => {
                    let gates = all_gates(rs, s.command, s.cands);
                    &&& t.gates == gates
                    &&& t.cands == s.cands
                    &&& gates.len() > 0 ==> t.stage == StageModel::Gate(0) && t.next()
                        == AskModel::Gate(gates[0].spawn)
                    &&& gates.len() == 0 ==> t.next() == AskModel::Together(
                        launches(s.command, s.cands),
                    )
                },
            }
        },
        s.stage matches StageModel::Gate(i) ==> {
            let t = s.after(EventModel::Ran(r));
            match passed(s.gates[i], r) {
                Err(why) => t.next() == AskModel::End(
                    Seq::empty(),
                    EndingModel::Failed(Some(why)),
                ),
                Ok(_) => {
                    &&& t.gates == s.gates
                    &&& t.cands == s.cands
                    &&& i + 1 < s.gates.len() ==> t.stage == StageModel::Gate(i + 1) && t.next()
                        == AskModel::Gate(s.gates[i + 1].spawn)
                    &&& i + 1 >= s.gates.len() ==> t.next() == AskModel::Together(
                        launches(s.command, s.cands),
                    )
                },
            }
        },
{
}

/// **What a repo wrote is reported as it stands**, on the stream that it wrote
/// to, under a header with the repo and the outcome. Where it wrote nothing the
/// header stands alone on standard output.
pub proof fn law_report(c: CandidateModel, command: Text, o: OutputModel)
    ensures
        ({
            let head = "=== "@ + c.name + " ("@ + (if o.status == 0 {
                "ok"@
            } else {
                "exit "@ + signed_decimal(o.status)
            }) + ") ===\n"@;
            let r = reported(c, command, ReplyModel::Ran(o));
            &&& o.stdout.len() > 0 ==> r.0 == head + o.stdout
            &&& o.stderr.len() > 0 ==> r.1 == head + o.stderr
            &&& o.stdout.len() == 0 && o.stderr.len() > 0 ==> r.0.len() == 0
            &&& o.stderr.len() == 0 ==> r.1.len() == 0
            &&& o.stdout.len() == 0 && o.stderr.len() == 0 ==> r.0 == head
        }),
{
    if o.stdout.len() == 0 {
        assert(reported(c, command, ReplyModel::Ran(o)).0 =~= if o.stderr.len() == 0 {
            "=== "@ + c.name + " ("@ + (if o.status == 0 {
                "ok"@
            } else {
                "exit "@ + signed_decimal(o.status)
            }) + ") ===\n"@
        } else {
            Seq::empty()
        });
    }
}

/// **A command that could not be spawned is reported on standard error**, with
/// the shell line and the directory.
pub proof fn law_report_of_a_lost_command(c: CandidateModel, command: Text, why: Text)
    ensures
        reported(c, command, ReplyModel::Lost(why)).0.len() == 0,
        reported(c, command, ReplyModel::Lost(why)).1 == "=== "@ + c.name
            + " (spawn failed) ===\n"@ + "spawn sh -c "@ + debug_text(command) + " in "@ + c.dir
            + "\n"@,
{
    reveal_strlit(" (");
    reveal_strlit("spawn failed");
    reveal_strlit(") ===\n");
    reveal_strlit(" (spawn failed) ===\n");
    assert(" ("@ + "spawn failed"@ + ") ===\n"@ =~= " (spawn failed) ===\n"@);
    let a = "=== "@ + c.name;
    assert(a + " ("@ + "spawn failed"@ + ") ===\n"@ =~= a + (" ("@ + "spawn failed"@
        + ") ===\n"@));
    let h = a + " (spawn failed) ===\n"@;
    let b = "spawn sh -c "@ + debug_text(command) + " in "@ + c.dir;
    assert(h + b + "\n"@ =~= h + "spawn sh -c "@ + debug_text(command) + " in "@ + c.dir + "\n"@);
}

/// **The summary counts the repos and the failures.**
pub proof fn law_summary(total: nat, failed: nat, rs: Seq<ReplyModel>)
    ensures
        summary(total, failed) == "cascade: "@ + decimal(total) + " repos, "@ + decimal(failed)
            + " failed\n"@,
        failures(rs) == rs.filter(|r: ReplyModel| !r.ok()).len(),
    decreases rs.len(),
{
    reveal(Seq::filter);
    if rs.len() > 0 {
        law_summary(total, failed, rs.drop_last());
    }
}

/// Whether an event is of the kind that answers what a cascade asks.
pub open spec fn answered_by(ask: AskModel, e: EventModel) -> bool {
    match ask {
        AskModel::Exists(_) => e is Exist,
        AskModel::Each(_) => e is RanEach,
        AskModel::Rules => e is Loaded,
        AskModel::Gate(_) => e is Ran,
        AskModel::Together(_) => e is Finished,
        AskModel::End(_, _) => false,
    }
}

/// **What was not waited for changes nothing.**
pub proof fn law_only_answers_count(s: CascadeModel, e: EventModel)
    ensures
        !answered_by(s.next(), e) ==> s.after(e) == s,
{
}

/// **A cascade waits for every repo**: as long as the command is running
/// somewhere nothing else is asked for, and once it has come to its end in the
/// last repo the cascade says how many there were and how many failed.
pub proof fn law_waits_for_every_repo(s: CascadeModel, r: ReplyModel)
    requires
        s.stage is Launch,
    ensures
        ({
            let t = s.after(EventModel::Finished(r));
            let done = s.stage->done + 1;
            let failed = s.stage->failed + (if r.ok() {
                0int
            } else {
                1int
            });
            &&& done < s.cands.len() ==> t.next() == s.next() && t.stage->done == done
                && t.stage->failed == failed
            &&& done >= s.cands.len() ==> t.next() == AskModel::End(
                "cascade: "@ + decimal(done as nat) + " repos, "@ + decimal(failed as nat)
                    + " failed\n"@,
                if failed > 0 {
                    EndingModel::Failed(None)
                } else {
                    EndingModel::Fine
                },
            )
        }),
{
}

} // verus!
