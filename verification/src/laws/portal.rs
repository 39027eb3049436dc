//! What `portal` is for.

use crate::key::valid_name;
use crate::place::{overlap, place_of};
use crate::proc::{checked, ReplyModel};
use crate::rules::default_rules;
use crate::store::{joined_path, PrivateRepoModel, SharedRepoModel, SharedRuleModel};
use crate::text::{debug_text, decimal, without_prefixes, without_suffixes, Class, Text};
use crate::textmap::keys_of;
use crate::verbs::merged::MergedRepoModel;
use crate::verbs::portal::{
    addition_of, aliased, bad_alias, clone_spawn, derived_name, forgotten, last_segment, never_used,
    normalized, overlap_error, overlapping, portal_lines, portal_listing, recorded, registered,
    removal, room_for, seeded, seeds, AdditionModel, CloningModel,
};
use crate::verbs::work::{AskModel, EventModel};
use vstd::prelude::*;

verus! {

/// **The list has one line for each repo, in order**: it is the lines of the
/// repos one after the other, each with the repo's name, its placement and its
/// URL, or a question mark where none is recorded.
pub proof fn law_list_has_a_line_for_each_repo(m: Map<Text, MergedRepoModel>, ks: Seq<Text>)
    ensures
        portal_lines(m, ks) == ks.map_values(
            |k: Text|
                k + "  ->  "@ + place_of(m[k].at, m[k].url, k) + "  ("@ + (match m[k].url {
                    Some(u) => u,
                    None => "?"@,
                }) + ")\n"@,
        ).flatten(),
    decreases ks.len(),
{
    let f = |k: Text|
        k + "  ->  "@ + place_of(m[k].at, m[k].url, k) + "  ("@ + (match m[k].url {
            Some(u) => u,
            None => "?"@,
        }) + ")\n"@;
    let lines = ks.map_values(f);
    lines.lemma_flatten_and_flatten_alt_are_equivalent();
    if ks.len() > 0 {
        law_list_has_a_line_for_each_repo(m, ks.drop_last());
        assert(lines.drop_last() =~= ks.drop_last().map_values(f));
        lines.drop_last().lemma_flatten_and_flatten_alt_are_equivalent();
        assert(lines.last() == f(ks.last()));
    }
}

/// **One more repo is one more line, behind the others.**
pub proof fn law_list_grows_by_a_line(m: Map<Text, MergedRepoModel>, ks: Seq<Text>, k: Text)
    ensures
        portal_lines(m, Seq::empty()).len() == 0,
        portal_lines(m, ks.push(k)) == portal_lines(m, ks) + (k + "  ->  "@ + place_of(
            m[k].at,
            m[k].url,
            k,
        ) + "  ("@ + (match m[k].url {
            Some(u) => u,
            None => "?"@,
        }) + ")\n"@),
{
    assert(ks.push(k).drop_last() =~= ks);
}

/// **No repo is missing from the list**: the line of every repo stands in it,
/// behind the lines of those before and ahead of the lines of those behind.
pub proof fn law_no_repo_is_missing_from_the_list(
    m: Map<Text, MergedRepoModel>,
    ks: Seq<Text>,
    i: int,
)
    requires
        0 <= i < ks.len(),
    ensures
        portal_lines(m, ks) == portal_lines(m, ks.take(i)) + (ks[i] + "  ->  "@
            + place_of(m[ks[i]].at, m[ks[i]].url, ks[i]) + "  ("@ + (
        match m[ks[i]].url {
            Some(u) => u,
            None => "?"@,
        }) + ")\n"@) + portal_lines(m, ks.skip(i + 1)),
    decreases ks.len(),
{
    if i == ks.len() - 1 {
        assert(ks.take(i) =~= ks.drop_last());
        assert(ks.skip(i + 1) =~= Seq::empty());
        assert(portal_lines(m, ks.skip(i + 1)) =~= Seq::empty());
        assert(portal_lines(m, ks) =~= portal_lines(m, ks.take(i)) + (ks[i] + "  ->  "@
            + place_of(m[ks[i]].at, m[ks[i]].url, ks[i]) + "  ("@ + (
        match m[ks[i]].url {
            Some(u) => u,
            None => "?"@,
        }) + ")\n"@) + Seq::empty());
    } else {
        let init = ks.drop_last();
        law_no_repo_is_missing_from_the_list(m, init, i);
        assert(init.take(i) =~= ks.take(i));
        let rest = ks.skip(i + 1);
        assert(rest.drop_last() =~= init.skip(i + 1));
        assert(rest.last() == ks.last());
        assert(portal_lines(m, ks) =~= portal_lines(m, ks.take(i)) + (ks[i] + "  ->  "@
            + place_of(m[ks[i]].at, m[ks[i]].url, ks[i]) + "  ("@ + (
        match m[ks[i]].url {
            Some(u) => u,
            None => "?"@,
        }) + ")\n"@) + portal_lines(m, rest));
    }
}

proof fn lemma_last_segment(dir: Text, base: Text)
    requires
        !base.contains('/'),
        !base.contains('\\'),
        dir.len() == 0 || dir.last() == '/' || dir.last() == '\\',
    ensures
        last_segment(dir + base) == base,
    decreases base.len(),
{
    let s = dir + base;
    if base.len() == 0 {
        assert(s =~= dir);
        assert(base =~= Seq::empty());
    } else {
        assert(base[base.len() - 1] == base.last());
        let init = base.drop_last();
        assert forall|i: int| 0 <= i < init.len() implies init[i] != '/' && init[i] != '\\' by {
            assert(base[i] == init[i]);
        }
        lemma_last_segment(dir, init);
        assert(s.drop_last() =~= dir + init);
        assert(s.last() == base.last());
        assert(init.push(base.last()) =~= base);
    }
}

/// **A repo is named after the last segment of its URL**, without `.git`; both
/// slashes separate. A URL whose last segment gives no valid name is refused.
pub proof fn law_name_is_the_last_segment(dir: Text, base: Text)
    requires
        !base.contains('/'),
        !base.contains('\\'),
        dir.len() == 0 || dir.last() == '/' || dir.last() == '\\',
    ensures
        ({
            let stem = without_suffixes(base, ".git"@);
            &&& derived_name(dir + base) is Ok <==> valid_name(stem)
            &&& valid_name(stem) ==> derived_name(dir + base) == Ok::<Text, Text>(stem)
            &&& stem.len() == 0 ==> derived_name(dir + base) == Err::<Text, Text>(
                "portal: cannot derive repo name from url "@ + debug_text(dir + base),
            )
            &&& stem.len() > 0 && !valid_name(stem) ==> derived_name(dir + base) == Err::<
                Text,
                Text,
            >("invalid repo name: "@ + debug_text(stem))
        }),
{
    lemma_last_segment(dir, base);
}

/// **A repo is refused for one of three reasons**, in this order: it is
/// registered, its placement overlaps, or an alias names no valid branchtype.
/// Otherwise it is let in, at the placement that was asked for or under its
/// own name.
pub proof fn law_admission(
    root: Text,
    m: Map<Text, SharedRepoModel>,
    name: Text,
    url: Text,
    at: Option<Text>,
    alias: Seq<(Text, Text)>,
)
    ensures
        m.contains_key(name) ==> addition_of(root, m, name, url, at, alias) == Err::<
            AdditionModel,
            Text,
        >("portal: repo "@ + name + " already registered"@),
        addition_of(root, m, name, url, at, alias) matches Ok(a) ==> {
            &&& !m.contains_key(name)
            &&& a.name == name
            &&& a.url == url
            &&& a.alias == alias
            &&& at matches Some(p) ==> a.at == p
            &&& at is None ==> a.at == name
            &&& forall|i: int| 0 <= i < alias.len() ==> valid_name((#[trigger] alias[i]).0)
        },
{
    lemma_no_bad_alias(alias);
}

proof fn lemma_no_bad_alias(alias: Seq<(Text, Text)>)
    ensures
        bad_alias(alias) is None <==> forall|i: int|
            0 <= i < alias.len() ==> valid_name((#[trigger] alias[i]).0),
        bad_alias(alias) matches Some(b) ==> !valid_name(b) && exists|i: int|
            0 <= i < alias.len() && (#[trigger] alias[i]).0 == b,
    decreases alias.len(),
{
    if alias.len() > 0 {
        let init = alias.drop_last();
        lemma_no_bad_alias(init);
        assert(alias[alias.len() - 1] == alias.last());
        assert forall|i: int| 0 <= i < init.len() implies init[i] == alias[i] by {}
        if bad_alias(init) is Some {
            let i = choose|i: int|
                0 <= i < init.len() && (#[trigger] init[i]).0 == bad_alias(init)->0;
            assert(alias[i].0 == bad_alias(init)->0);
        }
    }
}

/// **An alias that names no valid branchtype is named in the refusal.**
pub proof fn law_bad_alias_is_named(alias: Seq<(Text, Text)>)
    ensures
        bad_alias(alias) is Some <==> exists|i: int|
            0 <= i < alias.len() && !valid_name((#[trigger] alias[i]).0),
        bad_alias(alias) matches Some(b) ==> !valid_name(b) && exists|i: int|
            0 <= i < alias.len() && (#[trigger] alias[i]).0 == b,
{
    lemma_no_bad_alias(alias);
}

/// **A conflict is named**: the refusal names the placement that was asked for,
/// the repo that it overlaps with, and where that repo is.
pub proof fn law_conflict_is_named(at: Text, name: Text, r: SharedRepoModel)
    ensures
        overlap_error(at, name, r) == "portal: placement "@ + debug_text(at)
            + " overlaps with repo "@ + debug_text(name) + " at "@ + debug_text(
            normalized(place_of(r.at, r.url, name)),
        ),
{
}

/// **What was let in is what is recorded**: the manifest gains one entry, under
/// the repo's name, with its URL, its placement, no sparse paths and its
/// aliases; every other entry stays.
pub proof fn law_recorded(m: Map<Text, SharedRepoModel>, a: AdditionModel, other: Text)
    ensures
        recorded(m, a).contains_key(a.name),
        recorded(m, a)[a.name].url == Some(a.url),
        recorded(m, a)[a.name].at == Some(a.at),
        recorded(m, a)[a.name].paths == Seq::<Text>::empty(),
        recorded(m, a)[a.name].branchtypes == aliased(a.alias),
        other != a.name ==> recorded(m, a).contains_key(other) == m.contains_key(other) && (
        m.contains_key(other) ==> recorded(m, a)[other] == m[other]),
{
}

/// **Every alias is recorded, and the last one counts**: a branchtype stands
/// for the branch of the last alias that names it, and for none where no alias
/// does.
pub proof fn law_aliases(alias: Seq<(Text, Text)>, i: int, bt: Text)
    ensures
        0 <= i < alias.len() && (forall|j: int|
            i < j < alias.len() ==> (#[trigger] alias[j]).0 != alias[i].0) ==> aliased(
            alias,
        ).contains_key(alias[i].0) && aliased(alias)[alias[i].0] == alias[i].1,
        (forall|j: int| 0 <= j < alias.len() ==> (#[trigger] alias[j]).0 != bt) ==> !aliased(
            alias,
        ).contains_key(bt),
    decreases alias.len(),
{
    if alias.len() > 0 {
        let init = alias.drop_last();
        law_aliases(init, i, bt);
        assert(alias[alias.len() - 1] == alias.last());
        assert forall|j: int| 0 <= j < init.len() implies init[j] == alias[j] by {}
    }
}

/// **A clone fetches metainfo only**: the process is this one, in the directory
/// that is to hold the clone.
pub proof fn law_clone_fetches_metainfo_only(
    parent: Text,
    url: Text,
    dest: Text,
    auth: Seq<(Text, Text)>,
)
    ensures
        clone_spawn(parent, url, dest, auth).argv == seq![
            "git"@,
            "clone"@,
            "--filter=blob:none"@,
            "--sparse"@,
            "--no-checkout"@,
            "--"@,
            url,
            dest,
        ],
        clone_spawn(parent, url, dest, auth).dir == parent,
        clone_spawn(parent, url, dest, auth).env == seq![("GIT_TERMINAL_PROMPT"@, "0"@)] + auth,
{
}

/// **A repo that is not there is cloned once, to its placement**: the placement
/// is looked for, its parent is made, and one clone process runs there. If that
/// succeeds the repo has landed; if not, the error says which URL failed.
pub proof fn law_missing_repo_is_cloned(
    root: Text,
    a: AdditionModel,
    auth: Seq<(Text, Text)>,
    parent: Text,
    file_name: Text,
    r: ReplyModel,
)
    ensures
        ({
            let s0 = CloningModel::fresh(root, a, auth);
            let s1 = s0.after(
                EventModel::Probed {
                    exists: false,
                    parent: Some(parent),
                    file_name: Some(file_name),
                },
            );
            let s2 = s1.after(EventModel::Done(Ok(())));
            let s3 = s2.after(EventModel::Ran(r));
            &&& s0.next() == AskModel::Probe(joined_path(root, a.at))
            &&& s1.next() == AskModel::MakeDir(parent)
            &&& s2.next() matches AskModel::Run(spawn) && spawn.dir == parent && spawn.argv == seq![
                "git"@,
                "clone"@,
                "--filter=blob:none"@,
                "--sparse"@,
                "--no-checkout"@,
                "--"@,
                a.url,
                file_name,
            ]
            &&& r.ok() ==> s3.next() == AskModel::End(Ok::<Text, Text>(Seq::empty()))
                && s3.addition == a
            &&& !r.ok() ==> s3.next() == AskModel::End(
                Err::<Text, Text>(
                    "cloning "@ + a.url + ": "@ + checked(
                        clone_spawn(parent, a.url, file_name, auth),
                        r,
                    )->Err_0,
                ),
            )
        }),
{
}

/// **A repo that is there is not cloned**: nothing runs, and it is said so.
pub proof fn law_present_repo_is_not_cloned(
    root: Text,
    a: AdditionModel,
    auth: Seq<(Text, Text)>,
    parent: Option<Text>,
    file_name: Option<Text>,
)
    ensures
        ({
            let s0 = CloningModel::fresh(root, a, auth);
            let s1 = s0.after(EventModel::Probed { exists: true, parent, file_name });
            let s2 = s1.after(EventModel::Said);
            &&& s1.next() == AskModel::Warn(
                "portal: "@ + a.at + " already exists on disk, skipping clone\n"@,
            )
            &&& s2.next() == AskModel::End(Ok::<Text, Text>(Seq::empty()))
            &&& s2.addition == a
        }),
{
}

/// **What is said**: of a repo that was registered, and of one that was removed
/// or was not there.
pub proof fn law_portal_says(a: AdditionModel, name: Text)
    ensures
        registered(a) == "portal: registered "@ + a.name + " at "@ + a.at + "\n"@,
        removal(true, name) == Ok::<Text, Text>(
            "portal: removed "@ + name + " (working tree left in place)\n"@,
        ),
        removal(false, name) == Err::<Text, Text>("portal: repo "@ + name + " not registered"@),
{
}

/// **Default rules are seeded into a fresh workspace only**, and only where it
/// has no rules.
pub proof fn law_seeding(fresh: bool, rules_exists: bool, m: Map<Text, SharedRuleModel>)
    ensures
        seeds(fresh, rules_exists, m) <==> fresh && !rules_exists && m.dom() =~= Set::empty(),
{
    if m.dom() =~= Set::empty() {
        assert(m =~= Map::empty());
    }
}

/// **A placement is refused for the first repo that it overlaps with**, in name
/// order: one of another name whose placement, taken from the workspace root,
/// leads to the same place, or to one inside it, or the other way round.
pub proof fn law_room(root: Text, m: Map<Text, SharedRepoModel>, name: Text, at: Text)
    ensures
        ({
            let clashing = keys_of(m).filter(
                |k: Text|
                    k != name && overlap(
                        joined_path(root, at),
                        joined_path(root, place_of(m[k].at, m[k].url, k)),
                    ),
            );
            &&& clashing.len() == 0 ==> room_for(root, m, name, at) is Ok
            &&& clashing.len() > 0 ==> room_for(root, m, name, at) == Err::<(), Text>(
                "portal: placement "@ + debug_text(at) + " overlaps with repo "@ + debug_text(
                    clashing[0],
                ) + " at "@ + debug_text(
                    normalized(place_of(m[clashing[0]].at, m[clashing[0]].url, clashing[0])),
                ),
            )
        }),
{
    lemma_overlapping(root, m, keys_of(m), name, at);
}

proof fn lemma_overlapping(
    root: Text,
    m: Map<Text, SharedRepoModel>,
    ks: Seq<Text>,
    name: Text,
    at: Text,
)
    ensures
        ({
            let clashing = ks.filter(
                |k: Text|
                    k != name && overlap(
                        joined_path(root, at),
                        joined_path(root, place_of(m[k].at, m[k].url, k)),
                    ),
            );
            &&& clashing.len() == 0 ==> overlapping(root, m, ks, name, at) is None
            &&& clashing.len() > 0 ==> overlapping(root, m, ks, name, at) == Some(clashing[0])
        }),
    decreases ks.len(),
{
    reveal(Seq::filter);
    if ks.len() > 0 {
        lemma_overlapping(root, m, ks.drop_last(), name, at);
    }
}

/// **What a refusal shows of a placement**: it is without leading `./` and
/// without trailing slashes.
pub proof fn law_shown_placement(p: Text)
    ensures
        normalized("./"@ + p) == normalized(p),
        normalized(p).len() > 0 ==> normalized(p).last() != '/',
        !"./"@.is_prefix_of(p) && p.len() > 0 && p.last() != '/' ==> normalized(p) == p,
{
    reveal_strlit("./");
    crate::laws::text::law_strip_repeated(p, "./"@);
    crate::laws::text::law_trim(without_prefixes(p, "./"@), Class::Only('/'));
}

/// **What is asked comes in this order**: whether the repo is registered,
/// whether there is room, whether the aliases are valid. Where all is well the
/// repo is let in.
pub proof fn law_refusals_in_order(
    root: Text,
    m: Map<Text, SharedRepoModel>,
    name: Text,
    url: Text,
    at: Option<Text>,
    alias: Seq<(Text, Text)>,
)
    ensures
        ({
            let place = match at {
                Some(a) => a,
                None => name,
            };
            let r = addition_of(root, m, name, url, at, alias);
            &&& m.contains_key(name) ==> r == Err::<AdditionModel, Text>(
                "portal: repo "@ + name + " already registered"@,
            )
            &&& !m.contains_key(name) ==> (room_for(root, m, name, place) matches Err(why) ==> r
                == Err::<AdditionModel, Text>(why))
            &&& !m.contains_key(name) && room_for(root, m, name, place) is Ok ==> {
                &&& bad_alias(alias) matches Some(b) ==> r == Err::<AdditionModel, Text>(
                    "invalid branchtype: "@ + debug_text(b),
                )
                &&& bad_alias(alias) is None ==> r == Ok::<AdditionModel, Text>(
                    AdditionModel { name, url, at: place, alias },
                )
            }
        }),
{
}

/// **What was not waited for changes nothing.**
pub proof fn law_only_answers_count(s: CloningModel, e: EventModel)
    ensures
        !s.next().answered_by(e) ==> s.after(e) == s,
{
}

/// **Where the placement has no parent, the workspace stands for it; where it
/// has no name, the repo's name does.** A directory that could not be made ends
/// the clone with the reason.
pub proof fn law_clone_at_the_edge(
    root: Text,
    a: AdditionModel,
    auth: Seq<(Text, Text)>,
    parent: Option<Text>,
    file_name: Option<Text>,
    why: Text,
)
    ensures
        ({
            let s1 = CloningModel::fresh(root, a, auth).after(
                EventModel::Probed { exists: false, parent, file_name },
            );
            let s2 = s1.after(EventModel::Done(Ok(())));
            let dir = match parent {
                Some(p) => p,
                None => root,
            };
            let dest = match file_name {
                Some(f) => f,
                None => a.name,
            };
            &&& s1.next() == AskModel::MakeDir(dir)
            &&& s2.next() == AskModel::Run(clone_spawn(dir, a.url, dest, auth))
            &&& s1.after(EventModel::Done(Err(why))).next() == AskModel::End(Err::<Text, Text>(why))
        }),
{
}

/// **The whole list**: every registered repo in name order, or a line that says
/// that there is none.
pub proof fn law_list(m: Map<Text, MergedRepoModel>)
    ensures
        keys_of(m).len() == 0 ==> portal_listing(m) == "(no repos registered)\n"@,
        keys_of(m).len() > 0 ==> portal_listing(m) == keys_of(m).map_values(
            |k: Text|
                k + "  ->  "@ + place_of(m[k].at, m[k].url, k) + "  ("@ + (match m[k].url {
                    Some(u) => u,
                    None => "?"@,
                }) + ")\n"@,
        ).flatten(),
{
    law_list_has_a_line_for_each_repo(m, keys_of(m));
}

/// **A repo has landed once its clone is over, and well.**
pub proof fn law_landed(s: CloningModel)
    ensures
        s.next() == AskModel::End(Ok::<Text, Text>(Seq::empty())) ==> s.landed() == Some(
            s.addition,
        ),
        !(s.next() matches AskModel::End(Ok(_))) ==> s.landed() is None,
{
    if let AskModel::End(Ok(_)) = s.next() {
        let nothing = s.stage->Over_0->Ok_0;
        assert(nothing == ());
    }
}

/// **A workspace has never been used where it holds no repo and no manifest
/// file, current or legacy.**
pub proof fn law_never_used(
    m: Map<Text, SharedRepoModel>,
    repos_exists: bool,
    legacy_exists: bool,
    k: Text,
)
    ensures
        never_used(Map::empty(), false, false),
        never_used(m, repos_exists, legacy_exists) ==> !repos_exists && !legacy_exists
            && !m.contains_key(k),
{
}

/// **Seeding puts both default rules there, and says how many**; otherwise the
/// rules stay as they are and nothing is said.
pub proof fn law_seeded(fresh: bool, rules_exists: bool, m: Map<Text, SharedRuleModel>)
    ensures
        seeded(true, false, Map::empty()).0 == default_rules(),
        seeded(true, false, Map::empty()).1 == Some(
            "portal: seeded "@ + decimal(2) + " default rule(s) into .xen/rules.toml\n"@,
        ),
        !fresh || rules_exists || m.dom().len() > 0 ==> seeded(fresh, rules_exists, m) == (
            m,
            None::<Text>,
        ),
{
    reveal_strlit("protect-main-push");
    reveal_strlit("protect-main-commit");
    assert("protect-main-push"@.len() != "protect-main-commit"@.len());
    assert(default_rules().dom().len() == 2);
}

/// **A repo that is removed is gone from both layers, and nothing else is**; one
/// that is not registered leaves both as they are.
pub proof fn law_forgotten(
    s: Map<Text, SharedRepoModel>,
    p: Map<Text, PrivateRepoModel>,
    name: Text,
    other: Text,
)
    ensures
        ({
            let (t, q) = forgotten(s, p, name);
            &&& !t.contains_key(name)
            &&& s.contains_key(name) ==> !q.contains_key(name)
            &&& !s.contains_key(name) ==> t == s && q == p
            &&& other != name ==> {
                &&& t.contains_key(other) == s.contains_key(other)
                &&& s.contains_key(other) ==> t[other] == s[other]
                &&& q.contains_key(other) == p.contains_key(other)
                &&& p.contains_key(other) ==> q[other] == p[other]
            }
        }),
{
}

} // verus!
