//! `portal`: register, unregister and list repos.
//!
//! Adding a repo clones its metainfo first and records it second. If the clone
//! fails, the workspace looks exactly as it did before the command.

use crate::key::{checked_name, Branchtype, KeyErrorModel, RepoName};
use crate::place::{self, overlap};
use crate::proc::{self, checked, spawn_of, Spawn, SpawnModel};
use crate::rules::{self, default_rules};
use crate::store::{
    join_path, joined_path, manifest_place, PrivateConfig, PrivateRepoModel, RulesConfig,
    SharedConfig, SharedRepo, SharedRepoModel, SharedRuleModel,
};
use crate::text::{self, outcome, Class, Text};
use crate::textmap::{keys_of, TextMap};
use crate::verbs::merged::{placed, Merged, MergedRepoModel};
use crate::verbs::work::{Ask, AskModel, Event, EventModel};
use vstd::prelude::*;

verus! {

// --- names ------------------------------------------------------------------

/// Whether a character separates the segments of a URL or a local path.
pub open spec fn separator(c: char) -> bool {
    c == '/' || c == '\\'
}

/// What stands behind the last separator.
pub open spec fn last_segment(url: Text) -> Text
    decreases url.len(),
{
    if url.len() == 0 || separator(url.last()) {
        Seq::empty()
    } else {
        last_segment(url.drop_last()).push(url.last())
    }
}

/// The repo name that a URL gives.
pub open spec fn derived_name(url: Text) -> Result<Text, Text> {
    let stem = text::without_suffixes(last_segment(url), ".git"@);
    if stem.len() == 0 {
        Err("portal: cannot derive repo name from url "@ + text::debug_text(url))
    } else {
        match checked_name(stem, KeyErrorModel::InvalidRepoName(stem)) {
            Ok(n) => Ok(n),
            Err(e) => Err(e.message()),
        }
    }
}

proof fn lemma_last_segment(url: Text, start: int, end: int)
    requires
        0 <= start <= end <= url.len(),
        start == 0 || separator(url[start - 1]),
        forall|j: int| start <= j < end ==> !separator(#[trigger] url[j]),
    ensures
        last_segment(url.take(end)) == url.subrange(start, end),
    decreases end,
{
    let s = url.take(end);
    if end > start {
        lemma_last_segment(url, start, end - 1);
        assert(s.drop_last() =~= url.take(end - 1));
        assert(s.last() == url[end - 1]);
        assert(url.subrange(start, end) =~= url.subrange(start, end - 1).push(url[end - 1]));
    } else {
        assert(url.subrange(start, end) =~= Seq::empty());
        if end > 0 {
            assert(s.last() == url[end - 1]);
        }
    }
}

/// Derives a repo name from a URL. Both `/` and `\` separate, so that local
/// paths work on every platform.
pub fn derive_repo_name(url: &str) -> (r: Result<RepoName, String>)
    ensures
        outcome(r) == derived_name(url@),
{
    let cs: Vec<char> = text::chars_of(url);
    let n: usize = cs.len();
    let mut start: usize = 0;
    for i in 0..n
        invariant
            cs@ == url@,
            n == cs@.len(),
            start <= i,
            start == 0 || separator(url@[start - 1]),
            forall|j: int| start <= j < i ==> !separator(#[trigger] url@[j]),
    {
        if cs[i] == '/' || cs[i] == '\\' {
            start = i + 1;
        }
    }
    proof {
        lemma_last_segment(url@, start as int, n as int);
        assert(url@.take(n as int) =~= url@);
    }
    let last: String = text::slice(url, start, n);
    let stem: String = text::trim_suffixes(last.as_str(), ".git");
    if stem.as_str().unicode_len() == 0 {
        return Err(
            text::cat("portal: cannot derive repo name from url ", text::quoted(url).as_str()),
        );
    }
    match RepoName::new(stem.as_str()) {
        Ok(name) => Ok(name),
        Err(e) => Err(e.message()),
    }
}

// --- placements -------------------------------------------------------------

/// A relative path without `./` in front and without `/` behind, as it is
/// shown.
pub open spec fn normalized(p: Text) -> Text {
    text::trimmed_end(text::without_prefixes(p, "./"@), Class::Only('/'))
}

/// Removes `./` in front of a relative path, and `/` behind it.
pub fn normalize_rel(p: &str) -> (r: String)
    ensures
        r@ == normalized(p@),
{
    text::trim_end(text::trim_prefixes(p, "./").as_str(), Class::Only('/'))
}

/// Whether two paths lead to the same place, or one to a place inside the
/// other.
pub fn paths_overlap(a: &str, b: &str) -> (r: bool)
    ensures
        r == overlap(a@, b@),
{
    place::overlaps(a, b)
}

/// What is said of a placement that overlaps with another repo's.
pub open spec fn overlap_error(at: Text, name: Text, r: SharedRepoModel) -> Text {
    "portal: placement "@ + text::debug_text(at) + " overlaps with repo "@ + text::debug_text(name)
        + " at "@ + text::debug_text(normalized(manifest_place(name, r)))
}

/// Whether two placements lead to the same place, or one to a place inside the
/// other, in a workspace that stands at `root`.
pub open spec fn places_overlap(root: Text, a: Text, b: Text) -> bool {
    overlap(joined_path(root, a), joined_path(root, b))
}

/// The first of the repos `ks` that a new placement overlaps with.
pub open spec fn overlapping(
    root: Text,
    m: Map<Text, SharedRepoModel>,
    ks: Seq<Text>,
    new_name: Text,
    new_at: Text,
) -> Option<Text>
    decreases ks.len(),
{
    if ks.len() == 0 {
        None
    } else {
        match overlapping(root, m, ks.drop_last(), new_name, new_at) {
            Some(n) => Some(n),
            None => if ks.last() != new_name && places_overlap(
                root,
                new_at,
                manifest_place(ks.last(), m[ks.last()]),
            ) {
                Some(ks.last())
            } else {
                None
            },
        }
    }
}

proof fn lemma_overlapping_stays(
    root: Text,
    m: Map<Text, SharedRepoModel>,
    ks: Seq<Text>,
    new_name: Text,
    new_at: Text,
    i: int,
)
    requires
        0 <= i <= ks.len(),
        overlapping(root, m, ks.take(i), new_name, new_at) is Some,
    ensures
        overlapping(root, m, ks, new_name, new_at) == overlapping(
            root,
            m,
            ks.take(i),
            new_name,
            new_at,
        ),
    decreases ks.len(),
{
    if i < ks.len() {
        assert(ks.drop_last().take(i) =~= ks.take(i));
        lemma_overlapping_stays(root, m, ks.drop_last(), new_name, new_at, i);
    } else {
        assert(ks.take(i) =~= ks);
    }
}

/// Whether a manifest has room for a new repo at a placement, and otherwise
/// why not.
pub open spec fn room_for(
    root: Text,
    m: Map<Text, SharedRepoModel>,
    new_name: Text,
    new_at: Text,
) -> Result<(), Text> {
    match overlapping(root, m, keys_of(m), new_name, new_at) {
        Some(n) => Err(overlap_error(new_at, n, m[n])),
        None => Ok(()),
    }
}

/// Refuses a placement that overlaps with that of a registered repo, and names
/// the conflict.
pub fn check_no_overlap(
    root: &str,
    shared: &SharedConfig,
    new_name: &RepoName,
    new_at: &str,
) -> (r: Result<(), String>)
    ensures
        outcome(r) == room_for(root@, shared.deep_view(), new_name.deep_view(), new_at@),
{
    let ghost m = shared.deep_view();
    let ghost q = keys_of(m);
    let dest: String = join_path(root, new_at);
    let n: usize = shared.repos.len();
    for i in 0..n
        invariant
            m == shared.deep_view(),
            q == keys_of(m),
            n == q.len(),
            dest@ == joined_path(root@, new_at@),
            overlapping(root@, m, q.take(i as int), new_name.deep_view(), new_at@) is None,
    {
        assert(q.take(i + 1).drop_last() =~= q.take(i as int));
        let name: &str = shared.repos.key_at(i);
        if !text::same(name, new_name.as_str()) {
            let other: String = shared.repos.value_at(i).placement(name);
            if paths_overlap(dest.as_str(), join_path(root, other.as_str()).as_str()) {
                proof {
                    lemma_overlapping_stays(root@, m, q, new_name.deep_view(), new_at@, i + 1);
                }
                let mut e: String = text::cat(
                    "portal: placement ",
                    text::quoted(new_at).as_str(),
                );
                e.append(" overlaps with repo ");
                e.append(text::quoted(name).as_str());
                e.append(" at ");
                e.append(text::quoted(normalize_rel(other.as_str()).as_str()).as_str());
                return Err(e);
            }
        }
    }
    assert(q.take(n as int) =~= q);
    Ok(())
}

// --- adding -----------------------------------------------------------------

/// A repo that may be added.
#[derive(Debug)]
pub struct Addition {
    pub name: RepoName,
    pub url: String,
    /// Where it goes, relative to the workspace root.
    pub at: String,
    /// The branch that each branchtype stands for; later ones win.
    pub alias: Vec<(String, String)>,
}

/// What an `Addition` stands for.
#[verifier::ext_equal]
pub struct AdditionModel {
    pub name: Text,
    pub url: Text,
    pub at: Text,
    pub alias: Seq<(Text, Text)>,
}

impl DeepView for Addition {
    type V = AdditionModel;

    open spec fn deep_view(&self) -> AdditionModel {
        AdditionModel {
            name: self.name.deep_view(),
            url: self.url@,
            at: self.at@,
            alias: self.alias.deep_view(),
        }
    }
}

/// The first of the aliases `alias` whose branchtype is no valid name.
pub open spec fn bad_alias(alias: Seq<(Text, Text)>) -> Option<Text>
    decreases alias.len(),
{
    if alias.len() == 0 {
        None
    } else {
        match bad_alias(alias.drop_last()) {
            Some(a) => Some(a),
            None => if crate::key::valid_name(alias.last().0) {
                None
            } else {
                Some(alias.last().0)
            },
        }
    }
}

proof fn lemma_bad_alias_stays(alias: Seq<(Text, Text)>, i: int)
    requires
        0 <= i <= alias.len(),
        bad_alias(alias.take(i)) is Some,
    ensures
        bad_alias(alias) == bad_alias(alias.take(i)),
    decreases alias.len(),
{
    if i < alias.len() {
        assert(alias.drop_last().take(i) =~= alias.take(i));
        lemma_bad_alias_stays(alias.drop_last(), i);
    } else {
        assert(alias.take(i) =~= alias);
    }
}

fn find_bad_alias(alias: &Vec<(String, String)>) -> (r: Option<String>)
    ensures
        match bad_alias(alias.deep_view()) {
            Some(a) => r is Some && r->0@ == KeyErrorModel::InvalidBranchtype(a).message(),
            None => r is None,
        },
{
    let ghost q = alias.deep_view();
    for i in 0..alias.len()
        invariant
            q == alias.deep_view(),
            bad_alias(q.take(i as int)) is None,
    {
        assert(q.take(i + 1).drop_last() =~= q.take(i as int));
        match Branchtype::new(alias[i].0.as_str()) {
            Ok(_) => {},
            Err(e) => {
                proof {
                    lemma_bad_alias_stays(q, i + 1);
                }
                return Some(e.message());
            },
        }
    }
    assert(q.take(alias@.len() as int) =~= q);
    None
}

/// The addition of a repo to a manifest, or why it is refused.
pub open spec fn addition_of(
    root: Text,
    m: Map<Text, SharedRepoModel>,
    name: Text,
    url: Text,
    at: Option<Text>,
    alias: Seq<(Text, Text)>,
) -> Result<AdditionModel, Text> {
    let place = match at {
        Some(a) => a,
        None => name,
    };
    if m.contains_key(name) {
        Err("portal: repo "@ + name + " already registered"@)
    } else {
        match (room_for(root, m, name, place), bad_alias(alias)) {
            (Err(why), _) => Err(why),
            (Ok(_), Some(a)) => Err(KeyErrorModel::InvalidBranchtype(a).message()),
            (Ok(_), None) => Ok(AdditionModel { name, url, at: place, alias }),
        }
    }
}

/// Decides whether a repo may be added: it is not registered yet, its
/// placement overlaps with no other, and its aliases name valid branchtypes.
pub fn portal_add(
    root: &str,
    shared: &SharedConfig,
    name: RepoName,
    url: String,
    at: Option<String>,
    alias: Vec<(String, String)>,
) -> (r: Result<Addition, String>)
    ensures
        outcome(r) == addition_of(
            root@,
            shared.deep_view(),
            name.deep_view(),
            url@,
            at.deep_view(),
            alias.deep_view(),
        ),
{
    if shared.repos.contains_key(name.as_str()) {
        let mut e: String = text::cat("portal: repo ", name.as_str());
        e.append(" already registered");
        return Err(e);
    }
    let at: String = match at {
        Some(a) => a,
        None => name.as_str().to_owned(),
    };
    if let Err(e) = check_no_overlap(root, shared, &name, at.as_str()) {
        return Err(e);
    }
    if let Some(e) = find_bad_alias(&alias) {
        return Err(e);
    }
    Ok(Addition { name, url, at, alias })
}

/// The branchtypes that a list of aliases gives.
pub open spec fn aliased(alias: Seq<(Text, Text)>) -> Map<Text, Text>
    decreases alias.len(),
{
    if alias.len() == 0 {
        Map::empty()
    } else {
        aliased(alias.drop_last()).insert(alias.last().0, alias.last().1)
    }
}

/// The manifest entry of an addition.
pub open spec fn entry_of(a: AdditionModel) -> SharedRepoModel {
    SharedRepoModel {
        url: Some(a.url),
        at: Some(a.at),
        paths: Seq::empty(),
        branchtypes: aliased(a.alias),
    }
}

/// A manifest with an addition recorded.
pub open spec fn recorded(m: Map<Text, SharedRepoModel>, a: AdditionModel) -> Map<
    Text,
    SharedRepoModel,
> {
    m.insert(a.name, entry_of(a))
}

// --- cloning ----------------------------------------------------------------

#[derive(Debug)]
enum Stage {
    Probe,
    Notice,
    Room { parent: String, dest: String },
    Clone { spawn: Spawn },
    Over(Result<(), String>),
}

/// How far the clone of a new repo has come.
pub enum StageModel {
    Probe,
    Notice,
    Room { parent: Text, dest: Text },
    Clone { spawn: SpawnModel },
    Over(Result<(), Text>),
}

impl DeepView for Stage {
    type V = StageModel;

    closed spec fn deep_view(&self) -> StageModel {
        match self {
            Stage::Probe => StageModel::Probe,
            Stage::Notice => StageModel::Notice,
            Stage::Room { parent, dest } => StageModel::Room { parent: parent@, dest: dest@ },
            Stage::Clone { spawn } => StageModel::Clone { spawn: spawn.deep_view() },
            Stage::Over(r) => StageModel::Over(outcome(*r)),
        }
    }
}

/// The clone of a new repo, under way.
#[derive(Debug)]
pub struct Cloning {
    root: String,
    addition: Addition,
    /// Where the clone goes.
    dest: String,
    auth: Vec<(String, String)>,
    stage: Stage,
}

/// What a `Cloning` stands for.
pub struct CloningModel {
    pub root: Text,
    pub addition: AdditionModel,
    pub dest: Text,
    pub auth: Seq<(Text, Text)>,
    pub stage: StageModel,
}

impl DeepView for Cloning {
    type V = CloningModel;

    closed spec fn deep_view(&self) -> CloningModel {
        CloningModel {
            root: self.root@,
            addition: self.addition.deep_view(),
            dest: self.dest@,
            auth: self.auth.deep_view(),
            stage: self.stage.deep_view(),
        }
    }
}

/// A repo that stands at its placement. Only a clone that ended well gives
/// one, and only such a repo can be recorded.
#[derive(Debug)]
pub struct Cloned {
    addition: Addition,
}

impl DeepView for Cloned {
    type V = AdditionModel;

    closed spec fn deep_view(&self) -> AdditionModel {
        self.addition.deep_view()
    }
}

/// A clone of metainfo only: `--no-checkout` is what keeps the working tree
/// empty.
pub open spec fn clone_spawn(
    parent: Text,
    url: Text,
    dest: Text,
    auth: Seq<(Text, Text)>,
) -> SpawnModel {
    spawn_of(
        parent,
        seq![
            "git"@,
            "clone"@,
            "--filter=blob:none"@,
            "--sparse"@,
            "--no-checkout"@,
            "--"@,
            url,
            dest,
        ],
        auth,
    )
}

/// A clone of metainfo only.
pub fn clone_metainfo(parent: &str, url: &str, dest: &str, auth: &Vec<(String, String)>) -> (r:
    Spawn)
    ensures
        r.deep_view() == clone_spawn(parent@, url@, dest@, auth.deep_view()),
{
    let r: Spawn = proc::git(
        parent,
        &["clone", "--filter=blob:none", "--sparse", "--no-checkout", "--", url, dest],
        auth,
    );
    assert(r.deep_view().argv =~= clone_spawn(parent@, url@, dest@, auth.deep_view()).argv);
    r
}

impl CloningModel {
    /// A clone that has not begun.
    pub open spec fn fresh(root: Text, a: AdditionModel, auth: Seq<(Text, Text)>) -> CloningModel {
        CloningModel {
            root,
            addition: a,
            dest: joined_path(root, a.at),
            auth,
            stage: StageModel::Probe,
        }
    }

    /// What is asked for next. A clone that is there ends well, with nothing
    /// left to say.
    pub open spec fn next(self) -> AskModel {
        match self.stage {
            StageModel::Probe => AskModel::Probe(self.dest),
            StageModel::Notice => AskModel::Warn(
                "portal: "@ + self.addition.at + " already exists on disk, skipping clone\n"@,
            ),
            StageModel::Room { parent, .. } => AskModel::MakeDir(parent),
            StageModel::Clone { spawn } => AskModel::Run(spawn),
            StageModel::Over(Ok(_)) => AskModel::End(Ok(Seq::empty())),
            StageModel::Over(Err(e)) => AskModel::End(Err(e)),
        }
    }

    /// The repo, once its clone is there.
    pub open spec fn landed(self) -> Option<AdditionModel> {
        if self.stage == StageModel::Over(Ok::<(), Text>(())) {
            Some(self.addition)
        } else {
            None
        }
    }

    /// The same clone at another stage.
    pub open spec fn at_stage(self, stage: StageModel) -> CloningModel {
        CloningModel { stage, ..self }
    }

    /// What an event leads to.
    pub open spec fn after(self, e: EventModel) -> CloningModel {
        match (self.stage, e) {
            (StageModel::Probe, EventModel::Probed { exists, parent, file_name }) => self.at_stage(
                if exists {
                    StageModel::Notice
                } else {
                    StageModel::Room {
                        parent: match parent {
                            Some(p) => p,
                            None => self.root,
                        },
                        dest: match file_name {
                            Some(f) => f,
                            None => self.addition.name,
                        },
                    }
                },
            ),
            (StageModel::Notice, EventModel::Said) => self.at_stage(StageModel::Over(Ok(()))),
            (StageModel::Room { parent, dest }, EventModel::Done(Ok(_))) => self.at_stage(
                StageModel::Clone { spawn: clone_spawn(parent, self.addition.url, dest, self.auth) },
            ),
            (StageModel::Room { .. }, EventModel::Done(Err(why))) => self.at_stage(
                StageModel::Over(Err(why)),
            ),
            (StageModel::Clone { spawn }, EventModel::Ran(r)) => self.at_stage(
                StageModel::Over(
                    match checked(spawn, r) {
                        Ok(_) => Ok(()),
                        Err(why) => Err("cloning "@ + self.addition.url + ": "@ + why),
                    },
                ),
            ),
            _ => self,
        }
    }

    /// What a sequence of events leads to.
    pub open spec fn after_all(self, es: Seq<EventModel>) -> CloningModel
        decreases es.len(),
    {
        if es.len() == 0 {
            self
        } else {
            self.after_all(es.drop_last()).after(es.last())
        }
    }
}

impl Cloning {
    /// Begins the clone of a repo that may be added.
    pub fn start(root: &str, addition: Addition, auth: Vec<(String, String)>) -> (r: Cloning)
        ensures
            r.deep_view() == CloningModel::fresh(root@, addition.deep_view(), auth.deep_view()),
    {
        let dest: String = join_path(root, addition.at.as_str());
        Cloning { root: root.to_owned(), addition, dest, auth, stage: Stage::Probe }
    }

    /// What is asked for next.
    pub fn next(&self) -> (r: Ask<'_>)
        ensures
            r.deep_view() == self.deep_view().next(),
    {
        match &self.stage {
            Stage::Probe => Ask::Probe(self.dest.as_str()),
            Stage::Notice => {
                let mut s: String = text::cat("portal: ", self.addition.at.as_str());
                s.append(" already exists on disk, skipping clone\n");
                Ask::Warn(s)
            },
            Stage::Room { parent, .. } => Ask::MakeDir(parent.as_str()),
            Stage::Clone { spawn } => Ask::Run(spawn),
            Stage::Over(Ok(_)) => Ask::End(Ok(String::new())),
            Stage::Over(Err(e)) => Ask::End(Err(e.clone())),
        }
    }

    /// Takes what came of what was asked for.
    pub fn feed(self, event: &Event) -> (r: Cloning)
        ensures
            r.deep_view() == self.deep_view().after(event.deep_view()),
    {
        let Cloning { root, addition, dest, auth, stage } = self;
        let stage: Stage = match (stage, event) {
            (Stage::Probe, Event::Probed { exists, parent, file_name }) => if *exists {
                Stage::Notice
            } else {
                Stage::Room {
                    parent: match parent {
                        Some(p) => p.clone(),
                        None => root.clone(),
                    },
                    dest: match file_name {
                        Some(f) => f.clone(),
                        None => addition.name.as_str().to_owned(),
                    },
                }
            },
            (Stage::Notice, Event::Said) => Stage::Over(Ok(())),
            (Stage::Room { parent, dest }, Event::Done(Ok(_))) => Stage::Clone {
                spawn: clone_metainfo(parent.as_str(), addition.url.as_str(), dest.as_str(), &auth),
            },
            (Stage::Room { .. }, Event::Done(Err(why))) => Stage::Over(Err(why.clone())),
            (Stage::Clone { spawn }, Event::Ran(reply)) => Stage::Over(
                match proc::check_env(&spawn, reply) {
                    Ok(_) => Ok(()),
                    Err(why) => {
                        let mut e: String = text::cat("cloning ", addition.url.as_str());
                        e.append(": ");
                        e.append(why.as_str());
                        Err(e)
                    },
                },
            ),
            (stage, _) => stage,
        };
        Cloning { root, addition, dest, auth, stage }
    }

    /// The repo that stands at its placement, once the clone has ended well.
    pub fn landed(self) -> (r: Option<Cloned>)
        ensures
            r.deep_view() == self.deep_view().landed(),
    {
        match self.stage {
            Stage::Over(Ok(_)) => Some(Cloned { addition: self.addition }),
            _ => None,
        }
    }
}

/// Records a repo that stands at its placement in the manifest.
pub fn record(shared: &mut SharedConfig, c: &Cloned)
    ensures
        final(shared).deep_view() == recorded(old(shared).deep_view(), c.deep_view()),
{
    let a: &Addition = &c.addition;
    let ghost q = a.alias.deep_view();
    let mut branchtypes: TextMap<String> = TextMap::new();
    assert(branchtypes.deep_view() =~= aliased(q.take(0)));
    for i in 0..a.alias.len()
        invariant
            q == a.alias.deep_view(),
            branchtypes.deep_view() == aliased(q.take(i as int)),
    {
        assert(q.take(i + 1).drop_last() =~= q.take(i as int));
        branchtypes.insert(a.alias[i].0.clone(), a.alias[i].1.clone());
    }
    assert(q.take(a.alias@.len() as int) =~= q);
    let entry = SharedRepo {
        url: Some(a.url.clone()),
        at: Some(a.at.clone()),
        paths: Vec::new(),
        branchtypes,
    };
    assert(entry.paths.deep_view() =~= Seq::<Text>::empty());
    assert(entry.deep_view() == entry_of(a.deep_view()));
    shared.repos.insert(a.name.as_str().to_owned(), entry);
}

/// What is said once a repo is registered.
pub open spec fn registered(a: AdditionModel) -> Text {
    "portal: registered "@ + a.name + " at "@ + a.at + "\n"@
}

/// Says that a repo is registered.
pub fn say_registered(c: &Cloned) -> (r: String)
    ensures
        r@ == registered(c.deep_view()),
{
    let mut s: String = text::cat("portal: registered ", c.addition.name.as_str());
    s.append(" at ");
    s.append(c.addition.at.as_str());
    s.append("\n");
    s
}

// --- default rules ----------------------------------------------------------

/// Whether a workspace has never been used: nothing is registered and there
/// is no manifest file, current or legacy.
pub open spec fn never_used(
    m: Map<Text, SharedRepoModel>,
    repos_exists: bool,
    legacy_exists: bool,
) -> bool {
    m == Map::<Text, SharedRepoModel>::empty() && !repos_exists && !legacy_exists
}

/// Tells whether a workspace has never been used.
pub fn was_fresh(shared: &SharedConfig, repos_exists: bool, legacy_exists: bool) -> (r: bool)
    ensures
        r == never_used(shared.deep_view(), repos_exists, legacy_exists),
{
    shared.repos.is_empty() && !repos_exists && !legacy_exists
}

/// Whether the default rules are seeded: the workspace was fresh, it has no
/// rules file, and there are no rules.
pub open spec fn seeds(fresh: bool, rules_exists: bool, m: Map<Text, SharedRuleModel>) -> bool {
    fresh && !rules_exists && m == Map::<Text, SharedRuleModel>::empty()
}

/// The rules once the default rules are seeded where they are to be, and what
/// is said then.
pub open spec fn seeded(fresh: bool, rules_exists: bool, m: Map<Text, SharedRuleModel>) -> (
    Map<Text, SharedRuleModel>,
    Option<Text>,
) {
    if seeds(fresh, rules_exists, m) {
        (
            default_rules(),
            Some(
                "portal: seeded "@ + text::decimal(default_rules().dom().len())
                    + " default rule(s) into .xen/rules.toml\n"@,
            ),
        )
    } else {
        (m, None)
    }
}

/// Seeds the default rules into a fresh workspace, and says so.
pub fn seed(fresh: bool, rules_exists: bool, cfg: &mut RulesConfig) -> (r: Option<String>)
    ensures
        final(cfg).deep_view() == seeded(fresh, rules_exists, old(cfg).deep_view()).0,
        r.deep_view() == seeded(fresh, rules_exists, old(cfg).deep_view()).1,
{
    if fresh && !rules_exists && cfg.rules.is_empty() {
        cfg.rules = rules::defaults();
        let mut said: String = text::cat("portal: seeded ", text::count(cfg.rules.len()).as_str());
        said.append(" default rule(s) into .xen/rules.toml\n");
        Some(said)
    } else {
        None
    }
}

// --- removing ---------------------------------------------------------------

/// What is said of a repo that was to be removed.
pub open spec fn removal(was_there: bool, name: Text) -> Result<Text, Text> {
    if was_there {
        Ok("portal: removed "@ + name + " (working tree left in place)\n"@)
    } else {
        Err("portal: repo "@ + name + " not registered"@)
    }
}

/// The manifest and the private layer without a repo that is registered; both
/// as they are where it is not.
pub open spec fn forgotten(
    s: Map<Text, SharedRepoModel>,
    p: Map<Text, PrivateRepoModel>,
    name: Text,
) -> (Map<Text, SharedRepoModel>, Map<Text, PrivateRepoModel>) {
    if s.contains_key(name) {
        (s.remove(name), p.remove(name))
    } else {
        (s, p)
    }
}

/// Removes a repo from the manifest and from the private layer, or says that
/// it is not registered. The working tree stays where it is.
pub fn portal_remove(shared: &mut SharedConfig, private: &mut PrivateConfig, name: &RepoName) -> (r:
    Result<String, String>)
    ensures
        outcome(r) == removal(
            old(shared).deep_view().contains_key(name.deep_view()),
            name.deep_view(),
        ),
        final(shared).deep_view() == forgotten(
            old(shared).deep_view(),
            old(private).deep_view(),
            name.deep_view(),
        ).0,
        final(private).deep_view() == forgotten(
            old(shared).deep_view(),
            old(private).deep_view(),
            name.deep_view(),
        ).1,
{
    proof {
        if !shared.deep_view().contains_key(name.deep_view()) {
            assert(shared.deep_view().remove(name.deep_view()) =~= shared.deep_view());
        }
    }
    if shared.repos.remove(name.as_str()).is_none() {
        let mut e: String = text::cat("portal: repo ", name.as_str());
        e.append(" not registered");
        return Err(e);
    }
    let _ = private.repos.remove(name.as_str());
    let mut s: String = text::cat("portal: removed ", name.as_str());
    s.append(" (working tree left in place)\n");
    Ok(s)
}

// --- listing ----------------------------------------------------------------

/// The line of one repo in the portal list.
pub open spec fn portal_line(name: Text, r: MergedRepoModel) -> Text {
    name + "  ->  "@ + placed(r, name) + "  ("@ + match r.url {
        Some(u) => u,
        None => "?"@,
    } + ")\n"@
}

/// The lines of the repos `ks` in the portal list.
pub open spec fn portal_lines(m: Map<Text, MergedRepoModel>, ks: Seq<Text>) -> Text
    decreases ks.len(),
{
    if ks.len() == 0 {
        Seq::empty()
    } else {
        portal_lines(m, ks.drop_last()) + portal_line(ks.last(), m[ks.last()])
    }
}

/// The portal list.
pub open spec fn portal_listing(m: Map<Text, MergedRepoModel>) -> Text {
    if keys_of(m).len() == 0 {
        "(no repos registered)\n"@
    } else {
        portal_lines(m, keys_of(m))
    }
}

/// The registered repos with their placements and URLs, one line each, in
/// name order.
pub fn portal_list(merged: &Merged) -> (r: String)
    ensures
        r@ == portal_listing(merged.deep_view()),
{
    let ghost m = merged.deep_view();
    let ghost q = keys_of(m);
    let n: usize = merged.repos.len();
    if n == 0 {
        return "(no repos registered)\n".to_owned();
    }
    let mut out: String = String::new();
    assert(portal_lines(m, q.take(0)) =~= Seq::empty());
    for i in 0..n
        invariant
            m == merged.deep_view(),
            q == keys_of(m),
            n == q.len(),
            out@ == portal_lines(m, q.take(i as int)),
    {
        assert(q.take(i + 1).drop_last() =~= q.take(i as int));
        let name: &str = merged.repos.key_at(i);
        let mut line: String = text::cat(name, "  ->  ");
        line.append(merged.repos.value_at(i).placement(name).as_str());
        line.append("  (");
        match &merged.repos.value_at(i).url {
            Some(u) => {
                line.append(u.as_str());
            },
            None => {
                line.append("?");
            },
        }
        line.append(")\n");
        out.append(line.as_str());
    }
    assert(q.take(n as int) =~= q);
    out
}

// --- laws -------------------------------------------------------------------

/// Whether no two repos of a manifest overlap.
pub open spec fn apart(root: Text, m: Map<Text, SharedRepoModel>) -> bool {
    forall|a: Text, b: Text| #[trigger]
        m.contains_key(a) && #[trigger] m.contains_key(b) && a != b ==> !places_overlap(
            root,
            manifest_place(a, m[a]),
            manifest_place(b, m[b]),
        )
}

proof fn lemma_none_overlaps(
    root: Text,
    m: Map<Text, SharedRepoModel>,
    ks: Seq<Text>,
    new_name: Text,
    new_at: Text,
    i: int,
)
    requires
        overlapping(root, m, ks, new_name, new_at) is None,
        0 <= i < ks.len(),
        ks[i] != new_name,
    ensures
        !places_overlap(root, new_at, manifest_place(ks[i], m[ks[i]])),
    decreases ks.len(),
{
    if i < ks.len() - 1 {
        lemma_none_overlaps(root, m, ks.drop_last(), new_name, new_at, i);
    }
}

proof fn lemma_one_overlaps(
    root: Text,
    m: Map<Text, SharedRepoModel>,
    ks: Seq<Text>,
    new_name: Text,
    new_at: Text,
)
    requires
        overlapping(root, m, ks, new_name, new_at) is Some,
    ensures
        ({
            let n = overlapping(root, m, ks, new_name, new_at)->0;
            &&& ks.contains(n)
            &&& n != new_name
            &&& places_overlap(root, new_at, manifest_place(n, m[n]))
        }),
    decreases ks.len(),
{
    let init = ks.drop_last();
    if overlapping(root, m, init, new_name, new_at) is Some {
        lemma_one_overlaps(root, m, init, new_name, new_at);
        let i = init.index_of(overlapping(root, m, init, new_name, new_at)->0);
        assert(ks[i] == init[i]);
    } else {
        assert(ks[ks.len() - 1] == ks.last());
    }
}

/// **Two repos are never portaled into overlapping paths**: a manifest in which
/// no two repos overlap has none that do after an addition was let in and
/// recorded.
pub proof fn law_placements_stay_apart(
    root: Text,
    m: Map<Text, SharedRepoModel>,
    name: Text,
    url: Text,
    at: Option<Text>,
    alias: Seq<(Text, Text)>,
)
    requires
        m.dom().finite(),
        apart(root, m),
        addition_of(root, m, name, url, at, alias) is Ok,
    ensures
        apart(root, recorded(m, addition_of(root, m, name, url, at, alias)->Ok_0)),
{
    let a = addition_of(root, m, name, url, at, alias)->Ok_0;
    let after = recorded(m, a);
    let ks = keys_of(m);
    text::lemma_sorted(m.dom());
    assert forall|x: Text, y: Text| #[trigger]
        after.contains_key(x) && #[trigger] after.contains_key(y) && x
            != y implies !places_overlap(
        root,
        manifest_place(x, after[x]),
        manifest_place(y, after[y]),
    ) by {
        if x == name {
            assert(ks.to_set().contains(y));
            lemma_none_overlaps(root, m, ks, name, a.at, ks.index_of(y));
        } else if y == name {
            assert(ks.to_set().contains(x));
            lemma_none_overlaps(root, m, ks, name, a.at, ks.index_of(x));
        } else {
            assert(m.contains_key(x) && m.contains_key(y));
        }
    }
}

/// **An overlap is always refused, and nothing else is**: a placement is
/// refused exactly where it overlaps with that of another repo, and the
/// refusal names one that it overlaps with.
pub proof fn law_refused_iff_overlapping(
    root: Text,
    m: Map<Text, SharedRepoModel>,
    name: Text,
    at: Text,
)
    requires
        m.dom().finite(),
    ensures
        room_for(root, m, name, at) is Err <==> exists|n: Text| #[trigger]
            m.contains_key(n) && n != name && places_overlap(root, at, manifest_place(n, m[n])),
        room_for(root, m, name, at) matches Err(why) ==> exists|n: Text| #[trigger]
            m.contains_key(n) && n != name && places_overlap(root, at, manifest_place(n, m[n]))
                && why == overlap_error(at, n, m[n]),
{
    let ks = keys_of(m);
    text::lemma_sorted(m.dom());
    match overlapping(root, m, ks, name, at) {
        Some(n) => {
            lemma_one_overlaps(root, m, ks, name, at);
            assert(ks.to_set().contains(n));
            assert(m.contains_key(n));
        },
        None => {
            assert forall|n: Text| #[trigger] m.contains_key(n) && n != name implies !places_overlap(
                root,
                at,
                manifest_place(n, m[n]),
            ) by {
                assert(ks.to_set().contains(n));
                lemma_none_overlaps(root, m, ks, name, at, ks.index_of(n));
            }
        },
    }
}

/// **What overlaps with nothing is let in**: a repo that is not registered yet
/// and whose aliases name valid branchtypes is let in exactly where its
/// placement overlaps with no other, wherever it leads.
pub proof fn law_let_in_iff_apart(
    root: Text,
    m: Map<Text, SharedRepoModel>,
    name: Text,
    url: Text,
    at: Text,
    alias: Seq<(Text, Text)>,
)
    requires
        m.dom().finite(),
        !m.contains_key(name),
        bad_alias(alias) is None,
    ensures
        addition_of(root, m, name, url, Some(at), alias) is Ok <==> forall|n: Text| #[trigger]
            m.contains_key(n) ==> !places_overlap(root, at, manifest_place(n, m[n])),
{
    law_refused_iff_overlapping(root, m, name, at);
    if addition_of(root, m, name, url, Some(at), alias) is Ok {
        assert forall|n: Text| #[trigger] m.contains_key(n) implies !places_overlap(
            root,
            at,
            manifest_place(n, m[n]),
        ) by {
            assert(n != name);
        }
    }
}

/// Whether some process that the clone ran succeeded.
pub open spec fn cloned_on_the_way(start: CloningModel, es: Seq<EventModel>) -> bool {
    exists|k: int|
        #![trigger es[k]]
        0 <= k < es.len() && es[k] is Ran && es[k]->Ran_0.ok() && start.after_all(
            es.take(k),
        ).stage is Clone
}

/// Whether the placement was there already.
pub open spec fn found_on_the_way(start: CloningModel, es: Seq<EventModel>) -> bool {
    exists|k: int|
        #![trigger es[k]]
        0 <= k < es.len() && es[k] is Probed && es[k]->exists && start.after_all(
            es.take(k),
        ).stage is Probe
}

proof fn lemma_on_the_way(start: CloningModel, es: Seq<EventModel>)
    requires
        es.len() > 0,
    ensures
        cloned_on_the_way(start, es.drop_last()) ==> cloned_on_the_way(start, es),
        found_on_the_way(start, es.drop_last()) ==> found_on_the_way(start, es),
{
    let init = es.drop_last();
    if cloned_on_the_way(start, init) {
        let k = choose|k: int|
            #![trigger init[k]]
            0 <= k < init.len() && init[k] is Ran && init[k]->Ran_0.ok() && start.after_all(
                init.take(k),
            ).stage is Clone;
        assert(init.take(k) =~= es.take(k));
        assert(es[k] == init[k]);
    }
    if found_on_the_way(start, init) {
        let k = choose|k: int|
            #![trigger init[k]]
            0 <= k < init.len() && init[k] is Probed && init[k]->exists && start.after_all(
                init.take(k),
            ).stage is Probe;
        assert(init.take(k) =~= es.take(k));
        assert(es[k] == init[k]);
    }
}

/// **Portal add is transactional**: a clone ends well, and so gives a repo that
/// can be recorded, only if the placement was there already or the clone
/// process succeeded. A failed clone leaves nothing to record.
pub proof fn law_recorded_only_if_cloned(
    root: Text,
    a: AdditionModel,
    auth: Seq<(Text, Text)>,
    es: Seq<EventModel>,
)
    ensures
        ({
            let start = CloningModel::fresh(root, a, auth);
            let s = start.after_all(es);
            &&& s.stage is Notice ==> found_on_the_way(start, es)
            &&& s.next() == AskModel::End(Ok::<Text, Text>(Seq::empty())) ==> found_on_the_way(
                start,
                es,
            ) || cloned_on_the_way(start, es)
        }),
    decreases es.len(),
{
    let start = CloningModel::fresh(root, a, auth);
    if es.len() > 0 {
        let init = es.drop_last();
        law_recorded_only_if_cloned(root, a, auth, init);
        lemma_on_the_way(start, es);
        let s = start.after_all(init);
        assert(es.take(es.len() - 1) =~= init);
        assert(es[es.len() - 1] == es.last());
    }
}

} // verus!
