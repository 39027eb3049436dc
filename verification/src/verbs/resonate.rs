//! `resonate`: drop local files into a portal.
//!
//! A pure filesystem copy. The portal is looked up in the manifest to compute
//! the destination, then the source is copied into it file by file. No git, no
//! manifest writes, no exclusions. Without `--force` a file that exists at the
//! destination is never overwritten: the copy stops there.
//!
//! Paths are texts here. Whoever reads and writes the files decides which file
//! a text stands for.

use crate::cli::ResonateArgs;
use crate::place::{
    components, is_component, lemma_component, lemma_components_joined, lemma_leads_down, rooted,
    route, route_of, stays, stays_within,
};
use crate::store::{join_path, joined_path, manifest_place, SharedConfig, SharedRepoModel};
use crate::text::{self, outcome, Text};
use crate::verbs::status::plural;
use vstd::prelude::*;

verus! {

// --- destination ------------------------------------------------------------

/// The subpath that `--at` names, if it names one.
pub open spec fn subpath(at: Option<Text>) -> Option<Text> {
    match at {
        Some(s) => if s.len() > 0 {
            Some(s)
        } else {
            None
        },
        None => None,
    }
}

/// `base` and the components `way` behind it.
pub open spec fn descended(base: Text, way: Seq<Text>) -> Text
    decreases way.len(),
{
    if way.len() == 0 {
        base
    } else {
        joined_path(descended(base, way.drop_last()), way.last())
    }
}

/// The directory that files are copied into, if `--at` names one. `--at` is a
/// subpath inside the placement, never an override: a leading `/` does not
/// lead out of it, and a `..` that would names nothing.
pub open spec fn target_dir(root: Text, place: Text, at: Option<Text>) -> Option<Text> {
    match subpath(at) {
        Some(s) => {
            let sub = text::without_prefixes(s, "/"@);
            if stays(sub) {
                Some(descended(joined_path(root, place), route(sub)))
            } else {
                None
            }
        },
        None => Some(joined_path(root, place)),
    }
}

fn descend(base: String, way: &Vec<String>) -> (r: String)
    ensures
        r@ == descended(base@, way.deep_view()),
{
    let ghost q = way.deep_view();
    let ghost b = base@;
    let mut out: String = base;
    assert(out@ == descended(b, q.take(0)));
    for i in 0..way.len()
        invariant
            q == way.deep_view(),
            out@ == descended(b, q.take(i as int)),
    {
        assert(q.take(i + 1).drop_last() =~= q.take(i as int));
        out = join_path(out.as_str(), way[i].as_str());
    }
    assert(q.take(way@.len() as int) =~= q);
    out
}

// --- what a walk meets ------------------------------------------------------

/// What a path is.
#[derive(Clone, Copy, Debug, PartialEq, Eq, Structural)]
pub enum Kind {
    Dir,
    File,
    /// A symlink, a device, a fifo: not copied.
    Other,
}

impl DeepView for Kind {
    type V = Kind;

    open spec fn deep_view(&self) -> Kind {
        *self
    }
}

/// One entry of a directory.
#[derive(Debug)]
pub struct Entry {
    pub name: String,
    pub kind: Kind,
}

/// What an `Entry` stands for.
pub struct EntryModel {
    pub name: Text,
    pub kind: Kind,
}

impl DeepView for Entry {
    type V = EntryModel;

    open spec fn deep_view(&self) -> EntryModel {
        EntryModel { name: self.name@, kind: self.kind }
    }
}

/// Something that is still to be done.
#[derive(Debug)]
pub enum Task {
    /// Copy a directory.
    Dir { from: String, to: String },
    /// Copy a file.
    File { from: String, to: String },
    /// Fail: what comes behind could not be read.
    Stop { why: String },
}

/// What a `Task` stands for.
pub enum TaskModel {
    Dir { from: Text, to: Text },
    File { from: Text, to: Text },
    Stop { why: Text },
}

impl DeepView for Task {
    type V = TaskModel;

    open spec fn deep_view(&self) -> TaskModel {
        match self {
            Task::Dir { from, to } => TaskModel::Dir { from: from@, to: to@ },
            Task::File { from, to } => TaskModel::File { from: from@, to: to@ },
            Task::Stop { why } => TaskModel::Stop { why: why@ },
        }
    }
}

/// The task of one entry.
pub open spec fn task_of(from: Text, to: Text, e: EntryModel) -> TaskModel {
    if e.kind == Kind::Dir {
        TaskModel::Dir { from: joined_path(from, e.name), to: joined_path(to, e.name) }
    } else {
        TaskModel::File { from: joined_path(from, e.name), to: joined_path(to, e.name) }
    }
}

/// The tasks of a directory's entries, the first one on top. What is neither a
/// file nor a directory is skipped.
pub open spec fn stacked(from: Text, to: Text, es: Seq<EntryModel>) -> Seq<TaskModel>
    decreases es.len(),
{
    if es.len() == 0 {
        Seq::empty()
    } else if es[0].kind == Kind::Other {
        stacked(from, to, es.drop_first())
    } else {
        stacked(from, to, es.drop_first()).push(task_of(from, to, es[0]))
    }
}

fn stack(todo: &mut Vec<Task>, from: &str, to: &str, es: &Vec<Entry>)
    ensures
        final(todo).deep_view() == old(todo).deep_view() + stacked(from@, to@, es.deep_view()),
{
    let ghost below = todo.deep_view();
    let ghost q = es.deep_view();
    let mut i: usize = es.len();
    assert(q.skip(i as int) =~= Seq::empty());
    assert(todo.deep_view() =~= below + stacked(from@, to@, q.skip(i as int)));
    while i > 0
        invariant
            i <= es@.len(),
            q == es.deep_view(),
            todo.deep_view() == below + stacked(from@, to@, q.skip(i as int)),
        decreases i,
    {
        i = i - 1;
        let ghost done = todo.deep_view();
        assert(q.skip(i as int).drop_first() =~= q.skip(i + 1));
        assert(q.skip(i as int)[0] == q[i as int]);
        if es[i].kind != Kind::Other {
            let inner: String = join_path(from, es[i].name.as_str());
            let dest: String = join_path(to, es[i].name.as_str());
            let task: Task = if es[i].kind == Kind::Dir {
                Task::Dir { from: inner, to: dest }
            } else {
                Task::File { from: inner, to: dest }
            };
            let ghost made = task.deep_view();
            todo.push(task);
            assert(todo.deep_view() =~= done.push(made));
            assert(todo.deep_view() =~= below + stacked(from@, to@, q.skip(i as int)));
        }
    }
    assert(q.skip(0) =~= q);
}

// --- the machine ------------------------------------------------------------

/// What `--source` is.
#[derive(Debug)]
pub enum Source {
    Missing,
    Dir,
    /// A file, with its name where it has one.
    File(Option<String>),
    Other,
}

/// What a `Source` stands for.
pub enum SourceModel {
    Missing,
    Dir,
    File(Option<Text>),
    Other,
}

impl DeepView for Source {
    type V = SourceModel;

    open spec fn deep_view(&self) -> SourceModel {
        match self {
            Source::Missing => SourceModel::Missing,
            Source::Dir => SourceModel::Dir,
            Source::File(n) => SourceModel::File(n.deep_view()),
            Source::Other => SourceModel::Other,
        }
    }
}

/// What reading a directory gave.
#[derive(Debug)]
pub enum Listing {
    Entries(Vec<Entry>),
    /// The directory cannot be read.
    Unread(String),
    /// An entry behind these cannot be read.
    Broken { before: Vec<Entry>, why: String },
}

/// What a `Listing` stands for.
pub enum ListingModel {
    Entries(Seq<EntryModel>),
    Unread(Text),
    Broken { before: Seq<EntryModel>, why: Text },
}

impl DeepView for Listing {
    type V = ListingModel;

    open spec fn deep_view(&self) -> ListingModel {
        match self {
            Listing::Entries(v) => ListingModel::Entries(v.deep_view()),
            Listing::Unread(w) => ListingModel::Unread(w@),
            Listing::Broken { before, why } => ListingModel::Broken {
                before: before.deep_view(),
                why: why@,
            },
        }
    }
}

/// What a copy asks for next.
#[derive(Debug)]
pub enum Ask<'a> {
    /// Say what the source is.
    Source(&'a str),
    /// Create a directory with all its parents.
    MakeDir(&'a str),
    /// List a directory.
    List(&'a str),
    /// Say whether a path exists.
    Exists(&'a str),
    /// Copy a file.
    Copy(&'a str, &'a str),
    /// The copy is over: it wrote this last, or failed so.
    End(Result<String, String>),
}

/// What an `Ask` stands for.
pub enum AskModel {
    Source(Text),
    MakeDir(Text),
    List(Text),
    Exists(Text),
    Copy(Text, Text),
    End(Result<Text, Text>),
}

impl<'a> DeepView for Ask<'a> {
    type V = AskModel;

    open spec fn deep_view(&self) -> AskModel {
        match self {
            Ask::Source(p) => AskModel::Source(p@),
            Ask::MakeDir(p) => AskModel::MakeDir(p@),
            Ask::List(p) => AskModel::List(p@),
            Ask::Exists(p) => AskModel::Exists(p@),
            Ask::Copy(a, b) => AskModel::Copy(a@, b@),
            Ask::End(r) => AskModel::End(outcome(*r)),
        }
    }
}

/// What came of what a copy asked for.
#[derive(Debug)]
pub enum Event {
    Source(Source),
    /// The directory was created or the file copied, or why not.
    Done(Result<(), String>),
    Listed(Listing),
    Exists(bool),
}

/// What an `Event` stands for.
pub enum EventModel {
    Source(SourceModel),
    Done(Result<(), Text>),
    Listed(ListingModel),
    Exists(bool),
}

impl DeepView for Event {
    type V = EventModel;

    open spec fn deep_view(&self) -> EventModel {
        match self {
            Event::Source(s) => EventModel::Source(s.deep_view()),
            Event::Done(r) => EventModel::Done(outcome(*r)),
            Event::Listed(l) => EventModel::Listed(l.deep_view()),
            Event::Exists(b) => EventModel::Exists(*b),
        }
    }
}

#[derive(Debug)]
enum Stage {
    Source,
    TargetForTree,
    TargetForFile(Option<String>),
    Room { from: String, to: String },
    List { from: String, to: String },
    Check { from: String, to: String },
    Copy { from: String, to: String },
    Over(Result<(), String>),
}

/// How far a copy has come.
pub enum StageModel {
    Source,
    TargetForTree,
    TargetForFile(Option<Text>),
    Room { from: Text, to: Text },
    List { from: Text, to: Text },
    Check { from: Text, to: Text },
    Copy { from: Text, to: Text },
    Over(Result<(), Text>),
}

impl DeepView for Stage {
    type V = StageModel;

    closed spec fn deep_view(&self) -> StageModel {
        match self {
            Stage::Source => StageModel::Source,
            Stage::TargetForTree => StageModel::TargetForTree,
            Stage::TargetForFile(n) => StageModel::TargetForFile(n.deep_view()),
            Stage::Room { from, to } => StageModel::Room { from: from@, to: to@ },
            Stage::List { from, to } => StageModel::List { from: from@, to: to@ },
            Stage::Check { from, to } => StageModel::Check { from: from@, to: to@ },
            Stage::Copy { from, to } => StageModel::Copy { from: from@, to: to@ },
            Stage::Over(r) => StageModel::Over(outcome(*r)),
        }
    }
}

/// A copy under way.
#[derive(Debug)]
pub struct Resonate {
    source: String,
    target: String,
    force: bool,
    /// What is said at the end, up to the count and behind it.
    opening: String,
    closing: String,
    todo: Vec<Task>,
    count: u64,
    stage: Stage,
}

/// What a `Resonate` stands for.
pub struct ResonateModel {
    pub source: Text,
    pub target: Text,
    pub force: bool,
    pub opening: Text,
    pub closing: Text,
    /// What is still to be copied; the last comes next.
    pub todo: Seq<TaskModel>,
    /// How many files were copied.
    pub count: nat,
    pub stage: StageModel,
}

impl DeepView for Resonate {
    type V = ResonateModel;

    closed spec fn deep_view(&self) -> ResonateModel {
        ResonateModel {
            source: self.source@,
            target: self.target@,
            force: self.force,
            opening: self.opening@,
            closing: self.closing@,
            todo: self.todo.deep_view(),
            count: self.count as nat,
            stage: self.stage.deep_view(),
        }
    }
}

/// One more, up to the largest count there is.
pub open spec fn one_more(n: nat) -> nat {
    if n < u64::MAX {
        n + 1
    } else {
        n
    }
}

/// What is said of a file that exists at the destination.
pub open spec fn in_the_way(to: Text) -> Text {
    "resonate: "@ + to + " already exists (rerun with --force to overwrite)"@
}

/// What is said of a file that could not be copied.
pub open spec fn not_copied(from: Text, to: Text, why: Text) -> Text {
    "resonate: copying "@ + from + " → "@ + to + ": "@ + why
}

impl ResonateModel {
    /// The same copy at another stage.
    pub open spec fn at_stage(self, stage: StageModel) -> ResonateModel {
        ResonateModel { stage, ..self }
    }

    /// The end, with an error.
    pub open spec fn failed(self, why: Text) -> ResonateModel {
        self.at_stage(StageModel::Over(Err(why)))
    }

    /// On to the next task, or to the end.
    pub open spec fn popped(self) -> ResonateModel {
        if self.todo.len() == 0 {
            self.at_stage(StageModel::Over(Ok(())))
        } else {
            ResonateModel {
                todo: self.todo.drop_last(),
                stage: match self.todo.last() {
                    TaskModel::Dir { from, to } => StageModel::Room { from, to },
                    TaskModel::File { from, to } => StageModel::Check { from, to },
                    TaskModel::Stop { why } => StageModel::Over(Err(why)),
                },
                ..self
            }
        }
    }

    /// What is asked for next.
    pub open spec fn next(self) -> AskModel {
        match self.stage {
            StageModel::Source => AskModel::Source(self.source),
            StageModel::TargetForTree => AskModel::MakeDir(self.target),
            StageModel::TargetForFile(_) => AskModel::MakeDir(self.target),
            StageModel::Room { to, .. } => AskModel::MakeDir(to),
            StageModel::List { from, .. } => AskModel::List(from),
            StageModel::Check { to, .. } => AskModel::Exists(to),
            StageModel::Copy { from, to } => AskModel::Copy(from, to),
            StageModel::Over(Err(why)) => AskModel::End(Err(why)),
            StageModel::Over(Ok(_)) => AskModel::End(
                Ok(
                    self.opening + text::decimal(self.count) + " file"@ + plural(self.count)
                        + self.closing,
                ),
            ),
        }
    }

    /// What an event leads to. One that was not waited for changes nothing.
    pub open spec fn after(self, e: EventModel) -> ResonateModel {
        match (self.stage, e) {
            (StageModel::Source, EventModel::Source(s)) => match s {
                SourceModel::Missing => self.failed(
                    "resonate: source "@ + self.source + " does not exist"@,
                ),
                SourceModel::Dir => self.at_stage(StageModel::TargetForTree),
                SourceModel::File(n) => self.at_stage(StageModel::TargetForFile(n)),
                SourceModel::Other => self.failed(
                    "resonate: source "@ + self.source + " is neither a file nor a directory"@,
                ),
            },
            (StageModel::TargetForTree, EventModel::Done(done)) => match done {
                Err(why) => self.failed(
                    "resonate: creating target dir "@ + self.target + ": "@ + why,
                ),
                Ok(_) => self.at_stage(StageModel::List { from: self.source, to: self.target }),
            },
            (StageModel::TargetForFile(n), EventModel::Done(done)) => match (done, n) {
                (Err(why), _) => self.failed(
                    "resonate: creating target dir "@ + self.target + ": "@ + why,
                ),
                (Ok(_), None) => self.failed("resonate: source has no filename"@),
                (Ok(_), Some(name)) => self.at_stage(
                    StageModel::Check { from: self.source, to: joined_path(self.target, name) },
                ),
            },
            (StageModel::Room { from, to }, EventModel::Done(done)) => match done {
                Err(why) => self.failed("resonate: creating "@ + to + ": "@ + why),
                Ok(_) => self.at_stage(StageModel::List { from, to }),
            },
            (StageModel::List { from, to }, EventModel::Listed(l)) => match l {
                ListingModel::Unread(why) => self.failed(
                    "resonate: reading "@ + from + ": "@ + why,
                ),
                ListingModel::Broken { before, why } => ResonateModel {
                    todo: self.todo.push(TaskModel::Stop { why }) + stacked(from, to, before),
                    ..self
                }.popped(),
                ListingModel::Entries(es) => ResonateModel {
                    todo: self.todo + stacked(from, to, es),
                    ..self
                }.popped(),
            },
            (StageModel::Check { from, to }, EventModel::Exists(exists)) => if exists
                && !self.force {
                self.failed(in_the_way(to))
            } else {
                self.at_stage(StageModel::Copy { from, to })
            },
            (StageModel::Copy { from, to }, EventModel::Done(done)) => match done {
                Err(why) => self.failed(not_copied(from, to, why)),
                Ok(_) => ResonateModel { count: one_more(self.count), ..self }.popped(),
            },
            _ => self,
        }
    }

    /// What a sequence of events leads to.
    pub open spec fn after_all(self, es: Seq<EventModel>) -> ResonateModel
        decreases es.len(),
    {
        if es.len() == 0 {
            self
        } else {
            self.after_all(es.drop_last()).after(es.last())
        }
    }
}

fn say3(a: &str, b: &str, c: &str) -> (r: String)
    ensures
        r@ == a@ + b@ + c@,
{
    let mut s: String = text::cat(a, b);
    s.append(c);
    s
}

fn say4(a: &str, b: &str, c: &str, d: &str) -> (r: String)
    ensures
        r@ == a@ + b@ + c@ + d@,
{
    let mut s: String = text::cat(a, b);
    s.append(c);
    s.append(d);
    s
}

impl Resonate {
    /// On to the next task, or to the end.
    fn pop(
        source: String,
        target: String,
        force: bool,
        opening: String,
        closing: String,
        todo: Vec<Task>,
        count: u64,
    ) -> (r: Resonate)
        ensures
            r.deep_view() == ResonateModel::made(
                source@,
                target@,
                force,
                opening@,
                closing@,
                todo.deep_view(),
                count as nat,
            ).popped(),
    {
        let mut todo: Vec<Task> = todo;
        let ghost before = todo.deep_view();
        let stage: Stage = match todo.pop() {
            None => Stage::Over(Ok(())),
            Some(t) => {
                assert(todo.deep_view() =~= before.drop_last());
                match t {
                    Task::Dir { from, to } => Stage::Room { from, to },
                    Task::File { from, to } => Stage::Check { from, to },
                    Task::Stop { why } => Stage::Over(Err(why)),
                }
            },
        };
        Resonate { source, target, force, opening, closing, todo, count, stage }
    }

    /// What is asked for next.
    pub fn next(&self) -> (r: Ask<'_>)
        ensures
            r.deep_view() == self.deep_view().next(),
    {
        match &self.stage {
            Stage::Source => Ask::Source(self.source.as_str()),
            Stage::TargetForTree => Ask::MakeDir(self.target.as_str()),
            Stage::TargetForFile(_) => Ask::MakeDir(self.target.as_str()),
            Stage::Room { to, .. } => Ask::MakeDir(to.as_str()),
            Stage::List { from, .. } => Ask::List(from.as_str()),
            Stage::Check { to, .. } => Ask::Exists(to.as_str()),
            Stage::Copy { from, to } => Ask::Copy(from.as_str(), to.as_str()),
            Stage::Over(Err(why)) => Ask::End(Err(why.clone())),
            Stage::Over(Ok(_)) => {
                let mut s: String = text::cat(
                    self.opening.as_str(),
                    text::number(self.count).as_str(),
                );
                s.append(" file");
                s.append(
                    if self.count == 1 {
                        ""
                    } else {
                        "s"
                    },
                );
                s.append(self.closing.as_str());
                Ask::End(Ok(s))
            },
        }
    }

    /// Takes what came of what was asked for.
    pub fn feed(self, event: &Event) -> (r: Resonate)
        ensures
            r.deep_view() == self.deep_view().after(event.deep_view()),
    {
        let Resonate { source, target, force, opening, closing, todo, count, stage } = self;
        let stage: Stage = match (stage, event) {
            (Stage::Source, Event::Source(s)) => match s {
                Source::Missing => Stage::Over(
                    Err(say3("resonate: source ", source.as_str(), " does not exist")),
                ),
                Source::Dir => Stage::TargetForTree,
                Source::File(n) => Stage::TargetForFile(
                    match n {
                        Some(name) => Some(name.clone()),
                        None => None,
                    },
                ),
                Source::Other => Stage::Over(
                    Err(
                        say3(
                            "resonate: source ",
                            source.as_str(),
                            " is neither a file nor a directory",
                        ),
                    ),
                ),
            },
            (Stage::TargetForTree, Event::Done(done)) => match done {
                Err(why) => Stage::Over(
                    Err(
                        say4(
                            "resonate: creating target dir ",
                            target.as_str(),
                            ": ",
                            why.as_str(),
                        ),
                    ),
                ),
                Ok(_) => Stage::List { from: source.clone(), to: target.clone() },
            },
            (Stage::TargetForFile(n), Event::Done(done)) => match (done, n) {
                (Err(why), _) => Stage::Over(
                    Err(
                        say4(
                            "resonate: creating target dir ",
                            target.as_str(),
                            ": ",
                            why.as_str(),
                        ),
                    ),
                ),
                (Ok(_), None) => Stage::Over(Err("resonate: source has no filename".to_owned())),
                (Ok(_), Some(name)) => Stage::Check {
                    from: source.clone(),
                    to: join_path(target.as_str(), name.as_str()),
                },
            },
            (Stage::Room { from, to }, Event::Done(done)) => match done {
                Err(why) => Stage::Over(
                    Err(say4("resonate: creating ", to.as_str(), ": ", why.as_str())),
                ),
                Ok(_) => Stage::List { from, to },
            },
            (Stage::List { from, to }, Event::Listed(l)) => match l {
                Listing::Unread(why) => Stage::Over(
                    Err(say4("resonate: reading ", from.as_str(), ": ", why.as_str())),
                ),
                Listing::Broken { before, why } => {
                    let mut todo: Vec<Task> = todo;
                    let ghost below = todo.deep_view();
                    todo.push(Task::Stop { why: why.clone() });
                    assert(todo.deep_view() =~= below.push(TaskModel::Stop { why: why@ }));
                    stack(&mut todo, from.as_str(), to.as_str(), before);
                    return Resonate::pop(source, target, force, opening, closing, todo, count);
                },
                Listing::Entries(es) => {
                    let mut todo: Vec<Task> = todo;
                    stack(&mut todo, from.as_str(), to.as_str(), es);
                    return Resonate::pop(source, target, force, opening, closing, todo, count);
                },
            },
            (Stage::Check { from, to }, Event::Exists(exists)) => if *exists && !force {
                Stage::Over(
                    Err(
                        say3(
                            "resonate: ",
                            to.as_str(),
                            " already exists (rerun with --force to overwrite)",
                        ),
                    ),
                )
            } else {
                Stage::Copy { from, to }
            },
            (Stage::Copy { from, to }, Event::Done(done)) => match done {
                Err(why) => {
                    let mut e: String = say4(
                        "resonate: copying ",
                        from.as_str(),
                        " → ",
                        to.as_str(),
                    );
                    e.append(": ");
                    e.append(why.as_str());
                    Stage::Over(Err(e))
                },
                Ok(_) => {
                    let count: u64 = if count < u64::MAX {
                        count + 1
                    } else {
                        count
                    };
                    return Resonate::pop(source, target, force, opening, closing, todo, count);
                },
            },
            (stage, _) => stage,
        };
        Resonate { source, target, force, opening, closing, todo, count, stage }
    }
}

impl ResonateModel {
    /// A copy before its next stage is decided.
    pub open spec fn made(
        source: Text,
        target: Text,
        force: bool,
        opening: Text,
        closing: Text,
        todo: Seq<TaskModel>,
        count: nat,
    ) -> ResonateModel {
        ResonateModel {
            source,
            target,
            force,
            opening,
            closing,
            todo,
            count,
            stage: StageModel::Source,
        }
    }
}

// --- the verb ---------------------------------------------------------------

/// What is said of a subpath that leads out of the placement.
pub open spec fn astray(at: Text) -> Text {
    "resonate: --at "@ + text::debug_text(at) + " leads out of the placement"@
}

/// The copy of a source into a portal, or why it does not begin.
pub open spec fn resonated(
    root: Text,
    m: Map<Text, SharedRepoModel>,
    portal: Text,
    source: Text,
    at: Option<Text>,
    force: bool,
) -> Result<ResonateModel, Text> {
    if !m.contains_key(portal) {
        Err("resonate: unknown portal "@ + text::debug_text(portal))
    } else {
        let place = manifest_place(portal, m[portal]);
        match target_dir(root, place, at) {
            None => Err(astray(at.unwrap())),
            Some(target) => Ok(
                ResonateModel::made(
                    source,
                    target,
                    force,
                    "resonate: "@ + portal + " ← "@ + source + " ("@,
                    " into "@ + place + match subpath(at) {
                        Some(s) => "/"@ + s,
                        None => Seq::empty(),
                    } + ")\n"@,
                    Seq::empty(),
                    0,
                ),
            ),
        }
    }
}

/// Begins the copy of a local file or directory into a registered portal.
pub fn resonate(args: ResonateArgs, shared: &SharedConfig, root: &str) -> (r: Result<
    Resonate,
    String,
>)
    ensures
        outcome(r) == resonated(
            root@,
            shared.deep_view(),
            args.portal@,
            args.source@,
            args.at.deep_view(),
            args.force,
        ),
{
    let place: String = match shared.repos.get(args.portal.as_str()) {
        None => return Err(
            text::cat("resonate: unknown portal ", text::quoted(args.portal.as_str()).as_str()),
        ),
        Some(entry) => entry.placement(args.portal.as_str()),
    };
    let mut target: String = join_path(root, place.as_str());
    let mut suffix: String = String::new();
    if let Some(sub) = &args.at {
        if sub.as_str().unicode_len() > 0 {
            let inner: String = text::trim_prefixes(sub.as_str(), "/");
            if !stays_within(inner.as_str()) {
                let mut e: String = text::cat("resonate: --at ", text::quoted(sub.as_str()).as_str());
                e.append(" leads out of the placement");
                return Err(e);
            }
            target = descend(target, &route_of(inner.as_str()));
            suffix = text::cat("/", sub.as_str());
        }
    }
    let mut opening: String = text::cat("resonate: ", args.portal.as_str());
    opening.append(" ← ");
    opening.append(args.source.as_str());
    opening.append(" (");
    let mut closing: String = text::cat(" into ", place.as_str());
    closing.append(suffix.as_str());
    closing.append(")\n");
    let todo: Vec<Task> = Vec::new();
    assert(todo.deep_view() =~= Seq::empty());
    Ok(
        Resonate {
            source: args.source,
            target,
            force: args.force,
            opening,
            closing,
            todo,
            count: 0,
            stage: Stage::Source,
        },
    )
}

// --- laws -------------------------------------------------------------------

/// Whether nothing was found at `to` when it was looked for on the way.
pub open spec fn found_free(start: ResonateModel, es: Seq<EventModel>, to: Text) -> bool {
    exists|k: int|
        #![trigger es[k]]
        0 <= k < es.len() && es[k] == EventModel::Exists(false) && start.after_all(
            es.take(k),
        ).next() == AskModel::Exists(to)
}

/// **Nothing is overwritten without `--force`**: without it, a file is copied
/// only after its destination was looked for and nothing was found there.
pub proof fn law_nothing_is_overwritten_without_force(
    start: ResonateModel,
    es: Seq<EventModel>,
    from: Text,
    to: Text,
)
    requires
        !start.force,
        start.stage is Source,
        start.after_all(es).next() == AskModel::Copy(from, to),
    ensures
        found_free(start, es, to),
    decreases es.len(),
{
    lemma_force_is_kept(start, es.drop_last());
    let init = es.drop_last();
    let s = start.after_all(init);
    assert(es.take(es.len() - 1) =~= init);
    assert(es[es.len() - 1] == es.last());
    if s.next() == AskModel::Copy(from, to) {
        law_nothing_is_overwritten_without_force(start, init, from, to);
        let k = choose|k: int|
            #![trigger init[k]]
            0 <= k < init.len() && init[k] == EventModel::Exists(false) && start.after_all(
                init.take(k),
            ).next() == AskModel::Exists(to);
        assert(init.take(k) =~= es.take(k));
        assert(es[k] == init[k]);
    }
}

proof fn lemma_force_is_kept(start: ResonateModel, es: Seq<EventModel>)
    ensures
        start.after_all(es).force == start.force,
    decreases es.len(),
{
    if es.len() > 0 {
        lemma_force_is_kept(start, es.drop_last());
    }
}

/// Whether a text is the name of one thing inside a directory.
pub open spec fn plain_name(n: Text) -> bool {
    is_component(n) && n != ".."@
}

/// Whether every name in an event is that of one thing inside a directory.
pub open spec fn plain_names(e: EventModel) -> bool {
    match e {
        EventModel::Listed(ListingModel::Entries(es)) => all_plain(es),
        EventModel::Listed(ListingModel::Broken { before, .. }) => all_plain(before),
        EventModel::Source(SourceModel::File(Some(n))) => plain_name(n),
        _ => true,
    }
}

/// Whether every entry has the name of one thing.
pub open spec fn all_plain(es: Seq<EntryModel>) -> bool {
    forall|i: int| 0 <= i < es.len() ==> plain_name((#[trigger] es[i]).name)
}

/// Whether a path is `base` or leads on from it, downwards only.
pub open spec fn under(base: Text, p: Text) -> bool {
    let b = components(base);
    let c = components(p);
    &&& b.is_prefix_of(c)
    &&& forall|i: int| b.len() <= i < c.len() ==> #[trigger] c[i] != ".."@
}

proof fn lemma_under_itself(base: Text)
    ensures
        under(base, base),
{
    let b = components(base);
    assert(b.take(b.len() as int) =~= b);
}

proof fn lemma_join_under(base: Text, p: Text, name: Text)
    requires
        under(base, p),
        plain_name(name),
    ensures
        under(base, joined_path(p, name)),
{
    let b = components(base);
    let c = components(p);
    lemma_component(name);
    lemma_components_joined(p, name);
    assert(c + seq![name] =~= c.push(name));
    let d = c.push(name);
    assert(d.take(b.len() as int) =~= c.take(b.len() as int));
    assert forall|i: int| b.len() <= i < d.len() implies #[trigger] d[i] != ".."@ by {
        if i < c.len() {
            assert(d[i] == c[i]);
        }
    }
}

proof fn lemma_descended_under(base: Text, way: Seq<Text>)
    requires
        forall|i: int| 0 <= i < way.len() ==> plain_name(#[trigger] way[i]),
    ensures
        under(base, descended(base, way)),
    decreases way.len(),
{
    if way.len() == 0 {
        lemma_under_itself(base);
    } else {
        let init = way.drop_last();
        assert forall|i: int| 0 <= i < init.len() implies plain_name(#[trigger] init[i]) by {
            assert(init[i] == way[i]);
        }
        lemma_descended_under(base, init);
        assert(plain_name(way[way.len() - 1]));
        lemma_join_under(base, descended(base, init), way.last());
    }
}

/// Whether what a task writes lies under `base`.
pub open spec fn lands(base: Text, t: TaskModel) -> bool {
    match t {
        TaskModel::Dir { to, .. } => under(base, to),
        TaskModel::File { to, .. } => under(base, to),
        TaskModel::Stop { .. } => true,
    }
}

proof fn lemma_stack_lands(base: Text, from: Text, to: Text, es: Seq<EntryModel>)
    requires
        under(base, to),
        all_plain(es),
    ensures
        forall|i: int|
            0 <= i < stacked(from, to, es).len() ==> lands(
                base,
                #[trigger] stacked(from, to, es)[i],
            ),
    decreases es.len(),
{
    if es.len() > 0 {
        let rest = es.drop_first();
        assert forall|i: int| 0 <= i < rest.len() implies plain_name((#[trigger] rest[i]).name) by {
            assert(rest[i] == es[i + 1]);
        }
        lemma_stack_lands(base, from, to, rest);
        assert(plain_name(es[0].name));
        lemma_join_under(base, to, es[0].name);
        let below = stacked(from, to, rest);
        let all = stacked(from, to, es);
        assert forall|i: int| 0 <= i < all.len() implies lands(base, #[trigger] all[i]) by {
            if i < below.len() {
                assert(all[i] == below[i]);
            }
        }
    }
}

/// Where everything that is written lies.
spec fn inside(s: ResonateModel) -> bool {
    &&& forall|i: int| 0 <= i < s.todo.len() ==> lands(s.target, #[trigger] s.todo[i])
    &&& match s.stage {
        StageModel::TargetForFile(Some(n)) => plain_name(n),
        StageModel::Room { to, .. } => under(s.target, to),
        StageModel::List { to, .. } => under(s.target, to),
        StageModel::Check { to, .. } => under(s.target, to),
        StageModel::Copy { to, .. } => under(s.target, to),
        _ => true,
    }
}

proof fn lemma_pushed_lands(base: Text, todo: Seq<TaskModel>, more: Seq<TaskModel>)
    requires
        forall|i: int| 0 <= i < todo.len() ==> lands(base, #[trigger] todo[i]),
        forall|i: int| 0 <= i < more.len() ==> lands(base, #[trigger] more[i]),
    ensures
        forall|i: int| 0 <= i < (todo + more).len() ==> lands(base, #[trigger] (todo + more)[i]),
{
    let all = todo + more;
    assert forall|i: int| 0 <= i < all.len() implies lands(base, #[trigger] all[i]) by {
        if i < todo.len() {
            assert(all[i] == todo[i]);
        } else {
            assert(all[i] == more[i - todo.len()]);
        }
    }
}

proof fn lemma_inside(s: ResonateModel, e: EventModel)
    requires
        inside(s),
        plain_names(e),
    ensures
        inside(s.after(e)),
        s.after(e).target == s.target,
{
    lemma_under_itself(s.target);
    match (s.stage, e) {
        (StageModel::TargetForFile(Some(n)), EventModel::Done(Ok(_))) => {
            lemma_join_under(s.target, s.target, n);
        },
        (StageModel::List { from, to }, EventModel::Listed(ListingModel::Entries(es))) => {
            lemma_stack_lands(s.target, from, to, es);
            let all = s.todo + stacked(from, to, es);
            lemma_pushed_lands(s.target, s.todo, stacked(from, to, es));
            if all.len() > 0 {
                assert(lands(s.target, all[all.len() - 1]));
            }
        },
        (
            StageModel::List { from, to },
            EventModel::Listed(ListingModel::Broken { before, why }),
        ) => {
            lemma_stack_lands(s.target, from, to, before);
            let below = s.todo.push(TaskModel::Stop { why });
            assert forall|i: int| 0 <= i < below.len() implies lands(
                s.target,
                #[trigger] below[i],
            ) by {
                if i < s.todo.len() {
                    assert(below[i] == s.todo[i]);
                }
            }
            let all = below + stacked(from, to, before);
            lemma_pushed_lands(s.target, below, stacked(from, to, before));
            assert(lands(s.target, all[all.len() - 1]));
        },
        (StageModel::Copy { .. }, EventModel::Done(Ok(_))) => {
            if s.todo.len() > 0 {
                assert(lands(s.target, s.todo[s.todo.len() - 1]));
            }
        },
        _ => {},
    }
}

/// **Everything lands inside the target**: whatever the source holds, every
/// directory that is created and every file that is written is the target
/// directory or leads on from it, component by component, with no `..`.
pub proof fn law_everything_lands_in_the_target(
    start: ResonateModel,
    es: Seq<EventModel>,
)
    requires
        start.todo.len() == 0,
        start.stage is Source,
        forall|i: int| 0 <= i < es.len() ==> plain_names(#[trigger] es[i]),
    ensures
        match start.after_all(es).next() {
            AskModel::MakeDir(to) => under(start.target, to),
            AskModel::Copy(_, to) => under(start.target, to),
            _ => true,
        },
{
    lemma_stays_inside(start, es);
    lemma_under_itself(start.target);
}

proof fn lemma_stays_inside(start: ResonateModel, es: Seq<EventModel>)
    requires
        start.todo.len() == 0,
        start.stage is Source,
        forall|i: int| 0 <= i < es.len() ==> plain_names(#[trigger] es[i]),
    ensures
        inside(start.after_all(es)),
        start.after_all(es).target == start.target,
    decreases es.len(),
{
    if es.len() > 0 {
        let init = es.drop_last();
        assert forall|i: int| 0 <= i < init.len() implies plain_names(#[trigger] init[i]) by {
            assert(init[i] == es[i]);
        }
        lemma_stays_inside(start, init);
        assert(plain_names(es[es.len() - 1]));
        lemma_inside(start.after_all(init), es.last());
    }
}

/// **`--at` names a subpath of the placement**: the target directory is the
/// placement or leads on from it, component by component, with no `..`,
/// whatever `--at` holds.
pub proof fn law_at_stays_in_the_placement(root: Text, place: Text, at: Option<Text>)
    ensures
        target_dir(root, place, at) matches Some(target) ==> under(joined_path(root, place), target),
{
    let base = joined_path(root, place);
    match subpath(at) {
        Some(s) => {
            let sub = text::without_prefixes(s, "/"@);
            lemma_no_slash(s);
            if stays(sub) {
                lemma_leads_down(sub);
                assert forall|i: int| 0 <= i < route(sub).len() implies plain_name(
                    #[trigger] route(sub)[i],
                ) by {}
                lemma_descended_under(base, route(sub));
            }
        },
        None => {
            lemma_under_itself(base);
        },
    }
}

proof fn lemma_no_slash(s: Text)
    ensures
        !rooted(text::without_prefixes(s, "/"@)),
    decreases s.len(),
{
    reveal_strlit("/");
    assert("/"@ =~= seq!['/']);
    if "/"@.is_prefix_of(s) {
        lemma_no_slash(s.skip(1));
    } else if s.len() > 0 && s[0] == '/' {
        assert(s.take(1) =~= "/"@);
        assert("/"@.is_prefix_of(s));
    }
}

/// How many files were copied on the way.
pub open spec fn copies(start: ResonateModel, es: Seq<EventModel>) -> nat
    decreases es.len(),
{
    if es.len() == 0 {
        0
    } else if start.after_all(es.drop_last()).stage is Copy && es.last() matches EventModel::Done(
        Ok(_),
    ) {
        copies(start, es.drop_last()) + 1
    } else {
        copies(start, es.drop_last())
    }
}

/// **The count is the number of files copied.**
pub proof fn law_count_is_what_was_copied(start: ResonateModel, es: Seq<EventModel>)
    requires
        start.count == 0,
        copies(start, es) <= u64::MAX,
    ensures
        start.after_all(es).count == copies(start, es),
    decreases es.len(),
{
    if es.len() > 0 {
        law_count_is_what_was_copied(start, es.drop_last());
    }
}

/// The state after the first `k` events.
pub open spec fn state_at(start: ResonateModel, es: Seq<EventModel>, k: int) -> ResonateModel {
    start.after_all(es.take(k))
}

/// Whether a file was copied on the way, from and to these paths.
pub open spec fn copied(start: ResonateModel, es: Seq<EventModel>, from: Text, to: Text) -> bool {
    exists|k: int|
        0 <= k < es.len() && (#[trigger] state_at(start, es, k)).next() == AskModel::Copy(from, to)
            && es[k] == EventModel::Done(Ok::<(), Text>(()))
}

/// Whether a directory was listed on the way, to be copied from and to these
/// paths.
pub open spec fn walked(start: ResonateModel, es: Seq<EventModel>, from: Text, to: Text) -> bool {
    exists|k: int|
        0 <= k < es.len() && (#[trigger] state_at(start, es, k)).stage == (StageModel::List {
            from,
            to,
        }) && es[k] is Listed && es[k]->Listed_0 is Entries
}

/// Whether a task was done on the way.
pub open spec fn task_done(start: ResonateModel, es: Seq<EventModel>, t: TaskModel) -> bool {
    match t {
        TaskModel::Dir { from, to } => walked(start, es, from, to),
        TaskModel::File { from, to } => copied(start, es, from, to),
        TaskModel::Stop { .. } => false,
    }
}

/// Whether a task is still to be done.
spec fn pending(s: ResonateModel, t: TaskModel) -> bool {
    ||| s.todo.contains(t)
    ||| match t {
        TaskModel::Dir { from, to } => {
            ||| s.stage == (StageModel::Room { from, to })
            ||| s.stage == (StageModel::List { from, to })
            ||| s.stage is TargetForTree && from == s.source && to == s.target
        },
        TaskModel::File { from, to } => {
            ||| s.stage == (StageModel::Check { from, to })
            ||| s.stage == (StageModel::Copy { from, to })
            ||| (s.stage matches StageModel::TargetForFile(Some(n)) && from == s.source && to
                == joined_path(s.target, n))
        },
        TaskModel::Stop { .. } => false,
    }
}

/// Whether a copy has failed, or is bound to.
spec fn lost(s: ResonateModel) -> bool {
    ||| s.stage matches StageModel::Over(Err(_))
    ||| exists|t: TaskModel| t is Stop && #[trigger] s.todo.contains(t)
}

proof fn lemma_popped(s: ResonateModel, t: TaskModel)
    requires
        s.todo.contains(t),
    ensures
        t is Stop ==> lost(s.popped()),
        pending(s.popped(), t) || lost(s.popped()),
{
    let i = s.todo.index_of(t);
    assert(s.todo[i] == t);
    if i < s.todo.len() - 1 {
        assert(s.todo.drop_last()[i] == t);
        assert(s.popped().todo.contains(t));
    }
}

proof fn lemma_in_sum(a: Seq<TaskModel>, b: Seq<TaskModel>, t: TaskModel)
    requires
        a.contains(t) || b.contains(t),
    ensures
        (a + b).contains(t),
{
    if a.contains(t) {
        let i = a.index_of(t);
        assert((a + b)[i] == t);
    } else {
        let i = b.index_of(t);
        assert((a + b)[a.len() + i] == t);
    }
}

/// Whether an event does the task that a copy is at.
spec fn does(s: ResonateModel, e: EventModel, t: TaskModel) -> bool {
    match t {
        TaskModel::Dir { from, to } => s.stage == (StageModel::List { from, to }) && e is Listed
            && e->Listed_0 is Entries,
        TaskModel::File { from, to } => s.stage == (StageModel::Copy { from, to }) && e
            == EventModel::Done(Ok::<(), Text>(())),
        TaskModel::Stop { .. } => false,
    }
}

/// One event leaves a task to be done, does it, or dooms the copy. A copy that
/// is doomed stays so.
proof fn lemma_task_step(s: ResonateModel, e: EventModel, t: TaskModel)
    requires
        pending(s, t) || lost(s),
    ensures
        pending(s.after(e), t) || lost(s.after(e)) || does(s, e, t),
{
    let u = if lost(s) && !(s.stage matches StageModel::Over(Err(_))) {
        choose|u: TaskModel| u is Stop && #[trigger] s.todo.contains(u)
    } else {
        t
    };
    match (s.stage, e) {
        (StageModel::List { from, to }, EventModel::Listed(ListingModel::Entries(es))) => {
            if s.todo.contains(u) {
                let more = stacked(from, to, es);
                lemma_in_sum(s.todo, more, u);
                lemma_popped(ResonateModel { todo: s.todo + more, ..s }, u);
            }
        },
        (
            StageModel::List { from, to },
            EventModel::Listed(ListingModel::Broken { before, why }),
        ) => {
            let stop = TaskModel::Stop { why };
            let below = s.todo.push(stop);
            assert(below[below.len() - 1] == stop);
            let more = stacked(from, to, before);
            lemma_in_sum(below, more, stop);
            lemma_popped(ResonateModel { todo: below + more, ..s }, stop);
        },
        (StageModel::Copy { from, to }, EventModel::Done(Ok(nothing))) => {
            assert(nothing == ());
            if s.todo.contains(u) {
                lemma_popped(ResonateModel { count: one_more(s.count), ..s }, u);
            }
        },
        _ => {
            if s.todo.contains(u) {
                assert(s.after(e).todo.contains(u));
            }
        },
    }
}

/// A task that was to be done at some point is still to be done, was done
/// since, or the copy is doomed.
proof fn lemma_task_kept(start: ResonateModel, es: Seq<EventModel>, k: int, t: TaskModel)
    requires
        0 <= k <= es.len(),
        pending(state_at(start, es, k), t) || lost(state_at(start, es, k)),
    ensures
        pending(start.after_all(es), t) || lost(start.after_all(es)) || task_done(start, es, t),
    decreases es.len(),
{
    if k == es.len() {
        assert(es.take(k) =~= es);
    } else {
        let init = es.drop_last();
        assert(init.take(k) =~= es.take(k));
        lemma_task_kept(start, init, k, t);
        let s = start.after_all(init);
        assert(es.take(es.len() - 1) =~= init);
        assert(state_at(start, es, es.len() - 1) == s);
        assert(es[es.len() - 1] == es.last());
        if task_done(start, init, t) {
            lemma_done_stays(start, es, t);
        } else {
            lemma_task_step(s, es.last(), t);
        }
    }
}

proof fn lemma_done_stays(start: ResonateModel, es: Seq<EventModel>, t: TaskModel)
    requires
        es.len() > 0,
        task_done(start, es.drop_last(), t),
    ensures
        task_done(start, es, t),
{
    let init = es.drop_last();
    match t {
        TaskModel::Dir { from, to } => {
            let k = choose|k: int|
                0 <= k < init.len() && (#[trigger] state_at(start, init, k)).stage
                    == (StageModel::List { from, to }) && init[k] is Listed
                    && init[k]->Listed_0 is Entries;
            assert(init.take(k) =~= es.take(k));
            assert(state_at(start, es, k) == state_at(start, init, k));
            assert(es[k] == init[k]);
        },
        TaskModel::File { from, to } => {
            let k = choose|k: int|
                0 <= k < init.len() && (#[trigger] state_at(start, init, k)).next()
                    == AskModel::Copy(from, to) && init[k] == EventModel::Done(
                    Ok::<(), Text>(()),
                );
            assert(init.take(k) =~= es.take(k));
            assert(state_at(start, es, k) == state_at(start, init, k));
            assert(es[k] == init[k]);
        },
        _ => {},
    }
}

/// A copy that ends well has nothing left to do.
proof fn lemma_nothing_left(start: ResonateModel, es: Seq<EventModel>)
    requires
        start.stage is Source,
    ensures
        start.after_all(es).stage matches StageModel::Over(Ok(_)) ==> start.after_all(es).todo.len()
            == 0,
    decreases es.len(),
{
    if es.len() > 0 {
        lemma_nothing_left(start, es.drop_last());
    }
}

proof fn lemma_task_of_entry(from: Text, to: Text, ents: Seq<EntryModel>, i: int)
    requires
        0 <= i < ents.len(),
        ents[i].kind != Kind::Other,
    ensures
        stacked(from, to, ents).contains(task_of(from, to, ents[i])),
    decreases ents.len(),
{
    let rest = ents.drop_first();
    let below = stacked(from, to, rest);
    let all = stacked(from, to, ents);
    let t = task_of(from, to, ents[i]);
    if i == 0 {
        assert(all[all.len() - 1] == t);
    } else {
        lemma_task_of_entry(from, to, rest, i - 1);
        assert(rest[i - 1] == ents[i]);
        let j = below.index_of(t);
        assert(all[j] == t);
    }
}

/// **The copy is complete**: in a run that ends well, every regular file that
/// any listing named was copied to its place, and every directory that any
/// listing named was listed in its turn.
pub proof fn law_everything_is_copied(
    start: ResonateModel,
    es: Seq<EventModel>,
    k: int,
    from: Text,
    to: Text,
    ents: Seq<EntryModel>,
    i: int,
)
    requires
        start.stage is Source,
        start.after_all(es).next() matches AskModel::End(Ok(_)),
        0 <= k < es.len(),
        state_at(start, es, k).stage == (StageModel::List { from, to }),
        es[k] == EventModel::Listed(ListingModel::Entries(ents)),
        0 <= i < ents.len(),
    ensures
        ents[i].kind == Kind::File ==> copied(
            start,
            es,
            joined_path(from, ents[i].name),
            joined_path(to, ents[i].name),
        ),
        ents[i].kind == Kind::Dir ==> walked(
            start,
            es,
            joined_path(from, ents[i].name),
            joined_path(to, ents[i].name),
        ),
{
    if ents[i].kind != Kind::Other {
        let s = state_at(start, es, k);
        let t = task_of(from, to, ents[i]);
        let more = stacked(from, to, ents);
        lemma_task_of_entry(from, to, ents, i);
        lemma_in_sum(s.todo, more, t);
        lemma_popped(ResonateModel { todo: s.todo + more, ..s }, t);
        assert(es.take(k + 1).drop_last() =~= es.take(k));
        assert(state_at(start, es, k + 1) == s.after(es[k]));
        lemma_task_kept(start, es, k + 1, t);
        lemma_nothing_left(start, es);
    }
}

/// **The source itself is copied**: in a run that ends well, a source that is a
/// directory was listed into the target, and one that is a file was copied
/// into the target under its name.
pub proof fn law_source_is_copied(start: ResonateModel, es: Seq<EventModel>, k: int)
    requires
        start.stage is Source,
        start.after_all(es).next() matches AskModel::End(Ok(_)),
        0 <= k < es.len(),
        state_at(start, es, k).stage is Source,
    ensures
        es[k] == EventModel::Source(SourceModel::Dir) ==> walked(
            start,
            es,
            start.source,
            start.target,
        ),
        es[k] matches EventModel::Source(SourceModel::File(Some(n))) ==> copied(
            start,
            es,
            start.source,
            joined_path(start.target, n),
        ),
{
    let s = state_at(start, es, k);
    lemma_ends_kept(start, es.take(k));
    assert(es.take(k + 1).drop_last() =~= es.take(k));
    assert(state_at(start, es, k + 1) == s.after(es[k]));
    lemma_nothing_left(start, es);
    match es[k] {
        EventModel::Source(SourceModel::Dir) => {
            lemma_task_kept(
                start,
                es,
                k + 1,
                TaskModel::Dir { from: start.source, to: start.target },
            );
        },
        EventModel::Source(SourceModel::File(Some(n))) => {
            lemma_task_kept(
                start,
                es,
                k + 1,
                TaskModel::File { from: start.source, to: joined_path(start.target, n) },
            );
        },
        _ => {},
    }
}

proof fn lemma_ends_kept(start: ResonateModel, es: Seq<EventModel>)
    ensures
        start.after_all(es).source == start.source,
        start.after_all(es).target == start.target,
    decreases es.len(),
{
    if es.len() > 0 {
        lemma_ends_kept(start, es.drop_last());
    }
}

} // verus!
