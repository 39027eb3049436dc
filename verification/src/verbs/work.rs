//! What the verbs ask of the world, and what the world answers.
//!
//! A verb that works on repos is a machine. It says what it asks for next, and
//! moves on when it is told what came of it. An event that was not waited for
//! changes nothing.

use crate::proc::{Reply, ReplyModel, Spawn, SpawnModel};
use crate::text::{outcome, Text};
use vstd::prelude::*;

verus! {

/// What a verb asks for next.
#[derive(Debug)]
pub enum Ask<'a> {
    /// Say whether a path exists, what its parent is and what it is called.
    Probe(&'a str),
    /// Find the git work trees of the workspace, with the URL of their origin.
    Trees,
    /// Create a directory with all its parents.
    MakeDir(&'a str),
    /// Move a directory.
    Rename(&'a str, &'a str),
    /// Run a process to its end.
    Run(&'a Spawn),
    /// Write to standard output.
    Say(String),
    /// Write to standard error.
    Warn(String),
    /// The verb is over: it wrote this last, or failed so.
    End(Result<String, String>),
}

/// What an `Ask` stands for.
pub enum AskModel {
    Probe(Text),
    Trees,
    MakeDir(Text),
    Rename(Text, Text),
    Run(SpawnModel),
    Say(Text),
    Warn(Text),
    End(Result<Text, Text>),
}

impl<'a> DeepView for Ask<'a> {
    type V = AskModel;

    open spec fn deep_view(&self) -> AskModel {
        match self {
            Ask::Probe(p) => AskModel::Probe(p@),
            Ask::Trees => AskModel::Trees,
            Ask::MakeDir(p) => AskModel::MakeDir(p@),
            Ask::Rename(from, to) => AskModel::Rename(from@, to@),
            Ask::Run(s) => AskModel::Run((*s).deep_view()),
            Ask::Say(t) => AskModel::Say(t@),
            Ask::Warn(t) => AskModel::Warn(t@),
            Ask::End(r) => AskModel::End(outcome(*r)),
        }
    }
}

/// What came of what a verb asked for.
#[derive(Debug)]
pub enum Event {
    /// Whether the path exists, its parent, and its last component.
    Probed { exists: bool, parent: Option<String>, file_name: Option<String> },
    /// The work trees: where each stands, and the URL of its origin.
    Found(Vec<(String, String)>),
    /// The directory was created or moved, or why not.
    Done(Result<(), String>),
    /// What came of the process.
    Ran(Reply),
    /// The text was written.
    Said,
}

/// What an `Event` stands for.
pub enum EventModel {
    Probed { exists: bool, parent: Option<Text>, file_name: Option<Text> },
    Found(Seq<(Text, Text)>),
    Done(Result<(), Text>),
    Ran(ReplyModel),
    Said,
}

impl DeepView for Event {
    type V = EventModel;

    open spec fn deep_view(&self) -> EventModel {
        match self {
            Event::Probed { exists, parent, file_name } => EventModel::Probed {
                exists: *exists,
                parent: parent.deep_view(),
                file_name: file_name.deep_view(),
            },
            Event::Found(trees) => EventModel::Found(trees.deep_view()),
            Event::Done(r) => EventModel::Done(outcome(*r)),
            Event::Ran(r) => EventModel::Ran(r.deep_view()),
            Event::Said => EventModel::Said,
        }
    }
}

impl AskModel {
    /// Whether an event is of the kind that answers what is asked.
    pub open spec fn answered_by(self, e: EventModel) -> bool {
        match self {
            AskModel::Probe(_) => e is Probed,
            AskModel::Trees => e is Found,
            AskModel::MakeDir(_) => e is Done,
            AskModel::Rename(_, _) => e is Done,
            AskModel::Run(_) => e is Ran,
            AskModel::Say(_) => e is Said,
            AskModel::Warn(_) => e is Said,
            AskModel::End(_) => false,
        }
    }
}

} // verus!
