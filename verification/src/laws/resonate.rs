//! What `resonate` is for.

use crate::place::{place_of, route, stays};
use crate::store::{joined_path, SharedRepoModel};
use crate::text::{debug_text, decimal, without_prefixes, Text};
use crate::verbs::resonate::{
    descended, resonated, stacked, target_dir, AskModel, EntryModel, EventModel, Kind,
    ListingModel, ResonateModel, SourceModel, StageModel, TaskModel,
};
use vstd::prelude::*;

verus! {

/// **Files go to the placement, or to the subpath of it that `--at` names**: a
/// leading slash does not lead out of it, and one that leads out names nothing.
pub proof fn law_target(root: Text, place: Text, at: Text)
    ensures
        target_dir(root, place, None) == Some(joined_path(root, place)),
        at.len() == 0 ==> target_dir(root, place, Some(at)) == Some(joined_path(root, place)),
        at.len() > 0 ==> {
            let sub = without_prefixes(at, "/"@);
            &&& stays(sub) ==> target_dir(root, place, Some(at)) == Some(
                descended(joined_path(root, place), route(sub)),
            )
            &&& !stays(sub) ==> target_dir(root, place, Some(at)) is None
        },
{
}

/// **A way is gone down step by step.**
pub proof fn law_descended(base: Text, way: Seq<Text>, c: Text)
    ensures
        descended(base, Seq::empty()) == base,
        descended(base, way.push(c)) == joined_path(descended(base, way), c),
{
    assert(way.push(c).drop_last() =~= way);
}

/// **How a copy begins**: a portal that is not registered is refused, and a
/// subpath that leads out of the placement. Otherwise the source is looked at
/// first, and nothing has been copied.
pub proof fn law_how_a_copy_begins(
    root: Text,
    m: Map<Text, SharedRepoModel>,
    portal: Text,
    source: Text,
    at: Option<Text>,
    force: bool,
)
    ensures
        ({
            let place = place_of(m[portal].at, m[portal].url, portal);
            let r = resonated(root, m, portal, source, at, force);
            &&& !m.contains_key(portal) ==> r == Err::<ResonateModel, Text>(
                "resonate: unknown portal "@ + debug_text(portal),
            )
            &&& m.contains_key(portal) && target_dir(root, place, at) is None ==> r == Err::<
                ResonateModel,
                Text,
            >("resonate: --at "@ + debug_text(at->0) + " leads out of the placement"@)
            &&& m.contains_key(portal) && target_dir(root, place, at) is Some ==> (r matches Ok(s)
                && {
                &&& s.source == source
                &&& s.target == target_dir(root, place, at)->0
                &&& s.force == force
                &&& s.todo.len() == 0
                &&& s.count == 0
                &&& s.stage is Source
                &&& s.next() == AskModel::Source(source)
            })
        }),
{
}

/// **How a copy ends**: with the portal, the source, the number of files, and
/// where they went.
pub proof fn law_how_a_copy_ends(
    root: Text,
    m: Map<Text, SharedRepoModel>,
    portal: Text,
    source: Text,
    at: Option<Text>,
    force: bool,
    s: ResonateModel,
)
    requires
        resonated(root, m, portal, source, at, force) is Ok,
        s.opening == resonated(root, m, portal, source, at, force)->Ok_0.opening,
        s.closing == resonated(root, m, portal, source, at, force)->Ok_0.closing,
        s.stage matches StageModel::Over(Ok(_)),
    ensures
        ({
            let place = place_of(m[portal].at, m[portal].url, portal);
            s.next() == AskModel::End(
                Ok::<Text, Text>(
                    "resonate: "@ + portal + " ← "@ + source + " ("@ + decimal(s.count) + " file"@
                        + (if s.count == 1 {
                        ""@
                    } else {
                        "s"@
                    }) + (" into "@ + place + (if at is Some && at->0.len() > 0 {
                        "/"@ + at->0
                    } else {
                        Seq::empty()
                    }) + ")\n"@),
                ),
            )
        }),
{
}

/// **What a source comes down to**: the target is made for a directory and for a
/// file; anything else is refused.
pub proof fn law_source(s: ResonateModel, name: Text, why: Text)
    requires
        s.stage is Source,
    ensures
        s.after(EventModel::Source(SourceModel::Missing)).next() == AskModel::End(
            Err::<Text, Text>("resonate: source "@ + s.source + " does not exist"@),
        ),
        s.after(EventModel::Source(SourceModel::Other)).next() == AskModel::End(
            Err::<Text, Text>(
                "resonate: source "@ + s.source + " is neither a file nor a directory"@,
            ),
        ),
        ({
            let d = s.after(EventModel::Source(SourceModel::Dir));
            let f = s.after(EventModel::Source(SourceModel::File(Some(name))));
            let g = s.after(EventModel::Source(SourceModel::File(None)));
            let failed = AskModel::End(
                Err::<Text, Text>("resonate: creating target dir "@ + s.target + ": "@ + why),
            );
            &&& d.next() == AskModel::MakeDir(s.target)
            &&& f.next() == AskModel::MakeDir(s.target)
            &&& g.next() == AskModel::MakeDir(s.target)
            &&& d.after(EventModel::Done(Err(why))).next() == failed
            &&& f.after(EventModel::Done(Err(why))).next() == failed
            &&& d.after(EventModel::Done(Ok(()))).next() == AskModel::List(s.source)
            &&& d.after(EventModel::Done(Ok(()))).stage == (StageModel::List {
                from: s.source,
                to: s.target,
            })
            &&& f.after(EventModel::Done(Ok(()))).next() == AskModel::Exists(
                joined_path(s.target, name),
            )
            &&& f.after(EventModel::Done(Ok(()))).stage == (StageModel::Check {
                from: s.source,
                to: joined_path(s.target, name),
            })
            &&& g.after(EventModel::Done(Ok(()))).next() == AskModel::End(
                Err::<Text, Text>("resonate: source has no filename"@),
            )
        }),
{
}

/// **The entries of a directory are taken one by one, the first one first**: a
/// directory and a file keep their name on the other side, and what is neither
/// is left out.
pub proof fn law_entries(from: Text, to: Text, e: EntryModel, rest: Seq<EntryModel>)
    ensures
        stacked(from, to, Seq::empty()) == Seq::<TaskModel>::empty(),
        e.kind == Kind::Other ==> stacked(from, to, seq![e] + rest) == stacked(from, to, rest),
        e.kind == Kind::Dir ==> stacked(from, to, seq![e] + rest) == stacked(from, to, rest).push(
            TaskModel::Dir { from: joined_path(from, e.name), to: joined_path(to, e.name) },
        ),
        e.kind == Kind::File ==> stacked(from, to, seq![e] + rest) == stacked(from, to, rest).push(
            TaskModel::File { from: joined_path(from, e.name), to: joined_path(to, e.name) },
        ),
{
    assert((seq![e] + rest).drop_first() =~= rest);
}

/// What comes next where these tasks are left, of which the last comes first.
pub open spec fn takes_up(s: ResonateModel, todo: Seq<TaskModel>) -> bool {
    if todo.len() == 0 {
        s.stage matches StageModel::Over(Ok(_))
    } else {
        s.todo == todo.drop_last() && match todo.last() {
            TaskModel::Dir { from, to } => s.next() == AskModel::MakeDir(to) && s.stage == (
            StageModel::Room { from, to }),
            TaskModel::File { from, to } => s.next() == AskModel::Exists(to) && s.stage == (
            StageModel::Check { from, to }),
            TaskModel::Stop { why } => s.next() == AskModel::End(Err::<Text, Text>(why)),
        }
    }
}

/// **A directory that was listed is taken up at once**, ahead of what is still
/// to be done; one that could not be read ends the copy, and one that broke off
/// ends it behind what was read of it.
pub proof fn law_listing(
    s: ResonateModel,
    from: Text,
    to: Text,
    es: Seq<EntryModel>,
    why: Text,
)
    requires
        s.stage == (StageModel::List { from, to }),
    ensures
        s.next() == AskModel::List(from),
        takes_up(
            s.after(EventModel::Listed(ListingModel::Entries(es))),
            s.todo + stacked(from, to, es),
        ),
        takes_up(
            s.after(EventModel::Listed(ListingModel::Broken { before: es, why })),
            s.todo.push(TaskModel::Stop { why }) + stacked(from, to, es),
        ),
        s.after(EventModel::Listed(ListingModel::Unread(why))).next() == AskModel::End(
            Err::<Text, Text>("resonate: reading "@ + from + ": "@ + why),
        ),
        s.after(EventModel::Listed(ListingModel::Entries(es))).count == s.count,
{
}

/// **A directory is made before it is listed.**
pub proof fn law_room(s: ResonateModel, from: Text, to: Text, why: Text)
    requires
        s.stage == (StageModel::Room { from, to }),
    ensures
        s.next() == AskModel::MakeDir(to),
        s.after(EventModel::Done(Ok(()))).next() == AskModel::List(from),
        s.after(EventModel::Done(Ok(()))).stage == (StageModel::List { from, to }),
        s.after(EventModel::Done(Ok(()))).todo == s.todo,
        s.after(EventModel::Done(Err(why))).next() == AskModel::End(
            Err::<Text, Text>("resonate: creating "@ + to + ": "@ + why),
        ),
{
}

/// **A file is copied where nothing stands in its way, or where that does not
/// matter**: without `--force` what is there ends the copy, and with it the file
/// is copied over it. Each file that was copied counts once.
pub proof fn law_file(s: ResonateModel, from: Text, to: Text, why: Text)
    ensures
        s.stage == (StageModel::Check { from, to }) ==> {
            &&& s.next() == AskModel::Exists(to)
            &&& s.after(EventModel::Exists(false)).next() == AskModel::Copy(from, to)
            &&& s.force ==> s.after(EventModel::Exists(true)).next() == AskModel::Copy(from, to)
            &&& !s.force ==> s.after(EventModel::Exists(true)).next() == AskModel::End(
                Err::<Text, Text>(
                    "resonate: "@ + to + " already exists (rerun with --force to overwrite)"@,
                ),
            )
            &&& s.after(EventModel::Exists(false)).todo == s.todo
            &&& s.after(EventModel::Exists(false)).count == s.count
        },
        s.stage == (StageModel::Copy { from, to }) ==> {
            let t = s.after(EventModel::Done(Ok(())));
            &&& s.next() == AskModel::Copy(from, to)
            &&& takes_up(t, s.todo)
            &&& s.count < u64::MAX ==> t.count == s.count + 1
            &&& s.after(EventModel::Done(Err(why))).next() == AskModel::End(
                Err::<Text, Text>("resonate: copying "@ + from + " → "@ + to + ": "@ + why),
            )
        },
{
}

/// Whether an event is of the kind that answers what a copy asks.
pub open spec fn answered_by(ask: AskModel, e: EventModel) -> bool {
    match ask {
        AskModel::Source(_) => e is Source,
        AskModel::MakeDir(_) => e is Done,
        AskModel::List(_) => e is Listed,
        AskModel::Exists(_) => e is Exists,
        AskModel::Copy(_, _) => e is Done,
        AskModel::End(_) => false,
    }
}

/// **What was not waited for changes nothing.**
pub proof fn law_only_answers_count(s: ResonateModel, e: EventModel)
    ensures
        !answered_by(s.next(), e) ==> s.after(e) == s,
{
}

} // verus!
