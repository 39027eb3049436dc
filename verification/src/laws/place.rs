//! What placements are for.

use crate::laws::text::law_split;
use crate::place::{
    climbs, components, contains_way, named, overlap, place_of, resolved, route, stays,
};
use crate::store::{joined_path, manifest_place, SharedRepoModel};
use crate::text::{split_on, without_suffixes, Text};
use crate::verbs::merged::{placed, MergedRepoModel};
use crate::verbs::sync::repo_dir;
use vstd::prelude::*;

verus! {

/// **Where a repo materializes**: where it is recorded to; otherwise under what
/// stands behind the last slash of its URL, without `.git`; otherwise under its
/// name.
pub proof fn law_place(at: Text, url: Option<Text>, dir: Text, base: Text, name: Text)
    requires
        !base.contains('/'),
        dir.len() == 0 || dir.last() == '/',
    ensures
        place_of(Some(at), url, name) == at,
        place_of(None, Some(dir + base), name) == without_suffixes(base, ".git"@),
        place_of(None, None, name) == name,
{
    law_split(base, base, base, '/');
    if dir.len() == 0 {
        assert(dir + base =~= base);
    } else {
        let head = dir.drop_last();
        law_split(base, head, base, '/');
        assert(dir + base =~= head + seq!['/'] + base);
        assert((split_on(head, '/') + seq![base]).last() == base);
    }
}

/// **The components of a path are what stands between its slashes**, but for
/// what is empty and for `.`; a path that starts with a slash has that for its
/// first.
pub proof fn law_components(p: Text)
    ensures
        ({
            let parts = split_on(p, '/').filter(|s: Text| !(s.len() == 0 || s == "."@));
            &&& p.len() > 0 && p[0] == '/' ==> components(p) == seq!["/"@] + parts
            &&& !(p.len() > 0 && p[0] == '/') ==> components(p) == parts
        }),
{
    lemma_named_filters(split_on(p, '/'));
    let parts = split_on(p, '/').filter(|s: Text| !(s.len() == 0 || s == "."@));
    assert(Seq::<Text>::empty() + parts =~= parts);
}

proof fn lemma_named_filters(segs: Seq<Text>)
    ensures
        named(segs) == segs.filter(|s: Text| !(s.len() == 0 || s == "."@)),
    decreases segs.len(),
{
    reveal(Seq::filter);
    if segs.len() > 0 {
        lemma_named_filters(segs.drop_last());
    }
}

/// **How a path leads**: each component leads on, and `..` leads back by one. It
/// does not lead back from the root, and where there is nothing to lead back
/// from it stays.
pub proof fn law_route(cs: Seq<Text>, c: Text, p: Text)
    ensures
        route(p) == resolved(components(p)),
        resolved(Seq::empty()) == Seq::<Text>::empty(),
        c != ".."@ ==> resolved(cs.push(c)) == resolved(cs).push(c),
        resolved(cs).len() == 0 ==> resolved(cs.push(".."@)) == seq![".."@],
        resolved(cs).len() > 0 && resolved(cs).last() == ".."@ ==> resolved(cs.push(".."@))
            == resolved(cs).push(".."@),
        resolved(cs).len() > 0 && resolved(cs).last() == "/"@ ==> resolved(cs.push(".."@))
            == resolved(cs),
        resolved(cs).len() > 0 && resolved(cs).last() != ".."@ && resolved(cs).last() != "/"@
            ==> resolved(cs.push(".."@)) == resolved(cs).drop_last(),
{
    assert(cs.push(c).drop_last() =~= cs);
    assert(cs.push(".."@).drop_last() =~= cs);
    reveal_strlit("..");
    reveal_strlit("/");
    assert(".."@.len() != "/"@.len());
    if resolved(cs).len() == 0 {
        assert(resolved(cs).push(".."@) =~= seq![".."@]);
    }
}

/// **How far a way climbs**: by as many steps as it has `..` in front.
pub proof fn law_climbs(way: Seq<Text>)
    ensures
        climbs(way) <= way.len(),
        forall|i: int| 0 <= i < climbs(way) ==> #[trigger] way[i] == ".."@,
        climbs(way) < way.len() ==> way[climbs(way) as int] != ".."@,
    decreases way.len(),
{
    if way.len() > 0 && way[0] == ".."@ {
        let rest = way.drop_first();
        law_climbs(rest);
        assert forall|i: int| 0 <= i < climbs(way) implies #[trigger] way[i] == ".."@ by {
            if i > 0 {
                assert(way[i] == rest[i - 1]);
            }
        }
    }
}

/// **A path stays inside** where it leads neither up nor to the root.
pub proof fn law_stays(p: Text)
    ensures
        stays(p) <==> {
            ||| route(p).len() == 0
            ||| route(p)[0] != ".."@ && route(p)[0] != "/"@
        },
{
}

/// **Two paths overlap where one leads to the other or inside it**: by whole
/// components, and whichever of them is the longer. A path that only leads up
/// has everything inside it that does not lead further up.
pub proof fn law_overlap(a: Text, b: Text)
    ensures
        overlap(a, b) <==> contains_way(route(a), route(b)) || contains_way(route(b), route(a)),
        climbs(route(a)) < route(a).len() ==> (contains_way(route(a), route(b)) <==> route(
            a,
        ).is_prefix_of(route(b))),
        climbs(route(a)) == route(a).len() ==> (contains_way(route(a), route(b)) <==> !(route(
            b,
        ).len() > 0 && route(b)[0] == "/"@) && climbs(route(b)) <= route(a).len()),
{
}

/// **Both layers place a repo by the same rule**, and it stands there from the
/// workspace root on.
pub proof fn law_placements(root: Text, n: Text, s: SharedRepoModel, m: MergedRepoModel)
    ensures
        manifest_place(n, s) == place_of(s.at, s.url, n),
        placed(m, n) == place_of(m.at, m.url, n),
        repo_dir(root, n, m) == joined_path(root, place_of(m.at, m.url, n)),
{
}

} // verus!
