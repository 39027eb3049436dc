//! Where repos stand: the placement rule, and paths by their components.
//!
//! Paths are texts here. Nothing looks at the disk, so no link is followed.

use crate::store::joined_path;
use crate::text::{self, Text};
use vstd::prelude::*;

verus! {

// --- placement --------------------------------------------------------------

/// The last segment of a URL, without `.git` at its end.
pub open spec fn url_basename(url: Text) -> Text {
    text::without_suffixes(text::split_on(url, '/').last(), ".git"@)
}

/// Where a repo materializes: what is recorded, otherwise the URL's basename,
/// otherwise the repo's name.
pub open spec fn place_of(at: Option<Text>, url: Option<Text>, name: Text) -> Text {
    match (at, url) {
        (Some(at), _) => at,
        (None, Some(url)) => url_basename(url),
        (None, None) => name,
    }
}

/// Where a repo materializes, relative to the workspace root.
pub fn place(at: &Option<String>, url: &Option<String>, name: &str) -> (r: String)
    ensures
        r@ == place_of(at.deep_view(), url.deep_view(), name@),
{
    if let Some(at) = at {
        return at.clone();
    }
    if let Some(url) = url {
        let parts: Vec<String> = text::split(url.as_str(), '/');
        proof {
            text::lemma_split_joined(url@, '/');
        }
        let last: &String = &parts[parts.len() - 1];
        assert(last@ == text::split_on(url@, '/').last());
        return text::trim_suffixes(last.as_str(), ".git");
    }
    name.to_owned()
}

// --- components -------------------------------------------------------------

/// Whether a path begins at the root of the file system.
pub open spec fn rooted(p: Text) -> bool {
    p.len() > 0 && p[0] == '/'
}

/// The segments that name something: neither empty nor `.`.
pub open spec fn named(segs: Seq<Text>) -> Seq<Text>
    decreases segs.len(),
{
    if segs.len() == 0 {
        Seq::empty()
    } else if segs.last().len() == 0 || segs.last() == "."@ {
        named(segs.drop_last())
    } else {
        named(segs.drop_last()).push(segs.last())
    }
}

/// The components of a path. One that is rooted has `/` for its first.
pub open spec fn components(p: Text) -> Seq<Text> {
    (if rooted(p) {
        seq!["/"@]
    } else {
        Seq::empty()
    }) + named(text::split_on(p, '/'))
}

/// Components with every `..` resolved that has something to lead back from;
/// those that are left stand in front.
pub open spec fn resolved(cs: Seq<Text>) -> Seq<Text>
    decreases cs.len(),
{
    if cs.len() == 0 {
        Seq::empty()
    } else {
        let done = resolved(cs.drop_last());
        if cs.last() != ".."@ || done.len() == 0 || done.last() == ".."@ {
            done.push(cs.last())
        } else if done.last() == "/"@ {
            done
        } else {
            done.drop_last()
        }
    }
}

/// The way that a path leads.
pub open spec fn route(p: Text) -> Seq<Text> {
    resolved(components(p))
}

/// How many steps a way leads up before it leads down.
pub open spec fn climbs(way: Seq<Text>) -> nat
    decreases way.len(),
{
    if way.len() == 0 || way[0] != ".."@ {
        0
    } else {
        climbs(way.drop_first()) + 1
    }
}

/// Whether a path, taken relative to a directory, leads to that directory or
/// to something inside it.
pub open spec fn stays(p: Text) -> bool {
    route(p).len() == 0 || (route(p)[0] != ".."@ && route(p)[0] != "/"@)
}

/// Whether the way `y` leads to where `x` leads, or to something inside it. A
/// way that only leads up contains everything that does not lead further up.
pub open spec fn contains_way(x: Seq<Text>, y: Seq<Text>) -> bool {
    if climbs(x) == x.len() {
        (y.len() == 0 || y[0] != "/"@) && climbs(y) <= x.len()
    } else {
        x.is_prefix_of(y)
    }
}

/// Whether two paths lead to the same place, or one to a place inside the
/// other.
pub open spec fn overlap(a: Text, b: Text) -> bool {
    contains_way(route(a), route(b)) || contains_way(route(b), route(a))
}

/// Whether a text can be a component of a path.
pub open spec fn is_component(p: Text) -> bool {
    p.len() > 0 && p != "."@ && !p.contains('/')
}

/// The components of a path.
pub fn components_of(p: &str) -> (r: Vec<String>)
    ensures
        r.deep_view() == components(p@),
{
    let segs: Vec<String> = text::split(p, '/');
    let ghost q = segs.deep_view();
    let mut out: Vec<String> = Vec::new();
    if p.unicode_len() > 0 && p.get_char(0) == '/' {
        out.push("/".to_owned());
    }
    let ghost front = out.deep_view();
    assert(front =~= (if rooted(p@) {
        seq!["/"@]
    } else {
        Seq::empty()
    }));
    assert(out.deep_view() =~= front + named(q.take(0)));
    for i in 0..segs.len()
        invariant
            q == segs.deep_view(),
            out.deep_view() == front + named(q.take(i as int)),
    {
        let ghost done = out.deep_view();
        assert(q.take(i + 1).drop_last() =~= q.take(i as int));
        if segs[i].as_str().unicode_len() > 0 && !text::same(segs[i].as_str(), ".") {
            out.push(segs[i].clone());
            assert(out.deep_view() =~= done.push(q[i as int]));
            assert(out.deep_view() =~= front + named(q.take(i + 1)));
        }
    }
    assert(q.take(segs@.len() as int) =~= q);
    out
}

/// The way that a path leads.
pub fn route_of(p: &str) -> (r: Vec<String>)
    ensures
        r.deep_view() == route(p@),
{
    let cs: Vec<String> = components_of(p);
    let ghost q = cs.deep_view();
    let mut out: Vec<String> = Vec::new();
    assert(out.deep_view() =~= resolved(q.take(0)));
    for i in 0..cs.len()
        invariant
            q == cs.deep_view(),
            out.deep_view() == resolved(q.take(i as int)),
    {
        let ghost done = out.deep_view();
        assert(q.take(i + 1).drop_last() =~= q.take(i as int));
        let n: usize = out.len();
        if !text::same(cs[i].as_str(), "..") || n == 0 || text::same(out[n - 1].as_str(), "..") {
            out.push(cs[i].clone());
            assert(out.deep_view() =~= done.push(q[i as int]));
        } else if !text::same(out[n - 1].as_str(), "/") {
            let _ = out.pop();
            assert(out.deep_view() =~= done.drop_last());
        }
    }
    assert(q.take(cs@.len() as int) =~= q);
    out
}

/// Whether a path, taken relative to a directory, leads to that directory or
/// to something inside it.
pub fn stays_within(p: &str) -> (r: bool)
    ensures
        r == stays(p@),
{
    let way: Vec<String> = route_of(p);
    assert(way.deep_view().len() == way@.len());
    way.len() == 0 || (!text::same(way[0].as_str(), "..") && !text::same(way[0].as_str(), "/"))
}

proof fn lemma_climbs(way: Seq<Text>, i: int)
    requires
        0 <= i <= way.len(),
        forall|j: int| 0 <= j < i ==> way[j] == ".."@,
        i == way.len() || way[i] != ".."@,
    ensures
        climbs(way) == i,
    decreases i,
{
    if i > 0 {
        assert(way[0] == ".."@);
        let rest = way.drop_first();
        assert forall|j: int| 0 <= j < i - 1 implies rest[j] == ".."@ by {
            assert(way[j + 1] == ".."@);
        }
        lemma_climbs(rest, i - 1);
    }
}

fn count_climbs(way: &Vec<String>) -> (r: usize)
    ensures
        r == climbs(way.deep_view()),
        r <= way@.len(),
{
    let ghost q = way.deep_view();
    let mut i: usize = 0;
    while i < way.len() && text::same(way[i].as_str(), "..")
        invariant
            q == way.deep_view(),
            q.len() == way@.len(),
            i <= way@.len(),
            forall|j: int| 0 <= j < i ==> q[j] == ".."@,
        decreases way@.len() - i,
    {
        i = i + 1;
    }
    proof {
        lemma_climbs(q, i as int);
    }
    i
}

fn is_prefix(a: &Vec<String>, b: &Vec<String>) -> (r: bool)
    ensures
        r == a.deep_view().is_prefix_of(b.deep_view()),
{
    let ghost x = a.deep_view();
    let ghost y = b.deep_view();
    if a.len() > b.len() {
        return false;
    }
    for i in 0..a.len()
        invariant
            x == a.deep_view(),
            y == b.deep_view(),
            a@.len() <= b@.len(),
            forall|j: int| 0 <= j < i ==> x[j] == y[j],
    {
        if !text::same(a[i].as_str(), b[i].as_str()) {
            assert(x[i as int] != y.take(x.len() as int)[i as int]);
            return false;
        }
    }
    assert(x =~= y.take(x.len() as int));
    true
}

/// Whether the way `y` leads to where `x` leads, or to something inside it.
fn contains(x: &Vec<String>, y: &Vec<String>) -> (r: bool)
    ensures
        r == contains_way(x.deep_view(), y.deep_view()),
{
    assert(x.deep_view().len() == x@.len() && y.deep_view().len() == y@.len());
    if count_climbs(x) == x.len() {
        (y.len() == 0 || !text::same(y[0].as_str(), "/")) && count_climbs(y) <= x.len()
    } else {
        is_prefix(x, y)
    }
}

/// Whether two paths lead to the same place, or one to a place inside the
/// other.
pub fn overlaps(a: &str, b: &str) -> (r: bool)
    ensures
        r == overlap(a@, b@),
{
    let x: Vec<String> = route_of(a);
    let y: Vec<String> = route_of(b);
    contains(&x, &y) || contains(&y, &x)
}

/// Whether two paths lead to the same place.
pub fn same_place(a: &str, b: &str) -> (r: bool)
    ensures
        r == (route(a@) == route(b@)),
{
    let x: Vec<String> = route_of(a);
    let y: Vec<String> = route_of(b);
    let r: bool = x.len() == y.len() && is_prefix(&x, &y);
    proof {
        let p = x.deep_view();
        let q = y.deep_view();
        if r {
            assert(q.take(p.len() as int) =~= q);
        }
        if p == q {
            assert(q.take(p.len() as int) =~= q);
        }
    }
    r
}

// --- laws -------------------------------------------------------------------

/// **Overlap is mutual.**
pub proof fn law_overlap_symmetric(a: Text, b: Text)
    ensures
        overlap(a, b) == overlap(b, a),
{
}

/// **Overlap is by components**: where the workspace stands at an absolute
/// path, two placements overlap exactly where the way to one is a prefix of
/// the way to the other, wherever they lead.
pub proof fn law_overlap_is_by_components(root: Text, a: Text, b: Text)
    requires
        rooted(root),
    ensures
        ({
            let x = route(joined_path(root, a));
            let y = route(joined_path(root, b));
            overlap(joined_path(root, a), joined_path(root, b)) <==> x.is_prefix_of(y)
                || y.is_prefix_of(x)
        }),
{
    lemma_rooted(joined_path(root, a));
    lemma_rooted(joined_path(root, b));
    reveal_strlit("/");
    reveal_strlit("..");
    assert("/"@.len() != ".."@.len());
}

/// **Inside the workspace only the placements count**: two placements that
/// lead nowhere out of the workspace overlap exactly where the way of one is a
/// prefix of the way of the other, wherever the workspace stands.
pub proof fn law_overlap_inside_the_workspace(root: Text, a: Text, b: Text)
    requires
        stays(a),
        stays(b),
    ensures
        overlap(joined_path(root, a), joined_path(root, b)) <==> route(a).is_prefix_of(route(b))
            || route(b).is_prefix_of(route(a)),
{
    lemma_contains_inside(root, a, b);
    lemma_contains_inside(root, b, a);
}

/// **The workspace root contains every placement**: `.` overlaps with every
/// placement that leads nowhere out of the workspace.
pub proof fn law_root_contains_everything(root: Text, b: Text)
    requires
        stays(b),
    ensures
        overlap(joined_path(root, "."@), joined_path(root, b)),
{
    reveal_strlit(".");
    assert(!"."@.contains('/'));
    text::lemma_split_single("."@, '/');
    let segs = text::split_on("."@, '/');
    assert(segs.drop_last() =~= Seq::empty());
    assert(named(segs.drop_last()) =~= Seq::empty());
    assert(components("."@) =~= Seq::empty());
    assert(route("."@) =~= Seq::empty());
    law_overlap_inside_the_workspace(root, "."@, b);
    assert(route(b).take(0) =~= route("."@));
}

/// The way of a rooted path begins at the root.
proof fn lemma_rooted(p: Text)
    requires
        rooted(p),
    ensures
        route(p).len() > 0,
        route(p)[0] == "/"@,
{
    assert(components(p)[0] == "/"@);
    lemma_root_is_kept(components(p));
}

proof fn lemma_root_is_kept(cs: Seq<Text>)
    requires
        cs.len() > 0,
        cs[0] == "/"@,
    ensures
        resolved(cs).len() > 0,
        resolved(cs)[0] == "/"@,
    decreases cs.len(),
{
    if cs.len() == 1 {
        assert(cs.drop_last() =~= Seq::empty());
        assert(resolved(cs.drop_last()) =~= Seq::empty());
    } else {
        lemma_root_is_kept(cs.drop_last());
    }
}

proof fn lemma_named_add(x: Seq<Text>, y: Seq<Text>)
    ensures
        named(x + y) == named(x) + named(y),
    decreases y.len(),
{
    if y.len() == 0 {
        assert(x + y =~= x);
        assert(named(x) + named(y) =~= named(x));
    } else {
        lemma_named_add(x, y.drop_last());
        assert((x + y).drop_last() =~= x + y.drop_last());
        assert((x + y).last() == y.last());
        assert(named(x + y) =~= named(x) + named(y));
    }
}

/// The components of a path behind another are those of both.
pub proof fn lemma_components_joined(base: Text, rel: Text)
    requires
        !rooted(rel),
    ensures
        components(joined_path(base, rel)) == components(base) + components(rel),
{
    let j = joined_path(base, rel);
    let segs = text::split_on(rel, '/');
    reveal_strlit("/");
    assert("/"@ =~= seq!['/']);
    if base.len() == 0 {
        assert(text::split_on(base, '/') =~= seq![Seq::<char>::empty()]);
        assert(text::split_on(base, '/').drop_last() =~= Seq::empty());
        assert(named(Seq::empty()) =~= Seq::<Text>::empty());
        assert(components(base) =~= Seq::empty());
        assert(components(base) + components(rel) =~= components(rel));
    } else {
        let front = if base.last() == '/' {
            base.drop_last()
        } else {
            base
        };
        assert(j =~= front + seq!['/'] + rel);
        assert(j[0] == base[0]);
        text::lemma_split_concat(front, rel, '/');
        lemma_named_add(text::split_on(front, '/'), segs);
        let all = text::split_on(base, '/');
        if base.last() == '/' {
            assert(all.drop_last() =~= text::split_on(front, '/'));
            assert(named(all) == named(text::split_on(front, '/')));
        }
        assert(components(j) =~= components(base) + components(rel));
    }
}

/// A way behind another that does not lead up reads on from it.
proof fn lemma_resolved_add(cs: Seq<Text>, ds: Seq<Text>)
    requires
        !ds.contains("/"@),
        resolved(ds).len() == 0 || resolved(ds)[0] != ".."@,
    ensures
        resolved(cs + ds) == resolved(cs) + resolved(ds),
    decreases ds.len(),
{
    if ds.len() == 0 {
        assert(cs + ds =~= cs);
        assert(resolved(cs) + resolved(ds) =~= resolved(cs));
    } else {
        let init = ds.drop_last();
        let done = resolved(init);
        let c = ds.last();
        assert forall|i: int| 0 <= i < init.len() implies init[i] != "/"@ by {
            assert(ds[i] == init[i]);
        }
        if done.len() > 0 && done[0] == ".."@ {
            assert(resolved(ds)[0] == ".."@);
        }
        lemma_resolved_add(cs, init);
        assert((cs + ds).drop_last() =~= cs + init);
        assert((cs + ds).last() == c);
        if c == ".."@ {
            if done.len() == 0 {
                assert(resolved(ds)[0] == ".."@);
            }
            lemma_resolved(init);
            lemma_no_climb(done, done.len() - 1);
            let k = init.index_of(done.last());
            assert(init.contains(done[done.len() - 1]));
            assert(init[k] == done.last());
            assert((resolved(cs) + done).last() == done.last());
            assert((resolved(cs) + done).drop_last() =~= resolved(cs) + done.drop_last());
        } else {
            assert((resolved(cs) + done).push(c) =~= resolved(cs) + done.push(c));
        }
    }
}

/// The way to a placement that leads nowhere out of the workspace.
proof fn lemma_route_inside(root: Text, a: Text)
    requires
        stays(a),
    ensures
        route(joined_path(root, a)) == route(root) + route(a),
{
    if rooted(a) {
        lemma_rooted(a);
    }
    lemma_components_joined(root, a);
    lemma_components(a);
    let ds = components(a);
    reveal_strlit("/");
    assert("/"@[0] == '/');
    assert forall|i: int| 0 <= i < ds.len() implies ds[i] != "/"@ by {
        assert(is_component(ds[i]));
    }
    lemma_resolved_add(components(root), ds);
}

proof fn lemma_climbs_all(way: Seq<Text>)
    ensures
        climbs(way) <= way.len(),
        climbs(way) == way.len() ==> forall|i: int| 0 <= i < way.len() ==> way[i] == ".."@,
    decreases way.len(),
{
    if way.len() > 0 && way[0] == ".."@ {
        let rest = way.drop_first();
        lemma_climbs_all(rest);
        if climbs(way) == way.len() {
            assert forall|i: int| 0 <= i < way.len() implies way[i] == ".."@ by {
                if i > 0 {
                    assert(rest[i - 1] == way[i]);
                }
            }
        }
    }
}

proof fn lemma_contains_inside(root: Text, a: Text, b: Text)
    requires
        stays(a),
        stays(b),
    ensures
        contains_way(route(joined_path(root, a)), route(joined_path(root, b))) == route(
            a,
        ).is_prefix_of(route(b)),
{
    lemma_route_inside(root, a);
    lemma_route_inside(root, b);
    let r = route(root);
    let p = route(a);
    let q = route(b);
    let x = r + p;
    let y = r + q;
    reveal_strlit("/");
    reveal_strlit("..");
    assert("/"@.len() != ".."@.len());
    if climbs(x) == x.len() {
        lemma_climbs_all(x);
        if p.len() > 0 {
            assert(x[r.len() as int] == p[0]);
        }
        assert(q.take(0) =~= p);
        assert forall|i: int| 0 <= i < r.len() implies y[i] == ".."@ by {
            assert(x[i] == ".."@);
        }
        lemma_climbs(y, r.len() as int);
    } else {
        if p.is_prefix_of(q) {
            assert(y.take(x.len() as int) =~= r + q.take(p.len() as int));
        }
        if x.is_prefix_of(y) {
            assert(q.take(p.len() as int) =~= y.take(x.len() as int).skip(r.len() as int));
            assert(x.skip(r.len() as int) =~= p);
        }
    }
}

/// A component is a path of one component.
pub proof fn lemma_component(c: Text)
    requires
        is_component(c),
    ensures
        !rooted(c),
        components(c) == seq![c],
{
    if c[0] == '/' {
        assert(c.contains('/'));
    }
    text::lemma_split_single(c, '/');
    let segs = text::split_on(c, '/');
    assert(segs.drop_last() =~= Seq::empty());
    assert(named(segs.drop_last()) =~= Seq::empty());
    assert(components(c) =~= seq![c]);
}

/// The segments of a path are components, but for those that name nothing.
pub proof fn lemma_components(p: Text)
    ensures
        forall|i: int|
            0 <= i < components(p).len() ==> is_component(#[trigger] components(p)[i]) || (i == 0
                && rooted(p) && components(p)[i] == "/"@),
{
    let segs = text::split_on(p, '/');
    text::lemma_split_joined(p, '/');
    lemma_named(segs);
    let front = if rooted(p) {
        seq!["/"@]
    } else {
        Seq::empty()
    };
    assert forall|i: int| 0 <= i < components(p).len() implies is_component(
        #[trigger] components(p)[i],
    ) || (i == 0 && rooted(p) && components(p)[i] == "/"@) by {
        if i >= front.len() {
            assert(components(p)[i] == named(segs)[i - front.len()]);
        }
    }
}

proof fn lemma_named(segs: Seq<Text>)
    requires
        forall|i: int| 0 <= i < segs.len() ==> !(#[trigger] segs[i]).contains('/'),
    ensures
        forall|i: int| 0 <= i < named(segs).len() ==> is_component(#[trigger] named(segs)[i]),
    decreases segs.len(),
{
    if segs.len() > 0 {
        let init = segs.drop_last();
        assert forall|i: int| 0 <= i < init.len() implies !(#[trigger] init[i]).contains('/') by {
            assert(init[i] == segs[i]);
        }
        lemma_named(init);
        assert(!segs[segs.len() - 1].contains('/'));
        let all = named(segs);
        assert forall|i: int| 0 <= i < all.len() implies is_component(#[trigger] all[i]) by {
            if i < named(init).len() {
                assert(all[i] == named(init)[i]);
            }
        }
    }
}

/// What is resolved is made of what was there, and leads up only in front.
pub proof fn lemma_resolved(cs: Seq<Text>)
    ensures
        forall|i: int|
            0 <= i < resolved(cs).len() ==> cs.contains(#[trigger] resolved(cs)[i]),
        forall|i: int|
            0 < i < resolved(cs).len() && #[trigger] resolved(cs)[i] == ".."@ ==> resolved(cs)[i
                - 1] == ".."@,
    decreases cs.len(),
{
    if cs.len() > 0 {
        let init = cs.drop_last();
        lemma_resolved(init);
        let done = resolved(init);
        let all = resolved(cs);
        assert(cs[cs.len() - 1] == cs.last());
        assert forall|i: int| 0 <= i < all.len() implies cs.contains(#[trigger] all[i]) by {
            if i < done.len() {
                assert(all[i] == done[i]);
                let j = init.index_of(done[i]);
                assert(cs[j] == done[i]);
            }
        }
        assert forall|i: int| 0 < i < all.len() && #[trigger] all[i] == ".."@ implies all[i - 1]
            == ".."@ by {
            if i < done.len() {
                assert(all[i] == done[i] && all[i - 1] == done[i - 1]);
            } else {
                assert(all[i - 1] == done.last());
            }
        }
    }
}

/// A path that is not rooted and stays leads only down.
pub proof fn lemma_leads_down(p: Text)
    requires
        !rooted(p),
        stays(p),
    ensures
        forall|i: int|
            0 <= i < route(p).len() ==> is_component(#[trigger] route(p)[i]) && route(p)[i]
                != ".."@,
{
    let cs = components(p);
    let way = route(p);
    lemma_components(p);
    lemma_resolved(cs);
    assert forall|i: int| 0 <= i < way.len() implies is_component(#[trigger] way[i]) && way[i]
        != ".."@ by {
        assert(cs.contains(way[i]));
        let j = cs.index_of(way[i]);
        assert(cs[j] == way[i]);
        lemma_no_climb(way, i);
    }
}

proof fn lemma_no_climb(way: Seq<Text>, i: int)
    requires
        0 <= i < way.len(),
        way[0] != ".."@,
        forall|j: int| 0 < j < way.len() && #[trigger] way[j] == ".."@ ==> way[j - 1] == ".."@,
    ensures
        way[i] != ".."@,
    decreases i,
{
    if i > 0 {
        lemma_no_climb(way, i - 1);
    }
}

} // verus!
