//! Gitignore management for the parent git repo of the workspace.
//!
//! The repos that are portaled are clones nested under the workspace's own
//! git repo. Without help that repo sees them as untracked directories, or as
//! embedded repos that someone might add. So the workspace's `.gitignore`
//! lists them: a pure projection of the placements in the shared manifest.
//!
//! The block is bracketed by markers, and only that region is ever touched.
//! Lines outside the markers are the user's and stay exactly as written.

use crate::store::{manifest_place, SharedConfig, SharedRepoModel};
use crate::text::{self, first_at, occurs_at, Class, Text};
use crate::textmap::{keys_of, TextMap};
use vstd::prelude::*;

verus! {

/// The line that opens the block.
pub const BEGIN: &'static str = "# xen-managed: BEGIN — do not edit (run xen to update)";

/// The line that closes the block.
pub const END: &'static str = "# xen-managed: END";

/// The ignore line of one repo: its placement, anchored at the root.
pub open spec fn ignore_line(name: Text, r: SharedRepoModel) -> Text {
    "/"@ + text::trimmed(manifest_place(name, r), Class::Only('/')) + "/"@
}

/// The ignore lines of all repos.
pub open spec fn ignore_lines(m: Map<Text, SharedRepoModel>) -> Set<Text> {
    Set::new(|l: Text| exists|n: Text| #[trigger] m.contains_key(n) && l == ignore_line(n, m[n]))
}

/// The texts `ls`, one line each.
pub open spec fn lines_of(ls: Seq<Text>) -> Text
    decreases ls.len(),
{
    if ls.len() == 0 {
        Seq::empty()
    } else {
        lines_of(ls.drop_last()) + ls.last() + "\n"@
    }
}

/// The block: the ignore lines in order, each once, between the markers.
pub open spec fn block_of(m: Map<Text, SharedRepoModel>) -> Text {
    BEGIN@ + "\n"@ + lines_of(text::sorted(ignore_lines(m))) + END@ + "\n"@
}

/// Whether one of the repos `ks` has the ignore line `l`.
spec fn line_in(m: Map<Text, SharedRepoModel>, ks: Seq<Text>, l: Text) -> bool {
    exists|j: int| 0 <= j < ks.len() && #[trigger] ignore_line(ks[j], m[ks[j]]) == l
}

fn collect_lines(shared: &SharedConfig) -> (r: Vec<String>)
    ensures
        r.deep_view() == text::sorted(ignore_lines(shared.deep_view())),
        ignore_lines(shared.deep_view()).finite(),
{
    let ghost m = shared.deep_view();
    let ghost q = keys_of(m);
    let n: usize = shared.repos.len();
    let mut seen: TextMap<bool> = TextMap::new();
    for i in 0..n
        invariant
            m == shared.deep_view(),
            q == keys_of(m),
            n == q.len(),
            forall|l: Text|
                #[trigger] seen.deep_view().contains_key(l) <==> line_in(m, q.take(i as int), l),
    {
        let name: &str = shared.repos.key_at(i);
        let place: String = shared.repos.value_at(i).placement(name);
        let at: String = text::trim(place.as_str(), Class::Only('/'));
        let mut line: String = text::cat("/", at.as_str());
        line.append("/");
        let ghost mine = line@;
        assert(mine == ignore_line(q[i as int], m[q[i as int]]));
        let ghost start = seen.deep_view();
        seen.insert(line, true);
        proof {
            assert forall|l: Text| #[trigger]
                seen.deep_view().contains_key(l) <==> line_in(m, q.take(i + 1), l) by {
                if line_in(m, q.take(i as int), l) {
                    let j = choose|j: int|
                        0 <= j < q.take(i as int).len() && #[trigger] ignore_line(
                            q.take(i as int)[j],
                            m[q.take(i as int)[j]],
                        ) == l;
                    assert(q.take(i + 1)[j] == q.take(i as int)[j]);
                }
                if l == mine {
                    assert(q.take(i + 1)[i as int] == q[i as int]);
                }
                if line_in(m, q.take(i + 1), l) {
                    let j = choose|j: int|
                        0 <= j < q.take(i + 1).len() && #[trigger] ignore_line(
                            q.take(i + 1)[j],
                            m[q.take(i + 1)[j]],
                        ) == l;
                    if j < i {
                        assert(q.take(i as int)[j] == q.take(i + 1)[j]);
                    }
                }
            }
        }
    }
    let r: Vec<String> = seen.keys();
    proof {
        assert(q.take(n as int) =~= q);
        text::lemma_sorted(m.dom());
        assert forall|l: Text|
            seen.deep_view().contains_key(l) <==> ignore_lines(m).contains(l) by {
            if line_in(m, q, l) {
                let j = choose|j: int|
                    0 <= j < q.len() && #[trigger] ignore_line(q[j], m[q[j]]) == l;
                assert(q.contains(q[j]));
                assert(m.contains_key(q[j]));
            }
            if ignore_lines(m).contains(l) {
                let x = choose|x: Text| #[trigger]
                    m.contains_key(x) && l == ignore_line(x, m[x]);
                assert(q.contains(x));
                let j = choose|j: int| 0 <= j < q.len() && q[j] == x;
                assert(ignore_line(q[j], m[q[j]]) == l);
            }
        }
        assert(seen.deep_view().dom() =~= ignore_lines(m));
    }
    r
}

/// Renders the block for a manifest.
pub fn render_block(shared: &SharedConfig) -> (r: String)
    ensures
        r@ == block_of(shared.deep_view()),
{
    let lines: Vec<String> = collect_lines(shared);
    let ghost q = lines.deep_view();
    let mut out: String = text::cat(BEGIN, "\n");
    let mut body: String = String::new();
    assert(lines_of(q.take(0)) =~= body@);
    for i in 0..lines.len()
        invariant
            q == lines.deep_view(),
            body@ == lines_of(q.take(i as int)),
    {
        assert(q.take(i + 1).drop_last() =~= q.take(i as int));
        body.append(lines[i].as_str());
        body.append("\n");
    }
    assert(q.take(lines@.len() as int) =~= q);
    out.append(body.as_str());
    out.append(END);
    out.append("\n");
    out
}

/// `existing` with a block behind it, a blank line apart from what stands
/// there.
pub open spec fn appended(existing: Text, block: Text) -> Text {
    if existing.len() == 0 {
        block
    } else if existing.last() == '\n' {
        existing + "\n"@ + block
    } else {
        existing + "\n"@ + "\n"@ + block
    }
}

/// Where the block ends that opens at `begin`: behind the first closing
/// marker and its newline.
pub open spec fn block_end(existing: Text, begin: int) -> Option<int> {
    match first_at(existing, END@, begin) {
        None => None,
        Some(e) => {
            let end = e + END@.len();
            if end < existing.len() && existing[end] == '\n' {
                Some(end + 1)
            } else {
                Some(end)
            }
        },
    }
}

/// Where the block stands: from the first opening marker to the end of the
/// block that it opens.
pub open spec fn block_span(existing: Text) -> Option<(int, int)> {
    match first_at(existing, BEGIN@, 0) {
        None => None,
        Some(b) => match block_end(existing, b) {
            None => None,
            Some(e) => Some((b, e)),
        },
    }
}

/// `existing` with its block replaced, or with a block appended where it has
/// none.
pub open spec fn replaced(existing: Text, block: Text) -> Text {
    match block_span(existing) {
        Some((b, e)) => existing.take(b) + block + existing.skip(e),
        None => appended(existing, block),
    }
}

/// Replaces the block in `existing`, or appends one.
pub fn replace_block(existing: &str, new_block: &str) -> (r: String)
    ensures
        r@ == replaced(existing@, new_block@),
{
    let n: usize = existing.unicode_len();
    proof {
        text::lemma_first_at(existing@, BEGIN@, 0);
    }
    if let Some(begin) = text::find(existing, BEGIN, 0) {
        proof {
            text::lemma_first_at(existing@, END@, begin as int);
        }
        if let Some(e) = text::find(existing, END, begin) {
            let mut end: usize = e + END.unicode_len();
            if end < n && existing.get_char(end) == '\n' {
                end = end + 1;
            }
            let mut out: String = text::slice(existing, 0, begin);
            out.append(new_block);
            out.append(text::slice(existing, end, n).as_str());
            assert(existing@.subrange(0, begin as int) =~= existing@.take(begin as int));
            assert(existing@.subrange(end as int, n as int) =~= existing@.skip(end as int));
            return out;
        }
    }
    if n == 0 {
        return new_block.to_owned();
    }
    let mut out: String = existing.to_owned();
    if existing.get_char(n - 1) != '\n' {
        out.append("\n");
    }
    out.append("\n");
    out.append(new_block);
    out
}

/// What `.gitignore` is to hold, given what it holds, for a manifest.
pub open spec fn reconciled(existing: Text, m: Map<Text, SharedRepoModel>) -> Text {
    replaced(existing, block_of(m))
}

/// What is to be written to `.gitignore`: nothing where its contents are
/// already right.
pub open spec fn rewritten(existing: Text, m: Map<Text, SharedRepoModel>) -> Option<Text> {
    if reconciled(existing, m) == existing {
        None
    } else {
        Some(reconciled(existing, m))
    }
}

/// Reconciles `.gitignore` with the placements in `shared`: the new contents
/// to write, or nothing where the contents are already right.
pub fn reconcile(existing: &str, shared: &SharedConfig) -> (r: Option<String>)
    ensures
        r.deep_view() == rewritten(existing@, shared.deep_view()),
{
    let updated: String = replace_block(existing, render_block(shared).as_str());
    if text::same(updated.as_str(), existing) {
        None
    } else {
        Some(updated)
    }
}

// --- laws -------------------------------------------------------------------

/// Whether `needle` stands somewhere in `s`.
pub open spec fn holds_text(s: Text, needle: Text) -> bool {
    exists|i: int| occurs_at(s, needle, i)
}

/// Whether `.gitignore` has an opening marker that nothing closes.
pub open spec fn dangling(existing: Text) -> bool {
    first_at(existing, BEGIN@, 0) is Some && block_span(existing) is None
}

/// Whether no ignore line of a manifest holds the closing marker.
pub open spec fn plain_lines(m: Map<Text, SharedRepoModel>) -> bool {
    forall|l: Text| #[trigger] ignore_lines(m).contains(l) ==> !holds_text(l, END@)
}

proof fn lemma_markers()
    ensures
        !BEGIN@.contains('\n'),
        !END@.contains('\n'),
        END@.len() > 0,
        BEGIN@.len() > 0,
        BEGIN@[0] == '#',
        forall|i: int| 0 < i < BEGIN@.len() ==> BEGIN@[i] != '#',
        !holds_text(BEGIN@, END@),
        "\n"@ == seq!['\n'],
{
    reveal_strlit("# xen-managed: BEGIN — do not edit (run xen to update)");
    reveal_strlit("# xen-managed: END");
    reveal_strlit("\n");
    assert("\n"@ =~= seq!['\n']);
    assert forall|i: int| !occurs_at(BEGIN@, END@, i) by {
        if occurs_at(BEGIN@, END@, i) {
            let part = BEGIN@.subrange(i, i + END@.len());
            assert(part[0] == END@[0]);
            assert(part[15] == END@[15]);
        }
    }
}

/// Behind a line that does not hold `needle`, every occurrence stands in what
/// follows.
proof fn lemma_past_line(a: Text, rest: Text, needle: Text, j: int)
    requires
        !needle.contains('\n'),
        needle.len() > 0,
        !holds_text(a, needle),
        occurs_at(a + "\n"@ + rest, needle, j),
    ensures
        j >= a.len() + 1,
        occurs_at(rest, needle, j - a.len() - 1),
{
    lemma_markers();
    let hay = a + "\n"@ + rest;
    if j + needle.len() <= a.len() {
        assert(a.subrange(j, j + needle.len()) =~= hay.subrange(j, j + needle.len()));
        assert(occurs_at(a, needle, j));
    } else if j <= a.len() {
        let k = a.len() - j;
        assert(hay.subrange(j, j + needle.len())[k] == hay[a.len() as int]);
        assert(needle[k] == '\n');
    } else {
        let i = j - a.len() - 1;
        assert(rest.subrange(i, i + needle.len()) =~= hay.subrange(j, j + needle.len()));
    }
}

proof fn lemma_past_lines(ls: Seq<Text>, rest: Text, needle: Text, j: int)
    requires
        !needle.contains('\n'),
        needle.len() > 0,
        forall|i: int| 0 <= i < ls.len() ==> !holds_text(#[trigger] ls[i], needle),
        occurs_at(lines_of(ls) + rest, needle, j),
    ensures
        j >= lines_of(ls).len(),
    decreases ls.len(),
{
    if ls.len() > 0 {
        let more = ls.last() + "\n"@ + rest;
        assert(lines_of(ls) + rest =~= lines_of(ls.drop_last()) + more);
        lemma_past_lines(ls.drop_last(), more, needle, j);
        let i = j - lines_of(ls.drop_last()).len();
        assert(more.subrange(i, i + needle.len()) =~= (lines_of(ls) + rest).subrange(
            j,
            j + needle.len(),
        ));
        lemma_markers();
        lemma_past_line(ls.last(), rest, needle, i);
    }
}

/// In a block the closing marker stands nowhere but in the last line.
proof fn lemma_block_closes_once(m: Map<Text, SharedRepoModel>, j: int)
    requires
        plain_lines(m),
        ignore_lines(m).finite(),
        occurs_at(block_of(m), END@, j),
    ensures
        j >= block_of(m).len() - END@.len() - 1,
{
    lemma_markers();
    let ls = text::sorted(ignore_lines(m));
    let tail = END@ + "\n"@;
    let rest = lines_of(ls) + tail;
    assert(block_of(m) =~= BEGIN@ + "\n"@ + rest);
    lemma_past_line(BEGIN@, rest, END@, j);
    text::lemma_sorted(ignore_lines(m));
    assert forall|i: int| 0 <= i < ls.len() implies !holds_text(#[trigger] ls[i], END@) by {
        assert(ls.to_set().contains(ls[i]));
    }
    lemma_past_lines(ls, tail, END@, j - BEGIN@.len() - 1);
}

/// A text in which no opening marker stands ahead of a block has that block.
proof fn lemma_span(p: Text, m: Map<Text, SharedRepoModel>, rest: Text)
    requires
        plain_lines(m),
        ignore_lines(m).finite(),
        forall|j: int| 0 <= j < p.len() ==> !occurs_at(p + block_of(m) + rest, BEGIN@, j),
    ensures
        block_span(p + block_of(m) + rest) == Some(
            (p.len() as int, (p.len() + block_of(m).len()) as int),
        ),
{
    lemma_markers();
    let b = block_of(m);
    let hay = p + b + rest;
    let i = p.len() as int;
    assert(hay.subrange(i, i + BEGIN@.len()) =~= BEGIN@);
    text::lemma_first_at_is(hay, BEGIN@, 0, i);
    let e = i + b.len() - END@.len() - 1;
    assert(hay.subrange(e, e + END@.len()) =~= END@);
    assert forall|j: int| i <= j < e implies !occurs_at(hay, END@, j) by {
        if occurs_at(hay, END@, j) {
            assert(b.subrange(j - i, j - i + END@.len()) =~= hay.subrange(j, j + END@.len()));
            lemma_block_closes_once(m, j - i);
        }
    }
    text::lemma_first_at_is(hay, END@, i, e);
    assert(hay[e + END@.len()] == '\n');
}

/// **What is the user's stays**: where `.gitignore` has a block, what stands
/// before and behind it is kept as written; where it has none, everything is
/// kept and the block comes behind it.
pub proof fn law_user_text_kept(existing: Text, m: Map<Text, SharedRepoModel>)
    ensures
        match block_span(existing) {
            Some((b, e)) => {
                &&& reconciled(existing, m).take(b) == existing.take(b)
                &&& reconciled(existing, m).skip(b + block_of(m).len()) == existing.skip(e)
            },
            None => existing.is_prefix_of(reconciled(existing, m)),
        },
{
    text::lemma_first_at(existing, BEGIN@, 0);
    match block_span(existing) {
        Some((b, e)) => {
            text::lemma_first_at(existing, END@, b);
            assert(reconciled(existing, m).take(b) =~= existing.take(b));
            assert(reconciled(existing, m).skip(b + block_of(m).len()) =~= existing.skip(e));
        },
        None => {
            assert(reconciled(existing, m).take(existing.len() as int) =~= existing);
        },
    }
}

/// **The block is the projection of the manifest**: once reconciled,
/// `.gitignore` has a block, and it is the one of the manifest.
pub proof fn law_block_is_projection(existing: Text, m: Map<Text, SharedRepoModel>)
    requires
        m.dom().finite(),
        plain_lines(m),
        !dangling(existing),
    ensures
        match block_span(reconciled(existing, m)) {
            Some((b, e)) => reconciled(existing, m).subrange(b, e) == block_of(m),
            None => false,
        },
{
    lemma_lines_finite(m);
    lemma_markers();
    text::lemma_first_at(existing, BEGIN@, 0);
    let block = block_of(m);
    let after = reconciled(existing, m);
    match block_span(existing) {
        Some((b, e)) => {
            let p = existing.take(b);
            let rest = existing.skip(e);
            assert forall|j: int| 0 <= j < p.len() implies !occurs_at(after, BEGIN@, j) by {
                if occurs_at(after, BEGIN@, j) {
                    let part = after.subrange(j, j + BEGIN@.len());
                    if j + BEGIN@.len() > b {
                        assert(part[b - j] == after[b]);
                        assert(after[b] == block[0]);
                        assert(block[0] == BEGIN@[0]);
                        assert(BEGIN@[b - j] == '#');
                    } else {
                        assert(existing.subrange(j, j + BEGIN@.len()) =~= part);
                        assert(occurs_at(existing, BEGIN@, j));
                    }
                }
            }
            text::lemma_first_at(existing, END@, b);
            lemma_span(p, m, rest);
            assert(after.subrange(b, b + block.len()) =~= block);
        },
        None => {
            let p = after.take(after.len() - block.len());
            assert(after =~= p + block + Seq::<char>::empty());
            assert forall|j: int| 0 <= j < p.len() implies !occurs_at(after, BEGIN@, j) by {
                if occurs_at(after, BEGIN@, j) {
                    let part = after.subrange(j, j + BEGIN@.len());
                    if j + BEGIN@.len() <= existing.len() {
                        assert(existing.subrange(j, j + BEGIN@.len()) =~= part);
                        assert(occurs_at(existing, BEGIN@, j));
                    } else if j <= existing.len() {
                        assert(part[existing.len() - j] == after[existing.len() as int]);
                        assert(BEGIN@[existing.len() - j] == '\n');
                    } else {
                        assert(part[0] == after[j]);
                        assert(BEGIN@[0] == '\n');
                    }
                }
            }
            lemma_span(p, m, Seq::empty());
            assert(after.subrange(p.len() as int, (p.len() + block.len()) as int) =~= block);
        },
    }
}

proof fn lemma_lines_finite(m: Map<Text, SharedRepoModel>)
    requires
        m.dom().finite(),
    ensures
        ignore_lines(m).finite(),
{
    let f = |n: Text| ignore_line(n, m[n]);
    m.dom().lemma_map_finite(f);
    assert forall|l: Text| ignore_lines(m).contains(l) <==> m.dom().map(f).contains(l) by {
        if ignore_lines(m).contains(l) {
            let n = choose|n: Text| #[trigger] m.contains_key(n) && l == ignore_line(n, m[n]);
            assert(m.dom().contains(n) && f(n) == l);
        }
    }
    assert(ignore_lines(m) =~= m.dom().map(f));
}

/// **Reconciling twice is reconciling once.**
pub proof fn law_reconcile_idempotent(existing: Text, m: Map<Text, SharedRepoModel>)
    requires
        m.dom().finite(),
        plain_lines(m),
        !dangling(existing),
    ensures
        reconciled(reconciled(existing, m), m) == reconciled(existing, m),
{
    law_block_is_projection(existing, m);
    let once = reconciled(existing, m);
    text::lemma_first_at(once, BEGIN@, 0);
    if let Some((b, e)) = block_span(once) {
        text::lemma_first_at(once, END@, b);
        assert(once.take(b) + once.subrange(b, e) + once.skip(e) =~= once);
    }
}

/// **Every placement is ignored**: the block has the ignore line of every
/// registered repo, and no line that is not one.
pub proof fn law_block_lists_placements(m: Map<Text, SharedRepoModel>, l: Text)
    requires
        m.dom().finite(),
    ensures
        text::sorted(ignore_lines(m)).contains(l) <==> exists|n: Text| #[trigger]
            m.contains_key(n) && l == ignore_line(n, m[n]),
{
    lemma_lines_finite(m);
    text::lemma_sorted(ignore_lines(m));
    assert(text::sorted(ignore_lines(m)).contains(l) <==> text::sorted(
        ignore_lines(m),
    ).to_set().contains(l));
}

} // verus!
