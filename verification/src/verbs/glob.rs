//! Branch patterns: a `*` stands for any text, a `?` for any one character.

use crate::text::{self, Text};
use vstd::prelude::*;

verus! {

/// Whether `s` matches the pattern `p`.
pub open spec fn globbed(p: Text, s: Text) -> bool
    decreases p.len() + s.len(),
{
    if p.len() == 0 {
        s.len() == 0
    } else if p[0] == '*' {
        globbed(p.drop_first(), s) || (s.len() > 0 && globbed(p, s.drop_first()))
    } else {
        s.len() > 0 && (p[0] == '?' || p[0] == s[0]) && globbed(p.drop_first(), s.drop_first())
    }
}

/// The column of one pattern suffix: for each suffix of the text, from the
/// whole of it to the empty one, whether it matches.
spec fn column(p: Text, s: Text) -> Seq<bool> {
    Seq::new((s.len() + 1) as nat, |j: int| globbed(p, s.skip(j)))
}

/// Whether `s` matches the pattern `pat`. There are no character classes.
pub fn glob_match(pat: &str, s: &str) -> (r: bool)
    ensures
        r == globbed(pat@, s@),
{
    let p: Vec<char> = text::chars_of(pat);
    let t: Vec<char> = text::chars_of(s);
    let n: usize = t.len();
    // `row[j]` tells whether the text from `j` on matches the pattern from `i` on.
    let mut row: Vec<bool> = Vec::new();
    for j in 0..n
        invariant
            n == s@.len(),
            row@ == Seq::new(j as nat, |k: int| false),
    {
        row.push(false);
        assert(row@ =~= Seq::new((j + 1) as nat, |k: int| false));
    }
    row.push(true);
    let width: usize = row.len();
    let mut i: usize = p.len();
    proof {
        let none = p@.skip(i as int);
        assert forall|j: int| 0 <= j <= n implies row@[j] == globbed(none, s@.skip(j)) by {}
        assert(row@ =~= column(none, s@));
    }
    while i > 0
        invariant
            i <= p@.len(),
            p@ == pat@,
            t@ == s@,
            n == s@.len(),
            width == n + 1,
            row@ == column(p@.skip(i as int), s@),
        decreases i,
    {
        let c: char = p[i - 1];
        let ghost q = p@.skip(i - 1);
        assert(q.drop_first() =~= p@.skip(i as int));
        assert(q[0] == c);
        let mut next: Vec<bool> = Vec::new();
        for j in 0..width
            invariant
                next@ == Seq::new(j as nat, |k: int| false),
        {
            next.push(false);
            assert(next@ =~= Seq::new((j + 1) as nat, |k: int| false));
        }
        let mut j: usize = width;
        while j > 0
            invariant
                j <= width,
                width == n + 1,
                t@ == s@,
                n == s@.len(),
                row@ == column(q.drop_first(), s@),
                q.len() > 0,
                q[0] == c,
                next@.len() == n + 1,
                forall|k: int| j <= k <= n ==> next@[k] == globbed(q, s@.skip(k)),
            decreases j,
        {
            j = j - 1;
            let ghost here = s@.skip(j as int);
            let hit: bool = if c == '*' {
                row[j] || (j < n && next[j + 1])
            } else {
                j < n && (c == '?' || c == t[j]) && row[j + 1]
            };
            proof {
                if j < n {
                    assert(here.drop_first() =~= s@.skip(j + 1));
                    assert(here[0] == t@[j as int]);
                }
                assert(row@[j as int] == globbed(q.drop_first(), here));
                assert(hit == globbed(q, here));
            }
            next.set(j, hit);
        }
        assert(next@ =~= column(q, s@));
        row = next;
        i = i - 1;
    }
    assert(p@.skip(0) =~= p@);
    assert(s@.skip(0) =~= s@);
    row[0]
}

// --- laws -------------------------------------------------------------------

/// **A pattern without wildcards is a name**: it matches itself and nothing
/// else.
pub proof fn law_plain_pattern_matches_itself(p: Text, s: Text)
    requires
        !p.contains('*'),
        !p.contains('?'),
    ensures
        globbed(p, s) <==> p == s,
    decreases p.len(),
{
    if p.len() > 0 {
        assert(p[0] != '*' && p[0] != '?');
        let rest = p.drop_first();
        assert forall|i: int| 0 <= i < rest.len() implies rest[i] != '*' && rest[i] != '?' by {
            assert(p[i + 1] == rest[i]);
        }
        if s.len() > 0 {
            law_plain_pattern_matches_itself(rest, s.drop_first());
            assert(p =~= seq![p[0]] + rest);
            assert(s =~= seq![s[0]] + s.drop_first());
            if p[0] == s[0] && rest == s.drop_first() {
                assert(p =~= s);
            }
        }
    } else {
        if s.len() == 0 {
            assert(p =~= s);
        }
    }
}

/// **A lone `*` matches everything.**
pub proof fn law_star_matches_everything(s: Text)
    ensures
        globbed(seq!['*'], s),
    decreases s.len(),
{
    let p = seq!['*'];
    assert(p.drop_first() =~= Seq::<char>::empty());
    if s.len() > 0 {
        law_star_matches_everything(s.drop_first());
    } else {
        assert(globbed(p.drop_first(), s));
    }
}

} // verus!
