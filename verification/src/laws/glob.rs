//! What a branch pattern is for.

use crate::text::Text;
use crate::verbs::glob::globbed;
use vstd::prelude::*;

verus! {

/// **The empty pattern matches the empty text alone.**
pub proof fn law_empty_pattern(s: Text)
    ensures
        globbed(Seq::empty(), s) <==> s.len() == 0,
{
}

/// **A `*` stands for any text, wherever it is in the pattern**: what comes
/// behind it matches what is left of the text from some place on.
pub proof fn law_star_stands_for_any_text(q: Text, s: Text)
    ensures
        globbed(seq!['*'] + q, s) <==> exists|k: int|
            0 <= k <= s.len() && globbed(q, #[trigger] s.skip(k)),
    decreases s.len(),
{
    let p = seq!['*'] + q;
    assert(p.drop_first() =~= q);
    assert(s.skip(0) =~= s);
    if s.len() > 0 {
        let t = s.drop_first();
        law_star_stands_for_any_text(q, t);
        if exists|k: int| 0 <= k <= t.len() && globbed(q, #[trigger] t.skip(k)) {
            let k = choose|k: int| 0 <= k <= t.len() && globbed(q, #[trigger] t.skip(k));
            assert(s.skip(k + 1) =~= t.skip(k));
        }
        if exists|k: int| 0 < k <= s.len() && globbed(q, #[trigger] s.skip(k)) {
            let k = choose|k: int| 0 < k <= s.len() && globbed(q, #[trigger] s.skip(k));
            assert(t.skip(k - 1) =~= s.skip(k));
        }
    }
}

/// **A `?` stands for any one character, wherever it is in the pattern.**
pub proof fn law_question_mark_stands_for_one_character(q: Text, s: Text)
    ensures
        globbed(seq!['?'] + q, s) <==> s.len() > 0 && globbed(q, s.drop_first()),
{
    assert((seq!['?'] + q).drop_first() =~= q);
}

/// **Any other character stands for itself, wherever it is in the pattern.**
pub proof fn law_character_stands_for_itself(c: char, q: Text, s: Text)
    requires
        c != '*',
        c != '?',
    ensures
        globbed(seq![c] + q, s) <==> s.len() > 0 && s[0] == c && globbed(q, s.drop_first()),
{
    assert((seq![c] + q).drop_first() =~= q);
}

} // verus!
