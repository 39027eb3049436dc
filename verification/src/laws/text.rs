//! What the operations on text are for.

use crate::text::{
    after_prefix, before, decimal, first_at, joined, lemma_first_at, lemma_sorted,
    lemma_split_concat, lemma_split_joined, lemma_split_single, occurs_at, padded, signed_decimal,
    sorted, split_first, split_on, trimmed, trimmed_end, trimmed_start, white_space,
    without_prefixes, without_suffixes, Class, Text,
};
use vstd::prelude::*;

verus! {

/// **White space is Unicode's**: the code points that carry the property.
pub proof fn law_white_space(c: char)
    ensures
        white_space(c) <==> {
            let n = c as int;
            ||| 9 <= n <= 13
            ||| n == 32
            ||| n == 133
            ||| n == 160
            ||| n == 5760
            ||| 8192 <= n <= 8202
            ||| n == 8232
            ||| n == 8233
            ||| n == 8239
            ||| n == 8287
            ||| n == 12288
        },
{
}

/// **The order of names is by the first difference**: one text sorts before
/// another exactly where it is a proper prefix of it, or has the smaller code
/// point at the first place where they differ.
pub proof fn law_order_is_by_first_difference(a: Text, b: Text)
    ensures
        before(a, b) <==> exists|k: int|
            #![trigger a.take(k)]
            0 <= k <= a.len() && k < b.len() && a.take(k) == b.take(k) && (k == a.len() || (
            a[k] as int) < (b[k] as int)),
    decreases a.len(),
{
    if a.len() > 0 && b.len() > 0 && a[0] == b[0] {
        let x = a.drop_first();
        let y = b.drop_first();
        law_order_is_by_first_difference(x, y);
        if before(a, b) {
            let k = choose|k: int|
                #![trigger x.take(k)]
                0 <= k <= x.len() && k < y.len() && x.take(k) == y.take(k) && (k == x.len() || (
                x[k] as int) < (y[k] as int));
            assert forall|i: int| 0 <= i < k + 1 implies a[i] == b[i] by {
                if i > 0 {
                    assert(x.take(k)[i - 1] == y.take(k)[i - 1]);
                }
            }
            assert(a.take(k + 1) =~= b.take(k + 1));
        }
        if exists|k: int|
            #![trigger a.take(k)]
            0 <= k <= a.len() && k < b.len() && a.take(k) == b.take(k) && (k == a.len() || (
            a[k] as int) < (b[k] as int)) {
            let k = choose|k: int|
                #![trigger a.take(k)]
                0 <= k <= a.len() && k < b.len() && a.take(k) == b.take(k) && (k == a.len() || (
                a[k] as int) < (b[k] as int));
            assert(k > 0);
            assert(x.take(k - 1) =~= a.take(k).drop_first());
            assert(y.take(k - 1) =~= b.take(k).drop_first());
            assert(x.take(k - 1) == y.take(k - 1));
        }
    } else {
        assert(a.take(0) =~= b.take(0));
        if exists|k: int|
            #![trigger a.take(k)]
            0 <= k <= a.len() && k < b.len() && a.take(k) == b.take(k) && (k == a.len() || (
            a[k] as int) < (b[k] as int)) {
            let k = choose|k: int|
                #![trigger a.take(k)]
                0 <= k <= a.len() && k < b.len() && a.take(k) == b.take(k) && (k == a.len() || (
                a[k] as int) < (b[k] as int));
            if k > 0 {
                assert(a.take(k)[0] == b.take(k)[0]);
            }
        }
    }
}

/// **A set in order is all of it, each once, from the first to the last.**
pub proof fn law_sorted(s: Set<Text>, x: Text)
    requires
        s.finite(),
    ensures
        sorted(s).contains(x) <==> s.contains(x),
        sorted(s).len() == s.len(),
        forall|i: int, j: int|
            0 <= i < j < sorted(s).len() ==> before(
                #[trigger] sorted(s)[i],
                #[trigger] sorted(s)[j],
            ),
{
    lemma_sorted(s);
}

/// **Joining puts the separator between neighbours, and nowhere else**: a
/// joined list is the join of its two halves with one separator between them.
pub proof fn law_join(a: Seq<Text>, b: Seq<Text>, p: Text, sep: Text)
    ensures
        joined(Seq::empty(), sep) == Seq::<char>::empty(),
        joined(seq![p], sep) == p,
        a.len() > 0 && b.len() > 0 ==> joined(a + b, sep) == joined(a, sep) + sep + joined(b, sep),
    decreases b.len(),
{
    if a.len() > 0 && b.len() == 1 {
        assert((a + b).drop_last() =~= a);
    } else if a.len() > 0 && b.len() > 1 {
        law_join(a, b.drop_last(), p, sep);
        assert((a + b).drop_last() =~= a + b.drop_last());
        assert((a + b).last() == b.last());
        assert(joined(a + b, sep) =~= joined(a, sep) + sep + joined(b, sep));
    }
}

/// **Splitting finds every separator**: the parts hold none, there is one part
/// more than there are separators, and put together with the separator between
/// them they are the text again.
pub proof fn law_split(s: Text, a: Text, b: Text, sep: char)
    ensures
        forall|i: int|
            0 <= i < split_on(s, sep).len() ==> !(#[trigger] split_on(s, sep)[i]).contains(sep),
        joined(split_on(s, sep), seq![sep]) == s,
        !s.contains(sep) ==> split_on(s, sep) == seq![s],
        split_on(a + seq![sep] + b, sep) == split_on(a, sep) + split_on(b, sep),
{
    lemma_split_joined(s, sep);
    lemma_split_concat(a, b, sep);
    if !s.contains(sep) {
        lemma_split_single(s, sep);
    }
}

/// **An assignment is cut at its first separator**: what comes before holds
/// none, and the two sides with the separator between them are the text.
pub proof fn law_split_first(s: Text, sep: char)
    ensures
        match split_first(s, sep) {
            Some((k, v)) => s == k + seq![sep] + v && !k.contains(sep),
            None => !s.contains(sep),
        },
{
    if s.contains(sep) {
        s.index_of_first_ensures(sep);
        let i = s.index_of_first(sep)->0;
        assert(s =~= s.take(i) + seq![sep] + s.skip(i + 1));
        assert forall|j: int| 0 <= j < s.take(i).len() implies s.take(i)[j] != sep by {
            assert(s[j] != sep);
        }
    }
}

/// Whether a trim takes a character away.
pub open spec fn goes(class: Class, c: char) -> bool {
    match class {
        Class::White => white_space(c),
        Class::Only(d) => c == d,
    }
}

/// Whether `t` is what is left of `s` between `i` and `j`, and all that is
/// taken away goes.
pub open spec fn left_between(s: Text, class: Class, t: Text, i: int, j: int) -> bool {
    &&& 0 <= i <= j <= s.len()
    &&& t == s.subrange(i, j)
    &&& forall|k: int| 0 <= k < i ==> goes(class, #[trigger] s[k])
    &&& forall|k: int| j <= k < s.len() ==> goes(class, #[trigger] s[k])
}

/// **Trimming takes the whole of both ends, and nothing from the middle**.
pub proof fn law_trim(s: Text, class: Class)
    ensures
        exists|i: int, j: int| left_between(s, class, trimmed(s, class), i, j),
        trimmed(s, class).len() > 0 ==> !goes(class, trimmed(s, class)[0]) && !goes(
            class,
            trimmed(s, class).last(),
        ),
        exists|j: int| left_between(s, class, trimmed_end(s, class), 0, j),
        trimmed_end(s, class).len() > 0 ==> !goes(class, trimmed_end(s, class).last()),
{
    let (i, m) = lemma_start(s, class);
    let t = trimmed_start(s, class);
    let j = lemma_end(t, class);
    assert(t == s.skip(i));
    let e = trimmed(s, class);
    assert(e =~= s.subrange(i, i + j));
    assert forall|k: int| i + j <= k < s.len() implies goes(class, #[trigger] s[k]) by {
        assert(t[k - i] == s[k]);
    }
    assert(left_between(s, class, e, i, i + j));
    if e.len() > 0 {
        assert(e[0] == t[0]);
        assert(e.last() == trimmed_end(t, class).last());
    }
    let n = lemma_end(s, class);
    assert(s.take(n) =~= s.subrange(0, n));
    assert(left_between(s, class, trimmed_end(s, class), 0, n));
}

proof fn lemma_start(s: Text, class: Class) -> (r: (int, int))
    ensures
        0 <= r.0 <= s.len(),
        trimmed_start(s, class) == s.skip(r.0),
        forall|k: int| 0 <= k < r.0 ==> goes(class, #[trigger] s[k]),
        r.0 < s.len() ==> !goes(class, s[r.0]),
    decreases s.len(),
{
    if s.len() > 0 && goes(class, s[0]) {
        let (i, _) = lemma_start(s.drop_first(), class);
        assert(s.drop_first().skip(i) =~= s.skip(i + 1));
        assert forall|k: int| 0 <= k < i + 1 implies goes(class, #[trigger] s[k]) by {
            if k > 0 {
                assert(s.drop_first()[k - 1] == s[k]);
            }
        }
        (i + 1, 0)
    } else {
        assert(s.skip(0) =~= s);
        (0, 0)
    }
}

proof fn lemma_end(s: Text, class: Class) -> (j: int)
    ensures
        0 <= j <= s.len(),
        trimmed_end(s, class) == s.take(j),
        forall|k: int| j <= k < s.len() ==> goes(class, #[trigger] s[k]),
        j > 0 ==> !goes(class, s[j - 1]),
    decreases s.len(),
{
    if s.len() > 0 && goes(class, s.last()) {
        let j = lemma_end(s.drop_last(), class);
        assert(s.drop_last().take(j) =~= s.take(j));
        assert forall|k: int| j <= k < s.len() implies goes(class, #[trigger] s[k]) by {
            if k < s.len() - 1 {
                assert(s.drop_last()[k] == s[k]);
            }
        }
        j
    } else {
        assert(s.take(s.len() as int) =~= s);
        s.len() as int
    }
}

/// **A prefix or suffix is taken off as often as it stands there**: once more
/// in front makes no difference, what is left does not begin with it, and
/// nothing is taken off a text that does not begin with it. Likewise behind.
pub proof fn law_strip_repeated(s: Text, p: Text)
    requires
        p.len() > 0,
    ensures
        without_prefixes(p + s, p) == without_prefixes(s, p),
        !p.is_prefix_of(without_prefixes(s, p)),
        !p.is_prefix_of(s) ==> without_prefixes(s, p) == s,
        without_suffixes(s + p, p) == without_suffixes(s, p),
        !p.is_suffix_of(without_suffixes(s, p)),
        !p.is_suffix_of(s) ==> without_suffixes(s, p) == s,
    decreases s.len(),
{
    let a = p + s;
    assert(a.take(p.len() as int) =~= p);
    assert(p.is_prefix_of(a));
    assert(a.skip(p.len() as int) =~= s);
    let b = s + p;
    assert(b.subrange(b.len() - p.len(), b.len() as int) =~= p);
    assert(p.is_suffix_of(b));
    assert(b.take(b.len() - p.len()) =~= s);
    lemma_no_prefix_left(s, p);
    lemma_no_suffix_left(s, p);
}

proof fn lemma_no_prefix_left(s: Text, p: Text)
    requires
        p.len() > 0,
    ensures
        !p.is_prefix_of(without_prefixes(s, p)),
    decreases s.len(),
{
    if p.is_prefix_of(s) {
        lemma_no_prefix_left(s.skip(p.len() as int), p);
    }
}

proof fn lemma_no_suffix_left(s: Text, p: Text)
    requires
        p.len() > 0,
    ensures
        !p.is_suffix_of(without_suffixes(s, p)),
    decreases s.len(),
{
    if p.is_suffix_of(s) {
        lemma_no_suffix_left(s.take(s.len() - p.len()), p);
    }
}

/// **What stands behind a prefix is what is left of the text.**
pub proof fn law_after_prefix(s: Text, p: Text, rest: Text)
    ensures
        after_prefix(s, p) == Some(rest) <==> s == p + rest,
{
    if s == p + rest {
        assert(s.take(p.len() as int) =~= p);
        assert(p.is_prefix_of(s));
        assert(s.skip(p.len() as int) =~= rest);
    }
    if p.is_prefix_of(s) {
        assert(s =~= p + s.skip(p.len() as int));
    }
}

/// **The first occurrence is one, and none comes earlier**: where the needle
/// stands anywhere from a place on, it is found there or before, and where
/// it is found it stands.
pub proof fn law_first_occurrence(hay: Text, needle: Text, from: int, j: int)
    requires
        0 <= from,
    ensures
        from <= j && j + needle.len() <= hay.len() && hay.subrange(j, j + needle.len())
            == needle ==> first_at(hay, needle, from) is Some && first_at(hay, needle, from)->0
            <= j,
        first_at(hay, needle, from) matches Some(i) ==> from <= i && i + needle.len() <= hay.len()
            && hay.subrange(i, i + needle.len()) == needle,
{
    lemma_first_at(hay, needle, from);
    if from <= j && j + needle.len() <= hay.len() && hay.subrange(j, j + needle.len()) == needle {
        assert(occurs_at(hay, needle, j));
    }
}

/// The number that a text of decimal digits stands for.
pub open spec fn read_decimal(t: Text) -> int
    decreases t.len(),
{
    if t.len() == 0 {
        0
    } else {
        read_decimal(t.drop_last()) * 10 + (t.last() as int - '0' as int)
    }
}

/// **A number reads back from its digits**, which are decimal and begin with no
/// zero that could be left out; a minus sign stands before a negative one.
pub proof fn law_decimal(n: nat, k: int)
    ensures
        read_decimal(decimal(n)) == n,
        decimal(n).len() > 0,
        n > 0 ==> decimal(n)[0] != '0',
        forall|i: int| 0 <= i < decimal(n).len() ==> '0' <= #[trigger] decimal(n)[i] <= '9',
        signed_decimal(k) == (if k < 0 {
            seq!['-'] + decimal((-k) as nat)
        } else {
            decimal(k as nat)
        }),
    decreases n,
{
    if n < 10 {
        let t = decimal(n);
        assert(t.drop_last() =~= Seq::empty());
        assert(read_decimal(t.drop_last()) == 0);
    } else {
        law_decimal(n / 10, k);
        let t = decimal(n);
        assert(t.drop_last() =~= decimal(n / 10));
        assert(n / 10 > 0);
        assert(t[0] == decimal(n / 10)[0]);
        assert forall|i: int| 0 <= i < t.len() implies '0' <= #[trigger] t[i] <= '9' by {
            if i < decimal(n / 10).len() {
                assert(t[i] == decimal(n / 10)[i]);
            }
        }
    }
}

/// **Padding adds spaces behind a text that is too short, and nothing else.**
pub proof fn law_padding(s: Text, width: int, i: int)
    ensures
        s.is_prefix_of(padded(s, width)),
        padded(s, width).len() == if width > s.len() {
            width
        } else {
            s.len() as int
        },
        s.len() <= i < padded(s, width).len() ==> padded(s, width)[i] == ' ',
{
    assert(padded(s, width).take(s.len() as int) =~= s);
}

} // verus!
