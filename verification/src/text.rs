//! Character-level text: comparing, cutting and joining strings.
//!
//! A string is modelled by the sequence of its characters (`s@`). Every
//! function below states its result over that sequence.

use vstd::prelude::*;

verus! {

broadcast use vstd::string::group_string_axioms;

/// The characters of a string.
pub type Text = Seq<char>;

/// What a result stands for.
pub open spec fn outcome<T: DeepView, E: DeepView>(r: Result<T, E>) -> Result<T::V, E::V> {
    match r {
        Ok(t) => Ok(t.deep_view()),
        Err(e) => Err(e.deep_view()),
    }
}

// --- characters and equality ------------------------------------------------

/// The characters that carry the Unicode `White_Space` property.
pub open spec fn white_space(c: char) -> bool {
    ||| '\u{9}' <= c <= '\u{d}'
    ||| c == ' '
    ||| c == '\u{85}'
    ||| c == '\u{a0}'
    ||| c == '\u{1680}'
    ||| '\u{2000}' <= c <= '\u{200a}'
    ||| c == '\u{2028}'
    ||| c == '\u{2029}'
    ||| c == '\u{202f}'
    ||| c == '\u{205f}'
    ||| c == '\u{3000}'
}

/// Whether `c` is white space.
pub fn is_white_space(c: char) -> (r: bool)
    ensures
        r == white_space(c),
{
    ('\u{9}' <= c && c <= '\u{d}') || c == ' ' || c == '\u{85}' || c == '\u{a0}' || c == '\u{1680}'
        || ('\u{2000}' <= c && c <= '\u{200a}') || c == '\u{2028}' || c == '\u{2029}' || c
        == '\u{202f}' || c == '\u{205f}' || c == '\u{3000}'
}

/// The characters of `s`, in order.
pub fn chars_of(s: &str) -> (r: Vec<char>)
    ensures
        r@ == s@,
{
    let mut out: Vec<char> = Vec::new();
    for c in it: s.chars()
        invariant
            out@ == s@.take(it.index() as int),
            it.seq() == s@,
    {
        out.push(c);
        assert(s@.take(it.index() + 1) =~= s@.take(it.index() as int).push(c));
    }
    assert(s@.take(s@.len() as int) =~= s@);
    out
}

/// Whether two strings hold the same characters.
pub fn same(a: &str, b: &str) -> (r: bool)
    ensures
        r == (a@ == b@),
{
    let x: Vec<char> = chars_of(a);
    let y: Vec<char> = chars_of(b);
    if x.len() != y.len() {
        return false;
    }
    for i in 0..x.len()
        invariant
            x@ == a@,
            y@ == b@,
            x@.len() == y@.len(),
            forall|j: int| 0 <= j < i ==> x@[j] == y@[j],
    {
        if x[i] != y[i] {
            return false;
        }
    }
    assert(a@ =~= b@);
    true
}


/// A copy of the characters `s[from..to]`.
pub fn slice(s: &str, from: usize, to: usize) -> (r: String)
    requires
        from <= to <= s@.len(),
    ensures
        r@ == s@.subrange(from as int, to as int),
{
    s.substring_char(from, to).to_owned()
}

/// `a` followed by `b`.
pub fn cat(a: &str, b: &str) -> (r: String)
    ensures
        r@ == a@ + b@,
{
    let mut out: String = a.to_owned();
    out.append(b);
    out
}

// --- order ------------------------------------------------------------------

/// Strict lexicographic order by code point, which is also the order of the
/// strings' UTF-8 bytes.
pub open spec fn before(a: Text, b: Text) -> bool
    decreases a.len(),
{
    if b.len() == 0 {
        false
    } else if a.len() == 0 {
        true
    } else if a[0] == b[0] {
        before(a.drop_first(), b.drop_first())
    } else {
        a[0] < b[0]
    }
}

/// Whether `a` sorts strictly before `b`.
pub fn is_before(a: &str, b: &str) -> (r: bool)
    ensures
        r == before(a@, b@),
{
    let x: Vec<char> = chars_of(a);
    let y: Vec<char> = chars_of(b);
    let mut i: usize = 0;
    assert(x@.skip(0) =~= x@);
    assert(y@.skip(0) =~= y@);
    while i < x.len() && i < y.len() && x[i] == y[i]
        invariant
            i <= x@.len(),
            i <= y@.len(),
            before(x@, y@) == before(x@.skip(i as int), y@.skip(i as int)),
        decreases x@.len() - i,
    {
        assert(x@.skip(i as int).drop_first() =~= x@.skip(i + 1));
        assert(y@.skip(i as int).drop_first() =~= y@.skip(i + 1));
        i = i + 1;
    }
    if i < y.len() {
        i == x.len() || x[i] < y[i]
    } else {
        false
    }
}

/// Nothing sorts before itself.
pub proof fn lemma_before_irreflexive(a: Text)
    ensures
        !before(a, a),
    decreases a.len(),
{
    if a.len() > 0 {
        lemma_before_irreflexive(a.drop_first());
    }
}

/// The order is transitive.
pub proof fn lemma_before_transitive(a: Text, b: Text, c: Text)
    requires
        before(a, b),
        before(b, c),
    ensures
        before(a, c),
    decreases a.len(),
{
    if a.len() > 0 && b.len() > 0 && c.len() > 0 && a[0] == b[0] && b[0] == c[0] {
        lemma_before_transitive(a.drop_first(), b.drop_first(), c.drop_first());
    }
}

/// Two different texts are ordered one way or the other.
pub proof fn lemma_before_total(a: Text, b: Text)
    ensures
        a == b || before(a, b) || before(b, a),
    decreases a.len(),
{
    if a.len() == 0 || b.len() == 0 {
        if a.len() == 0 && b.len() == 0 {
            assert(a =~= b);
        }
    } else if a[0] == b[0] {
        lemma_before_total(a.drop_first(), b.drop_first());
        if a.drop_first() == b.drop_first() {
            assert(a =~= seq![a[0]] + a.drop_first());
            assert(b =~= seq![b[0]] + b.drop_first());
        }
    }
}

/// Strictly increasing, hence without repetition.
pub open spec fn increasing(s: Seq<Text>) -> bool {
    forall|i: int, j: int| 0 <= i < j < s.len() ==> before(#[trigger] s[i], #[trigger] s[j])
}

/// The elements of a set of texts in increasing order.
pub open spec fn sorted(s: Set<Text>) -> Seq<Text> {
    choose|q: Seq<Text>| increasing(q) && q.to_set() == s
}

/// An increasing sequence holds no element twice.
pub proof fn lemma_increasing_distinct(q: Seq<Text>)
    requires
        increasing(q),
    ensures
        q.no_duplicates(),
{
    assert forall|i: int, j: int| 0 <= i < q.len() && 0 <= j < q.len() && i != j implies q[i]
        != q[j] by {
        lemma_before_irreflexive(q[i]);
        if i < j {
            assert(before(q[i], q[j]));
        } else {
            assert(before(q[j], q[i]));
        }
    }
}

/// Two increasing sequences with the same elements are the same sequence.
pub proof fn lemma_increasing_unique(p: Seq<Text>, q: Seq<Text>)
    requires
        increasing(p),
        increasing(q),
        p.to_set() == q.to_set(),
    ensures
        p == q,
    decreases p.len(),
{
    lemma_increasing_distinct(p);
    lemma_increasing_distinct(q);
    if p.len() == 0 {
        if q.len() > 0 {
            assert(q.to_set().contains(q[0]));
            assert(p.to_set().contains(q[0]));
        }
        assert(p =~= q);
    } else {
        let a = p.last();
        assert(p.to_set().contains(a));
        assert(q.to_set().contains(a));
        let i = choose|i: int| 0 <= i < q.len() && q[i] == a;
        let b = q.last();
        assert(q.to_set().contains(b));
        assert(p.to_set().contains(b));
        let j = choose|j: int| 0 <= j < p.len() && p[j] == b;
        if a != b {
            assert(before(q[i], q[q.len() - 1]));
            assert(before(p[j], p[p.len() - 1]));
            lemma_before_transitive(a, b, a);
            lemma_before_irreflexive(a);
        }
        assert forall|x: Text| p.drop_last().to_set().contains(x) implies q.drop_last().to_set().contains(
            x,
        ) by {
            lemma_in_drop_last(p, q, x);
        }
        assert forall|x: Text| q.drop_last().to_set().contains(x) implies p.drop_last().to_set().contains(
            x,
        ) by {
            lemma_in_drop_last(q, p, x);
        }
        assert(p.drop_last().to_set() =~= q.drop_last().to_set());
        lemma_increasing_unique(p.drop_last(), q.drop_last());
        assert(p =~= p.drop_last().push(a));
        assert(q =~= q.drop_last().push(b));
    }
}

proof fn lemma_in_drop_last(p: Seq<Text>, q: Seq<Text>, x: Text)
    requires
        p.len() > 0,
        q.len() > 0,
        p.no_duplicates(),
        p.last() == q.last(),
        p.to_set() == q.to_set(),
        p.drop_last().to_set().contains(x),
    ensures
        q.drop_last().to_set().contains(x),
{
    let k = choose|k: int| 0 <= k < p.drop_last().len() && p.drop_last()[k] == x;
    assert(p[k] == x);
    assert(p.to_set().contains(x));
    assert(q.to_set().contains(x));
    let m = choose|m: int| 0 <= m < q.len() && q[m] == x;
    assert(x != p.last());
    assert(q.drop_last()[m] == x);
}

/// An increasing sequence is the sorted form of its own elements.
pub proof fn lemma_sorted_is(q: Seq<Text>)
    requires
        increasing(q),
    ensures
        sorted(q.to_set()) == q,
{
    let p = sorted(q.to_set());
    assert(increasing(q) && q.to_set() == q.to_set());
    assert(increasing(p) && p.to_set() == q.to_set());
    lemma_increasing_unique(p, q);
}

proof fn lemma_insert_sorted(q: Seq<Text>, a: Text) -> (r: Seq<Text>)
    requires
        increasing(q),
        !q.contains(a),
    ensures
        increasing(r),
        r.to_set() == q.to_set().insert(a),
    decreases q.len(),
{
    if q.len() == 0 {
        let r = seq![a];
        assert(r.to_set() =~= q.to_set().insert(a)) by {
            assert(r[0] == a);
        }
        r
    } else {
        let z = q.last();
        lemma_before_total(z, a);
        assert(q[q.len() - 1] == z);
        if before(z, a) {
            let r = q.push(a);
            assert forall|i: int, j: int| 0 <= i < j < r.len() implies before(
                #[trigger] r[i],
                #[trigger] r[j],
            ) by {
                if j == q.len() && i < q.len() - 1 {
                    assert(before(q[i], q[q.len() - 1]));
                    lemma_before_transitive(q[i], z, a);
                }
            }
            lemma_push_set(q, a);
            r
        } else {
            let init = q.drop_last();
            assert forall|k: int| 0 <= k < init.len() implies init[k] != a by {
                assert(q[k] != a);
            }
            let p = lemma_insert_sorted(init, a);
            let r = p.push(z);
            assert forall|i: int, j: int| 0 <= i < j < r.len() implies before(
                #[trigger] r[i],
                #[trigger] r[j],
            ) by {
                if j == p.len() {
                    assert(p.to_set().contains(p[i]));
                    if p[i] != a {
                        assert(init.to_set().contains(p[i]));
                        let k = choose|k: int| 0 <= k < init.len() && init[k] == p[i];
                        assert(before(q[k], q[q.len() - 1]));
                    }
                }
            }
            lemma_push_set(p, z);
            lemma_push_set(init, z);
            assert(init.push(z) =~= q);
            assert(r.to_set() =~= q.to_set().insert(a));
            r
        }
    }
}

proof fn lemma_push_set(q: Seq<Text>, a: Text)
    ensures
        q.push(a).to_set() == q.to_set().insert(a),
{
    let r = q.push(a);
    assert forall|x: Text| r.to_set().contains(x) implies q.to_set().insert(a).contains(x) by {
        let k = choose|k: int| 0 <= k < r.len() && r[k] == x;
        if k < q.len() {
            assert(q[k] == x);
        }
    }
    assert forall|x: Text| q.to_set().insert(a).contains(x) implies r.to_set().contains(x) by {
        if q.to_set().contains(x) {
            let k = choose|k: int| 0 <= k < q.len() && q[k] == x;
            assert(r[k] == x);
        } else {
            assert(r[q.len() as int] == a);
        }
    }
    assert(r.to_set() =~= q.to_set().insert(a));
}

/// Every finite set of texts has a sorted form, as long as the set.
pub proof fn lemma_sorted(s: Set<Text>)
    requires
        s.finite(),
    ensures
        increasing(sorted(s)),
        sorted(s).to_set() == s,
        sorted(s).len() == s.len(),
        forall|x: Text| s.contains(x) <==> sorted(s).contains(x),
    decreases s.len(),
{
    if s.len() == 0 {
        let q = Seq::<Text>::empty();
        assert(q.to_set() =~= s);
        lemma_sorted_is(q);
    } else {
        let a = s.choose();
        let t = s.remove(a);
        lemma_sorted(t);
        assert(!sorted(t).contains(a));
        let q = lemma_insert_sorted(sorted(t), a);
        assert(q.to_set() =~= s);
        lemma_sorted_is(q);
    }
    lemma_increasing_distinct(sorted(s));
    sorted(s).unique_seq_to_set();
    assert forall|x: Text| s.contains(x) <==> sorted(s).contains(x) by {
        assert(sorted(s).to_set().contains(x) <==> sorted(s).contains(x));
    }
}

// --- splitting and joining --------------------------------------------------

/// The pieces of `s` between occurrences of `sep`: one more piece than there
/// are separators, none of them holding a separator.
pub open spec fn split_on(s: Text, sep: char) -> Seq<Text>
    decreases s.len(),
{
    if s.len() == 0 {
        seq![Seq::empty()]
    } else {
        let init = split_on(s.drop_last(), sep);
        if s.last() == sep {
            init.push(Seq::empty())
        } else {
            init.drop_last().push(init.last().push(s.last()))
        }
    }
}

/// The parts one after the other, with `sep` between neighbours.
pub open spec fn joined(parts: Seq<Text>, sep: Text) -> Text
    decreases parts.len(),
{
    if parts.len() == 0 {
        Seq::empty()
    } else if parts.len() == 1 {
        parts[0]
    } else {
        joined(parts.drop_last(), sep) + sep + parts.last()
    }
}

/// Splits `s` at every `sep`.
pub fn split(s: &str, sep: char) -> (r: Vec<String>)
    ensures
        r.deep_view() == split_on(s@, sep),
{
    let cs: Vec<char> = chars_of(s);
    let mut out: Vec<String> = Vec::new();
    let mut start: usize = 0;
    let mut i: usize = 0;
    assert(s@.take(0) =~= Seq::<char>::empty());
    assert(out.deep_view().push(s@.subrange(0, 0)) =~= seq![Seq::empty()]);
    while i < cs.len()
        invariant
            start <= i <= cs@.len(),
            cs@ == s@,
            out.deep_view().push(s@.subrange(start as int, i as int)) == split_on(
                s@.take(i as int),
                sep,
            ),
        decreases cs@.len() - i,
    {
        let ghost done = out.deep_view();
        assert(s@.take(i + 1).drop_last() =~= s@.take(i as int));
        if cs[i] == sep {
            let ghost cur = s@.subrange(start as int, i as int);
            out.push(slice(s, start, i));
            assert(out.deep_view() =~= done.push(cur));
            start = i + 1;
            assert(s@.subrange(i + 1, i + 1) =~= Seq::empty());
        } else {
            let ghost cur = s@.subrange(start as int, i as int);
            assert(done.push(cur).drop_last() =~= done);
            assert(s@.subrange(start as int, i + 1) =~= cur.push(s@[i as int]));
        }
        i = i + 1;
    }
    assert(s@.take(i as int) =~= s@);
    let ghost done = out.deep_view();
    out.push(slice(s, start, i));
    assert(out.deep_view() =~= done.push(s@.subrange(start as int, i as int)));
    out
}

/// Joins `parts` with `sep` between neighbours.
pub fn join(parts: &Vec<String>, sep: &str) -> (r: String)
    ensures
        r@ == joined(parts.deep_view(), sep@),
{
    let mut out: String = String::new();
    assert(parts.deep_view().take(0) =~= Seq::empty());
    for i in 0..parts.len()
        invariant
            out@ == joined(parts.deep_view().take(i as int), sep@),
    {
        if i > 0 {
            out.append(sep);
        }
        out.append(parts[i].as_str());
        assert(parts.deep_view().take(i + 1).drop_last() =~= parts.deep_view().take(i as int));
        if i == 0 {
            assert(out@ =~= parts.deep_view()[0]);
        }
    }
    assert(parts.deep_view().take(parts@.len() as int) =~= parts.deep_view());
    out
}

/// Splitting loses nothing: the pieces hold no separator and join back to
/// the text.
pub proof fn lemma_split_joined(s: Text, sep: char)
    ensures
        split_on(s, sep).len() >= 1,
        forall|i: int|
            0 <= i < split_on(s, sep).len() ==> !(#[trigger] split_on(s, sep)[i]).contains(sep),
        joined(split_on(s, sep), seq![sep]) == s,
    decreases s.len(),
{
    if s.len() > 0 {
        let init = s.drop_last();
        let p = split_on(init, sep);
        lemma_split_joined(init, sep);
        if s.last() == sep {
            let q = p.push(Seq::empty());
            assert(q.drop_last() =~= p);
            assert(joined(q, seq![sep]) =~= s);
        } else {
            let q = p.drop_last().push(p.last().push(s.last()));
            assert forall|i: int| 0 <= i < q.len() implies !(#[trigger] q[i]).contains(sep) by {
                if i < q.len() - 1 {
                    assert(q[i] == p[i]);
                } else {
                    assert(!p[p.len() - 1].contains(sep));
                    if q[i].contains(sep) {
                        let k = choose|k: int| 0 <= k < q[i].len() && q[i][k] == sep;
                        assert(p.last()[k] == sep);
                    }
                }
            }
            if p.len() == 1 {
                assert(joined(q, seq![sep]) =~= s);
            } else {
                assert(q.drop_last() =~= p.drop_last());
                assert(joined(q, seq![sep]) =~= joined(p, seq![sep]).push(s.last()));
                assert(joined(q, seq![sep]) =~= s);
            }
        }
    } else {
        assert(joined(split_on(s, sep), seq![sep]) =~= s);
    }
}

/// Splitting at a separator that stands between two texts splits each of them.
pub proof fn lemma_split_concat(a: Text, b: Text, sep: char)
    ensures
        split_on(a + seq![sep] + b, sep) == split_on(a, sep) + split_on(b, sep),
    decreases b.len(),
{
    let s = a + seq![sep] + b;
    let p = split_on(a, sep);
    if b.len() == 0 {
        assert(s =~= a.push(sep));
        assert(s.drop_last() =~= a);
        assert(split_on(s, sep) =~= p + split_on(b, sep));
    } else {
        let init = b.drop_last();
        lemma_split_concat(a, init, sep);
        lemma_split_joined(init, sep);
        let q = split_on(init, sep);
        assert(s.drop_last() =~= a + seq![sep] + init);
        assert(s.last() == b.last());
        assert((p + q).last() == q.last());
        assert((p + q).drop_last() =~= p + q.drop_last());
        assert(split_on(s, sep) =~= p + split_on(b, sep));
    }
}

/// A text that holds no separator is one part.
pub proof fn lemma_split_single(b: Text, sep: char)
    requires
        !b.contains(sep),
    ensures
        split_on(b, sep) == seq![b],
    decreases b.len(),
{
    if b.len() == 0 {
        assert(b =~= Seq::empty());
    } else {
        assert(b[b.len() - 1] == b.last());
        assert forall|k: int| 0 <= k < b.drop_last().len() implies b.drop_last()[k] != sep by {
            assert(b[k] != sep);
        }
        lemma_split_single(b.drop_last(), sep);
        assert(b.drop_last().push(b.last()) =~= b);
        assert(split_on(b, sep) =~= seq![b]);
    }
}

/// A part that holds no separator, behind a separator, is one part more.
pub proof fn lemma_split_append(a: Text, b: Text, sep: char)
    requires
        !b.contains(sep),
    ensures
        split_on(a + seq![sep] + b, sep) == split_on(a, sep).push(b),
{
    lemma_split_concat(a, b, sep);
    lemma_split_single(b, sep);
    assert(split_on(a, sep) + seq![b] =~= split_on(a, sep).push(b));
}

/// Splitting undoes joining when no part holds the separator.
pub proof fn lemma_joined_split(parts: Seq<Text>, sep: char)
    requires
        parts.len() >= 1,
        forall|i: int| 0 <= i < parts.len() ==> !(#[trigger] parts[i]).contains(sep),
    ensures
        split_on(joined(parts, seq![sep]), sep) == parts,
    decreases parts.len(),
{
    if parts.len() == 1 {
        lemma_split_single(parts[0], sep);
        assert(parts =~= seq![parts[0]]);
    } else {
        assert forall|i: int| 0 <= i < parts.drop_last().len() implies !(
        #[trigger] parts.drop_last()[i]).contains(sep) by {
            assert(!parts[i].contains(sep));
        }
        lemma_joined_split(parts.drop_last(), sep);
        assert(!parts[parts.len() - 1].contains(sep));
        lemma_split_append(joined(parts.drop_last(), seq![sep]), parts.last(), sep);
        assert(parts.drop_last().push(parts.last()) =~= parts);
    }
}

/// Whether `s` holds `c`.
pub fn holds(s: &str, c: char) -> (r: bool)
    ensures
        r == s@.contains(c),
{
    let cs: Vec<char> = chars_of(s);
    for i in 0..cs.len()
        invariant
            cs@ == s@,
            forall|j: int| 0 <= j < i ==> s@[j] != c,
    {
        if cs[i] == c {
            assert(s@[i as int] == c);
            return true;
        }
    }
    false
}

/// Splits `s` around its first `sep`: what stands before it and what stands
/// after it.
pub open spec fn split_first(s: Text, sep: char) -> Option<(Text, Text)> {
    if s.contains(sep) {
        let i = s.index_of_first(sep)->0;
        Some((s.take(i), s.skip(i + 1)))
    } else {
        None
    }
}

/// A text without `sep`, then `sep`, then any text, splits into the two.
pub proof fn lemma_split_first(k: Text, sep: char, v: Text)
    requires
        !k.contains(sep),
    ensures
        split_first(k + seq![sep] + v, sep) == Some((k, v)),
{
    let s = k + seq![sep] + v;
    assert(s[k.len() as int] == sep);
    s.index_of_first_ensures(sep);
    let i = s.index_of_first(sep)->0;
    if i < k.len() {
        assert(k[i] == sep);
    }
    assert(s.take(k.len() as int) =~= k);
    assert(s.skip(k.len() as int + 1) =~= v);
}

/// Splits `s` around its first `sep`, if it has one.
pub fn split_once(s: &str, sep: char) -> (r: Option<(String, String)>)
    ensures
        r.deep_view() == split_first(s@, sep),
{
    let cs: Vec<char> = chars_of(s);
    for i in 0..cs.len()
        invariant
            cs@ == s@,
            forall|j: int| 0 <= j < i ==> s@[j] != sep,
    {
        if cs[i] == sep {
            proof {
                s@.index_of_first_ensures(sep);
                assert(s@[i as int] == sep);
                assert(s@.contains(sep));
                assert(s@.index_of_first(sep) == Some(i as int));
                assert(s@.subrange(0, i as int) =~= s@.take(i as int));
                assert(s@.subrange(i + 1, s@.len() as int) =~= s@.skip(i + 1));
            }
            return Some((slice(s, 0, i), slice(s, i + 1, cs.len())));
        }
    }
    None
}

// --- trimming ---------------------------------------------------------------

/// What a trim takes away.
#[derive(Clone, Copy)]
pub enum Class {
    /// White space.
    White,
    /// One character.
    Only(char),
}

/// Whether a character belongs to a class.
pub open spec fn in_class(class: Class, c: char) -> bool {
    match class {
        Class::White => white_space(c),
        Class::Only(d) => c == d,
    }
}

fn is_in_class(class: Class, c: char) -> (r: bool)
    ensures
        r == in_class(class, c),
{
    match class {
        Class::White => is_white_space(c),
        Class::Only(d) => c == d,
    }
}

/// `s` without its longest prefix in `class`.
pub open spec fn trimmed_start(s: Text, class: Class) -> Text
    decreases s.len(),
{
    if s.len() > 0 && in_class(class, s[0]) {
        trimmed_start(s.drop_first(), class)
    } else {
        s
    }
}

/// `s` without its longest suffix in `class`.
pub open spec fn trimmed_end(s: Text, class: Class) -> Text
    decreases s.len(),
{
    if s.len() > 0 && in_class(class, s.last()) {
        trimmed_end(s.drop_last(), class)
    } else {
        s
    }
}

/// `s` without the characters of `class` at either end.
pub open spec fn trimmed(s: Text, class: Class) -> Text {
    trimmed_end(trimmed_start(s, class), class)
}

/// Removes the characters of `class` from the end of `s`.
pub fn trim_end(s: &str, class: Class) -> (r: String)
    ensures
        r@ == trimmed_end(s@, class),
{
    let cs: Vec<char> = chars_of(s);
    let mut end: usize = cs.len();
    assert(s@.take(end as int) =~= s@);
    while end > 0 && is_in_class(class, cs[end - 1])
        invariant
            end <= cs@.len(),
            cs@ == s@,
            trimmed_end(s@, class) == trimmed_end(s@.take(end as int), class),
        decreases end,
    {
        assert(s@.take(end as int).drop_last() =~= s@.take(end - 1));
        end = end - 1;
    }
    assert(s@.subrange(0, end as int) =~= s@.take(end as int));
    slice(s, 0, end)
}

/// Removes the characters of `class` from both ends of `s`.
pub fn trim(s: &str, class: Class) -> (r: String)
    ensures
        r@ == trimmed(s@, class),
{
    let cs: Vec<char> = chars_of(s);
    let mut start: usize = 0;
    assert(s@.skip(0) =~= s@);
    while start < cs.len() && is_in_class(class, cs[start])
        invariant
            start <= cs@.len(),
            cs@ == s@,
            trimmed_start(s@, class) == trimmed_start(s@.skip(start as int), class),
        decreases cs@.len() - start,
    {
        assert(s@.skip(start as int).drop_first() =~= s@.skip(start + 1));
        start = start + 1;
    }
    assert(s@.subrange(start as int, s@.len() as int) =~= s@.skip(start as int));
    trim_end(slice(s, start, cs.len()).as_str(), class)
}

/// Trimming twice is trimming once, and what is left starts and ends outside
/// the class.
pub proof fn lemma_trimmed(s: Text, class: Class)
    ensures
        trimmed(s, class).len() > 0 ==> !in_class(class, trimmed(s, class)[0]) && !in_class(
            class,
            trimmed(s, class).last(),
        ),
        trimmed(trimmed(s, class), class) == trimmed(s, class),
        forall|c: char| trimmed(s, class).contains(c) ==> s.contains(c),
{
    let t = trimmed_start(s, class);
    lemma_trimmed_start(s, class);
    lemma_trimmed_end(t, class);
}

proof fn lemma_trimmed_start(s: Text, class: Class)
    ensures
        trimmed_start(s, class).len() > 0 ==> !in_class(class, trimmed_start(s, class)[0]),
        forall|c: char| trimmed_start(s, class).contains(c) ==> s.contains(c),
    decreases s.len(),
{
    if s.len() > 0 && in_class(class, s[0]) {
        lemma_trimmed_start(s.drop_first(), class);
        assert forall|c: char| s.drop_first().contains(c) implies s.contains(c) by {
            let k = choose|k: int| 0 <= k < s.drop_first().len() && s.drop_first()[k] == c;
            assert(s[k + 1] == c);
        }
    }
}

proof fn lemma_trimmed_end(s: Text, class: Class)
    ensures
        trimmed_end(s, class).len() <= s.len(),
        trimmed_end(s, class) == s.take(trimmed_end(s, class).len() as int),
        trimmed_end(s, class).len() > 0 ==> !in_class(class, trimmed_end(s, class).last()),
        forall|c: char| trimmed_end(s, class).contains(c) ==> s.contains(c),
    decreases s.len(),
{
    if s.len() > 0 && in_class(class, s.last()) {
        lemma_trimmed_end(s.drop_last(), class);
        let n = trimmed_end(s, class).len() as int;
        assert(s.drop_last().take(n) =~= s.take(n));
    } else {
        assert(s.take(s.len() as int) =~= s);
    }
    let t = trimmed_end(s, class);
    assert forall|c: char| t.contains(c) implies s.contains(c) by {
        let k = choose|k: int| 0 <= k < t.len() && t[k] == c;
        assert(s[k] == c);
    }
}

// --- prefixes, suffixes, occurrences ----------------------------------------

/// `s` without `p` at its start, as often as it stands there.
pub open spec fn without_prefixes(s: Text, p: Text) -> Text
    decreases s.len(),
{
    if p.len() > 0 && p.is_prefix_of(s) {
        without_prefixes(s.skip(p.len() as int), p)
    } else {
        s
    }
}

/// `s` without `p` at its end, as often as it stands there.
pub open spec fn without_suffixes(s: Text, p: Text) -> Text
    decreases s.len(),
{
    if p.len() > 0 && p.is_suffix_of(s) {
        without_suffixes(s.take(s.len() - p.len()), p)
    } else {
        s
    }
}

/// Whether `needle` stands in `hay` at index `i`.
pub open spec fn occurs_at(hay: Text, needle: Text, i: int) -> bool {
    0 <= i && i + needle.len() <= hay.len() && hay.subrange(i, i + needle.len()) == needle
}

fn is_at(hay: &Vec<char>, needle: &Vec<char>, i: usize) -> (r: bool)
    ensures
        r == occurs_at(hay@, needle@, i as int),
{
    if i > hay.len() || hay.len() - i < needle.len() {
        return false;
    }
    for k in 0..needle.len()
        invariant
            i + needle.len() <= hay.len(),
            forall|j: int| 0 <= j < k ==> hay@[i + j] == needle@[j],
    {
        if hay[i + k] != needle[k] {
            assert(hay@.subrange(i as int, i + needle@.len())[k as int] != needle@[k as int]);
            return false;
        }
    }
    assert(hay@.subrange(i as int, i + needle@.len()) =~= needle@);
    true
}

/// Whether `s` starts with `p`.
pub fn starts_with(s: &str, p: &str) -> (r: bool)
    ensures
        r == p@.is_prefix_of(s@),
{
    is_at(&chars_of(s), &chars_of(p), 0)
}

/// What stands after `p` at the start of `s`, if `s` starts with `p`.
pub open spec fn after_prefix(s: Text, p: Text) -> Option<Text> {
    if p.is_prefix_of(s) {
        Some(s.skip(p.len() as int))
    } else {
        None
    }
}

/// What stands after `p` at the start of `s`, if `s` starts with `p`.
pub fn strip_prefix(s: &str, p: &str) -> (r: Option<String>)
    ensures
        r.deep_view() == after_prefix(s@, p@),
{
    if starts_with(s, p) {
        let n: usize = p.unicode_len();
        let m: usize = s.unicode_len();
        assert(s@.subrange(n as int, m as int) =~= s@.skip(n as int));
        Some(slice(s, n, m))
    } else {
        None
    }
}

/// Removes `p` from the start of `s` as often as it stands there.
pub fn trim_prefixes(s: &str, p: &str) -> (r: String)
    ensures
        r@ == without_prefixes(s@, p@),
{
    let cs: Vec<char> = chars_of(s);
    let ps: Vec<char> = chars_of(p);
    let mut start: usize = 0;
    assert(s@.skip(0) =~= s@);
    if ps.len() > 0 {
        while is_at(&cs, &ps, start)
            invariant
                start <= cs.len(),
                cs@ == s@,
                ps@ == p@,
                ps@.len() > 0,
                without_prefixes(s@, p@) == without_prefixes(s@.skip(start as int), p@),
            decreases cs@.len() - start,
        {
            let ghost rest = s@.skip(start as int);
            assert(rest.subrange(0, ps@.len() as int) =~= s@.subrange(
                start as int,
                start + ps@.len(),
            ));
            assert(rest.skip(p@.len() as int) =~= s@.skip(start + p@.len()));
            start = start + ps.len();
        }
        proof {
            let rest = s@.skip(start as int);
            if p@.is_prefix_of(rest) {
                assert(rest.subrange(0, ps@.len() as int) =~= s@.subrange(
                    start as int,
                    start + ps@.len(),
                ));
            }
        }
    }
    assert(s@.subrange(start as int, s@.len() as int) =~= s@.skip(start as int));
    slice(s, start, cs.len())
}

/// Removes `p` from the end of `s` as often as it stands there.
pub fn trim_suffixes(s: &str, p: &str) -> (r: String)
    ensures
        r@ == without_suffixes(s@, p@),
{
    let cs: Vec<char> = chars_of(s);
    let ps: Vec<char> = chars_of(p);
    let mut end: usize = cs.len();
    assert(s@.take(end as int) =~= s@);
    if ps.len() > 0 {
        while end >= ps.len() && is_at(&cs, &ps, end - ps.len())
            invariant
                end <= cs@.len(),
                cs@ == s@,
                ps@ == p@,
                ps@.len() > 0,
                without_suffixes(s@, p@) == without_suffixes(s@.take(end as int), p@),
            decreases end,
        {
            let ghost rest = s@.take(end as int);
            assert(rest.subrange(end - ps@.len(), end as int) =~= s@.subrange(
                end - ps@.len(),
                end as int,
            ));
            assert(rest.take(rest.len() - p@.len()) =~= s@.take(end - p@.len()));
            end = end - ps.len();
        }
        proof {
            let rest = s@.take(end as int);
            if p@.is_suffix_of(rest) {
                assert(rest.subrange(end - ps@.len(), end as int) =~= s@.subrange(
                    end - ps@.len(),
                    end as int,
                ));
            }
        }
    }
    assert(s@.subrange(0, end as int) =~= s@.take(end as int));
    slice(s, 0, end)
}

/// The first index at or after `from` at which `needle` stands in `hay`.
pub open spec fn first_at(hay: Text, needle: Text, from: int) -> Option<int>
    decreases hay.len() + 1 - from,
{
    if from < 0 || from + needle.len() > hay.len() {
        None
    } else if occurs_at(hay, needle, from) {
        Some(from)
    } else {
        first_at(hay, needle, from + 1)
    }
}

/// Finds `needle` in `hay` at or after index `from`.
pub fn find(hay: &str, needle: &str, from: usize) -> (r: Option<usize>)
    ensures
        match r {
            Some(i) => first_at(hay@, needle@, from as int) == Some(i as int),
            None => first_at(hay@, needle@, from as int) is None,
        },
{
    let h: Vec<char> = chars_of(hay);
    let n: Vec<char> = chars_of(needle);
    if n.len() > h.len() {
        return None;
    }
    let mut i: usize = from;
    while i <= h.len() - n.len()
        invariant
            h@ == hay@,
            n@ == needle@,
            n@.len() <= h@.len(),
            from <= i,
            first_at(hay@, needle@, from as int) == first_at(hay@, needle@, i as int),
        decreases h@.len() - n@.len() + 1 - i,
    {
        if is_at(&h, &n, i) {
            return Some(i);
        }
        if i == h.len() {
            assert(hay@.subrange(i as int, i as int) =~= needle@);
            return None;
        }
        i = i + 1;
    }
    None
}

/// What the first occurrence is: it stands there, and nowhere earlier.
pub proof fn lemma_first_at(hay: Text, needle: Text, from: int)
    requires
        0 <= from,
    ensures
        match first_at(hay, needle, from) {
            Some(i) => from <= i && occurs_at(hay, needle, i) && forall|j: int|
                from <= j < i ==> !occurs_at(hay, needle, j),
            None => forall|j: int| from <= j ==> !occurs_at(hay, needle, j),
        },
    decreases hay.len() + 1 - from,
{
    if from + needle.len() > hay.len() {
    } else if occurs_at(hay, needle, from) {
    } else {
        lemma_first_at(hay, needle, from + 1);
    }
}

/// A place where the needle stands, with none before it, is the first one.
pub proof fn lemma_first_at_is(hay: Text, needle: Text, from: int, i: int)
    requires
        0 <= from <= i,
        occurs_at(hay, needle, i),
        forall|j: int| from <= j < i ==> !occurs_at(hay, needle, j),
    ensures
        first_at(hay, needle, from) == Some(i),
{
    lemma_first_at(hay, needle, from);
}

// --- numbers, padding, quoting ----------------------------------------------

/// The decimal digit of `d`, for `d` below ten.
pub open spec fn digit(d: nat) -> char {
    if d == 0 {
        '0'
    } else if d == 1 {
        '1'
    } else if d == 2 {
        '2'
    } else if d == 3 {
        '3'
    } else if d == 4 {
        '4'
    } else if d == 5 {
        '5'
    } else if d == 6 {
        '6'
    } else if d == 7 {
        '7'
    } else if d == 8 {
        '8'
    } else {
        '9'
    }
}

/// `n` in decimal.
pub open spec fn decimal(n: nat) -> Text
    decreases n,
{
    if n < 10 {
        seq![digit(n)]
    } else {
        decimal(n / 10).push(digit(n % 10))
    }
}

/// `n` in decimal, with a minus sign where it is negative.
pub open spec fn signed_decimal(n: int) -> Text {
    if n < 0 {
        seq!['-'] + decimal((-n) as nat)
    } else {
        decimal(n as nat)
    }
}

fn digit_text(d: u64) -> (r: String)
    requires
        d < 10,
    ensures
        r@ == seq![digit(d as nat)],
{
    let all: &str = "0123456789";
    proof {
        reveal_strlit("0123456789");
        assert(all@.subrange(d as int, d + 1) =~= seq![digit(d as nat)]);
    }
    let i: usize = d as usize;
    slice(all, i, i + 1)
}

/// Writes `n` in decimal.
pub fn number(n: u64) -> (r: String)
    ensures
        r@ == decimal(n as nat),
    decreases n,
{
    if n < 10 {
        digit_text(n)
    } else {
        let init: String = number(n / 10);
        let r: String = cat(init.as_str(), digit_text(n % 10).as_str());
        assert(r@ =~= decimal(n as nat));
        r
    }
}

/// Writes `n` in decimal.
pub fn count(n: usize) -> (r: String)
    ensures
        r@ == decimal(n as nat),
{
    number(n as u64)
}

/// Writes `n` in decimal, with a minus sign where it is negative.
pub fn signed_number(n: i32) -> (r: String)
    ensures
        r@ == signed_decimal(n as int),
{
    if n < 0 {
        let m: i64 = -(n as i64);
        proof {
            reveal_strlit("-");
            assert("-"@ =~= seq!['-']);
        }
        cat("-", number(m as u64).as_str())
    } else {
        number(n as u64)
    }
}

/// `n` spaces.
pub open spec fn spaces(n: int) -> Text {
    Seq::new(
        if n < 0 {
            0
        } else {
            n as nat
        },
        |i: int| ' ',
    )
}

/// `s` followed by as many spaces as bring it to `width` characters.
pub open spec fn padded(s: Text, width: int) -> Text {
    s + spaces(width - s.len())
}

/// Pads `s` with spaces on the right up to `width` characters.
pub fn pad(s: &str, width: usize) -> (r: String)
    ensures
        r@ == padded(s@, width as int),
{
    let mut out: String = s.to_owned();
    let mut n: usize = s.unicode_len();
    let ghost len = n as int;
    assert(out@ =~= s@ + spaces(n - len));
    while n < width
        invariant
            len <= n,
            n <= width || n == len,
            out@ == s@ + spaces(n - len),
        decreases width - n,
    {
        out.append(" ");
        n = n + 1;
        proof {
            reveal_strlit(" ");
        }
        assert(" "@ =~= seq![' ']);
        assert(out@ =~= s@ + spaces(n - len));
    }
    assert(out@ =~= padded(s@, width as int));
    out
}

/// The quoted and escaped form in which std's `Debug` writes a string.
pub uninterp spec fn debug_text(s: Seq<char>) -> Seq<char>;

/// Quotes `s` for a message: calls the `Debug` implementation of `str` in
/// std through `format!`. What the escapes are is left to std; the contract
/// says only that the result is a function of the characters of `s`.
#[verifier::external_body]
pub(crate) fn quoted(s: &str) -> (r: String)
    ensures
        r@ == debug_text(s@),
{
    format!("{:?}", s)
}

} // verus!
