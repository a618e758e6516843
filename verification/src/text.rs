//! Character sequences: the form in which the library reads and builds text.
use vstd::prelude::*;
use vstd::relations::{sorted_by, total_ordering};

verus! {

broadcast use vstd::string::group_string_axioms;

/// `p` is a prefix of `s`.
pub open spec fn has_prefix(s: Seq<char>, p: Seq<char>) -> bool {
    p.len() <= s.len() && s.subrange(0, p.len() as int) == p
}

/// `p` is a suffix of `s`.
pub open spec fn has_suffix(s: Seq<char>, p: Seq<char>) -> bool {
    p.len() <= s.len() && s.subrange(s.len() - p.len(), s.len() as int) == p
}

/// `a` comes before `b`, or equals it, in the order of their characters'
/// code points, a proper prefix first.
pub open spec fn lex_le(a: Seq<char>, b: Seq<char>) -> bool
    decreases a.len(),
{
    if a.len() == 0 {
        true
    } else if b.len() == 0 {
        false
    } else if a[0] != b[0] {
        a[0] < b[0]
    } else {
        lex_le(a.drop_first(), b.drop_first())
    }
}

/// The position of the first `c` in `s`; the length of `s` where it has
/// none.
pub open spec fn first_index(s: Seq<char>, c: char) -> int
    decreases s.len(),
{
    if s.len() == 0 {
        0
    } else if s[0] == c {
        0
    } else {
        1 + first_index(s.drop_first(), c)
    }
}

/// The first index lies within the sequence or at its end; no earlier
/// position holds the character, and the position itself does.
pub proof fn lemma_first_index(s: Seq<char>, c: char)
    ensures
        0 <= first_index(s, c) <= s.len(),
        forall|j: int| 0 <= j < first_index(s, c) ==> s[j] != c,
        first_index(s, c) < s.len() ==> s[first_index(s, c)] == c,
    decreases s.len(),
{
    if s.len() > 0 && s[0] != c {
        let rest = s.drop_first();
        lemma_first_index(rest, c);
        assert forall|j: int| 0 <= j < first_index(s, c) implies s[j] != c by {
            if j > 0 {
                assert(s[j] == rest[j - 1]);
            }
        }
        assert(first_index(s, c) < s.len() ==> s[first_index(s, c)] == rest[first_index(rest, c)]);
    }
}

/// The pieces of `parts` one after another.
pub open spec fn concat_all(parts: Seq<Seq<char>>) -> Seq<char>
    decreases parts.len(),
{
    if parts.len() == 0 {
        Seq::empty()
    } else {
        concat_all(parts.drop_last()) + parts.last()
    }
}

/// The pieces of `parts` with `sep` between each two neighbours.
pub open spec fn join_with(parts: Seq<Seq<char>>, sep: Seq<char>) -> Seq<char>
    decreases parts.len(),
{
    if parts.len() == 0 {
        Seq::empty()
    } else if parts.len() == 1 {
        parts[0]
    } else {
        join_with(parts.drop_last(), sep) + sep + parts.last()
    }
}

/// The views of a list of strings.
pub open spec fn views(v: Seq<String>) -> Seq<Seq<char>> {
    Seq::new(v.len(), |i: int| v[i]@)
}

/// The views of a list of character sequences.
pub open spec fn chars_views(v: Seq<Vec<char>>) -> Seq<Seq<char>> {
    Seq::new(v.len(), |i: int| v[i]@)
}

/// A copy of a list of strings.
pub fn clone_strings_of(v: &Vec<String>) -> (out: Vec<String>)
    ensures
        views(out@) == views(v@),
{
    let mut out: Vec<String> = Vec::new();
    let mut i: usize = 0;
    while i < v.len()
        invariant
            i <= v.len(),
            out.len() == i,
            forall|j: int| 0 <= j < i ==> (#[trigger] out[j])@ == v[j]@,
        decreases v.len() - i,
    {
        out.push(v[i].clone());
        i += 1;
    }
    assert(views(out@) =~= views(v@));
    out
}

/// The characters of a string slice.
pub fn to_chars(s: &str) -> (v: Vec<char>)
    ensures
        v@ == s@,
{
    let mut v: Vec<char> = Vec::new();
    for c in it: s.chars()
        invariant
            it.seq() == s@,
            v@ == it.seq().take(it.index()),
    {
        v.push(c);
    }
    assert(v@ =~= s@);
    v
}

/// `String::push`: the string grows by the one character at its end.
#[verifier::external_body]
fn push_char(s: &mut String, c: char)
    ensures
        final(s)@ == old(s)@.push(c),
{
    s.push(c)
}

/// The string made of the given characters.
pub fn from_chars(v: &Vec<char>) -> (s: String)
    ensures
        s@ == v@,
{
    let mut s = String::new();
    let mut i: usize = 0;
    while i < v.len()
        invariant
            i <= v.len(),
            s@ == v@.take(i as int),
        decreases v.len() - i,
    {
        push_char(&mut s, v[i]);
        assert(v@.take(i + 1) =~= v@.take(i as int).push(v@[i as int]));
        i += 1;
    }
    assert(v@.take(i as int) =~= v@);
    s
}

/// Appends the characters of `src` to `dst`.
pub fn append_chars(dst: &mut Vec<char>, src: &Vec<char>)
    ensures
        final(dst)@ == old(dst)@ + src@,
{
    let mut i: usize = 0;
    while i < src.len()
        invariant
            i <= src.len(),
            dst@ == old(dst)@ + src@.take(i as int),
        decreases src.len() - i,
    {
        dst.push(src[i]);
        assert(src@.take(i + 1) =~= src@.take(i as int).push(src@[i as int]));
        assert(dst@ =~= old(dst)@ + src@.take(i + 1));
        i += 1;
    }
    assert(src@.take(i as int) =~= src@);
}

/// Appends the characters of a string slice to `dst`.
pub fn append_str(dst: &mut Vec<char>, src: &str)
    ensures
        final(dst)@ == old(dst)@ + src@,
{
    let chars = to_chars(src);
    append_chars(dst, &chars);
}

/// The characters of `s` from position `from` up to, not including, `to`.
pub fn slice_chars(s: &Vec<char>, from: usize, to: usize) -> (part: Vec<char>)
    requires
        from <= to <= s.len(),
    ensures
        part@ == s@.subrange(from as int, to as int),
{
    let mut part: Vec<char> = Vec::new();
    let mut i: usize = from;
    while i < to
        invariant
            from <= i <= to <= s.len(),
            part@ == s@.subrange(from as int, i as int),
        decreases to - i,
    {
        part.push(s[i]);
        assert(s@.subrange(from as int, i + 1) =~= s@.subrange(from as int, i as int).push(
            s@[i as int],
        ));
        i += 1;
    }
    part
}

/// Whether two character sequences are the same.
pub fn same_chars(a: &Vec<char>, b: &Vec<char>) -> (same: bool)
    ensures
        same == (a@ == b@),
{
    if a.len() != b.len() {
        return false;
    }
    let mut i: usize = 0;
    while i < a.len()
        invariant
            i <= a.len(),
            a.len() == b.len(),
            forall|j: int| 0 <= j < i ==> a@[j] == b@[j],
        decreases a.len() - i,
    {
        if a[i] != b[i] {
            return false;
        }
        i += 1;
    }
    assert(a@ =~= b@);
    true
}

/// Whether two string slices hold the same text.
pub fn str_eq(a: &str, b: &str) -> (same: bool)
    ensures
        same == (a@ == b@),
{
    let x = to_chars(a);
    let y = to_chars(b);
    same_chars(&x, &y)
}

/// Whether `s` begins with `p`.
pub fn starts_with(s: &Vec<char>, p: &Vec<char>) -> (yes: bool)
    ensures
        yes == has_prefix(s@, p@),
{
    if p.len() > s.len() {
        return false;
    }
    let head = slice_chars(s, 0, p.len());
    same_chars(&head, p)
}

/// Whether `s` ends with `p`.
pub fn ends_with(s: &Vec<char>, p: &Vec<char>) -> (yes: bool)
    ensures
        yes == has_suffix(s@, p@),
{
    if p.len() > s.len() {
        return false;
    }
    let tail = slice_chars(s, s.len() - p.len(), s.len());
    same_chars(&tail, p)
}

/// The position of the first `c` in `s` at or after `from`; the length of
/// `s` where there is none.
pub fn find_char(s: &Vec<char>, from: usize, c: char) -> (k: usize)
    requires
        from <= s.len(),
    ensures
        from <= k <= s.len(),
        k - from == first_index(s@.skip(from as int), c),
{
    let mut i: usize = from;
    while i < s.len() && s[i] != c
        invariant
            from <= i <= s.len(),
            first_index(s@.skip(from as int), c) == (i - from) + first_index(s@.skip(i as int), c),
        decreases s.len() - i,
    {
        assert(s@.skip(i as int)[0] == s@[i as int]);
        assert(s@.skip(i as int).drop_first() =~= s@.skip(i + 1));
        i += 1;
    }
    proof {
        if i < s.len() {
            assert(s@.skip(i as int)[0] == s@[i as int]);
        }
    }
    i
}

/// Whether `a` comes before `b`, or equals it, in code-point order.
pub fn chars_le(a: &Vec<char>, b: &Vec<char>) -> (le: bool)
    ensures
        le == lex_le(a@, b@),
{
    let mut i: usize = 0;
    assert(a@.skip(0) =~= a@ && b@.skip(0) =~= b@);
    while i < a.len() && i < b.len()
        invariant
            i <= a.len(),
            i <= b.len(),
            lex_le(a@, b@) == lex_le(a@.skip(i as int), b@.skip(i as int)),
        decreases a.len() - i,
    {
        let ghost ra = a@.skip(i as int);
        let ghost rb = b@.skip(i as int);
        assert(ra[0] == a@[i as int] && rb[0] == b@[i as int]);
        assert(ra.drop_first() =~= a@.skip(i + 1));
        assert(rb.drop_first() =~= b@.skip(i + 1));
        if a[i] != b[i] {
            return a[i] < b[i];
        }
        i += 1;
    }
    assert(a@.skip(i as int).len() == a.len() - i);
    assert(b@.skip(i as int).len() == b.len() - i);
    i == a.len()
}

/// The sorted texts with `x` among them: after the last text that does
/// not come after it.
pub open spec fn insert_sorted(sorted: Seq<Seq<char>>, x: Seq<char>) -> Seq<Seq<char>>
    decreases sorted.len(),
{
    if sorted.len() == 0 {
        seq![x]
    } else if lex_le(sorted.last(), x) {
        sorted.push(x)
    } else {
        insert_sorted(sorted.drop_last(), x).push(sorted.last())
    }
}

/// The texts in ascending order; equal texts keep their order.
pub open spec fn sort_texts(s: Seq<Seq<char>>) -> Seq<Seq<char>>
    decreases s.len(),
{
    if s.len() == 0 {
        Seq::empty()
    } else {
        insert_sorted(sort_texts(s.drop_last()), s.last())
    }
}

/// Inserting among the first `p` texts and keeping the rest in place is
/// inserting among all of them, where every text from `p` on comes after
/// the new one.
proof fn lemma_insert_sorted_split(sorted: Seq<Seq<char>>, x: Seq<char>, p: int)
    requires
        0 <= p <= sorted.len(),
        forall|j: int| p <= j < sorted.len() ==> !lex_le(#[trigger] sorted[j], x),
    ensures
        insert_sorted(sorted, x) == insert_sorted(sorted.take(p), x) + sorted.skip(p),
    decreases sorted.len() - p,
{
    if p == sorted.len() {
        assert(sorted.take(p) =~= sorted);
        assert(insert_sorted(sorted, x) + sorted.skip(p) =~= insert_sorted(sorted, x));
    } else {
        let shorter = sorted.drop_last();
        assert(!lex_le(sorted[sorted.len() - 1], x));
        lemma_insert_sorted_split(shorter, x, p);
        assert(shorter.take(p) =~= sorted.take(p));
        assert((insert_sorted(shorter.take(p), x) + shorter.skip(p)).push(sorted.last())
            =~= insert_sorted(sorted.take(p), x) + sorted.skip(p));
    }
}

/// Puts `x` among the sorted texts.
pub fn insert_text(sorted: &mut Vec<Vec<char>>, x: Vec<char>)
    ensures
        chars_views(final(sorted)@) == insert_sorted(chars_views(old(sorted)@), x@),
{
    let ghost all = chars_views(sorted@);
    let mut p: usize = sorted.len();
    while p > 0 && !chars_le(&sorted[p - 1], &x)
        invariant
            p <= sorted.len(),
            all == chars_views(sorted@),
            forall|j: int| p <= j < sorted.len() ==> !lex_le(#[trigger] all[j], x@),
        decreases p,
    {
        assert(all[p - 1] == sorted[p - 1]@);
        p -= 1;
    }
    proof {
        lemma_insert_sorted_split(all, x@, p as int);
        if p > 0 {
            assert(all[p - 1] == sorted[p - 1]@);
            assert(all.take(p as int).last() == all[p - 1]);
        }
        assert(insert_sorted(all.take(p as int), x@) == all.take(p as int).push(x@));
    }
    sorted.insert(p, x);
    assert(chars_views(sorted@) =~= all.take(p as int).push(x@) + all.skip(p as int));
}

/// The texts in ascending order.
pub fn sorted_texts(texts: &[String]) -> (out: Vec<Vec<char>>)
    ensures
        chars_views(out@) == sort_texts(views(texts@)),
{
    let ghost all = views(texts@);
    let mut out: Vec<Vec<char>> = Vec::new();
    let mut i: usize = 0;
    assert(chars_views(out@) =~= Seq::<Seq<char>>::empty());
    assert(all.take(0) =~= Seq::<Seq<char>>::empty());
    while i < texts.len()
        invariant
            i <= texts.len(),
            all == views(texts@),
            chars_views(out@) == sort_texts(all.take(i as int)),
        decreases texts.len() - i,
    {
        assert(all.take(i + 1).drop_last() =~= all.take(i as int));
        assert(all.take(i + 1).last() == texts[i as int]@);
        insert_text(&mut out, to_chars(texts[i].as_str()));
        i += 1;
    }
    assert(all.take(i as int) =~= all);
    out
}

/// Appends every text of the list.
pub fn append_all(dst: &mut Vec<char>, parts: &Vec<Vec<char>>)
    ensures
        final(dst)@ == old(dst)@ + concat_all(chars_views(parts@)),
{
    let ghost all = chars_views(parts@);
    let mut i: usize = 0;
    assert(all.take(0) =~= Seq::<Seq<char>>::empty());
    assert(dst@ =~= old(dst)@ + concat_all(all.take(0)));
    while i < parts.len()
        invariant
            i <= parts.len(),
            all == chars_views(parts@),
            dst@ == old(dst)@ + concat_all(all.take(i as int)),
        decreases parts.len() - i,
    {
        assert(all.take(i + 1).drop_last() =~= all.take(i as int));
        assert(all.take(i + 1).last() == parts[i as int]@);
        append_chars(dst, &parts[i]);
        assert(dst@ =~= old(dst)@ + concat_all(all.take(i + 1)));
        i += 1;
    }
    assert(all.take(i as int) =~= all);
}

/// Appends the texts of the list with `sep` between each two neighbours.
pub fn append_joined(dst: &mut Vec<char>, parts: &Vec<Vec<char>>, sep: &str)
    ensures
        final(dst)@ == old(dst)@ + join_with(chars_views(parts@), sep@),
{
    let ghost all = chars_views(parts@);
    let mut i: usize = 0;
    assert(all.take(0) =~= Seq::<Seq<char>>::empty());
    assert(dst@ =~= old(dst)@ + join_with(all.take(0), sep@));
    while i < parts.len()
        invariant
            i <= parts.len(),
            all == chars_views(parts@),
            dst@ == old(dst)@ + join_with(all.take(i as int), sep@),
        decreases parts.len() - i,
    {
        assert(all.take(i + 1).drop_last() =~= all.take(i as int));
        assert(all.take(i + 1).last() == parts[i as int]@);
        if i > 0 {
            append_str(dst, sep);
        } else {
            assert(all.take(1)[0] == parts[0]@);
        }
        append_chars(dst, &parts[i]);
        assert(dst@ =~= old(dst)@ + join_with(all.take(i + 1), sep@));
        i += 1;
    }
    assert(all.take(i as int) =~= all);
}

/// The texts stand in ascending order.
pub open spec fn ascending(s: Seq<Seq<char>>) -> bool {
    forall|i: int, j: int| 0 <= i < j < s.len() ==> lex_le(#[trigger] s[i], #[trigger] s[j])
}

/// Of two texts one comes before the other, or they are equal.
pub proof fn lemma_lex_le_total(a: Seq<char>, b: Seq<char>)
    ensures
        lex_le(a, b) || lex_le(b, a),
    decreases a.len(),
{
    if a.len() > 0 && b.len() > 0 && a[0] == b[0] {
        lemma_lex_le_total(a.drop_first(), b.drop_first());
    }
}

/// What comes before a text that comes before a third comes before the
/// third.
pub proof fn lemma_lex_le_transitive(a: Seq<char>, b: Seq<char>, c: Seq<char>)
    requires
        lex_le(a, b),
        lex_le(b, c),
    ensures
        lex_le(a, c),
    decreases a.len(),
{
    if a.len() > 0 && b.len() > 0 && c.len() > 0 && a[0] == b[0] && b[0] == c[0] {
        lemma_lex_le_transitive(a.drop_first(), b.drop_first(), c.drop_first());
    }
}

/// Putting a text among texts in ascending order leaves them in
/// ascending order.
pub proof fn lemma_insert_sorted_ascending(sorted: Seq<Seq<char>>, x: Seq<char>)
    requires
        ascending(sorted),
    ensures
        ascending(insert_sorted(sorted, x)),
        insert_sorted(sorted, x).len() == sorted.len() + 1,
        forall|e: Seq<char>|
            (forall|i: int| 0 <= i < sorted.len() ==> lex_le(#[trigger] sorted[i], e)) && lex_le(x, e)
                ==> forall|i: int|
                0 <= i < insert_sorted(sorted, x).len() ==> lex_le(
                    #[trigger] insert_sorted(sorted, x)[i],
                    e,
                ),
    decreases sorted.len(),
{
    if sorted.len() == 0 {
    } else if lex_le(sorted.last(), x) {
        let out = sorted.push(x);
        assert forall|i: int, j: int| 0 <= i < j < out.len() implies lex_le(
            #[trigger] out[i],
            #[trigger] out[j],
        ) by {
            if j == sorted.len() {
                if i < sorted.len() - 1 {
                    lemma_lex_le_transitive(sorted[i], sorted.last(), x);
                }
            }
        }
    } else {
        let head = sorted.drop_last();
        let last = sorted.last();
        assert(ascending(head)) by {
            assert forall|i: int, j: int| 0 <= i < j < head.len() implies lex_le(
                #[trigger] head[i],
                #[trigger] head[j],
            ) by {
                assert(head[i] == sorted[i] && head[j] == sorted[j]);
            }
        }
        lemma_insert_sorted_ascending(head, x);
        lemma_lex_le_total(last, x);
        let inner = insert_sorted(head, x);
        assert forall|i: int| 0 <= i < head.len() implies lex_le(#[trigger] head[i], last) by {
            assert(head[i] == sorted[i]);
        }
        assert(forall|i: int| 0 <= i < inner.len() ==> lex_le(#[trigger] inner[i], last));
        let out = inner.push(last);
        assert forall|i: int, j: int| 0 <= i < j < out.len() implies lex_le(
            #[trigger] out[i],
            #[trigger] out[j],
        ) by {
            if j < inner.len() {
                assert(out[i] == inner[i] && out[j] == inner[j]);
            } else {
                assert(out[i] == inner[i]);
            }
        }
        assert forall|e: Seq<char>|
            (forall|i: int| 0 <= i < sorted.len() ==> lex_le(#[trigger] sorted[i], e)) && lex_le(
                x,
                e,
            ) implies forall|i: int| 0 <= i < out.len() ==> lex_le(#[trigger] out[i], e) by {
            assert forall|i: int| 0 <= i < head.len() implies lex_le(#[trigger] head[i], e) by {
                assert(head[i] == sorted[i]);
            }
            assert(lex_le(sorted[sorted.len() - 1], e));
            assert forall|i: int| 0 <= i < out.len() implies lex_le(#[trigger] out[i], e) by {
                if i < inner.len() {
                    assert(out[i] == inner[i]);
                }
            }
        }
    }
}

/// Sorted texts stand in ascending order, as many as were given.
pub proof fn lemma_sort_texts_ascending(s: Seq<Seq<char>>)
    ensures
        ascending(sort_texts(s)),
        sort_texts(s).len() == s.len(),
    decreases s.len(),
{
    if s.len() > 0 {
        lemma_sort_texts_ascending(s.drop_last());
        lemma_insert_sorted_ascending(sort_texts(s.drop_last()), s.last());
    }
}

/// Every text comes before itself.
pub proof fn lemma_lex_le_reflexive(a: Seq<char>)
    ensures
        lex_le(a, a),
    decreases a.len(),
{
    if a.len() > 0 {
        lemma_lex_le_reflexive(a.drop_first());
    }
}

/// Two texts of which each comes before the other are one text.
pub proof fn lemma_lex_le_antisymmetric(a: Seq<char>, b: Seq<char>)
    requires
        lex_le(a, b),
        lex_le(b, a),
    ensures
        a == b,
    decreases a.len(),
{
    if a.len() == 0 || b.len() == 0 {
        assert(a =~= b);
    } else {
        lemma_lex_le_antisymmetric(a.drop_first(), b.drop_first());
        assert(a =~= seq![a[0]] + a.drop_first());
        assert(b =~= seq![b[0]] + b.drop_first());
    }
}

/// The order of texts is a total order.
pub proof fn lemma_lex_le_total_ordering()
    ensures
        total_ordering(|a: Seq<char>, b: Seq<char>| lex_le(a, b)),
{
    let leq = |a: Seq<char>, b: Seq<char>| lex_le(a, b);
    assert forall|x: Seq<char>| #[trigger] leq(x, x) by {
        lemma_lex_le_reflexive(x);
    }
    assert forall|x: Seq<char>, y: Seq<char>| #[trigger] leq(x, y) && #[trigger] leq(y, x) implies x
        == y by {
        lemma_lex_le_antisymmetric(x, y);
    }
    assert forall|x: Seq<char>, y: Seq<char>, z: Seq<char>| #[trigger] leq(x, y) && #[trigger] leq(
        y,
        z,
    ) implies leq(x, z) by {
        lemma_lex_le_transitive(x, y, z);
    }
    assert forall|x: Seq<char>, y: Seq<char>| #[trigger] leq(x, y) || #[trigger] leq(y, x) by {
        lemma_lex_le_total(x, y);
    }
}

/// Putting a text among others adds that text and takes none away.
pub proof fn lemma_insert_sorted_multiset(sorted: Seq<Seq<char>>, x: Seq<char>)
    ensures
        insert_sorted(sorted, x).to_multiset() == sorted.to_multiset().insert(x),
    decreases sorted.len(),
{
    broadcast use vstd::seq_lib::group_to_multiset_ensures;

    if sorted.len() == 0 {
        assert(sorted =~= Seq::<Seq<char>>::empty());
        assert(seq![x] =~= Seq::<Seq<char>>::empty().push(x));
    } else if lex_le(sorted.last(), x) {
    } else {
        let head = sorted.drop_last();
        lemma_insert_sorted_multiset(head, x);
        assert(sorted =~= head.push(sorted.last()));
        assert(insert_sorted(head, x).push(sorted.last()).to_multiset() =~= head.push(
            sorted.last(),
        ).to_multiset().insert(x));
    }
}

/// Sorting keeps every text, as often as it occurs.
pub proof fn lemma_sort_texts_multiset(s: Seq<Seq<char>>)
    ensures
        sort_texts(s).to_multiset() == s.to_multiset(),
    decreases s.len(),
{
    broadcast use vstd::seq_lib::group_to_multiset_ensures;

    if s.len() == 0 {
        assert(s =~= Seq::<Seq<char>>::empty());
    } else {
        lemma_sort_texts_multiset(s.drop_last());
        lemma_insert_sorted_multiset(sort_texts(s.drop_last()), s.last());
        assert(s =~= s.drop_last().push(s.last()));
    }
}

/// Lists that hold the same texts equally often, in whatever order, are
/// one list once sorted.
pub proof fn lemma_sort_texts_canonical(a: Seq<Seq<char>>, b: Seq<Seq<char>>)
    requires
        a.to_multiset() == b.to_multiset(),
    ensures
        sort_texts(a) == sort_texts(b),
{
    let leq = |x: Seq<char>, y: Seq<char>| lex_le(x, y);
    lemma_sort_texts_ascending(a);
    lemma_sort_texts_ascending(b);
    lemma_sort_texts_multiset(a);
    lemma_sort_texts_multiset(b);
    lemma_lex_le_total_ordering();
    assert(sorted_by(sort_texts(a), leq));
    assert(sorted_by(sort_texts(b), leq));
    vstd::seq_lib::lemma_sorted_unique(sort_texts(a), sort_texts(b), leq);
}

/// The text `pat` stands in `s` at the place `k`.
pub open spec fn occurs_at(s: Seq<char>, pat: Seq<char>, k: int) -> bool {
    0 <= k && k + pat.len() <= s.len() && s.subrange(k, k + pat.len()) == pat
}

/// The first place from `k` on at which `pat` stands in `s`; the length
/// of `s` where there is none.
pub open spec fn find_from(s: Seq<char>, pat: Seq<char>, k: int) -> int
    decreases s.len() - k,
{
    if k < 0 || pat.len() == 0 || k + pat.len() > s.len() {
        s.len() as int
    } else if occurs_at(s, pat, k) {
        k
    } else {
        find_from(s, pat, k + 1)
    }
}

/// `s` with `to` in the place of the first `from` in it; `s` itself where
/// `from` is empty or does not stand in it.
pub open spec fn replaced_first(s: Seq<char>, from: Seq<char>, to: Seq<char>) -> Seq<char> {
    let k = find_from(s, from, 0);
    if from.len() > 0 && occurs_at(s, from, k) {
        s.take(k) + to + s.skip(k + from.len())
    } else {
        s
    }
}

/// Puts `to` in the place of the first `from`.
pub fn replace_first(s: &Vec<char>, from: &Vec<char>, to: &Vec<char>) -> (out: Vec<char>)
    ensures
        out@ == replaced_first(s@, from@, to@),
{
    let mut k: usize = 0;
    let mut found = false;
    if from.len() > 0 && from.len() <= s.len() {
        while !found && k <= s.len() - from.len()
            invariant
                0 < from.len() <= s.len(),
                k <= s.len(),
                find_from(s@, from@, 0) == find_from(s@, from@, k as int),
                found ==> occurs_at(s@, from@, k as int),
            decreases (s.len() - k) + (if found { 0int } else { 1int }),
        {
            let part = slice_chars(s, k, k + from.len());
            if same_chars(&part, from) {
                found = true;
            } else {
                k += 1;
            }
        }
    }
    if found {
        let mut out = slice_chars(s, 0, k);
        append_chars(&mut out, to);
        let rest = slice_chars(s, k + from.len(), s.len());
        append_chars(&mut out, &rest);
        assert(out@ =~= s@.take(k as int) + to@ + s@.skip(k + from.len()));
        out
    } else {
        let out = slice_chars(s, 0, s.len());
        assert(out@ =~= s@);
        proof {
            if from.len() > 0 {
                assert(!occurs_at(s@, from@, find_from(s@, from@, 0)));
            }
        }
        out
    }
}

} // verus!
