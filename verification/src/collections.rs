//! Small collections: a set that remembers the order of insertion, and a
//! map from bindings to counts.
use vstd::prelude::*;
use crate::ast::Id;

verus! {

/// A value that can be a member of a set: it is told apart from other
/// members by its view, and can be copied.
pub trait Member: Sized + View {
    /// Whether two values have the same view.
    fn same(&self, other: &Self) -> (same: bool)
        ensures
            same == (self@ == other@),
    ;

    /// A copy with the same view.
    fn copy(&self) -> (copy: Self)
        ensures
            copy@ == self@,
    ;
}

impl Member for Id {
    fn same(&self, other: &Self) -> (same: bool) {
        self.sym == other.sym && self.ctxt == other.ctxt
    }

    fn copy(&self) -> (copy: Self) {
        self.clone()
    }
}

impl Member for String {
    fn same(&self, other: &Self) -> (same: bool) {
        *self == *other
    }

    fn copy(&self) -> (copy: Self) {
        self.clone()
    }
}

/// A set whose members are kept in the order in which they were first
/// inserted.
#[derive(Debug)]
pub struct OrderedSet<T: Member> {
    pub items: Vec<T>,
}

/// The views of the items.
pub open spec fn item_views<T: View>(items: Seq<T>) -> Seq<T::V> {
    Seq::new(items.len(), |i: int| items[i]@)
}

/// No view occurs twice.
pub open spec fn distinct<V>(views: Seq<V>) -> bool {
    forall|i: int, j: int| 0 <= i < j < views.len() ==> views[i] != views[j]
}

/// The views `a`, and after them those of `b` that are not among the
/// views before them.
pub open spec fn union_order<V>(a: Seq<V>, b: Seq<V>) -> Seq<V>
    decreases b.len(),
{
    if b.len() == 0 {
        a
    } else {
        let head = union_order(a, b.drop_last());
        if head.contains(b.last()) {
            head
        } else {
            head.push(b.last())
        }
    }
}

impl<T: Member> OrderedSet<T> {
    /// The members in the order of their insertion.
    pub open spec fn order(&self) -> Seq<T::V> {
        item_views(self.items@)
    }

    /// Nothing occurs twice.
    pub open spec fn wf(&self) -> bool {
        distinct(self.order())
    }

    /// A set without members.
    pub fn new() -> (set: Self)
        ensures
            set.wf(),
            set.order() == Seq::<T::V>::empty(),
            set@ == Set::<T::V>::empty(),
    {
        let set: OrderedSet<T> = OrderedSet { items: Vec::new() };
        assert(set.order() =~= Seq::<T::V>::empty());
        assert(set@ =~= Set::<T::V>::empty());
        set
    }

    /// Whether the value is a member.
    pub fn contains(&self, value: &T) -> (yes: bool)
        ensures
            yes == self@.contains(value@),
    {
        let mut i: usize = 0;
        while i < self.items.len()
            invariant
                i <= self.items.len(),
                forall|j: int| 0 <= j < i ==> (#[trigger] self.order()[j]) != value@,
            decreases self.items.len() - i,
        {
            if self.items[i].same(value) {
                assert(self.order()[i as int] == value@);
                assert(self.order().contains(value@));
                return true;
            }
            i += 1;
        }
        assert(!self.order().contains(value@));
        false
    }

    /// Whether nothing occurs twice.
    pub fn is_wf(&self) -> (ok: bool)
        ensures
            ok == self.wf(),
    {
        let mut j: usize = 0;
        while j < self.items.len()
            invariant
                j <= self.items.len(),
                forall|a: int, b: int| 0 <= a < b < j ==> self.order()[a] != self.order()[b],
            decreases self.items.len() - j,
        {
            let mut i: usize = 0;
            while i < j
                invariant
                    i <= j < self.items.len(),
                    forall|a: int| 0 <= a < i ==> (#[trigger] self.order()[a]) != self.order()[j as int],
                decreases j - i,
            {
                if self.items[i].same(&self.items[j]) {
                    assert(self.order()[i as int] == self.order()[j as int]);
                    return false;
                }
                i += 1;
            }
            j += 1;
        }
        true
    }

    /// Makes the value a member; says whether it was none before.
    pub fn insert(&mut self, value: T) -> (fresh: bool)
        requires
            old(self).wf(),
        ensures
            final(self).wf(),
            fresh == !old(self)@.contains(value@),
            final(self)@ == old(self)@.insert(value@),
            final(self).order() == if fresh {
                old(self).order().push(value@)
            } else {
                old(self).order()
            },
    {
        if self.contains(&value) {
            assert(self@.insert(value@) =~= self@);
            false
        } else {
            let ghost before = self.order();
            self.items.push(value);
            assert(self.order() =~= before.push(value@));
            proof {
                before.lemma_push_to_set_commute(value@);
            }
            true
        }
    }

    /// The union: the members of `self` in their order, then those of
    /// `other` that `self` does not have, in theirs.
    pub fn union(&self, other: &Self) -> (both: Self)
        requires
            self.wf(),
        ensures
            both.wf(),
            both@ == self@.union(other@),
            both.order() == union_order(self.order(), other.order()),
    {
        let mut both: OrderedSet<T> = OrderedSet { items: Vec::new() };
        let mut i: usize = 0;
        while i < self.items.len()
            invariant
                i <= self.items.len(),
                both.items.len() == i,
                forall|j: int| 0 <= j < i ==> (#[trigger] both.items[j])@ == self.items[j]@,
            decreases self.items.len() - i,
        {
            both.items.push(self.items[i].copy());
            i += 1;
        }
        assert(both.order() =~= self.order());
        let ghost b = other.order();
        let mut k: usize = 0;
        assert(b.take(0) =~= Seq::<T::V>::empty());
        while k < other.items.len()
            invariant
                k <= other.items.len(),
                b == other.order(),
                both.wf(),
                both.order() == union_order(self.order(), b.take(k as int)),
                both@ == self@.union(b.take(k as int).to_set()),
            decreases other.items.len() - k,
        {
            assert(b.take(k + 1).drop_last() =~= b.take(k as int));
            assert(b.take(k + 1).last() == other.items[k as int]@);
            proof {
                assert(b.take(k + 1) =~= b.take(k as int).push(other.items[k as int]@));
                b.take(k as int).lemma_push_to_set_commute(other.items[k as int]@);
            }
            both.insert(other.items[k].copy());
            assert(both@ =~= self@.union(b.take(k + 1).to_set()));
            k += 1;
        }
        assert(b.take(k as int) =~= b);
        both
    }
}

impl<T: Member> View for OrderedSet<T> {
    type V = Set<T::V>;

    open spec fn view(&self) -> Set<T::V> {
        item_views(self.items@).to_set()
    }
}

/// The position of the first pair under `key`; the length where there is
/// none.
pub open spec fn key_index<K, V>(pairs: Seq<(K, V)>, key: K) -> int
    decreases pairs.len(),
{
    if pairs.len() == 0 {
        0
    } else if pairs[0].0 == key {
        0
    } else {
        1 + key_index(pairs.drop_first(), key)
    }
}

/// The key index lies within the pairs or at their end; no earlier pair
/// is under the key, and the pair at the index is.
pub proof fn lemma_key_index<K, V>(pairs: Seq<(K, V)>, key: K)
    ensures
        0 <= key_index(pairs, key) <= pairs.len(),
        forall|j: int| 0 <= j < key_index(pairs, key) ==> (#[trigger] pairs[j]).0 != key,
        key_index(pairs, key) < pairs.len() ==> pairs[key_index(pairs, key)].0 == key,
    decreases pairs.len(),
{
    if pairs.len() > 0 && pairs[0].0 != key {
        let rest = pairs.drop_first();
        lemma_key_index(rest, key);
        assert forall|j: int| 0 <= j < key_index(pairs, key) implies (#[trigger] pairs[j]).0 != key by {
            if j > 0 {
                assert(pairs[j] == rest[j - 1]);
            }
        }
        assert(key_index(pairs, key) < pairs.len() ==> pairs[key_index(pairs, key)] == rest[key_index(
            rest,
            key,
        )]);
    }
}

/// The pairs with `value` under `key`: in the place of the pair that was
/// under the key, or at the end where there was none.
pub open spec fn put_pair<K, V>(pairs: Seq<(K, V)>, key: K, value: V) -> Seq<(K, V)> {
    let i = key_index(pairs, key);
    if 0 <= i < pairs.len() {
        pairs.update(i, (key, value))
    } else {
        pairs.push((key, value))
    }
}

/// The pairs of `a`, and after them those of `b` whose key no pair before
/// them has: on a key that both have, the left one wins.
pub open spec fn merge_pairs<K, V>(a: Seq<(K, V)>, b: Seq<(K, V)>) -> Seq<(K, V)>
    decreases b.len(),
{
    if b.len() == 0 {
        a
    } else {
        let head = merge_pairs(a, b.drop_last());
        let i = key_index(head, b.last().0);
        if 0 <= i < head.len() {
            head
        } else {
            head.push(b.last())
        }
    }
}

/// No key occurs twice among the pairs.
pub open spec fn distinct_keys<K, V>(pairs: Seq<(K, V)>) -> bool {
    forall|i: int, j: int| 0 <= i < j < pairs.len() ==> (#[trigger] pairs[i]).0 != (#[trigger] pairs[j]).0
}

/// Putting a value under a key leaves every key once.
pub proof fn lemma_put_pair_distinct<K, V>(pairs: Seq<(K, V)>, key: K, value: V)
    requires
        distinct_keys(pairs),
    ensures
        distinct_keys(put_pair(pairs, key, value)),
{
    lemma_key_index(pairs, key);
    let after = put_pair(pairs, key, value);
    let k = key_index(pairs, key);
    assert forall|i: int, j: int| 0 <= i < j < after.len() implies (#[trigger] after[i]).0 != (
    #[trigger] after[j]).0 by {
        if 0 <= k < pairs.len() {
            assert(after[i].0 == pairs[i].0);
            assert(after[j].0 == pairs[j].0);
        } else {
            if j < pairs.len() {
                assert(after[i] == pairs[i]);
                assert(after[j] == pairs[j]);
            } else {
                assert(after[i] == pairs[i]);
                assert(pairs[i].0 != key);
            }
        }
    }
}

/// Merging into pairs that hold every key once leaves every key once.
pub proof fn lemma_merge_pairs_distinct<K, V>(a: Seq<(K, V)>, b: Seq<(K, V)>)
    requires
        distinct_keys(a),
    ensures
        distinct_keys(merge_pairs(a, b)),
    decreases b.len(),
{
    if b.len() > 0 {
        let head = merge_pairs(a, b.drop_last());
        lemma_merge_pairs_distinct(a, b.drop_last());
        lemma_key_index(head, b.last().0);
        let k = key_index(head, b.last().0);
        if !(0 <= k < head.len()) {
            let after = head.push(b.last());
            assert forall|i: int, j: int| 0 <= i < j < after.len() implies (#[trigger] after[i]).0 != (
            #[trigger] after[j]).0 by {
                if j < head.len() {
                    assert(after[i] == head[i]);
                    assert(after[j] == head[j]);
                } else {
                    assert(after[i] == head[i]);
                    assert(head[i].0 != b.last().0);
                }
            }
        }
    }
}

/// A map whose entries are kept in the order in which their keys were
/// first inserted.
#[derive(Debug)]
pub struct OrderedMap<K: Member, V> {
    pub entries: Vec<(K, V)>,
}

impl<K: Member, V> OrderedMap<K, V> {
    /// The entries in order, each key by its view.
    pub open spec fn pairs(&self) -> Seq<(K::V, V)> {
        Seq::new(self.entries.len() as nat, |i: int| (self.entries[i].0@, self.entries[i].1))
    }

    /// Every key occurs once.
    pub open spec fn wf(&self) -> bool {
        distinct_keys(self.pairs())
    }

    /// A map without entries.
    pub fn new() -> (map: Self)
        ensures
            map.pairs() == Seq::<(K::V, V)>::empty(),
            map.wf(),
    {
        let map: OrderedMap<K, V> = OrderedMap { entries: Vec::new() };
        assert(map.pairs() =~= Seq::<(K::V, V)>::empty());
        map
    }

    /// The position of the entry under `key`, where there is one.
    pub fn position(&self, key: &K) -> (found: Option<usize>)
        ensures
            0 <= key_index(self.pairs(), key@),
            match found {
                Some(i) => i < self.entries.len() && i == key_index(self.pairs(), key@),
                None => key_index(self.pairs(), key@) == self.entries.len(),
            },
    {
        let ghost all = self.pairs();
        let mut i: usize = 0;
        assert(all.skip(0) =~= all);
        while i < self.entries.len()
            invariant
                i <= self.entries.len(),
                all == self.pairs(),
                key_index(all, key@) == i + key_index(all.skip(i as int), key@),
            decreases self.entries.len() - i,
        {
            assert(all.skip(i as int)[0] == all[i as int]);
            if self.entries[i].0.same(key) {
                return Some(i);
            }
            assert(all.skip(i as int).drop_first() =~= all.skip(i + 1));
            i += 1;
        }
        None
    }

    /// The value under `key`, where there is one.
    pub fn get(&self, key: &K) -> (found: Option<&V>)
        ensures
            match found {
                Some(v) => 0 <= key_index(self.pairs(), key@) < self.pairs().len() && *v
                    == self.pairs()[key_index(self.pairs(), key@)].1,
                None => key_index(self.pairs(), key@) == self.pairs().len(),
            },
    {
        match self.position(key) {
            Some(i) => Some(&self.entries[i].1),
            None => None,
        }
    }

    /// Whether every key occurs once.
    pub fn is_wf(&self) -> (ok: bool)
        ensures
            ok == self.wf(),
    {
        let ghost all = self.pairs();
        let mut j: usize = 0;
        while j < self.entries.len()
            invariant
                j <= self.entries.len(),
                all == self.pairs(),
                forall|a: int, b: int| 0 <= a < b < j ==> (#[trigger] all[a]).0 != (#[trigger] all[b]).0,
            decreases self.entries.len() - j,
        {
            let mut i: usize = 0;
            while i < j
                invariant
                    i <= j < self.entries.len(),
                    all == self.pairs(),
                    forall|a: int| 0 <= a < i ==> (#[trigger] all[a]).0 != all[j as int].0,
                decreases j - i,
            {
                if self.entries[i].0.same(&self.entries[j].0) {
                    assert(all[i as int].0 == all[j as int].0);
                    return false;
                }
                i += 1;
            }
            j += 1;
        }
        true
    }

    /// Puts `value` under `key`.
    pub fn insert(&mut self, key: K, value: V)
        ensures
            final(self).pairs() == put_pair(old(self).pairs(), key@, value),
            old(self).wf() ==> final(self).wf(),
    {
        proof {
            if self.wf() {
                lemma_put_pair_distinct(self.pairs(), key@, value);
            }
        }
        match self.position(&key) {
            Some(i) => {
                self.entries.set(i, (key, value));
            },
            None => {
                self.entries.push((key, value));
            },
        }
        assert(self.pairs() =~= put_pair(old(self).pairs(), key@, value));
    }

    /// The two maps as one; on a key that both have, the entry of `self`
    /// wins.
    pub fn merge(self, other: Self) -> (both: Self)
        ensures
            both.pairs() == merge_pairs(self.pairs(), other.pairs()),
            self.wf() ==> both.wf(),
    {
        proof {
            if self.wf() {
                lemma_merge_pairs_distinct(self.pairs(), other.pairs());
            }
        }
        let ghost b = other.pairs();
        let mut both = self;
        let mut rest = other.entries;
        let n = rest.len();
        let mut moved: Vec<(K, V)> = Vec::new();
        // take the entries of `other` from its end, so that each can be moved
        while rest.len() > 0
            invariant
                rest.len() + moved.len() == n,
                n == b.len(),
                forall|j: int| 0 <= j < rest.len() ==> (#[trigger] rest[j]).0@ == b[j].0 && rest[j].1 == b[j].1,
                forall|j: int|
                    0 <= j < moved.len() ==> (#[trigger] moved[j]).0@ == b[n - 1 - j].0 && moved[j].1
                        == b[n - 1 - j].1,
            decreases rest.len(),
        {
            let last = rest.pop().unwrap();
            moved.push(last);
        }
        let mut k: usize = 0;
        assert(b.take(0) =~= Seq::<(K::V, V)>::empty());
        while moved.len() > 0
            invariant
                k + moved.len() == n,
                n == b.len(),
                forall|j: int|
                    0 <= j < moved.len() ==> (#[trigger] moved[j]).0@ == b[n - 1 - j].0 && moved[j].1
                        == b[n - 1 - j].1,
                both.pairs() == merge_pairs(self.pairs(), b.take(k as int)),
            decreases moved.len(),
        {
            let entry = moved.pop().unwrap();
            assert(entry.0@ == b[k as int].0 && entry.1 == b[k as int].1);
            assert(b.take(k + 1).drop_last() =~= b.take(k as int));
            assert(b.take(k + 1).last() == b[k as int]);
            let ghost before = both.pairs();
            if both.position(&entry.0).is_none() {
                both.entries.push(entry);
                assert(both.pairs() =~= before.push(b[k as int]));
            }
            k += 1;
        }
        assert(b.take(k as int) =~= b);
        both
    }
}

} // verus!
