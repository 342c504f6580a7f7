//! The ordered collection and what it asks of its items.
//!
//! [`OrderedVec<T>`] keeps items of one kind in the order that the kind
//! defines, and finds them again by their identifiers.

pub mod app_mod;
pub mod game;
pub mod tag;

use crate::text::same_text;
use std::cmp::Ordering;
use vstd::prelude::*;

verus! {

/// What an [`OrderedVec`] asks of its items: an identifier, a way to take
/// over the fields of a newer copy, and a total order.
pub trait Item: Sized {
    /// The identifier of the item, as text.
    spec fn id(&self) -> Seq<char>;

    /// Whether `self` is not after `other` in the order of the collection.
    spec fn not_after(&self, other: &Self) -> bool;

    /// What `self` becomes when it takes over the fields of `other`.
    spec fn patched(&self, other: &Self) -> Self;

    /// Any two items are comparable.
    proof fn lemma_order_total(a: &Self, b: &Self)
        ensures
            a.not_after(b) || b.not_after(a),
    ;

    /// The order is transitive.
    proof fn lemma_order_transitive(a: &Self, b: &Self, c: &Self)
        requires
            a.not_after(b),
            b.not_after(c),
        ensures
            a.not_after(c),
    ;

    /// Patching with an item of the same identifier leaves the identifier
    /// as it was.
    proof fn lemma_patched_id(a: &Self, b: &Self)
        requires
            a.id() == b.id(),
        ensures
            a.patched(b).id() == a.id(),
    ;

    /// The identifier of the item.
    fn identifier(&self) -> (id: &str)
        ensures
            id@ == self.id(),
    ;

    /// Takes over the fields of `other`.
    fn patch(&mut self, other: Self)
        ensures
            *final(self) == old(self).patched(&other),
    ;

    /// How `self` stands to `other` in the order: `Greater` when it is
    /// after `other`, `Less` when `other` is after it, `Equal` when neither
    /// is after the other.
    fn vec_order(&self, other: &Self) -> (o: Ordering)
        ensures
            (o == Ordering::Greater) == !self.not_after(other),
            (o == Ordering::Less) == !other.not_after(self),
    ;
}

/// No item of `s` is after a later one.
pub open spec fn sorted<T: Item>(s: Seq<T>) -> bool {
    forall|i: int, j: int| 0 <= i < j < s.len() ==> #[trigger] s[i].not_after(&s[j])
}

/// No two items of `s` share an identifier.
pub open spec fn distinct_ids<T: Item>(s: Seq<T>) -> bool {
    forall|i: int, j: int| 0 <= i < j < s.len() ==> (#[trigger] s[i]).id() != (#[trigger] s[j]).id()
}

/// The item at `i` is the first of `s` whose identifier is `id`.
pub open spec fn first_with_id<T: Item>(s: Seq<T>, id: Seq<char>, i: int) -> bool {
    &&& 0 <= i < s.len()
    &&& s[i].id() == id
    &&& forall|j: int| 0 <= j < i ==> (#[trigger] s[j]).id() != id
}

/// Where the first item with the identifier `id` stands in `s`, if there is one.
pub open spec fn position<T: Item>(s: Seq<T>, id: Seq<char>) -> Option<int> {
    if exists|i: int| first_with_id(s, id, i) {
        Some(choose|i: int| first_with_id(s, id, i))
    } else {
        None
    }
}

/// How many items at the front of `s` are strictly before `x`: in a sorted
/// `s`, the first place at which `x` can stand without breaking the order.
pub open spec fn insertion_point<T: Item>(s: Seq<T>, x: T) -> int
    decreases s.len(),
{
    if s.len() == 0 || x.not_after(&s[0]) {
        0
    } else {
        1 + insertion_point(s.drop_first(), x)
    }
}

/// `after` is what an upsert of `x` makes of `before`: the first item with
/// the identifier of `x` is patched where it stands and nothing else changes;
/// if there is none, `x` goes in once, in a sorted `before` at its insertion
/// point.
pub open spec fn upsert_result<T: Item>(before: Seq<T>, x: T, after: Seq<T>) -> bool {
    match position(before, x.id()) {
        Some(i) => after == before.update(i, before[i].patched(&x)),
        None => exists|at: int|
            {
                &&& 0 <= at <= before.len()
                &&& after == #[trigger] before.insert(at, x)
                &&& sorted(before) ==> at == insertion_point(before, x)
            },
    }
}

/// The item `x` can stand at the place `i` of `s` without breaking the order
/// with its neighbours.
pub open spec fn fits_at<T: Item>(s: Seq<T>, i: int, x: T) -> bool {
    &&& 0 < i < s.len() ==> s[i - 1].not_after(&x)
    &&& 0 <= i < s.len() - 1 ==> x.not_after(&s[i + 1])
}

/// The items of `s` in order, items of one rank in the order in which `s`
/// held them: each item is put before the first of those behind it that is
/// not before it.
pub open spec fn stable_sorted<T: Item>(s: Seq<T>) -> Seq<T>
    decreases s.len(),
{
    if s.len() == 0 {
        s
    } else {
        let rest = stable_sorted(s.drop_first());
        rest.insert(insertion_point(rest, s[0]), s[0])
    }
}

/// A sequence in which no item is after its next neighbour is sorted.
pub proof fn lemma_sorted_by_neighbours<T: Item>(s: Seq<T>)
    requires
        forall|i: int| 0 <= i < s.len() - 1 ==> #[trigger] s[i].not_after(&s[i + 1]),
    ensures
        sorted(s),
{
    assert forall|i: int, j: int| 0 <= i < j < s.len() implies #[trigger] s[i].not_after(
        &s[j],
    ) by {
        lemma_neighbours_reach(s, i, j);
    }
}

proof fn lemma_neighbours_reach<T: Item>(s: Seq<T>, i: int, j: int)
    requires
        forall|k: int| 0 <= k < s.len() - 1 ==> #[trigger] s[k].not_after(&s[k + 1]),
        0 <= i < j < s.len(),
    ensures
        s[i].not_after(&s[j]),
    decreases j - i,
{
    if i + 1 < j {
        lemma_neighbours_reach(s, i, j - 1);
        assert(s[j - 1].not_after(&s[j - 1 + 1]));
        T::lemma_order_transitive(&s[i], &s[j - 1], &s[j]);
    } else {
        assert(s[i].not_after(&s[i + 1]));
    }
}

/// Whether `a` and `b` are of one rank: neither is after the other.
pub open spec fn same_rank<T: Item>(a: T, b: T) -> bool {
    a.not_after(&b) && b.not_after(&a)
}

/// The test that an item is of the rank of `x`.
pub open spec fn ranked_as<T: Item>(x: T) -> spec_fn(T) -> bool {
    |y: T| same_rank(y, x)
}

/// The index `i` is the first with the identifier `id`, so it is the position.
pub proof fn lemma_position_first<T: Item>(s: Seq<T>, id: Seq<char>, i: int)
    requires
        first_with_id(s, id, i),
    ensures
        position(s, id) == Some(i),
{
    let c = choose|c: int| first_with_id(s, id, c);
    if c < i {
        assert(s[c].id() != id);
    } else if i < c {
        assert(s[i].id() != id);
    }
}

/// No item has the identifier `id`, so there is no position.
pub proof fn lemma_position_none<T: Item>(s: Seq<T>, id: Seq<char>)
    requires
        forall|i: int| 0 <= i < s.len() ==> (#[trigger] s[i]).id() != id,
    ensures
        position(s, id) is None,
{
    if exists|i: int| first_with_id(s, id, i) {
        let c = choose|c: int| first_with_id(s, id, c);
        assert(s[c].id() != id);
    }
}

/// What a position says: the item there has the identifier, none before it
/// has; and where there is no position, no item has it.
pub proof fn lemma_position_meaning<T: Item>(s: Seq<T>, id: Seq<char>)
    ensures
        match position(s, id) {
            Some(i) => first_with_id(s, id, i),
            None => forall|i: int| 0 <= i < s.len() ==> (#[trigger] s[i]).id() != id,
        },
{
    if position(s, id) is None {
        assert forall|i: int| 0 <= i < s.len() implies (#[trigger] s[i]).id() != id by {
            if s[i].id() == id {
                lemma_some_first(s, id, i);
            }
        }
    }
}

proof fn lemma_some_first<T: Item>(s: Seq<T>, id: Seq<char>, i: int)
    requires
        0 <= i < s.len(),
        s[i].id() == id,
    ensures
        exists|k: int| first_with_id(s, id, k),
    decreases i,
{
    if exists|j: int| 0 <= j < i && (#[trigger] s[j]).id() == id {
        let j = choose|j: int| 0 <= j < i && (#[trigger] s[j]).id() == id;
        lemma_some_first(s, id, j);
    } else {
        assert(first_with_id(s, id, i));
    }
}

/// The insertion point lies within the sequence or at its end; the items
/// before it are strictly before `x`, and the item at it is not.
pub proof fn lemma_insertion_point_meaning<T: Item>(s: Seq<T>, x: T)
    ensures
        0 <= insertion_point(s, x) <= s.len(),
        forall|i: int| 0 <= i < insertion_point(s, x) ==> !x.not_after(&#[trigger] s[i]),
        insertion_point(s, x) < s.len() ==> x.not_after(&s[insertion_point(s, x)]),
    decreases s.len(),
{
    if s.len() == 0 || x.not_after(&s[0]) {
    } else {
        let t = s.drop_first();
        lemma_insertion_point_meaning(t, x);
        let p = insertion_point(t, x);
        assert forall|i: int| 0 <= i < p + 1 implies !x.not_after(&#[trigger] s[i]) by {
            if i > 0 {
                assert(s[i] == t[i - 1]);
            }
        }
        if p + 1 < s.len() {
            assert(s[p + 1] == t[p]);
        }
    }
}

/// In a sorted sequence, a place that parts the items strictly before `x`
/// from the others is the insertion point.
pub proof fn lemma_insertion_point_unique<T: Item>(s: Seq<T>, x: T, p: int)
    requires
        0 <= p <= s.len(),
        forall|i: int| 0 <= i < p ==> !x.not_after(&#[trigger] s[i]),
        forall|i: int| p <= i < s.len() ==> x.not_after(&#[trigger] s[i]),
    ensures
        insertion_point(s, x) == p,
{
    lemma_insertion_point_meaning(s, x);
    let q = insertion_point(s, x);
    if q < p {
        assert(!x.not_after(&s[q]));
    } else if p < q {
        assert(x.not_after(&s[p]));
    }
}

/// Inserting `x` at its insertion point keeps a sorted sequence sorted.
pub proof fn lemma_insert_keeps_sorted<T: Item>(s: Seq<T>, x: T)
    requires
        sorted(s),
    ensures
        sorted(s.insert(insertion_point(s, x), x)),
{
    lemma_insertion_point_meaning(s, x);
    let p = insertion_point(s, x);
    let r = s.insert(p, x);
    assert forall|i: int, j: int| 0 <= i < j < r.len() implies #[trigger] r[i].not_after(
        &r[j],
    ) by {
        if j < p {
            assert(r[i] == s[i] && r[j] == s[j]);
        } else if j == p {
            assert(r[i] == s[i]);
            T::lemma_order_total(&s[i], &x);
        } else if i < p {
            assert(r[i] == s[i] && r[j] == s[j - 1]);
        } else if i == p {
            assert(r[j] == s[j - 1]);
            if p < j - 1 {
                T::lemma_order_transitive(&x, &s[p], &s[j - 1]);
            }
        } else {
            assert(r[i] == s[i - 1] && r[j] == s[j - 1]);
        }
    }
}

/// Sorting yields a sorted sequence.
pub proof fn lemma_stable_sorted_is_sorted<T: Item>(s: Seq<T>)
    ensures
        sorted(stable_sorted(s)),
    decreases s.len(),
{
    if s.len() > 0 {
        lemma_stable_sorted_is_sorted(s.drop_first());
        lemma_insert_keeps_sorted(stable_sorted(s.drop_first()), s[0]);
    }
}

/// Sorting keeps every item, as often as it occurred.
pub proof fn lemma_stable_sorted_permutes<T: Item>(s: Seq<T>)
    ensures
        stable_sorted(s).to_multiset() == s.to_multiset(),
        stable_sorted(s).len() == s.len(),
    decreases s.len(),
{
    broadcast use vstd::seq_lib::group_to_multiset_ensures;

    if s.len() > 0 {
        let t = s.drop_first();
        let rest = stable_sorted(t);
        lemma_stable_sorted_permutes(t);
        lemma_insertion_point_meaning(rest, s[0]);
        let p = insertion_point(rest, s[0]);
        vstd::seq_lib::to_multiset_insert(rest, p, s[0]);
        assert(s =~= seq![s[0]] + t);
        assert(s =~= t.insert(0, s[0]));
        vstd::seq_lib::to_multiset_insert(t, 0, s[0]);
    }
}

/// Sorting is stable: the items of any one rank come out in the order in
/// which they went in.
pub proof fn lemma_stable_sorted_is_stable<T: Item>(s: Seq<T>, x: T)
    ensures
        stable_sorted(s).filter(ranked_as(x)) == s.filter(ranked_as(x)),
    decreases s.len(),
{
    if s.len() > 0 {
        let t = s.drop_first();
        let rest = stable_sorted(t);
        let first = seq![s[0]];
        lemma_stable_sorted_is_stable(t, x);
        lemma_insertion_point_meaning(rest, s[0]);
        let p = insertion_point(rest, s[0]);
        let head = rest.take(p);
        let tail = rest.skip(p);
        let test = ranked_as(x);
        assert(rest.insert(p, s[0]) =~= (head + first) + tail);
        assert(rest =~= head + tail);
        assert(s =~= first + t);
        Seq::filter_distributes_over_add(head + first, tail, test);
        Seq::filter_distributes_over_add(head, first, test);
        Seq::filter_distributes_over_add(head, tail, test);
        Seq::filter_distributes_over_add(first, t, test);
        if test(s[0]) {
            assert(head.filter(test).len() == 0) by {
                if head.filter(test).len() > 0 {
                    let h = head.filter(test)[0];
                    head.lemma_filter_pred(test, 0);
                    head.lemma_filter_contains_rev(test, h);
                    let k = choose|k: int| 0 <= k < head.len() && head[k] == h;
                    assert(head[k] == rest[k]);
                    assert(!s[0].not_after(&rest[k]));
                    T::lemma_order_transitive(&s[0], &x, &h);
                }
            }
            assert(head.filter(test) =~= Seq::<T>::empty());
            assert(head.filter(test) + first.filter(test) =~= first.filter(test));
            assert(head.filter(test) + tail.filter(test) =~= tail.filter(test));
        } else {
            assert(first.filter(test) =~= Seq::<T>::empty()) by {
                reveal_with_fuel(Seq::filter, 2);
                assert(first.drop_last() =~= Seq::<T>::empty());
            }
            assert(head.filter(test) + first.filter(test) =~= head.filter(test));
            assert(first.filter(test) + t.filter(test) =~= t.filter(test));
        }
    }
}

/// Sorting keeps identifiers distinct.
pub proof fn lemma_stable_sorted_keeps_distinct<T: Item>(s: Seq<T>)
    requires
        distinct_ids(s),
    ensures
        distinct_ids(stable_sorted(s)),
    decreases s.len(),
{
    if s.len() > 0 {
        let t = s.drop_first();
        assert(distinct_ids(t)) by {
            assert forall|i: int, j: int| 0 <= i < j < t.len() implies (#[trigger] t[i]).id()
                != (#[trigger] t[j]).id() by {
                assert(t[i] == s[i + 1] && t[j] == s[j + 1]);
            }
        }
        lemma_stable_sorted_keeps_distinct(t);
        lemma_stable_sorted_permutes(t);
        let rest = stable_sorted(t);
        lemma_insertion_point_meaning(rest, s[0]);
        let p = insertion_point(rest, s[0]);
        let r = rest.insert(p, s[0]);
        assert forall|i: int| 0 <= i < rest.len() implies (#[trigger] rest[i]).id() != s[0].id() by {
            vstd::seq_lib::to_multiset_contains(rest, rest[i]);
            vstd::seq_lib::to_multiset_contains(t, rest[i]);
            assert(rest.contains(rest[i]));
            let k = choose|k: int| 0 <= k < t.len() && t[k] == rest[i];
            assert(t[k] == s[k + 1]);
        }
        assert forall|a: int, b: int| 0 <= a < b < r.len() implies (#[trigger] r[a]).id()
            != (#[trigger] r[b]).id() by {
            let ia = if a < p { a } else { a - 1 };
            let ib = if b < p { b } else { b - 1 };
            if a == p {
                assert(r[b] == rest[ib]);
            } else if b == p {
                assert(r[a] == rest[ia]);
            } else {
                assert(r[a] == rest[ia]);
                assert(r[b] == rest[ib]);
            }
        }
    }
}

/// Sorting a sorted sequence changes nothing.
pub proof fn lemma_stable_sorted_fixes_sorted<T: Item>(s: Seq<T>)
    requires
        sorted(s),
    ensures
        stable_sorted(s) == s,
    decreases s.len(),
{
    if s.len() > 0 {
        let t = s.drop_first();
        assert(sorted(t)) by {
            assert forall|i: int, j: int| 0 <= i < j < t.len() implies #[trigger] t[i].not_after(
                &t[j],
            ) by {
                assert(s[i + 1].not_after(&s[j + 1]));
            }
        }
        lemma_stable_sorted_fixes_sorted(t);
        if t.len() > 0 {
            assert(t[0] == s[1]);
            assert(s[0].not_after(&s[1]));
        }
        assert(insertion_point(t, s[0]) == 0);
        assert(t.insert(0, s[0]) =~= s);
    }
}

/// Whether `a` is strictly before `b`: whether `b` is after `a`.
fn strictly_before<T: Item>(a: &T, b: &T) -> (before: bool)
    ensures
        before == !b.not_after(a),
{
    match a.vec_order(b) {
        Ordering::Less => true,
        _ => false,
    }
}

/// The first place at which `other` can stand among `items` without breaking
/// the order, found by halving; among items that are not sorted, some place.
fn search<T: Item>(items: &Vec<T>, other: &T) -> (at: usize)
    ensures
        at <= items@.len(),
        sorted(items@) ==> at == insertion_point(items@, *other),
{
    let mut lo: usize = 0;
    let mut hi: usize = items.len();
    while lo < hi
        invariant
            lo <= hi <= items@.len(),
            sorted(items@) ==> forall|i: int| 0 <= i < lo ==> !other.not_after(&#[trigger] items@[i]),
            sorted(items@) ==> forall|i: int|
                hi <= i < items@.len() ==> other.not_after(&#[trigger] items@[i]),
        decreases hi - lo,
    {
        let mid = lo + (hi - lo) / 2;
        let ghost s = items@;
        if strictly_before(&items[mid], other) {
            proof {
                if sorted(s) {
                    assert forall|i: int| 0 <= i < mid + 1 implies !other.not_after(
                        &#[trigger] s[i],
                    ) by {
                        if i < mid && other.not_after(&s[i]) {
                            assert(s[i].not_after(&s[mid as int]));
                            T::lemma_order_transitive(other, &s[i], &s[mid as int]);
                        }
                    }
                }
            }
            lo = mid + 1;
        } else {
            proof {
                if sorted(s) {
                    assert forall|i: int| mid <= i < s.len() implies other.not_after(
                        &#[trigger] s[i],
                    ) by {
                        if mid < i {
                            assert(s[mid as int].not_after(&s[i]));
                            T::lemma_order_transitive(other, &s[mid as int], &s[i]);
                        }
                    }
                }
            }
            hi = mid;
        }
    }
    proof {
        if sorted(items@) {
            lemma_insertion_point_unique(items@, *other, lo as int);
        }
    }
    lo
}

/// A collection of items in their order, found again by identifier.
///
/// Its view is the sequence of its items. A collection made from a vector
/// is [`sorted`], and has [`distinct_ids`] if the vector had. An upsert
/// keeps the identifiers distinct: a new item takes the place that the order
/// gives it, and an item whose identifier the collection holds is patched
/// where it stands. A patch that changes the rank of an item can leave the
/// item out of order, until the collection is sorted again.
#[derive(Clone, Debug)]
pub struct OrderedVec<T: Item> {
    data: Vec<T>,
}

impl<T: Item> View for OrderedVec<T> {
    type V = Seq<T>;

    closed spec fn view(&self) -> Seq<T> {
        self.data@
    }
}

impl<T: Item> Default for OrderedVec<T> {
    fn default() -> (v: Self)
        ensures
            v@ == Seq::<T>::empty(),
    {
        OrderedVec { data: Vec::new() }
    }
}

impl<T: Item> OrderedVec<T> {
    /// Where the first item with the identifier `name` stands.
    fn index_of(&self, name: &str) -> (found: Option<usize>)
        ensures
            match found {
                Some(i) => position(self@, name@) == Some(i as int),
                None => position(self@, name@) is None,
            },
    {
        let mut i: usize = 0;
        while i < self.data.len()
            invariant
                i <= self.data@.len(),
                forall|j: int| 0 <= j < i ==> (#[trigger] self.data@[j]).id() != name@,
            decreases self.data@.len() - i,
        {
            if same_text(self.data[i].identifier(), name) {
                proof {
                    lemma_position_first(self@, name@, i as int);
                }
                return Some(i);
            }
            i = i + 1;
        }
        proof {
            lemma_position_none(self@, name@);
        }
        None
    }

    /// The first item whose identifier is `name`.
    pub fn get_by_name(&self, name: &str) -> (found: Option<&T>)
        ensures
            match position(self@, name@) {
                Some(i) => found == Some(&self@[i]),
                None => found is None,
            },
    {
        match self.index_of(name) {
            Some(i) => Some(&self.data[i]),
            None => None,
        }
    }

    /// The first item whose identifier is `name`, to be changed in place.
    fn get_mut_by_name(&mut self, name: &str) -> (found: Option<&mut T>)
        ensures
            match found {
                Some(item) => {
                    &&& position(old(self)@, name@) matches Some(i) && *item == old(self)@[i]
                        && final(self)@ == old(self)@.update(i, *final(item))
                },
                None => position(old(self)@, name@) is None && final(self)@ == old(self)@,
            },
    {
        match self.index_of(name) {
            Some(i) => Some(&mut self.data[i]),
            None => None,
        }
    }

    /// Patches the first item that has the identifier of `other` with the
    /// fields of `other`, where it stands; if there is none, inserts `other`
    /// at its insertion point. In a collection that is not sorted a new item
    /// still goes in once, at a place that the search ends on.
    pub fn upsert(&mut self, other: T)
        ensures
            upsert_result(old(self)@, other, final(self)@),
    {
        if let Some(existing) = self.get_mut_by_name(other.identifier()) {
            existing.patch(other);
            return ;
        }
        let idx = search(&self.data, &other);
        let ghost before = self.data@;
        self.data.insert(idx, other);
        proof {
            assert(self.data@ == before.insert(idx as int, other));
        }
    }

    /// The item at `index`, to be changed in place.
    pub(crate) fn get_mut(&mut self, index: usize) -> (item: Option<&mut T>)
        ensures
            match item {
                Some(it) => index < old(self)@.len() && *it == old(self)@[index as int]
                    && final(self)@ == old(self)@.update(index as int, *final(it)),
                None => index >= old(self)@.len() && final(self)@ == old(self)@,
            },
    {
        if index < self.data.len() {
            Some(&mut self.data[index])
        } else {
            None
        }
    }

    /// The number of items.
    pub fn len(&self) -> (n: usize)
        ensures
            n == self@.len(),
    {
        self.data.len()
    }

    /// Whether the collection holds no item.
    pub fn is_empty(&self) -> (empty: bool)
        ensures
            empty == (self@.len() == 0),
    {
        self.data.is_empty()
    }

    /// The item at `index`, if there is one.
    pub fn get(&self, index: usize) -> (item: Option<&T>)
        ensures
            item == (if index < self@.len() {
                Some(&self@[index as int])
            } else {
                None
            }),
    {
        if index < self.data.len() {
            Some(&self.data[index])
        } else {
            None
        }
    }

    /// An iterator over the items, in their order.
    pub fn iter(&self) -> (items: std::slice::Iter<'_, T>)
        ensures
            vstd::std_specs::slice::into_iter_elts(items) == self@,
    {
        let items = self.data.iter();
        proof {
            broadcast use vstd::std_specs::slice::group_slice_axioms;
        }
        items
    }

    /// Puts the items back in order, items of equal rank staying in the
    /// order in which they stood.
    pub fn force_resort(&mut self)
        ensures
            final(self)@ == stable_sorted(old(self)@),
            sorted(final(self)@),
            final(self)@.to_multiset() == old(self)@.to_multiset(),
            final(self)@.len() == old(self)@.len(),
            distinct_ids(old(self)@) ==> distinct_ids(final(self)@),
    {
        let ghost before = self.data@;
        let mut out: Vec<T> = Vec::new();
        while self.data.len() > 0
            invariant
                self.data@ == before.take(self.data@.len() as int),
                self.data@.len() <= before.len(),
                out@ == stable_sorted(before.skip(self.data@.len() as int)),
            decreases self.data@.len(),
        {
            let ghost n = self.data@.len() as int;
            let x = self.data.pop().unwrap();
            proof {
                let tail = before.skip(n - 1);
                assert(tail.drop_first() =~= before.skip(n));
                assert(tail[0] == x);
                assert(self.data@ =~= before.take(n - 1));
                lemma_stable_sorted_is_sorted(before.skip(n));
            }
            let at = search(&out, &x);
            out.insert(at, x);
        }
        proof {
            assert(before.skip(0) =~= before);
            lemma_stable_sorted_is_sorted(before);
            lemma_stable_sorted_permutes(before);
            if distinct_ids(before) {
                lemma_stable_sorted_keeps_distinct(before);
            }
        }
        self.data = out;
    }
}

impl<T: Item> From<Vec<T>> for OrderedVec<T> {
    /// The items of `value`, put in order.
    fn from(value: Vec<T>) -> (v: Self)
        ensures
            v@ == stable_sorted(value@),
            sorted(v@),
            v@.to_multiset() == value@.to_multiset(),
            v@.len() == value@.len(),
            distinct_ids(value@) ==> distinct_ids(v@),
    {
        let mut v = OrderedVec { data: value };
        v.force_resort();
        v
    }
}

impl<T: Item> vstd::std_specs::convert::FromSpecImpl<Vec<T>> for OrderedVec<T> {
    open spec fn obeys_from_spec() -> bool {
        false
    }

    open spec fn from_spec(v: Vec<T>) -> Self {
        arbitrary()
    }
}

/// An upsert never makes two items share an identifier.
pub proof fn lemma_upsert_keeps_distinct<T: Item>(before: Seq<T>, x: T, after: Seq<T>)
    requires
        distinct_ids(before),
        upsert_result(before, x, after),
    ensures
        distinct_ids(after),
{
    lemma_position_meaning(before, x.id());
    match position(before, x.id()) {
        Some(i) => {
            T::lemma_patched_id(&before[i], &x);
            assert forall|a: int, b: int| 0 <= a < b < after.len() implies (#[trigger] after[a]).id()
                != (#[trigger] after[b]).id() by {
                assert(after[a].id() == before[a].id());
                assert(after[b].id() == before[b].id());
            }
        },
        None => {
            let at = choose|at: int|
                {
                    &&& 0 <= at <= before.len()
                    &&& after == #[trigger] before.insert(at, x)
                    &&& sorted(before) ==> at == insertion_point(before, x)
                };
            assert forall|a: int, b: int| 0 <= a < b < after.len() implies (#[trigger] after[a]).id()
                != (#[trigger] after[b]).id() by {
                let ia = if a < at { a } else { a - 1 };
                let ib = if b < at { b } else { b - 1 };
                if a == at {
                    assert(after[b] == before[ib]);
                } else if b == at {
                    assert(after[a] == before[ia]);
                } else {
                    assert(after[a] == before[ia]);
                    assert(after[b] == before[ib]);
                }
            }
        },
    }
}

/// An upsert into a sorted collection leaves it sorted, when the item is
/// new, or when what it patches still fits between its neighbours.
pub proof fn lemma_upsert_keeps_sorted<T: Item>(before: Seq<T>, x: T, after: Seq<T>)
    requires
        sorted(before),
        upsert_result(before, x, after),
        position(before, x.id()) matches Some(i) ==> fits_at(before, i, before[i].patched(&x)),
    ensures
        sorted(after),
{
    lemma_position_meaning(before, x.id());
    match position(before, x.id()) {
        Some(i) => {
            let p = before[i].patched(&x);
            assert forall|a: int, b: int| 0 <= a < b < after.len() implies #[trigger] after[a].not_after(
                &after[b],
            ) by {
                if a == i {
                    if b > i + 1 {
                        assert(before[i + 1].not_after(&before[b]));
                        T::lemma_order_transitive(&p, &before[i + 1], &before[b]);
                    }
                } else if b == i {
                    if a < i - 1 {
                        assert(before[a].not_after(&before[i - 1]));
                        T::lemma_order_transitive(&before[a], &before[i - 1], &p);
                    }
                } else {
                    assert(before[a].not_after(&before[b]));
                }
            }
        },
        None => {
            lemma_insert_keeps_sorted(before, x);
        },
    }
}

/// An upsert of an item with a new identifier adds that item once and keeps
/// every other; one of an item with a known identifier keeps the length.
pub proof fn lemma_upsert_counts<T: Item>(before: Seq<T>, x: T, after: Seq<T>)
    requires
        upsert_result(before, x, after),
    ensures
        position(before, x.id()) is None ==> after.len() == before.len() + 1
            && after.to_multiset() == before.to_multiset().insert(x),
        position(before, x.id()) is Some ==> after.len() == before.len(),
{
    lemma_position_meaning(before, x.id());
    if position(before, x.id()) is None {
        let at = choose|at: int|
            {
                &&& 0 <= at <= before.len()
                &&& after == #[trigger] before.insert(at, x)
                &&& sorted(before) ==> at == insertion_point(before, x)
            };
        vstd::seq_lib::to_multiset_insert(before, at, x);
    }
}

} // verus!
