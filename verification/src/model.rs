use vstd::prelude::*;

verus! {

// The program emitted for a record with k members gives its builder one
// optional slot per member, setters that store into a slot, and a `build`
// operation that either reports the first absent slot in declaration order or
// clones every present value out into a fresh record. This module states that
// behavior over a builder whose k slots hold plain values, and proves the
// laws the emitted operations obey.

/// The slots of a fresh builder: one absent slot per member.
pub open spec fn all_absent<V>(k: nat) -> Seq<Option<V>> {
    Seq::new(k, |i: int| None)
}

/// The slots after a sequence of setter calls, each a pair of the slot index
/// and the value stored there, applied in call order.
pub open spec fn apply_setters<V>(s: Seq<Option<V>>, calls: Seq<(int, V)>) -> Seq<Option<V>>
    decreases calls.len(),
{
    if calls.len() == 0 {
        s
    } else {
        apply_setters(s, calls.drop_last()).update(calls.last().0, Some(calls.last().1))
    }
}

/// The first absent slot at or after position `i`, if any.
pub open spec fn first_absent_from<V>(s: Seq<Option<V>>, i: int) -> Option<int>
    decreases s.len() - i,
{
    if i < 0 || i >= s.len() {
        None
    } else if s[i] is None {
        Some(i)
    } else {
        first_absent_from(s, i + 1)
    }
}

/// The first absent slot in declaration order, if any.
pub open spec fn first_absent<V>(s: Seq<Option<V>>) -> Option<int> {
    first_absent_from(s, 0)
}

/// The record members a successful `build` constructs: each slot's value.
pub open spec fn built_values<V>(s: Seq<Option<V>>) -> Seq<V> {
    Seq::new(s.len(), |i: int| s[i].unwrap())
}

/// What `build` returns on the given slots: the values if every slot is
/// present, else the index of the first absent slot in declaration order.
pub open spec fn build_outcome<V>(s: Seq<Option<V>>) -> Result<Seq<V>, int> {
    match first_absent(s) {
        None => Ok(built_values(s)),
        Some(j) => Err(j),
    }
}

/// Whether some setter call stores into slot `i`.
pub open spec fn covered<V>(calls: Seq<(int, V)>, i: int) -> bool {
    exists|p: int| 0 <= p < calls.len() && (#[trigger] calls[p]).0 == i
}

/// The value of the last setter call that stores into slot `i`, if any.
pub open spec fn last_write<V>(calls: Seq<(int, V)>, i: int) -> Option<V>
    decreases calls.len(),
{
    if calls.len() == 0 {
        None
    } else if calls.last().0 == i {
        Some(calls.last().1)
    } else {
        last_write(calls.drop_last(), i)
    }
}

/// A builder instance for a record with a fixed number of members: one
/// optional slot per member, in declaration order.
pub struct BuilderState<V> {
    pub slots: Vec<Option<V>>,
}

impl<V: Copy> BuilderState<V> {
    /// What `builder()` returns: a builder in which every slot is absent.
    pub fn new_builder(k: usize) -> (b: Self)
        ensures
            b.slots@ == all_absent::<V>(k as nat),
    {
        let mut slots: Vec<Option<V>> = Vec::new();
        let mut i: usize = 0;
        while i < k
            invariant
                i <= k,
                slots@ == all_absent::<V>(i as nat),
            decreases k - i,
        {
            slots.push(None);
            proof {
                assert(all_absent::<V>((i + 1) as nat) =~= all_absent::<V>(i as nat).push(None));
            }
            i = i + 1;
        }
        BuilderState { slots }
    }

    /// A setter: stores the given value in slot `i`, overwriting any prior
    /// value, and leaves every other slot as it was.
    pub fn set(&mut self, i: usize, v: V)
        requires
            i < old(self).slots@.len(),
        ensures
            final(self).slots@ == old(self).slots@.update(i as int, Some(v)),
    {
        self.slots.set(i, Some(v));
    }

    /// The terminal `build`: fails with the index of the first absent slot in
    /// declaration order, else succeeds with every slot's value. The builder
    /// is left exactly as it was, so a later `build` on the untouched builder
    /// returns the same outcome.
    pub fn build(&mut self) -> (r: Result<Vec<V>, usize>)
        ensures
            *final(self) == *old(self),
            (r matches Ok(vals) ==> first_absent(old(self).slots@) is None && vals@
                == built_values(old(self).slots@)),
            (r matches Err(j) ==> first_absent(old(self).slots@) == Some(j as int)),
            r is Ok <==> build_outcome(old(self).slots@) is Ok,
    {
        let n = self.slots.len();
        let mut i: usize = 0;
        while i < n
            invariant
                n == self.slots@.len(),
                *self == *old(self),
                i <= n,
                forall|j: int| 0 <= j < i ==> self.slots@[j] is Some,
            decreases n - i,
        {
            if self.slots[i].is_none() {
                proof {
                    lemma_first_absent_at(self.slots@, 0, i as int);
                }
                return Err(i);
            }
            i = i + 1;
        }
        proof {
            lemma_first_absent_none(self.slots@, 0);
        }
        let mut vals: Vec<V> = Vec::new();
        let mut j: usize = 0;
        while j < n
            invariant
                n == self.slots@.len(),
                *self == *old(self),
                j <= n,
                forall|l: int| 0 <= l < n ==> self.slots@[l] is Some,
                vals@ == built_values(self.slots@).subrange(0, j as int),
            decreases n - j,
        {
            let slot = self.slots[j];
            vals.push(slot.unwrap());
            proof {
                assert(built_values(self.slots@).subrange(0, j + 1 as int) =~= built_values(
                    self.slots@,
                ).subrange(0, j as int).push(self.slots@[j as int].unwrap()));
            }
            j = j + 1;
        }
        proof {
            assert(vals@ =~= built_values(self.slots@));
        }
        Ok(vals)
    }
}

/// If every slot in `[l, len)` is present, no absent slot is found from `l`.
proof fn lemma_first_absent_none<V>(s: Seq<Option<V>>, l: int)
    requires
        forall|j: int| l <= j < s.len() ==> s[j] is Some,
    ensures
        first_absent_from(s, l) is None,
    decreases s.len() - l,
{
    if 0 <= l < s.len() {
        lemma_first_absent_none(s, l + 1);
    }
}

/// If slot `i` is absent and every slot in `[l, i)` is present, the first
/// absent slot found from `l` is `i`.
proof fn lemma_first_absent_at<V>(s: Seq<Option<V>>, l: int, i: int)
    requires
        0 <= l <= i < s.len(),
        s[i] is None,
        forall|j: int| l <= j < i ==> s[j] is Some,
    ensures
        first_absent_from(s, l) == Some(i),
    decreases i - l,
{
    if l < i {
        lemma_first_absent_at(s, l + 1, i);
    }
}

/// Law: a fresh builder has one slot per member and every slot is absent.
pub proof fn lemma_fresh_all_absent<V>(k: nat)
    ensures
        all_absent::<V>(k).len() == k,
        forall|i: int| 0 <= i < k ==> all_absent::<V>(k)[i] is None,
{
}

/// Setter calls never change the number of slots.
pub proof fn lemma_apply_setters_len<V>(s: Seq<Option<V>>, calls: Seq<(int, V)>)
    requires
        forall|p: int| 0 <= p < calls.len() ==> 0 <= (#[trigger] calls[p]).0 < s.len(),
    ensures
        apply_setters(s, calls).len() == s.len(),
    decreases calls.len(),
{
    if calls.len() > 0 {
        lemma_apply_setters_len(s, calls.drop_last());
    }
}

/// After a sequence of setter calls a slot holds the value of the last call
/// that stored into it, or its prior content if no call did.
pub proof fn lemma_apply_setters_slot<V>(s: Seq<Option<V>>, calls: Seq<(int, V)>, i: int)
    requires
        0 <= i < s.len(),
        forall|p: int| 0 <= p < calls.len() ==> 0 <= (#[trigger] calls[p]).0 < s.len(),
    ensures
        apply_setters(s, calls)[i] == (match last_write(calls, i) {
            Some(v) => Some(v),
            None => s[i],
        }),
    decreases calls.len(),
{
    lemma_apply_setters_len(s, calls);
    if calls.len() > 0 {
        lemma_apply_setters_slot(s, calls.drop_last(), i);
        lemma_apply_setters_len(s, calls.drop_last());
    }
}

/// A slot receives a last write exactly when some call stores into it.
pub proof fn lemma_last_write_covered<V>(calls: Seq<(int, V)>, i: int)
    ensures
        last_write(calls, i) is Some <==> covered(calls, i),
    decreases calls.len(),
{
    if calls.len() > 0 {
        lemma_last_write_covered(calls.drop_last(), i);
        if calls.last().0 == i {
            assert((calls[calls.len() - 1]).0 == i);
        } else {
            if covered(calls.drop_last(), i) {
                let p = choose|p: int|
                    0 <= p < calls.drop_last().len() && (#[trigger] calls.drop_last()[p]).0 == i;
                assert((calls[p]).0 == i);
            }
            if covered(calls, i) {
                let p = choose|p: int| 0 <= p < calls.len() && (#[trigger] calls[p]).0 == i;
                assert((calls.drop_last()[p]).0 == i);
            }
        }
    }
}

/// If exactly one call stores into slot `i`, the last write there is its value.
pub proof fn lemma_last_write_unique<V>(calls: Seq<(int, V)>, p: int)
    requires
        0 <= p < calls.len(),
        forall|q: int| 0 <= q < calls.len() && q != p ==> (#[trigger] calls[q]).0 != calls[p].0,
    ensures
        last_write(calls, calls[p].0) == Some(calls[p].1),
    decreases calls.len(),
{
    if p < calls.len() - 1 {
        assert((calls[calls.len() - 1]).0 != calls[p].0);
        assert(calls.drop_last()[p] == calls[p]);
        lemma_last_write_unique(calls.drop_last(), p);
    }
}

/// Law: setting every member exactly once, in any order, then building,
/// succeeds, and the built record holds for each member the value its setter
/// call gave.
pub proof fn lemma_build_after_permutation<V>(k: nat, calls: Seq<(int, V)>)
    requires
        forall|p: int| 0 <= p < calls.len() ==> 0 <= (#[trigger] calls[p]).0 < k,
        forall|p: int, q: int|
            0 <= p < calls.len() && 0 <= q < calls.len() && p != q ==> (#[trigger] calls[p]).0 != (
            #[trigger] calls[q]).0,
        forall|i: int| 0 <= i < k ==> covered(calls, i),
    ensures
        build_outcome(apply_setters(all_absent::<V>(k), calls)) is Ok,
        forall|p: int|
            0 <= p < calls.len() ==> build_outcome(
                apply_setters(all_absent::<V>(k), calls),
            )->Ok_0[(#[trigger] calls[p]).0] == calls[p].1,
{
    let s0 = all_absent::<V>(k);
    let s1 = apply_setters(s0, calls);
    lemma_apply_setters_len(s0, calls);
    assert forall|i: int| 0 <= i < k implies s1[i] is Some by {
        lemma_apply_setters_slot(s0, calls, i);
        lemma_last_write_covered(calls, i);
    }
    lemma_first_absent_none(s1, 0);
    assert forall|p: int| 0 <= p < calls.len() implies s1[(#[trigger] calls[p]).0] == Some(
        calls[p].1,
    ) by {
        lemma_last_write_unique(calls, p);
        lemma_apply_setters_slot(s0, calls, calls[p].0);
    }
}

/// Law: if some member in `0..k` was never set, `build` fails, and the failing
/// member is the first unset one in declaration order.
pub proof fn lemma_build_missing_member<V>(k: nat, calls: Seq<(int, V)>, j: int)
    requires
        forall|p: int| 0 <= p < calls.len() ==> 0 <= (#[trigger] calls[p]).0 < k,
        0 <= j < k,
        !covered(calls, j),
        forall|i: int| 0 <= i < j ==> covered(calls, i),
    ensures
        build_outcome(apply_setters(all_absent::<V>(k), calls)) == Result::<Seq<V>, int>::Err(j),
{
    let s0 = all_absent::<V>(k);
    let s1 = apply_setters(s0, calls);
    lemma_apply_setters_len(s0, calls);
    assert forall|i: int| 0 <= i < j implies s1[i] is Some by {
        lemma_apply_setters_slot(s0, calls, i);
        lemma_last_write_covered(calls, i);
    }
    lemma_apply_setters_slot(s0, calls, j);
    lemma_last_write_covered(calls, j);
    assert(s1[j] is None);
    lemma_first_absent_at(s1, 0, j);
}

/// Law: a successful `build` carries exactly the slots' values; since `build`
/// leaves the builder unchanged, building again returns the same success.
pub proof fn lemma_build_reusable<V>(s: Seq<Option<V>>)
    requires
        build_outcome::<V>(s) is Ok,
    ensures
        build_outcome::<V>(s) == Result::<Seq<V>, int>::Ok(built_values(s)),
{
}

/// Law: storing into the same slot twice is storing the second value once;
/// the earlier value is overwritten without trace.
pub proof fn lemma_overwrite<V>(s: Seq<Option<V>>, pre: Seq<(int, V)>, i: int, v: V, w: V)
    requires
        0 <= i < s.len(),
        forall|p: int| 0 <= p < pre.len() ==> 0 <= (#[trigger] pre[p]).0 < s.len(),
    ensures
        apply_setters(s, pre.push((i, v)).push((i, w))) == apply_setters(s, pre.push((i, w))),
        apply_setters(s, pre.push((i, v)).push((i, w)))[i] == Some(w),
{
    let a = apply_setters(s, pre);
    lemma_apply_setters_len(s, pre);
    assert(pre.push((i, v)).push((i, w)).drop_last() =~= pre.push((i, v)));
    assert(pre.push((i, v)).drop_last() =~= pre);
    assert(pre.push((i, w)).drop_last() =~= pre);
    assert(apply_setters(s, pre.push((i, v))) == a.update(i, Some(v)));
    assert(apply_setters(s, pre.push((i, v)).push((i, w))) == a.update(i, Some(v)).update(
        i,
        Some(w),
    ));
    assert(apply_setters(s, pre.push((i, w))) == a.update(i, Some(w)));
    assert(a.update(i, Some(v)).update(i, Some(w)) =~= a.update(i, Some(w)));
}

} // verus!
