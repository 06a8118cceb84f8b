use vstd::prelude::*;

use rand::rngs::StdRng;

use crate::random::draw_below;

verus! {

/// The reservoir of capacity `k` after `items` were offered in order
/// (Algorithm R). The first `k` items fill the slots; item `i >= k` goes to
/// slot `draws[i - k]` when that slot exists, and is dropped otherwise.
pub open spec fn reservoir_after<T>(items: Seq<T>, k: nat, draws: Seq<int>) -> Seq<T>
    decreases items.len(),
{
    if items.len() == 0 {
        Seq::empty()
    } else {
        let prev = reservoir_after(items.drop_last(), k, draws);
        let i = items.len() - 1;
        if i < k {
            prev.push(items.last())
        } else if i - k < draws.len() && 0 <= draws[i - k] < k {
            prev.update(draws[i - k], items.last())
        } else {
            prev
        }
    }
}

/// The input positions that the slots of `reservoir_after` hold, for an
/// input of `n` items.
pub open spec fn reservoir_slots(n: nat, k: nat, draws: Seq<int>) -> Seq<int>
    decreases n,
{
    if n == 0 {
        Seq::empty()
    } else {
        let prev = reservoir_slots((n - 1) as nat, k, draws);
        let i = n - 1;
        if i < k {
            prev.push(i)
        } else if i - k < draws.len() && 0 <= draws[i - k] < k {
            prev.update(draws[i - k], i)
        } else {
            prev
        }
    }
}

/// Each draw is one a generator may give for its item: the draw for the
/// item counted `k + d + 1` lies in `[0, k + d + 1)`.
pub open spec fn draws_in_range(k: nat, draws: Seq<int>) -> bool {
    forall|d: int| 0 <= d < draws.len() ==> 0 <= #[trigger] draws[d] <= k + d
}

/// `out` is made of items at pairwise distinct positions of `items`.
pub open spec fn distinct_picks<T>(out: Seq<T>, items: Seq<T>) -> bool {
    exists|idx: Seq<int>|
        {
            &&& idx.len() == out.len()
            &&& forall|m: int|
                0 <= m < idx.len() ==> 0 <= #[trigger] idx[m] < items.len() && out[m] == items[idx[m]]
            &&& forall|a: int, b: int| 0 <= a < b < idx.len() ==> idx[a] != idx[b]
        }
}

/// Reservoir sampling is reproducible: two passes over the same items whose
/// draws agree for every item that was drawn for give the same reservoir.
pub proof fn lemma_reservoir_reproducible<T>(
    items: Seq<T>,
    k: nat,
    first: Seq<int>,
    second: Seq<int>,
)
    requires
        items.len() <= k + first.len(),
        items.len() <= k + second.len(),
        forall|d: int| #![trigger first[d]] 0 <= d < items.len() - k ==> first[d] == second[d],
    ensures
        reservoir_after(items, k, first) == reservoir_after(items, k, second),
    decreases items.len(),
{
    if items.len() > 0 {
        lemma_reservoir_reproducible(items.drop_last(), k, first, second);
    }
}

/// The slots hold `min(n, k)` distinct positions of the input.
proof fn lemma_slots_distinct(n: nat, k: nat, draws: Seq<int>)
    ensures
        reservoir_slots(n, k, draws).len() == if n <= k { n } else { k },
        forall|m: int|
            0 <= m < reservoir_slots(n, k, draws).len() ==> 0 <= #[trigger] reservoir_slots(
                n,
                k,
                draws,
            )[m] < n,
        forall|a: int, b: int|
            0 <= a < b < reservoir_slots(n, k, draws).len() ==> reservoir_slots(n, k, draws)[a]
                != reservoir_slots(n, k, draws)[b],
    decreases n,
{
    if n > 0 {
        lemma_slots_distinct((n - 1) as nat, k, draws);
    }
}

/// Slot `m` of the reservoir holds the input item at position `reservoir_slots(..)[m]`.
proof fn lemma_slots_hold_items<T>(items: Seq<T>, k: nat, draws: Seq<int>)
    ensures
        reservoir_after(items, k, draws).len() == reservoir_slots(items.len(), k, draws).len(),
        forall|m: int|
            0 <= m < reservoir_after(items, k, draws).len() ==> #[trigger] reservoir_after(
                items,
                k,
                draws,
            )[m] == items[reservoir_slots(items.len(), k, draws)[m]],
    decreases items.len(),
{
    if items.len() > 0 {
        let init = items.drop_last();
        lemma_slots_hold_items(init, k, draws);
        lemma_slots_distinct(init.len(), k, draws);
        let prev_slots = reservoir_slots(init.len(), k, draws);
        assert forall|m: int| 0 <= m < prev_slots.len() implies init[prev_slots[m]]
            == items[prev_slots[m]] by {}
    }
}

/// Offering no more items than the capacity keeps all of them, in order.
pub proof fn lemma_short_input_kept<T>(items: Seq<T>, k: nat, draws: Seq<int>)
    requires
        items.len() <= k,
    ensures
        reservoir_after(items, k, draws) == items,
    decreases items.len(),
{
    if items.len() > 0 {
        lemma_short_input_kept(items.drop_last(), k, draws);
        assert(items.drop_last().push(items.last()) =~= items);
    }
}

/// Offering more items than the capacity fills every slot, each with an
/// item from a different input position.
pub proof fn lemma_long_input_sampled<T>(items: Seq<T>, k: nat, draws: Seq<int>)
    requires
        items.len() > k,
    ensures
        reservoir_after(items, k, draws).len() == k,
        distinct_picks(reservoir_after(items, k, draws), items),
{
    lemma_reservoir_picks(items, k, draws);
}

/// Whatever the draws, the reservoir holds `min(n, k)` items taken from
/// distinct input positions.
pub proof fn lemma_reservoir_picks<T>(items: Seq<T>, k: nat, draws: Seq<int>)
    ensures
        reservoir_after(items, k, draws).len() == if items.len() <= k { items.len() } else { k },
        distinct_picks(reservoir_after(items, k, draws), items),
{
    lemma_slots_distinct(items.len(), k, draws);
    lemma_slots_hold_items(items, k, draws);
    let idx = reservoir_slots(items.len(), k, draws);
    let out = reservoir_after(items, k, draws);
    assert(forall|m: int| 0 <= m < idx.len() ==> 0 <= #[trigger] idx[m] < items.len() && out[m] == items[idx[m]]);
}

/// The state of one reservoir-sampling pass: at most `capacity` retained
/// items and the number of items offered so far.
pub struct Reservoir<T> {
    slots: Vec<T>,
    capacity: usize,
    seen: usize,
    offered: Ghost<Seq<T>>,
    draws: Ghost<Seq<int>>,
}

impl<T> View for Reservoir<T> {
    type V = Seq<T>;

    /// The retained items, in slot order.
    closed spec fn view(&self) -> Seq<T> {
        self.slots@
    }
}

impl<T> Reservoir<T> {
    /// The retained items are those of Algorithm R on what was offered, and
    /// the count matches the items offered.
    pub closed spec fn wf(&self) -> bool {
        &&& self.seen == self.offered@.len()
        &&& self.slots@ == reservoir_after(self.offered@, self.capacity as nat, self.draws@)
        &&& self.draws@.len() == if self.seen <= self.capacity {
            0
        } else {
            self.seen - self.capacity
        }
    }

    /// The largest number of items retained.
    pub closed spec fn spec_capacity(&self) -> nat {
        self.capacity as nat
    }

    /// Every item offered so far, in order.
    pub closed spec fn offered(&self) -> Seq<T> {
        self.offered@
    }

    /// The slot drawn for each offered item beyond the first `capacity`.
    pub closed spec fn draws(&self) -> Seq<int> {
        self.draws@
    }

    /// The retained items are those of Algorithm R on what was offered.
    pub open spec fn follows_model(&self) -> bool {
        &&& self@ == reservoir_after(self.offered(), self.spec_capacity(), self.draws())
        &&& self.draws().len() == if self.offered().len() <= self.spec_capacity() {
            0
        } else {
            self.offered().len() - self.spec_capacity()
        }
    }

    /// An empty reservoir that retains at most `capacity` items.
    pub fn new(capacity: usize) -> (r: Reservoir<T>)
        ensures
            r.spec_capacity() == capacity,
            r.offered() == Seq::<T>::empty(),
            r.draws() == Seq::<int>::empty(),
            r@ == Seq::<T>::empty(),
            r.follows_model(),
            r.wf(),
    {
        Reservoir {
            slots: Vec::new(),
            capacity,
            seen: 0,
            offered: Ghost(Seq::empty()),
            draws: Ghost(Seq::empty()),
        }
    }

    /// The largest number of items retained.
    pub fn capacity(&self) -> (r: usize)
        ensures
            r == self.spec_capacity(),
    {
        self.capacity
    }

    /// The number of items offered so far.
    pub fn seen(&self) -> (r: usize)
        requires
            self.wf(),
        ensures
            r == self.offered().len(),
    {
        self.seen
    }

    /// Offers the next item, given the slot `slot` drawn for it. While the
    /// reservoir is not full the item is appended and `slot` is not used;
    /// afterwards the item replaces slot `slot` if that slot exists, and is
    /// dropped otherwise.
    pub fn offer_with_draw(&mut self, item: T, slot: usize)
        requires
            old(self).wf(),
            old(self).offered().len() < usize::MAX,
        ensures
            final(self).wf(),
            final(self).spec_capacity() == old(self).spec_capacity(),
            final(self).offered() == old(self).offered().push(item),
            old(self).offered().len() < old(self).spec_capacity() ==> {
                &&& final(self).draws() == old(self).draws()
                &&& final(self)@ == old(self)@.push(item)
            },
            old(self).offered().len() >= old(self).spec_capacity() ==> {
                &&& final(self).draws() == old(self).draws().push(slot as int)
                &&& slot < old(self).spec_capacity() ==> final(self)@ == old(self)@.update(
                    slot as int,
                    item,
                )
                &&& slot >= old(self).spec_capacity() ==> final(self)@ == old(self)@
            },
            final(self).follows_model(),
    {
        let ghost offered = self.offered@.push(item);
        let ghost prev = self.offered@;
        assert(offered.drop_last() =~= prev);
        if self.seen < self.capacity {
            self.slots.push(item);
        } else {
            let ghost draws = self.draws@.push(slot as int);
            proof {
                lemma_reservoir_picks(prev, self.capacity as nat, self.draws@);
                lemma_reservoir_reproducible(prev, self.capacity as nat, self.draws@, draws);
            }
            self.draws = Ghost(draws);
            if slot < self.capacity {
                self.slots.set(slot, item);
            }
        }
        self.offered = Ghost(offered);
        self.seen = self.seen + 1;
    }

    /// Offers the next item, drawing its slot from `rng` once the reservoir
    /// is full: the item counted `c` replaces a slot with probability
    /// `capacity / c`.
    pub fn offer(&mut self, item: T, rng: &mut StdRng)
        requires
            old(self).wf(),
            old(self).offered().len() < usize::MAX,
        ensures
            final(self).wf(),
            final(self).spec_capacity() == old(self).spec_capacity(),
            final(self).offered() == old(self).offered().push(item),
            old(self).offered().len() < old(self).spec_capacity() ==> {
                &&& final(self).draws() == old(self).draws()
                &&& final(self)@ == old(self)@.push(item)
            },
            old(self).offered().len() >= old(self).spec_capacity() ==> {
                let slot = final(self).draws().last();
                &&& final(self).draws() == old(self).draws().push(slot)
                &&& 0 <= slot <= old(self).offered().len()
                &&& slot < old(self).spec_capacity() ==> final(self)@ == old(self)@.update(slot, item)
                &&& slot >= old(self).spec_capacity() ==> final(self)@ == old(self)@
            },
            final(self).follows_model(),
    {
        let count: usize = self.seen() + 1;
        let slot: usize = if count <= self.capacity {
            0
        } else {
            draw_below(rng, count)
        };
        self.offer_with_draw(item, slot);
    }

    /// The retained items, in slot order.
    pub fn into_vec(self) -> (r: Vec<T>)
        ensures
            r@ == self@,
    {
        self.slots
    }
}

/// A uniform sample of `min(n, k)` of the `n` given items, without
/// replacement, in one pass that retains at most `k` items (Algorithm R).
/// When `n <= k` the result is the input itself, in its order.
pub fn reservoir_sample<T>(items: Vec<T>, k: usize, rng: &mut StdRng) -> (r: Vec<T>)
    ensures
        r.len() == if items.len() <= k { items.len() } else { k },
        items.len() <= k ==> r@ == items@,
        distinct_picks(r@, items@),
        exists|draws: Seq<int>|
            {
                &&& draws_in_range(k as nat, draws)
                &&& r@ == reservoir_after(items@, k as nat, draws)
            },
{
    let ghost all = items@;
    let n: usize = items.len();
    assert(all.len() == n);
    let mut reservoir: Reservoir<T> = Reservoir::new(k);
    for item in it: items
        invariant
            it.seq() == all,
            all.len() <= usize::MAX,
            reservoir.spec_capacity() == k,
            reservoir.offered() == all.take(it.index() as int),
            reservoir.follows_model(),
            reservoir.wf(),
            draws_in_range(k as nat, reservoir.draws()),
    {
        assert(all.take(it.index() as int).push(item) == all.take(it.index() + 1));
        reservoir.offer(item, rng);
    }
    assert(reservoir.offered() == all);
    let ghost draws = reservoir.draws();
    proof {
        lemma_reservoir_picks(all, k as nat, draws);
        if all.len() <= k {
            lemma_short_input_kept(all, k as nat, draws);
        }
    }
    reservoir.into_vec()
}

} // verus!
