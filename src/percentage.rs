use vstd::prelude::*;

use rand::rngs::StdRng;

use crate::random::draw_bits;
use crate::rate::{SampleRate, DRAW_SCALE};

verus! {

/// Whether the 64-bit draw `raw` keeps a record at `rate`: its top 53 bits,
/// read as a fraction of `DRAW_SCALE`, fall below the rate.
pub open spec fn keeps(rate: SampleRate, raw: u64) -> bool {
    rate.admits((raw / 2048) as nat, DRAW_SCALE as nat)
}

/// The records of `items` that percentage sampling keeps when record `i`
/// is decided by `draws[i]`; a record without a draw is dropped.
pub open spec fn bernoulli_after<T>(items: Seq<T>, rate: SampleRate, draws: Seq<u64>) -> Seq<T>
    decreases items.len(),
{
    if items.len() == 0 {
        Seq::empty()
    } else {
        let prev = bernoulli_after(items.drop_last(), rate, draws);
        let i = items.len() - 1;
        if i < draws.len() && keeps(rate, draws[i]) {
            prev.push(items.last())
        } else {
            prev
        }
    }
}

/// Percentage sampling is reproducible: two runs over the same records whose
/// draws agree for every record keep the same records.
pub proof fn lemma_sample_reproducible<T>(
    items: Seq<T>,
    rate: SampleRate,
    first: Seq<u64>,
    second: Seq<u64>,
)
    requires
        items.len() <= first.len(),
        items.len() <= second.len(),
        forall|i: int| #![trigger first[i]] 0 <= i < items.len() ==> first[i] == second[i],
    ensures
        bernoulli_after(items, rate, first) == bernoulli_after(items, rate, second),
    decreases items.len(),
{
    if items.len() > 0 {
        lemma_sample_reproducible(items.drop_last(), rate, first, second);
    }
}

/// The input positions of the records that `bernoulli_after` keeps.
pub open spec fn kept_positions(n: nat, rate: SampleRate, draws: Seq<u64>) -> Seq<int>
    decreases n,
{
    if n == 0 {
        Seq::empty()
    } else {
        let prev = kept_positions((n - 1) as nat, rate, draws);
        let i = n - 1;
        if i < draws.len() && keeps(rate, draws[i]) {
            prev.push(i)
        } else {
            prev
        }
    }
}

/// `out` is a subsequence of `items`: items at strictly increasing positions.
pub open spec fn ordered_picks<T>(out: Seq<T>, items: Seq<T>) -> bool {
    exists|idx: Seq<int>|
        {
            &&& idx.len() == out.len()
            &&& forall|m: int|
                0 <= m < idx.len() ==> 0 <= #[trigger] idx[m] < items.len() && out[m] == items[idx[m]]
            &&& forall|a: int, b: int| 0 <= a < b < idx.len() ==> idx[a] < idx[b]
        }
}

/// The kept positions increase and lie below `n`, and the kept records are
/// the records at those positions.
proof fn lemma_kept_positions<T>(items: Seq<T>, rate: SampleRate, draws: Seq<u64>)
    ensures
        bernoulli_after(items, rate, draws).len() == kept_positions(items.len(), rate, draws).len(),
        forall|m: int|
            0 <= m < kept_positions(items.len(), rate, draws).len() ==> 0
                <= #[trigger] kept_positions(items.len(), rate, draws)[m] < items.len()
                && bernoulli_after(items, rate, draws)[m] == items[kept_positions(
                items.len(),
                rate,
                draws,
            )[m]],
        forall|a: int, b: int|
            0 <= a < b < kept_positions(items.len(), rate, draws).len() ==> kept_positions(
                items.len(),
                rate,
                draws,
            )[a] < kept_positions(items.len(), rate, draws)[b],
    decreases items.len(),
{
    if items.len() > 0 {
        let init = items.drop_last();
        lemma_kept_positions(init, rate, draws);
        let prev = kept_positions(init.len(), rate, draws);
        assert forall|m: int| 0 <= m < prev.len() implies init[prev[m]] == items[prev[m]] by {}
    }
}

/// Percentage sampling keeps a subsequence of its input, in input order.
pub proof fn lemma_keeps_order<T>(items: Seq<T>, rate: SampleRate, draws: Seq<u64>)
    ensures
        ordered_picks(bernoulli_after(items, rate, draws), items),
{
    lemma_kept_positions(items, rate, draws);
    let idx = kept_positions(items.len(), rate, draws);
    let out = bernoulli_after(items, rate, draws);
    assert(forall|m: int| 0 <= m < idx.len() ==> 0 <= #[trigger] idx[m] < items.len() && out[m] == items[idx[m]]);
}

/// At probability zero nothing is kept.
pub proof fn lemma_rate_zero_keeps_nothing<T>(items: Seq<T>, rate: SampleRate, draws: Seq<u64>)
    requires
        rate.spec_threshold() == 0,
    ensures
        bernoulli_after(items, rate, draws) == Seq::<T>::empty(),
    decreases items.len(),
{
    if items.len() > 0 {
        lemma_rate_zero_keeps_nothing(items.drop_last(), rate, draws);
    }
}

/// At probability one every record with a draw is kept.
pub proof fn lemma_rate_one_keeps_all<T>(items: Seq<T>, rate: SampleRate, draws: Seq<u64>)
    requires
        rate.spec_threshold() == DRAW_SCALE,
        draws.len() >= items.len(),
    ensures
        bernoulli_after(items, rate, draws) == items,
    decreases items.len(),
{
    if items.len() > 0 {
        lemma_rate_one_keeps_all(items.drop_last(), rate, draws);
        let raw = draws[items.len() - 1];
        assert(raw / 2048 < DRAW_SCALE);
        assert(keeps(rate, raw)) by (nonlinear_arith)
            requires
                raw / 2048 < DRAW_SCALE,
                rate.spec_threshold() == DRAW_SCALE,
        {}
        assert(items.drop_last().push(items.last()) =~= items);
    }
}

/// Percentage sampling over a stream: each record offered is kept on its own
/// draw, independently of every other, with the probability of the rate.
pub struct PercentageSampleIter {
    rng: StdRng,
    rate: SampleRate,
    draws: Ghost<Seq<u64>>,
}

impl PercentageSampleIter {
    /// The probability with which each record is kept.
    pub closed spec fn spec_rate(&self) -> SampleRate {
        self.rate
    }

    /// The draw made for each record offered so far, in order.
    pub closed spec fn draws(&self) -> Seq<u64> {
        self.draws@
    }

    /// A sampler that keeps each record with probability `rate`, drawing
    /// from `rng`.
    pub fn new(rate: SampleRate, rng: StdRng) -> (r: PercentageSampleIter)
        ensures
            r.spec_rate() == rate,
            r.draws() == Seq::<u64>::empty(),
    {
        PercentageSampleIter { rng, rate, draws: Ghost(Seq::empty()) }
    }

    /// The probability with which each record is kept.
    pub fn rate(&self) -> (r: SampleRate)
        ensures
            r == self.spec_rate(),
    {
        self.rate
    }

    /// Decides the next record on one fresh draw: hands it back when kept.
    pub fn offer<T>(&mut self, item: T) -> (r: Option<T>)
        ensures
            final(self).spec_rate() == old(self).spec_rate(),
            final(self).draws().len() == old(self).draws().len() + 1,
            final(self).draws() == old(self).draws().push(final(self).draws().last()),
            r == if keeps(old(self).spec_rate(), final(self).draws().last()) {
                Some(item)
            } else {
                None::<T>
            },
    {
        let raw: u64 = draw_bits(&mut self.rng);
        self.draws = Ghost(self.draws@.push(raw));
        if self.rate.admits_draw(raw) {
            Some(item)
        } else {
            None
        }
    }
}

/// Percentage sampling of `items`: each is kept independently with
/// probability `rate`, and the kept ones come out in input order. Nothing is
/// kept at probability zero, and everything at probability one.
pub fn percentage_sample_iter<T>(items: Vec<T>, rate: SampleRate, rng: StdRng) -> (r: Vec<T>)
    ensures
        exists|draws: Seq<u64>|
            {
                &&& draws.len() == items.len()
                &&& r@ == bernoulli_after(items@, rate, draws)
            },
        ordered_picks(r@, items@),
        rate.spec_threshold() == 0 ==> r@ == Seq::<T>::empty(),
        rate.spec_threshold() == DRAW_SCALE ==> r@ == items@,
{
    let ghost all = items@;
    let mut sampler = PercentageSampleIter::new(rate, rng);
    let mut kept: Vec<T> = Vec::new();
    for item in it: items
        invariant
            it.seq() == all,
            sampler.spec_rate() == rate,
            sampler.draws().len() == it.index(),
            kept@ == bernoulli_after(all.take(it.index() as int), rate, sampler.draws()),
    {
        let ghost before = sampler.draws();
        let ghost done = all.take(it.index() as int);
        let ghost next = all.take(it.index() + 1);
        let chosen = sampler.offer(item);
        proof {
            lemma_sample_reproducible(done, rate, before, sampler.draws());
            assert(next.drop_last() =~= done);
        }
        match chosen {
            Some(x) => kept.push(x),
            None => {},
        }
    }
    let ghost draws = sampler.draws();
    proof {
        assert(all.take(all.len() as int) =~= all);
        lemma_keeps_order(all, rate, draws);
        if rate.spec_threshold() == 0 {
            lemma_rate_zero_keeps_nothing(all, rate, draws);
        }
        if rate.spec_threshold() == DRAW_SCALE {
            lemma_rate_one_keeps_all(all, rate, draws);
        }
    }
    kept
}

} // verus!
