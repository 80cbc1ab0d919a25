use vstd::prelude::*;

verus! {

/// Sampling of decoder statistics: when collection is on, one decoded sample
/// out of every `stats_period + 1` triggers a report of the sample rate.
#[derive(Debug)]
pub struct SpyStats {
    pub stats_period: usize,
    pub stats_index: usize,
    pub stats_collect: bool,
}

impl SpyStats {
    /// Statistics every 32768 samples, collection off.
    pub fn new() -> (r: Self)
        ensures
            r.stats_period == 32768,
            r.stats_index == 0,
            !r.stats_collect,
    {
        SpyStats { stats_period: 1024 * 32, stats_index: 0, stats_collect: false }
    }

    /// Counts one pull from the decoder, `has_sample` telling whether it gave a
    /// sample; returns whether the sample rate is to be reported now.
    pub fn tick(&mut self, has_sample: bool) -> (report: bool)
        ensures
            final(self).stats_period == old(self).stats_period,
            final(self).stats_collect == old(self).stats_collect,
            (final(self).stats_index, report) == tick_spec(
                old(self).stats_period,
                old(self).stats_collect,
                old(self).stats_index,
                has_sample,
            ),
    {
        let mut report = false;
        if self.stats_collect {
            if self.stats_index >= self.stats_period {
                if has_sample {
                    report = true;
                }
                self.stats_index = 0;
            } else {
                self.stats_index += 1;
            }
        }
        report
    }
}

/// One pull: the next count and whether it reports, for a period and a
/// collection flag.
pub open spec fn tick_spec(period: usize, collect: bool, index: usize, has_sample: bool) -> (usize, bool) {
    if !collect {
        (index, false)
    } else if index >= period {
        (0, has_sample)
    } else {
        ((index + 1) as usize, false)
    }
}

/// A run of pulls: the final count and the reports, in order.
pub open spec fn ticks(period: usize, collect: bool, index: usize, samples: Seq<bool>) -> (usize, Seq<bool>)
    decreases samples.len(),
{
    if samples.len() == 0 {
        (index, Seq::empty())
    } else {
        let (i1, r) = tick_spec(period, collect, index, samples[0]);
        let (i2, rs) = ticks(period, collect, i1, samples.drop_first());
        (i2, seq![r] + rs)
    }
}

proof fn lemma_ticks_quiet(period: usize, index: usize, samples: Seq<bool>)
    requires
        index <= period,
        samples.len() == period - index,
    ensures
        ticks(period, true, index, samples) == (period, Seq::new(samples.len(), |i: int| false)),
    decreases samples.len(),
{
    if samples.len() > 0 {
        lemma_ticks_quiet(period, (index + 1) as usize, samples.drop_first());
        assert(seq![false] + Seq::new(samples.drop_first().len(), |i: int| false) =~= Seq::new(
            samples.len(),
            |i: int| false,
        ));
    } else {
        assert(Seq::<bool>::empty() =~= Seq::new(0, |i: int| false));
    }
}

/// With collection on, the count goes round every `period + 1` pulls: from a
/// count of zero, the first `period` pulls report nothing, the next one
/// reports exactly when it has a sample, and the count is back at zero.
pub proof fn law_stats_cycle(period: usize, samples: Seq<bool>)
    requires
        samples.len() == period + 1,
    ensures
        ticks(period, true, 0, samples) == (
            0usize,
            Seq::new(period as nat, |i: int| false).push(samples.last()),
        ),
{
    let quiet = samples.subrange(0, period as int);
    let last = samples.subrange(period as int, samples.len() as int);
    lemma_ticks_concat(period, true, 0, quiet, last);
    assert(quiet + last =~= samples);
    lemma_ticks_quiet(period, 0, quiet);
    assert(last.drop_first() =~= Seq::<bool>::empty());
    assert(last[0] == samples.last());
    assert(ticks(period, true, 0, last.drop_first()) == (0usize, Seq::<bool>::empty()));
    assert(ticks(period, true, period, last) == (0usize, seq![samples.last()] + Seq::<bool>::empty()));
    assert(Seq::new(quiet.len(), |i: int| false) + (seq![samples.last()] + Seq::<bool>::empty())
        =~= Seq::new(period as nat, |i: int| false).push(samples.last()));
}

/// Pulls split into two runs add up to the pulls of the whole run.
pub proof fn lemma_ticks_concat(period: usize, collect: bool, index: usize, a: Seq<bool>, b: Seq<bool>)
    ensures
        ticks(period, collect, index, a + b) == (
            ticks(period, collect, ticks(period, collect, index, a).0, b).0,
            ticks(period, collect, index, a).1 + ticks(period, collect, ticks(period, collect, index, a).0, b).1,
        ),
    decreases a.len(),
{
    if a.len() == 0 {
        assert(a + b =~= b);
        assert(Seq::<bool>::empty() + ticks(period, collect, index, b).1 =~= ticks(period, collect, index, b).1);
    } else {
        let (i1, r) = tick_spec(period, collect, index, a[0]);
        assert((a + b).drop_first() =~= a.drop_first() + b);
        assert((a + b)[0] == a[0]);
        lemma_ticks_concat(period, collect, i1, a.drop_first(), b);
        let t1 = ticks(period, collect, i1, a.drop_first());
        assert(seq![r] + (t1.1 + ticks(period, collect, t1.0, b).1) =~= (seq![r] + t1.1) + ticks(period, collect, t1.0, b).1);
    }
}


/// With collection off, pulls never report and the count stays put.
pub proof fn law_stats_off(period: usize, index: usize, samples: Seq<bool>)
    ensures
        ticks(period, false, index, samples) == (index, Seq::new(samples.len(), |i: int| false)),
    decreases samples.len(),
{
    if samples.len() > 0 {
        law_stats_off(period, index, samples.drop_first());
        assert(seq![false] + Seq::new(samples.drop_first().len(), |i: int| false) =~= Seq::new(
            samples.len(),
            |i: int| false,
        ));
    } else {
        assert(Seq::<bool>::empty() =~= Seq::new(0, |i: int| false));
    }
}

} // verus!
