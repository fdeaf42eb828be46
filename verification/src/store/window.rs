//! Sliding windows of samples.

use crate::duration::{elapsed, since};
use crate::store::types::{sample_views, LabeledSample, SampleView};
use std::collections::VecDeque;
use vstd::prelude::*;

verus! {

/// Sliding window of the samples of one metric of one pod, the oldest first.
#[derive(Debug)]
pub struct MetricWindow {
    /// The samples, the oldest first
    pub samples: VecDeque<LabeledSample>,
    /// Maximum number of samples to retain
    pub max_samples: usize,
}

/// The samples of a window and how many it retains.
pub struct WindowView {
    pub samples: Seq<SampleView>,
    pub max_samples: nat,
}

impl WindowView {
    /// A window without samples.
    pub open spec fn empty(max_samples: nat) -> WindowView {
        WindowView { samples: Seq::empty(), max_samples }
    }

    /// The window once a sample was added, and the oldest dropped where it was full.
    pub open spec fn pushed(self, sample: SampleView) -> WindowView {
        let kept = if self.samples.len() >= self.max_samples && self.samples.len() > 0 {
            self.samples.drop_first()
        } else {
            self.samples
        };
        WindowView { samples: kept.push(sample), max_samples: self.max_samples }
    }

    /// The samples that are no older than `period`.
    pub open spec fn recent(self, period: u128, now: u64) -> Seq<SampleView> {
        self.samples.filter(|s: SampleView| elapsed(now, s.scraped_at) <= period)
    }

    /// Whether there are samples and the newest is older than `max_age`.
    pub open spec fn stale(self, max_age: u128, now: u64) -> bool {
        self.samples.len() > 0 && elapsed(now, self.samples.last().scraped_at) > max_age
    }
}

impl View for MetricWindow {
    type V = WindowView;

    open spec fn view(&self) -> WindowView {
        WindowView { samples: sample_views(self.samples@), max_samples: self.max_samples as nat }
    }
}

/// The samples behind a list of references.
pub open spec fn behind(refs: Seq<&LabeledSample>) -> Seq<SampleView> {
    refs.map_values(|s: &LabeledSample| (*s)@)
}

impl MetricWindow {
    /// Creates a window without samples.
    pub fn new(max_samples: usize) -> (r: MetricWindow)
        ensures
            r@ == WindowView::empty(max_samples as nat),
    {
        let r = MetricWindow { samples: VecDeque::new(), max_samples };
        assert(r@.samples =~= seq![]);
        r
    }

    /// Adds a sample, dropping the oldest where the window is full.
    pub fn push(&mut self, sample: LabeledSample)
        ensures
            final(self)@ == old(self)@.pushed(sample@),
    {
        if self.samples.len() >= self.max_samples {
            let dropped = self.samples.pop_front();
            assert(dropped is Some ==> self@.samples =~= old(self)@.samples.drop_first());
        }
        let ghost kept = self@.samples;
        self.samples.push_back(sample);
        assert(self@.samples =~= kept.push(sample@));
    }

    /// The age of the newest sample, where there is one.
    pub fn newest_sample_age(&self, now: u64) -> (r: Option<u64>)
        ensures
            match r {
                Some(age) => self@.samples.len() > 0 && age == elapsed(
                    now,
                    self@.samples.last().scraped_at,
                ),
                None => self@.samples.len() == 0,
            },
    {
        let n: usize = self.samples.len();
        if n == 0 {
            None
        } else {
            Some(since(now, self.samples[n - 1].scraped_at))
        }
    }

    /// The samples that are no older than `period`, the oldest first.
    pub fn get_samples_in_period(&self, period: u128, now: u64) -> (r: Vec<&LabeledSample>)
        ensures
            behind(r@) == self@.recent(period, now),
    {
        let ghost keep = |s: SampleView| elapsed(now, s.scraped_at) <= period;
        let ghost all = self@.samples;
        let mut r: Vec<&LabeledSample> = Vec::new();
        let mut i: usize = 0;
        assert(behind(r@) =~= all.take(0).filter(keep));
        while i < self.samples.len()
            invariant
                i <= self.samples@.len(),
                all == sample_views(self.samples@),
                keep == (|s: SampleView| elapsed(now, s.scraped_at) <= period),
                behind(r@) == all.take(i as int).filter(keep),
            decreases self.samples@.len() - i,
        {
            let sample = &self.samples[i];
            let ghost before = r@;
            proof {
                assert(all.take(i + 1).drop_last() =~= all.take(i as int));
                assert(all.take(i + 1).last() == all[i as int]);
                reveal_with_fuel(Seq::filter, 2);
            }
            if since(now, sample.scraped_at) as u128 <= period {
                r.push(sample);
                assert(behind(r@) =~= behind(before).push(sample@));
            }
            i += 1;
        }
        assert(all.take(i as int) =~= all);
        r
    }

    /// Whether at least `min_samples` samples are no older than `period`.
    pub fn is_window_sufficient(&self, period: u128, min_samples: usize, now: u64) -> (r: bool)
        ensures
            r == (self@.recent(period, now).len() >= min_samples),
    {
        let recent = self.get_samples_in_period(period, now);
        assert(behind(recent@).len() == recent@.len());
        recent.len() >= min_samples
    }
}

impl Clone for MetricWindow {
    fn clone(&self) -> (r: MetricWindow)
        ensures
            r@ == self@,
    {
        let mut samples: VecDeque<LabeledSample> = VecDeque::new();
        let mut i: usize = 0;
        assert(sample_views(samples@) =~= sample_views(self.samples@).take(0));
        while i < self.samples.len()
            invariant
                i <= self.samples@.len(),
                sample_views(samples@) == sample_views(self.samples@).take(i as int),
            decreases self.samples@.len() - i,
        {
            let ghost before = sample_views(samples@);
            samples.push_back(self.samples[i].clone());
            assert(sample_views(samples@) =~= before.push(self.samples@[i as int]@));
            assert(sample_views(self.samples@).take(i + 1) =~= before.push(
                self.samples@[i as int]@,
            ));
            i += 1;
        }
        assert(sample_views(self.samples@).take(i as int) =~= sample_views(self.samples@));
        MetricWindow { samples, max_samples: self.max_samples }
    }
}

} // verus!
