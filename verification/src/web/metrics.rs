//! Recent time series of named metrics for the web API's history queries.
use vstd::prelude::*;

use std::collections::VecDeque;

use crate::script::strings::string_is;

verus! {

/// A time-stamped metric observation.
#[derive(Debug, Clone, Copy)]
pub struct MetricSample<V> {
    pub timestamp_ms: u64,
    pub value: V,
}

/// The samples of the series named `name` in `s`, if there is one.
pub open spec fn series_of<V>(s: Seq<(Seq<char>, Seq<MetricSample<V>>)>, name: Seq<char>) -> Option<Seq<MetricSample<V>>>
    decreases s.len(),
{
    if s.len() == 0 {
        None
    } else if s.last().0 == name {
        Some(s.last().1)
    } else {
        series_of(s.drop_last(), name)
    }
}

/// `h` with `x` appended, dropping the oldest sample first when `h` holds
/// `cap` or more (so a series keeps at least its newest sample).
pub open spec fn push_bounded<V>(h: Seq<MetricSample<V>>, x: MetricSample<V>, cap: nat) -> Seq<MetricSample<V>> {
    if h.len() >= cap && h.len() > 0 {
        h.drop_first().push(x)
    } else {
        h.push(x)
    }
}

/// The samples of `h` stamped at or after `cutoff`, in order.
pub open spec fn samples_since<V>(h: Seq<MetricSample<V>>, cutoff: u64) -> Seq<MetricSample<V>>
    decreases h.len(),
{
    if h.len() == 0 {
        Seq::empty()
    } else if h.last().timestamp_ms >= cutoff {
        samples_since(h.drop_last(), cutoff).push(h.last())
    } else {
        samples_since(h.drop_last(), cutoff)
    }
}

/// The samples within the last `duration_secs` seconds before the newest
/// sample; every sample for a duration of zero.
pub open spec fn window<V>(h: Seq<MetricSample<V>>, duration_secs: u64) -> Seq<MetricSample<V>> {
    if duration_secs == 0 {
        h
    } else if h.len() == 0 {
        Seq::empty()
    } else {
        let latest = h.last().timestamp_ms;
        let cutoff = if latest >= duration_secs * 1000 { (latest - duration_secs * 1000) as u64 } else { 0 };
        samples_since(h, cutoff)
    }
}

/// Stores recent samples of named metrics, at most `capacity` per metric
/// (at least the newest one).
#[derive(Debug)]
pub struct MetricStore<V> {
    series: Vec<(String, VecDeque<MetricSample<V>>)>,
    capacity: usize,
}

/// The view of the stored series.
pub open spec fn series_view<V>(v: Seq<(String, VecDeque<MetricSample<V>>)>) -> Seq<(Seq<char>, Seq<MetricSample<V>>)> {
    v.map_values(|p: (String, VecDeque<MetricSample<V>>)| (p.0@, p.1@))
}

impl<V: Copy> MetricStore<V> {
    /// The stored series: name and samples, oldest first.
    pub closed spec fn spec_series(&self) -> Seq<(Seq<char>, Seq<MetricSample<V>>)> {
        series_view(self.series@)
    }

    /// Samples kept per metric.
    pub closed spec fn spec_capacity(&self) -> nat {
        self.capacity as nat
    }

    /// The samples of metric `name`, if it has any.
    pub open spec fn samples(&self, name: Seq<char>) -> Option<Seq<MetricSample<V>>> {
        series_of(self.spec_series(), name)
    }

    /// A store that keeps up to `capacity` samples per metric.
    pub fn new(capacity: usize) -> (s: Self)
        ensures
            s.spec_capacity() == capacity,
            forall|name: Seq<char>| #[trigger] s.samples(name) is None,
    {
        let s = MetricStore { series: Vec::new(), capacity };
        assert(s.spec_series() =~= Seq::<(Seq<char>, Seq<MetricSample<V>>)>::empty());
        s
    }

    /// Index of the series named `metric`, if there is one; the last one
    /// when several share the name.
    fn find(&self, metric: &str) -> (r: Option<usize>)
        ensures
            match r {
                Some(i) => i < self.series@.len() && self.series@[i as int].0@ == metric@
                    && series_of(self.spec_series(), metric@) == Some(self.series@[i as int].1@)
                    && forall|j: int| i < j < self.series@.len() ==> #[trigger] self.series@[j].0@ != metric@,
                None => series_of(self.spec_series(), metric@) is None,
            },
    {
        let ghost s = self.spec_series();
        let mut i: usize = self.series.len();
        assert(s.take(i as int) =~= s);
        while i > 0
            invariant
                i <= self.series@.len(),
                s == series_view(self.series@),
                series_of(s, metric@) == series_of(s.take(i as int), metric@),
                forall|j: int| i <= j < self.series@.len() ==> #[trigger] self.series@[j].0@ != metric@,
            decreases i,
        {
            let found = string_is(&self.series[i - 1].0, metric);
            proof {
                assert(s.take(i as int).drop_last() =~= s.take(i as int - 1));
            }
            if found {
                return Some(i - 1);
            }
            i = i - 1;
        }
        proof {
            assert(s.take(0) =~= Seq::<(Seq<char>, Seq<MetricSample<V>>)>::empty());
        }
        None
    }

    /// Appends a sample of `metric`, dropping its oldest sample when it
    /// already holds `capacity`. Other metrics are unchanged.
    pub fn push(&mut self, metric: &str, timestamp_ms: u64, value: V)
        ensures
            final(self).spec_capacity() == old(self).spec_capacity(),
            final(self).samples(metric@) == Some(
                push_bounded(
                    match old(self).samples(metric@) {
                        Some(h) => h,
                        None => Seq::empty(),
                    },
                    MetricSample { timestamp_ms, value },
                    old(self).spec_capacity(),
                ),
            ),
            forall|other: Seq<char>|
                other != metric@ ==> #[trigger] final(self).samples(other) == old(self).samples(other),
    {
        let sample = MetricSample { timestamp_ms, value };
        let ghost s = self.spec_series();
        match self.find(metric) {
            Some(i) => {
                let (name, mut dq) = self.series.remove(i);
                if dq.len() >= self.capacity {
                    dq.pop_front();
                }
                dq.push_back(sample);
                self.series.insert(i, (name, dq));
                proof {
                    let t = self.spec_series();
                    assert(t =~= s.update(i as int, (metric@, t[i as int].1)));
                    lemma_series_update(s, i as int, metric@, t[i as int].1);
                }
            },
            None => {
                let mut dq: VecDeque<MetricSample<V>> = VecDeque::new();
                dq.push_back(sample);
                self.series.push((metric.to_owned(), dq));
                proof {
                    let t = self.spec_series();
                    assert(t =~= s.push((metric@, seq![sample])));
                    assert(t.drop_last() =~= s);
                    assert(Seq::<MetricSample<V>>::empty().push(sample) =~= seq![sample]);
                }
            },
        }
    }

    /// The samples of `metric` within the last `duration_secs` seconds
    /// before its newest sample (all of them for zero); none for an
    /// unknown metric.
    pub fn history(&self, metric: &str, duration_secs: u64) -> (r: Vec<MetricSample<V>>)
        requires
            duration_secs * 1000 <= u64::MAX,
        ensures
            r@ == match self.samples(metric@) {
                Some(h) => window(h, duration_secs),
                None => Seq::empty(),
            },
    {
        let i = match self.find(metric) {
            Some(i) => i,
            None => return Vec::new(),
        };
        let dq = &self.series[i].1;
        let ghost h = dq@;
        let n = dq.len();
        let mut r: Vec<MetricSample<V>> = Vec::new();
        if duration_secs == 0 {
            let mut k: usize = 0;
            while k < n
                invariant
                    h == dq@,
                    n == h.len(),
                    k <= n,
                    r@ == h.take(k as int),
                decreases n - k,
            {
                r.push(dq[k]);
                k = k + 1;
                assert(r@ =~= h.take(k as int));
            }
            assert(h.take(n as int) =~= h);
            return r;
        }
        if n == 0 {
            return r;
        }
        let latest = dq[n - 1].timestamp_ms;
        let cutoff = latest.saturating_sub(duration_secs * 1000);
        let mut k: usize = 0;
        while k < n
            invariant
                h == dq@,
                n == h.len(),
                k <= n,
                r@ == samples_since(h.take(k as int), cutoff),
            decreases n - k,
        {
            assert(h.take(k as int + 1).drop_last() =~= h.take(k as int));
            let x = dq[k];
            if x.timestamp_ms >= cutoff {
                r.push(x);
            }
            k = k + 1;
        }
        assert(h.take(n as int) =~= h);
        r
    }
}

/// Replacing the last series of a name changes only that name's samples.
proof fn lemma_series_update<V>(
    s: Seq<(Seq<char>, Seq<MetricSample<V>>)>,
    i: int,
    name: Seq<char>,
    h: Seq<MetricSample<V>>,
)
    requires
        0 <= i < s.len(),
        s[i].0 == name,
        forall|j: int| i < j < s.len() ==> #[trigger] s[j].0 != name,
    ensures
        series_of(s.update(i, (name, h)), name) == Some(h),
        forall|other: Seq<char>|
            other != name ==> #[trigger] series_of(s.update(i, (name, h)), other) == series_of(s, other),
    decreases s.len(),
{
    let t = s.update(i, (name, h));
    if i == s.len() - 1 {
        assert(t.drop_last() =~= s.drop_last());
        assert forall|other: Seq<char>| other != name implies #[trigger] series_of(t, other) == series_of(s, other) by {
            assert(t.last().0 == name);
            assert(s.last().0 == name);
        }
    } else {
        assert(t.drop_last() =~= s.drop_last().update(i, (name, h)));
        lemma_series_update(s.drop_last(), i, name, h);
        assert(t.last() == s.last());
        assert forall|other: Seq<char>| other != name implies #[trigger] series_of(t, other) == series_of(s, other) by {
            if s.last().0 != other {
                assert(series_of(t.drop_last(), other) == series_of(s.drop_last(), other));
            }
        }
    }
}

/// A series within its capacity stays within it after a push (a series
/// always keeps its newest sample, so a capacity of zero holds one).
pub proof fn lemma_push_keeps_capacity<V>(h: Seq<MetricSample<V>>, x: MetricSample<V>, cap: nat)
    requires
        h.len() <= if cap == 0 { 1 } else { cap },
    ensures
        push_bounded(h, x, cap).len() <= if cap == 0 { 1 } else { cap },
        push_bounded(h, x, cap).last() == x,
{
}

/// A history window holds no more samples than the series, each stamped at
/// or after the cutoff.
pub proof fn lemma_window_within_series<V>(h: Seq<MetricSample<V>>, cutoff: u64)
    ensures
        samples_since(h, cutoff).len() <= h.len(),
        forall|k: int| 0 <= k < samples_since(h, cutoff).len() ==> #[trigger] samples_since(h, cutoff)[k].timestamp_ms >= cutoff,
    decreases h.len(),
{
    if h.len() > 0 {
        lemma_window_within_series(h.drop_last(), cutoff);
    }
}

} // verus!
