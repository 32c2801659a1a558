//! Rolling windows of recent latencies per hop, and the latency that each
//! hop adds on top of the one before it.

use vstd::prelude::*;

verus! {

/// How long, in milliseconds, an entry counts towards its window.
pub const HOP_HORIZON_MS: u64 = 10_000;

/// Upper bounds, in microseconds, of the first three latency tiers.
pub const GOOD_LIMIT_US: u64 = 30_000;
pub const FAIR_LIMIT_US: u64 = 60_000;
pub const POOR_LIMIT_US: u64 = 90_000;

/// Whether an entry that arrived at `arrival_ms` has aged out at `now_ms`:
/// its age is over ten seconds.
pub open spec fn stale(arrival_ms: u64, now_ms: u64) -> bool {
    now_ms > arrival_ms && now_ms - arrival_ms > HOP_HORIZON_MS
}

/// The largest latency of the entries, or zero for none.
pub open spec fn max_latency(s: Seq<(u64, u64)>) -> u64
    decreases s.len(),
{
    if s.len() == 0 {
        0
    } else {
        let m = max_latency(s.drop_last());
        if s.last().1 > m { s.last().1 } else { m }
    }
}

/// `after` is `before` without its stale front: every entry dropped was
/// stale at `now_ms`, every entry kept is not.
pub open spec fn evicted(before: Seq<(u64, u64)>, after: Seq<(u64, u64)>, now_ms: u64) -> bool {
    &&& after.len() <= before.len()
    &&& after == before.subrange(before.len() - after.len(), before.len() as int)
    &&& forall|i: int| 0 <= i < before.len() - after.len() ==> stale(#[trigger] before[i].0, now_ms)
    &&& forall|i: int| 0 <= i < after.len() ==> !stale(#[trigger] after[i].0, now_ms)
}

/// Entries in order of arrival.
pub open spec fn arrivals_ordered(s: Seq<(u64, u64)>) -> bool {
    forall|i: int, j: int| 0 <= i < j < s.len() ==> #[trigger] s[i].0 <= #[trigger] s[j].0
}

/// The latency a hop adds: its own window maximum less that of the hop
/// before it, and zero where the earlier hop looks slower. The first hop
/// has no hop before it and keeps its own maximum.
pub open spec fn added_latency(prev_max: Option<u64>, this_max: u64) -> u64 {
    match prev_max {
        None => this_max,
        Some(p) => if p > this_max { 0 } else { (this_max - p) as u64 },
    }
}

/// How a hop's added latency is rated.
#[derive(PartialEq, Eq, Structural, Debug, Clone, Copy)]
pub enum LatencyTier {
    /// At most 30 ms.
    Good,
    /// At most 60 ms.
    Fair,
    /// At most 90 ms.
    Poor,
    /// Above 90 ms.
    Bad,
}

pub open spec fn tier_of(latency_us: u64) -> LatencyTier {
    if latency_us <= GOOD_LIMIT_US {
        LatencyTier::Good
    } else if latency_us <= FAIR_LIMIT_US {
        LatencyTier::Fair
    } else if latency_us <= POOR_LIMIT_US {
        LatencyTier::Poor
    } else {
        LatencyTier::Bad
    }
}

/// The tier of a latency in microseconds.
pub fn classify(latency_us: u64) -> (r: LatencyTier)
    ensures
        r == tier_of(latency_us),
{
    if latency_us <= GOOD_LIMIT_US {
        LatencyTier::Good
    } else if latency_us <= FAIR_LIMIT_US {
        LatencyTier::Fair
    } else if latency_us <= POOR_LIMIT_US {
        LatencyTier::Poor
    } else {
        LatencyTier::Bad
    }
}

/// The latency a hop adds, given the window maximum of the hop before it
/// (`None` for the first hop) and its own.
pub fn hop_latency(prev_max: Option<u64>, this_max: u64) -> (r: u64)
    ensures
        r == added_latency(prev_max, this_max),
{
    match prev_max {
        None => this_max,
        Some(p) => if p > this_max { 0 } else { this_max - p },
    }
}

/// The recent latencies of one hop: `(arrival in ms, latency in µs)`.
pub struct HopWindow {
    entries: std::collections::VecDeque<(u64, u64)>,
}

impl HopWindow {
    pub closed spec fn entries(&self) -> Seq<(u64, u64)> {
        self.entries@
    }

    pub open spec fn wf(&self) -> bool {
        arrivals_ordered(self.entries())
    }

    /// Whether an entry arriving at `now_ms` keeps the arrivals in order.
    pub open spec fn admits(&self, now_ms: u64) -> bool {
        self.entries().len() == 0 || self.entries().last().0 <= now_ms
    }

    pub fn new() -> (r: HopWindow)
        ensures
            r.wf(),
            r.entries() == Seq::<(u64, u64)>::empty(),
    {
        HopWindow { entries: std::collections::VecDeque::new() }
    }

    /// Whether an entry may arrive at `now_ms`.
    pub fn accepts(&self, now_ms: u64) -> (r: bool)
        ensures
            r == self.admits(now_ms),
    {
        let n = self.entries.len();
        n == 0 || self.entries[n - 1].0 <= now_ms
    }

    /// Adds a latency that arrived at `now_ms`.
    pub fn record(&mut self, now_ms: u64, latency_us: u64)
        requires
            old(self).wf(),
            old(self).admits(now_ms),
        ensures
            final(self).wf(),
            final(self).entries() == old(self).entries().push((now_ms, latency_us)),
    {
        self.entries.push_back((now_ms, latency_us));
    }

    /// Drops the entries that are stale at `now_ms`, then returns the largest
    /// latency left (zero when none is left).
    pub fn window_max(&mut self, now_ms: u64) -> (r: u64)
        requires
            old(self).wf(),
        ensures
            final(self).wf(),
            evicted(old(self).entries(), final(self).entries(), now_ms),
            r == max_latency(final(self).entries()),
    {
        let ghost before = self.entries@;
        loop
            invariant
                arrivals_ordered(before),
                self.entries@.len() <= before.len(),
                self.entries@ == before.subrange(before.len() - self.entries@.len(), before.len() as int),
                forall|i: int| 0 <= i < before.len() - self.entries@.len() ==> stale(#[trigger] before[i].0, now_ms),
            ensures
                self.entries@.len() <= before.len(),
                self.entries@ == before.subrange(before.len() - self.entries@.len(), before.len() as int),
                forall|i: int| 0 <= i < before.len() - self.entries@.len() ==> stale(#[trigger] before[i].0, now_ms),
                forall|i: int| 0 <= i < self.entries@.len() ==> !stale(#[trigger] self.entries@[i].0, now_ms),
            decreases self.entries@.len(),
        {
            if self.entries.len() == 0 {
                break;
            }
            let front = self.entries[0].0;
            if now_ms > front && now_ms - front > HOP_HORIZON_MS {
                self.entries.pop_front();
            } else {
                proof {
                    assert forall|i: int| 0 <= i < self.entries@.len() implies !stale(#[trigger] self.entries@[i].0, now_ms) by {
                        let d = before.len() - self.entries@.len();
                        assert(self.entries@[i] == before[d + i]);
                        assert(self.entries@[0] == before[d]);
                        if i > 0 {
                            assert(before[d].0 <= before[d + i].0);
                        }
                    }
                }
                break;
            }
        }
        assert(arrivals_ordered(self.entries@)) by {
            let d = before.len() - self.entries@.len();
            assert forall|i: int, j: int| 0 <= i < j < self.entries@.len() implies
                #[trigger] self.entries@[i].0 <= #[trigger] self.entries@[j].0 by {
                assert(self.entries@[i] == before[d + i]);
                assert(self.entries@[j] == before[d + j]);
            }
        }
        let n = self.entries.len();
        let mut m: u64 = 0;
        let mut i: usize = 0;
        while i < n
            invariant
                n == self.entries@.len(),
                i <= n,
                m == max_latency(self.entries@.take(i as int)),
            decreases n - i,
        {
            let l = self.entries[i].1;
            assert(self.entries@.take(i + 1).drop_last() =~= self.entries@.take(i as int));
            if l > m {
                m = l;
            }
            i = i + 1;
        }
        assert(self.entries@.take(n as int) =~= self.entries@);
        m
    }
}

/// The latency each hop adds, from the entries of every hop's window.
pub open spec fn added_latencies(windows: Seq<Seq<(u64, u64)>>) -> Seq<u64> {
    Seq::new(windows.len(), |i: int| added_latency(
        if i == 0 { None } else { Some(max_latency(windows[i - 1])) },
        max_latency(windows[i]),
    ))
}

/// One window per hop, nearest hop first.
pub struct HopMap {
    windows: Vec<HopWindow>,
}

impl HopMap {
    pub closed spec fn windows(&self) -> Seq<Seq<(u64, u64)>> {
        Seq::new(self.windows@.len(), |i: int| self.windows@[i].entries())
    }

    pub closed spec fn wf(&self) -> bool {
        forall|i: int| 0 <= i < self.windows@.len() ==> (#[trigger] self.windows@[i]).wf()
    }

    /// `hops` empty windows.
    pub fn new(hops: usize) -> (r: HopMap)
        ensures
            r.wf(),
            r.windows() == Seq::new(hops as nat, |i: int| Seq::<(u64, u64)>::empty()),
    {
        let mut windows: Vec<HopWindow> = Vec::new();
        let mut i: usize = 0;
        while i < hops
            invariant
                i <= hops,
                windows@.len() == i,
                forall|j: int| 0 <= j < i ==> (#[trigger] windows@[j]).wf() && windows@[j].entries().len() == 0,
            decreases hops - i,
        {
            windows.push(HopWindow::new());
            i = i + 1;
        }
        let r = HopMap { windows };
        assert forall|j: int| 0 <= j < hops implies #[trigger] r.windows()[j] =~= Seq::<(u64, u64)>::empty() by {
            assert(r.windows@[j].entries().len() == 0);
        }
        assert(r.windows() =~= Seq::new(hops as nat, |i: int| Seq::<(u64, u64)>::empty()));
        r
    }

    /// The number of hops.
    pub fn hops(&self) -> (r: usize)
        ensures
            r == self.windows().len(),
    {
        self.windows.len()
    }

    /// Whether hop `hop` may take an entry arriving at `now_ms`.
    pub fn accepts(&self, hop: usize, now_ms: u64) -> (r: bool)
        requires
            hop < self.windows().len(),
        ensures
            r == (self.windows()[hop as int].len() == 0
                || self.windows()[hop as int].last().0 <= now_ms),
    {
        self.windows[hop].accepts(now_ms)
    }

    /// Adds a latency of hop `hop` that arrived at `now_ms`.
    pub fn record(&mut self, hop: usize, now_ms: u64, latency_us: u64)
        requires
            old(self).wf(),
            hop < old(self).windows().len(),
            old(self).windows()[hop as int].len() == 0
                || old(self).windows()[hop as int].last().0 <= now_ms,
        ensures
            final(self).wf(),
            final(self).windows() == old(self).windows().update(
                hop as int,
                old(self).windows()[hop as int].push((now_ms, latency_us)),
            ),
    {
        let ghost before = self.windows();
        assert(self.windows@[hop as int].wf());
        self.windows[hop].record(now_ms, latency_us);
        assert(self.windows() =~= before.update(hop as int, before[hop as int].push((now_ms, latency_us))));
    }

    /// Drops every hop's stale entries at `now_ms`, then returns the latency
    /// each hop adds, nearest hop first.
    pub fn latencies(&mut self, now_ms: u64) -> (r: Vec<u64>)
        requires
            old(self).wf(),
        ensures
            final(self).wf(),
            final(self).windows().len() == old(self).windows().len(),
            forall|i: int| 0 <= i < old(self).windows().len() ==>
                evicted(#[trigger] old(self).windows()[i], final(self).windows()[i], now_ms),
            r@ == added_latencies(final(self).windows()),
    {
        let ghost before = self.windows();
        let n = self.windows.len();
        let mut maxes: Vec<u64> = Vec::new();
        let mut i: usize = 0;
        while i < n
            invariant
                n == self.windows@.len(),
                n == before.len(),
                i <= n,
                self.wf(),
                maxes@.len() == i,
                forall|j: int| 0 <= j < i ==> evicted(#[trigger] before[j], self.windows()[j], now_ms),
                forall|j: int| 0 <= j < i ==> #[trigger] maxes@[j] == max_latency(self.windows()[j]),
                forall|j: int| i <= j < n ==> #[trigger] self.windows()[j] == before[j],
            decreases n - i,
        {
            let ghost prev = self.windows();
            assert(self.windows@[i as int].wf());
            let m = self.windows[i].window_max(now_ms);
            assert forall|j: int| 0 <= j < n && j != i implies #[trigger] self.windows()[j] == prev[j] by {}
            assert(self.windows()[i as int] == self.windows@[i as int].entries());
            assert forall|j: int| 0 <= j <= i implies evicted(#[trigger] before[j], self.windows()[j], now_ms) by {
                if j < i {
                    assert(prev[j] == self.windows()[j]);
                    assert(evicted(before[j], prev[j], now_ms));
                } else {
                    assert(prev[j] == before[j]);
                }
            }
            maxes.push(m);
            i = i + 1;
        }
        let mut out: Vec<u64> = Vec::new();
        let mut k: usize = 0;
        while k < n
            invariant
                n == maxes@.len(),
                n == self.windows().len(),
                k <= n,
                forall|j: int| 0 <= j < n ==> #[trigger] maxes@[j] == max_latency(self.windows()[j]),
                out@ =~= added_latencies(self.windows()).take(k as int),
            decreases n - k,
        {
            let prev = if k == 0 { None } else { Some(maxes[k - 1]) };
            out.push(hop_latency(prev, maxes[k]));
            k = k + 1;
        }
        assert(added_latencies(self.windows()).take(n as int) =~= added_latencies(self.windows()));
        out
    }
}

} // verus!
