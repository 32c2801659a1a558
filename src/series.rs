//! Per-target latency series for display, and the chart's axis bounds.

use vstd::prelude::*;

verus! {

/// Number of labels on the latency axis.
pub const Y_LABELS: u64 = 7;

/// Whether a point taken at `t_ms` lies in the window of `window_ms`
/// milliseconds that ends at `now_ms`.
pub open spec fn in_window(t_ms: u64, now_ms: u64, window_ms: u64) -> bool {
    t_ms + window_ms >= now_ms
}

pub open spec fn window_filter(now_ms: u64, window_ms: u64) -> spec_fn((u64, u64)) -> bool {
    |p: (u64, u64)| in_window(p.0, now_ms, window_ms)
}

/// Whether some series holds a point in the window with latency `v`.
pub open spec fn visible(series: Seq<Seq<(u64, u64)>>, now_ms: u64, window_ms: u64, v: u64) -> bool {
    exists|s: int, i: int| 0 <= s < series.len() && 0 <= i < series[s].len()
        && in_window(#[trigger] series[s][i].0, now_ms, window_ms) && series[s][i].1 == v
}

/// The lowest latency in the window less a tenth, and the highest plus a
/// tenth (capped at the largest `u64`).
pub open spec fn padded_bounds(lo: u64, hi: u64) -> (u64, u64) {
    ((lo - lo / 10) as u64, if hi + hi / 10 > u64::MAX { u64::MAX } else { (hi + hi / 10) as u64 })
}

/// The time axis: the window ending now, but never reaching back before
/// the start of the run.
pub open spec fn time_bounds(started_ms: u64, now_ms: u64, window_ms: u64) -> (u64, u64) {
    if now_ms < started_ms + window_ms {
        (started_ms, (started_ms + window_ms) as u64)
    } else {
        ((now_ms - window_ms) as u64, now_ms)
    }
}

/// The points of one target: `(time in ms, latency in µs)`, in arrival order.
pub struct TimeSeries {
    points: Vec<(u64, u64)>,
}

impl TimeSeries {
    pub closed spec fn points(&self) -> Seq<(u64, u64)> {
        self.points@
    }

    pub fn new() -> (r: TimeSeries)
        ensures
            r.points() == Seq::<(u64, u64)>::empty(),
    {
        TimeSeries { points: Vec::new() }
    }

    /// Appends a latency taken at `t_ms`.
    pub fn push(&mut self, t_ms: u64, latency_us: u64)
        ensures
            final(self).points() == old(self).points().push((t_ms, latency_us)),
    {
        self.points.push((t_ms, latency_us));
    }

    /// The latest latency, if any.
    pub fn last(&self) -> (r: Option<u64>)
        ensures
            r == (if self.points().len() == 0 { None } else { Some(self.points().last().1) }),
    {
        let n = self.points.len();
        if n == 0 { None } else { Some(self.points[n - 1].1) }
    }

    /// The lowest latency among the points in the window, if any.
    pub fn window_min(&self, now_ms: u64, window_ms: u64) -> (r: Option<u64>)
        ensures
            r is None <==> forall|i: int| 0 <= i < self.points().len()
                ==> !in_window(#[trigger] self.points()[i].0, now_ms, window_ms),
            r matches Some(m) ==> {
                &&& exists|i: int| 0 <= i < self.points().len()
                    && in_window(#[trigger] self.points()[i].0, now_ms, window_ms) && self.points()[i].1 == m
                &&& forall|i: int| 0 <= i < self.points().len()
                    && in_window(#[trigger] self.points()[i].0, now_ms, window_ms) ==> m <= self.points()[i].1
            },
    {
        self.window_extreme(now_ms, window_ms, true)
    }

    /// The highest latency among the points in the window, if any.
    pub fn window_max(&self, now_ms: u64, window_ms: u64) -> (r: Option<u64>)
        ensures
            r is None <==> forall|i: int| 0 <= i < self.points().len()
                ==> !in_window(#[trigger] self.points()[i].0, now_ms, window_ms),
            r matches Some(m) ==> {
                &&& exists|i: int| 0 <= i < self.points().len()
                    && in_window(#[trigger] self.points()[i].0, now_ms, window_ms) && self.points()[i].1 == m
                &&& forall|i: int| 0 <= i < self.points().len()
                    && in_window(#[trigger] self.points()[i].0, now_ms, window_ms) ==> self.points()[i].1 <= m
            },
    {
        self.window_extreme(now_ms, window_ms, false)
    }

    /// The lowest (`lowest`) or highest latency among the points in the window.
    fn window_extreme(&self, now_ms: u64, window_ms: u64, lowest: bool) -> (r: Option<u64>)
        ensures
            r is None <==> forall|i: int| 0 <= i < self.points().len()
                ==> !in_window(#[trigger] self.points()[i].0, now_ms, window_ms),
            r matches Some(m) ==> {
                &&& exists|i: int| 0 <= i < self.points().len()
                    && in_window(#[trigger] self.points()[i].0, now_ms, window_ms) && self.points()[i].1 == m
                &&& forall|i: int| 0 <= i < self.points().len()
                    && in_window(#[trigger] self.points()[i].0, now_ms, window_ms)
                    ==> if lowest { m <= self.points()[i].1 } else { self.points()[i].1 <= m }
            },
    {
        let ghost ps = self.points@;
        let mut best: Option<u64> = None;
        let mut i: usize = 0;
        while i < self.points.len()
            invariant
                ps == self.points@,
                i <= ps.len(),
                best is None ==> forall|j: int| 0 <= j < i ==> !in_window(#[trigger] ps[j].0, now_ms, window_ms),
                best matches Some(m) ==> {
                    &&& exists|j: int| 0 <= j < i && in_window(#[trigger] ps[j].0, now_ms, window_ms) && ps[j].1 == m
                    &&& forall|j: int| 0 <= j < i && in_window(#[trigger] ps[j].0, now_ms, window_ms)
                        ==> if lowest { m <= ps[j].1 } else { ps[j].1 <= m }
                },
            decreases ps.len() - i,
        {
            let (t, v) = self.points[i];
            if t as u128 + window_ms as u128 >= now_ms as u128 {
                best = match best {
                    None => Some(v),
                    Some(m) => if (lowest && v < m) || (!lowest && v > m) { Some(v) } else { Some(m) },
                };
            }
            i = i + 1;
        }
        assert(ps == self.points());
        proof {
            if let Some(m) = best {
                let j = choose|j: int| 0 <= j < i && in_window(#[trigger] ps[j].0, now_ms, window_ms) && ps[j].1 == m;
                assert(in_window(self.points()[j].0, now_ms, window_ms));
            }
        }
        best
    }

    /// The points taken within `window_ms` milliseconds before `now_ms`, in order.
    pub fn window_points(&self, now_ms: u64, window_ms: u64) -> (r: Vec<(u64, u64)>)
        ensures
            r@ == self.points().filter(window_filter(now_ms, window_ms)),
    {
        let mut out: Vec<(u64, u64)> = Vec::new();
        let mut i: usize = 0;
        while i < self.points.len()
            invariant
                i <= self.points@.len(),
                out@ == self.points@.take(i as int).filter(window_filter(now_ms, window_ms)),
            decreases self.points@.len() - i,
        {
            let p = self.points[i];
            proof {
                reveal(Seq::filter);
                assert(self.points@.take(i + 1).drop_last() =~= self.points@.take(i as int));
            }
            if p.0 as u128 + window_ms as u128 >= now_ms as u128 {
                out.push(p);
            }
            i = i + 1;
        }
        assert(self.points@.take(i as int) =~= self.points@);
        out
    }
}

/// The points of every series, in series order.
pub open spec fn all_points(series: Seq<TimeSeries>) -> Seq<Seq<(u64, u64)>> {
    Seq::new(series.len(), |s: int| series[s].points())
}

/// The latency axis over every point in the window: the lowest latency
/// less a tenth and the highest plus a tenth; `None` when no point is in
/// the window.
pub fn y_axis_bounds(series: &Vec<TimeSeries>, now_ms: u64, window_ms: u64) -> (r: Option<(u64, u64)>)
    ensures
        r.is_none() == (forall|v: u64| !visible(all_points(series@), now_ms, window_ms, v)),
        r.is_some() ==> exists|lo: u64, hi: u64| {
            &&& visible(all_points(series@), now_ms, window_ms, lo)
            &&& visible(all_points(series@), now_ms, window_ms, hi)
            &&& (forall|v: u64| visible(all_points(series@), now_ms, window_ms, v) ==> lo <= v && v <= hi)
            &&& r == Some(padded_bounds(lo, hi))
        },
{
    let ghost pts = all_points(series@);
    let mut found = false;
    let mut lo: u64 = 0;
    let mut hi: u64 = 0;
    let mut s: usize = 0;
    while s < series.len()
        invariant
            s <= series@.len(),
            pts == all_points(series@),
            !found ==> forall|t: int, i: int| 0 <= t < s && 0 <= i < pts[t].len()
                ==> !in_window(#[trigger] pts[t][i].0, now_ms, window_ms),
            found ==> exists|t: int, i: int| 0 <= t < s && 0 <= i < pts[t].len()
                && in_window(#[trigger] pts[t][i].0, now_ms, window_ms) && pts[t][i].1 == lo,
            found ==> exists|t: int, i: int| 0 <= t < s && 0 <= i < pts[t].len()
                && in_window(#[trigger] pts[t][i].0, now_ms, window_ms) && pts[t][i].1 == hi,
            found ==> forall|t: int, i: int| 0 <= t < s && 0 <= i < pts[t].len()
                && in_window(#[trigger] pts[t][i].0, now_ms, window_ms) ==> lo <= pts[t][i].1 <= hi,
        decreases series@.len() - s,
    {
        let ps = &series[s].points;
        assert(ps@ == pts[s as int]);
        let mut i: usize = 0;
        while i < ps.len()
            invariant
                s < series@.len(),
                i <= ps@.len(),
                ps@ == pts[s as int],
                pts == all_points(series@),
                !found ==> forall|t: int, j: int| 0 <= t < s && 0 <= j < pts[t].len()
                    ==> !in_window(#[trigger] pts[t][j].0, now_ms, window_ms),
                !found ==> forall|j: int| 0 <= j < i ==> !in_window(#[trigger] pts[s as int][j].0, now_ms, window_ms),
                found ==> exists|t: int, j: int| 0 <= t <= s && 0 <= j < pts[t].len() && (t < s || j < i)
                    && in_window(#[trigger] pts[t][j].0, now_ms, window_ms) && pts[t][j].1 == lo,
                found ==> exists|t: int, j: int| 0 <= t <= s && 0 <= j < pts[t].len() && (t < s || j < i)
                    && in_window(#[trigger] pts[t][j].0, now_ms, window_ms) && pts[t][j].1 == hi,
                found ==> forall|t: int, j: int| 0 <= t <= s && 0 <= j < pts[t].len() && (t < s || j < i)
                    && in_window(#[trigger] pts[t][j].0, now_ms, window_ms) ==> lo <= pts[t][j].1 <= hi,
            decreases ps@.len() - i,
        {
            let (t, v) = ps[i];
            if t as u128 + window_ms as u128 >= now_ms as u128 {
                if !found {
                    found = true;
                    lo = v;
                    hi = v;
                } else {
                    if v < lo {
                        lo = v;
                    }
                    if v > hi {
                        hi = v;
                    }
                }
            }
            i = i + 1;
        }
        s = s + 1;
    }
    if !found {
        assert forall|v: u64| !visible(pts, now_ms, window_ms, v) by {}
        None
    } else {
        let r = Some(((lo - lo / 10), if hi > u64::MAX - hi / 10 { u64::MAX } else { hi + hi / 10 }));
        assert(visible(pts, now_ms, window_ms, lo));
        assert(visible(pts, now_ms, window_ms, hi));
        assert forall|v: u64| visible(pts, now_ms, window_ms, v) implies lo <= v && v <= hi by {}
        assert(r == Some(padded_bounds(lo, hi)));
        r
    }
}

/// The time axis for a run started at `started_ms`, at `now_ms`, showing
/// `window_ms` milliseconds.
pub fn x_axis_bounds(started_ms: u64, now_ms: u64, window_ms: u64) -> (r: (u64, u64))
    requires
        started_ms + window_ms <= u64::MAX,
    ensures
        r == time_bounds(started_ms, now_ms, window_ms),
{
    if now_ms < started_ms + window_ms {
        (started_ms, started_ms + window_ms)
    } else {
        (now_ms - window_ms, now_ms)
    }
}

/// The values of the latency axis labels: `lo` and then equal steps of a
/// seventh of the range.
pub fn y_axis_ticks(lo: u64, hi: u64) -> (r: Vec<u64>)
    requires
        lo <= hi,
    ensures
        r@.len() == Y_LABELS,
        forall|i: int| 0 <= i < Y_LABELS ==> #[trigger] r@[i] == lo + i * ((hi - lo) / (Y_LABELS as int)),
{
    let step = (hi - lo) / Y_LABELS;
    let mut out: Vec<u64> = Vec::new();
    let mut i: u64 = 0;
    while i < Y_LABELS
        invariant
            i <= Y_LABELS,
            step == (hi - lo) / (Y_LABELS as int),
            out@.len() == i,
            forall|j: int| 0 <= j < i ==> #[trigger] out@[j] == lo + j * step,
        decreases Y_LABELS - i,
    {
        assert(i * step <= 6 * step) by (nonlinear_arith) requires i <= 6;
        assert(lo + 6 * step <= hi) by (nonlinear_arith) requires step == (hi - lo) / 7, lo <= hi;
        out.push(lo + i * step);
        i = i + 1;
    }
    out
}

} // verus!
