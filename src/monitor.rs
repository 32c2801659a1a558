//! The single consumer of probe events: it feeds each target's series, hop
//! window and log column, and tracks the orderly shutdown of the producers.

use vstd::prelude::*;
use crate::hops::{added_latencies, evicted, HopMap};
use crate::log::{all_nonempty, header_text, millis_of, row_complete, row_text, rows_text, summary_text, CsvLogger};
use crate::series::{all_points, TimeSeries};

verus! {

/// The latency a timed-out probe is recorded with: one second, in µs.
pub const TIMEOUT_LATENCY_US: u64 = 1_000_000;

/// The outcome of one probe of one target.
#[derive(PartialEq, Eq, Structural, Debug, Clone, Copy)]
pub enum ProbeEvent {
    /// A reply, with its latency in µs.
    Measured(u64),
    TimedOut,
    Indeterminate,
}

/// The key of a key press.
#[derive(PartialEq, Eq, Structural, Debug, Clone, Copy)]
pub enum Key {
    Char(char),
    Esc,
    Other,
}

/// What the sequencer consumes.
#[derive(PartialEq, Eq, Structural, Debug, Clone, Copy)]
pub enum Event {
    /// A probe outcome for the target of that index.
    Update(usize, ProbeEvent),
    /// A key press, and whether Control was held.
    Input(Key, bool),
    /// An interrupt signal.
    Interrupt,
}

#[derive(PartialEq, Eq, Structural, Debug, Clone, Copy)]
pub enum Phase {
    Running,
    /// Producers have been told to stop; some have not returned yet.
    ShuttingDown,
    /// Every producer has returned.
    Terminated,
}

/// What the caller is to do after an event.
#[derive(Debug)]
pub enum Step {
    /// A value was recorded: redraw, and append the row, if one was completed, to the log file.
    Recorded(Option<String>),
    /// Nothing was recorded, but the display may be redrawn.
    Redraw,
    /// Nothing to do.
    Ignored,
    /// Set the stop flag and join the producers.
    Stop,
}

/// Whether a key asks to quit: `q`, Escape, or Control-C.
pub open spec fn quit_key(key: Key, ctrl: bool) -> bool {
    match key {
        Key::Char(c) => c == 'q' || (c == 'c' && ctrl),
        Key::Esc => true,
        Key::Other => false,
    }
}

/// The latency a probe outcome is recorded with, if any.
pub open spec fn recorded_latency(e: ProbeEvent) -> Option<u64> {
    match e {
        ProbeEvent::Measured(d) => Some(d),
        ProbeEvent::TimedOut => Some(TIMEOUT_LATENCY_US),
        ProbeEvent::Indeterminate => None,
    }
}

/// The outcome of one timed run of a command: its run time when it
/// succeeded, a timeout when it failed.
pub fn command_outcome(success: bool, elapsed_us: u64) -> (r: ProbeEvent)
    ensures
        r == (if success { ProbeEvent::Measured(elapsed_us) } else { ProbeEvent::TimedOut }),
{
    if success { ProbeEvent::Measured(elapsed_us) } else { ProbeEvent::TimedOut }
}

/// How long a command producer sleeps after a run that took `elapsed_us`,
/// so that runs start once per `interval_us`: the rest of the interval, or
/// nothing when the run took the whole of it.
pub fn remaining_us(interval_us: u64, elapsed_us: u64) -> (r: u64)
    ensures
        r == (if elapsed_us >= interval_us { 0 } else { (interval_us - elapsed_us) as u64 }),
{
    if elapsed_us >= interval_us { 0 } else { interval_us - elapsed_us }
}

pub struct Monitor {
    series: Vec<TimeSeries>,
    hops: HopMap,
    logger: CsvLogger,
    map_enabled: bool,
    phase: Phase,
    joined: Vec<bool>,
}

impl Monitor {
    pub closed spec fn series(&self) -> Seq<Seq<(u64, u64)>> {
        Seq::new(self.series@.len(), |i: int| self.series@[i].points())
    }

    pub closed spec fn hop_windows(&self) -> Seq<Seq<(u64, u64)>> {
        self.hops.windows()
    }

    pub closed spec fn log(&self) -> CsvLogger {
        self.logger
    }

    pub closed spec fn map_enabled(&self) -> bool {
        self.map_enabled
    }

    pub closed spec fn phase(&self) -> Phase {
        self.phase
    }

    /// Which producers have returned.
    pub closed spec fn joined(&self) -> Seq<bool> {
        self.joined@
    }

    pub open spec fn targets(&self) -> nat {
        self.series().len()
    }

    pub closed spec fn wf(&self) -> bool {
        &&& self.hops.wf()
        &&& self.logger.wf()
        &&& self.hops.windows().len() == self.series@.len()
        &&& self.logger.columns().len() == self.series@.len()
        &&& self.phase == Phase::Terminated ==> forall|i: int| 0 <= i < self.joined@.len() ==> #[trigger] self.joined@[i]
    }

    /// A sequencer for `targets` targets and `producers` producer tasks,
    /// and the log's header line.
    pub fn new(targets: usize, producers: usize, map_enabled: bool) -> (r: (Monitor, String))
        requires
            producers > 0,
        ensures
            r.0.wf(),
            r.0.targets() == targets,
            r.0.phase() == Phase::Running,
            r.0.joined() == Seq::new(producers as nat, |i: int| false),
            r.0.map_enabled() == map_enabled,
            r.0.series() == Seq::new(targets as nat, |i: int| Seq::<(u64, u64)>::empty()),
            r.0.hop_windows() == Seq::new(targets as nat, |i: int| Seq::<(u64, u64)>::empty()),
            r.0.log().columns() == Seq::new(targets as nat, |i: int| Seq::<u64>::empty()),
            r.0.log().log_text() == r.1@,
    {
        let mut series: Vec<TimeSeries> = Vec::new();
        let mut i: usize = 0;
        while i < targets
            invariant
                i <= targets,
                series@.len() == i,
                forall|j: int| 0 <= j < i ==> (#[trigger] series@[j]).points().len() == 0,
            decreases targets - i,
        {
            series.push(TimeSeries::new());
            i = i + 1;
        }
        let mut joined: Vec<bool> = Vec::new();
        let mut k: usize = 0;
        while k < producers
            invariant
                k <= producers,
                joined@ =~= Seq::new(k as nat, |i: int| false),
            decreases producers - k,
        {
            joined.push(false);
            k = k + 1;
        }
        let (logger, header) = CsvLogger::new(targets);
        let m = Monitor { series, hops: HopMap::new(targets), logger, map_enabled, phase: Phase::Running, joined };
        assert forall|j: int| 0 <= j < targets implies #[trigger] m.series()[j] =~= Seq::<(u64, u64)>::empty() by {
            assert(m.series@[j].points().len() == 0);
        }
        assert(m.series() =~= Seq::new(targets as nat, |i: int| Seq::<(u64, u64)>::empty()));
        (m, header)
    }

    /// Where the run stands.
    pub fn current_phase(&self) -> (r: Phase)
        ensures
            r == self.phase(),
    {
        self.phase
    }

    /// The targets' series, for display.
    pub fn series_list(&self) -> (r: &Vec<TimeSeries>)
        ensures
            all_points(r@) == self.series(),
    {
        assert(all_points(self.series@) =~= self.series());
        &self.series
    }

    /// Drops every hop window's entries that are stale at `now_ms`, then
    /// returns the latency each hop adds, nearest hop first.
    pub fn hop_latencies(&mut self, now_ms: u64) -> (r: Vec<u64>)
        requires
            old(self).wf(),
        ensures
            final(self).wf(),
            final(self).targets() == old(self).targets(),
            final(self).series() == old(self).series(),
            final(self).log() == old(self).log(),
            final(self).phase() == old(self).phase(),
            final(self).joined() == old(self).joined(),
            final(self).map_enabled() == old(self).map_enabled(),
            final(self).hop_windows().len() == old(self).hop_windows().len(),
            forall|i: int| 0 <= i < old(self).hop_windows().len() ==>
                evicted(#[trigger] old(self).hop_windows()[i], final(self).hop_windows()[i], now_ms),
            r@ == added_latencies(final(self).hop_windows()),
    {
        self.hops.latencies(now_ms)
    }

    /// The number of producer tasks.
    pub fn producer_count(&self) -> (r: usize)
        ensures
            r == self.joined().len(),
    {
        self.joined.len()
    }

    /// The number of targets.
    pub fn target_count(&self) -> (r: usize)
        ensures
            r == self.targets(),
    {
        self.series.len()
    }

    /// Whether an outcome for `target` may be handled at `now_ms`: the
    /// target's hop window holds nothing later than that.
    pub fn accepts(&self, target: usize, now_ms: u64) -> (r: bool)
        requires
            self.wf(),
            target < self.targets(),
        ensures
            r == (self.hop_windows()[target as int].len() == 0
                || self.hop_windows()[target as int].last().0 <= now_ms),
    {
        self.hops.accepts(target, now_ms)
    }

    /// Handles one event that arrived at `now_ms`.
    pub fn handle(&mut self, event: Event, now_ms: u64) -> (r: Step)
        requires
            old(self).wf(),
            event matches Event::Update(i, _) ==> i < old(self).targets()
                && (old(self).hop_windows()[i as int].len() == 0
                || old(self).hop_windows()[i as int].last().0 <= now_ms),
        ensures
            final(self).wf(),
            final(self).targets() == old(self).targets(),
            final(self).map_enabled() == old(self).map_enabled(),
            final(self).joined() == old(self).joined(),
            old(self).phase() == Phase::Terminated ==> r is Ignored && *final(self) == *old(self),
            old(self).phase() != Phase::Terminated ==> match event {
                Event::Update(i, e) => match recorded_latency(e) {
                    None => r is Redraw && *final(self) == *old(self),
                    Some(d) => {
                        &&& final(self).phase() == old(self).phase()
                        &&& final(self).series() == old(self).series().update(
                            i as int, old(self).series()[i as int].push((now_ms, d)))
                        &&& final(self).hop_windows() == if old(self).map_enabled() && e is Measured {
                            old(self).hop_windows().update(i as int, old(self).hop_windows()[i as int].push((now_ms, d)))
                        } else {
                            old(self).hop_windows()
                        }
                        &&& final(self).log().columns() == old(self).log().columns().update(
                            i as int, old(self).log().columns()[i as int].push(millis_of(d)))
                        &&& r matches Step::Recorded(row) && {
                            &&& row is Some == row_complete(final(self).log().columns(), old(self).log().rows())
                            &&& row matches Some(line) ==> line@ == row_text(final(self).log().columns(), old(self).log().rows())
                                && final(self).log().log_text() == old(self).log().log_text() + line@
                                && final(self).log().rows() == old(self).log().rows() + 1
                            &&& row is None ==> final(self).log().log_text() == old(self).log().log_text()
                                && final(self).log().rows() == old(self).log().rows()
                        }
                    },
                },
                Event::Input(key, ctrl) => if quit_key(key, ctrl) && old(self).phase() == Phase::Running {
                    r is Stop && final(self).phase() == Phase::ShuttingDown
                        && final(self).series() == old(self).series()
                        && final(self).hop_windows() == old(self).hop_windows()
                        && final(self).log() == old(self).log()
                } else {
                    r is Ignored && *final(self) == *old(self)
                },
                Event::Interrupt => if old(self).phase() == Phase::Running {
                    r is Stop && final(self).phase() == Phase::ShuttingDown
                        && final(self).series() == old(self).series()
                        && final(self).hop_windows() == old(self).hop_windows()
                        && final(self).log() == old(self).log()
                } else {
                    r is Ignored && *final(self) == *old(self)
                },
            },
    {
        if self.phase == Phase::Terminated {
            return Step::Ignored;
        }
        match event {
            Event::Update(i, e) => {
                let (d, measured) = match e {
                    ProbeEvent::Measured(d) => (d, true),
                    ProbeEvent::TimedOut => (TIMEOUT_LATENCY_US, false),
                    ProbeEvent::Indeterminate => {
                        return Step::Redraw;
                    },
                };
                let ghost before = self.series();
                if self.map_enabled && measured {
                    self.hops.record(i, now_ms, d);
                }
                self.series[i].push(now_ms, d);
                assert(self.series() =~= before.update(i as int, before[i as int].push((now_ms, d))));
                let row = self.logger.log(i, d);
                Step::Recorded(row)
            },
            Event::Input(key, ctrl) => {
                let quit = match key {
                    Key::Char(c) => c == 'q' || (c == 'c' && ctrl),
                    Key::Esc => true,
                    Key::Other => false,
                };
                if quit && self.phase == Phase::Running {
                    self.stop()
                } else {
                    Step::Ignored
                }
            },
            Event::Interrupt => {
                if self.phase == Phase::Running {
                    self.stop()
                } else {
                    Step::Ignored
                }
            },
        }
    }

    fn stop(&mut self) -> (r: Step)
        requires
            old(self).wf(),
            old(self).phase() == Phase::Running,
        ensures
            final(self).wf(),
            r is Stop,
            final(self).phase() == Phase::ShuttingDown,
            final(self).series() == old(self).series(),
            final(self).hop_windows() == old(self).hop_windows(),
            final(self).log() == old(self).log(),
            final(self).joined() == old(self).joined(),
            final(self).map_enabled() == old(self).map_enabled(),
    {
        self.phase = Phase::ShuttingDown;
        Step::Stop
    }

    /// Records that producer `p` has returned. Once every producer has,
    /// after a stop, the run is over.
    pub fn producer_exited(&mut self, p: usize)
        requires
            old(self).wf(),
            p < old(self).joined().len(),
        ensures
            final(self).wf(),
            final(self).joined() == old(self).joined().update(p as int, true),
            final(self).series() == old(self).series(),
            final(self).hop_windows() == old(self).hop_windows(),
            final(self).log() == old(self).log(),
            final(self).map_enabled() == old(self).map_enabled(),
            old(self).phase() == Phase::Running ==> final(self).phase() == Phase::Running,
            old(self).phase() != Phase::Running ==> final(self).phase() != Phase::Running
                && (final(self).phase() == Phase::Terminated
                <==> forall|i: int| 0 <= i < final(self).joined().len() ==> #[trigger] final(self).joined()[i]),
    {
        self.joined.set(p, true);
        if self.phase == Phase::Running {
            return;
        }
        let mut all = true;
        let mut i: usize = 0;
        while i < self.joined.len()
            invariant
                i <= self.joined@.len(),
                all == forall|j: int| 0 <= j < i ==> #[trigger] self.joined@[j],
            decreases self.joined@.len() - i,
        {
            if !self.joined[i] {
                all = false;
            }
            i = i + 1;
        }
        if all {
            self.phase = Phase::Terminated;
        } else {
            self.phase = Phase::ShuttingDown;
        }
    }

    /// The finished log: the summary block followed by `data`, the log's
    /// text as written so far. `None` when some target has no value at all.
    pub fn finalize(&self, data: &str) -> (r: Option<String>)
        ensures
            r is Some == all_nonempty(self.log().columns()),
            r matches Some(t) ==> t@ == summary_text(self.log().columns()) + data@,
    {
        self.logger.finalize(data)
    }
}

/// Orderly shutdown: a run is over only once every producer has returned,
/// and the log it leaves holds the header and complete rows only, so a row
/// that some target never finished is not in it.
pub proof fn lemma_shutdown_complete(m: &Monitor)
    requires
        m.wf(),
        m.phase() == Phase::Terminated,
    ensures
        forall|i: int| 0 <= i < m.joined().len() ==> #[trigger] m.joined()[i],
        m.log().log_text() == header_text(m.targets()) + rows_text(m.log().columns(), m.log().rows()),
        m.targets() > 0 ==> forall|k: nat| k < m.log().rows() <==> #[trigger] row_complete(m.log().columns(), k),
{
}

} // verus!
