//! A periodic timer that may stop by itself after a number of ticks.  The timer
//! decides; the caller arms and disarms the kernel timer as told.
use vstd::prelude::*;

verus! {

/// What to do with the kernel timer.
#[derive(Debug, Clone, Copy, PartialEq, Eq, Structural)]
pub enum TimerCommand {
    /// Fire every `interval_ms` milliseconds, first after one interval.
    Arm { interval_ms: u64 },
    /// Stop firing.
    Disarm,
}

/// The timer's settings and progress.
pub struct TimerView {
    pub interval_ms: Option<u64>,
    pub limit: Option<u64>,
    pub count: u64,
    pub running: bool,
}

pub struct Timer {
    interval_ms: Option<u64>,
    limit: Option<u64>,
    count: u64,
    running: bool,
}

impl View for Timer {
    type V = TimerView;

    closed spec fn view(&self) -> TimerView {
        TimerView {
            interval_ms: self.interval_ms,
            limit: self.limit,
            count: self.count,
            running: self.running,
        }
    }
}

/// The state after `stop`: not running, count back to 0.
pub open spec fn stopped(t: TimerView) -> TimerView {
    TimerView { count: 0, running: false, ..t }
}

/// The timer has a limit and its count has reached it.
pub open spec fn at_limit(t: TimerView) -> bool {
    t.limit matches Some(limit) && t.count >= limit
}

/// One tick: the count goes up, or the timer stops when it is at its limit; a
/// timer without a limit does not count.
pub open spec fn tick(t: TimerView) -> TimerView {
    match t.limit {
        Some(limit) => if t.count < limit {
            TimerView { count: (t.count + 1) as u64, ..t }
        } else {
            stopped(t)
        },
        None => t,
    }
}

/// `n` ticks in a row.
pub open spec fn ticks(t: TimerView, n: nat) -> TimerView
    decreases n,
{
    if n == 0 {
        t
    } else {
        tick(ticks(t, (n - 1) as nat))
    }
}

impl Timer {
    /// A timer with no interval, not running.
    pub fn new() -> (t: Self)
        ensures
            t@ == (TimerView { interval_ms: None, limit: None, count: 0, running: false }),
    {
        Timer { interval_ms: None, limit: None, count: 0, running: false }
    }

    /// Sets the interval and the tick limit, stopping the timer first when it runs.
    pub fn set(&mut self, interval_ms: u64, limit: Option<u64>) -> (cmd: Option<TimerCommand>)
        ensures
            old(self)@.running ==> cmd == Some(TimerCommand::Disarm),
            !old(self)@.running ==> cmd is None,
            final(self)@ == (TimerView {
                interval_ms: Some(interval_ms),
                limit,
                ..if old(self)@.running {
                    stopped(old(self)@)
                } else {
                    old(self)@
                }
            }),
    {
        let cmd = if self.running {
            Some(self.stop())
        } else {
            None
        };
        self.interval_ms = Some(interval_ms);
        self.limit = limit;
        cmd
    }

    /// Counts one tick; a timer that has reached its limit stops instead.
    pub fn update(&mut self) -> (cmd: Option<TimerCommand>)
        ensures
            final(self)@ == tick(old(self)@),
            cmd == (if at_limit(old(self)@) {
                Some(TimerCommand::Disarm)
            } else {
                None
            }),
        no_unwind
    {
        match self.limit {
            Some(limit) => {
                if self.count < limit {
                    self.count += 1;
                    None
                } else {
                    Some(self.stop())
                }
            },
            None => None,
        }
    }

    pub fn running(&self) -> (b: bool)
        ensures
            b == self@.running,
    {
        self.running
    }

    /// Starts the timer when it has an interval.
    pub fn start(&mut self) -> (cmd: Option<TimerCommand>)
        ensures
            match old(self)@.interval_ms {
                Some(ms) => {
                    &&& cmd == Some(TimerCommand::Arm { interval_ms: ms })
                    &&& final(self)@ == (TimerView { running: true, ..old(self)@ })
                },
                None => cmd is None && final(self)@ == old(self)@,
            },
        no_unwind
    {
        match self.interval_ms {
            Some(ms) => {
                self.running = true;
                Some(TimerCommand::Arm { interval_ms: ms })
            },
            None => None,
        }
    }

    /// Stops the timer and resets its tick count.
    pub fn stop(&mut self) -> (cmd: TimerCommand)
        ensures
            cmd == TimerCommand::Disarm,
            final(self)@ == stopped(old(self)@),
        no_unwind
    {
        self.count = 0;
        self.running = false;
        TimerCommand::Disarm
    }
}

/// A running timer with limit `limit`, counted from zero, keeps running through
/// `limit` ticks and is stopped by the next one.
pub proof fn lemma_timer_stops_after_limit(t: TimerView, limit: u64)
    requires
        t.limit == Some(limit),
        t.count == 0,
        t.running,
    ensures
        forall|n: nat| n <= limit ==> #[trigger] ticks(t, n) == (TimerView { count: n as u64, ..t }),
        !ticks(t, limit as nat + 1).running,
        ticks(t, limit as nat + 1).count == 0,
{
    assert forall|n: nat| n <= limit implies #[trigger] ticks(t, n) == (TimerView {
        count: n as u64,
        ..t
    }) by {
        lemma_ticks_count(t, limit, n);
    }
    lemma_ticks_count(t, limit, limit as nat);
}

proof fn lemma_ticks_count(t: TimerView, limit: u64, n: nat)
    requires
        t.limit == Some(limit),
        t.count == 0,
        n <= limit,
    ensures
        ticks(t, n) == (TimerView { count: n as u64, ..t }),
    decreases n,
{
    if n > 0 {
        lemma_ticks_count(t, limit, (n - 1) as nat);
    }
}

} // verus!
