//! The battery module's decisions: charge thresholds for each protection mode, the
//! emulation of a start threshold on hardware that only has an end threshold, the
//! polling schedule, and which changes are broadcast.
use crate::common::{
    clamp_percent, group_percentage, percentage, BatteryProtection, BatteryStatus, Message,
    Percentage,
};
use crate::stack_string::{ascii_lower, text_of, StackString};
use crate::timer::{at_limit, stopped, tick, Timer, TimerCommand, TimerView};
use vstd::prelude::*;
use vstd::string::StringSliceAdditionalSpecFns;
use vstd::utf8::encode_utf8;

verus! {

broadcast use group_percentage;

/// Whether the battery module starts with its end threshold lowered when no
/// state was saved.
pub const DEFAULT_DROP_THRESHOLD: bool = true;

/// How often, in milliseconds, the battery is read after a change of power supply
/// or protection mode, and for how many ticks.
pub const FAST_POLL_INTERVAL_MS: u64 = 250;

pub const FAST_POLL_TICKS: u64 = 10;

/// Something the battery module asks of the system.
#[derive(Debug, Clone, Copy, PartialEq, Eq, Structural)]
pub enum BatteryEffect {
    /// Write the charge start threshold file.
    WriteStartThreshold(u8),
    /// Write the charge end threshold file.
    WriteEndThreshold(u8),
    /// Arm or disarm the polling timer.
    Timer(TimerCommand),
    /// Send a message to every subscribed client.
    Broadcast(Message),
}

/// The battery module's state.
pub struct BatteryView {
    /// The last charge read, in percent as the kernel reports it.
    pub charge: u8,
    pub status: BatteryStatus,
    pub protection_mode: BatteryProtection,
    /// The hardware has a charge start threshold.
    pub has_start_threshold: bool,
    /// The hardware has a charge end threshold.
    pub has_end_threshold: bool,
    /// While the start threshold is emulated: the end threshold is currently lowered
    /// to the start threshold.
    pub drop_threshold: bool,
    /// Seconds between two regular readings.
    pub polling_interval: u8,
    pub poller: TimerView,
}

pub struct BatteryModule {
    charge: u8,
    status: BatteryStatus,
    protection_mode: BatteryProtection,
    has_start_threshold: bool,
    has_end_threshold: bool,
    drop_threshold: bool,
    polling_interval: u8,
    poller: Timer,
}

impl View for BatteryModule {
    type V = BatteryView;

    closed spec fn view(&self) -> BatteryView {
        BatteryView {
            charge: self.charge,
            status: self.status,
            protection_mode: self.protection_mode,
            has_start_threshold: self.has_start_threshold,
            has_end_threshold: self.has_end_threshold,
            drop_threshold: self.drop_threshold,
            polling_interval: self.polling_interval,
            poller: self.poller@,
        }
    }
}

/// The (start, end) charge thresholds of a protection mode.
pub open spec fn spec_thresholds(mode: BatteryProtection) -> (u8, u8) {
    match mode {
        BatteryProtection::Off => (95, 100),
        BatteryProtection::On => (75, 80),
        BatteryProtection::Stationary => (40, 60),
    }
}

/// The start threshold is emulated: only an end threshold exists.
pub open spec fn emulates_start(v: BatteryView) -> bool {
    v.has_end_threshold && !v.has_start_threshold
}

/// The value that the end threshold file should hold while the start threshold is
/// emulated: the start threshold while lowered, the end threshold otherwise.
pub open spec fn emulated_end_threshold(v: BatteryView) -> u8 {
    if v.drop_threshold {
        spec_thresholds(v.protection_mode).0
    } else {
        spec_thresholds(v.protection_mode).1
    }
}

/// Sets the poller's interval and limit and starts it.
pub open spec fn restart_poller(p: TimerView, interval_ms: u64, limit: Option<u64>) -> (
    TimerView,
    Seq<BatteryEffect>,
) {
    let stops = if p.running {
        seq![BatteryEffect::Timer(TimerCommand::Disarm)]
    } else {
        Seq::empty()
    };
    let base = if p.running {
        stopped(p)
    } else {
        p
    };
    (
        TimerView { interval_ms: Some(interval_ms), limit, running: true, ..base },
        stops.push(BatteryEffect::Timer(TimerCommand::Arm { interval_ms })),
    )
}

/// The regular poller: every `polling_interval` seconds, without end.
pub open spec fn default_poller(v: BatteryView) -> (TimerView, Seq<BatteryEffect>) {
    restart_poller(v.poller, (v.polling_interval * 1000) as u64, None)
}

/// The fast poller: every 250 ms, ten times.
pub open spec fn fast_poller(v: BatteryView) -> (TimerView, Seq<BatteryEffect>) {
    restart_poller(v.poller, FAST_POLL_INTERVAL_MS, Some(FAST_POLL_TICKS))
}

/// Setting a protection mode: with both thresholds, both are written; with only an
/// end threshold, it is lowered to the mode's start threshold; then the fast poller
/// runs.  Without an end threshold only the mode is recorded.
pub open spec fn set_protection_mode_spec(v: BatteryView, mode: BatteryProtection) -> (
    BatteryView,
    Seq<BatteryEffect>,
) {
    let (start, end) = spec_thresholds(mode);
    let v1 = BatteryView { protection_mode: mode, ..v };
    if !v.has_end_threshold {
        (v1, Seq::empty())
    } else {
        let (writes, v2) = if v.has_start_threshold {
            (
                seq![BatteryEffect::WriteStartThreshold(start), BatteryEffect::WriteEndThreshold(end)],
                v1,
            )
        } else {
            (seq![BatteryEffect::WriteEndThreshold(start)], BatteryView { drop_threshold: true, ..v1 })
        };
        let (poller, timer) = fast_poller(v2);
        (BatteryView { poller, ..v2 }, writes + timer)
    }
}

/// While the start threshold is emulated, a lowered end threshold is raised once
/// the charge falls to the start threshold, and a raised one is lowered once the
/// charge reaches the end threshold.
pub open spec fn emulation_step(v: BatteryView, charge: u8) -> (BatteryView, Seq<BatteryEffect>) {
    let (start, end) = spec_thresholds(v.protection_mode);
    if !emulates_start(v) {
        (v, Seq::empty())
    } else if v.drop_threshold && charge <= start {
        (BatteryView { drop_threshold: false, ..v }, seq![BatteryEffect::WriteEndThreshold(end)])
    } else if !v.drop_threshold && charge >= end {
        (BatteryView { drop_threshold: true, ..v }, seq![BatteryEffect::WriteEndThreshold(start)])
    } else {
        (v, Seq::empty())
    }
}

/// The poller's tick at the start of a poll; when the fast poller has stopped,
/// the regular poller takes over.
pub open spec fn poll_timer_step(v: BatteryView) -> (BatteryView, Seq<BatteryEffect>) {
    let ticked = tick(v.poller);
    let e1: Seq<BatteryEffect> = if at_limit(v.poller) {
        seq![BatteryEffect::Timer(TimerCommand::Disarm)]
    } else {
        Seq::empty()
    };
    let v1 = BatteryView { poller: ticked, ..v };
    if !ticked.running {
        let (poller, timer) = default_poller(v1);
        (BatteryView { poller, ..v1 }, e1 + timer)
    } else {
        (v1, e1)
    }
}

/// A changed charge or status is recorded and broadcast, the charge first.
pub open spec fn record_step(v: BatteryView, charge: u8, status: BatteryStatus) -> (
    BatteryView,
    Seq<BatteryEffect>,
) {
    let (v1, e1) = if v.charge != charge {
        (
            BatteryView { charge, ..v },
            seq![BatteryEffect::Broadcast(Message::BatteryCharge(percentage(clamp_percent(charge as int))))],
        )
    } else {
        (v, Seq::empty())
    };
    if v1.status != status {
        (BatteryView { status, ..v1 }, e1.push(BatteryEffect::Broadcast(Message::BatteryStatus(status))))
    } else {
        (v1, e1)
    }
}

/// One poll with the freshly read `charge` and `status`: the poller ticks, the
/// emulated threshold is adjusted, and a changed charge or status is recorded and
/// broadcast.
pub open spec fn poll_spec(v: BatteryView, charge: u8, status: BatteryStatus) -> (
    BatteryView,
    Seq<BatteryEffect>,
) {
    let (v1, e1) = poll_timer_step(v);
    let (v2, e2) = emulation_step(v1, charge);
    let (v3, e3) = record_step(v2, charge, status);
    (v3, e1 + e2 + e3)
}

impl BatteryModule {
    /// A module that has just read `charge` and `status`: the protection mode is
    /// applied and the regular poller started.
    pub fn init(
        charge: u8,
        status: BatteryStatus,
        polling_interval: u8,
        protection_mode: BatteryProtection,
        drop_threshold: bool,
        has_start_threshold: bool,
        has_end_threshold: bool,
    ) -> (r: (BatteryModule, Vec<BatteryEffect>))
        ensures
            ({
                let v0 = BatteryView {
                    charge,
                    status,
                    protection_mode,
                    has_start_threshold,
                    has_end_threshold,
                    drop_threshold,
                    polling_interval,
                    poller: TimerView { interval_ms: None, limit: None, count: 0, running: false },
                };
                let (v1, e1) = set_protection_mode_spec(v0, protection_mode);
                let (poller, e2) = default_poller(v1);
                r.0@ == (BatteryView { poller, ..v1 }) && r.1@ == e1 + e2
            }),
    {
        let mut battery = BatteryModule {
            charge,
            status,
            protection_mode,
            has_start_threshold,
            has_end_threshold,
            drop_threshold,
            polling_interval,
            poller: Timer::new(),
        };
        let mut effects = battery.set_protection_mode(protection_mode);
        let mut more = battery.start_default_poller();
        effects.append(&mut more);
        (battery, effects)
    }

    fn start_default_poller(&mut self) -> (effects: Vec<BatteryEffect>)
        ensures
            ({
                let (poller, e) = default_poller(old(self)@);
                &&& final(self)@ == (BatteryView { poller, ..old(self)@ })
                &&& effects@ == e
            }),
    {
        let interval_ms = self.polling_interval as u64 * 1000;
        self.restart_poller(interval_ms, None)
    }

    fn start_millisecond_poller(&mut self) -> (effects: Vec<BatteryEffect>)
        ensures
            ({
                let (poller, e) = fast_poller(old(self)@);
                &&& final(self)@ == (BatteryView { poller, ..old(self)@ })
                &&& effects@ == e
            }),
    {
        self.restart_poller(FAST_POLL_INTERVAL_MS, Some(FAST_POLL_TICKS))
    }

    fn restart_poller(&mut self, interval_ms: u64, limit: Option<u64>) -> (effects: Vec<
        BatteryEffect,
    >)
        ensures
            ({
                let (poller, e) = restart_poller(old(self)@.poller, interval_ms, limit);
                &&& final(self)@ == (BatteryView { poller, ..old(self)@ })
                &&& effects@ == e
            }),
    {
        let mut effects: Vec<BatteryEffect> = Vec::new();
        if let Some(cmd) = self.poller.set(interval_ms, limit) {
            effects.push(BatteryEffect::Timer(cmd));
        }
        if let Some(cmd) = self.poller.start() {
            effects.push(BatteryEffect::Timer(cmd));
        }
        proof {
            let (poller, e) = restart_poller(old(self)@.poller, interval_ms, limit);
            assert(effects@ =~= e);
        }
        effects
    }

    /// The charge as a percentage (values above 100 count as 100).
    pub fn get_charge(&self) -> (p: Percentage)
        ensures
            p@ == clamp_percent(self@.charge as int),
    {
        Percentage::from(self.charge)
    }

    pub fn get_status(&self) -> (s: BatteryStatus)
        ensures
            s == self@.status,
    {
        self.status
    }

    /// Charge protection is available when the hardware has an end threshold.
    pub fn has_protection(&self) -> (b: bool)
        ensures
            b == self@.has_end_threshold,
    {
        self.has_end_threshold
    }

    pub fn get_protection_mode(&self) -> (m: BatteryProtection)
        ensures
            m == self@.protection_mode,
    {
        self.protection_mode
    }

    pub fn get_drop_threshold(&self) -> (b: bool)
        ensures
            b == self@.drop_threshold,
    {
        self.drop_threshold
    }

    /// Applies a protection mode; see `set_protection_mode_spec`.
    pub fn set_protection_mode(&mut self, mode: BatteryProtection) -> (effects: Vec<BatteryEffect>)
        ensures
            (final(self)@, effects@) == set_protection_mode_spec(old(self)@, mode),
    {
        self.protection_mode = mode;
        let mut effects: Vec<BatteryEffect> = Vec::new();
        if self.has_end_threshold {
            let (start_threshold, end_threshold) = Self::get_thresholds(mode);
            if self.has_start_threshold {
                effects.push(BatteryEffect::WriteStartThreshold(start_threshold));
                effects.push(BatteryEffect::WriteEndThreshold(end_threshold));
            } else {
                self.drop_threshold = true;
                effects.push(BatteryEffect::WriteEndThreshold(start_threshold));
            }
            let mut timer = self.start_millisecond_poller();
            let ghost writes = effects@;
            effects.append(&mut timer);
            proof {
                let (v, e) = set_protection_mode_spec(old(self)@, mode);
                assert(effects@ =~= e);
                assert(self@ == v);
            }
        } else {
            proof {
                assert(effects@ =~= Seq::<BatteryEffect>::empty());
            }
        }
        effects
    }

    /// Handles one poll: the caller has counted the tick on the kernel timer and
    /// read the current `charge` and `status`; see `poll_spec`.
    pub fn poll(&mut self, charge: u8, status: BatteryStatus) -> (effects: Vec<BatteryEffect>)
        ensures
            (final(self)@, effects@) == poll_spec(old(self)@, charge, status),
    {
        let mut effects = self.poll_timer();
        let ghost v1 = self@;
        let ghost e1 = effects@;
        let mut emulation = self.emulate_start_threshold(charge);
        let ghost v2 = self@;
        let ghost e2 = emulation@;
        effects.append(&mut emulation);
        let mut record = self.record(charge, status);
        let ghost e3 = record@;
        effects.append(&mut record);
        proof {
            assert(effects@ =~= e1 + e2 + e3);
        }
        effects
    }

    fn poll_timer(&mut self) -> (effects: Vec<BatteryEffect>)
        ensures
            (final(self)@, effects@) == poll_timer_step(old(self)@),
    {
        let mut effects: Vec<BatteryEffect> = Vec::new();
        if let Some(cmd) = self.poller.update() {
            effects.push(BatteryEffect::Timer(cmd));
        }
        let ghost e1 = effects@;
        if !self.poller.running() {
            let mut timer = self.start_default_poller();
            effects.append(&mut timer);
        }
        proof {
            let (v, e) = poll_timer_step(old(self)@);
            assert(effects@ =~= e);
        }
        effects
    }

    fn emulate_start_threshold(&mut self, charge: u8) -> (effects: Vec<BatteryEffect>)
        ensures
            (final(self)@, effects@) == emulation_step(old(self)@, charge),
    {
        let mut effects: Vec<BatteryEffect> = Vec::new();
        if self.has_end_threshold && !self.has_start_threshold {
            let (start_threshold, end_threshold) = Self::get_thresholds(self.protection_mode);
            if self.drop_threshold {
                if charge <= start_threshold {
                    self.drop_threshold = false;
                    effects.push(BatteryEffect::WriteEndThreshold(end_threshold));
                }
            } else {
                if charge >= end_threshold {
                    self.drop_threshold = true;
                    effects.push(BatteryEffect::WriteEndThreshold(start_threshold));
                }
            }
        }
        proof {
            let (v, e) = emulation_step(old(self)@, charge);
            assert(effects@ =~= e);
        }
        effects
    }

    fn record(&mut self, charge: u8, status: BatteryStatus) -> (effects: Vec<BatteryEffect>)
        ensures
            (final(self)@, effects@) == record_step(old(self)@, charge, status),
    {
        let mut effects: Vec<BatteryEffect> = Vec::new();
        if self.charge != charge {
            self.charge = charge;
            effects.push(BatteryEffect::Broadcast(Message::BatteryCharge(Percentage::from(charge))));
        }
        if self.status != status {
            self.status = status;
            effects.push(BatteryEffect::Broadcast(Message::BatteryStatus(status)));
        }
        proof {
            let (v, e) = record_step(old(self)@, charge, status);
            assert(effects@ =~= e);
        }
        effects
    }

    /// A change of power supply starts the fast poller.
    pub fn on_power_supply_event(&mut self, online_status_changed: bool) -> (effects: Vec<
        BatteryEffect,
    >)
        ensures
            online_status_changed ==> ({
                let (poller, e) = fast_poller(old(self)@);
                &&& final(self)@ == (BatteryView { poller, ..old(self)@ })
                &&& effects@ == e
            }),
            !online_status_changed ==> final(self)@ == old(self)@ && effects@.len() == 0,
    {
        if online_status_changed {
            self.start_millisecond_poller()
        } else {
            Vec::new()
        }
    }

    /// The (start, end) charge thresholds of a protection mode.
    pub fn get_thresholds(mode: BatteryProtection) -> (t: (u8, u8))
        ensures
            t == spec_thresholds(mode),
    {
        match mode {
            BatteryProtection::Off => (95, 100),
            BatteryProtection::On => (75, 80),
            BatteryProtection::Stationary => (40, 60),
        }
    }
}

/// The value the end threshold file holds after `effects`, when it held `current`
/// before: the value of the last end threshold write, if any.
pub open spec fn end_threshold_after(effects: Seq<BatteryEffect>, current: u8) -> u8
    decreases effects.len(),
{
    if effects.len() == 0 {
        current
    } else {
        match effects.last() {
            BatteryEffect::WriteEndThreshold(value) => value,
            _ => end_threshold_after(effects.drop_last(), current),
        }
    }
}

proof fn lemma_end_threshold_after_append(a: Seq<BatteryEffect>, b: Seq<BatteryEffect>, current: u8)
    ensures
        end_threshold_after(a + b, current) == end_threshold_after(b, end_threshold_after(a, current)),
    decreases b.len(),
{
    if b.len() > 0 {
        assert((a + b).drop_last() =~= a + b.drop_last());
        lemma_end_threshold_after_append(a, b.drop_last(), current);
    } else {
        assert(a + b =~= a);
    }
}

proof fn lemma_no_end_write(e: Seq<BatteryEffect>, current: u8)
    requires
        forall|i: int| 0 <= i < e.len() ==> !(e[i] is WriteEndThreshold),
    ensures
        end_threshold_after(e, current) == current,
    decreases e.len(),
{
    if e.len() > 0 {
        lemma_no_end_write(e.drop_last(), current);
    }
}

/// While the start threshold is emulated, setting a protection mode leaves the end
/// threshold file lowered to the new mode's start threshold, whatever it held.
pub proof fn lemma_set_mode_sets_emulated_threshold(v: BatteryView, mode: BatteryProtection, file: u8)
    requires
        emulates_start(v),
    ensures
        ({
            let (w, effects) = set_protection_mode_spec(v, mode);
            &&& w.drop_threshold
            &&& end_threshold_after(effects, file) == emulated_end_threshold(w)
            &&& end_threshold_after(effects, file) == spec_thresholds(mode).0
        }),
{
    let (w, effects) = set_protection_mode_spec(v, mode);
    let (start, end) = spec_thresholds(mode);
    let writes = seq![BatteryEffect::WriteEndThreshold(start)];
    let v1 = BatteryView { protection_mode: mode, drop_threshold: true, ..v };
    let (poller, timer) = fast_poller(v1);
    lemma_end_threshold_after_append(writes, timer, file);
    lemma_no_end_write(timer, start);
}

/// While the start threshold is emulated, a poll keeps the end threshold file
/// holding the value that the lowered flag selects: if it did before the poll,
/// it does after.
pub proof fn lemma_poll_keeps_emulated_threshold(v: BatteryView, charge: u8, status: BatteryStatus)
    requires
        emulates_start(v),
    ensures
        ({
            let (w, effects) = poll_spec(v, charge, status);
            end_threshold_after(effects, emulated_end_threshold(v)) == emulated_end_threshold(w)
        }),
{
    let (v1, e1) = poll_timer_step(v);
    let (v2, e2) = emulation_step(v1, charge);
    let (v3, e3) = record_step(v2, charge, status);
    let file = emulated_end_threshold(v);
    lemma_no_end_write(e1, file);
    lemma_no_end_write(e3, end_threshold_after(e2, file));
    lemma_end_threshold_after_append(e1, e2, file);
    lemma_end_threshold_after_append(e1 + e2, e3, file);
}

/// The emulation is a hysteresis: the end threshold is raised exactly when it is
/// lowered and the charge has fallen to the start threshold, and lowered exactly
/// when it is raised and the charge has reached the end threshold.  Without
/// emulation a poll never writes a threshold nor changes the flag.
pub proof fn lemma_poll_hysteresis(v: BatteryView, charge: u8, status: BatteryStatus)
    ensures
        ({
            let (w, effects) = poll_spec(v, charge, status);
            let (start, end) = spec_thresholds(v.protection_mode);
            &&& w.protection_mode == v.protection_mode
            &&& emulates_start(v) ==> (w.drop_threshold != v.drop_threshold <==> (v.drop_threshold
                && charge <= start) || (!v.drop_threshold && charge >= end))
            &&& !emulates_start(v) ==> w.drop_threshold == v.drop_threshold
            &&& !emulates_start(v) ==> forall|i: int|
                0 <= i < effects.len() ==> !(effects[i] is WriteEndThreshold)
                    && !(effects[i] is WriteStartThreshold)
        }),
{
}

/// Polling never stops for good: after any poll the poller runs.  When the tick
/// ends a limited run (or the poller was not running), the regular poller takes
/// over: every `polling_interval` seconds, without limit, and the poll's effects
/// arm the timer with that interval.  This holds whatever threshold files exist.
pub proof fn lemma_poll_keeps_polling(v: BatteryView, charge: u8, status: BatteryStatus)
    ensures
        ({
            let (w, effects) = poll_spec(v, charge, status);
            let regular_ms = (v.polling_interval * 1000) as u64;
            &&& w.poller.running
            &&& !tick(v.poller).running ==> {
                &&& w.poller.limit is None
                &&& w.poller.interval_ms == Some(regular_ms)
                &&& effects.contains(BatteryEffect::Timer(TimerCommand::Arm { interval_ms: regular_ms }))
            }
            &&& tick(v.poller).running ==> w.poller == tick(v.poller)
        }),
{
    let (v1, e1) = poll_timer_step(v);
    let (v2, e2) = emulation_step(v1, charge);
    let (v3, e3) = record_step(v2, charge, status);
    let effects = e1 + e2 + e3;
    let ticked = tick(v.poller);
    if !ticked.running {
        let regular_ms = (v.polling_interval * 1000) as u64;
        let arm = BatteryEffect::Timer(TimerCommand::Arm { interval_ms: regular_ms });
        assert(e1.last() == arm);
        assert(effects[e1.len() - 1] == e1[e1.len() - 1]);
        assert(effects.contains(arm));
    }
}

/// A poll records the charge and status it was given, and broadcasts each exactly
/// when it changed.
pub proof fn lemma_poll_broadcasts_changes(v: BatteryView, charge: u8, status: BatteryStatus)
    ensures
        ({
            let (w, effects) = poll_spec(v, charge, status);
            &&& w.charge == charge
            &&& w.status == status
            &&& (exists|i: int| 0 <= i < effects.len() && effects[i] == BatteryEffect::Broadcast(
                Message::BatteryStatus(status),
            )) <==> v.status != status
            &&& (exists|i: int| 0 <= i < effects.len() && #[trigger] effects[i] is Broadcast
                && effects[i]->Broadcast_0 is BatteryCharge) <==> v.charge != charge
        }),
{
    let (v1, e1) = poll_timer_step(v);
    let (v2, e2) = emulation_step(v1, charge);
    let (v3, e3) = record_step(v2, charge, status);
    let effects = e1 + e2 + e3;
    assert forall|i: int| 0 <= i < e1.len() + e2.len() implies !(#[trigger] effects[i] is Broadcast) by {
        if i < e1.len() {
            assert(effects[i] == e1[i]);
        } else {
            assert(effects[i] == e2[i - e1.len()]);
        }
    }
    if v.charge != charge {
        assert(effects[(e1.len() + e2.len()) as int] == e3[0]);
    }
    if v.status != status {
        assert(effects[effects.len() - 1] == e3.last());
    }
}

/// The text of the battery status file.
pub type StatusString = StackString<16>;

/// The status named by the lower-cased text of the status file: "not charging",
/// "full" and "unknown" are inactive; "charging" and "discharging" are what they say.
pub open spec fn status_of_text(t: Seq<u8>) -> Option<BatteryStatus> {
    if t == encode_utf8("not charging"@) || t == encode_utf8("full"@) || t == encode_utf8(
        "unknown"@,
    ) {
        Some(BatteryStatus::Inactive)
    } else if t == encode_utf8("charging"@) {
        Some(BatteryStatus::Charging)
    } else if t == encode_utf8("discharging"@) {
        Some(BatteryStatus::Discharging)
    } else {
        None
    }
}

fn text_is(s: &[u8], name: &str) -> (b: bool)
    ensures
        b == (s@ == name.spec_bytes()),
{
    let n = name.as_bytes();
    if s.len() != n.len() {
        return false;
    }
    let mut i: usize = 0;
    while i < s.len()
        invariant
            s@.len() == n@.len(),
            n@ == name.spec_bytes(),
            i <= s@.len(),
            forall|j: int| 0 <= j < i ==> s@[j] == n@[j],
        decreases s@.len() - i,
    {
        if s[i] != n[i] {
            return false;
        }
        i += 1;
    }
    assert(s@ =~= n@);
    true
}

impl BatteryStatus {
    /// The status named by the status file, matched without regard to case; `None`
    /// when the text names no known status.
    pub fn from_status_string(s: StatusString) -> (r: Option<BatteryStatus>)
        ensures
            r == status_of_text(text_of(s@.map_values(|b: u8| ascii_lower(b)))),
    {
        let lower = s.into_lowercase();
        let t = lower.as_bytes();
        if text_is(t, "not charging") || text_is(t, "full") || text_is(t, "unknown") {
            Some(BatteryStatus::Inactive)
        } else if text_is(t, "charging") {
            Some(BatteryStatus::Charging)
        } else if text_is(t, "discharging") {
            Some(BatteryStatus::Discharging)
        } else {
            None
        }
    }
}

} // verus!
