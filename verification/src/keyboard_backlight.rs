//! The keyboard backlight module's decisions: its scale of four levels, and the
//! short polling that notices a change made by the keyboard's own keys.
use crate::common::{keyboard_backlight_of_value, KeyboardBacklight, Message};
use crate::timer::{at_limit, stopped, tick, Timer, TimerCommand, TimerView};
use vstd::prelude::*;

verus! {

/// Milliseconds between two readings while polling, and how many readings.
pub const POLL_INTERVAL_MS: u64 = 50;

pub const POLL_TICKS: u64 = 10;

/// A maximum brightness can be used when it is one less than a power of two
/// from 4 to 512.
pub open spec fn spec_max_brightness_valid(n: u32) -> bool {
    n + 1 == 4 || n + 1 == 8 || n + 1 == 16 || n + 1 == 32 || n + 1 == 64 || n + 1 == 128 || n + 1
        == 256 || n + 1 == 512
}

pub fn is_max_brightness_valid(n: u32) -> (b: bool)
    ensures
        b == spec_max_brightness_valid(n),
{
    if n == u32::MAX {
        return false;
    }
    let m = n + 1;
    let mut e: u32 = 2;
    while e < 10
        invariant
            2 <= e <= 10,
            m == n + 1,
            forall|k: u32| 2 <= k < e ==> m != (1u32 << k),
        decreases 10 - e,
    {
        if m == (1u32 << e) {
            proof {
                lemma_powers(e);
            }
            return true;
        }
        e += 1;
    }
    proof {
        assert forall|k: u32| 2 <= k < 10 implies #[trigger] (1u32 << k) != m by {}
        lemma_powers(2);
        lemma_powers(3);
        lemma_powers(4);
        lemma_powers(5);
        lemma_powers(6);
        lemma_powers(7);
        lemma_powers(8);
        lemma_powers(9);
    }
    false
}

proof fn lemma_powers(e: u32)
    requires
        2 <= e < 10,
    ensures
        e == 2 ==> (1u32 << e) == 4,
        e == 3 ==> (1u32 << e) == 8,
        e == 4 ==> (1u32 << e) == 16,
        e == 5 ==> (1u32 << e) == 32,
        e == 6 ==> (1u32 << e) == 64,
        e == 7 ==> (1u32 << e) == 128,
        e == 8 ==> (1u32 << e) == 256,
        e == 9 ==> (1u32 << e) == 512,
{
    assert(e == 2 ==> (1u32 << e) == 4) by (bit_vector);
    assert(e == 3 ==> (1u32 << e) == 8) by (bit_vector);
    assert(e == 4 ==> (1u32 << e) == 16) by (bit_vector);
    assert(e == 5 ==> (1u32 << e) == 32) by (bit_vector);
    assert(e == 6 ==> (1u32 << e) == 64) by (bit_vector);
    assert(e == 7 ==> (1u32 << e) == 128) by (bit_vector);
    assert(e == 8 ==> (1u32 << e) == 256) by (bit_vector);
    assert(e == 9 ==> (1u32 << e) == 512) by (bit_vector);
}

/// The raw brightness of one level: a quarter of the range.
pub fn brightness_step(max_brightness: u32) -> (step: u32)
    requires
        max_brightness < u32::MAX,
    ensures
        step == (max_brightness + 1) / 4,
{
    (max_brightness + 1) / 4
}

/// The level shown for a raw brightness: the raw value divided by the step,
/// truncated to a byte; 3 and above is Max.
pub open spec fn level_of_raw(raw: u32, step: u32) -> KeyboardBacklight {
    keyboard_backlight_of_value(((raw / step) % 256) as u8)
}

pub fn keyboard_level_of_raw(raw: u32, step: u32) -> (k: KeyboardBacklight)
    requires
        step > 0,
    ensures
        k == level_of_raw(raw, step),
{
    let q = raw / step;
    let byte = (q % 256) as u8;
    KeyboardBacklight::from(byte)
}

/// The raw brightness written for a level.
pub fn raw_of_level(level: KeyboardBacklight, step: u32) -> (raw: u32)
    requires
        step <= 1431655765,
    ensures
        raw == level.spec_value() * step,
{
    let v = level.value() as u32;
    assert(v * step <= 3 * 1431655765) by (nonlinear_arith)
        requires
            v <= 3,
            step <= 1431655765,
    ;
    v * step
}

/// Writing a level and reading it back gives the same level.
pub proof fn lemma_level_roundtrip(level: KeyboardBacklight, step: u32)
    requires
        0 < step <= 1431655765,
    ensures
        level_of_raw((level.spec_value() * step) as u32, step) == level,
{
    let v = level.spec_value();
    assert((v * step) / (step as int) == v) by (nonlinear_arith)
        requires
            step > 0,
    ;
}

/// How the keyboard backlight device is chosen.
#[derive(Debug, Clone, Copy, PartialEq, Eq, Structural)]
pub enum KeyboardSelection {
    /// Use the device named in the configuration.
    Configured,
    /// The configured device cannot be used: warn, and go without the module.
    Rejected,
    /// No device is configured: look for one.
    Autoselect,
}

/// A configured device is used when it is valid and rejected otherwise; without
/// one, a device is looked for.  `configured_valid` is `None` when no device is
/// configured, and otherwise whether the configured one is valid.
pub fn keyboard_selection(configured_valid: Option<bool>) -> (s: KeyboardSelection)
    ensures
        s == (match configured_valid {
            Some(true) => KeyboardSelection::Configured,
            Some(false) => KeyboardSelection::Rejected,
            None => KeyboardSelection::Autoselect,
        }),
{
    match configured_valid {
        Some(valid) => if valid {
            KeyboardSelection::Configured
        } else {
            KeyboardSelection::Rejected
        },
        None => KeyboardSelection::Autoselect,
    }
}

/// Something the keyboard backlight module asks of the system.
#[derive(Debug, Clone, Copy, PartialEq, Eq, Structural)]
pub enum KeyboardEffect {
    /// Write the raw brightness file.
    WriteBrightness(u32),
    /// Arm or disarm the polling timer.
    Timer(TimerCommand),
    /// Send a message to every subscribed client.
    Broadcast(Message),
}

/// The module's state.
pub struct KeyboardBacklightView {
    pub step: u32,
    pub brightness: KeyboardBacklight,
    pub poller: TimerView,
}

pub struct KeyboardBacklightModule {
    step: u32,
    brightness: KeyboardBacklight,
    poller: Timer,
}

impl View for KeyboardBacklightModule {
    type V = KeyboardBacklightView;

    closed spec fn view(&self) -> KeyboardBacklightView {
        KeyboardBacklightView { step: self.step, brightness: self.brightness, poller: self.poller@ }
    }
}

/// One poll with the freshly read raw brightness: the poller ticks, and a level
/// that differs from the known one stops the poller, is recorded and broadcast.
pub open spec fn keyboard_poll_spec(v: KeyboardBacklightView, raw: u32) -> (
    KeyboardBacklightView,
    Seq<KeyboardEffect>,
) {
    let e1: Seq<KeyboardEffect> = if at_limit(v.poller) {
        seq![KeyboardEffect::Timer(TimerCommand::Disarm)]
    } else {
        Seq::empty()
    };
    let ticked = tick(v.poller);
    let level = level_of_raw(raw, v.step);
    if level != v.brightness {
        (
            KeyboardBacklightView { brightness: level, poller: stopped(ticked), ..v },
            e1 + seq![KeyboardEffect::Timer(TimerCommand::Disarm), KeyboardEffect::Broadcast(Message::KeyboardBacklight(level))],
        )
    } else {
        (KeyboardBacklightView { poller: ticked, ..v }, e1)
    }
}

impl KeyboardBacklightModule {
    /// The step is positive, and small enough that three steps fit in a `u32`.
    #[verifier::type_invariant]
    spec fn step_in_range(self) -> bool {
        0 < self.step <= 1431655765
    }

    /// A module with the given step, set to `brightness`: the level is written, and
    /// the poller is prepared (every 50 ms, ten times) but not started.
    pub fn init(step: u32, brightness: KeyboardBacklight) -> (r: (KeyboardBacklightModule, u32))
        requires
            0 < step <= 1431655765,
        ensures
            r.0@ == (KeyboardBacklightView {
                step,
                brightness,
                poller: TimerView {
                    interval_ms: Some(POLL_INTERVAL_MS),
                    limit: Some(POLL_TICKS),
                    count: 0,
                    running: false,
                },
            }),
            r.1 == brightness.spec_value() * step,
    {
        let mut poller = Timer::new();
        let _ = poller.set(POLL_INTERVAL_MS, Some(POLL_TICKS));
        let module = KeyboardBacklightModule { step, brightness, poller };
        let raw = module.set_brightness(brightness);
        (module, raw)
    }

    pub fn get_brightness(&self) -> (k: KeyboardBacklight)
        ensures
            k == self@.brightness,
    {
        self.brightness
    }

    /// The raw value to write for `brightness`; the known level is unchanged until
    /// the next poll reads it back.
    pub fn set_brightness(&self, brightness: KeyboardBacklight) -> (raw: u32)
        ensures
            raw == brightness.spec_value() * self@.step,
    {
        proof {
            use_type_invariant(self);
        }
        raw_of_level(brightness, self.step)
    }

    /// The backlight file changed: poll it for a while.
    pub fn start_polling(&mut self) -> (cmd: Option<TimerCommand>)
        ensures
            final(self)@.step == old(self)@.step,
            final(self)@.brightness == old(self)@.brightness,
            match old(self)@.poller.interval_ms {
                Some(ms) => cmd == Some(TimerCommand::Arm { interval_ms: ms }) && final(self)@.poller
                    == (TimerView { running: true, ..old(self)@.poller }),
                None => cmd is None && final(self)@.poller == old(self)@.poller,
            },
    {
        proof {
            use_type_invariant(&*self);
        }
        self.poller.start()
    }

    /// Handles one poll; the caller has counted the tick and read `raw`.
    pub fn poll(&mut self, raw: u32) -> (effects: Vec<KeyboardEffect>)
        ensures
            (final(self)@, effects@) == keyboard_poll_spec(old(self)@, raw),
    {
        proof {
            use_type_invariant(&*self);
        }
        let mut effects: Vec<KeyboardEffect> = Vec::new();
        if let Some(cmd) = self.poller.update() {
            effects.push(KeyboardEffect::Timer(cmd));
        }
        let ghost e1 = effects@;
        let brightness = keyboard_level_of_raw(raw, self.step);
        if self.brightness != brightness {
            let cmd = self.poller.stop();
            effects.push(KeyboardEffect::Timer(cmd));
            self.brightness = brightness;
            effects.push(KeyboardEffect::Broadcast(Message::KeyboardBacklight(brightness)));
        }
        proof {
            let (v, e) = keyboard_poll_spec(old(self)@, raw);
            assert(effects@ =~= e);
        }
        effects
    }
}

} // verus!
