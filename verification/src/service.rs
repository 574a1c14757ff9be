//! The client side used by desktop components: the last known value of each
//! setting, the requests that change them, the handling of what the daemon sends,
//! and the schedule of reconnection attempts.
use crate::common::{
    message_try_from, BatteryProtection, BatteryStatus, KeyboardBacklight, Message as Update,
    Packet, Percentage, PlatformProfile, PlatformProfileChoices, ProtocolError, SetRequest, Signal,
};
use vstd::prelude::*;

verus! {

/// What the connection task reports to the service.
#[derive(Debug, Clone, Copy, PartialEq, Eq, Structural)]
pub enum Message {
    /// The daemon sent a value or a signal.
    Update(Update),
    /// The daemon has sent every value; requests can now be written.
    SetWriter,
    /// The connection is gone; every value is unknown again.
    Reset,
}

/// The values known to the service, and whether requests can be sent.
pub struct DeviceServiceView {
    pub battery_charge: Option<Percentage>,
    pub battery_status: Option<BatteryStatus>,
    pub battery_protection: Option<BatteryProtection>,
    pub display_brightness: Option<Percentage>,
    pub keyboard_backlight: Option<KeyboardBacklight>,
    pub platform_profile: Option<PlatformProfile>,
    pub platform_profile_choices: Option<PlatformProfileChoices>,
    pub has_writer: bool,
}

pub struct DeviceService {
    battery_charge: Option<Percentage>,
    battery_status: Option<BatteryStatus>,
    battery_protection: Option<BatteryProtection>,
    display_brightness: Option<Percentage>,
    keyboard_backlight: Option<KeyboardBacklight>,
    platform_profile: Option<PlatformProfile>,
    platform_profile_choices: Option<PlatformProfileChoices>,
    has_writer: bool,
}

impl View for DeviceService {
    type V = DeviceServiceView;

    closed spec fn view(&self) -> DeviceServiceView {
        DeviceServiceView {
            battery_charge: self.battery_charge,
            battery_status: self.battery_status,
            battery_protection: self.battery_protection,
            display_brightness: self.display_brightness,
            keyboard_backlight: self.keyboard_backlight,
            platform_profile: self.platform_profile,
            platform_profile_choices: self.platform_profile_choices,
            has_writer: self.has_writer,
        }
    }
}

/// Nothing known, no connection.
pub open spec fn empty_service() -> DeviceServiceView {
    DeviceServiceView {
        battery_charge: None,
        battery_status: None,
        battery_protection: None,
        display_brightness: None,
        keyboard_backlight: None,
        platform_profile: None,
        platform_profile_choices: None,
        has_writer: false,
    }
}

/// The service after `message`: an update records its value (a signal changes
/// nothing), `SetWriter` makes requests possible, `Reset` forgets everything.
pub open spec fn update_spec(v: DeviceServiceView, message: Message) -> DeviceServiceView {
    match message {
        Message::Update(update) => match update {
            Update::BatteryCharge(c) => DeviceServiceView { battery_charge: Some(c), ..v },
            Update::BatteryStatus(s) => DeviceServiceView { battery_status: Some(s), ..v },
            Update::BatteryProtection(p) => DeviceServiceView { battery_protection: Some(p), ..v },
            Update::DisplayBrightness(b) => DeviceServiceView { display_brightness: Some(b), ..v },
            Update::KeyboardBacklight(k) => DeviceServiceView { keyboard_backlight: Some(k), ..v },
            Update::PlatformProfile(p) => DeviceServiceView { platform_profile: Some(p), ..v },
            Update::PlatformProfileChoices(c) => DeviceServiceView {
                platform_profile_choices: Some(c),
                ..v
            },
            Update::Signal(_) => v,
        },
        Message::SetWriter => DeviceServiceView { has_writer: true, ..v },
        Message::Reset => empty_service(),
    }
}

impl Default for DeviceService {
    fn default() -> (s: Self)
        ensures
            s@ == empty_service(),
    {
        DeviceService {
            battery_charge: None,
            battery_status: None,
            battery_protection: None,
            display_brightness: None,
            keyboard_backlight: None,
            platform_profile: None,
            platform_profile_choices: None,
            has_writer: false,
        }
    }
}

impl DeviceService {
    /// Charge and status together, once both are known.
    pub fn get_battery_info(&self) -> (r: Option<(Percentage, BatteryStatus)>)
        ensures
            r == (match (self@.battery_charge, self@.battery_status) {
                (Some(c), Some(s)) => Some((c, s)),
                _ => None,
            }),
    {
        match (self.battery_charge, self.battery_status) {
            (Some(charge), Some(status)) => Some((charge, status)),
            _ => None,
        }
    }

    pub fn get_battery_protection(&self) -> (r: Option<BatteryProtection>)
        ensures
            r == self@.battery_protection,
    {
        self.battery_protection
    }

    /// The packet to write for the change, when requests can be sent.
    pub fn set_battery_protection(&mut self, protection: BatteryProtection) -> (r: Option<Packet>)
        ensures
            final(self)@ == old(self)@,
            r == request_packet(old(self)@, SetRequest::BatteryProtection { protection }),
    {
        self.set_request(SetRequest::BatteryProtection { protection })
    }

    pub fn get_display_brightness(&self) -> (r: Option<Percentage>)
        ensures
            r == self@.display_brightness,
    {
        self.display_brightness
    }

    /// The packet to write for the change, when requests can be sent.
    pub fn set_display_brightness(&mut self, brightness: Percentage) -> (r: Option<Packet>)
        ensures
            final(self)@ == old(self)@,
            r == request_packet(old(self)@, SetRequest::DisplayBrightness { brightness }),
    {
        self.set_request(SetRequest::DisplayBrightness { brightness })
    }

    pub fn get_keyboard_backlight(&self) -> (r: Option<KeyboardBacklight>)
        ensures
            r == self@.keyboard_backlight,
    {
        self.keyboard_backlight
    }

    /// The packet to write for the change, when requests can be sent.
    pub fn set_keyboard_backlight(&mut self, backlight: KeyboardBacklight) -> (r: Option<Packet>)
        ensures
            final(self)@ == old(self)@,
            r == request_packet(old(self)@, SetRequest::KeyboardBacklight { backlight }),
    {
        self.set_request(SetRequest::KeyboardBacklight { backlight })
    }

    pub fn get_platform_profile(&self) -> (r: Option<PlatformProfile>)
        ensures
            r == self@.platform_profile,
    {
        self.platform_profile
    }

    /// The packet to write for the change, when requests can be sent.
    pub fn set_platform_profile(&mut self, profile: PlatformProfile) -> (r: Option<Packet>)
        ensures
            final(self)@ == old(self)@,
            r == request_packet(old(self)@, SetRequest::PlatformProfile { profile }),
    {
        self.set_request(SetRequest::PlatformProfile { profile })
    }

    /// The choices and the current profile together, once both are known.
    pub fn get_platform_profile_package(&self) -> (r: Option<(PlatformProfileChoices, PlatformProfile)>)
        ensures
            r == (match (self@.platform_profile_choices, self@.platform_profile) {
                (Some(c), Some(p)) => Some((c, p)),
                _ => None,
            }),
    {
        match (self.platform_profile_choices, self.platform_profile) {
            (Some(choices), Some(profile)) => Some((choices, profile)),
            _ => None,
        }
    }

    fn set_request(&self, set: SetRequest) -> (r: Option<Packet>)
        ensures
            r == request_packet(self@, set),
    {
        if self.has_writer {
            let p = set.to_packet();
            proof {
                lemma_set_packet_unique(p, set);
            }
            Some(p)
        } else {
            None
        }
    }

    /// Applies what the connection task reported; returns the signal to warn about,
    /// when the daemon sent one.
    pub fn update(&mut self, message: Message) -> (warning: Option<Signal>)
        ensures
            final(self)@ == update_spec(old(self)@, message),
            warning == (match message {
                Message::Update(Update::Signal(s)) => Some(s),
                _ => None,
            }),
    {
        match message {
            Message::Update(update) => match update {
                Update::BatteryCharge(charge) => {
                    self.battery_charge = Some(charge);
                    None
                },
                Update::BatteryStatus(status) => {
                    self.battery_status = Some(status);
                    None
                },
                Update::BatteryProtection(protection) => {
                    self.battery_protection = Some(protection);
                    None
                },
                Update::DisplayBrightness(brightness) => {
                    self.display_brightness = Some(brightness);
                    None
                },
                Update::KeyboardBacklight(backlight) => {
                    self.keyboard_backlight = Some(backlight);
                    None
                },
                Update::PlatformProfile(profile) => {
                    self.platform_profile = Some(profile);
                    None
                },
                Update::PlatformProfileChoices(choices) => {
                    self.platform_profile_choices = Some(choices);
                    None
                },
                Update::Signal(signal) => Some(signal),
            },
            Message::SetWriter => {
                self.has_writer = true;
                None
            },
            Message::Reset => {
                self.battery_charge = None;
                self.battery_status = None;
                self.battery_protection = None;
                self.display_brightness = None;
                self.keyboard_backlight = None;
                self.platform_profile = None;
                self.platform_profile_choices = None;
                self.has_writer = false;
                None
            },
        }
    }
}

/// The packet of a set request, as an array.
pub open spec fn set_packet_of(set: SetRequest) -> Packet {
    choose|p: Packet| p@ == set.spec_packet()
}

/// The packet written for a set request: none while no writer is known.
pub open spec fn request_packet(v: DeviceServiceView, set: SetRequest) -> Option<Packet> {
    if v.has_writer {
        Some(set_packet_of(set))
    } else {
        None
    }
}

proof fn lemma_set_packet_unique(p: Packet, set: SetRequest)
    requires
        p@ == set.spec_packet(),
    ensures
        set_packet_of(set) == p,
{
    let q = set_packet_of(set);
    assert(q@ == set.spec_packet());
    assert(q =~= p);
}

/// What the connection task does with one packet from the daemon.
#[derive(Debug, Clone, Copy, PartialEq, Eq, Structural)]
pub enum FeedEvent {
    /// The daemon is synced: hand over the writer and start the retries afresh.
    Synced,
    /// Pass the value on.
    Update(Update),
}

/// `Synced` for the synced signal, the decoded message otherwise; a packet that
/// is no message ends the connection.
pub open spec fn feed_event_spec(packet: Packet) -> Result<FeedEvent, ProtocolError> {
    match message_try_from(packet) {
        Ok(update) => if update == Update::Signal(Signal::Synced) {
            Ok(FeedEvent::Synced)
        } else {
            Ok(FeedEvent::Update(update))
        },
        Err(e) => Err(e),
    }
}

/// Decodes one packet from the daemon; see `feed_event_spec`.
pub fn feed_event(packet: Packet) -> (r: Result<FeedEvent, ProtocolError>)
    ensures
        r == feed_event_spec(packet),
{
    match Update::try_from(packet) {
        Ok(update) => {
            if update == Update::Signal(Signal::Synced) {
                Ok(FeedEvent::Synced)
            } else {
                Ok(FeedEvent::Update(update))
            }
        },
        Err(e) => Err(e),
    }
}

/// Seconds to wait before each reconnection attempt.
pub open spec fn retry_intervals() -> Seq<u16> {
    seq![2u16, 5, 10, 15, 30, 60, 600]
}

/// Counts reconnection attempts: the `n`-th attempt in a row waits the `n`-th
/// interval, and after the last interval the service gives up.
pub struct ReconnectSchedule {
    attempt: usize,
}

impl View for ReconnectSchedule {
    type V = nat;

    /// The number of the next attempt, from 1.
    closed spec fn view(&self) -> nat {
        self.attempt as nat
    }
}

impl ReconnectSchedule {
    #[verifier::type_invariant]
    spec fn attempt_in_range(self) -> bool {
        1 <= self.attempt <= 8
    }

    pub fn new() -> (s: Self)
        ensures
            s@ == 1,
    {
        ReconnectSchedule { attempt: 1 }
    }

    /// The connection synced: the next attempt is the first again.
    pub fn reset(&mut self)
        ensures
            final(self)@ == 1,
    {
        self.attempt = 1;
    }

    /// The delay before the next attempt, or `None` when attempts are exhausted.
    pub fn next_delay(&mut self) -> (delay: Option<u16>)
        ensures
            old(self)@ <= 7 ==> delay == Some(retry_intervals()[old(self)@ - 1]) && final(self)@
                == old(self)@ + 1,
            old(self)@ > 7 ==> delay is None && final(self)@ == old(self)@,
    {
        proof {
            use_type_invariant(&*self);
        }
        let intervals: [u16; 7] = [2, 5, 10, 15, 30, 60, 600];
        if self.attempt <= intervals.len() {
            let delay = intervals[self.attempt - 1];
            proof {
                assert(intervals@ =~= retry_intervals());
            }
            self.attempt += 1;
            Some(delay)
        } else {
            None
        }
    }
}

/// Without a sync in between, the service waits 2, 5, 10, 15, 30, 60 and 600
/// seconds and then gives up: the delays never shrink and there are seven of them.
pub proof fn lemma_retry_delays_grow(i: int, j: int)
    requires
        0 <= i <= j < 7,
    ensures
        retry_intervals()[i] <= retry_intervals()[j],
        retry_intervals().len() == 7,
{
}

/// A reset forgets every value and the writer, whatever came before; an update
/// changes only the value it carries.
pub proof fn lemma_update_changes_one_value(v: DeviceServiceView, m: Update)
    ensures
        update_spec(v, Message::Reset) == empty_service(),
        ({
            let w = update_spec(v, Message::Update(m));
            &&& w.has_writer == v.has_writer
            &&& m is BatteryCharge ==> w.battery_charge == Some(m->BatteryCharge_0)
            &&& !(m is BatteryCharge) ==> w.battery_charge == v.battery_charge
            &&& !(m is PlatformProfile) ==> w.platform_profile == v.platform_profile
            &&& m is Signal ==> w == v
        }),
{
}


/// An update carrying one value records exactly that value: every other value,
/// and whether requests can be sent, stay as they were.
pub proof fn lemma_update_keeps_other_values(v: DeviceServiceView, m: Update)
    ensures
        ({
            let w = update_spec(v, Message::Update(m));
            &&& w.has_writer == v.has_writer
            &&& w.battery_charge == (match m {
                Update::BatteryCharge(c) => Some(c),
                _ => v.battery_charge,
            })
            &&& w.battery_status == (match m {
                Update::BatteryStatus(s) => Some(s),
                _ => v.battery_status,
            })
            &&& w.battery_protection == (match m {
                Update::BatteryProtection(p) => Some(p),
                _ => v.battery_protection,
            })
            &&& w.display_brightness == (match m {
                Update::DisplayBrightness(b) => Some(b),
                _ => v.display_brightness,
            })
            &&& w.keyboard_backlight == (match m {
                Update::KeyboardBacklight(k) => Some(k),
                _ => v.keyboard_backlight,
            })
            &&& w.platform_profile == (match m {
                Update::PlatformProfile(p) => Some(p),
                _ => v.platform_profile,
            })
            &&& w.platform_profile_choices == (match m {
                Update::PlatformProfileChoices(c) => Some(c),
                _ => v.platform_profile_choices,
            })
        }),
{
}

/// Once the charge and the status have arrived, later updates of other values
/// keep both known: after charge, status and then any update that is neither,
/// the charge and status are the ones received.
pub proof fn lemma_battery_info_survives(v: DeviceServiceView, c: Percentage, s: BatteryStatus, m: Update)
    requires
        !(m is BatteryCharge),
        !(m is BatteryStatus),
    ensures
        ({
            let w = update_spec(
                update_spec(update_spec(v, Message::Update(Update::BatteryCharge(c))), Message::Update(Update::BatteryStatus(s))),
                Message::Update(m),
            );
            w.battery_charge == Some(c) && w.battery_status == Some(s)
        }),
{
}

} // verus!
