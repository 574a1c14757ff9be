//! The wire protocol shared by the daemon, its clients and the desktop service:
//! two-byte packets, the requests and messages they carry, and the value types
//! (percentages, battery and keyboard settings, platform profiles) that travel in them.
use vstd::prelude::*;
use vstd::string::StringSliceAdditionalSpecFns;

verus! {

/// Path of the Unix socket on which the daemon listens.
pub const SOCKET_PATH: &'static str = "/tmp/device.sock";

/// Every request and every message travels as exactly two bytes: a code and a value.
pub type Packet = [u8; 2];

/// Why a packet (or a single code byte) could not be decoded.
#[derive(Debug, Clone, Copy, PartialEq, Eq, Structural)]
pub enum ProtocolError {
    UnknownGetCode,
    UnknownSetCode,
    UnknownMessageCode,
    UnknownSignalCode,
    UnknownBatteryStatusCode,
    UnknownBatteryProtectionCode,
    UnknownPlatformProfileCode,
}

impl ProtocolError {
    /// The human-readable text of the error.
    pub fn as_str(&self) -> (s: &'static str)
        ensures
            s@ == self.text(),
    {
        match self {
            ProtocolError::UnknownGetCode => "Unknown get code",
            ProtocolError::UnknownSetCode => "Unknown set code",
            ProtocolError::UnknownMessageCode => "Unknown message code",
            ProtocolError::UnknownSignalCode => "Unknown signal code",
            ProtocolError::UnknownBatteryStatusCode => "Unknown battery status code",
            ProtocolError::UnknownBatteryProtectionCode => "Unknow battery protection code",
            ProtocolError::UnknownPlatformProfileCode => "Unknown platform profile code",
        }
    }

    pub open spec fn text(&self) -> Seq<char> {
        match self {
            ProtocolError::UnknownGetCode => "Unknown get code"@,
            ProtocolError::UnknownSetCode => "Unknown set code"@,
            ProtocolError::UnknownMessageCode => "Unknown message code"@,
            ProtocolError::UnknownSignalCode => "Unknown signal code"@,
            ProtocolError::UnknownBatteryStatusCode => "Unknown battery status code"@,
            ProtocolError::UnknownBatteryProtectionCode => "Unknow battery protection code"@,
            ProtocolError::UnknownPlatformProfileCode => "Unknown platform profile code"@,
        }
    }
}

// ---------------------------------------------------------------------------
// Percentage
// ---------------------------------------------------------------------------

/// A value between 0 and 100 inclusive.
#[derive(Debug, Clone, Copy, PartialEq, Eq, Structural)]
pub struct Percentage {
    value: u8,
}

impl View for Percentage {
    type V = u8;

    closed spec fn view(&self) -> u8 {
        self.value
    }
}

/// The percentage that holds `v` (for `v <= 100`).
pub closed spec fn percentage(v: u8) -> Percentage {
    Percentage { value: v }
}

/// A percentage is determined by its value.
pub broadcast proof fn lemma_percentage_view(p: Percentage)
    ensures
        #[trigger] percentage(p@) == p,
{
}

/// The value of `percentage(v)` is `v`.
pub broadcast proof fn lemma_percentage_of_value(v: u8)
    ensures
        #[trigger] percentage(v)@ == v,
{
}

pub broadcast group group_percentage {
    lemma_percentage_view,
    lemma_percentage_of_value,
}

/// `v` clamped to 0..=100.
pub open spec fn clamp_percent(v: int) -> u8 {
    if v > 100 {
        100u8
    } else if v < 0 {
        0u8
    } else {
        v as u8
    }
}

impl Percentage {
    #[verifier::type_invariant]
    spec fn at_most_hundred(self) -> bool {
        self.value <= 100
    }

    /// Clamps the value to at most `n`.
    pub fn min(self, n: u8) -> (r: Self)
        ensures
            r@ == (if self@ < n { self@ } else { n }),
    {
        proof {
            use_type_invariant(&self);
        }
        let value = if self.value < n {
            self.value
        } else {
            n
        };
        Self { value }
    }

    /// Raises the value to at least `n` (where `n` is first capped at 100).
    pub fn max(self, n: u8) -> (r: Self)
        ensures
            r@ == (if self@ > clamp_percent(n as int) { self@ } else { clamp_percent(n as int) }),
    {
        proof {
            use_type_invariant(&self);
        }
        let bound = if n < 100 {
            n
        } else {
            100
        };
        let value = if self.value > bound {
            self.value
        } else {
            bound
        };
        Self { value }
    }

    /// The value, between 0 and 100.
    pub fn value(&self) -> (v: u8)
        ensures
            v == self@,
            v <= 100,
    {
        proof {
            use_type_invariant(self);
        }
        self.value
    }
}

impl From<u8> for Percentage {
    /// Values above 100 are clamped to 100.
    fn from(value: u8) -> (p: Self)
        ensures
            p@ == clamp_percent(value as int),
    {
        let value = if value > 100 {
            100
        } else {
            value
        };
        Self { value }
    }
}

impl Percentage {
    /// Reads a percentage typed by a user: a decimal byte (with an optional `+`),
    /// clamped to 100; `None` when the text is no such number.
    pub fn parse(s: &str) -> (r: Option<Percentage>)
        ensures
            r == (match crate::numeric::parse_bounded(s.spec_bytes(), 10, 255) {
                Some(v) => Some(percentage(clamp_percent(v as int))),
                None => None,
            }),
    {
        match crate::numeric::parse_unsigned_bounded(s.as_bytes(), 10, 255) {
            Some(v) => Some(Percentage::from(v as u8)),
            None => None,
        }
    }
}

impl vstd::std_specs::convert::FromSpecImpl<u8> for Percentage {
    open spec fn obeys_from_spec() -> bool {
        true
    }

    open spec fn from_spec(v: u8) -> Percentage {
        percentage(clamp_percent(v as int))
    }
}

impl core::ops::Add<u8> for Percentage {
    type Output = Percentage;

    /// Saturating addition, capped at 100.
    fn add(self, value: u8) -> (r: Percentage)
        ensures
            r@ == clamp_percent(self@ + value),
    {
        proof {
            use_type_invariant(&self);
        }
        let sum = self.value.saturating_add(value);
        let value = if sum < 100 {
            sum
        } else {
            100
        };
        Percentage { value }
    }
}

impl vstd::std_specs::ops::AddSpecImpl<u8> for Percentage {
    open spec fn obeys_add_spec() -> bool {
        true
    }

    open spec fn add_req(self, rhs: u8) -> bool {
        true
    }

    open spec fn add_spec(self, rhs: u8) -> Percentage {
        percentage(clamp_percent(self@ + rhs))
    }
}

impl core::ops::Sub<u8> for Percentage {
    type Output = Percentage;

    /// Saturating subtraction, never below 0.
    fn sub(self, value: u8) -> (r: Percentage)
        ensures
            r@ == clamp_percent(self@ - value),
    {
        proof {
            use_type_invariant(&self);
        }
        Percentage { value: self.value.saturating_sub(value) }
    }
}

impl vstd::std_specs::ops::SubSpecImpl<u8> for Percentage {
    open spec fn obeys_sub_spec() -> bool {
        true
    }

    open spec fn sub_req(self, rhs: u8) -> bool {
        true
    }

    open spec fn sub_spec(self, rhs: u8) -> Percentage {
        percentage(clamp_percent(self@ - rhs))
    }
}

// ---------------------------------------------------------------------------
// Signal
// ---------------------------------------------------------------------------

/// Out-of-band notices that the daemon sends to a client.
#[derive(Debug, Clone, Copy, PartialEq, Eq, Structural)]
pub enum Signal {
    Synced,
    Unavailable,
    MaxClients,
}

/// The signal whose code is `code`, if any.
pub open spec fn signal_of_code(code: u8) -> Option<Signal> {
    match code {
        1 => Some(Signal::Synced),
        2 => Some(Signal::Unavailable),
        3 => Some(Signal::MaxClients),
        _ => None,
    }
}

impl Signal {
    pub open spec fn spec_code(self) -> u8 {
        match self {
            Signal::Synced => 1,
            Signal::Unavailable => 2,
            Signal::MaxClients => 3,
        }
    }

    pub fn code(self) -> (c: u8)
        ensures
            c == self.spec_code(),
    {
        match self {
            Signal::Synced => 1,
            Signal::Unavailable => 2,
            Signal::MaxClients => 3,
        }
    }

    pub open spec fn text(self) -> Seq<char> {
        match self {
            Signal::Synced => "Synced"@,
            Signal::Unavailable => "Requested value is not available"@,
            Signal::MaxClients => "Server max clients limit exceeded"@,
        }
    }

    pub fn as_str(&self) -> (s: &'static str)
        ensures
            s@ == self.text(),
    {
        match self {
            Signal::Synced => "Synced",
            Signal::Unavailable => "Requested value is not available",
            Signal::MaxClients => "Server max clients limit exceeded",
        }
    }
}

impl TryFrom<u8> for Signal {
    type Error = ProtocolError;

    fn try_from(code: u8) -> (r: Result<Self, Self::Error>)
        ensures
            r == signal_try_from(code),
    {
        match code {
            1 => Ok(Signal::Synced),
            2 => Ok(Signal::Unavailable),
            3 => Ok(Signal::MaxClients),
            _ => Err(ProtocolError::UnknownSignalCode),
        }
    }
}

pub open spec fn signal_try_from(code: u8) -> Result<Signal, ProtocolError> {
    match signal_of_code(code) {
        Some(s) => Ok(s),
        None => Err(ProtocolError::UnknownSignalCode),
    }
}

impl vstd::std_specs::convert::TryFromSpecImpl<u8> for Signal {
    open spec fn obeys_try_from_spec() -> bool {
        true
    }

    open spec fn try_from_spec(v: u8) -> Result<Self, Self::Error> {
        signal_try_from(v)
    }
}

// ---------------------------------------------------------------------------
// BatteryStatus
// ---------------------------------------------------------------------------

#[derive(Debug, Clone, Copy, PartialEq, Eq, Structural)]
pub enum BatteryStatus {
    Inactive,
    Charging,
    Discharging,
}

pub open spec fn battery_status_of_code(code: u8) -> Option<BatteryStatus> {
    match code {
        1 => Some(BatteryStatus::Inactive),
        2 => Some(BatteryStatus::Charging),
        3 => Some(BatteryStatus::Discharging),
        _ => None,
    }
}

pub open spec fn battery_status_try_from(code: u8) -> Result<BatteryStatus, ProtocolError> {
    match battery_status_of_code(code) {
        Some(s) => Ok(s),
        None => Err(ProtocolError::UnknownBatteryStatusCode),
    }
}

impl TryFrom<u8> for BatteryStatus {
    type Error = ProtocolError;

    fn try_from(code: u8) -> (r: Result<Self, Self::Error>)
        ensures
            r == battery_status_try_from(code),
    {
        match code {
            1 => Ok(BatteryStatus::Inactive),
            2 => Ok(BatteryStatus::Charging),
            3 => Ok(BatteryStatus::Discharging),
            _ => Err(ProtocolError::UnknownBatteryStatusCode),
        }
    }
}

impl vstd::std_specs::convert::TryFromSpecImpl<u8> for BatteryStatus {
    open spec fn obeys_try_from_spec() -> bool {
        true
    }

    open spec fn try_from_spec(v: u8) -> Result<Self, Self::Error> {
        battery_status_try_from(v)
    }
}

impl BatteryStatus {
    pub open spec fn spec_code(self) -> u8 {
        match self {
            BatteryStatus::Inactive => 1,
            BatteryStatus::Charging => 2,
            BatteryStatus::Discharging => 3,
        }
    }

    pub open spec fn text(self) -> Seq<char> {
        match self {
            BatteryStatus::Inactive => "inactive"@,
            BatteryStatus::Charging => "charging"@,
            BatteryStatus::Discharging => "discharging"@,
        }
    }

    pub fn as_str(&self) -> (s: &'static str)
        ensures
            s@ == self.text(),
    {
        match self {
            BatteryStatus::Inactive => "inactive",
            BatteryStatus::Charging => "charging",
            BatteryStatus::Discharging => "discharging",
        }
    }

    pub fn code(&self) -> (c: u8)
        ensures
            c == self.spec_code(),
    {
        match self {
            BatteryStatus::Inactive => 1,
            BatteryStatus::Charging => 2,
            BatteryStatus::Discharging => 3,
        }
    }

    /// The capitalised name shown to users.
    pub fn display_name(&self) -> (s: &'static str)
        ensures
            s@ == self.display_text(),
    {
        match self {
            BatteryStatus::Inactive => "Inactive",
            BatteryStatus::Charging => "Charging",
            BatteryStatus::Discharging => "Discharging",
        }
    }

    pub open spec fn display_text(self) -> Seq<char> {
        match self {
            BatteryStatus::Inactive => "Inactive"@,
            BatteryStatus::Charging => "Charging"@,
            BatteryStatus::Discharging => "Discharging"@,
        }
    }
}

// ---------------------------------------------------------------------------
// BatteryProtection
// ---------------------------------------------------------------------------

/// How far the battery is kept from full: the modes cycle Off, On, Stationary.
#[derive(Debug, Clone, Copy, PartialEq, Eq, Structural)]
pub enum BatteryProtection {
    Off,
    On,
    Stationary,
}

pub open spec fn battery_protection_of_code(code: u8) -> Option<BatteryProtection> {
    match code {
        0 => Some(BatteryProtection::Off),
        1 => Some(BatteryProtection::On),
        2 => Some(BatteryProtection::Stationary),
        _ => None,
    }
}

pub open spec fn battery_protection_try_from(code: u8) -> Result<BatteryProtection, ProtocolError> {
    match battery_protection_of_code(code) {
        Some(p) => Ok(p),
        None => Err(ProtocolError::UnknownBatteryProtectionCode),
    }
}

impl Default for BatteryProtection {
    fn default() -> (p: Self)
        ensures
            p == BatteryProtection::On,
    {
        BatteryProtection::On
    }
}

impl TryFrom<u8> for BatteryProtection {
    type Error = ProtocolError;

    fn try_from(code: u8) -> (r: Result<Self, Self::Error>)
        ensures
            r == battery_protection_try_from(code),
    {
        match code {
            0 => Ok(BatteryProtection::Off),
            1 => Ok(BatteryProtection::On),
            2 => Ok(BatteryProtection::Stationary),
            _ => Err(ProtocolError::UnknownBatteryProtectionCode),
        }
    }
}

impl vstd::std_specs::convert::TryFromSpecImpl<u8> for BatteryProtection {
    open spec fn obeys_try_from_spec() -> bool {
        true
    }

    open spec fn try_from_spec(v: u8) -> Result<Self, Self::Error> {
        battery_protection_try_from(v)
    }
}

impl BatteryProtection {
    /// The code is also the position of the mode in the cycle Off, On, Stationary.
    pub open spec fn spec_code(self) -> u8 {
        match self {
            BatteryProtection::Off => 0,
            BatteryProtection::On => 1,
            BatteryProtection::Stationary => 2,
        }
    }

    pub open spec fn text(self) -> Seq<char> {
        match self {
            BatteryProtection::Off => "off"@,
            BatteryProtection::On => "on"@,
            BatteryProtection::Stationary => "stationary"@,
        }
    }

    pub fn as_str(&self) -> (s: &'static str)
        ensures
            s@ == self.text(),
    {
        match self {
            BatteryProtection::Off => "off",
            BatteryProtection::On => "on",
            BatteryProtection::Stationary => "stationary",
        }
    }

    pub fn code(&self) -> (c: u8)
        ensures
            c == self.spec_code(),
    {
        match self {
            BatteryProtection::Off => 0,
            BatteryProtection::On => 1,
            BatteryProtection::Stationary => 2,
        }
    }

    /// The mode after this one, or `None` after the last.
    pub fn next(self) -> (r: Option<Self>)
        ensures
            r == battery_protection_of_code((self.spec_code() + 1) as u8),
    {
        match self {
            BatteryProtection::Off => Some(BatteryProtection::On),
            BatteryProtection::On => Some(BatteryProtection::Stationary),
            BatteryProtection::Stationary => None,
        }
    }

    /// The mode after this one, wrapping from the last to the first.
    pub fn next_cyclic(self) -> (r: Self)
        ensures
            r.spec_code() == (self.spec_code() + 1) % 3,
    {
        match self.next() {
            Some(p) => p,
            None => BatteryProtection::Off,
        }
    }

    /// The mode before this one, or `None` before the first.
    pub fn previous(self) -> (r: Option<Self>)
        ensures
            r == (if self.spec_code() == 0 {
                None
            } else {
                battery_protection_of_code((self.spec_code() - 1) as u8)
            }),
    {
        match self {
            BatteryProtection::Off => None,
            BatteryProtection::On => Some(BatteryProtection::Off),
            BatteryProtection::Stationary => Some(BatteryProtection::On),
        }
    }

    /// The mode before this one, wrapping from the first to the last.
    pub fn previous_cyclic(self) -> (r: Self)
        ensures
            r.spec_code() == (self.spec_code() + 2) % 3,
    {
        match self.previous() {
            Some(p) => p,
            None => BatteryProtection::Stationary,
        }
    }

    /// The capitalised name shown to users.
    pub fn display_name(&self) -> (s: &'static str)
        ensures
            s@ == self.display_text(),
    {
        match self {
            BatteryProtection::Off => "Off",
            BatteryProtection::On => "On",
            BatteryProtection::Stationary => "Stationary",
        }
    }

    pub open spec fn display_text(self) -> Seq<char> {
        match self {
            BatteryProtection::Off => "Off"@,
            BatteryProtection::On => "On"@,
            BatteryProtection::Stationary => "Stationary"@,
        }
    }
}

// ---------------------------------------------------------------------------
// KeyboardBacklight
// ---------------------------------------------------------------------------

/// Keyboard backlight levels, in increasing order.
#[derive(Debug, Clone, Copy, PartialEq, Eq, Structural)]
pub enum KeyboardBacklight {
    Off,
    Low,
    Medium,
    Max,
}

/// The level of a value: 0, 1 and 2 are Off, Low and Medium, anything higher is Max.
pub open spec fn keyboard_backlight_of_value(value: u8) -> KeyboardBacklight {
    match value {
        0 => KeyboardBacklight::Off,
        1 => KeyboardBacklight::Low,
        2 => KeyboardBacklight::Medium,
        _ => KeyboardBacklight::Max,
    }
}

impl Default for KeyboardBacklight {
    fn default() -> (k: Self)
        ensures
            k == KeyboardBacklight::Off,
    {
        KeyboardBacklight::Off
    }
}

impl KeyboardBacklight {
    /// The value is also the position of the level in the order Off, Low, Medium, Max.
    pub open spec fn spec_value(self) -> u8 {
        match self {
            KeyboardBacklight::Off => 0,
            KeyboardBacklight::Low => 1,
            KeyboardBacklight::Medium => 2,
            KeyboardBacklight::Max => 3,
        }
    }

    pub open spec fn text(self) -> Seq<char> {
        match self {
            KeyboardBacklight::Off => "off"@,
            KeyboardBacklight::Low => "low"@,
            KeyboardBacklight::Medium => "medium"@,
            KeyboardBacklight::Max => "max"@,
        }
    }

    pub fn as_str(&self) -> (s: &'static str)
        ensures
            s@ == self.text(),
    {
        match self {
            KeyboardBacklight::Off => "off",
            KeyboardBacklight::Low => "low",
            KeyboardBacklight::Medium => "medium",
            KeyboardBacklight::Max => "max",
        }
    }

    pub fn value(&self) -> (v: u8)
        ensures
            v == self.spec_value(),
    {
        match self {
            KeyboardBacklight::Off => 0,
            KeyboardBacklight::Low => 1,
            KeyboardBacklight::Medium => 2,
            KeyboardBacklight::Max => 3,
        }
    }

    /// The level above this one, or `None` above Max.
    pub fn next(self) -> (r: Option<Self>)
        ensures
            r == (if self.spec_value() == 3 {
                None
            } else {
                Some(keyboard_backlight_of_value((self.spec_value() + 1) as u8))
            }),
    {
        match self {
            KeyboardBacklight::Off => Some(KeyboardBacklight::Low),
            KeyboardBacklight::Low => Some(KeyboardBacklight::Medium),
            KeyboardBacklight::Medium => Some(KeyboardBacklight::Max),
            KeyboardBacklight::Max => None,
        }
    }

    /// The level above this one, wrapping from Max to Off.
    pub fn next_cyclic(self) -> (r: Self)
        ensures
            r.spec_value() == (self.spec_value() + 1) % 4,
    {
        match self.next() {
            Some(k) => k,
            None => KeyboardBacklight::Off,
        }
    }

    /// The level below this one, or `None` below Off.
    pub fn previous(self) -> (r: Option<Self>)
        ensures
            r == (if self.spec_value() == 0 {
                None
            } else {
                Some(keyboard_backlight_of_value((self.spec_value() - 1) as u8))
            }),
    {
        match self {
            KeyboardBacklight::Off => None,
            KeyboardBacklight::Low => Some(KeyboardBacklight::Off),
            KeyboardBacklight::Medium => Some(KeyboardBacklight::Low),
            KeyboardBacklight::Max => Some(KeyboardBacklight::Medium),
        }
    }

    /// The level below this one, wrapping from Off to Max.
    pub fn previous_cyclic(self) -> (r: Self)
        ensures
            r.spec_value() == (self.spec_value() + 3) % 4,
    {
        match self.previous() {
            Some(k) => k,
            None => KeyboardBacklight::Max,
        }
    }

    /// The capitalised name shown to users.
    pub fn display_name(&self) -> (s: &'static str)
        ensures
            s@ == self.display_text(),
    {
        match self {
            KeyboardBacklight::Off => "Off",
            KeyboardBacklight::Low => "Low",
            KeyboardBacklight::Medium => "Medium",
            KeyboardBacklight::Max => "Max",
        }
    }

    pub open spec fn display_text(self) -> Seq<char> {
        match self {
            KeyboardBacklight::Off => "Off"@,
            KeyboardBacklight::Low => "Low"@,
            KeyboardBacklight::Medium => "Medium"@,
            KeyboardBacklight::Max => "Max"@,
        }
    }
}

impl From<u8> for KeyboardBacklight {
    fn from(value: u8) -> (k: Self)
        ensures
            k == keyboard_backlight_of_value(value),
    {
        match value {
            0 => KeyboardBacklight::Off,
            1 => KeyboardBacklight::Low,
            2 => KeyboardBacklight::Medium,
            _ => KeyboardBacklight::Max,
        }
    }
}

impl vstd::std_specs::convert::FromSpecImpl<u8> for KeyboardBacklight {
    open spec fn obeys_from_spec() -> bool {
        true
    }

    open spec fn from_spec(v: u8) -> KeyboardBacklight {
        keyboard_backlight_of_value(v)
    }
}

// ---------------------------------------------------------------------------
// PlatformProfile
// ---------------------------------------------------------------------------

/// The ACPI platform profiles, in the order in which their bits and codes are numbered.
#[derive(Debug, Clone, Copy, PartialEq, Eq, Structural)]
pub enum PlatformProfile {
    LowPower,
    Cool,
    Quiet,
    Balanced,
    BalancedPerformance,
    Performance,
    MaxPower,
    Custom,
}

/// The profile at position `i` (0 to 7) in declaration order.
pub open spec fn profile_at(i: int) -> Option<PlatformProfile> {
    if i == 0 {
        Some(PlatformProfile::LowPower)
    } else if i == 1 {
        Some(PlatformProfile::Cool)
    } else if i == 2 {
        Some(PlatformProfile::Quiet)
    } else if i == 3 {
        Some(PlatformProfile::Balanced)
    } else if i == 4 {
        Some(PlatformProfile::BalancedPerformance)
    } else if i == 5 {
        Some(PlatformProfile::Performance)
    } else if i == 6 {
        Some(PlatformProfile::MaxPower)
    } else if i == 7 {
        Some(PlatformProfile::Custom)
    } else {
        None
    }
}

/// Codes run from 1 to 8: the code of a profile is its position plus one.
pub open spec fn platform_profile_try_from(code: u8) -> Result<PlatformProfile, ProtocolError> {
    match profile_at(code - 1) {
        Some(p) => Ok(p),
        None => Err(ProtocolError::UnknownPlatformProfileCode),
    }
}

/// The profile at position `i` in declaration order.
fn nth_profile(i: usize) -> (r: Option<PlatformProfile>)
    ensures
        r == profile_at(i as int),
{
    match i {
        0 => Some(PlatformProfile::LowPower),
        1 => Some(PlatformProfile::Cool),
        2 => Some(PlatformProfile::Quiet),
        3 => Some(PlatformProfile::Balanced),
        4 => Some(PlatformProfile::BalancedPerformance),
        5 => Some(PlatformProfile::Performance),
        6 => Some(PlatformProfile::MaxPower),
        7 => Some(PlatformProfile::Custom),
        _ => None,
    }
}

impl Default for PlatformProfile {
    fn default() -> (p: Self)
        ensures
            p == PlatformProfile::Balanced,
    {
        PlatformProfile::Balanced
    }
}

impl TryFrom<u8> for PlatformProfile {
    type Error = ProtocolError;

    fn try_from(code: u8) -> (r: Result<Self, Self::Error>)
        ensures
            r == platform_profile_try_from(code),
    {
        if code == 0 {
            return Err(ProtocolError::UnknownPlatformProfileCode);
        }
        match nth_profile((code - 1) as usize) {
            Some(profile) => Ok(profile),
            None => Err(ProtocolError::UnknownPlatformProfileCode),
        }
    }
}

impl vstd::std_specs::convert::TryFromSpecImpl<u8> for PlatformProfile {
    open spec fn obeys_try_from_spec() -> bool {
        true
    }

    open spec fn try_from_spec(v: u8) -> Result<Self, Self::Error> {
        platform_profile_try_from(v)
    }
}

impl PlatformProfile {
    /// Position in declaration order, from 0 to 7.
    pub open spec fn spec_index(self) -> int {
        match self {
            PlatformProfile::LowPower => 0,
            PlatformProfile::Cool => 1,
            PlatformProfile::Quiet => 2,
            PlatformProfile::Balanced => 3,
            PlatformProfile::BalancedPerformance => 4,
            PlatformProfile::Performance => 5,
            PlatformProfile::MaxPower => 6,
            PlatformProfile::Custom => 7,
        }
    }

    pub open spec fn spec_code(self) -> u8 {
        (self.spec_index() + 1) as u8
    }

    /// The name that the kernel uses for the profile.
    pub open spec fn text(self) -> Seq<char> {
        match self {
            PlatformProfile::LowPower => "low-power"@,
            PlatformProfile::Cool => "cool"@,
            PlatformProfile::Quiet => "quiet"@,
            PlatformProfile::Balanced => "balanced"@,
            PlatformProfile::BalancedPerformance => "balanced-performance"@,
            PlatformProfile::Performance => "performance"@,
            PlatformProfile::MaxPower => "max-power"@,
            PlatformProfile::Custom => "custom"@,
        }
    }

    pub fn as_str(&self) -> (s: &'static str)
        ensures
            s@ == self.text(),
    {
        match self {
            PlatformProfile::LowPower => "low-power",
            PlatformProfile::Cool => "cool",
            PlatformProfile::Quiet => "quiet",
            PlatformProfile::Balanced => "balanced",
            PlatformProfile::BalancedPerformance => "balanced-performance",
            PlatformProfile::Performance => "performance",
            PlatformProfile::MaxPower => "max-power",
            PlatformProfile::Custom => "custom",
        }
    }

    pub fn index(&self) -> (i: usize)
        ensures
            i == self.spec_index(),
            i < 8,
    {
        match self {
            PlatformProfile::LowPower => 0,
            PlatformProfile::Cool => 1,
            PlatformProfile::Quiet => 2,
            PlatformProfile::Balanced => 3,
            PlatformProfile::BalancedPerformance => 4,
            PlatformProfile::Performance => 5,
            PlatformProfile::MaxPower => 6,
            PlatformProfile::Custom => 7,
        }
    }

    pub fn code(&self) -> (c: u8)
        ensures
            c == self.spec_code(),
            1 <= c <= 8,
    {
        self.index() as u8 + 1
    }

    /// The name shown to users.
    pub fn display_name(&self) -> (s: &'static str)
        ensures
            s@ == self.display_text(),
    {
        match self {
            PlatformProfile::LowPower => "Low Power",
            PlatformProfile::Cool => "Cool",
            PlatformProfile::Quiet => "Quiet",
            PlatformProfile::Balanced => "Balanced",
            PlatformProfile::BalancedPerformance => "Balanced Performance",
            PlatformProfile::Performance => "Performance",
            PlatformProfile::MaxPower => "Max Power",
            PlatformProfile::Custom => "Custom",
        }
    }

    pub open spec fn display_text(self) -> Seq<char> {
        match self {
            PlatformProfile::LowPower => "Low Power"@,
            PlatformProfile::Cool => "Cool"@,
            PlatformProfile::Quiet => "Quiet"@,
            PlatformProfile::Balanced => "Balanced"@,
            PlatformProfile::BalancedPerformance => "Balanced Performance"@,
            PlatformProfile::Performance => "Performance"@,
            PlatformProfile::MaxPower => "Max Power"@,
            PlatformProfile::Custom => "Custom"@,
        }
    }
}

// ---------------------------------------------------------------------------
// PlatformProfileChoices
// ---------------------------------------------------------------------------

/// The set of profiles that the platform offers, as a bit mask: bit `i` stands
/// for the profile at position `i`.
#[derive(Debug, Clone, Copy, PartialEq, Eq, Structural)]
pub struct PlatformProfileChoices {
    list: u8,
}

impl View for PlatformProfileChoices {
    type V = u8;

    closed spec fn view(&self) -> u8 {
        self.list
    }
}

/// The choices whose mask is `list`.
pub closed spec fn choices(list: u8) -> PlatformProfileChoices {
    PlatformProfileChoices { list }
}

pub broadcast proof fn lemma_choices_view(c: PlatformProfileChoices)
    ensures
        #[trigger] choices(c@) == c,
{
}

pub broadcast proof fn lemma_choices_of_list(list: u8)
    ensures
        #[trigger] choices(list)@ == list,
{
}

pub broadcast group group_choices {
    lemma_choices_view,
    lemma_choices_of_list,
}

/// Bit `i` (0 to 7) of `list` is set.
pub open spec fn has_bit(list: u8, i: int) -> bool {
    0 <= i < 8 && list & (1u8 << (i as u8)) != 0
}

/// The first profile at position `i` or above whose bit is set.
pub open spec fn scan_up(list: u8, i: int) -> Option<PlatformProfile>
    decreases 8 - i,
{
    if i < 0 || i > 7 {
        None
    } else if has_bit(list, i) {
        profile_at(i)
    } else {
        scan_up(list, i + 1)
    }
}

/// The last profile at position `i` or below whose bit is set.
pub open spec fn scan_down(list: u8, i: int) -> Option<PlatformProfile>
    decreases i + 1,
{
    if i < 0 || i > 7 {
        None
    } else if has_bit(list, i) {
        profile_at(i)
    } else {
        scan_down(list, i - 1)
    }
}

/// How many of the bits below position `n` are set.
pub open spec fn count_bits(list: u8, n: int) -> nat
    decreases n,
{
    if n <= 0 {
        0
    } else {
        count_bits(list, n - 1) + if has_bit(list, n - 1) {
            1nat
        } else {
            0nat
        }
    }
}

impl PlatformProfileChoices {
    pub open spec fn spec_contains(self, profile: PlatformProfile) -> bool {
        has_bit(self@, profile.spec_index())
    }

    pub open spec fn spec_count(self) -> nat {
        count_bits(self@, 8)
    }

    /// The first offered profile.
    pub fn first(&self) -> (r: Option<PlatformProfile>)
        ensures
            r == scan_up(self@, 0),
    {
        self.first_from(0, true, false)
    }

    /// The last offered profile.
    pub fn last(&self) -> (r: Option<PlatformProfile>)
        ensures
            r == scan_down(self@, 7),
    {
        self.first_from(7, true, true)
    }

    /// The first offered profile after `profile`.
    pub fn next(&self, profile: PlatformProfile) -> (r: Option<PlatformProfile>)
        ensures
            r == scan_up(self@, profile.spec_index() + 1),
    {
        self.first_from(profile.index(), false, false)
    }

    /// The first offered profile after `profile`, wrapping round to the first one.
    pub fn next_cyclic(&self, profile: PlatformProfile) -> (r: Option<PlatformProfile>)
        ensures
            r == (if scan_up(self@, profile.spec_index() + 1) is Some {
                scan_up(self@, profile.spec_index() + 1)
            } else {
                scan_up(self@, 0)
            }),
    {
        let next = self.next(profile);
        if next.is_some() {
            next
        } else {
            self.first()
        }
    }

    /// The last offered profile before `profile`.
    pub fn previous(&self, profile: PlatformProfile) -> (r: Option<PlatformProfile>)
        ensures
            r == scan_down(self@, profile.spec_index() - 1),
    {
        self.first_from(profile.index(), false, true)
    }

    /// The last offered profile before `profile`, wrapping round to the last one.
    pub fn previous_cyclic(&self, profile: PlatformProfile) -> (r: Option<PlatformProfile>)
        ensures
            r == (if scan_down(self@, profile.spec_index() - 1) is Some {
                scan_down(self@, profile.spec_index() - 1)
            } else {
                scan_down(self@, 7)
            }),
    {
        let previous = self.previous(profile);
        if previous.is_some() {
            previous
        } else {
            self.last()
        }
    }

    /// Scans from `index` (or from its neighbour, when not `inclusive`) upwards,
    /// or downwards when `reverse`, for the first offered profile.
    fn first_from(&self, index: usize, inclusive: bool, reverse: bool) -> (r: Option<PlatformProfile>)
        requires
            index < 8,
        ensures
            ({
                let start: int = if inclusive {
                    index as int
                } else if reverse {
                    index - 1
                } else {
                    index + 1
                };
                r == if reverse {
                    scan_down(self@, start)
                } else {
                    scan_up(self@, start)
                }
            }),
    {
        let step: i8 = if reverse {
            -1
        } else {
            1
        };
        let mut i: i8 = if inclusive {
            index as i8
        } else {
            index as i8 + step
        };
        let ghost start: int = i as int;
        while 0 <= i && i <= 7
            invariant
                -1 <= i <= 8,
                start == (if inclusive {
                    index as int
                } else if reverse {
                    index - 1
                } else {
                    index + 1
                }),
                step == (if reverse {
                    -1i8
                } else {
                    1i8
                }),
                reverse ==> scan_down(self@, start) == scan_down(self@, i as int),
                !reverse ==> scan_up(self@, start) == scan_up(self@, i as int),
            decreases (if reverse {
                i + 1
            } else {
                8 - i
            }),
        {
            let bit = i as u8;
            assert(bit == (i as int) as u8);
            if self.list & (1u8 << bit) > 0 {
                assert(has_bit(self@, i as int));
                return nth_profile(i as usize);
            }
            i = i + step;
        }
        None
    }

    /// Whether `profile` is offered.
    pub fn contains(&self, profile: PlatformProfile) -> (b: bool)
        ensures
            b == self.spec_contains(profile),
    {
        self.list & (1u8 << (profile.index() as u8)) > 0
    }

    /// How many profiles are offered.
    pub fn count(&self) -> (n: usize)
        ensures
            n == self.spec_count(),
    {
        let mut count: usize = 0;
        let mut i: u8 = 0;
        while i < 8
            invariant
                i <= 8,
                count == count_bits(self.list, i as int),
                count <= i,
            decreases 8 - i,
        {
            if self.list & (1u8 << i) > 0 {
                count += 1;
            }
            i += 1;
        }
        count
    }

    /// The bit mask of the offered profiles.
    pub fn list(&self) -> (l: u8)
        ensures
            l == self@,
    {
        self.list
    }
}

impl From<u8> for PlatformProfileChoices {
    fn from(list: u8) -> (c: Self)
        ensures
            c@ == list,
    {
        Self { list }
    }
}

impl vstd::std_specs::convert::FromSpecImpl<u8> for PlatformProfileChoices {
    open spec fn obeys_from_spec() -> bool {
        true
    }

    open spec fn from_spec(v: u8) -> PlatformProfileChoices {
        choices(v)
    }
}

// ---------------------------------------------------------------------------
// Requests
// ---------------------------------------------------------------------------

/// A query for one value.
#[derive(Debug, Clone, Copy, PartialEq, Eq, Structural)]
pub enum Get {
    BatteryCharge,
    BatteryStatus,
    BatteryProtection,
    DisplayBrightness,
    KeyboardBacklight,
    PlatformProfile,
    PlatformProfileChoices,
}

pub open spec fn get_of_code(code: u8) -> Option<Get> {
    match code {
        1 => Some(Get::BatteryCharge),
        2 => Some(Get::BatteryStatus),
        3 => Some(Get::BatteryProtection),
        4 => Some(Get::DisplayBrightness),
        5 => Some(Get::KeyboardBacklight),
        6 => Some(Get::PlatformProfile),
        7 => Some(Get::PlatformProfileChoices),
        _ => None,
    }
}

/// A get request is `[255, code]`; only its second byte is read.
pub open spec fn get_try_from(bytes: Packet) -> Result<Get, ProtocolError> {
    match get_of_code(bytes[1]) {
        Some(g) => Ok(g),
        None => Err(ProtocolError::UnknownGetCode),
    }
}

impl TryFrom<Packet> for Get {
    type Error = ProtocolError;

    fn try_from(bytes: Packet) -> (r: Result<Self, Self::Error>)
        ensures
            r == get_try_from(bytes),
    {
        match bytes[1] {
            1 => Ok(Get::BatteryCharge),
            2 => Ok(Get::BatteryStatus),
            3 => Ok(Get::BatteryProtection),
            4 => Ok(Get::DisplayBrightness),
            5 => Ok(Get::KeyboardBacklight),
            6 => Ok(Get::PlatformProfile),
            7 => Ok(Get::PlatformProfileChoices),
            _ => Err(ProtocolError::UnknownGetCode),
        }
    }
}

impl vstd::std_specs::convert::TryFromSpecImpl<Packet> for Get {
    open spec fn obeys_try_from_spec() -> bool {
        true
    }

    open spec fn try_from_spec(v: Packet) -> Result<Self, Self::Error> {
        get_try_from(v)
    }
}

impl Get {
    pub open spec fn spec_code(self) -> u8 {
        match self {
            Get::BatteryCharge => 1,
            Get::BatteryStatus => 2,
            Get::BatteryProtection => 3,
            Get::DisplayBrightness => 4,
            Get::KeyboardBacklight => 5,
            Get::PlatformProfile => 6,
            Get::PlatformProfileChoices => 7,
        }
    }

    pub fn to_packet(&self) -> (p: [u8; 2])
        ensures
            p@ == seq![255u8, self.spec_code()],
    {
        let code: u8 = match self {
            Get::BatteryCharge => 1,
            Get::BatteryStatus => 2,
            Get::BatteryProtection => 3,
            Get::DisplayBrightness => 4,
            Get::KeyboardBacklight => 5,
            Get::PlatformProfile => 6,
            Get::PlatformProfileChoices => 7,
        };
        let p = [255, code];
        assert(p@ =~= seq![255u8, self.spec_code()]);
        p
    }
}

/// A change of one setting.
#[derive(Debug, Clone, Copy, PartialEq, Eq, Structural)]
pub enum SetRequest {
    BatteryProtection { protection: BatteryProtection },
    DisplayBrightness { brightness: Percentage },
    KeyboardBacklight { backlight: KeyboardBacklight },
    PlatformProfile { profile: PlatformProfile },
}

/// A set request is `[code, value]` with codes 3 to 6.
pub open spec fn set_try_from(bytes: Packet) -> Result<SetRequest, ProtocolError> {
    let (code, value) = (bytes[0], bytes[1]);
    if code == 3 {
        match battery_protection_try_from(value) {
            Ok(protection) => Ok(SetRequest::BatteryProtection { protection }),
            Err(e) => Err(e),
        }
    } else if code == 4 {
        Ok(SetRequest::DisplayBrightness { brightness: percentage(clamp_percent(value as int)) })
    } else if code == 5 {
        Ok(SetRequest::KeyboardBacklight { backlight: keyboard_backlight_of_value(value) })
    } else if code == 6 {
        match platform_profile_try_from(value) {
            Ok(profile) => Ok(SetRequest::PlatformProfile { profile }),
            Err(e) => Err(e),
        }
    } else {
        Err(ProtocolError::UnknownSetCode)
    }
}

impl TryFrom<Packet> for SetRequest {
    type Error = ProtocolError;

    fn try_from(bytes: Packet) -> (r: Result<Self, Self::Error>)
        ensures
            r == set_try_from(bytes),
    {
        let (code, value) = (bytes[0], bytes[1]);
        match code {
            3 => match BatteryProtection::try_from(value) {
                Ok(protection) => Ok(SetRequest::BatteryProtection { protection }),
                Err(e) => Err(e),
            },
            4 => Ok(SetRequest::DisplayBrightness { brightness: Percentage::from(value) }),
            5 => Ok(SetRequest::KeyboardBacklight { backlight: KeyboardBacklight::from(value) }),
            6 => match PlatformProfile::try_from(value) {
                Ok(profile) => Ok(SetRequest::PlatformProfile { profile }),
                Err(e) => Err(e),
            },
            _ => Err(ProtocolError::UnknownSetCode),
        }
    }
}

impl vstd::std_specs::convert::TryFromSpecImpl<Packet> for SetRequest {
    open spec fn obeys_try_from_spec() -> bool {
        true
    }

    open spec fn try_from_spec(v: Packet) -> Result<Self, Self::Error> {
        set_try_from(v)
    }
}

impl SetRequest {
    pub open spec fn spec_packet(self) -> Seq<u8> {
        match self {
            SetRequest::BatteryProtection { protection } => seq![3u8, protection.spec_code()],
            SetRequest::DisplayBrightness { brightness } => seq![4u8, brightness@],
            SetRequest::KeyboardBacklight { backlight } => seq![5u8, backlight.spec_value()],
            SetRequest::PlatformProfile { profile } => seq![6u8, profile.spec_code()],
        }
    }

    pub fn to_packet(&self) -> (p: [u8; 2])
        ensures
            p@ == self.spec_packet(),
    {
        let p = match self {
            SetRequest::BatteryProtection { protection } => [3, protection.code()],
            SetRequest::DisplayBrightness { brightness } => [4, brightness.value()],
            SetRequest::KeyboardBacklight { backlight } => [5, backlight.value()],
            SetRequest::PlatformProfile { profile } => [6, profile.code()],
        };
        assert(p@ =~= self.spec_packet());
        p
    }
}

/// What a client asks of the daemon.
#[derive(Debug, Clone, Copy, PartialEq, Eq, Structural)]
pub enum Request {
    Get(Get),
    SetValue(SetRequest),
    Subscribe,
}

/// A first byte below 255 makes a set request, `[255, 255]` a subscription, and any
/// other `[255, code]` a get request.
pub open spec fn request_try_from(bytes: Packet) -> Result<Request, ProtocolError> {
    if bytes[0] < 255 {
        match set_try_from(bytes) {
            Ok(s) => Ok(Request::SetValue(s)),
            Err(e) => Err(e),
        }
    } else if bytes[1] < 255 {
        match get_try_from(bytes) {
            Ok(g) => Ok(Request::Get(g)),
            Err(e) => Err(e),
        }
    } else {
        Ok(Request::Subscribe)
    }
}

impl TryFrom<Packet> for Request {
    type Error = ProtocolError;

    fn try_from(bytes: Packet) -> (r: Result<Self, Self::Error>)
        ensures
            r == request_try_from(bytes),
    {
        if bytes[0] < 255 {
            match SetRequest::try_from(bytes) {
                Ok(s) => Ok(Request::SetValue(s)),
                Err(e) => Err(e),
            }
        } else {
            if bytes[1] < 255 {
                match Get::try_from(bytes) {
                    Ok(g) => Ok(Request::Get(g)),
                    Err(e) => Err(e),
                }
            } else {
                Ok(Request::Subscribe)
            }
        }
    }
}

impl vstd::std_specs::convert::TryFromSpecImpl<Packet> for Request {
    open spec fn obeys_try_from_spec() -> bool {
        true
    }

    open spec fn try_from_spec(v: Packet) -> Result<Self, Self::Error> {
        request_try_from(v)
    }
}

impl Request {
    /// The packet that a client sends for this request.
    pub open spec fn spec_packet(self) -> Seq<u8> {
        match self {
            Request::Get(g) => seq![255u8, g.spec_code()],
            Request::SetValue(s) => s.spec_packet(),
            Request::Subscribe => seq![255u8, 255u8],
        }
    }
}

// ---------------------------------------------------------------------------
// Messages
// ---------------------------------------------------------------------------

/// What the daemon sends to a client: one value, or a signal.
#[derive(Debug, Clone, Copy, PartialEq, Eq, Structural)]
pub enum Message {
    BatteryCharge(Percentage),
    BatteryStatus(BatteryStatus),
    BatteryProtection(BatteryProtection),
    DisplayBrightness(Percentage),
    KeyboardBacklight(KeyboardBacklight),
    PlatformProfile(PlatformProfile),
    PlatformProfileChoices(PlatformProfileChoices),
    Signal(Signal),
}

pub open spec fn message_try_from(bytes: Packet) -> Result<Message, ProtocolError> {
    let (code, value) = (bytes[0], bytes[1]);
    if code == 1 {
        Ok(Message::BatteryCharge(percentage(clamp_percent(value as int))))
    } else if code == 2 {
        match battery_status_try_from(value) {
            Ok(s) => Ok(Message::BatteryStatus(s)),
            Err(e) => Err(e),
        }
    } else if code == 3 {
        match battery_protection_try_from(value) {
            Ok(p) => Ok(Message::BatteryProtection(p)),
            Err(e) => Err(e),
        }
    } else if code == 4 {
        Ok(Message::DisplayBrightness(percentage(clamp_percent(value as int))))
    } else if code == 5 {
        Ok(Message::KeyboardBacklight(keyboard_backlight_of_value(value)))
    } else if code == 6 {
        match platform_profile_try_from(value) {
            Ok(p) => Ok(Message::PlatformProfile(p)),
            Err(e) => Err(e),
        }
    } else if code == 7 {
        Ok(Message::PlatformProfileChoices(choices(value)))
    } else if code == 255 {
        match signal_try_from(value) {
            Ok(s) => Ok(Message::Signal(s)),
            Err(e) => Err(e),
        }
    } else {
        Err(ProtocolError::UnknownMessageCode)
    }
}

impl Message {
    pub open spec fn spec_packet(self) -> Seq<u8> {
        match self {
            Message::BatteryCharge(charge) => seq![1u8, charge@],
            Message::BatteryStatus(status) => seq![2u8, status.spec_code()],
            Message::BatteryProtection(protection) => seq![3u8, protection.spec_code()],
            Message::DisplayBrightness(brightness) => seq![4u8, brightness@],
            Message::KeyboardBacklight(backlight) => seq![5u8, backlight.spec_value()],
            Message::PlatformProfile(profile) => seq![6u8, profile.spec_code()],
            Message::PlatformProfileChoices(c) => seq![7u8, c@],
            Message::Signal(signal) => seq![255u8, signal.spec_code()],
        }
    }

    pub fn to_packet(self) -> (p: Packet)
        ensures
            p@ == self.spec_packet(),
    {
        let p = match self {
            Message::BatteryCharge(charge) => [1, charge.value()],
            Message::BatteryStatus(status) => [2, status.code()],
            Message::BatteryProtection(protection) => [3, protection.code()],
            Message::DisplayBrightness(brightness) => [4, brightness.value()],
            Message::KeyboardBacklight(backlight) => [5, backlight.value()],
            Message::PlatformProfile(profile) => [6, profile.code()],
            Message::PlatformProfileChoices(choices) => [7, choices.list()],
            Message::Signal(signal) => [255, signal.code()],
        };
        assert(p@ =~= self.spec_packet());
        p
    }
}

impl TryFrom<Packet> for Message {
    type Error = ProtocolError;

    fn try_from(bytes: Packet) -> (r: Result<Self, Self::Error>)
        ensures
            r == message_try_from(bytes),
    {
        let (code, value) = (bytes[0], bytes[1]);
        match code {
            1 => Ok(Message::BatteryCharge(Percentage::from(value))),
            2 => match BatteryStatus::try_from(value) {
                Ok(s) => Ok(Message::BatteryStatus(s)),
                Err(e) => Err(e),
            },
            3 => match BatteryProtection::try_from(value) {
                Ok(p) => Ok(Message::BatteryProtection(p)),
                Err(e) => Err(e),
            },
            4 => Ok(Message::DisplayBrightness(Percentage::from(value))),
            5 => Ok(Message::KeyboardBacklight(KeyboardBacklight::from(value))),
            6 => match PlatformProfile::try_from(value) {
                Ok(p) => Ok(Message::PlatformProfile(p)),
                Err(e) => Err(e),
            },
            7 => Ok(Message::PlatformProfileChoices(PlatformProfileChoices::from(value))),
            255 => match Signal::try_from(value) {
                Ok(s) => Ok(Message::Signal(s)),
                Err(e) => Err(e),
            },
            _ => Err(ProtocolError::UnknownMessageCode),
        }
    }
}

impl vstd::std_specs::convert::TryFromSpecImpl<Packet> for Message {
    open spec fn obeys_try_from_spec() -> bool {
        true
    }

    open spec fn try_from_spec(v: Packet) -> Result<Self, Self::Error> {
        message_try_from(v)
    }
}

} // verus!
