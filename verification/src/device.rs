//! Device-wide decisions: what a change of a watched file triggers, and which
//! settings are saved when the daemon stops.
use crate::common::{BatteryProtection, KeyboardBacklight, Percentage, PlatformProfile};
use crate::battery::DEFAULT_DROP_THRESHOLD;
use crate::display_brightness::DEFAULT_DISPLAY_BRIGHTNESS;
use crate::state::{default_state, State};
use vstd::prelude::*;

verus! {

/// Which watched file changed.
#[derive(Debug, Clone, Copy, PartialEq, Eq, Structural)]
pub enum Tag {
    DisplayBrightness,
    KeyboardBacklight,
    PlatformProfile,
}

/// What a change of a watched file calls for.
#[derive(Debug, Clone, Copy, PartialEq, Eq, Structural)]
pub enum FileChangeAction {
    /// Read the display brightness and send it to every subscriber.
    BroadcastDisplayBrightness,
    /// Start polling the keyboard backlight.
    StartKeyboardPolling,
    /// Read the platform profile and send it to every subscriber.
    BroadcastPlatformProfile,
    /// Nothing: the device lacks the module.
    Nothing,
}

/// A brightness file change is broadcast, a keyboard backlight change starts
/// polling, a profile change is broadcast; each only when the module exists.
pub fn on_file_change(
    tag: Tag,
    has_display_brightness: bool,
    has_keyboard_backlight: bool,
    has_platform_profile: bool,
) -> (a: FileChangeAction)
    ensures
        a == (match tag {
            Tag::DisplayBrightness => if has_display_brightness {
                FileChangeAction::BroadcastDisplayBrightness
            } else {
                FileChangeAction::Nothing
            },
            Tag::KeyboardBacklight => if has_keyboard_backlight {
                FileChangeAction::StartKeyboardPolling
            } else {
                FileChangeAction::Nothing
            },
            Tag::PlatformProfile => if has_platform_profile {
                FileChangeAction::BroadcastPlatformProfile
            } else {
                FileChangeAction::Nothing
            },
        }),
{
    match tag {
        Tag::DisplayBrightness => if has_display_brightness {
            FileChangeAction::BroadcastDisplayBrightness
        } else {
            FileChangeAction::Nothing
        },
        Tag::KeyboardBacklight => if has_keyboard_backlight {
            FileChangeAction::StartKeyboardPolling
        } else {
            FileChangeAction::Nothing
        },
        Tag::PlatformProfile => if has_platform_profile {
            FileChangeAction::BroadcastPlatformProfile
        } else {
            FileChangeAction::Nothing
        },
    }
}

/// The settings to save: each module's current value, or its default when the
/// device lacks the module.  `battery` is the protection mode and lowered flag.
pub fn get_state(
    battery: Option<(BatteryProtection, bool)>,
    display_brightness: Option<Percentage>,
    keyboard_backlight: Option<KeyboardBacklight>,
    platform_profile: Option<PlatformProfile>,
) -> (s: State)
    ensures
        s.battery_protection == (match battery {
            Some(b) => b.0,
            None => default_state().battery_protection,
        }),
        s.drop_threshold == (match battery {
            Some(b) => b.1,
            None => default_state().drop_threshold,
        }),
        s.display_brightness == (match display_brightness {
            Some(p) => p,
            None => default_state().display_brightness,
        }),
        s.keyboard_backlight == (match keyboard_backlight {
            Some(k) => k,
            None => default_state().keyboard_backlight,
        }),
        s.platform_profile == (match platform_profile {
            Some(p) => p,
            None => default_state().platform_profile,
        }),
{
    let (battery_protection, drop_threshold) = match battery {
        Some(b) => b,
        None => (BatteryProtection::default(), DEFAULT_DROP_THRESHOLD),
    };
    let display_brightness = match display_brightness {
        Some(p) => p,
        None => Percentage::from(DEFAULT_DISPLAY_BRIGHTNESS),
    };
    let keyboard_backlight = match keyboard_backlight {
        Some(k) => k,
        None => KeyboardBacklight::default(),
    };
    let platform_profile = match platform_profile {
        Some(p) => p,
        None => PlatformProfile::default(),
    };
    State { battery_protection, drop_threshold, display_brightness, keyboard_backlight, platform_profile }
}

} // verus!
