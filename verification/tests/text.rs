use device::common::{
    BatteryProtection, BatteryStatus, KeyboardBacklight, Message, Percentage, PlatformProfile,
    PlatformProfileChoices, Signal,
};
use device::numeric::parse_unsigned_bounded;
use device::stack_string::{number_to_base_10_bytes, StackString};
use device::state::{bytes_as_hex_bytes, state_to_save, State, StateString};

#[test]
fn message_display_strings() {
    assert_eq!(Message::BatteryCharge(Percentage::from(42)).to_display_string(), "battery_charge = 42");
    assert_eq!(Message::BatteryStatus(BatteryStatus::Charging).to_display_string(), "battery_status = charging");
    assert_eq!(
        Message::BatteryProtection(BatteryProtection::Stationary).to_display_string(),
        "battery_protection = stationary"
    );
    assert_eq!(Message::DisplayBrightness(Percentage::from(100)).to_display_string(), "display_brightness = 100");
    assert_eq!(Message::DisplayBrightness(Percentage::from(0)).to_display_string(), "display_brightness = 0");
    assert_eq!(Message::KeyboardBacklight(KeyboardBacklight::Max).to_display_string(), "keyboard_backlight = max");
    assert_eq!(Message::PlatformProfile(PlatformProfile::LowPower).to_display_string(), "platform_profile = low-power");
    assert_eq!(
        Message::PlatformProfileChoices(PlatformProfileChoices::from(0b0000_1001)).to_display_string(),
        "platform_profile_choices = [\"low-power\", \"balanced\"]"
    );
    assert_eq!(
        Message::PlatformProfileChoices(PlatformProfileChoices::from(0)).to_display_string(),
        "platform_profile_choices = []"
    );
    assert_eq!(Message::Signal(Signal::Synced).to_display_string(), "Synced");
}

#[test]
fn percentage_display() {
    assert_eq!(Percentage::from(7).to_display_string(), "7");
    assert_eq!(Percentage::from(250).to_display_string(), "100");
}

#[test]
fn stack_string_basics() {
    let s = StackString::<8>::new();
    assert_eq!(s.len(), 0);
    assert_eq!(s.as_str(), "");
    let s = StackString::<8>::from_text("ab").add("cde");
    assert_eq!(s.len(), 5);
    assert_eq!(s.as_str(), "abcde");
    assert_eq!(s.as_bytes(), b"abcde");
    let full = StackString::<3>::from(*b"xyz");
    assert_eq!(full.len(), 3);
    assert_eq!(full.as_str(), "xyz");
}

#[test]
fn stack_string_trim_and_lowercase() {
    let s = StackString::<10>::from_text("Full \n").trim_end();
    assert_eq!(s.as_str(), "Full");
    let s = s.into_lowercase();
    assert_eq!(s.as_str(), "full");
    let s = StackString::<6>::from(*b"a b\n\0\0").trim_end();
    assert_eq!(s.as_str(), "a b");
    let s = StackString::<4>::from(*b" \n \n").trim_end();
    assert_eq!(s.len(), 0);
    let s = StackString::<5>::from(*b"MiXeD").into_lowercase();
    assert_eq!(s.as_str(), "mixed");
}

#[test]
fn decimal_digits() {
    assert_eq!(number_to_base_10_bytes::<5>(1234), [b'1', b'2', b'3', b'4', 0]);
    assert_eq!(number_to_base_10_bytes::<3>(0), [b'0', 0, 0]);
    assert_eq!(number_to_base_10_bytes::<3>(255), *b"255");
    assert_eq!(number_to_base_10_bytes::<10>(4294967295), *b"4294967295");
    assert_eq!(number_to_base_10_bytes::<10>(1000000000), *b"1000000000");
    assert_eq!(StackString::<3>::from_u8(9).as_str(), "9");
    assert_eq!(StackString::<10>::from_u32(96000).as_str(), "96000");
}

#[test]
fn hex_digits() {
    assert_eq!(bytes_as_hex_bytes::<4>(&[0xab, 0x1f]), *b"AB1F");
    assert_eq!(bytes_as_hex_bytes::<3>(&[0x09, 0xc0]), *b"09C");
}

#[test]
fn number_parsing() {
    assert_eq!(parse_unsigned_bounded(b"42", 10, 255), Some(42));
    assert_eq!(parse_unsigned_bounded(b"+42", 10, 255), Some(42));
    assert_eq!(parse_unsigned_bounded(b"256", 10, 255), None);
    assert_eq!(parse_unsigned_bounded(b"", 10, 255), None);
    assert_eq!(parse_unsigned_bounded(b"4a", 10, 255), None);
    assert_eq!(parse_unsigned_bounded(b"ff", 16, u64::MAX), Some(255));
    assert_eq!(parse_unsigned_bounded(b"FFFFFFFFFFFFFFFF", 16, u64::MAX), Some(u64::MAX));
    assert_eq!(parse_unsigned_bounded(b"10000000000000000", 16, u64::MAX), None);
}

#[test]
fn state_string_encoding() {
    let state = State {
        battery_protection: BatteryProtection::On,
        drop_threshold: true,
        display_brightness: Percentage::from(50),
        keyboard_backlight: KeyboardBacklight::Off,
        platform_profile: PlatformProfile::Balanced,
    };
    let s = StateString::from(&state);
    assert_eq!(s.as_str(), "0101320004");
    assert_eq!(State::from_state_string(&s), state);
}

#[test]
fn state_round_trip() {
    let state = State {
        battery_protection: BatteryProtection::Stationary,
        drop_threshold: false,
        display_brightness: Percentage::from(100),
        keyboard_backlight: KeyboardBacklight::Max,
        platform_profile: PlatformProfile::Custom,
    };
    let s = StateString::from(&state);
    assert_eq!(s.as_str(), "0200640308");
    assert_eq!(State::from_state_string(&s), state);
}

#[test]
fn state_defaults_on_bad_text() {
    let default = State {
        battery_protection: BatteryProtection::On,
        drop_threshold: true,
        display_brightness: Percentage::from(50),
        keyboard_backlight: KeyboardBacklight::Off,
        platform_profile: PlatformProfile::Balanced,
    };
    assert_eq!(State::from_state_string(&StateString::from_text("zz")), default);
    assert_eq!(State::from_state_string(&StateString::new()), default);
    // Unknown codes fall back to the defaults field by field.
    let s = State::from_state_string(&StateString::from_text("0900FF0700"));
    assert_eq!(s.battery_protection, BatteryProtection::On);
    assert!(!s.drop_threshold);
    assert_eq!(s.display_brightness.value(), 100);
    assert_eq!(s.keyboard_backlight, KeyboardBacklight::Max);
    assert_eq!(s.platform_profile, PlatformProfile::Balanced);
}

#[test]
fn state_is_saved_only_when_changed() {
    let state = State {
        battery_protection: BatteryProtection::Off,
        drop_threshold: false,
        display_brightness: Percentage::from(20),
        keyboard_backlight: KeyboardBacklight::Low,
        platform_profile: PlatformProfile::Quiet,
    };
    assert!(state_to_save(&state, &state).is_none());
    let changed = State { keyboard_backlight: KeyboardBacklight::Medium, ..state };
    assert_eq!(state_to_save(&state, &changed).unwrap().as_str(), "0000140203");
}
