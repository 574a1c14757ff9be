use device::common::{KeyboardBacklight, Message, Percentage, PlatformProfile, PlatformProfileChoices};
use device::config::{validate_battery_polling_interval, Config, ConfigError, StaticConfig};
use device::device::{get_state, on_file_change, FileChangeAction, Tag};
use device::display_brightness;
use device::file_var::{u32_file_text, u32_from_file_bytes, u8_file_text, u8_from_file_bytes, Mode};
use device::keyboard_backlight::{self, keyboard_selection, KeyboardBacklightModule, KeyboardEffect, KeyboardSelection};
use device::platform_profile::{enough_choices, profile_text_to_set, ProfileChoicesString, ProfileString};
use device::power_supply::{is_external_supply_type, is_online_text, PowerSupplies, PowerSupply};
use device::state::State;
use device::timer::TimerCommand;

#[test]
fn polling_interval_validation() {
    for v in [5, 10, 15, 20, 30, 60] {
        assert_eq!(validate_battery_polling_interval(v), Ok(v));
    }
    assert_eq!(validate_battery_polling_interval(7), Err(ConfigError::InvalidBatteryPollingInterval(7)));
    assert_eq!(
        ConfigError::InvalidBatteryPollingInterval(7).as_str(),
        "Valid battery_polling_interval values are: [5, 10, 15, 20, 30, 60]; using default"
    );
}

#[test]
fn config_settings() {
    let c = Config::default();
    assert_eq!(c.get_battery_polling_interval(), 10);
    assert!(c.get_keyboard_backlight().is_none());
    assert!(c.get_static_config().is_none());
    let c = Config::from_settings(Some("tpacpi".to_string()), Some(30), Some(StaticConfig { intel_turbo: Some(false) }))
        .unwrap();
    assert_eq!(c.get_battery_polling_interval(), 30);
    assert_eq!(c.get_keyboard_backlight().map(|s| s.as_str()), Some("tpacpi"));
    assert_eq!(c.get_static_config().unwrap().no_turbo_value(), Some(1));
    assert!(Config::from_settings(None, Some(11), None).is_err());
    assert_eq!(Config::from_settings(None, None, None).unwrap().get_battery_polling_interval(), 10);
    assert_eq!(StaticConfig { intel_turbo: Some(true) }.no_turbo_value(), Some(0));
    assert_eq!(StaticConfig { intel_turbo: None }.no_turbo_value(), None);
}

#[test]
fn file_numbers() {
    assert_eq!(u8_from_file_bytes(*b"42\n"), Some(42));
    assert_eq!(u8_from_file_bytes(*b"7\n\0"), Some(7));
    assert_eq!(u8_from_file_bytes(*b"300"), None);
    assert_eq!(u8_from_file_bytes(*b"abc"), None);
    assert_eq!(u32_from_file_bytes(*b"96000\n\0\0\0\0"), Some(96000));
    assert_eq!(u8_file_text(100).as_str(), "100");
    assert_eq!(u32_file_text(0).as_str(), "0");
    let t = u8_file_text(55);
    let mut buf = [0u8; 3];
    buf[..t.len()].copy_from_slice(t.as_bytes());
    assert_eq!(u8_from_file_bytes(buf), Some(55));
    assert!(!Mode::ReadOnly.allows_write());
    assert!(Mode::ReadWrite.allows_write());
    assert!(Mode::Create.allows_write());
}

#[test]
fn display_brightness_scale() {
    assert!(display_brightness::is_max_brightness_valid(96000));
    assert!(!display_brightness::is_max_brightness_valid(96001));
    let step = display_brightness::brightness_step(96000);
    assert_eq!(step, 960);
    assert_eq!(display_brightness::percentage_of_raw(48000, step).value(), 50);
    assert_eq!(display_brightness::raw_of_percentage(Percentage::from(50), step), 48000);
    assert_eq!(display_brightness::percentage_of_raw(96000, step).value(), 100);
}

#[test]
fn keyboard_backlight_scale() {
    assert!(keyboard_backlight::is_max_brightness_valid(3));
    assert!(keyboard_backlight::is_max_brightness_valid(255));
    assert!(keyboard_backlight::is_max_brightness_valid(511));
    assert!(!keyboard_backlight::is_max_brightness_valid(1));
    assert!(!keyboard_backlight::is_max_brightness_valid(4));
    assert!(!keyboard_backlight::is_max_brightness_valid(1023));
    assert!(!keyboard_backlight::is_max_brightness_valid(u32::MAX));
    let step = keyboard_backlight::brightness_step(255);
    assert_eq!(step, 64);
    assert_eq!(keyboard_backlight::keyboard_level_of_raw(128, step), KeyboardBacklight::Medium);
    assert_eq!(keyboard_backlight::keyboard_level_of_raw(255, step), KeyboardBacklight::Max);
    assert_eq!(keyboard_backlight::raw_of_level(KeyboardBacklight::Low, step), 64);
    assert_eq!(keyboard_backlight::keyboard_level_of_raw(260, 1), KeyboardBacklight::Max);
}

#[test]
fn keyboard_backlight_polling() {
    let (mut k, raw) = KeyboardBacklightModule::init(1, KeyboardBacklight::Low);
    assert_eq!(raw, 1);
    assert_eq!(k.get_brightness(), KeyboardBacklight::Low);
    assert_eq!(k.set_brightness(KeyboardBacklight::Max), 3);
    assert_eq!(k.start_polling(), Some(TimerCommand::Arm { interval_ms: 50 }));
    assert_eq!(k.poll(1), vec![]);
    assert_eq!(
        k.poll(2),
        vec![
            KeyboardEffect::Timer(TimerCommand::Disarm),
            KeyboardEffect::Broadcast(Message::KeyboardBacklight(KeyboardBacklight::Medium)),
        ]
    );
    assert_eq!(k.get_brightness(), KeyboardBacklight::Medium);
}

#[test]
fn platform_profile_files() {
    assert_eq!(PlatformProfile::from_profile_string(&ProfileString::from_text("quiet")), Some(PlatformProfile::Quiet));
    assert_eq!(PlatformProfile::from_profile_string(&ProfileString::from_text("loud")), None);
    let c = PlatformProfileChoices::from_choices_string(&ProfileChoicesString::from_text("low-power balanced performance"));
    assert_eq!(c, Some(PlatformProfileChoices::from(0b0010_1001)));
    assert_eq!(PlatformProfileChoices::from_choices_string(&ProfileChoicesString::from_text("low-power  balanced")), None);
    assert_eq!(PlatformProfileChoices::from_choices_string(&ProfileChoicesString::from_text("")), None);
    assert_eq!(PlatformProfileChoices::from_choices_string(&ProfileChoicesString::from_text("balanced-performance")), None);
    let choices = PlatformProfileChoices::from(0b0010_1001);
    assert_eq!(profile_text_to_set(choices, PlatformProfile::Balanced).unwrap().as_str(), "balanced");
    assert!(profile_text_to_set(choices, PlatformProfile::Cool).is_none());
    assert!(enough_choices(choices));
    assert!(!enough_choices(PlatformProfileChoices::from(0b1000)));
}

#[test]
fn power_supply_events() {
    let mut supplies = PowerSupplies::new();
    let msg = b"add@/devices/AC\0ACTION=change\0SUBSYSTEM=power_supply\0POWER_SUPPLY_NAME=AC\0POWER_SUPPLY_ONLINE=1\0";
    assert!(supplies.online_status_changed(msg));
    assert_eq!(supplies.get(&['A', 'C']), Some(PowerSupply { online: true }));
    assert!(!supplies.online_status_changed(msg));
    let off = b"SUBSYSTEM=power_supply\0POWER_SUPPLY_NAME=AC\0POWER_SUPPLY_ONLINE=0";
    assert!(supplies.online_status_changed(off));
    assert_eq!(supplies.get(&['A', 'C']), Some(PowerSupply { online: false }));
    let other = b"SUBSYSTEM=usb\0POWER_SUPPLY_NAME=AC\0POWER_SUPPLY_ONLINE=1";
    assert!(!supplies.online_status_changed(other));
    assert_eq!(supplies.get(&['B']), None);
    assert!(supplies.insert(vec!['B'], true));
    assert!(!supplies.insert(vec!['B'], true));
}

#[test]
fn power_supply_files() {
    assert!(is_external_supply_type("Mains\n"));
    assert!(is_external_supply_type("USB_PD_DRP"));
    assert!(!is_external_supply_type("Battery\n"));
    assert!(!is_external_supply_type("usb_pd_drp x"));
    assert!(is_online_text("1\n"));
    assert!(!is_online_text("0\n"));
    assert!(!is_online_text("11"));
}

#[test]
fn device_state_and_file_changes() {
    let s = get_state(None, None, None, None);
    assert_eq!(s.display_brightness.value(), 50);
    assert!(s.drop_threshold);
    assert_eq!(s.platform_profile, PlatformProfile::Balanced);
    let s: State = get_state(
        Some((device::common::BatteryProtection::Off, false)),
        Some(Percentage::from(10)),
        Some(KeyboardBacklight::Max),
        Some(PlatformProfile::Cool),
    );
    assert!(!s.drop_threshold);
    assert_eq!(s.keyboard_backlight, KeyboardBacklight::Max);
    assert_eq!(on_file_change(Tag::DisplayBrightness, true, false, false), FileChangeAction::BroadcastDisplayBrightness);
    assert_eq!(on_file_change(Tag::KeyboardBacklight, true, true, true), FileChangeAction::StartKeyboardPolling);
    assert_eq!(on_file_change(Tag::PlatformProfile, true, true, false), FileChangeAction::Nothing);
}

#[test]
fn platform_profile_written_reads_back() {
    let all = PlatformProfileChoices::from(0b1110_1111);
    for p in [
        PlatformProfile::LowPower,
        PlatformProfile::Cool,
        PlatformProfile::Quiet,
        PlatformProfile::Balanced,
        PlatformProfile::Performance,
        PlatformProfile::MaxPower,
        PlatformProfile::Custom,
    ] {
        let text = profile_text_to_set(all, p).unwrap();
        assert_eq!(PlatformProfile::from_profile_string(&text), Some(p));
    }
}

#[test]
fn power_supply_names_with_invalid_bytes() {
    let mut supplies = PowerSupplies::new();
    let msg = b"SUBSYSTEM=power_supply\0POWER_SUPPLY_NAME=A\xffC\0POWER_SUPPLY_ONLINE=1";
    assert!(supplies.online_status_changed(msg));
    assert_eq!(supplies.get(&['A', '\u{FFFD}', 'C']), Some(PowerSupply { online: true }));
    assert_eq!(supplies.get(&['A', 'C']), None);
}

#[test]
fn keyboard_device_selection() {
    assert_eq!(keyboard_selection(Some(true)), KeyboardSelection::Configured);
    assert_eq!(keyboard_selection(Some(false)), KeyboardSelection::Rejected);
    assert_eq!(keyboard_selection(None), KeyboardSelection::Autoselect);
}

#[test]
fn power_supply_event_twice_is_no_news() {
    let mut supplies = PowerSupplies::new();
    let msg = b"SUBSYSTEM=power_supply\0POWER_SUPPLY_NAME=AC\0POWER_SUPPLY_ONLINE=1\0SUBSYSTEM=power_supply\0POWER_SUPPLY_NAME=USB\0POWER_SUPPLY_ONLINE=0";
    assert!(supplies.online_status_changed(msg));
    assert!(!supplies.online_status_changed(msg));
    assert_eq!(supplies.get(&['A', 'C']), Some(PowerSupply { online: true }));
    assert_eq!(supplies.get(&['U', 'S', 'B']), Some(PowerSupply { online: false }));
}
