use device::common::{
    BatteryProtection, BatteryStatus, Get, KeyboardBacklight, Message, Percentage, PlatformProfile,
    PlatformProfileChoices, ProtocolError, Request, SetRequest, Signal,
};

const ALL_GETS: [Get; 7] = [
    Get::BatteryCharge,
    Get::BatteryStatus,
    Get::BatteryProtection,
    Get::DisplayBrightness,
    Get::KeyboardBacklight,
    Get::PlatformProfile,
    Get::PlatformProfileChoices,
];

const ALL_PROFILES: [PlatformProfile; 8] = [
    PlatformProfile::LowPower,
    PlatformProfile::Cool,
    PlatformProfile::Quiet,
    PlatformProfile::Balanced,
    PlatformProfile::BalancedPerformance,
    PlatformProfile::Performance,
    PlatformProfile::MaxPower,
    PlatformProfile::Custom,
];

#[test]
fn get_packets_round_trip() {
    for (i, g) in ALL_GETS.iter().enumerate() {
        let p = g.to_packet();
        assert_eq!(p, [255, i as u8 + 1]);
        assert_eq!(Request::try_from(p), Ok(Request::Get(*g)));
        assert_eq!(Get::try_from(p), Ok(*g));
    }
}

#[test]
fn set_packets_round_trip() {
    let sets = [
        SetRequest::BatteryProtection { protection: BatteryProtection::Stationary },
        SetRequest::DisplayBrightness { brightness: Percentage::from(42) },
        SetRequest::KeyboardBacklight { backlight: KeyboardBacklight::Medium },
        SetRequest::PlatformProfile { profile: PlatformProfile::Performance },
    ];
    let packets = [[3, 2], [4, 42], [5, 2], [6, 6]];
    for (s, p) in sets.iter().zip(packets.iter()) {
        assert_eq!(s.to_packet(), *p);
        assert_eq!(Request::try_from(*p), Ok(Request::SetValue(*s)));
    }
}

#[test]
fn subscribe_packet() {
    assert_eq!(Request::try_from([255, 255]), Ok(Request::Subscribe));
}

#[test]
fn request_errors() {
    assert_eq!(Request::try_from([255, 0]), Err(ProtocolError::UnknownGetCode));
    assert_eq!(Request::try_from([255, 8]), Err(ProtocolError::UnknownGetCode));
    assert_eq!(Request::try_from([1, 0]), Err(ProtocolError::UnknownSetCode));
    assert_eq!(Request::try_from([254, 0]), Err(ProtocolError::UnknownSetCode));
    assert_eq!(Request::try_from([3, 3]), Err(ProtocolError::UnknownBatteryProtectionCode));
    assert_eq!(Request::try_from([6, 0]), Err(ProtocolError::UnknownPlatformProfileCode));
    assert_eq!(Request::try_from([6, 9]), Err(ProtocolError::UnknownPlatformProfileCode));
}

#[test]
fn set_values_are_normalised() {
    assert_eq!(
        Request::try_from([4, 200]),
        Ok(Request::SetValue(SetRequest::DisplayBrightness { brightness: Percentage::from(100) }))
    );
    assert_eq!(
        Request::try_from([5, 9]),
        Ok(Request::SetValue(SetRequest::KeyboardBacklight { backlight: KeyboardBacklight::Max }))
    );
}

#[test]
fn message_packets_round_trip() {
    let messages = [
        Message::BatteryCharge(Percentage::from(77)),
        Message::BatteryStatus(BatteryStatus::Charging),
        Message::BatteryProtection(BatteryProtection::Off),
        Message::DisplayBrightness(Percentage::from(0)),
        Message::KeyboardBacklight(KeyboardBacklight::Low),
        Message::PlatformProfile(PlatformProfile::Custom),
        Message::PlatformProfileChoices(PlatformProfileChoices::from(0b1010_0101)),
        Message::Signal(Signal::Synced),
        Message::Signal(Signal::Unavailable),
        Message::Signal(Signal::MaxClients),
    ];
    let packets = [
        [1, 77],
        [2, 2],
        [3, 0],
        [4, 0],
        [5, 1],
        [6, 8],
        [7, 0b1010_0101],
        [255, 1],
        [255, 2],
        [255, 3],
    ];
    for (m, p) in messages.iter().zip(packets.iter()) {
        assert_eq!(m.to_packet(), *p);
        assert_eq!(Message::try_from(*p), Ok(*m));
    }
}

#[test]
fn message_errors() {
    assert_eq!(Message::try_from([0, 0]), Err(ProtocolError::UnknownMessageCode));
    assert_eq!(Message::try_from([8, 0]), Err(ProtocolError::UnknownMessageCode));
    assert_eq!(Message::try_from([2, 0]), Err(ProtocolError::UnknownBatteryStatusCode));
    assert_eq!(Message::try_from([2, 4]), Err(ProtocolError::UnknownBatteryStatusCode));
    assert_eq!(Message::try_from([3, 3]), Err(ProtocolError::UnknownBatteryProtectionCode));
    assert_eq!(Message::try_from([6, 0]), Err(ProtocolError::UnknownPlatformProfileCode));
    assert_eq!(Message::try_from([255, 0]), Err(ProtocolError::UnknownSignalCode));
    assert_eq!(Message::try_from([255, 4]), Err(ProtocolError::UnknownSignalCode));
    assert_eq!(Message::try_from([1, 250]), Ok(Message::BatteryCharge(Percentage::from(100))));
}

#[test]
fn error_texts() {
    assert_eq!(ProtocolError::UnknownGetCode.as_str(), "Unknown get code");
    assert_eq!(ProtocolError::UnknownBatteryProtectionCode.as_str(), "Unknow battery protection code");
    assert_eq!(ProtocolError::UnknownPlatformProfileCode.as_str(), "Unknown platform profile code");
}

#[test]
fn codes_round_trip() {
    for s in [BatteryStatus::Inactive, BatteryStatus::Charging, BatteryStatus::Discharging] {
        assert_eq!(BatteryStatus::try_from(s.code()), Ok(s));
    }
    for p in [BatteryProtection::Off, BatteryProtection::On, BatteryProtection::Stationary] {
        assert_eq!(BatteryProtection::try_from(p.code()), Ok(p));
    }
    for s in [Signal::Synced, Signal::Unavailable, Signal::MaxClients] {
        assert_eq!(Signal::try_from(s.code()), Ok(s));
    }
    for (i, p) in ALL_PROFILES.iter().enumerate() {
        assert_eq!(p.index(), i);
        assert_eq!(p.code(), i as u8 + 1);
        assert_eq!(PlatformProfile::try_from(p.code()), Ok(*p));
    }
    for k in [KeyboardBacklight::Off, KeyboardBacklight::Low, KeyboardBacklight::Medium, KeyboardBacklight::Max] {
        assert_eq!(KeyboardBacklight::from(k.value()), k);
    }
    assert_eq!(KeyboardBacklight::from(200), KeyboardBacklight::Max);
}

#[test]
fn names() {
    assert_eq!(PlatformProfile::BalancedPerformance.as_str(), "balanced-performance");
    assert_eq!(PlatformProfile::MaxPower.display_name(), "Max Power");
    assert_eq!(BatteryStatus::Discharging.as_str(), "discharging");
    assert_eq!(BatteryStatus::Inactive.display_name(), "Inactive");
    assert_eq!(BatteryProtection::Stationary.as_str(), "stationary");
    assert_eq!(KeyboardBacklight::Medium.as_str(), "medium");
    assert_eq!(Signal::MaxClients.as_str(), "Server max clients limit exceeded");
}

#[test]
fn defaults() {
    assert_eq!(BatteryProtection::default(), BatteryProtection::On);
    assert_eq!(KeyboardBacklight::default(), KeyboardBacklight::Off);
    assert_eq!(PlatformProfile::default(), PlatformProfile::Balanced);
}

#[test]
fn percentage_arithmetic() {
    let p = Percentage::from(250);
    assert_eq!(p.value(), 100);
    assert_eq!((Percentage::from(90) + 20).value(), 100);
    assert_eq!((Percentage::from(90) + 255).value(), 100);
    assert_eq!((Percentage::from(40) + 5).value(), 45);
    assert_eq!((Percentage::from(10) - 20).value(), 0);
    assert_eq!((Percentage::from(30) - 5).value(), 25);
    assert_eq!(Percentage::from(30).min(20).value(), 20);
    assert_eq!(Percentage::from(30).min(50).value(), 30);
    assert_eq!(Percentage::from(30).max(50).value(), 50);
    assert_eq!(Percentage::from(30).max(200).value(), 100);
    assert_eq!(Percentage::from(60).max(50).value(), 60);
    assert_eq!(Percentage::from(100).value(), 100);
}

#[test]
fn percentage_parse() {
    assert_eq!(Percentage::parse("42"), Some(Percentage::from(42)));
    assert_eq!(Percentage::parse("+7"), Some(Percentage::from(7)));
    assert_eq!(Percentage::parse("200"), Some(Percentage::from(100)));
    assert_eq!(Percentage::parse("256"), None);
    assert_eq!(Percentage::parse(""), None);
    assert_eq!(Percentage::parse("+"), None);
    assert_eq!(Percentage::parse("-1"), None);
    assert_eq!(Percentage::parse(" 5"), None);
}

#[test]
fn battery_protection_steps() {
    assert_eq!(BatteryProtection::Off.next(), Some(BatteryProtection::On));
    assert_eq!(BatteryProtection::Stationary.next(), None);
    assert_eq!(BatteryProtection::Stationary.next_cyclic(), BatteryProtection::Off);
    assert_eq!(BatteryProtection::Off.previous(), None);
    assert_eq!(BatteryProtection::Off.previous_cyclic(), BatteryProtection::Stationary);
    assert_eq!(BatteryProtection::On.previous(), Some(BatteryProtection::Off));
    for p in [BatteryProtection::Off, BatteryProtection::On, BatteryProtection::Stationary] {
        assert_eq!(p.next_cyclic().previous_cyclic(), p);
    }
}

#[test]
fn keyboard_backlight_steps() {
    assert_eq!(KeyboardBacklight::Off.next(), Some(KeyboardBacklight::Low));
    assert_eq!(KeyboardBacklight::Max.next(), None);
    assert_eq!(KeyboardBacklight::Max.next_cyclic(), KeyboardBacklight::Off);
    assert_eq!(KeyboardBacklight::Off.previous(), None);
    assert_eq!(KeyboardBacklight::Off.previous_cyclic(), KeyboardBacklight::Max);
    assert_eq!(KeyboardBacklight::Medium.previous(), Some(KeyboardBacklight::Low));
    for k in [KeyboardBacklight::Off, KeyboardBacklight::Low, KeyboardBacklight::Medium, KeyboardBacklight::Max] {
        assert_eq!(k.previous_cyclic().next_cyclic(), k);
    }
}

#[test]
fn platform_profile_choices_navigation() {
    // low-power, balanced, performance
    let c = PlatformProfileChoices::from(0b0010_1001);
    assert_eq!(c.count(), 3);
    assert!(c.contains(PlatformProfile::Balanced));
    assert!(!c.contains(PlatformProfile::Quiet));
    assert_eq!(c.first(), Some(PlatformProfile::LowPower));
    assert_eq!(c.last(), Some(PlatformProfile::Performance));
    assert_eq!(c.next(PlatformProfile::LowPower), Some(PlatformProfile::Balanced));
    assert_eq!(c.next(PlatformProfile::Cool), Some(PlatformProfile::Balanced));
    assert_eq!(c.next(PlatformProfile::Performance), None);
    assert_eq!(c.next_cyclic(PlatformProfile::Performance), Some(PlatformProfile::LowPower));
    assert_eq!(c.previous(PlatformProfile::Balanced), Some(PlatformProfile::LowPower));
    assert_eq!(c.previous(PlatformProfile::LowPower), None);
    assert_eq!(c.previous_cyclic(PlatformProfile::LowPower), Some(PlatformProfile::Performance));
    assert_eq!(c.list(), 0b0010_1001);
}

#[test]
fn platform_profile_choices_edges() {
    let none = PlatformProfileChoices::from(0);
    assert_eq!(none.count(), 0);
    assert_eq!(none.first(), None);
    assert_eq!(none.last(), None);
    assert_eq!(none.next_cyclic(PlatformProfile::Balanced), None);
    assert_eq!(none.previous_cyclic(PlatformProfile::Balanced), None);
    let all = PlatformProfileChoices::from(0xff);
    assert_eq!(all.count(), 8);
    assert_eq!(all.first(), Some(PlatformProfile::LowPower));
    assert_eq!(all.last(), Some(PlatformProfile::Custom));
    assert_eq!(all.next(PlatformProfile::Custom), None);
    assert_eq!(all.next_cyclic(PlatformProfile::Custom), Some(PlatformProfile::LowPower));
    let one = PlatformProfileChoices::from(0b1000);
    assert_eq!(one.next_cyclic(PlatformProfile::Balanced), Some(PlatformProfile::Balanced));
    assert_eq!(one.previous_cyclic(PlatformProfile::Balanced), Some(PlatformProfile::Balanced));
}

#[test]
fn choices_next_then_previous_returns() {
    let c = PlatformProfileChoices::from(0b1100_0110);
    for p in [PlatformProfile::Cool, PlatformProfile::Quiet, PlatformProfile::MaxPower] {
        if let Some(q) = c.next(p) {
            assert_eq!(c.previous(q), Some(p));
        }
        if let Some(q) = c.previous(p) {
            assert_eq!(c.next(q), Some(p));
        }
    }
}
