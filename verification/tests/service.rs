use device::common::{
    BatteryProtection, BatteryStatus, KeyboardBacklight, Message as Update, Percentage, PlatformProfile,
    PlatformProfileChoices, ProtocolError, Signal,
};
use device::service::{feed_event, DeviceService, FeedEvent, Message, ReconnectSchedule};

#[test]
fn updates_are_recorded() {
    let mut s = DeviceService::default();
    assert_eq!(s.get_battery_info(), None);
    assert_eq!(s.update(Message::Update(Update::BatteryCharge(Percentage::from(12)))), None);
    assert_eq!(s.get_battery_info(), None);
    s.update(Message::Update(Update::BatteryStatus(BatteryStatus::Charging)));
    assert_eq!(s.get_battery_info(), Some((Percentage::from(12), BatteryStatus::Charging)));
    s.update(Message::Update(Update::BatteryProtection(BatteryProtection::Off)));
    assert_eq!(s.get_battery_protection(), Some(BatteryProtection::Off));
    s.update(Message::Update(Update::DisplayBrightness(Percentage::from(40))));
    assert_eq!(s.get_display_brightness(), Some(Percentage::from(40)));
    s.update(Message::Update(Update::KeyboardBacklight(KeyboardBacklight::Low)));
    assert_eq!(s.get_keyboard_backlight(), Some(KeyboardBacklight::Low));
    s.update(Message::Update(Update::PlatformProfile(PlatformProfile::Cool)));
    assert_eq!(s.get_platform_profile(), Some(PlatformProfile::Cool));
    assert_eq!(s.get_platform_profile_package(), None);
    s.update(Message::Update(Update::PlatformProfileChoices(PlatformProfileChoices::from(3))));
    assert_eq!(
        s.get_platform_profile_package(),
        Some((PlatformProfileChoices::from(3), PlatformProfile::Cool))
    );
    assert_eq!(s.update(Message::Update(Update::Signal(Signal::Unavailable))), Some(Signal::Unavailable));
    s.update(Message::Reset);
    assert_eq!(s.get_battery_protection(), None);
    assert_eq!(s.get_platform_profile(), None);
}

#[test]
fn requests_need_a_writer() {
    let mut s = DeviceService::default();
    assert_eq!(s.set_display_brightness(Percentage::from(20)), None);
    s.update(Message::SetWriter);
    assert_eq!(s.set_display_brightness(Percentage::from(20)), Some([4, 20]));
    assert_eq!(s.set_battery_protection(BatteryProtection::Stationary), Some([3, 2]));
    assert_eq!(s.set_keyboard_backlight(KeyboardBacklight::Max), Some([5, 3]));
    assert_eq!(s.set_platform_profile(PlatformProfile::Performance), Some([6, 6]));
    s.update(Message::Reset);
    assert_eq!(s.set_platform_profile(PlatformProfile::Performance), None);
}

#[test]
fn feed_events() {
    assert_eq!(feed_event([255, 1]), Ok(FeedEvent::Synced));
    assert_eq!(feed_event([255, 2]), Ok(FeedEvent::Update(Update::Signal(Signal::Unavailable))));
    assert_eq!(feed_event([1, 55]), Ok(FeedEvent::Update(Update::BatteryCharge(Percentage::from(55)))));
    assert_eq!(feed_event([0, 0]), Err(ProtocolError::UnknownMessageCode));
}

#[test]
fn reconnect_delays() {
    let mut r = ReconnectSchedule::new();
    let mut delays = Vec::new();
    while let Some(d) = r.next_delay() {
        delays.push(d);
    }
    assert_eq!(delays, vec![2, 5, 10, 15, 30, 60, 600]);
    assert_eq!(r.next_delay(), None);
    r.reset();
    assert_eq!(r.next_delay(), Some(2));
    assert_eq!(r.next_delay(), Some(5));
}
