use device::common::{
    BatteryProtection, BatteryStatus, Get, KeyboardBacklight, Message, Percentage, PlatformProfile,
    PlatformProfileChoices, ProtocolError, SetRequest, Signal,
};
use device::server::{Connection, DeviceInfo, Server, ServerAction, MAX_CLIENTS};

fn full_device() -> DeviceInfo {
    DeviceInfo {
        battery_charge: Some(Percentage::from(64)),
        battery_status: Some(BatteryStatus::Charging),
        battery_protection: Some(BatteryProtection::On),
        display_brightness: Some(Percentage::from(30)),
        keyboard_backlight: Some(KeyboardBacklight::Low),
        platform_profile: Some(PlatformProfile::Quiet),
        platform_profile_choices: Some(PlatformProfileChoices::from(0b0000_1110)),
    }
}

fn bare_device() -> DeviceInfo {
    DeviceInfo {
        battery_charge: None,
        battery_status: None,
        battery_protection: None,
        display_brightness: Some(Percentage::from(30)),
        keyboard_backlight: None,
        platform_profile: None,
        platform_profile_choices: None,
    }
}

#[test]
fn connections_are_accepted_up_to_the_limit() {
    let mut server = Server::init();
    let device = full_device();
    for fd in 0..MAX_CLIENTS as i32 {
        let c = Connection::new(fd);
        assert_eq!(server.on_connection(c), vec![ServerAction::Listen(c)]);
        server.on_message(c, Some([255, 255]), &device);
    }
    let late = Connection::new(99);
    assert_eq!(
        server.on_connection(late),
        vec![ServerAction::Send(late, [255, 3]), ServerAction::Close(late)]
    );
}

#[test]
fn get_is_answered() {
    let mut server = Server::init();
    let c = Connection::new(4);
    assert_eq!(
        server.on_message(c, Some(Get::BatteryCharge.to_packet()), &full_device()),
        vec![ServerAction::Send(c, [1, 64])]
    );
    assert_eq!(
        server.on_message(c, Some(Get::PlatformProfileChoices.to_packet()), &full_device()),
        vec![ServerAction::Send(c, [7, 0b0000_1110])]
    );
    assert_eq!(
        server.on_message(c, Some(Get::BatteryStatus.to_packet()), &bare_device()),
        vec![ServerAction::Send(c, [255, 2])]
    );
}

#[test]
fn subscribe_sends_everything_then_synced() {
    let mut server = Server::init();
    let c = Connection::new(7);
    let actions = server.on_message(c, Some([255, 255]), &full_device());
    assert_eq!(
        actions,
        vec![
            ServerAction::Send(c, [1, 64]),
            ServerAction::Send(c, [2, 2]),
            ServerAction::Send(c, [3, 1]),
            ServerAction::Send(c, [4, 30]),
            ServerAction::Send(c, [5, 1]),
            ServerAction::Send(c, [6, 3]),
            ServerAction::Send(c, [7, 0b0000_1110]),
            ServerAction::Send(c, [255, 1]),
        ]
    );
    let actions = server.on_message(c, Some([255, 255]), &bare_device());
    assert_eq!(actions, vec![ServerAction::Send(c, [4, 30]), ServerAction::Send(c, [255, 1])]);
    // Subscribed once: a broadcast reaches it once.
    assert_eq!(server.broadcast(Message::Signal(Signal::Synced)), vec![ServerAction::Send(c, [255, 1])]);
}

#[test]
fn set_requests() {
    let mut server = Server::init();
    let a = Connection::new(1);
    let b = Connection::new(2);
    server.on_message(a, Some([255, 255]), &bare_device());
    server.on_message(b, Some([255, 255]), &bare_device());
    let set = SetRequest::BatteryProtection { protection: BatteryProtection::Off };
    assert_eq!(
        server.on_message(a, Some(set.to_packet()), &full_device()),
        vec![ServerAction::Apply(set), ServerAction::Send(a, [3, 0]), ServerAction::Send(b, [3, 0])]
    );
    assert_eq!(server.on_message(a, Some(set.to_packet()), &bare_device()), vec![]);
    let set = SetRequest::DisplayBrightness { brightness: Percentage::from(12) };
    assert_eq!(server.on_message(a, Some([4, 12]), &bare_device()), vec![ServerAction::Apply(set)]);
}

#[test]
fn bad_packets_and_hangups_close_the_channel() {
    let mut server = Server::init();
    let a = Connection::new(1);
    let b = Connection::new(2);
    server.on_message(a, Some([255, 255]), &bare_device());
    server.on_message(b, Some([255, 255]), &bare_device());
    assert_eq!(
        server.on_message(a, Some([9, 9]), &bare_device()),
        vec![
            ServerAction::ReportError(ProtocolError::UnknownSetCode),
            ServerAction::Unlisten(a),
            ServerAction::Close(a),
        ]
    );
    assert_eq!(server.broadcast(Message::Signal(Signal::Synced)), vec![ServerAction::Send(b, [255, 1])]);
    assert_eq!(server.on_message(b, None, &bare_device()), vec![ServerAction::Unlisten(b), ServerAction::Close(b)]);
    assert_eq!(server.broadcast(Message::Signal(Signal::Synced)), vec![]);
    assert_eq!(Connection::new(5).get_fd(), 5);
}
