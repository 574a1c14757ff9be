use device::battery::{BatteryEffect, BatteryModule, StatusString};
use device::common::{BatteryProtection, BatteryStatus, Message, Percentage};
use device::timer::{Timer, TimerCommand};

#[test]
fn thresholds_follow_the_table() {
    assert_eq!(BatteryModule::get_thresholds(BatteryProtection::Off), (95, 100));
    assert_eq!(BatteryModule::get_thresholds(BatteryProtection::On), (75, 80));
    assert_eq!(BatteryModule::get_thresholds(BatteryProtection::Stationary), (40, 60));
}

#[test]
fn init_with_both_thresholds() {
    let (b, effects) = BatteryModule::init(50, BatteryStatus::Discharging, 10, BatteryProtection::Stationary, false, true, true);
    assert_eq!(
        effects,
        vec![
            BatteryEffect::WriteStartThreshold(40),
            BatteryEffect::WriteEndThreshold(60),
            BatteryEffect::Timer(TimerCommand::Arm { interval_ms: 250 }),
            BatteryEffect::Timer(TimerCommand::Disarm),
            BatteryEffect::Timer(TimerCommand::Arm { interval_ms: 10000 }),
        ]
    );
    assert!(b.has_protection());
    assert!(!b.get_drop_threshold());
    assert_eq!(b.get_protection_mode(), BatteryProtection::Stationary);
    assert_eq!(b.get_charge().value(), 50);
    assert_eq!(b.get_status(), BatteryStatus::Discharging);
}

#[test]
fn init_without_thresholds() {
    let (b, effects) = BatteryModule::init(120, BatteryStatus::Inactive, 5, BatteryProtection::On, false, false, false);
    assert_eq!(effects, vec![BatteryEffect::Timer(TimerCommand::Arm { interval_ms: 5000 })]);
    assert!(!b.has_protection());
    assert_eq!(b.get_charge().value(), 100);
}

#[test]
fn start_threshold_emulation() {
    let (mut b, effects) = BatteryModule::init(50, BatteryStatus::Discharging, 10, BatteryProtection::On, true, false, true);
    assert_eq!(effects[0], BatteryEffect::WriteEndThreshold(75));
    assert!(b.get_drop_threshold());
    // Charge falls to the start threshold: the end threshold is raised.
    let effects = b.poll(75, BatteryStatus::Discharging);
    assert_eq!(
        effects,
        vec![
            BatteryEffect::WriteEndThreshold(80),
            BatteryEffect::Broadcast(Message::BatteryCharge(Percentage::from(75))),
        ]
    );
    assert!(!b.get_drop_threshold());
    // Between the thresholds nothing is written.
    let effects = b.poll(79, BatteryStatus::Charging);
    assert_eq!(
        effects,
        vec![
            BatteryEffect::Broadcast(Message::BatteryCharge(Percentage::from(79))),
            BatteryEffect::Broadcast(Message::BatteryStatus(BatteryStatus::Charging)),
        ]
    );
    // Charge reaches the end threshold: it is lowered again.
    let effects = b.poll(80, BatteryStatus::Charging);
    assert_eq!(
        effects,
        vec![
            BatteryEffect::WriteEndThreshold(75),
            BatteryEffect::Broadcast(Message::BatteryCharge(Percentage::from(80))),
        ]
    );
    assert!(b.get_drop_threshold());
    // Nothing changed: nothing happens.
    assert_eq!(b.poll(80, BatteryStatus::Charging), vec![]);
}

#[test]
fn fast_poller_hands_back_to_regular_poller() {
    let (mut b, _) = BatteryModule::init(50, BatteryStatus::Discharging, 30, BatteryProtection::On, false, true, true);
    let effects = b.on_power_supply_event(true);
    assert_eq!(
        effects,
        vec![
            BatteryEffect::Timer(TimerCommand::Disarm),
            BatteryEffect::Timer(TimerCommand::Arm { interval_ms: 250 }),
        ]
    );
    for _ in 0..10 {
        assert_eq!(b.poll(50, BatteryStatus::Discharging), vec![]);
    }
    assert_eq!(
        b.poll(50, BatteryStatus::Discharging),
        vec![
            BatteryEffect::Timer(TimerCommand::Disarm),
            BatteryEffect::Timer(TimerCommand::Arm { interval_ms: 30000 }),
        ]
    );
    assert_eq!(b.on_power_supply_event(false), vec![]);
}

#[test]
fn set_protection_mode_with_emulation() {
    let (mut b, _) = BatteryModule::init(50, BatteryStatus::Discharging, 10, BatteryProtection::On, true, false, true);
    let _ = b.poll(60, BatteryStatus::Discharging);
    assert!(!b.get_drop_threshold());
    let effects = b.set_protection_mode(BatteryProtection::Stationary);
    assert_eq!(effects[0], BatteryEffect::WriteEndThreshold(40));
    assert!(b.get_drop_threshold());
    assert_eq!(b.get_protection_mode(), BatteryProtection::Stationary);
}

#[test]
fn status_strings() {
    let parse = |s: &str| BatteryStatus::from_status_string(StatusString::from_text(s).trim_end());
    assert_eq!(parse("Not charging\n"), Some(BatteryStatus::Inactive));
    assert_eq!(parse("Full\n"), Some(BatteryStatus::Inactive));
    assert_eq!(parse("Unknown"), Some(BatteryStatus::Inactive));
    assert_eq!(parse("Charging\n"), Some(BatteryStatus::Charging));
    assert_eq!(parse("DISCHARGING"), Some(BatteryStatus::Discharging));
    assert_eq!(parse("Exploding"), None);
}

#[test]
fn timer_counts_to_its_limit() {
    let mut t = Timer::new();
    assert_eq!(t.start(), None);
    assert!(!t.running());
    assert_eq!(t.set(250, Some(2)), None);
    assert_eq!(t.start(), Some(TimerCommand::Arm { interval_ms: 250 }));
    assert!(t.running());
    assert_eq!(t.update(), None);
    assert_eq!(t.update(), None);
    assert_eq!(t.update(), Some(TimerCommand::Disarm));
    assert!(!t.running());
    assert_eq!(t.set(1000, None), None);
    assert_eq!(t.start(), Some(TimerCommand::Arm { interval_ms: 1000 }));
    assert_eq!(t.set(50, None), Some(TimerCommand::Disarm));
    assert_eq!(t.update(), None);
    assert_eq!(t.stop(), TimerCommand::Disarm);
}
