pub mod common;
pub mod protocol_laws;
pub mod stack_string;
pub mod numeric;
pub mod state;
pub mod timer;
pub mod battery;
pub mod server;
pub mod service;
pub mod platform_profile;
pub mod power_supply;
pub mod config;
pub mod display_brightness;
pub mod keyboard_backlight;
pub mod file_var;
pub mod device;
pub mod display;
