# device

A daemon that manages a laptop's battery charge protection, display brightness,
keyboard backlight and ACPI platform profile, serves their values to clients over
a Unix socket, and restores them after a restart; with a command-line client and
a client-side service state for desktop components.

## Layout

- `src/` is the library, verified with Verus:
  - `common.rs`: the two-byte wire protocol and its value types; `protocol_laws.rs`
    proves that decoding gives back what was encoded.
  - `server.rs`: request handling, subscriptions and the client limit, as a
    function from state and packet to new state and actions.
  - `battery.rs`, `keyboard_backlight.rs`, `display_brightness.rs`,
    `platform_profile.rs`, `timer.rs`: the hardware modules' decisions (charge
    thresholds and their emulation, polling, scales, profile names).
  - `power_supply.rs`: parsing of kernel uevents into the table of power supplies.
  - `state.rs`: the state file's encoding, with its round trip proved.
  - `stack_string.rs`, `numeric.rs`, `file_var.rs`, `display.rs`: fixed-size
    strings, number parsing and printing, and user-facing text.
  - `config.rs`, `device.rs`, `service.rs`: configuration, device-wide decisions,
    and the client-side service state with its reconnection schedule.
- `tests/` runs the library on concrete values.
- `app/` is the program around it: system calls, the event loop, files, the
  socket, the configuration file, the command-line parser and the async client.
