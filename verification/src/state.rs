//! The settings that survive a restart, and their encoding in the state file: ten
//! upper-case hex digits, two for each of five bytes.
use crate::common::{
    battery_protection_of_code, clamp_percent, group_percentage, keyboard_backlight_of_value,
    percentage, profile_at, BatteryProtection, KeyboardBacklight, Percentage, PlatformProfile,
};
use crate::battery::DEFAULT_DROP_THRESHOLD;
use crate::display_brightness::DEFAULT_DISPLAY_BRIGHTNESS;
use crate::numeric::{digit_value, digits_value, parse_bounded, parse_unsigned, parse_unsigned_bounded};
use crate::stack_string::{
    lemma_stack_string_of_view, stack_string_of, text_of, StackString,
};
use vstd::prelude::*;
use vstd::string::StringSliceAdditionalSpecFns;
use vstd::utf8::valid_utf8;

verus! {

broadcast use {group_percentage, lemma_stack_string_of_view};

/// The text held in the state file.
pub type StateString = StackString<10>;

/// The settings that are saved on exit and restored on start.
#[derive(Debug, Clone, Copy, PartialEq, Eq, Structural)]
pub struct State {
    pub battery_protection: BatteryProtection,
    pub drop_threshold: bool,
    pub display_brightness: Percentage,
    pub keyboard_backlight: KeyboardBacklight,
    pub platform_profile: PlatformProfile,
}

/// The upper-case hex digit of `v` (below 16).
pub open spec fn hex_char(v: int) -> u8 {
    if v < 10 {
        (48 + v) as u8
    } else {
        (55 + v) as u8
    }
}

/// The `i`-th hex digit of `bytes`: the high nibble of `bytes[i / 2]` for even `i`,
/// its low nibble for odd `i`.
pub open spec fn hex_digit_of(bytes: Seq<u8>, i: int) -> u8 {
    let b = bytes[i / 2];
    if i % 2 == 0 {
        hex_char((b / 16) as int)
    } else {
        hex_char((b % 16) as int)
    }
}

/// The first `n` hex digits of `bytes`.
pub open spec fn hex_text(bytes: Seq<u8>, n: nat) -> Seq<u8> {
    Seq::new(n, |i: int| hex_digit_of(bytes, i))
}

/// The five bytes saved for a state, most significant first: battery protection
/// code, lowered threshold flag, display brightness, keyboard backlight value and
/// platform profile code.
pub open spec fn state_bytes(s: State) -> Seq<u8> {
    seq![
        s.battery_protection.spec_code(),
        if s.drop_threshold {
            1u8
        } else {
            0u8
        },
        s.display_brightness@,
        s.keyboard_backlight.spec_value(),
        s.platform_profile.spec_code(),
    ]
}

/// Byte `j` (0 is the least significant) of `n`.
pub open spec fn le_byte(n: nat, j: nat) -> u8 {
    ((n / pow256(j)) % 256) as u8
}

pub open spec fn pow256(j: nat) -> nat
    decreases j,
{
    if j == 0 {
        1
    } else {
        256 * pow256((j - 1) as nat)
    }
}

/// The settings used when the state file holds no number.
pub open spec fn default_state() -> State {
    State {
        battery_protection: BatteryProtection::On,
        drop_threshold: DEFAULT_DROP_THRESHOLD,
        display_brightness: percentage(DEFAULT_DISPLAY_BRIGHTNESS),
        keyboard_backlight: KeyboardBacklight::Off,
        platform_profile: PlatformProfile::Balanced,
    }
}

/// The settings read from the number `n`: its five low bytes, from the most
/// significant, give the battery protection code (On when unknown), the lowered
/// threshold flag, the display brightness, the keyboard backlight value and the
/// platform profile code (Balanced when unknown).
pub open spec fn state_of_number(n: nat) -> State {
    State {
        battery_protection: match battery_protection_of_code(le_byte(n, 4)) {
            Some(p) => p,
            None => BatteryProtection::On,
        },
        drop_threshold: le_byte(n, 3) > 0,
        display_brightness: percentage(clamp_percent(le_byte(n, 2) as int)),
        keyboard_backlight: keyboard_backlight_of_value(le_byte(n, 1)),
        platform_profile: match profile_at(le_byte(n, 0) - 1) {
            Some(p) => p,
            None => PlatformProfile::Balanced,
        },
    }
}

/// The settings read from the text of the state file: a hex number, or the
/// defaults when the text is not one.
pub open spec fn state_of_text(text: Seq<u8>) -> State {
    match parse_bounded(text, 16, 0xffff_ffff_ffff_ffff) {
        Some(n) => state_of_number(n),
        None => default_state(),
    }
}

/// The hex digits of `bytes`, `N` of them, two per byte with the high nibble first.
pub fn bytes_as_hex_bytes<const N: usize>(bytes: &[u8]) -> (hex_bytes: [u8; N])
    requires
        N <= 2 * bytes@.len(),
    ensures
        hex_bytes@ == hex_text(bytes@, N as nat),
{
    let mut hex_bytes = [0u8; N];
    let mut i: usize = 0;
    while i < N
        invariant
            i <= N,
            N <= 2 * bytes@.len(),
            hex_bytes@.len() == N,
            forall|j: int| 0 <= j < i ==> hex_bytes@[j] == hex_digit_of(bytes@, j),
        decreases N - i,
    {
        let b = bytes[i / 2];
        let shift: u8 = if i % 2 == 0 {
            4
        } else {
            0
        };
        let nibble = (b >> shift) & 0x0F;
        proof {
            if shift == 4 {
                assert((b >> 4u8) & 0x0Fu8 == b / 16) by (bit_vector);
            } else {
                assert((b >> 0u8) & 0x0Fu8 == b % 16) by (bit_vector);
            }
        }
        hex_bytes[i] = if nibble < 10 {
            48 + nibble
        } else {
            55 + nibble
        };
        i += 1;
    }
    assert(hex_bytes@ =~= hex_text(bytes@, N as nat));
    hex_bytes
}

impl From<&State> for StackString<10> {
    /// Ten hex digits for the five saved bytes.
    fn from(state: &State) -> (s: Self)
        ensures
            s@ == hex_text(state_bytes(*state), 10),
    {
        let mut bytes = [0u8; 5];
        bytes[0] = state.battery_protection.code();
        bytes[1] = if state.drop_threshold {
            1
        } else {
            0
        };
        bytes[2] = state.display_brightness.value();
        bytes[3] = state.keyboard_backlight.value();
        bytes[4] = state.platform_profile.code();
        assert(bytes@ =~= state_bytes(*state));
        StackString::from(bytes_as_hex_bytes::<10>(bytes.as_slice()))
    }
}

/// The text to write to the state file on exit: the current settings' text,
/// or nothing when the file already holds these settings.
pub fn state_to_save(on_file: &State, current: &State) -> (r: Option<StateString>)
    ensures
        *on_file == *current ==> r is None,
        *on_file != *current ==> (r matches Some(s) && s@ == hex_text(state_bytes(*current), 10)),
{
    if *on_file == *current {
        None
    } else {
        Some(StackString::<10>::from(current))
    }
}

impl vstd::std_specs::convert::FromSpecImpl<&State> for StackString<10> {
    open spec fn obeys_from_spec() -> bool {
        true
    }

    open spec fn from_spec(state: &State) -> StackString<10> {
        stack_string_of::<10>(hex_text(state_bytes(*state), 10))
    }
}

impl State {
    /// Reads the settings from the text of the state file, which must be valid UTF-8.
    pub fn from_state_string(s: &StateString) -> (state: State)
        requires
            valid_utf8(s.text()),
        ensures
            state == state_of_text(s.text()),
    {
        let text = s.as_str();
        let digits = text.as_bytes();
        match parse_unsigned_bounded(digits, 16, 0xffff_ffff_ffff_ffff) {
            Some(n) => {
                let b0 = (n & 0xff) as u8;
                let b1 = ((n >> 8) & 0xff) as u8;
                let b2 = ((n >> 16) & 0xff) as u8;
                let b3 = ((n >> 24) & 0xff) as u8;
                let b4 = ((n >> 32) & 0xff) as u8;
                proof {
                    lemma_le_bytes(n);
                }
                let battery_protection = match BatteryProtection::try_from(b4) {
                    Ok(p) => p,
                    Err(_) => BatteryProtection::default(),
                };
                let platform_profile = match PlatformProfile::try_from(b0) {
                    Ok(p) => p,
                    Err(_) => PlatformProfile::default(),
                };
                State {
                    battery_protection,
                    drop_threshold: b3 > 0,
                    display_brightness: Percentage::from(b2),
                    keyboard_backlight: KeyboardBacklight::from(b1),
                    platform_profile,
                }
            },
            None => State {
                battery_protection: BatteryProtection::default(),
                drop_threshold: DEFAULT_DROP_THRESHOLD,
                display_brightness: Percentage::from(DEFAULT_DISPLAY_BRIGHTNESS),
                keyboard_backlight: KeyboardBacklight::default(),
                platform_profile: PlatformProfile::default(),
            },
        }
    }
}

/// The bytes of a `u64` taken with shifts and masks are its base-256 digits.
proof fn lemma_le_bytes(n: u64)
    ensures
        (n & 0xff) as u8 == le_byte(n as nat, 0),
        ((n >> 8) & 0xff) as u8 == le_byte(n as nat, 1),
        ((n >> 16) & 0xff) as u8 == le_byte(n as nat, 2),
        ((n >> 24) & 0xff) as u8 == le_byte(n as nat, 3),
        ((n >> 32) & 0xff) as u8 == le_byte(n as nat, 4),
{
    reveal_with_fuel(pow256, 5);
    assert(pow256(0) == 1);
    assert(n as nat / 1 == n) by (nonlinear_arith);
    assert((n & 0xff) == n % 256) by (bit_vector);
    assert(((n >> 8) & 0xff) == (n / 0x100) % 256) by (bit_vector);
    assert(((n >> 16) & 0xff) == (n / 0x10000) % 256) by (bit_vector);
    assert(((n >> 24) & 0xff) == (n / 0x1000000) % 256) by (bit_vector);
    assert(((n >> 32) & 0xff) == (n / 0x100000000) % 256) by (bit_vector);
}

/// The number whose base-256 digits, most significant first, are the first `m`
/// bytes of `bytes`.
pub open spec fn be_value(bytes: Seq<u8>, m: nat) -> nat
    decreases m,
{
    if m == 0 {
        0
    } else {
        be_value(bytes, (m - 1) as nat) * 256 + bytes[m - 1] as nat
    }
}

/// A hex digit reads back as its value.
proof fn lemma_hex_char_value(v: int)
    requires
        0 <= v < 16,
    ensures
        digit_value(hex_char(v), 16) == Some(v as nat),
        hex_char(v) != 0,
        hex_char(v) != 43,
        hex_char(v) < 128,
{
}

/// The hex digits of the first `m` bytes read back as the number those bytes spell.
proof fn lemma_hex_text_value(bytes: Seq<u8>, m: nat)
    requires
        m <= bytes.len(),
    ensures
        digits_value(hex_text(bytes, 2 * m), 16) == Some(be_value(bytes, m)),
    decreases m,
{
    if m > 0 {
        lemma_hex_text_value(bytes, (m - 1) as nat);
        let full = hex_text(bytes, 2 * m);
        let one_less = hex_text(bytes, (2 * m - 1) as nat);
        let two_less = hex_text(bytes, (2 * m - 2) as nat);
        assert(full.drop_last() =~= one_less);
        assert(one_less.drop_last() =~= two_less);
        let b = bytes[m - 1];
        assert((2 * m - 2) / 2 == m - 1);
        assert((2 * m - 1) / 2 == m - 1);
        assert((2 * m - 2) % 2 == 0);
        assert((2 * m - 1) % 2 == 1);
        lemma_hex_char_value((b / 16) as int);
        lemma_hex_char_value((b % 16) as int);
        assert(one_less.last() == hex_char((b / 16) as int));
        assert(full.last() == hex_char((b % 16) as int));
        let high = be_value(bytes, (m - 1) as nat);
        assert(digits_value(two_less, 16) == Some(high));
        assert(digits_value(one_less, 16) == Some(high * 16 + (b / 16) as nat));
        assert(digits_value(full, 16) == Some((high * 16 + (b / 16) as nat) * 16 + (b % 16) as nat));
        assert((high * 16 + (b / 16) as nat) * 16 + (b % 16) as nat == high * 256 + b as nat)
            by (nonlinear_arith);
    }
}

/// Taking byte `j + 1` of `x * 256 + r` is taking byte `j` of `x`; byte 0 is `r`.
proof fn lemma_le_byte_shift(x: nat, r: nat, j: nat)
    requires
        r < 256,
    ensures
        le_byte(x * 256 + r, 0) == r,
        le_byte(x * 256 + r, j + 1) == le_byte(x, j),
{
    let n = x * 256 + r;
    assert(pow256(0) == 1);
    assert(n / 1 == n) by (nonlinear_arith);
    vstd::arithmetic::div_mod::lemma_fundamental_div_mod_converse(n as int, 256, x as int, r as int);
    assert(pow256(j + 1) == 256 * pow256(j));
    assert(pow256(j) > 0) by {
        lemma_pow256_positive(j);
    }
    vstd::arithmetic::div_mod::lemma_div_denominator(n as int, 256, pow256(j) as int);
}

proof fn lemma_pow256_positive(j: nat)
    ensures
        pow256(j) > 0,
    decreases j,
{
    if j > 0 {
        lemma_pow256_positive((j - 1) as nat);
    }
}

/// The hex digits of `bytes` hold no zero byte, no `+`, and only ASCII.
proof fn lemma_hex_text_ascii(bytes: Seq<u8>, n: nat)
    requires
        n <= 2 * bytes.len(),
    ensures
        forall|i: int| 0 <= i < n ==> #[trigger] hex_text(bytes, n)[i] != 0,
        forall|i: int| 0 <= i < n ==> #[trigger] hex_text(bytes, n)[i] < 128,
        n > 0 ==> hex_text(bytes, n)[0] != 43,
{
    assert forall|i: int| 0 <= i < n implies #[trigger] hex_text(bytes, n)[i] != 0
        && hex_text(bytes, n)[i] < 128 by {
        let b = bytes[i / 2];
        lemma_hex_char_value((b / 16) as int);
        lemma_hex_char_value((b % 16) as int);
    }
    if n > 0 {
        let b = bytes[0];
        lemma_hex_char_value((b / 16) as int);
    }
}

/// ASCII bytes are valid UTF-8.
proof fn lemma_ascii_valid_utf8(bytes: Seq<u8>)
    requires
        forall|i: int| 0 <= i < bytes.len() ==> bytes[i] < 128,
    ensures
        valid_utf8(bytes),
{
    assert(bytes.subrange(0, 0) =~= Seq::<u8>::empty());
    assert(vstd::utf8::partial_valid_utf8(bytes, 0));
    assert forall|i: int| 0 <= 0 <= i < bytes.len() <= bytes.len() implies #[trigger]
        vstd::utf8::is_leading_byte_width_1(bytes[i]) by {}
    vstd::utf8::partial_valid_utf8_extend_ascii_block(bytes, 0, bytes.len() as int);
    assert(bytes.subrange(0, bytes.len() as int) =~= bytes);
}

/// What is written to the state file is read back: the text that a valid state
/// turns into is valid UTF-8, fills all ten bytes, and reads back as that state.
pub proof fn lemma_state_roundtrip(st: State)
    requires
        st.display_brightness@ <= 100,
    ensures
        text_of(hex_text(state_bytes(st), 10)) == hex_text(state_bytes(st), 10),
        valid_utf8(hex_text(state_bytes(st), 10)),
        state_of_text(hex_text(state_bytes(st), 10)) == st,
{
    let bytes = state_bytes(st);
    let text = hex_text(bytes, 10);
    lemma_hex_text_ascii(bytes, 10);
    crate::stack_string::lemma_first_zero_skips(text, 0, 10);
    assert(text.take(10) =~= text);
    lemma_ascii_valid_utf8(text);
    lemma_hex_text_value(bytes, 5);
    reveal_with_fuel(be_value, 6);
    let v = be_value(bytes, 5);
    assert(v < 0x1_0000_0000_00) by {
        assert(bytes[0] < 256 && bytes[1] < 256 && bytes[2] < 256 && bytes[3] < 256 && bytes[4] < 256);
    }
    assert(parse_unsigned(text, 16) == Some(v));
    let v1 = be_value(bytes, 1);
    let v2 = be_value(bytes, 2);
    let v3 = be_value(bytes, 3);
    let v4 = be_value(bytes, 4);
    lemma_le_byte_shift(v4, bytes[4] as nat, 0);
    lemma_le_byte_shift(v4, bytes[4] as nat, 1);
    lemma_le_byte_shift(v4, bytes[4] as nat, 2);
    lemma_le_byte_shift(v4, bytes[4] as nat, 3);
    lemma_le_byte_shift(v3, bytes[3] as nat, 0);
    lemma_le_byte_shift(v3, bytes[3] as nat, 1);
    lemma_le_byte_shift(v3, bytes[3] as nat, 2);
    lemma_le_byte_shift(v2, bytes[2] as nat, 0);
    lemma_le_byte_shift(v2, bytes[2] as nat, 1);
    lemma_le_byte_shift(v1, bytes[1] as nat, 0);
    assert(v1 == bytes[0]);
    assert(le_byte(v, 4) == bytes[0]);
    assert(le_byte(v, 3) == bytes[1]);
    assert(le_byte(v, 2) == bytes[2]);
    assert(le_byte(v, 1) == bytes[3]);
    assert(le_byte(v, 0) == bytes[4]);
    crate::protocol_laws::lemma_profile_at_index(st.platform_profile);
    assert(percentage(clamp_percent(st.display_brightness@ as int)) == st.display_brightness);
}

} // verus!
