//! The text shown to users for messages and values.
use crate::common::{
    group_percentage, has_bit, profile_at, BatteryProtection, BatteryStatus, KeyboardBacklight,
    Message, Percentage, PlatformProfile, PlatformProfileChoices, Signal,
};
use crate::stack_string::{decimal_digits, decimal_len, StackString};
use vstd::prelude::*;
use vstd::string::{StringExecFns, StringSliceAdditionalSpecFns};
use vstd::utf8::{encode_utf8, is_ascii_chars};

verus! {

broadcast use group_percentage;

/// The decimal digits of `n`, as characters.
pub open spec fn decimal_text(n: nat) -> Seq<char> {
    decimal_digits(n).map_values(|b: u8| b as char)
}

/// A string slice whose bytes are ASCII holds those bytes as characters.
proof fn lemma_ascii_str(s: &str, bytes: Seq<u8>)
    requires
        s.spec_bytes() == bytes,
        forall|i: int| 0 <= i < bytes.len() ==> bytes[i] < 128,
    ensures
        s@ == bytes.map_values(|b: u8| b as char),
{
    let c = bytes.map_values(|b: u8| b as char);
    assert(is_ascii_chars(c));
    vstd::utf8::is_ascii_chars_encode_utf8(c);
    assert(encode_utf8(c) =~= bytes);
    vstd::utf8::encode_utf8_decode_utf8(c);
    vstd::utf8::encode_utf8_decode_utf8(s@);
}

/// The decimal digits of a byte, as a string.
fn byte_text(v: u8) -> (s: String)
    ensures
        s@ == decimal_text(v as nat),
{
    proof {
        reveal_with_fuel(decimal_len, 4);
        crate::stack_string::lemma_decimal_digits_len(v as nat);
    }
    let digits = StackString::<3>::from_u8(v);
    proof {
        let d = decimal_digits(v as nat);
        crate::stack_string::lemma_text_of_padded(d, (3 - d.len()) as nat);
        assert forall|i: int| 0 <= i < d.len() implies d[i] < 128 && d[i] != 0 by {}
        assert(forall|i: int| 0 <= i < d.len() ==> d[i] < 128);
        assert(vstd::utf8::valid_utf8(d)) by {
            lemma_ascii_valid(d);
        }
    }
    let text = digits.as_str();
    proof {
        lemma_ascii_str(text, decimal_digits(v as nat));
    }
    let mut s = String::new();
    s.append(text);
    s
}

/// ASCII bytes are valid UTF-8.
proof fn lemma_ascii_valid(bytes: Seq<u8>)
    requires
        forall|i: int| 0 <= i < bytes.len() ==> bytes[i] < 128,
    ensures
        vstd::utf8::valid_utf8(bytes),
{
    assert(bytes.subrange(0, 0) =~= Seq::<u8>::empty());
    assert(vstd::utf8::partial_valid_utf8(bytes, 0));
    assert forall|i: int| 0 <= 0 <= i < bytes.len() <= bytes.len() implies #[trigger]
        vstd::utf8::is_leading_byte_width_1(bytes[i]) by {}
    vstd::utf8::partial_valid_utf8_extend_ascii_block(bytes, 0, bytes.len() as int);
    assert(bytes.subrange(0, bytes.len() as int) =~= bytes);
}

impl Percentage {
    /// The value in decimal.
    pub fn to_display_string(&self) -> (s: String)
        ensures
            s@ == decimal_text(self@ as nat),
    {
        byte_text(self.value())
    }
}

/// The names of the offered profiles below position `n`, in order.
pub open spec fn offered_names(list: u8, n: int) -> Seq<Seq<char>>
    decreases n,
{
    if n <= 0 {
        Seq::empty()
    } else {
        let before = offered_names(list, n - 1);
        if has_bit(list, n - 1) {
            before.push(profile_at(n - 1)->0.text())
        } else {
            before
        }
    }
}

/// The names, each in double quotes, separated by a comma and a space.
pub open spec fn quoted_list(names: Seq<Seq<char>>) -> Seq<char>
    decreases names.len(),
{
    if names.len() == 0 {
        Seq::empty()
    } else if names.len() == 1 {
        "\""@ + names[0] + "\""@
    } else {
        quoted_list(names.drop_last()) + ", "@ + "\""@ + names.last() + "\""@
    }
}

impl PlatformProfileChoices {
    /// The offered profiles' names, quoted, in a bracketed list.
    pub fn to_display_string(&self) -> (s: String)
        ensures
            s@ == "["@ + quoted_list(offered_names(self@, 8)) + "]"@,
    {
        let list = PlatformProfileChoices::list(self);
        let mut first = true;
        let mut s = String::new();
        s.append("[");
        let mut i: u8 = 0;
        while i < 8
            invariant
                i <= 8,
                list == self@,
                first == (offered_names(list, i as int).len() == 0),
                s@ == "["@ + quoted_list(offered_names(list, i as int)),
            decreases 8 - i,
        {
            let ghost before = offered_names(list, i as int);
            if list & (1u8 << i) > 0 {
                match PlatformProfile::try_from(i + 1) {
                    Ok(profile) => {
                        if first {
                            first = false;
                        } else {
                            s.append(", ");
                        }
                        s.append("\"");
                        s.append(profile.as_str());
                        s.append("\"");
                        proof {
                            let after = before.push(profile.text());
                            assert(has_bit(list, i as int));
                            assert(profile_at(i as int) == Some(profile));
                            assert(offered_names(list, i + 1) == after);
                            assert(after.drop_last() =~= before);
                        }
                    },
                    Err(_) => {
                        proof {
                            assert(false);
                        }
                    },
                }
            }
            i += 1;
        }
        s.append("]");
        s
    }
}

impl Message {
    /// The text shown for the message: `name = value`, or the signal's text.
    pub fn to_display_string(&self) -> (s: String)
        ensures
            s@ == self.display_text(),
    {
        let mut s = String::new();
        match self {
            Message::BatteryCharge(charge) => {
                s.append("battery_charge = ");
                let v = charge.to_display_string();
                s.append(v.as_str());
            },
            Message::BatteryStatus(status) => {
                s.append("battery_status = ");
                s.append(status.as_str());
            },
            Message::BatteryProtection(protection) => {
                s.append("battery_protection = ");
                s.append(protection.as_str());
            },
            Message::DisplayBrightness(brightness) => {
                s.append("display_brightness = ");
                let v = brightness.to_display_string();
                s.append(v.as_str());
            },
            Message::KeyboardBacklight(backlight) => {
                s.append("keyboard_backlight = ");
                s.append(backlight.as_str());
            },
            Message::PlatformProfile(profile) => {
                s.append("platform_profile = ");
                s.append(profile.as_str());
            },
            Message::PlatformProfileChoices(choices) => {
                s.append("platform_profile_choices = ");
                let v = choices.to_display_string();
                s.append(v.as_str());
            },
            Message::Signal(signal) => {
                s.append(signal.as_str());
            },
        }
        s
    }

    pub open spec fn display_text(self) -> Seq<char> {
        match self {
            Message::BatteryCharge(charge) => "battery_charge = "@ + decimal_text(charge@ as nat),
            Message::BatteryStatus(status) => "battery_status = "@ + status.text(),
            Message::BatteryProtection(p) => "battery_protection = "@ + p.text(),
            Message::DisplayBrightness(b) => "display_brightness = "@ + decimal_text(b@ as nat),
            Message::KeyboardBacklight(k) => "keyboard_backlight = "@ + k.text(),
            Message::PlatformProfile(p) => "platform_profile = "@ + p.text(),
            Message::PlatformProfileChoices(c) => "platform_profile_choices = "@ + "["@ + quoted_list(
                offered_names(c@, 8),
            ) + "]"@,
            Message::Signal(signal) => signal.text(),
        }
    }
}


/// Dropping a common prefix keeps texts equal.
proof fn lemma_prefix_cancel(p: Seq<char>, a: Seq<char>, b: Seq<char>)
    requires
        p + a == p + b,
    ensures
        a == b,
{
    assert((p + a).skip(p.len() as int) =~= a);
    assert((p + b).skip(p.len() as int) =~= b);
}

/// No two battery statuses have the same name.
proof fn lemma_status_texts_distinct(s: BatteryStatus, t: BatteryStatus)
    requires
        s.text() == t.text(),
    ensures
        s == t,
{
    reveal_strlit("inactive");
    reveal_strlit("charging");
    reveal_strlit("discharging");
    let (a, b) = (s.text(), t.text());
    assert(a.len() == b.len() && a[0] == b[0]);
    match s {
        BatteryStatus::Inactive => assert(a.len() == 8 && a[0] == 'i'),
        BatteryStatus::Charging => assert(a.len() == 8 && a[0] == 'c'),
        BatteryStatus::Discharging => assert(a.len() == 11),
    }
    match t {
        BatteryStatus::Inactive => assert(b.len() == 8 && b[0] == 'i'),
        BatteryStatus::Charging => assert(b.len() == 8 && b[0] == 'c'),
        BatteryStatus::Discharging => assert(b.len() == 11),
    }
}

/// No two protection modes have the same name.
proof fn lemma_protection_texts_distinct(s: BatteryProtection, t: BatteryProtection)
    requires
        s.text() == t.text(),
    ensures
        s == t,
{
    reveal_strlit("off");
    reveal_strlit("on");
    reveal_strlit("stationary");
    let (a, b) = (s.text(), t.text());
    assert(a.len() == b.len());
    match s {
        BatteryProtection::Off => assert(a.len() == 3),
        BatteryProtection::On => assert(a.len() == 2),
        BatteryProtection::Stationary => assert(a.len() == 10),
    }
    match t {
        BatteryProtection::Off => assert(b.len() == 3),
        BatteryProtection::On => assert(b.len() == 2),
        BatteryProtection::Stationary => assert(b.len() == 10),
    }
}

/// No two keyboard backlight levels have the same name.
proof fn lemma_backlight_texts_distinct(s: KeyboardBacklight, t: KeyboardBacklight)
    requires
        s.text() == t.text(),
    ensures
        s == t,
{
    reveal_strlit("off");
    reveal_strlit("low");
    reveal_strlit("medium");
    reveal_strlit("max");
    let (a, b) = (s.text(), t.text());
    assert(a.len() == b.len() && a[0] == b[0]);
    match s {
        KeyboardBacklight::Off => assert(a.len() == 3 && a[0] == 'o'),
        KeyboardBacklight::Low => assert(a.len() == 3 && a[0] == 'l'),
        KeyboardBacklight::Medium => assert(a.len() == 6),
        KeyboardBacklight::Max => assert(a.len() == 3 && a[0] == 'm'),
    }
    match t {
        KeyboardBacklight::Off => assert(b.len() == 3 && b[0] == 'o'),
        KeyboardBacklight::Low => assert(b.len() == 3 && b[0] == 'l'),
        KeyboardBacklight::Medium => assert(b.len() == 6),
        KeyboardBacklight::Max => assert(b.len() == 3 && b[0] == 'm'),
    }
}

/// The line shown for a status, a protection mode, a backlight level or a
/// profile is its field name, ` = `, and the value's own name (what `as_str`
/// gives), so two different values of a kind are never shown alike.
pub proof fn lemma_value_display(
    s1: BatteryStatus,
    s2: BatteryStatus,
    p1: BatteryProtection,
    p2: BatteryProtection,
    k1: KeyboardBacklight,
    k2: KeyboardBacklight,
    f1: PlatformProfile,
    f2: PlatformProfile,
)
    ensures
        Message::BatteryStatus(s1).display_text() == "battery_status = "@ + s1.text(),
        Message::BatteryProtection(p1).display_text() == "battery_protection = "@ + p1.text(),
        Message::KeyboardBacklight(k1).display_text() == "keyboard_backlight = "@ + k1.text(),
        Message::PlatformProfile(f1).display_text() == "platform_profile = "@ + f1.text(),
        s1 != s2 ==> Message::BatteryStatus(s1).display_text() != Message::BatteryStatus(
            s2,
        ).display_text(),
        p1 != p2 ==> Message::BatteryProtection(p1).display_text() != Message::BatteryProtection(
            p2,
        ).display_text(),
        k1 != k2 ==> Message::KeyboardBacklight(k1).display_text() != Message::KeyboardBacklight(
            k2,
        ).display_text(),
        f1 != f2 ==> Message::PlatformProfile(f1).display_text() != Message::PlatformProfile(
            f2,
        ).display_text(),
{
    if Message::BatteryStatus(s1).display_text() == Message::BatteryStatus(s2).display_text() {
        lemma_prefix_cancel("battery_status = "@, s1.text(), s2.text());
        lemma_status_texts_distinct(s1, s2);
    }
    if Message::BatteryProtection(p1).display_text() == Message::BatteryProtection(p2).display_text() {
        lemma_prefix_cancel("battery_protection = "@, p1.text(), p2.text());
        lemma_protection_texts_distinct(p1, p2);
    }
    if Message::KeyboardBacklight(k1).display_text() == Message::KeyboardBacklight(k2).display_text() {
        lemma_prefix_cancel("keyboard_backlight = "@, k1.text(), k2.text());
        lemma_backlight_texts_distinct(k1, k2);
    }
    if Message::PlatformProfile(f1).display_text() == Message::PlatformProfile(f2).display_text() {
        lemma_prefix_cancel("platform_profile = "@, f1.text(), f2.text());
        crate::platform_profile::lemma_texts_distinct(f1, f2);
    }
}

} // verus!
