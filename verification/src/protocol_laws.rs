//! Laws of the wire protocol: what decoding gives back of an encoding, how codes
//! and values correspond, and how the stepping functions relate to each other.
use crate::common::{
    battery_protection_of_code, battery_protection_try_from, battery_status_try_from,
    clamp_percent, count_bits, group_choices, group_percentage, has_bit, keyboard_backlight_of_value,
    message_try_from, percentage, platform_profile_try_from, profile_at, request_try_from,
    scan_down, scan_up, signal_try_from, BatteryProtection, BatteryStatus, KeyboardBacklight,
    Message, Packet, Percentage, PlatformProfile, PlatformProfileChoices, Request, SetRequest, Signal,
};
use vstd::prelude::*;

verus! {

broadcast use {group_percentage, group_choices};

impl SetRequest {
    /// The carried value is one that can be encoded: a brightness is at most 100.
    pub open spec fn is_valid(self) -> bool {
        match self {
            SetRequest::DisplayBrightness { brightness } => brightness@ <= 100,
            _ => true,
        }
    }
}

impl Request {
    pub open spec fn is_valid(self) -> bool {
        match self {
            Request::SetValue(s) => s.is_valid(),
            _ => true,
        }
    }
}

impl Message {
    /// The carried value is one that can be encoded: a percentage is at most 100.
    pub open spec fn is_valid(self) -> bool {
        match self {
            Message::BatteryCharge(p) => p@ <= 100,
            Message::DisplayBrightness(p) => p@ <= 100,
            _ => true,
        }
    }
}

/// Each profile sits at its own position.
pub proof fn lemma_profile_at_index(p: PlatformProfile)
    ensures
        profile_at(p.spec_index()) == Some(p),
        0 <= p.spec_index() < 8,
{
}

/// The profile found at a position has that position as its index.
pub proof fn lemma_index_of_profile_at(i: int)
    requires
        profile_at(i) is Some,
    ensures
        profile_at(i)->0.spec_index() == i,
        0 <= i < 8,
{
}

/// Decoding the packet of a valid request gives back that request.
pub proof fn lemma_request_roundtrip(r: Request, p: Packet)
    requires
        r.is_valid(),
        p@ == r.spec_packet(),
    ensures
        request_try_from(p) == Ok::<Request, crate::common::ProtocolError>(r),
{
    assert(p[0] == p@[0] && p[1] == p@[1]);
    match r {
        Request::SetValue(s) => match s {
            SetRequest::DisplayBrightness { brightness } => {
                assert(percentage(brightness@) == brightness);
            },
            SetRequest::PlatformProfile { profile } => {
                lemma_profile_at_index(profile);
            },
            _ => {},
        },
        _ => {},
    }
}

/// Decoding the packet of a valid message gives back that message.
pub proof fn lemma_message_roundtrip(m: Message, p: Packet)
    requires
        m.is_valid(),
        p@ == m.spec_packet(),
    ensures
        message_try_from(p) == Ok::<Message, crate::common::ProtocolError>(m),
{
    assert(p[0] == p@[0] && p[1] == p@[1]);
    match m {
        Message::BatteryCharge(c) => {
            assert(percentage(c@) == c);
        },
        Message::DisplayBrightness(c) => {
            assert(percentage(c@) == c);
        },
        Message::PlatformProfile(profile) => {
            lemma_profile_at_index(profile);
        },
        _ => {},
    }
}

/// Every decoded message is valid, so encoding it and decoding again gives it back.
pub proof fn lemma_decoded_message_is_valid(p: Packet)
    ensures
        message_try_from(p) matches Ok(m) ==> m.is_valid(),
{
}

/// Every decoded request is valid, so encoding it and decoding again gives it back.
pub proof fn lemma_decoded_request_is_valid(p: Packet)
    ensures
        request_try_from(p) matches Ok(r) ==> r.is_valid(),
{
}

/// The subscription packet is `[255, 255]`, and it is the only packet that decodes to one.
pub proof fn lemma_subscribe_packet(p: Packet)
    ensures
        request_try_from(p) == Ok::<Request, crate::common::ProtocolError>(Request::Subscribe)
            <==> (p[0] == 255 && p[1] == 255),
{
}

/// Codes and battery statuses correspond one to one.
pub proof fn lemma_battery_status_code(s: BatteryStatus, code: u8)
    ensures
        battery_status_try_from(code) == Ok::<BatteryStatus, crate::common::ProtocolError>(s)
            <==> code == s.spec_code(),
{
}

/// Codes and battery protection modes correspond one to one.
pub proof fn lemma_battery_protection_code(m: BatteryProtection, code: u8)
    ensures
        battery_protection_try_from(code) == Ok::<BatteryProtection, crate::common::ProtocolError>(
            m,
        ) <==> code == m.spec_code(),
{
}

/// Codes and signals correspond one to one.
pub proof fn lemma_signal_code(s: Signal, code: u8)
    ensures
        signal_try_from(code) == Ok::<Signal, crate::common::ProtocolError>(s) <==> code
            == s.spec_code(),
{
}

/// Codes and platform profiles correspond one to one.
pub proof fn lemma_platform_profile_code(p: PlatformProfile, code: u8)
    ensures
        platform_profile_try_from(code) == Ok::<PlatformProfile, crate::common::ProtocolError>(p)
            <==> code == p.spec_code(),
{
}

/// A percentage is recovered from its value.
pub proof fn lemma_percentage_value(p: Percentage)
    requires
        p@ <= 100,
    ensures
        percentage(clamp_percent(p@ as int)) == p,
{
}

/// Battery protection modes and their positions 0, 1, 2 correspond one to one,
/// so stepping forward and then back (cyclically or not) returns to the start.
pub proof fn lemma_battery_protection_positions(m: BatteryProtection, c: u8)
    ensures
        battery_protection_of_code(m.spec_code()) == Some(m),
        c < 3 <==> battery_protection_of_code(c) is Some,
        battery_protection_of_code(c) matches Some(n) ==> n.spec_code() == c,
        m.spec_code() < 3,
{
}

/// Keyboard backlight levels and their positions 0 to 3 correspond one to one,
/// so stepping up and then down (cyclically or not) returns to the start.
pub proof fn lemma_keyboard_backlight_positions(k: KeyboardBacklight, v: u8)
    ensures
        keyboard_backlight_of_value(k.spec_value()) == k,
        v < 4 ==> keyboard_backlight_of_value(v).spec_value() == v,
        k.spec_value() < 4,
{
}

/// `scan_up` finds an offered position at or above its start, with nothing
/// offered in between.
pub proof fn lemma_scan_up(list: u8, i: int)
    requires
        0 <= i,
    ensures
        scan_up(list, i) matches Some(q) ==> {
            &&& i <= q.spec_index()
            &&& has_bit(list, q.spec_index())
            &&& forall|k: int| i <= k < q.spec_index() ==> !has_bit(list, k)
        },
        scan_up(list, i) is None ==> forall|k: int| i <= k < 8 ==> !has_bit(list, k),
    decreases 8 - i,
{
    if 0 <= i <= 7 && !has_bit(list, i) {
        lemma_scan_up(list, i + 1);
    }
}

/// `scan_down` finds an offered position at or below its start, with nothing
/// offered in between.
pub proof fn lemma_scan_down(list: u8, i: int)
    requires
        i <= 7,
    ensures
        scan_down(list, i) matches Some(q) ==> {
            &&& q.spec_index() <= i
            &&& has_bit(list, q.spec_index())
            &&& forall|k: int| q.spec_index() < k <= i ==> !has_bit(list, k)
        },
        scan_down(list, i) is None ==> forall|k: int| 0 <= k <= i ==> !has_bit(list, k),
    decreases i + 1,
{
    if 0 <= i <= 7 && !has_bit(list, i) {
        lemma_scan_down(list, i - 1);
    }
}

/// Scanning down from `i` reaches the offered position `j <= i` when nothing
/// in between is offered.
proof fn lemma_scan_down_reaches(list: u8, i: int, j: int)
    requires
        0 <= j <= i < 8,
        has_bit(list, j),
        forall|k: int| j < k <= i ==> !has_bit(list, k),
    ensures
        scan_down(list, i) == profile_at(j),
    decreases i - j,
{
    if i > j {
        lemma_scan_down_reaches(list, i - 1, j);
    }
}

/// Scanning up from `i` reaches the offered position `j >= i` when nothing in
/// between is offered.
proof fn lemma_scan_up_reaches(list: u8, i: int, j: int)
    requires
        0 <= i <= j < 8,
        has_bit(list, j),
        forall|k: int| i <= k < j ==> !has_bit(list, k),
    ensures
        scan_up(list, i) == profile_at(j),
    decreases j - i,
{
    if i < j {
        lemma_scan_up_reaches(list, i + 1, j);
    }
}

/// For an offered profile `p`, the previous choice of its next choice is `p`,
/// and the next choice of its previous choice is `p`.
pub proof fn lemma_choices_next_previous(c: PlatformProfileChoices, p: PlatformProfile)
    requires
        c.spec_contains(p),
    ensures
        scan_up(c@, p.spec_index() + 1) matches Some(q) ==> scan_down(c@, q.spec_index() - 1)
            == Some(p),
        scan_down(c@, p.spec_index() - 1) matches Some(q) ==> scan_up(c@, q.spec_index() + 1)
            == Some(p),
{
    let i = p.spec_index();
    lemma_profile_at_index(p);
    lemma_scan_up(c@, i + 1);
    lemma_scan_down(c@, i - 1);
    if let Some(q) = scan_up(c@, i + 1) {
        lemma_scan_down_reaches(c@, q.spec_index() - 1, i);
    }
    if let Some(q) = scan_down(c@, i - 1) {
        lemma_scan_up_reaches(c@, q.spec_index() + 1, i);
    }
}

/// Counting the set bits below `n` never gives more than `n`, and gives 0 only
/// when none of them is set.
pub proof fn lemma_count_bits(list: u8, n: int)
    requires
        0 <= n <= 8,
    ensures
        count_bits(list, n) <= n,
        count_bits(list, n) == 0 <==> forall|k: int| 0 <= k < n ==> !has_bit(list, k),
    decreases n,
{
    if n > 0 {
        lemma_count_bits(list, n - 1);
    }
}

/// The first choice exists exactly when some profile is offered, and then so
/// does the cyclic successor of any profile.
pub proof fn lemma_choices_nonempty(c: PlatformProfileChoices, p: PlatformProfile)
    ensures
        scan_up(c@, 0) is Some <==> c.spec_count() > 0,
        scan_down(c@, 7) is Some <==> c.spec_count() > 0,
        c.spec_count() > 0 ==> scan_up(c@, p.spec_index() + 1) is Some || scan_up(c@, 0) is Some,
{
    lemma_count_bits(c@, 8);
    lemma_scan_up(c@, 0);
    lemma_scan_down(c@, 7);
    if c.spec_count() > 0 {
        let k = choose|k: int| 0 <= k < 8 && has_bit(c@, k);
        assert(has_bit(c@, k));
    }
}

} // verus!
