//! Reading the ACPI platform profile files: the current profile's name, and the
//! space-separated list of the names on offer.
use crate::common::{
    choices, group_choices, PlatformProfile, PlatformProfileChoices,
};
use crate::stack_string::StackString;
use vstd::prelude::*;
use vstd::string::StringSliceAdditionalSpecFns;
use vstd::utf8::encode_utf8;

verus! {

broadcast use group_choices;

/// The file holding the current profile's name.
pub type ProfileString = StackString<16>;

/// The file holding the names on offer.
pub type ProfileChoicesString = StackString<128>;

/// The bytes of a profile's name.
pub open spec fn name_bytes(p: PlatformProfile) -> Seq<u8> {
    encode_utf8(p.text())
}

/// The profile named by `s`, if any.
pub open spec fn profile_of_name(s: Seq<u8>) -> Option<PlatformProfile> {
    if s == name_bytes(PlatformProfile::LowPower) {
        Some(PlatformProfile::LowPower)
    } else if s == name_bytes(PlatformProfile::Cool) {
        Some(PlatformProfile::Cool)
    } else if s == name_bytes(PlatformProfile::Quiet) {
        Some(PlatformProfile::Quiet)
    } else if s == name_bytes(PlatformProfile::Balanced) {
        Some(PlatformProfile::Balanced)
    } else if s == name_bytes(PlatformProfile::BalancedPerformance) {
        Some(PlatformProfile::BalancedPerformance)
    } else if s == name_bytes(PlatformProfile::Performance) {
        Some(PlatformProfile::Performance)
    } else if s == name_bytes(PlatformProfile::MaxPower) {
        Some(PlatformProfile::MaxPower)
    } else if s == name_bytes(PlatformProfile::Custom) {
        Some(PlatformProfile::Custom)
    } else {
        None
    }
}

/// The position of the first space in `s` at or after `i`, or `s.len()`.
pub open spec fn next_space(s: Seq<u8>, i: int) -> int
    decreases s.len() - i,
{
    if i >= s.len() {
        s.len() as int
    } else if s[i] == 32 {
        i
    } else {
        next_space(s, i + 1)
    }
}

/// The mask of the profiles named in the space-separated list `s`, read from
/// position `i`.  Every piece between spaces (an empty one too) must be the name of
/// a profile that fits a 16-byte profile string, else there is no mask.
pub open spec fn choices_mask_from(s: Seq<u8>, i: int) -> Option<u8>
    decreases s.len() - i, 0int,
{
    if i < 0 || i > s.len() {
        None
    } else {
        let end = next_space(s, i);
        let piece = s.subrange(i, end);
        match profile_of_name(piece) {
            None => None,
            Some(p) => if piece.len() >= 16 {
                None
            } else if end >= s.len() {
                Some(1u8 << (p.spec_index() as u8))
            } else {
                if end < i {
                    None
                } else {
                    match choices_mask_from(s, end + 1) {
                        Some(m) => Some(m | (1u8 << (p.spec_index() as u8))),
                        None => None,
                    }
                }
            },
        }
    }
}

/// Whether two byte strings are equal.
fn bytes_eq(a: &[u8], b: &[u8]) -> (r: bool)
    ensures
        r == (a@ == b@),
{
    if a.len() != b.len() {
        return false;
    }
    let mut i: usize = 0;
    while i < a.len()
        invariant
            a@.len() == b@.len(),
            i <= a@.len(),
            forall|j: int| 0 <= j < i ==> a@[j] == b@[j],
        decreases a@.len() - i,
    {
        if a[i] != b[i] {
            return false;
        }
        i += 1;
    }
    assert(a@ =~= b@);
    true
}

fn name_matches(s: &[u8], p: PlatformProfile) -> (r: bool)
    ensures
        r == (s@ == name_bytes(p)),
{
    bytes_eq(s, p.as_str().as_bytes())
}

/// The profile whose name is `s`, if any.
pub fn profile_from_name(s: &[u8]) -> (r: Option<PlatformProfile>)
    ensures
        r == profile_of_name(s@),
{
    if name_matches(s, PlatformProfile::LowPower) {
        Some(PlatformProfile::LowPower)
    } else if name_matches(s, PlatformProfile::Cool) {
        Some(PlatformProfile::Cool)
    } else if name_matches(s, PlatformProfile::Quiet) {
        Some(PlatformProfile::Quiet)
    } else if name_matches(s, PlatformProfile::Balanced) {
        Some(PlatformProfile::Balanced)
    } else if name_matches(s, PlatformProfile::BalancedPerformance) {
        Some(PlatformProfile::BalancedPerformance)
    } else if name_matches(s, PlatformProfile::Performance) {
        Some(PlatformProfile::Performance)
    } else if name_matches(s, PlatformProfile::MaxPower) {
        Some(PlatformProfile::MaxPower)
    } else if name_matches(s, PlatformProfile::Custom) {
        Some(PlatformProfile::Custom)
    } else {
        None
    }
}

impl PlatformProfile {
    /// The profile named by the text of the profile file, if it names one.
    pub fn from_profile_string(s: &ProfileString) -> (r: Option<PlatformProfile>)
        ensures
            r == profile_of_name(s.text()),
    {
        profile_from_name(s.as_bytes())
    }
}

impl PlatformProfileChoices {
    /// The choices named by the text of the choices file, if every name in it is
    /// a profile that a profile string can hold.
    pub fn from_choices_string(s: &ProfileChoicesString) -> (r: Option<PlatformProfileChoices>)
        ensures
            r == (match choices_mask_from(s.text(), 0) {
                Some(m) => Some(choices(m)),
                None => None,
            }),
    {
        match choices_mask(s.as_bytes()) {
            Some(m) => Some(PlatformProfileChoices::from(m)),
            None => None,
        }
    }
}

fn next_space_at(s: &[u8], i: usize) -> (end: usize)
    requires
        i <= s@.len(),
    ensures
        end == next_space(s@, i as int),
        i <= end <= s@.len(),
        forall|k: int| i <= k < end ==> s@[k] != 32,
{
    let mut j = i;
    while j < s.len() && s[j] != 32
        invariant
            i <= j <= s@.len(),
            next_space(s@, i as int) == next_space(s@, j as int),
            forall|k: int| i <= k < j ==> s@[k] != 32,
        decreases s@.len() - j,
    {
        j += 1;
    }
    j
}

/// The mask of the profiles named in the space-separated list `s`; see `choices_mask_from`.
pub fn choices_mask(s: &[u8]) -> (r: Option<u8>)
    ensures
        r == choices_mask_from(s@, 0),
{
    choices_mask_at(s, 0)
}

fn choices_mask_at(s: &[u8], i: usize) -> (r: Option<u8>)
    requires
        i <= s@.len(),
    ensures
        r == choices_mask_from(s@, i as int),
    decreases s@.len() - i,
{
    let end = next_space_at(s, i);
    let piece = vstd::slice::slice_subrange(s, i, end);
    match profile_from_name(piece) {
        None => None,
        Some(p) => {
            if piece.len() >= 16 {
                None
            } else {
                let bit = 1u8 << (p.index() as u8);
                if end >= s.len() {
                    Some(bit)
                } else {
                    match choices_mask_at(s, end + 1) {
                        Some(m) => Some(m | bit),
                        None => None,
                    }
                }
            }
        },
    }
}

/// The text to write for switching to `profile`: its name, but only when it is
/// on offer.
pub fn profile_text_to_set(choices: PlatformProfileChoices, profile: PlatformProfile) -> (r: Option<
    ProfileString,
>)
    requires
        choices.spec_contains(profile) ==> name_bytes(profile).len() < 16,
    ensures
        choices.spec_contains(profile) ==> (r matches Some(s) && s.text() == name_bytes(profile)),
        !choices.spec_contains(profile) ==> r is None,
{
    if choices.contains(profile) {
        let name = profile.as_str();
        let s = ProfileString::from_text(name);
        proof {
            lemma_name_bytes_no_zero(profile);
            crate::stack_string::lemma_text_of_padded(
                name_bytes(profile),
                (16 - name_bytes(profile).len()) as nat,
            );
        }
        Some(s)
    } else {
        None
    }
}

/// Profile names are ASCII: their bytes are their characters, none of them zero,
/// and only "balanced-performance" is too long for a profile string.
pub proof fn lemma_name_bytes_no_zero(p: PlatformProfile)
    ensures
        name_bytes(p).len() == p.text().len(),
        forall|i: int| 0 <= i < name_bytes(p).len() ==> name_bytes(p)[i] != 0,
        forall|i: int| 0 <= i < name_bytes(p).len() ==> name_bytes(p)[i] == p.text()[i] as u8,
        name_bytes(p).len() < 16 <==> p != PlatformProfile::BalancedPerformance,
{
    let t = p.text();
    match p {
        PlatformProfile::LowPower => reveal_strlit("low-power"),
        PlatformProfile::Cool => reveal_strlit("cool"),
        PlatformProfile::Quiet => reveal_strlit("quiet"),
        PlatformProfile::Balanced => reveal_strlit("balanced"),
        PlatformProfile::BalancedPerformance => reveal_strlit("balanced-performance"),
        PlatformProfile::Performance => reveal_strlit("performance"),
        PlatformProfile::MaxPower => reveal_strlit("max-power"),
        PlatformProfile::Custom => reveal_strlit("custom"),
    }
    assert(vstd::utf8::is_ascii_chars(t));
    vstd::utf8::is_ascii_chars_encode_utf8(t);
    assert forall|i: int| 0 <= i < name_bytes(p).len() implies name_bytes(p)[i] != 0 by {
        assert(t[i] as u8 == name_bytes(p)[i]);
        assert(t[i] != '\0');
    }
}

/// No two profiles have the same name.
pub(crate) proof fn lemma_texts_distinct(p: PlatformProfile, q: PlatformProfile)
    requires
        p.text() == q.text(),
    ensures
        p == q,
{
    reveal_strlit("low-power");
    reveal_strlit("cool");
    reveal_strlit("quiet");
    reveal_strlit("balanced");
    reveal_strlit("balanced-performance");
    reveal_strlit("performance");
    reveal_strlit("max-power");
    reveal_strlit("custom");
    let (a, b) = (p.text(), q.text());
    assert(a.len() == b.len() && a[0] == b[0]);
    match p {
        PlatformProfile::LowPower => assert(a.len() == 9 && a[0] == 'l'),
        PlatformProfile::Cool => assert(a.len() == 4),
        PlatformProfile::Quiet => assert(a.len() == 5),
        PlatformProfile::Balanced => assert(a.len() == 8),
        PlatformProfile::BalancedPerformance => assert(a.len() == 20),
        PlatformProfile::Performance => assert(a.len() == 11),
        PlatformProfile::MaxPower => assert(a.len() == 9 && a[0] == 'm'),
        PlatformProfile::Custom => assert(a.len() == 6),
    }
    match q {
        PlatformProfile::LowPower => assert(b.len() == 9 && b[0] == 'l'),
        PlatformProfile::Cool => assert(b.len() == 4),
        PlatformProfile::Quiet => assert(b.len() == 5),
        PlatformProfile::Balanced => assert(b.len() == 8),
        PlatformProfile::BalancedPerformance => assert(b.len() == 20),
        PlatformProfile::Performance => assert(b.len() == 11),
        PlatformProfile::MaxPower => assert(b.len() == 9 && b[0] == 'm'),
        PlatformProfile::Custom => assert(b.len() == 6),
    }
}

/// The name written for a profile reads back as that profile.
pub proof fn lemma_profile_name_roundtrip(p: PlatformProfile)
    ensures
        profile_of_name(name_bytes(p)) == Some(p),
{
    assert forall|q: PlatformProfile| #[trigger] name_bytes(q) == name_bytes(p) implies q == p by {
        vstd::utf8::encode_utf8_decode_utf8(q.text());
        vstd::utf8::encode_utf8_decode_utf8(p.text());
        lemma_texts_distinct(p, q);
    }
}

/// A platform profile module is only worth having with two choices or more.
pub fn enough_choices(c: PlatformProfileChoices) -> (b: bool)
    ensures
        b == (c.spec_count() >= 2),
{
    c.count() >= 2
}

} // verus!
