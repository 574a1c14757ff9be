//! The text of small sysfs-style files: a decimal number, possibly followed by a
//! newline, in a fixed-size buffer.
use crate::numeric::{digit_value, digits_value, parse_bounded, parse_unsigned_bounded};
use crate::stack_string::{
    decimal_digits, decimal_len, lemma_decimal_digits_len, lemma_decimal_len_bound, text_of,
    trim_from, StackString,
};
use vstd::prelude::*;

verus! {

/// How a file variable is opened.
#[derive(Debug, Clone, Copy, PartialEq, Eq, Structural)]
pub enum Mode {
    ReadOnly,
    ReadWrite,
    Create,
}

impl Mode {
    /// Values are only written to files not opened read-only.
    pub fn allows_write(&self) -> (b: bool)
        ensures
            b == !(*self is ReadOnly),
    {
        match self {
            Mode::ReadOnly => false,
            _ => true,
        }
    }
}

/// The number held by a file's first bytes, read as `str::parse` reads a `u8`
/// after trailing spaces and newlines are cut.
pub fn u8_from_file_bytes(buf: [u8; 3]) -> (r: Option<u8>)
    ensures
        r == (match parse_bounded(text_of(trim_from(buf@, 2)), 10, 255) {
            Some(v) => Some(v as u8),
            None => None::<u8>,
        }),
{
    let s = StackString::<3>::from(buf).trim_end();
    match parse_unsigned_bounded(s.as_bytes(), 10, 255) {
        Some(v) => Some(v as u8),
        None => None,
    }
}

/// The number held by a file's first bytes, read as `str::parse` reads a `u32`
/// after trailing spaces and newlines are cut.
pub fn u32_from_file_bytes(buf: [u8; 10]) -> (r: Option<u32>)
    ensures
        r == (match parse_bounded(text_of(trim_from(buf@, 9)), 10, 0xffff_ffff) {
            Some(v) => Some(v as u32),
            None => None::<u32>,
        }),
{
    let s = StackString::<10>::from(buf).trim_end();
    match parse_unsigned_bounded(s.as_bytes(), 10, 0xffff_ffff) {
        Some(v) => Some(v as u32),
        None => None,
    }
}

/// The text written for a `u8`: its decimal digits.
pub fn u8_file_text(v: u8) -> (s: StackString<3>)
    ensures
        s@ == decimal_digits(v as nat) + Seq::new((3 - decimal_len(v as nat)) as nat, |i: int| 0u8),
{
    proof {
        reveal_with_fuel(decimal_len, 4);
    }
    StackString::<3>::from_u8(v)
}

/// The text written for a `u32`: its decimal digits.
pub fn u32_file_text(v: u32) -> (s: StackString<10>)
    ensures
        s@ == decimal_digits(v as nat) + Seq::new((10 - decimal_len(v as nat)) as nat, |i: int| 0u8),
{
    proof {
        lemma_decimal_len_bound(v as nat);
    }
    StackString::<10>::from_u32(v)
}

/// Decimal digits read back as their number.
pub proof fn lemma_decimal_digits_value(n: nat)
    ensures
        digits_value(decimal_digits(n), 10) == Some(n),
    decreases n,
{
    if n >= 10 {
        lemma_decimal_digits_value(n / 10);
        let d = decimal_digits(n);
        assert(d.drop_last() =~= decimal_digits(n / 10));
        assert(digit_value(d.last(), 10) == Some(n % 10));
        assert((n / 10) * 10 + n % 10 == n);
        assert(digits_value(d, 10) == Some((n / 10) * 10 + n % 10));
    } else {
        let d = decimal_digits(n);
        assert(d.drop_last() =~= Seq::<u8>::empty());
        assert(digits_value(d.drop_last(), 10) == Some(0nat));
        assert(digit_value(d.last(), 10) == Some(n));
        assert(digits_value(d, 10) == Some(0 * 10 + n));
    }
}

/// What is written for a number is read back as that number: the decimal digits
/// padded with zeros have no trailing space to cut, and parse to the number.
pub proof fn lemma_number_file_roundtrip(n: nat, width: nat, max: nat)
    requires
        decimal_len(n) <= width,
        n <= max,
    ensures
        ({
            let buf = decimal_digits(n) + Seq::new((width - decimal_len(n)) as nat, |i: int| 0u8);
            parse_bounded(text_of(trim_from(buf, width - 1)), 10, max) == Some(n)
        }),
{
    let d = decimal_digits(n);
    lemma_decimal_digits_len(n);
    let pad = (width - decimal_len(n)) as nat;
    let buf = d + Seq::new(pad, |i: int| 0u8);
    lemma_trim_keeps_digits(buf, d.len() as int, width - 1);
    assert forall|i: int| 0 <= i < d.len() implies d[i] != 0 by {}
    crate::stack_string::lemma_text_of_padded(d, pad);
    lemma_decimal_digits_value(n);
    assert(d[0] != 43);
}

/// Cutting trailing spaces from digits followed by zero bytes changes nothing.
proof fn lemma_trim_keeps_digits(buf: Seq<u8>, k: int, i: int)
    requires
        1 <= k <= buf.len(),
        i < buf.len(),
        forall|j: int| 0 <= j < k ==> 48 <= #[trigger] buf[j] <= 57,
        forall|j: int| k <= j < buf.len() ==> buf[j] == 0,
    ensures
        trim_from(buf, i) == buf,
    decreases i + 1,
{
    if i >= k {
        lemma_trim_keeps_digits(buf, k, i - 1);
    }
}

} // verus!
