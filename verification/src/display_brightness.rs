//! The display backlight's scale: the kernel's raw brightness runs from 0 to a
//! maximum that is a multiple of 100, so one percent is a hundredth of it.
use crate::common::{clamp_percent, group_percentage, Percentage};
use vstd::prelude::*;

verus! {

broadcast use group_percentage;

/// The display brightness, in percent, used when none was saved.
pub const DEFAULT_DISPLAY_BRIGHTNESS: u8 = 50;

/// A maximum brightness can be used when it is a multiple of 100.
pub fn is_max_brightness_valid(n: u32) -> (b: bool)
    ensures
        b == (n % 100 == 0),
{
    n % 100 == 0
}

/// The raw brightness of one percent.
pub fn brightness_step(max_brightness: u32) -> (step: u32)
    ensures
        step == max_brightness / 100,
{
    max_brightness / 100
}

/// The percentage shown for a raw brightness: the raw value divided by the step,
/// truncated to a byte, then capped at 100.
pub fn percentage_of_raw(raw: u32, step: u32) -> (p: Percentage)
    requires
        step > 0,
    ensures
        p@ == clamp_percent(((raw / step) % 256) as int),
{
    let q = raw / step;
    let byte = (q % 256) as u8;
    assert(byte == q % 256);
    Percentage::from(byte)
}

/// The raw brightness written for a percentage.
pub fn raw_of_percentage(p: Percentage, step: u32) -> (raw: u32)
    requires
        step <= 42949672,
    ensures
        raw == p@ * step,
{
    let v = p.value() as u32;
    assert(v * step <= 100 * 42949672) by (nonlinear_arith)
        requires
            v <= 100,
            step <= 42949672,
    ;
    v * step
}

/// Writing a percentage and reading it back gives the same percentage.
pub proof fn lemma_brightness_roundtrip(p: Percentage, step: u32)
    requires
        0 < step <= 42949672,
        p@ <= 100,
    ensures
        clamp_percent((((p@ * step) / (step as int)) % 256) as int) == p@,
{
    assert((p@ * step) / (step as int) == p@) by (nonlinear_arith)
        requires
            step > 0,
    ;
}

} // verus!
