//! Reading unsigned integers from text, as `str::parse` and `from_str_radix` read
//! them: an optional `+`, then at least one digit of the radix, and a value that
//! fits the target type.
use vstd::prelude::*;

verus! {

/// The value of one ASCII digit in `radix` (at most 36): `0`-`9`, then `a`-`z`
/// or `A`-`Z` for 10 to 35.
pub open spec fn digit_value(b: u8, radix: nat) -> Option<nat> {
    let v: int = if 48 <= b <= 57 {
        b - 48
    } else if 97 <= b <= 122 {
        b - 97 + 10
    } else if 65 <= b <= 90 {
        b - 65 + 10
    } else {
        36
    };
    if v < radix {
        Some(v as nat)
    } else {
        None
    }
}

/// The value of a run of digits, most significant first (0 for no digits).
pub open spec fn digits_value(s: Seq<u8>, radix: nat) -> Option<nat>
    decreases s.len(),
{
    if s.len() == 0 {
        Some(0)
    } else {
        match (digits_value(s.drop_last(), radix), digit_value(s.last(), radix)) {
            (Some(high), Some(low)) => Some(high * radix + low),
            _ => None,
        }
    }
}

/// The value of the text `s` read as an unsigned number in `radix`: an optional
/// leading `+`, then one digit or more.
pub open spec fn parse_unsigned(s: Seq<u8>, radix: nat) -> Option<nat> {
    let digits = if s.len() > 0 && s[0] == 43 {
        s.drop_first()
    } else {
        s
    };
    if digits.len() == 0 {
        None
    } else {
        digits_value(digits, radix)
    }
}

/// The number read from `s` in `radix`, when it is well formed and at most `max`.
pub open spec fn parse_bounded(s: Seq<u8>, radix: nat, max: nat) -> Option<nat> {
    match parse_unsigned(s, radix) {
        Some(v) => if v <= max {
            Some(v)
        } else {
            None
        },
        None => None,
    }
}

/// A longer run of valid digits never has a smaller value.
pub proof fn lemma_digits_value_grows(s: Seq<u8>, k: int, radix: nat)
    requires
        0 <= k <= s.len(),
        radix >= 1,
        digits_value(s, radix) is Some,
    ensures
        digits_value(s.take(k), radix) is Some,
        digits_value(s.take(k), radix)->0 <= digits_value(s, radix)->0,
    decreases s.len() - k,
{
    if k < s.len() {
        lemma_digits_value_grows(s, k + 1, radix);
        let t = s.take(k + 1);
        assert(t.drop_last() =~= s.take(k));
        let high = digits_value(s.take(k), radix)->0;
        let low = digit_value(t.last(), radix)->0;
        assert(high * radix + low >= high) by (nonlinear_arith)
            requires
                radix >= 1,
        ;
    } else {
        assert(s.take(k) =~= s);
    }
}

fn digit_of(b: u8, radix: u64) -> (d: Option<u64>)
    requires
        2 <= radix <= 36,
    ensures
        d == (match digit_value(b, radix as nat) {
            Some(v) => Some(v as u64),
            None => None::<u64>,
        }),
{
    let v: u64 = if 48 <= b && b <= 57 {
        (b - 48) as u64
    } else if 97 <= b && b <= 122 {
        (b - 97 + 10) as u64
    } else if 65 <= b && b <= 90 {
        (b - 65 + 10) as u64
    } else {
        36
    };
    if v < radix {
        Some(v)
    } else {
        None
    }
}

/// Reads `s` as an unsigned number in `radix`; `None` when it is not well formed
/// or exceeds `max`.
pub fn parse_unsigned_bounded(s: &[u8], radix: u64, max: u64) -> (r: Option<u64>)
    requires
        2 <= radix <= 36,
    ensures
        r == (match parse_bounded(s@, radix as nat, max as nat) {
            Some(v) => Some(v as u64),
            None => None::<u64>,
        }),
{
    let start: usize = if s.len() > 0 && s[0] == 43 {
        1
    } else {
        0
    };
    let ghost digits = if s@.len() > 0 && s@[0] == 43 {
        s@.drop_first()
    } else {
        s@
    };
    assert(digits =~= s@.skip(start as int));
    if start == s.len() {
        return None;
    }
    let mut acc: u64 = 0;
    let mut k: usize = start;
    while k < s.len()
        invariant
            start <= k <= s@.len(),
            2 <= radix <= 36,
            digits =~= s@.skip(start as int),
            digits == (if s@.len() > 0 && s@[0] == 43 {
                s@.drop_first()
            } else {
                s@
            }),
            digits.len() > 0,
            digits_value(digits.take(k - start), radix as nat) == Some(acc as nat),
            acc <= max,
        decreases s@.len() - k,
    {
        let ghost prefix = digits.take(k - start);
        let ghost next = digits.take(k - start + 1);
        assert(next.drop_last() =~= prefix);
        assert(next.last() == s@[k as int]);
        match digit_of(s[k], radix) {
            None => {
                proof {
                    assert(digits_value(next, radix as nat) is None);
                    if digits_value(digits, radix as nat) is Some {
                        lemma_digits_value_grows(digits, k - start + 1, radix as nat);
                    }
                }
                return None;
            },
            Some(d) => {
                if d > max || acc > (max - d) / radix {
                    proof {
                        if d <= max {
                            assert(acc * radix + d > max) by (nonlinear_arith)
                                requires
                                    acc > (max - d) as int / radix as int,
                                    radix >= 2,
                                    d <= max,
                            ;
                        }
                        assert(digits_value(next, radix as nat) == Some((acc * radix + d) as nat));
                        if digits_value(digits, radix as nat) is Some {
                            lemma_digits_value_grows(digits, k - start + 1, radix as nat);
                        }
                    }
                    return None;
                }
                proof {
                    assert(acc * radix + d <= max) by (nonlinear_arith)
                        requires
                            acc <= (max - d) as int / radix as int,
                            radix >= 2,
                            d <= max,
                    ;
                }
                acc = acc * radix + d;
            },
        }
        k += 1;
    }
    assert(digits.take(k - start) =~= digits);
    Some(acc)
}

} // verus!
