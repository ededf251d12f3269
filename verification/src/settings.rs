//! Shared setting keys, their defaults, and how stored setting values are read.

use vstd::prelude::*;
use crate::text::{chars_of, seq_eq};

verus! {

/// Setting key controlling whether browsers without the extension are terminated.
pub const SETTING_BLOCK_UNSUPPORTED_BROWSERS: &'static str = "block_unsupported_browsers";

/// Setting key controlling the grace period before browser enforcement.
pub const SETTING_EXTENSION_GRACE_PERIOD: &'static str = "extension_grace_period";

/// Default browser enforcement behavior.
pub const DEFAULT_BLOCK_UNSUPPORTED_BROWSERS: bool = false;

/// Default browser enforcement grace period, in seconds.
pub const DEFAULT_EXTENSION_GRACE_PERIOD_SECS: u64 = 60;

/// The character is an ASCII decimal digit.
pub open spec fn is_digit(c: char) -> bool {
    '0' <= c && c <= '9'
}

/// The value of a decimal digit.
pub open spec fn digit_value(c: char) -> int {
    (c as u32) - ('0' as u32)
}

/// The value of a sequence of decimal digits (0 for none).
pub open spec fn decimal_value(s: Seq<char>) -> int
    decreases s.len(),
{
    if s.len() == 0 {
        0
    } else {
        decimal_value(s.drop_last()) * 10 + digit_value(s.last())
    }
}

/// All characters are decimal digits.
pub open spec fn all_digits(s: Seq<char>) -> bool {
    forall|i: int| 0 <= i < s.len() ==> is_digit(#[trigger] s[i])
}

/// What `u64::from_str` accepts: an optional `+` followed by one or more
/// decimal digits whose value fits in a `u64`.
pub open spec fn spec_parse_u64(s: Seq<char>) -> Option<u64> {
    let digits = if s.len() > 0 && s[0] == '+' {
        s.drop_first()
    } else {
        s
    };
    if digits.len() > 0 && all_digits(digits) && decimal_value(digits) <= u64::MAX {
        Some(decimal_value(digits) as u64)
    } else {
        None
    }
}

/// What `bool::from_str` accepts: exactly `true` or `false`.
pub open spec fn spec_parse_bool(s: Seq<char>) -> Option<bool> {
    if s == "true"@ {
        Some(true)
    } else if s == "false"@ {
        Some(false)
    } else {
        None
    }
}

/// Digit values are below ten, so decimal values never decrease as digits are added.
proof fn lemma_decimal_grows(s: Seq<char>)
    requires
        all_digits(s),
        s.len() > 0,
    ensures
        decimal_value(s) >= decimal_value(s.drop_last()) * 10,
        0 <= decimal_value(s.drop_last()),
{
    lemma_decimal_nonneg(s.drop_last());
    assert(is_digit(s[s.len() - 1]));
}

/// Decimal values of digit sequences are not negative.
proof fn lemma_decimal_nonneg(s: Seq<char>)
    requires
        all_digits(s),
    ensures
        decimal_value(s) >= 0,
    decreases s.len(),
{
    if s.len() > 0 {
        assert(all_digits(s.drop_last())) by {
            assert forall|i: int| 0 <= i < s.drop_last().len() implies is_digit(
                #[trigger] s.drop_last()[i],
            ) by {
                assert(s.drop_last()[i] == s[i]);
            }
        }
        lemma_decimal_nonneg(s.drop_last());
        assert(is_digit(s[s.len() - 1]));
    }
}

/// Once a prefix of digits exceeds `u64::MAX`, every longer run of digits does too.
proof fn lemma_decimal_overflow_stays(s: Seq<char>, n: int)
    requires
        all_digits(s),
        0 <= n <= s.len(),
        decimal_value(s.take(n)) > u64::MAX,
    ensures
        decimal_value(s) > u64::MAX,
    decreases s.len() - n,
{
    if n < s.len() {
        let t = s.take(n + 1);
        assert(t.drop_last() =~= s.take(n));
        assert(all_digits(t)) by {
            assert forall|i: int| 0 <= i < t.len() implies is_digit(#[trigger] t[i]) by {
                assert(t[i] == s[i]);
            }
        }
        lemma_decimal_grows(t);
        lemma_decimal_overflow_stays(s, n + 1);
    } else {
        assert(s.take(n) =~= s);
    }
}

/// Reads an unsigned decimal setting value as `u64::from_str` does.
pub fn parse_u64(s: &str) -> (r: Option<u64>)
    ensures
        r == spec_parse_u64(s@),
{
    let c = chars_of(s);
    let start: usize = if c.len() > 0 && c[0] == '+' {
        1
    } else {
        0
    };
    let ghost digits = if c@.len() > 0 && c@[0] == '+' {
        c@.drop_first()
    } else {
        c@
    };
    assert(digits =~= c@.skip(start as int));
    if start >= c.len() {
        return None;
    }
    let mut value: u64 = 0;
    let mut i: usize = start;
    while i < c.len()
        invariant
            start <= i <= c.len(),
            start < c.len(),
            c@ == s@,
            digits == (if s@.len() > 0 && s@[0] == '+' {
                s@.drop_first()
            } else {
                s@
            }),
            digits =~= c@.skip(start as int),
            all_digits(c@.subrange(start as int, i as int)),
            value == decimal_value(c@.subrange(start as int, i as int)),
        decreases c.len() - i,
    {
        let ch = c[i];
        let ghost t = c@.subrange(start as int, i + 1);
        proof {
            assert(t.drop_last() =~= c@.subrange(start as int, i as int));
            assert(t.last() == ch);
        }
        if !('0' <= ch && ch <= '9') {
            proof {
                assert(!all_digits(digits)) by {
                    assert(digits[i - start] == ch);
                }
            }
            return None;
        }
        let d: u64 = ((ch as u32) - ('0' as u32)) as u64;
        proof {
            assert(all_digits(t)) by {
                assert forall|k: int| 0 <= k < t.len() implies is_digit(#[trigger] t[k]) by {
                    if k < t.len() - 1 {
                        assert(t[k] == c@.subrange(start as int, i as int)[k]);
                    }
                }
            }
        }
        if value > (u64::MAX - d) / 10 {
            proof {
                assert(value * 10 + d > u64::MAX) by (nonlinear_arith)
                    requires
                        value > (u64::MAX - d) / 10,
                        d <= 9,
                ;
                assert(decimal_value(t) > u64::MAX);
                assert(digits.take(t.len() as int) =~= t);
                assert(all_digits(digits) ==> decimal_value(digits) > u64::MAX) by {
                    if all_digits(digits) {
                        lemma_decimal_overflow_stays(digits, t.len() as int);
                    }
                }
            }
            return None;
        }
        assert(value * 10 + d <= u64::MAX) by (nonlinear_arith)
            requires
                value <= (u64::MAX - d) / 10,
                d <= 9,
        ;
        value = value * 10 + d;
        i = i + 1;
    }
    assert(c@.subrange(start as int, c.len() as int) =~= digits);
    Some(value)
}

/// Reads a boolean setting value as `bool::from_str` does.
pub fn parse_bool(s: &str) -> (r: Option<bool>)
    ensures
        r == spec_parse_bool(s@),
{
    let c = chars_of(s);
    if seq_eq(&c, &chars_of("true")) {
        Some(true)
    } else if seq_eq(&c, &chars_of("false")) {
        Some(false)
    } else {
        None
    }
}

/// The browser-enforcement settings from their stored values: the grace
/// period in seconds and whether enforcement is on, each falling back to
/// its default when the stored value does not parse.
pub fn browser_enforcement_settings(grace_value: &str, enforce_value: &str) -> (r: (u64, bool))
    ensures
        r.0 == match spec_parse_u64(grace_value@) {
            Some(v) => v,
            None => DEFAULT_EXTENSION_GRACE_PERIOD_SECS,
        },
        r.1 == match spec_parse_bool(enforce_value@) {
            Some(b) => b,
            None => DEFAULT_BLOCK_UNSUPPORTED_BROWSERS,
        },
{
    let grace = match parse_u64(grace_value) {
        Some(v) => v,
        None => DEFAULT_EXTENSION_GRACE_PERIOD_SECS,
    };
    let enforce = match parse_bool(enforce_value) {
        Some(b) => b,
        None => DEFAULT_BLOCK_UNSUPPORTED_BROWSERS,
    };
    (grace, enforce)
}

} // verus!
