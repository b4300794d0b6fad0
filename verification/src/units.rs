//! Temperature units and the response-time unit conversion.
//!
//! Cached records always hold Celsius, so one cached entry serves requests
//! for either unit; Fahrenheit is produced only on a copy at response time.

use vstd::arithmetic::div_mod::{
    lemma_fundamental_div_mod, lemma_fundamental_div_mod_converse_div,
};
use vstd::prelude::*;
use vstd::string::StrSliceExecFns;

verus! {

/// The unit a caller asks the temperature in.
#[derive(Clone, Copy, PartialEq, Eq, Structural, Debug)]
pub enum TemperatureUnit {
    C,
    F,
}

/// Largest magnitude, in thousandths of a degree Celsius, accepted for a
/// temperature reading; it keeps the Fahrenheit conversion inside `i64`.
pub const MAX_ABS_TEMP_MILLI: i64 = 100_000_000;

/// A temperature reading (thousandths of a degree Celsius) small enough to
/// convert without overflow.
pub open spec fn temp_ok(t: int) -> bool {
    -MAX_ABS_TEMP_MILLI <= t <= MAX_ABS_TEMP_MILLI
}

/// Celsius to Fahrenheit on thousandths of a degree: `c * 9/5 + 32`, scaled
/// by 1000, with the exact result rounded down to a whole thousandth.
pub open spec fn fahrenheit_of(c: int) -> int {
    32_000 + (9 * c) / 5
}

impl TemperatureUnit {
    /// Reads a unit from its one-letter query form, `"C"` or `"F"`.
    pub fn from_query(s: &str) -> (r: Option<TemperatureUnit>)
        ensures
            r == (if s@ == "C"@ {
                Some(TemperatureUnit::C)
            } else if s@ == "F"@ {
                Some(TemperatureUnit::F)
            } else {
                None::<TemperatureUnit>
            }),
    {
        proof {
            reveal_strlit("C");
            reveal_strlit("F");
        }
        let n = s.unicode_len();
        if n == 1 {
            let c = s.get_char(0);
            if c == 'C' {
                proof {
                    assert(s@ =~= "C"@);
                }
                Some(TemperatureUnit::C)
            } else if c == 'F' {
                proof {
                    assert(s@ =~= "F"@);
                }
                Some(TemperatureUnit::F)
            } else {
                None
            }
        } else {
            None
        }
    }
}

/// Converts a temperature in thousandths of a degree Celsius to thousandths
/// of a degree Fahrenheit.
pub fn to_fahrenheit(c_milli: i64) -> (r: i64)
    requires
        temp_ok(c_milli as int),
    ensures
        r == fahrenheit_of(c_milli as int),
{
    if c_milli >= 0 {
        let q = (c_milli as u64 * 9) / 5;
        32_000 + q as i64
    } else {
        let a = (-c_milli) as u64 * 9;
        let q = (a + 4) / 5;
        proof {
            lemma_div_negative_by_five(a as int);
        }
        32_000 - q as i64
    }
}

/// Euclidean division by five rounds a negative numerator away from zero:
/// `(-a) / 5 == -((a + 4) / 5)` for `a >= 0`.
proof fn lemma_div_negative_by_five(a: int)
    requires
        a >= 0,
    ensures
        (-a) / 5 == -((a + 4) / 5),
{
    let q = a / 5;
    let r = a % 5;
    lemma_fundamental_div_mod(a, 5);
    if r == 0 {
        lemma_fundamental_div_mod_converse_div(a + 4, 5, q, 4);
        lemma_fundamental_div_mod_converse_div(-a, 5, -q, 0);
    } else {
        lemma_fundamental_div_mod_converse_div(a + 4, 5, q + 1, r - 1);
        lemma_fundamental_div_mod_converse_div(-a, 5, -q - 1, 5 - r);
    }
}

} // verus!
