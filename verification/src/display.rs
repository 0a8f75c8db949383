//! Fixed-point text for the renderer: a cumulative millisecond counter
//! shown in units of one thousand with one decimal digit.

use vstd::prelude::*;
use crate::numeric::dec_digits;
use crate::numeric::digit_char;
use crate::numeric::u64_to_string;

verus! {

/// `ms` shown in units of one thousand with one digit after the point,
/// rounded half away from zero: sign, whole part, `.`, tenths digit, `ms`.
pub open spec fn spec_format_duration(ms: int) -> Seq<char> {
    if ms == 0 {
        "0.0ms"@
    } else {
        let mag = if ms < 0 {
            -ms
        } else {
            ms
        };
        let tenths = (mag + 50) / 100;
        let sign = if ms < 0 {
            "-"@
        } else {
            Seq::<char>::empty()
        };
        sign + dec_digits(tenths / 10) + "."@ + seq![digit_char(tenths % 10)] + "ms"@
    }
}

/// Render a duration counter, given in the report's millisecond unit, in
/// units of one thousand with one decimal digit (`1500` becomes `1.5ms`),
/// rounding half away from zero; exactly `spec_format_duration`.
pub fn format_duration(ms: i64) -> (r: String)
    ensures
        r@ == spec_format_duration(ms as int),
{
    if ms == 0 {
        return String::from_str("0.0ms");
    }
    let mag: i128 = if ms < 0 {
        -(ms as i128)
    } else {
        ms as i128
    };
    let tenths: i128 = (mag + 50) / 100;
    let mut r = if ms < 0 {
        String::from_str("-")
    } else {
        String::new()
    };
    let whole = u64_to_string((tenths / 10) as u64);
    r.append(whole.as_str());
    r.append(".");
    r.append(crate::numeric::digit_label((tenths % 10) as usize));
    r.append("ms");
    r
}

} // verus!
