//! Reading decimal integer tokens, and writing decimal digit strings.
//!
//! Every counter in a mount statistics report is a decimal integer token.
//! `parse_i64` is the single routine through which all of them are read;
//! its behaviour is pinned, down to the error kind, by `spec_parse_i64`.

use vstd::prelude::*;

verus! {

/// Why a decimal integer token could not be read.
#[derive(Clone, Copy, Debug, PartialEq, Eq, Structural)]
pub enum IntParseError {
    /// The token was empty.
    Empty,
    /// A character other than an optional leading sign followed by decimal digits.
    InvalidDigit,
    /// The value exceeds `i64::MAX`.
    PosOverflow,
    /// The value is below `i64::MIN`.
    NegOverflow,
}

/// A decimal digit `'0'..='9'`.
pub open spec fn is_digit(c: char) -> bool {
    ('0' as int) <= (c as int) && (c as int) <= ('9' as int)
}

/// Numeric value of a decimal digit.
pub open spec fn digit_value(c: char) -> int {
    (c as int) - ('0' as int)
}

/// Every character of `s` is a decimal digit.
pub open spec fn all_digits(s: Seq<char>) -> bool {
    forall|i: int| 0 <= i < s.len() ==> is_digit(#[trigger] s[i])
}

/// Value of a digit string, most significant digit first.
pub open spec fn digits_val(s: Seq<char>) -> int
    decreases s.len(),
{
    if s.len() == 0 {
        0
    } else {
        digits_val(s.drop_last()) * 10 + digit_value(s.last())
    }
}

/// Length of the sign prefix of a token: one for a leading `'+'` or `'-'`, else zero.
pub open spec fn sign_len(s: Seq<char>) -> int {
    if s.len() > 0 && (s[0] == '+' || s[0] == '-') {
        1
    } else {
        0
    }
}

/// The shape of a decimal integer token: an optional sign, then one or more digits.
pub open spec fn is_int_token(s: Seq<char>) -> bool {
    s.len() > sign_len(s) && all_digits(s.skip(sign_len(s)))
}

/// Mathematical value of a decimal integer token.
pub open spec fn int_token_val(s: Seq<char>) -> int {
    if s.len() > 0 && s[0] == '-' {
        -digits_val(s.skip(1))
    } else {
        digits_val(s.skip(sign_len(s)))
    }
}

/// What reading a token as a 64-bit integer yields, for every input.
pub open spec fn spec_parse_i64(s: Seq<char>) -> Result<i64, IntParseError> {
    if s.len() == 0 {
        Err(IntParseError::Empty)
    } else if !is_int_token(s) {
        Err(IntParseError::InvalidDigit)
    } else if int_token_val(s) > i64::MAX {
        Err(IntParseError::PosOverflow)
    } else if int_token_val(s) < i64::MIN {
        Err(IntParseError::NegOverflow)
    } else {
        Ok(int_token_val(s) as i64)
    }
}

/// Ten to the `n`.
pub open spec fn pow10(n: nat) -> int
    decreases n,
{
    if n == 0 {
        1
    } else {
        10 * pow10((n - 1) as nat)
    }
}

proof fn lemma_pow10_positive(n: nat)
    ensures
        pow10(n) >= 1,
    decreases n,
{
    if n > 0 {
        lemma_pow10_positive((n - 1) as nat);
    }
}

proof fn lemma_pow10_monotone(m: nat, n: nat)
    requires
        m <= n,
    ensures
        pow10(m) <= pow10(n),
    decreases n,
{
    if m < n {
        lemma_pow10_monotone(m, (n - 1) as nat);
        lemma_pow10_positive((n - 1) as nat);
    }
}

proof fn lemma_digits_val_bounds(s: Seq<char>)
    requires
        all_digits(s),
    ensures
        0 <= digits_val(s) < pow10(s.len()),
    decreases s.len(),
{
    if s.len() > 0 {
        lemma_digits_val_bounds(s.drop_last());
    }
}

proof fn lemma_digits_val_lower(s: Seq<char>)
    requires
        all_digits(s),
        s.len() > 0,
        s[0] != '0',
    ensures
        digits_val(s) >= pow10((s.len() - 1) as nat),
    decreases s.len(),
{
    if s.len() == 1 {
        reveal_with_fuel(digits_val, 2);
        assert(digit_value(s[0]) >= 1);
    } else {
        assert(all_digits(s.drop_last())) by {
            assert(forall|i: int|
                0 <= i < s.drop_last().len() ==> #[trigger] s.drop_last()[i] == s[i]);
        }
        assert(s.drop_last()[0] == s[0]);
        lemma_digits_val_lower(s.drop_last());
        assert(is_digit(s.last()));
        assert(pow10((s.len() - 1) as nat) == 10 * pow10((s.len() - 2) as nat));
        assert(digits_val(s) == digits_val(s.drop_last()) * 10 + digit_value(s.last()));
        assert(digits_val(s.drop_last()) * 10 >= pow10((s.len() - 2) as nat) * 10);
    }
}

proof fn lemma_digits_val_drop_leading_zero(s: Seq<char>)
    requires
        s.len() > 0,
        s[0] == '0',
    ensures
        digits_val(s) == digits_val(s.drop_first()),
    decreases s.len(),
{
    if s.len() == 1 {
        reveal_with_fuel(digits_val, 2);
        assert(digit_value(s[0]) == 0);
        assert(s.drop_first().len() == 0);
    } else {
        assert(s.drop_last()[0] == s[0]);
        lemma_digits_val_drop_leading_zero(s.drop_last());
        assert(s.drop_last().drop_first() =~= s.drop_first().drop_last());
        assert(s.drop_first().last() == s.last());
        assert(digits_val(s) == digits_val(s.drop_last()) * 10 + digit_value(s.last()));
        assert(digits_val(s.drop_first()) == digits_val(s.drop_first().drop_last()) * 10
            + digit_value(s.drop_first().last()));
        assert(digits_val(s.drop_last()) == digits_val(s.drop_first().drop_last()));
    }
}

/// The decimal digit character for `d`.
pub open spec fn digit_char(d: int) -> char {
    if d == 0 {
        '0'
    } else if d == 1 {
        '1'
    } else if d == 2 {
        '2'
    } else if d == 3 {
        '3'
    } else if d == 4 {
        '4'
    } else if d == 5 {
        '5'
    } else if d == 6 {
        '6'
    } else if d == 7 {
        '7'
    } else if d == 8 {
        '8'
    } else {
        '9'
    }
}

/// Decimal digit string of a non-negative number, most significant first.
pub open spec fn dec_digits(n: int) -> Seq<char>
    decreases n,
{
    if n < 10 {
        seq![digit_char(n)]
    } else {
        dec_digits(n / 10).push(digit_char(n % 10))
    }
}

pub(crate) fn digit_label(d: usize) -> (r: &'static str)
    requires
        d < 10,
    ensures
        r@ == seq![digit_char(d as int)],
{
    match d {
        0 => {
            proof {
                reveal_strlit("0");
            }
            let r = "0";
            assert(r@ =~= seq![digit_char(0)]);
            r
        },
        1 => {
            proof {
                reveal_strlit("1");
            }
            let r = "1";
            assert(r@ =~= seq![digit_char(1)]);
            r
        },
        2 => {
            proof {
                reveal_strlit("2");
            }
            let r = "2";
            assert(r@ =~= seq![digit_char(2)]);
            r
        },
        3 => {
            proof {
                reveal_strlit("3");
            }
            let r = "3";
            assert(r@ =~= seq![digit_char(3)]);
            r
        },
        4 => {
            proof {
                reveal_strlit("4");
            }
            let r = "4";
            assert(r@ =~= seq![digit_char(4)]);
            r
        },
        5 => {
            proof {
                reveal_strlit("5");
            }
            let r = "5";
            assert(r@ =~= seq![digit_char(5)]);
            r
        },
        6 => {
            proof {
                reveal_strlit("6");
            }
            let r = "6";
            assert(r@ =~= seq![digit_char(6)]);
            r
        },
        7 => {
            proof {
                reveal_strlit("7");
            }
            let r = "7";
            assert(r@ =~= seq![digit_char(7)]);
            r
        },
        8 => {
            proof {
                reveal_strlit("8");
            }
            let r = "8";
            assert(r@ =~= seq![digit_char(8)]);
            r
        },
        _ => {
            proof {
                reveal_strlit("9");
            }
            let r = "9";
            assert(r@ =~= seq![digit_char(9)]);
            r
        },
    }
}

/// Render a number as its decimal digit string.
pub fn u64_to_string(n: u64) -> (r: String)
    ensures
        r@ == dec_digits(n as int),
    decreases n,
{
    if n < 10 {
        String::from_str(digit_label((n % 10) as usize))
    } else {
        let mut s = u64_to_string(n / 10);
        s.append(digit_label((n % 10) as usize));
        proof {
            assert(dec_digits((n / 10) as int) + seq![digit_char((n % 10) as int)] =~= dec_digits(
                (n / 10) as int,
            ).push(digit_char((n % 10) as int)));
        }
        s
    }
}

/// Render a number as its decimal digit string.
pub fn usize_to_string(n: usize) -> (r: String)
    ensures
        r@ == dec_digits(n as int),
{
    u64_to_string(n as u64)
}

/// Read a decimal integer token: an optional `'+'` or `'-'`, then one or
/// more digits. The result, including the kind of any failure, is exactly
/// `spec_parse_i64` of the input.
pub fn parse_i64(s: &str) -> (r: Result<i64, IntParseError>)
    ensures
        r == spec_parse_i64(s@),
{
    let n: usize = s.unicode_len();
    if n == 0 {
        return Err(IntParseError::Empty);
    }
    let c0: char = s.get_char(0);
    let negative: bool = c0 == '-';
    let start: usize = if c0 == '-' || c0 == '+' {
        1
    } else {
        0
    };
    if start >= n {
        // A bare sign has no digits.
        return Err(IntParseError::InvalidDigit);
    }
    let mut i: usize = start;
    while i < n
        invariant
            start <= i <= n,
            n == s@.len(),
            start == sign_len(s@),
            all_digits(s@.subrange(start as int, i as int)),
        decreases n - i,
    {
        let c: char = s.get_char(i);
        let v: u32 = c as u32;
        if !(48 <= v && v <= 57) {
            assert(!is_digit(s@[i as int]));
            assert(s@.skip(start as int)[i - start] == s@[i as int]);
            return Err(IntParseError::InvalidDigit);
        }
        assert(s@.subrange(start as int, i + 1 as int).drop_last() =~= s@.subrange(
            start as int,
            i as int,
        ));
        i = i + 1;
    }
    assert(s@.subrange(start as int, n as int) =~= s@.skip(start as int));
    assert(is_int_token(s@));

    // Skip leading zeros so that the number of significant digits bounds the value.
    let mut j: usize = start;
    while j < n && s.get_char(j) == '0'
        invariant
            start <= j <= n,
            n == s@.len(),
            all_digits(s@.subrange(start as int, n as int)),
            digits_val(s@.subrange(j as int, n as int)) == digits_val(
                s@.subrange(start as int, n as int),
            ),
        decreases n - j,
    {
        proof {
            let t = s@.subrange(j as int, n as int);
            lemma_digits_val_drop_leading_zero(t);
            assert(t.drop_first() =~= s@.subrange(j + 1 as int, n as int));
        }
        j = j + 1;
    }
    let ghost mag_seq = s@.subrange(j as int, n as int);
    let ghost magnitude = digits_val(mag_seq);
    proof {
        assert forall|t: int| 0 <= t < mag_seq.len() implies is_digit(#[trigger] mag_seq[t]) by {
            assert(mag_seq[t] == s@.subrange(start as int, n as int)[t + j - start]);
        }
        assert(all_digits(mag_seq));
        lemma_digits_val_bounds(mag_seq);
    }

    if n - j > 19 {
        // At least twenty significant digits: the magnitude is at least 10^19,
        // beyond either 64-bit bound.
        proof {
            lemma_digits_val_lower(mag_seq);
            lemma_pow10_monotone(19, (mag_seq.len() - 1) as nat);
            assert(pow10(19) == 10_000_000_000_000_000_000) by {
                reveal_with_fuel(pow10, 20);
            }
        }
        if negative {
            return Err(IntParseError::NegOverflow);
        } else {
            return Err(IntParseError::PosOverflow);
        }
    }

    assert(pow10((n - j) as nat) <= pow10(19) && pow10(19) == 10_000_000_000_000_000_000) by {
        lemma_pow10_monotone((n - j) as nat, 19);
        reveal_with_fuel(pow10, 20);
    }

    let mut acc: i128 = 0;
    let mut k: usize = j;
    while k < n
        invariant
            j <= k <= n,
            n == s@.len(),
            n - j <= 19,
            all_digits(s@.subrange(start as int, n as int)),
            start <= j,
            acc == digits_val(s@.subrange(j as int, k as int)),
            0 <= acc < pow10((k - j) as nat),
            pow10((n - j) as nat) <= 10_000_000_000_000_000_000,
        decreases n - k,
    {
        let c: char = s.get_char(k);
        proof {
            assert(s@.subrange(start as int, n as int)[k - start] == s@[k as int]);
            assert(is_digit(s@[k as int]));
            let pre = s@.subrange(j as int, k as int);
            let post = s@.subrange(j as int, k + 1 as int);
            assert(post.drop_last() =~= pre);
            assert(post.last() == s@[k as int]);
            assert(digits_val(post) == digits_val(pre) * 10 + digit_value(s@[k as int]));
            lemma_pow10_monotone(((k + 1) - j) as nat, (n - j) as nat);
        }
        let d: u32 = (c as u32) - 48;
        assert(d as int == digit_value(s@[k as int]));
        acc = acc * 10 + (d as i128);
        k = k + 1;
    }
    assert(s@.subrange(j as int, n as int) =~= mag_seq);
    assert(acc == magnitude);

    if negative {
        proof {
            assert(int_token_val(s@) == -magnitude) by {
                assert(s@.skip(1) =~= s@.subrange(start as int, n as int));
            }
        }
        if acc <= 9_223_372_036_854_775_808i128 {
            Ok((-acc) as i64)
        } else {
            Err(IntParseError::NegOverflow)
        }
    } else {
        proof {
            assert(int_token_val(s@) == magnitude) by {
                assert(s@.skip(sign_len(s@)) =~= s@.subrange(start as int, n as int));
            }
        }
        if acc <= 9_223_372_036_854_775_807i128 {
            Ok(acc as i64)
        } else {
            Err(IntParseError::PosOverflow)
        }
    }
}

} // verus!
