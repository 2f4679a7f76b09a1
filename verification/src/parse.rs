//! Parsing raw parameter input.
//!
//! The host hands every edit as raw bytes.  A well-formed number is an
//! optional minus sign, one to nine integer digits, and optionally a point
//! followed by one to six fractional digits; it denotes an exact count of
//! micro-units.  Anything else is a parse error and changes nothing.

use vstd::prelude::*;

verus! {

use crate::model::ParamError;

/// The ASCII digits.
pub open spec fn is_digit(c: u8) -> bool {
    0x30 <= c <= 0x39
}

/// Every byte of the sequence is an ASCII digit.
pub open spec fn all_digits(s: Seq<u8>) -> bool {
    forall|i: int| 0 <= i < s.len() ==> is_digit(#[trigger] s[i])
}

/// The number a sequence of ASCII digits denotes.
pub open spec fn digits_value(s: Seq<u8>) -> int
    decreases s.len(),
{
    if s.len() == 0 {
        0
    } else {
        digits_value(s.drop_last()) * 10 + (s.last() - 0x30)
    }
}

/// Powers of ten.
pub open spec fn pow10(e: nat) -> int
    decreases e,
{
    if e == 0 {
        1
    } else {
        10 * pow10((e - 1) as nat)
    }
}

/// Position of the first decimal point at or after `i`, or the length of
/// the sequence when there is none.
pub open spec fn dot_position(s: Seq<u8>, i: int) -> int
    decreases s.len() - i,
{
    if i < 0 || i >= s.len() {
        s.len() as int
    } else if s[i] == 0x2e {
        i
    } else {
        dot_position(s, i + 1)
    }
}

/// A well-formed unsigned decimal: one to nine integer digits, optionally
/// followed by a point and one to six fractional digits.
pub open spec fn wf_unsigned(s: Seq<u8>) -> bool {
    let d = dot_position(s, 0);
    &&& 1 <= d <= 9
    &&& all_digits(s.subrange(0, d))
    &&& (d == s.len() || (d + 2 <= s.len() <= d + 7 && all_digits(
        s.subrange(d + 1, s.len() as int),
    )))
}

/// The number of micro-units a well-formed unsigned decimal denotes.
pub open spec fn unsigned_value(s: Seq<u8>) -> int {
    let d = dot_position(s, 0);
    if d == s.len() {
        digits_value(s) * 1_000_000
    } else {
        let frac = s.subrange(d + 1, s.len() as int);
        digits_value(s.subrange(0, d)) * 1_000_000 + digits_value(frac) * pow10(
            (6 - frac.len()) as nat,
        )
    }
}

/// A well-formed decimal: an optional minus sign before a well-formed
/// unsigned decimal.
pub open spec fn wf_decimal(s: Seq<u8>) -> bool {
    if s.len() >= 1 && s[0] == 0x2d {
        wf_unsigned(s.subrange(1, s.len() as int))
    } else {
        wf_unsigned(s)
    }
}

/// The number of micro-units a well-formed decimal denotes.
pub open spec fn decimal_value(s: Seq<u8>) -> int {
    if s.len() >= 1 && s[0] == 0x2d {
        -unsigned_value(s.subrange(1, s.len() as int))
    } else {
        unsigned_value(s)
    }
}

/// A digit sequence denotes fewer than `pow10` of its length.
proof fn lemma_digits_bound(s: Seq<u8>)
    requires
        all_digits(s),
    ensures
        0 <= digits_value(s) < pow10(s.len()),
    decreases s.len(),
{
    if s.len() > 0 {
        assert(all_digits(s.drop_last())) by {
            assert(forall|i: int|
                0 <= i < s.len() - 1 ==> #[trigger] s.drop_last()[i] == s[i]);
        }
        lemma_digits_bound(s.drop_last());
    }
}

/// Powers of ten do not decrease.
proof fn lemma_pow10_increases(e1: nat, e2: nat)
    requires
        e1 <= e2,
    ensures
        1 <= pow10(e1) <= pow10(e2),
    decreases e2,
{
    if e2 > 0 {
        if e1 == e2 {
            lemma_pow10_increases((e2 - 1) as nat, (e2 - 1) as nat);
        } else {
            lemma_pow10_increases(e1, (e2 - 1) as nat);
        }
    }
}

/// Powers of ten multiply by adding exponents.
proof fn lemma_pow10_adds(a: nat, b: nat)
    ensures
        pow10(a + b) == pow10(a) * pow10(b),
    decreases a,
{
    if a > 0 {
        lemma_pow10_adds((a - 1) as nat, b);
        assert(pow10((a + b - 1) as nat) == pow10((a - 1) as nat) * pow10(b));
        assert(10 * (pow10((a - 1) as nat) * pow10(b)) == (10 * pow10((a - 1) as nat)) * pow10(
            b,
        )) by (nonlinear_arith);
    }
}

/// The scan that stops at the first point or the end determines
/// `dot_position`.
proof fn lemma_dot_position(s: Seq<u8>, i: int, j: int)
    requires
        0 <= i <= j <= s.len(),
        forall|k: int| i <= k < j ==> s[k] != 0x2e,
        j == s.len() || s[j] == 0x2e,
    ensures
        dot_position(s, i) == j,
    decreases j - i,
{
    if i < j {
        lemma_dot_position(s, i + 1, j);
    }
}

/// Parse an unsigned decimal into micro-units.
fn parse_unsigned(s: &Vec<u8>) -> (r: Result<u64, ParamError>)
    ensures
        r is Ok <==> wf_unsigned(s@),
        r is Err ==> r == Err::<u64, ParamError>(ParamError::Parse),
        r matches Ok(v) ==> v == unsigned_value(s@) && v < 1_000_000_000_000_000,
{
    let n = s.len();
    // Find the first decimal point.
    let mut d: usize = 0;
    while d < n && s[d] != 0x2e
        invariant
            0 <= d <= n == s@.len(),
            forall|k: int| 0 <= k < d ==> s@[k] != 0x2e,
        decreases n - d,
    {
        d = d + 1;
    }
    proof {
        lemma_dot_position(s@, 0, d as int);
    }
    if d < 1 || d > 9 {
        return Err(ParamError::Parse);
    }
    // The integer part.
    let mut acc: u64 = 0;
    let mut j: usize = 0;
    while j < d
        invariant
            0 <= j <= d <= 9,
            d <= n == s@.len(),
            dot_position(s@, 0) == d,
            all_digits(s@.subrange(0, j as int)),
            acc == digits_value(s@.subrange(0, j as int)),
            0 <= acc < pow10(j as nat),
        decreases d - j,
    {
        let c = s[j];
        if c < 0x30 || c > 0x39 {
            proof {
                assert(s@.subrange(0, dot_position(s@, 0))[j as int] == s@[j as int]);
            }
            return Err(ParamError::Parse);
        }
        proof {
            let pre = s@.subrange(0, j as int);
            let cur = s@.subrange(0, j + 1);
            assert(cur.drop_last() =~= pre);
            assert(all_digits(cur)) by {
                assert(forall|i: int| 0 <= i < j ==> cur[i] == pre[i]);
            }
            lemma_pow10_increases(j as nat, 8);
            assert(pow10(8) == 100_000_000) by {
                reveal_with_fuel(pow10, 9);
            }
        }
        acc = acc * 10 + ((c - 0x30) as u64);
        j = j + 1;
    }
    proof {
        lemma_pow10_increases(9, 9);
        assert(pow10(9) == 1_000_000_000) by {
            reveal_with_fuel(pow10, 10);
        }
        lemma_pow10_increases(d as nat, 9);
    }
    if d == n {
        // No fractional part: scale the integer part to micro-units.
        proof {
            assert(s@.subrange(0, d as int) =~= s@);
        }
        return Ok(acc * 1_000_000);
    }
    let f = n - d - 1;
    if f < 1 || f > 6 {
        return Err(ParamError::Parse);
    }
    // The fractional part.
    let mut frac: u64 = 0;
    let mut i: usize = d + 1;
    while i < n
        invariant
            d + 1 <= i <= n == s@.len(),
            d + 2 <= n <= d + 7,
            d <= 9,
            dot_position(s@, 0) == d,
            all_digits(s@.subrange(d + 1, i as int)),
            frac == digits_value(s@.subrange(d + 1, i as int)),
            0 <= frac < pow10((i - d - 1) as nat),
        decreases n - i,
    {
        let c = s[i];
        if c < 0x30 || c > 0x39 {
            proof {
                assert(s@.subrange(
                    dot_position(s@, 0) + 1,
                    s@.len() as int,
                )[i - d - 1] == s@[i as int]);
            }
            return Err(ParamError::Parse);
        }
        proof {
            let pre = s@.subrange(d + 1, i as int);
            let cur = s@.subrange(d + 1, i + 1);
            assert(cur.drop_last() =~= pre);
            assert(all_digits(cur)) by {
                assert(forall|k: int| 0 <= k < i - d - 1 ==> cur[k] == pre[k]);
            }
            lemma_pow10_increases((i - d - 1) as nat, 5);
            assert(pow10(5) == 100_000) by {
                reveal_with_fuel(pow10, 6);
            }
        }
        frac = frac * 10 + ((c - 0x30) as u64);
        i = i + 1;
    }
    let scale: u64 = if f == 1 {
        100_000
    } else if f == 2 {
        10_000
    } else if f == 3 {
        1_000
    } else if f == 4 {
        100
    } else if f == 5 {
        10
    } else {
        1
    };
    proof {
        assert(pow10(5) == 100_000 && pow10(4) == 10_000 && pow10(3) == 1_000 && pow10(2) == 100
            && pow10(1) == 10 && pow10(0) == 1) by {
            reveal_with_fuel(pow10, 6);
        }
        assert(scale == pow10((6 - f) as nat));
        lemma_pow10_increases((n - d - 1) as nat, 6);
        assert(pow10(6) == 1_000_000) by {
            reveal_with_fuel(pow10, 7);
        }
        lemma_pow10_adds((f as nat), (6 - f) as nat);
        assert(pow10(6) == pow10(f as nat) * pow10((6 - f) as nat));
        assert(frac * scale < 1_000_000) by (nonlinear_arith)
            requires
                0 <= frac,
                frac < pow10(f as nat),
                scale == pow10((6 - f) as nat),
                scale >= 1,
                pow10(f as nat) * pow10((6 - f) as nat) == 1_000_000,
        ;
        assert(s@.subrange(d + 1, n as int) =~= s@.subrange(d + 1, i as int));
    }
    Ok(acc * 1_000_000 + frac * scale)
}

/// Parse a signed decimal into micro-units: an optional minus sign, one to
/// nine integer digits, and optionally a point with one to six fractional
/// digits.  Exactly the well-formed inputs parse; the result is exact.
pub fn parse_micros(s: &Vec<u8>) -> (r: Result<i64, ParamError>)
    ensures
        r is Ok <==> wf_decimal(s@),
        r is Err ==> r == Err::<i64, ParamError>(ParamError::Parse),
        r matches Ok(v) ==> v == decimal_value(s@) && -1_000_000_000_000_000 < v
            < 1_000_000_000_000_000,
{
    if s.len() >= 1 && s[0] == 0x2d {
        let mut rest: Vec<u8> = Vec::new();
        let mut i: usize = 1;
        while i < s.len()
            invariant
                1 <= i <= s@.len(),
                rest@ =~= s@.subrange(1, i as int),
            decreases s@.len() - i,
        {
            rest.push(s[i]);
            proof {
                assert(rest@ =~= s@.subrange(1, i + 1));
            }
            i = i + 1;
        }
        proof {
            assert(rest@ =~= s@.subrange(1, s@.len() as int));
        }
        match parse_unsigned(&rest) {
            Ok(v) => Ok(-(v as i64)),
            Err(e) => Err(e),
        }
    } else {
        match parse_unsigned(s) {
            Ok(v) => Ok(v as i64),
            Err(e) => Err(e),
        }
    }
}

} // verus!
