//! Decimal integer parsing for the mapping-script parser: an exact,
//! verified reading of `[+-]?[0-9]+` as a 32-bit signed integer.

use vstd::prelude::*;
use vstd::string::StringExecFns;

use crate::text::append_rendered;
use crate::text::rendered;

verus! {

/// An ASCII decimal digit.
pub open spec fn is_digit(b: u8) -> bool {
    48 <= b && b <= 57
}

/// Every byte is a decimal digit.
pub open spec fn all_digits(s: Seq<u8>) -> bool {
    forall|i: int| 0 <= i < s.len() ==> is_digit(#[trigger] s[i])
}

/// The value of an all-digit byte string read as decimal.
pub open spec fn digits_value(s: Seq<u8>) -> int
    decreases s.len(),
{
    if s.len() == 0 {
        0
    } else {
        digits_value(s.drop_last()) * 10 + (s.last() - 48)
    }
}

/// The input with a single leading sign, if any, removed.
pub open spec fn magnitude_part(s: Seq<u8>) -> Seq<u8> {
    if s.len() > 0 && (s[0] == 43 || s[0] == 45) {
        s.skip(1)
    } else {
        s
    }
}

/// Does the input carry a leading minus sign?
pub open spec fn is_negative(s: Seq<u8>) -> bool {
    s.len() > 0 && s[0] == 45
}

/// The signed value the input denotes (meaningful when valid).
pub open spec fn int_bytes_value(s: Seq<u8>) -> int {
    if is_negative(s) {
        -digits_value(magnitude_part(s))
    } else {
        digits_value(magnitude_part(s))
    }
}

/// Is the input a decimal representation of a 32-bit signed integer:
/// an optional sign, then at least one digit and nothing else, denoting a
/// value in range?
pub open spec fn valid_i32_bytes(s: Seq<u8>) -> bool {
    &&& magnitude_part(s).len() > 0
    &&& all_digits(magnitude_part(s))
    &&& i32::MIN <= int_bytes_value(s) <= i32::MAX
}

proof fn lemma_digits_value_nonneg(s: Seq<u8>)
    requires
        all_digits(s),
    ensures
        digits_value(s) >= 0,
    decreases s.len(),
{
    if s.len() > 0 {
        assert(all_digits(s.drop_last())) by {
            assert(forall|i: int|
                0 <= i < s.len() - 1 ==> s.drop_last()[i] == #[trigger] s[i]);
        }
        lemma_digits_value_nonneg(s.drop_last());
    }
}

/// Reading more digits can only grow the magnitude.
proof fn lemma_digits_value_monotone(s: Seq<u8>, j: int)
    requires
        all_digits(s),
        0 <= j <= s.len(),
    ensures
        digits_value(s.subrange(0, j)) <= digits_value(s),
    decreases s.len() - j,
{
    if j == s.len() {
        assert(s.subrange(0, j) =~= s);
    } else {
        assert(all_digits(s.drop_last())) by {
            assert(forall|i: int|
                0 <= i < s.len() - 1 ==> s.drop_last()[i] == #[trigger] s[i]);
        }
        lemma_digits_value_monotone(s.drop_last(), j);
        assert(s.drop_last().subrange(0, j) =~= s.subrange(0, j));
        lemma_digits_value_nonneg(s.drop_last());
    }
}

/// Parse a decimal integer, as the mapping-script grammar uses it: an
/// optional sign, then decimal digits. Anything else, or a value outside
/// the 32-bit signed range, is rejected with a message carrying the
/// offending text (rendered letter for letter; bytes outside the script
/// alphabet appear as a placeholder).
pub fn str_to_int(s: &[u8]) -> (r: Result<i32, String>)
    ensures
        match r {
            Ok(v) => valid_i32_bytes(s@) && v as int == int_bytes_value(s@),
            Err(m) => !valid_i32_bytes(s@) && m@ == "Not an integer: "@ + rendered(s@),
        },
{
    let n = s.len();
    let mut start: usize = 0;
    let mut negative = false;
    if n > 0 && (s[0] == 43 || s[0] == 45) {
        negative = s[0] == 45;
        start = 1;
    }
    if start == n {
        // No digits at all.
        let mut msg = String::from_str("Not an integer: ");
        append_rendered(&mut msg, s);
        return Err(msg);
    }
    let ghost mag = s@.subrange(start as int, n as int);
    proof {
        assert(mag =~= magnitude_part(s@));
    }
    let mut acc: u64 = 0;
    let mut j: usize = start;
    while j < n
        invariant
            start <= j <= n,
            n == s@.len(),
            start < n,
            mag == s@.subrange(start as int, n as int),
            mag == magnitude_part(s@),
            forall|m: int| start <= m < j ==> is_digit(#[trigger] s@[m]),
            acc == digits_value(s@.subrange(start as int, j as int)),
            acc <= 0x8000_0000,
        decreases n - j,
    {
        let b = s[j];
        if !(48 <= b && b <= 57) {
            // A non-digit after the sign: not a valid integer.
            proof {
                assert(mag[j - start] == s@[j as int]);
            }
            let mut msg = String::from_str("Not an integer: ");
            append_rendered(&mut msg, s);
            return Err(msg);
        }
        let ghost prev = s@.subrange(start as int, j as int);
        acc = acc * 10 + ((b - 48) as u64);
        j = j + 1;
        proof {
            let cur = s@.subrange(start as int, j as int);
            assert(cur.drop_last() =~= prev);
            assert(cur.last() == b);
        }
        if acc > 0x8000_0000 {
            // The magnitude already exceeds the 32-bit range, and further
            // digits can only grow it.
            proof {
                if all_digits(mag) {
                    lemma_digits_value_monotone(mag, j - start);
                    assert(mag.subrange(0, j - start) =~= s@.subrange(start as int, j as int));
                }
            }
            let mut msg = String::from_str("Not an integer: ");
            append_rendered(&mut msg, s);
            return Err(msg);
        }
    }
    proof {
        assert(s@.subrange(start as int, j as int) =~= mag);
    }
    if negative {
        if acc == 0x8000_0000 {
            Ok(i32::MIN)
        } else {
            Ok(-(acc as i32))
        }
    } else {
        if acc > 0x7fff_ffff {
            // 2^31 is representable only with a minus sign.
            let mut msg = String::from_str("Not an integer: ");
            append_rendered(&mut msg, s);
            Err(msg)
        } else {
            Ok(acc as i32)
        }
    }
}

} // verus!
