//! Decimal numerals, as finite numbers are written out: an optional minus
//! sign, digits, and optionally a point with digits behind it.

use vstd::prelude::*;
use vstd::string::StringSliceAdditionalSpecFns;

verus! {

/// The byte `-`.
pub const MINUS: u8 = 0x2d;

/// The byte `.`.
pub const POINT: u8 = 0x2e;

/// The byte is one of `0` to `9`.
pub open spec fn is_digit(byte: u8) -> bool {
    0x30 <= byte <= 0x39
}

/// The bytes are digits, and there is at least one.
pub open spec fn is_digits(bytes: Seq<u8>) -> bool {
    bytes.len() > 0 && forall|i: int| 0 <= i < bytes.len() ==> is_digit(#[trigger] bytes[i])
}

/// Digits, or digits on both sides of one point.
pub open spec fn is_unsigned_decimal(bytes: Seq<u8>) -> bool {
    is_digits(bytes) || exists|point: int|
        0 <= point < bytes.len() && #[trigger] bytes[point] == POINT && is_digits(
            bytes.take(point),
        ) && is_digits(bytes.skip(point + 1))
}

/// A decimal numeral: an unsigned one, or a minus sign in front of one.
pub open spec fn is_decimal(bytes: Seq<u8>) -> bool {
    if bytes.len() > 0 && bytes[0] == MINUS {
        is_unsigned_decimal(bytes.skip(1))
    } else {
        is_unsigned_decimal(bytes)
    }
}

/// The text is a decimal numeral.
pub fn is_decimal_text(text: &str) -> (res: bool)
    ensures
        res == is_decimal(text.spec_bytes()),
{
    let bytes = text.as_bytes();
    let n = bytes.len();
    let start: usize = if n > 0 && bytes[0] == MINUS {
        1
    } else {
        0
    };
    let ghost body = bytes@.skip(start as int);
    proof {
        if start == 0 {
            assert(body == bytes@);
        }
    }
    let mut i: usize = start;
    while i < n && 0x30 <= bytes[i] && bytes[i] <= 0x39
        invariant
            start <= i <= n,
            n == bytes@.len(),
            body == bytes@.skip(start as int),
            forall|j: int| 0 <= j < i - start ==> is_digit(#[trigger] body[j]),
        decreases n - i,
    {
        i += 1;
    }
    if i == start {
        proof {
            // there is no digit in front
            assert(body.len() > 0 ==> !is_digit(body[0]));
            assert forall|point: int|
                0 <= point < body.len() && #[trigger] body[point] == POINT implies !is_digits(
                body.take(point),
            ) by {
                if point > 0 {
                    assert(body.take(point)[0] == body[0]);
                }
            }
        }
        return false;
    }
    if i == n {
        return true;
    }
    let ghost whole: int = i - start;
    if bytes[i] != POINT {
        proof {
            // the byte behind the digits is neither a digit nor the point
            assert(!is_digit(body[whole]));
            assert forall|point: int|
                0 <= point < body.len() && #[trigger] body[point] == POINT implies !is_digits(
                body.take(point),
            ) by {
                if point < whole {
                    assert(is_digit(body[point]));
                } else {
                    assert(body.take(point)[whole] == body[whole]);
                }
            }
        }
        return false;
    }
    i += 1;
    let behind: usize = i;
    while i < n && 0x30 <= bytes[i] && bytes[i] <= 0x39
        invariant
            behind <= i <= n,
            start < behind,
            n == bytes@.len(),
            body == bytes@.skip(start as int),
            forall|j: int| behind - start <= j < i - start ==> is_digit(#[trigger] body[j]),
        decreases n - i,
    {
        i += 1;
    }
    let res = i == n && i > behind;
    proof {
        let rest = body.skip(whole + 1);
        assert(body[whole] == POINT);
        assert forall|j: int| 0 <= j < whole implies is_digit(#[trigger] body.take(whole)[j]) by {
            assert(body.take(whole)[j] == body[j]);
        }
        assert(is_digits(body.take(whole)));
        if res {
            assert forall|j: int| 0 <= j < rest.len() implies is_digit(#[trigger] rest[j]) by {
                assert(rest[j] == body[whole + 1 + j]);
            }
            assert(is_digits(rest));
        } else {
            if i < n {
                assert(rest[i - behind] == body[i - start]);
                assert(!is_digit(rest[i - behind]));
            }
            assert(!is_digits(rest));
            assert(!is_digits(body));
            assert forall|point: int|
                0 <= point < body.len() && #[trigger] body[point] == POINT implies !(is_digits(
                body.take(point),
            ) && is_digits(body.skip(point + 1))) by {
                if point < whole {
                    assert(is_digit(body[point]));
                } else if point > whole {
                    assert(body.take(point)[whole] == body[whole]);
                }
            }
        }
    }
    res
}

} // verus!
