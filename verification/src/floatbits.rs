//! IEEE-754 binary64 values carried as their bit patterns.
//!
//! The library never computes with floating-point numbers; coordinates and
//! envelopes travel as the `u64` bit pattern of the `f64` they stand for
//! (`f64::to_bits` / `f64::from_bits`). This module gives the meaning of the
//! `<` comparison on such patterns: NaN compares false with everything, and
//! otherwise the order is that of the sign-magnitude value, with +0 equal
//! to −0.

use vstd::prelude::*;

verus! {

/// Bit pattern of `f64::INFINITY`.
pub const F64_INFINITY_BITS: u64 = 0x7FF0_0000_0000_0000;

/// Bit pattern of `f64::NEG_INFINITY`.
pub const F64_NEG_INFINITY_BITS: u64 = 0xFFF0_0000_0000_0000;

/// Bit pattern of `f64::NAN` (the canonical quiet NaN).
pub const F64_NAN_BITS: u64 = 0x7FF8_0000_0000_0000;

/// Magnitude part (all bits but the sign) of a binary64 pattern.
pub open spec fn magnitude(b: u64) -> int {
    (b as int) % 0x8000_0000_0000_0000
}

/// A binary64 pattern is NaN when its exponent is all ones and its
/// fraction is non-zero, i.e. when its magnitude exceeds that of infinity.
pub open spec fn is_nan(b: u64) -> bool {
    magnitude(b) > 0x7FF0_0000_0000_0000
}

/// Position of a non-NaN pattern on the real line (monotone in the value;
/// both zeros map to 0).
pub open spec fn order_key(b: u64) -> int {
    if (b as int) < 0x8000_0000_0000_0000 {
        b as int
    } else {
        -magnitude(b)
    }
}

/// `a < b` for the `f64` values with bit patterns `a` and `b`.
pub open spec fn f64_lt(a: u64, b: u64) -> bool {
    !is_nan(a) && !is_nan(b) && order_key(a) < order_key(b)
}

/// `<` on two `f64` values given by their bit patterns.
pub fn lt(a: u64, b: u64) -> (r: bool)
    ensures
        r == f64_lt(a, b),
{
    let sign_bit: u64 = 0x8000_0000_0000_0000;
    let ma = a % sign_bit;
    let mb = b % sign_bit;
    if ma > F64_INFINITY_BITS || mb > F64_INFINITY_BITS {
        return false;
    }
    let ka: i128 = if a < sign_bit { a as i128 } else { -(ma as i128) };
    let kb: i128 = if b < sign_bit { b as i128 } else { -(mb as i128) };
    ka < kb
}

/// Smallest value of `xs` under `<`, starting from +∞ and keeping the
/// running value whenever the next one is not strictly smaller.
pub open spec fn running_min(xs: Seq<u64>) -> u64
    decreases xs.len(),
{
    if xs.len() == 0 {
        F64_INFINITY_BITS
    } else {
        let m = running_min(xs.drop_last());
        if f64_lt(xs.last(), m) {
            xs.last()
        } else {
            m
        }
    }
}

/// Largest value of `xs` under `<`, starting from −∞.
pub open spec fn running_max(xs: Seq<u64>) -> u64
    decreases xs.len(),
{
    if xs.len() == 0 {
        F64_NEG_INFINITY_BITS
    } else {
        let m = running_max(xs.drop_last());
        if f64_lt(m, xs.last()) {
            xs.last()
        } else {
            m
        }
    }
}

/// No element of `xs` is NaN.
pub open spec fn no_nan(xs: Seq<u64>) -> bool {
    forall|i: int| 0 <= i < xs.len() ==> !is_nan(#[trigger] xs[i])
}

/// For NaN-free input the running minimum is a lower bound of every
/// element and, for non-empty input, is one of the elements.
pub proof fn lemma_running_min_is_min(xs: Seq<u64>)
    requires
        no_nan(xs),
    ensures
        forall|i: int| 0 <= i < xs.len() ==> !f64_lt(#[trigger] xs[i], running_min(xs)),
        xs.len() > 0 ==> exists|i: int| 0 <= i < xs.len() && xs[i] == running_min(xs),
    decreases xs.len(),
{
    if xs.len() > 0 {
        let ys = xs.drop_last();
        assert(no_nan(ys)) by {
            assert forall|i: int| 0 <= i < ys.len() implies !is_nan(#[trigger] ys[i]) by {
                assert(ys[i] == xs[i]);
            }
        }
        lemma_running_min_is_min(ys);
        let m = running_min(ys);
        assert(!is_nan(xs.last())) by {
            assert(xs.last() == xs[xs.len() - 1]);
        }
        assert forall|i: int| 0 <= i < xs.len() implies !f64_lt(#[trigger] xs[i], running_min(xs)) by {
            if i < xs.len() - 1 {
                assert(xs[i] == ys[i]);
            }
        }
        if ys.len() > 0 {
            let j = choose|j: int| 0 <= j < ys.len() && ys[j] == m;
            if !f64_lt(xs.last(), m) {
                assert(xs[j] == running_min(xs));
            } else {
                assert(xs[xs.len() - 1] == running_min(xs));
            }
        } else {
            if f64_lt(xs.last(), m) {
                assert(xs[xs.len() - 1] == running_min(xs));
            } else {
                assert(order_key(xs.last()) == order_key(F64_INFINITY_BITS));
                assert(xs.last() == F64_INFINITY_BITS);
                assert(xs[0] == running_min(xs));
            }
        }
    }
}

/// For NaN-free input the running maximum is an upper bound of every
/// element and, for non-empty input, is one of the elements.
pub proof fn lemma_running_max_is_max(xs: Seq<u64>)
    requires
        no_nan(xs),
    ensures
        forall|i: int| 0 <= i < xs.len() ==> !f64_lt(running_max(xs), #[trigger] xs[i]),
        xs.len() > 0 ==> exists|i: int| 0 <= i < xs.len() && xs[i] == running_max(xs),
    decreases xs.len(),
{
    if xs.len() > 0 {
        let ys = xs.drop_last();
        assert(no_nan(ys)) by {
            assert forall|i: int| 0 <= i < ys.len() implies !is_nan(#[trigger] ys[i]) by {
                assert(ys[i] == xs[i]);
            }
        }
        lemma_running_max_is_max(ys);
        let m = running_max(ys);
        assert(!is_nan(xs.last())) by {
            assert(xs.last() == xs[xs.len() - 1]);
        }
        assert forall|i: int| 0 <= i < xs.len() implies !f64_lt(running_max(xs), #[trigger] xs[i]) by {
            if i < xs.len() - 1 {
                assert(xs[i] == ys[i]);
            }
        }
        if ys.len() > 0 {
            let j = choose|j: int| 0 <= j < ys.len() && ys[j] == m;
            if !f64_lt(m, xs.last()) {
                assert(xs[j] == running_max(xs));
            } else {
                assert(xs[xs.len() - 1] == running_max(xs));
            }
        } else {
            if f64_lt(m, xs.last()) {
                assert(xs[xs.len() - 1] == running_max(xs));
            } else {
                assert(order_key(xs.last()) == order_key(F64_NEG_INFINITY_BITS));
                assert(magnitude(xs.last()) == 0x7FF0_0000_0000_0000);
                assert(xs.last() == F64_NEG_INFINITY_BITS);
                assert(xs[0] == running_max(xs));
            }
        }
    }
}

} // verus!
