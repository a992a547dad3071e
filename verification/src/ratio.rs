use vstd::prelude::*;

verus! {

/// Largest numerator or denominator a [`Ratio`] may carry. Every finite
/// IEEE double in `[1, 2^53)` is exactly `m / 2^k` with `m < 2^54` and
/// `2^k <= 2^52`, so any realistic downsample factor decomposes within this
/// bound; keeping the parts this small also keeps every product in the
/// tile geometry inside `u128`.
pub const MAX_RATIO_PART: u64 = 0x20_0000_0000_0000;

/// An exact rational number `num / den`, at least one.
///
/// Slide readers report the downsample factor of each native level as a
/// floating-point number. A finite float is itself a rational with a
/// power-of-two denominator, so callers convert it losslessly into a
/// `Ratio` and the whole coordinate engine stays in exact integer
/// arithmetic.
#[derive(Clone, Copy, Debug, PartialEq, Eq)]
pub struct Ratio {
    pub num: u64,
    pub den: u64,
}

/// The residual downsample of a virtual level: native-level pixels per
/// virtual-level pixel, as the exact rational `num / den`. It is the
/// virtual level's total downsample (a power of two) divided by the chosen
/// native level's downsample factor, so the numerator can exceed 64 bits.
#[derive(Clone, Copy, Debug, PartialEq, Eq)]
pub struct Residual {
    pub num: u128,
    pub den: u64,
}

impl Ratio {
    /// A downsample factor the generator accepts: at least one, with
    /// bounded parts.
    pub open spec fn valid(self) -> bool {
        &&& 1 <= self.den
        &&& self.den <= self.num
        &&& self.num <= MAX_RATIO_PART
    }

    /// `self <= d` for an integer `d`.
    pub open spec fn le_int(self, d: int) -> bool {
        self.num <= d * self.den
    }

    /// `self <= other`.
    pub open spec fn le(self, other: Ratio) -> bool {
        self.num * other.den <= other.num * self.den
    }

    /// `self == 1`.
    pub open spec fn is_one(self) -> bool {
        self.num == self.den
    }

    /// Whether `self <= d`, decided exactly.
    pub fn le_int_exec(&self, d: u64) -> (r: bool)
        ensures
            r == self.le_int(d as int),
    {
        proof {
            vstd::arithmetic::mul::lemma_mul_upper_bound(
                d as int,
                u64::MAX as int,
                self.den as int,
                u64::MAX as int,
            );
        }
        (self.num as u128) <= (d as u128) * (self.den as u128)
    }

    /// Whether `self <= other`, decided exactly.
    pub fn le_exec(&self, other: &Ratio) -> (r: bool)
        ensures
            r == self.le(*other),
    {
        proof {
            vstd::arithmetic::mul::lemma_mul_upper_bound(
                self.num as int,
                u64::MAX as int,
                other.den as int,
                u64::MAX as int,
            );
            vstd::arithmetic::mul::lemma_mul_upper_bound(
                other.num as int,
                u64::MAX as int,
                self.den as int,
                u64::MAX as int,
            );
        }
        (self.num as u128) * (other.den as u128) <= (other.num as u128) * (self.den as u128)
    }
}

} // verus!
