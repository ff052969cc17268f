//! Single-precision IEEE-754 numbers carried as bit patterns.
//!
//! Times and coordinates reach the viewer as binary32 values. The core never
//! computes with them; it only orders them, negates them and steps to the next
//! representable value. All three are exact operations on the encoding, so the
//! encoding itself is the value that the core holds.
use vstd::prelude::*;

verus! {

/// The sign bit of the encoding.
pub const SIGN_BIT: u32 = 0x8000_0000;

/// The encoding of positive infinity: every larger magnitude is a NaN.
pub const INFINITY_BITS: u32 = 0x7f80_0000;

/// A single-precision number, held as the 32 bits of its encoding.
#[derive(Clone, Copy, Debug, PartialEq, Eq, Hash)]
pub struct Single {
    pub bits: u32,
}

impl Single {
    /// The encoding without its sign bit.
    pub open spec fn magnitude(self) -> int {
        if self.bits >= SIGN_BIT {
            self.bits - SIGN_BIT
        } else {
            self.bits as int
        }
    }

    /// The sign bit is set (also true of negative zero and of some NaNs).
    pub open spec fn is_negative(self) -> bool {
        self.bits >= SIGN_BIT
    }

    /// The value is not a number.
    pub open spec fn is_nan(self) -> bool {
        self.magnitude() > INFINITY_BITS
    }

    /// The position of the value on the number line, counted in representable
    /// steps from zero. Among numbers (not NaNs) a larger rank is a larger
    /// value, and the two zeros share rank 0.
    pub open spec fn rank(self) -> int {
        if self.is_negative() {
            -self.magnitude()
        } else {
            self.magnitude()
        }
    }

    /// `self < other` as IEEE-754 defines it: false when either is a NaN.
    pub open spec fn lt_spec(self, other: Single) -> bool {
        !self.is_nan() && !other.is_nan() && self.rank() < other.rank()
    }

    /// `self <= other` as IEEE-754 defines it: false when either is a NaN.
    pub open spec fn le_spec(self, other: Single) -> bool {
        !self.is_nan() && !other.is_nan() && self.rank() <= other.rank()
    }

    /// `self > other` as IEEE-754 defines it: false when either is a NaN.
    pub open spec fn gt_spec(self, other: Single) -> bool {
        other.lt_spec(self)
    }

    /// `self >= other` as IEEE-754 defines it: false when either is a NaN.
    pub open spec fn ge_spec(self, other: Single) -> bool {
        other.le_spec(self)
    }

    /// `self == other` as IEEE-754 defines it: a NaN equals nothing, and the
    /// two zeros are equal.
    pub open spec fn same_spec(self, other: Single) -> bool {
        !self.is_nan() && !other.is_nan() && self.rank() == other.rank()
    }

    /// The value with the sign bit flipped.
    pub open spec fn neg_spec(self) -> Single {
        if self.bits >= SIGN_BIT {
            Single { bits: (self.bits - SIGN_BIT) as u32 }
        } else {
            Single { bits: (self.bits + SIGN_BIT) as u32 }
        }
    }

    /// The number of the given rank, for a rank between the two infinities.
    /// Rank 0 is positive zero.
    pub open spec fn of_rank(rank: int) -> Single
        recommends
            -(INFINITY_BITS as int) <= rank <= INFINITY_BITS as int,
    {
        if rank >= 0 {
            Single { bits: rank as u32 }
        } else {
            Single { bits: (SIGN_BIT - rank) as u32 }
        }
    }

    /// The least number greater than `self`; `self` where there is none
    /// (positive infinity, a NaN).
    pub open spec fn next_up_spec(self) -> Single {
        if self.is_nan() || self.rank() == INFINITY_BITS as int {
            self
        } else {
            Single::of_rank(self.rank() + 1)
        }
    }

    /// Wraps an encoding.
    pub fn from_bits(bits: u32) -> (r: Single)
        ensures
            r.bits == bits,
    {
        Single { bits }
    }

    /// The encoding.
    pub fn to_bits(self) -> (bits: u32)
        ensures
            bits == self.bits,
    {
        self.bits
    }

    /// Whether the value is a NaN.
    pub fn nan(self) -> (r: bool)
        ensures
            r == self.is_nan(),
    {
        if self.bits >= SIGN_BIT {
            self.bits - SIGN_BIT > INFINITY_BITS
        } else {
            self.bits > INFINITY_BITS
        }
    }

    /// The rank as a machine integer.
    pub fn rank_value(self) -> (r: i64)
        ensures
            r == self.rank(),
            -(0x7fff_ffff as int) <= r <= 0x7fff_ffff,
    {
        if self.bits >= SIGN_BIT {
            let m: u32 = self.bits - SIGN_BIT;
            -(m as i64)
        } else {
            self.bits as i64
        }
    }

    /// `self < other`.
    pub fn lt(self, other: Single) -> (r: bool)
        ensures
            r == self.lt_spec(other),
    {
        !self.nan() && !other.nan() && self.rank_value() < other.rank_value()
    }

    /// `self <= other`.
    pub fn le(self, other: Single) -> (r: bool)
        ensures
            r == self.le_spec(other),
    {
        !self.nan() && !other.nan() && self.rank_value() <= other.rank_value()
    }

    /// `self > other`.
    pub fn gt(self, other: Single) -> (r: bool)
        ensures
            r == self.gt_spec(other),
    {
        other.lt(self)
    }

    /// `self >= other`.
    pub fn ge(self, other: Single) -> (r: bool)
        ensures
            r == self.ge_spec(other),
    {
        other.le(self)
    }

    /// `self == other` as numbers.
    pub fn same(self, other: Single) -> (r: bool)
        ensures
            r == self.same_spec(other),
    {
        !self.nan() && !other.nan() && self.rank_value() == other.rank_value()
    }

    /// The value with the opposite sign. Negation is exact: it mirrors the
    /// rank and keeps a NaN a NaN.
    pub fn neg(self) -> (r: Single)
        ensures
            r == self.neg_spec(),
            r.magnitude() == self.magnitude(),
            r.is_nan() == self.is_nan(),
            r.rank() == -self.rank(),
    {
        if self.bits >= SIGN_BIT {
            Single { bits: self.bits - SIGN_BIT }
        } else {
            Single { bits: self.bits + SIGN_BIT }
        }
    }

    /// The least number strictly greater than `self`. Positive infinity and
    /// NaNs have no such number and are returned unchanged.
    pub fn next_up(self) -> (r: Single)
        ensures
            r == self.next_up_spec(),
            self.is_nan() || self.rank() == INFINITY_BITS as int ==> r == self,
            !self.is_nan() && self.rank() < INFINITY_BITS as int ==> !r.is_nan() && r.rank()
                == self.rank() + 1 && self.lt_spec(r),
            forall|other: Single| self.lt_spec(other) ==> #[trigger] r.le_spec(other),
    {
        if self.nan() {
            return self;
        }
        let rank: i64 = self.rank_value();
        if rank == 0x7f80_0000 {
            return self;
        }
        let next: i64 = rank + 1;
        if next >= 0 {
            Single { bits: next as u32 }
        } else {
            let m: i64 = -next;
            Single { bits: SIGN_BIT + (m as u32) }
        }
    }
}

} // verus!
