//! Points in time on the audio, in seconds.
//!
//! The service gives them as binary64 numbers. Verified code holds no such
//! number, so a point in time is carried as the 64 bits of one, and the order
//! of two of them is worked out on the bits: a sign bit above a magnitude of 63
//! bits, which grows as the number does.

use vstd::prelude::*;

verus! {

/// Two to the 63rd: the sign bit of a binary64 pattern.
pub const SIGN_BIT: u64 = 0x8000_0000_0000_0000;

/// The magnitude of infinity: an exponent of all ones over a fraction of
/// zeros. Every magnitude above it is not a number.
pub const INFINITY_MAGNITUDE: u64 = 0x7FF0_0000_0000_0000;

/// A number of seconds, held as the bits of a binary64 number.
#[derive(Clone, Copy, Debug)]
pub struct Seconds {
    pub bits: u64,
}

impl Seconds {
    /// The bits below the sign bit.
    pub open spec fn magnitude(self) -> int {
        self.bits as int % (SIGN_BIT as int)
    }

    /// Whether the sign bit is set.
    pub open spec fn is_negative(self) -> bool {
        self.bits >= SIGN_BIT
    }

    /// Whether the bits stand for no number at all.
    pub open spec fn is_nan(self) -> bool {
        self.magnitude() > INFINITY_MAGNITUDE
    }

    /// An integer that grows exactly as the number does. Both zeros have
    /// rank 0. It means nothing where the bits stand for no number.
    pub open spec fn rank(self) -> int {
        if self.is_negative() {
            -self.magnitude()
        } else {
            self.magnitude()
        }
    }

    /// `self <= other` as binary64 numbers compare: false as soon as one of
    /// the two is not a number.
    pub open spec fn at_most(self, other: Seconds) -> bool {
        !self.is_nan() && !other.is_nan() && self.rank() <= other.rank()
    }

    /// Zero seconds, the start of the audio.
    pub open spec fn spec_zero() -> Seconds {
        Seconds { bits: 0 }
    }

    /// Zero seconds, the start of the audio.
    #[verifier::when_used_as_spec(spec_zero)]
    pub fn zero() -> (start: Seconds)
        ensures
            start == Seconds::spec_zero(),
    {
        Seconds { bits: 0 }
    }

    /// The seconds whose binary64 pattern is `bits`.
    pub fn from_bits(bits: u64) -> (seconds: Seconds)
        ensures
            seconds.bits == bits,
    {
        Seconds { bits }
    }

    /// Whether `self <= other` as binary64 numbers compare.
    pub fn le(self, other: Seconds) -> (holds: bool)
        ensures
            holds == self.at_most(other),
    {
        let mine: u64 = self.bits % SIGN_BIT;
        let theirs: u64 = other.bits % SIGN_BIT;
        if mine > INFINITY_MAGNITUDE || theirs > INFINITY_MAGNITUDE {
            false
        } else if self.bits >= SIGN_BIT {
            if other.bits >= SIGN_BIT {
                theirs <= mine
            } else {
                true
            }
        } else if other.bits >= SIGN_BIT {
            mine == 0 && theirs == 0
        } else {
            mine <= theirs
        }
    }
}

} // verus!
