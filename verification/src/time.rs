//! Instants on the time line, held as integers whose order is the order of
//! the instants.

use vstd::prelude::*;

verus! {

/// The largest key magnitude: the bit pattern of the greatest finite
/// single-precision number.
pub const MAX_KEY: i32 = 0x7f7f_ffff;

/// The bit that carries the sign in a single-precision bit pattern.
pub const SIGN_BIT: u32 = 0x8000_0000;

/// The key that a single-precision bit pattern stands for, if the pattern is
/// a finite number.
///
/// A pattern is a sign bit above a 31-bit magnitude. Magnitudes grow with the
/// absolute value of the number they encode, so the magnitude, negated when
/// the sign bit is set, orders the finite numbers as the numbers themselves
/// are ordered. Both zeros get key 0. Infinities and NaNs (magnitudes above
/// `MAX_KEY`) have no key.
pub open spec fn key_of_bits(bits: u32) -> Option<int> {
    let magnitude = if bits >= SIGN_BIT {
        bits - SIGN_BIT
    } else {
        bits as int
    };
    if magnitude > MAX_KEY {
        None
    } else if bits >= SIGN_BIT {
        Some(-magnitude)
    } else {
        Some(magnitude)
    }
}

/// The bit pattern of negative infinity in single precision.
pub const NEGATIVE_INFINITY_BITS: u32 = 0xff80_0000;

/// Whether a single-precision bit pattern is a number below zero: the sign
/// bit is set, the magnitude is not zero, and the pattern is no NaN.
pub open spec fn is_negative_bits(bits: u32) -> bool {
    SIGN_BIT < bits <= NEGATIVE_INFINITY_BITS
}

/// Whether a single-precision bit pattern is a number below zero.
pub fn bits_are_negative(bits: u32) -> (r: bool)
    ensures
        r == is_negative_bits(bits),
{
    SIGN_BIT < bits && bits <= NEGATIVE_INFINITY_BITS
}

/// The single-precision bit pattern of the number with key `key`.
pub open spec fn bits_of_key(key: int) -> int {
    if key >= 0 {
        key
    } else {
        SIGN_BIT - key
    }
}

/// A finite instant, in seconds.
///
/// The instant is stored as its key (see [`key_of_bits`]); `a` is earlier
/// than `b` exactly when `a@ < b@`.
#[derive(Clone, Copy, Debug)]
pub struct Time {
    key: i32,
}

impl View for Time {
    type V = int;

    closed spec fn view(&self) -> int {
        self.key as int
    }
}

impl Time {
    #[verifier::type_invariant]
    spec fn in_range(self) -> bool {
        -MAX_KEY <= self.key <= MAX_KEY
    }

    /// The instant zero.
    pub closed spec fn spec_zero() -> Time {
        Time { key: 0 }
    }

    /// The instant zero.
    pub fn zero() -> (r: Time)
        ensures
            r == Time::spec_zero(),
            r@ == 0,
    {
        Time { key: 0 }
    }

    /// The instant whose single-precision bit pattern is `bits`; `None` for
    /// an infinity or a NaN.
    pub fn from_bits(bits: u32) -> (r: Option<Time>)
        ensures
            match r {
                Some(t) => key_of_bits(bits) == Some(t@),
                None => key_of_bits(bits).is_none(),
            },
    {
        let negative = bits >= SIGN_BIT;
        let magnitude: u32 = if negative {
            bits - SIGN_BIT
        } else {
            bits
        };
        if magnitude > 0x7f7f_ffff {
            None
        } else if negative {
            Some(Time { key: 0 - (magnitude as i32) })
        } else {
            Some(Time { key: magnitude as i32 })
        }
    }

    /// The single-precision bit pattern of this instant (positive zero for
    /// the instant zero).
    pub fn to_bits(self) -> (r: u32)
        ensures
            r == bits_of_key(self@),
            key_of_bits(r) == Some(self@),
    {
        proof {
            use_type_invariant(self);
        }
        if self.key >= 0 {
            self.key as u32
        } else {
            let magnitude: u32 = (0 - self.key) as u32;
            SIGN_BIT + magnitude
        }
    }

    /// The key of this instant, which is that of a finite number.
    pub fn key(self) -> (r: i32)
        ensures
            r == self@,
            -MAX_KEY <= r <= MAX_KEY,
    {
        proof {
            use_type_invariant(self);
        }
        self.key
    }

    /// Whether `self` is strictly earlier than `other`.
    pub fn lt(self, other: Time) -> (r: bool)
        ensures
            r == (self@ < other@),
    {
        self.key < other.key
    }

    /// Whether `self` is no later than `other`.
    pub fn le(self, other: Time) -> (r: bool)
        ensures
            r == (self@ <= other@),
    {
        self.key <= other.key
    }

    /// Whether the two instants coincide.
    pub fn same(self, other: Time) -> (r: bool)
        ensures
            r == (self@ == other@),
    {
        self.key == other.key
    }

    /// The earlier of two instants.
    pub fn min(self, other: Time) -> (r: Time)
        ensures
            r == Time::spec_min(self, other),
    {
        if other.key < self.key {
            other
        } else {
            self
        }
    }

    /// The later of two instants.
    pub fn max(self, other: Time) -> (r: Time)
        ensures
            r == Time::spec_max(self, other),
    {
        if other.key > self.key {
            other
        } else {
            self
        }
    }

    /// `self` brought into `[low, high]`: `low` if it is earlier than `low`,
    /// else `high` if it is later than `high`, else itself.
    pub fn clamp(self, low: Time, high: Time) -> (r: Time)
        ensures
            r == Time::spec_clamp(self, low, high),
    {
        if self.key < low.key {
            low
        } else if self.key > high.key {
            high
        } else {
            self
        }
    }

    /// The earlier of two instants; the first where they coincide.
    pub open spec fn spec_min(a: Time, b: Time) -> Time {
        if b@ < a@ {
            b
        } else {
            a
        }
    }

    /// The later of two instants; the first where they coincide.
    pub open spec fn spec_max(a: Time, b: Time) -> Time {
        if b@ > a@ {
            b
        } else {
            a
        }
    }

    /// What [`Time::clamp`] returns.
    pub open spec fn spec_clamp(t: Time, low: Time, high: Time) -> Time {
        if t@ < low@ {
            low
        } else if t@ > high@ {
            high
        } else {
            t
        }
    }

    /// The earlier of two instants that may be missing: the one that is
    /// there where the other is not.
    pub open spec fn spec_earlier(a: Option<Time>, b: Option<Time>) -> Option<Time> {
        match (a, b) {
            (Some(x), Some(y)) => Some(Time::spec_min(x, y)),
            (Some(x), None) => Some(x),
            (None, _) => b,
        }
    }

    /// The later of two instants that may be missing: the one that is there
    /// where the other is not.
    pub open spec fn spec_later(a: Option<Time>, b: Option<Time>) -> Option<Time> {
        match (a, b) {
            (Some(x), Some(y)) => Some(Time::spec_max(x, y)),
            (Some(x), None) => Some(x),
            (None, _) => b,
        }
    }

    /// The earlier of two instants that may be missing.
    pub fn earlier(a: Option<Time>, b: Option<Time>) -> (r: Option<Time>)
        ensures
            r == Time::spec_earlier(a, b),
    {
        match (a, b) {
            (Some(x), Some(y)) => Some(x.min(y)),
            (Some(x), None) => Some(x),
            (None, _) => b,
        }
    }

    /// The later of two instants that may be missing.
    pub fn later(a: Option<Time>, b: Option<Time>) -> (r: Option<Time>)
        ensures
            r == Time::spec_later(a, b),
    {
        match (a, b) {
            (Some(x), Some(y)) => Some(x.max(y)),
            (Some(x), None) => Some(x),
            (None, _) => b,
        }
    }

    /// The key of the instant zero is 0.
    pub proof fn lemma_zero()
        ensures
            Time::spec_zero()@ == 0,
    {
    }

    /// Instants with the same key are the same instant.
    pub proof fn lemma_same_key(a: Time, b: Time)
        requires
            a@ == b@,
        ensures
            a == b,
    {
    }

}

/// Reading a bit pattern and writing it back changes nothing but the sign of
/// a negative zero: a finite pattern comes back as itself unless it is
/// `SIGN_BIT`, which comes back as 0.
pub proof fn lemma_bits_round_trip(bits: u32)
    requires
        key_of_bits(bits).is_some(),
    ensures
        bits_of_key(key_of_bits(bits).unwrap()) == (if bits == SIGN_BIT {
            0
        } else {
            bits as int
        }),
{
}

/// A finite pattern is a number below zero exactly when its key is.
pub proof fn lemma_negative_key(bits: u32)
    requires
        key_of_bits(bits).is_some(),
    ensures
        is_negative_bits(bits) == (key_of_bits(bits).unwrap() < 0),
{
}

/// Among finite patterns of non-negative numbers the key order is the order
/// of the patterns; among those of negative numbers it is the reverse; and
/// every negative number's key lies below every non-negative number's.
pub proof fn lemma_key_order(a: u32, b: u32)
    requires
        key_of_bits(a).is_some(),
        key_of_bits(b).is_some(),
    ensures
        a < SIGN_BIT && b < SIGN_BIT ==> (key_of_bits(a).unwrap() <= key_of_bits(b).unwrap() <==> a
            <= b),
        a >= SIGN_BIT && b >= SIGN_BIT ==> (key_of_bits(a).unwrap() <= key_of_bits(b).unwrap()
            <==> b <= a),
        a >= SIGN_BIT && b < SIGN_BIT ==> key_of_bits(a).unwrap() <= key_of_bits(b).unwrap(),
{
}

} // verus!
