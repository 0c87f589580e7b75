use vstd::prelude::*;
use vstd::arithmetic::power2::pow2;
use vstd::arithmetic::power2::lemma2_to64;
use vstd::arithmetic::power2::lemma_pow2_strictly_increases;
use vstd::bits::lemma_u64_shr_is_div;
use vstd::bits::lemma_u64_shl_is_mul;
use vstd::bits::lemma_u32_shr_is_div;

verus! {

/// Bit 63 of a double: the sign.
pub const SIGN_BIT: u64 = 0x8000_0000_0000_0000;

/// Bits 0..=62 of a double: exponent and fraction.
pub const MAGNITUDE_MASK: u64 = 0x7fff_ffff_ffff_ffff;

/// The magnitude of an infinity; every larger magnitude is a NaN.
pub const INFINITY_BITS: u64 = 0x7ff0_0000_0000_0000;

/// The low 52 bits of a double: the fraction.
pub const FRACTION_MASK: u64 = 0x000f_ffff_ffff_ffff;

/// The implicit leading bit of a normal double's significand.
pub const HIDDEN_BIT: u64 = 0x0010_0000_0000_0000;

/// The bit pattern of the single-precision number one.
pub const ONE_SINGLE: u32 = 0x3f80_0000;

/// A double-precision number, held as its IEEE-754 bit pattern.
#[derive(Clone, Copy, Debug, PartialEq, Eq, Structural)]
pub struct Num {
    pub bits: u64,
}

/// A single-precision number, held as its IEEE-754 bit pattern.
#[derive(Clone, Copy, Debug, PartialEq, Eq, Structural)]
pub struct Single {
    pub bits: u32,
}

impl Num {
    /// Exponent and fraction, without the sign.
    pub open spec fn magnitude(self) -> u64 {
        self.bits & MAGNITUDE_MASK
    }

    pub open spec fn negative(self) -> bool {
        self.bits & SIGN_BIT != 0
    }

    pub open spec fn nan(self) -> bool {
        self.magnitude() > INFINITY_BITS
    }

    /// Positive or negative zero.
    pub open spec fn zero(self) -> bool {
        self.magnitude() == 0
    }

    /// The position of a number that is not a NaN on the number line:
    /// doubles of one sign are ordered as their magnitudes are.
    pub open spec fn rank(self) -> int {
        if self.negative() {
            -(self.magnitude() as int)
        } else {
            self.magnitude() as int
        }
    }

    /// `self < other` as IEEE-754 defines it: false when either is a NaN.
    pub open spec fn below(self, other: Num) -> bool {
        !self.nan() && !other.nan() && self.rank() < other.rank()
    }

    /// The biased exponent field.
    pub open spec fn exponent(self) -> u64 {
        (self.bits >> 52) & 0x7ff
    }

    /// The significand of a normal number, hidden bit included.
    pub open spec fn significand(self) -> u64 {
        (self.bits & FRACTION_MASK) | HIDDEN_BIT
    }

    /// The number truncated toward zero to an unsigned 64-bit integer:
    /// NaN and everything below one give 0, everything from 2^64 up gives
    /// the largest integer.
    pub open spec fn index(self) -> u64 {
        if self.nan() || self.negative() || self.exponent() < 1023 {
            0
        } else if self.exponent() >= 1087 {
            u64::MAX
        } else if self.exponent() <= 1075 {
            self.significand() >> ((1075 - self.exponent()) as u64)
        } else {
            self.significand() << ((self.exponent() - 1075) as u64)
        }
    }

    pub fn from_bits(bits: u64) -> (r: Num)
        ensures
            r.bits == bits,
    {
        Num { bits }
    }

    pub fn to_bits(&self) -> (r: u64)
        ensures
            r == self.bits,
    {
        self.bits
    }

    pub fn is_nan(&self) -> (r: bool)
        ensures
            r == self.nan(),
    {
        (self.bits & MAGNITUDE_MASK) > INFINITY_BITS
    }

    pub fn is_zero(&self) -> (r: bool)
        ensures
            r == self.zero(),
    {
        (self.bits & MAGNITUDE_MASK) == 0
    }

    pub fn is_negative(&self) -> (r: bool)
        ensures
            r == self.negative(),
    {
        (self.bits & SIGN_BIT) != 0
    }

    /// Strict order of two numbers.
    pub fn lt(&self, other: &Num) -> (r: bool)
        ensures
            r == self.below(*other),
    {
        let a: u64 = self.bits & MAGNITUDE_MASK;
        let b: u64 = other.bits & MAGNITUDE_MASK;
        if a > INFINITY_BITS || b > INFINITY_BITS {
            false
        } else if self.is_negative() {
            if other.is_negative() {
                a > b
            } else {
                a != 0 || b != 0
            }
        } else {
            if other.is_negative() {
                false
            } else {
                a < b
            }
        }
    }

    pub fn gt(&self, other: &Num) -> (r: bool)
        ensures
            r == other.below(*self),
    {
        other.lt(self)
    }

    /// Truncates toward zero, saturating at both ends of `u64`.
    pub fn to_index(&self) -> (r: u64)
        ensures
            r == self.index(),
    {
        let bits: u64 = self.bits;
        let e: u64 = (bits >> 52) & 0x7ff;
        assert(e <= 0x7ff) by (bit_vector)
            requires
                e == (bits >> 52) & 0x7ff,
        ;
        if self.is_nan() || self.is_negative() || e < 1023 {
            0
        } else if e >= 1087 {
            u64::MAX
        } else {
            let m: u64 = (self.bits & FRACTION_MASK) | HIDDEN_BIT;
            if e <= 1075 {
                m >> (1075 - e)
            } else {
                m << (e - 1075)
            }
        }
    }
}

impl Single {
    pub open spec fn nan(self) -> bool {
        (self.bits & 0x7fff_ffff) > 0x7f80_0000
    }

    pub open spec fn negative(self) -> bool {
        self.bits & 0x8000_0000 != 0
    }

    /// The biased exponent field.
    pub open spec fn exponent(self) -> u32 {
        (self.bits >> 23) & 0xff
    }

    /// The significand of a normal number, hidden bit included.
    pub open spec fn significand(self) -> u32 {
        (self.bits & 0x007f_ffff) | 0x0080_0000
    }

    /// The number clamped to `[0, 255]` and truncated toward zero; a NaN
    /// gives 0.
    pub open spec fn channel(self) -> u8 {
        if self.nan() || self.negative() || self.exponent() < 127 {
            0
        } else if self.exponent() >= 135 {
            255
        } else {
            (self.significand() >> ((150 - self.exponent()) as u32)) as u8
        }
    }

    /// Positive or negative zero.
    pub open spec fn zero(self) -> bool {
        self.bits & 0x7fff_ffff == 0
    }

    /// The number held to the range from zero to one: a negative number
    /// becomes zero, a number above one becomes one, and a NaN, a zero of
    /// either sign and everything between zero and one stay as they are.
    pub open spec fn unit_clamped(self) -> Single {
        if self.nan() || self.zero() {
            self
        } else if self.negative() {
            Single { bits: 0 }
        } else if self.bits > ONE_SINGLE {
            Single { bits: ONE_SINGLE }
        } else {
            self
        }
    }

    /// Holds a ratio to the range from zero to one.
    pub fn clamp_unit(&self) -> (r: Single)
        ensures
            r == self.unit_clamped(),
    {
        let magnitude: u32 = self.bits & 0x7fff_ffff;
        if magnitude > 0x7f80_0000 || magnitude == 0 {
            *self
        } else if (self.bits & 0x8000_0000) != 0 {
            Single { bits: 0 }
        } else if self.bits > ONE_SINGLE {
            Single { bits: ONE_SINGLE }
        } else {
            *self
        }
    }

    pub fn from_bits(bits: u32) -> (r: Single)
        ensures
            r.bits == bits,
    {
        Single { bits }
    }

    pub fn to_bits(&self) -> (r: u32)
        ensures
            r == self.bits,
    {
        self.bits
    }

    /// Clamps to a colour channel and truncates toward zero.
    pub fn to_channel(&self) -> (r: u8)
        ensures
            r == self.channel(),
    {
        let e: u32 = (self.bits >> 23) & 0xff;
        if (self.bits & 0x7fff_ffff) > 0x7f80_0000 || (self.bits & 0x8000_0000) != 0 || e < 127 {
            0
        } else if e >= 135 {
            255
        } else {
            let bits: u32 = self.bits;
            let m: u32 = (bits & 0x007f_ffff) | 0x0080_0000;
            let s: u32 = 150 - e;
            let t: u32 = m >> s;
            assert(t <= 255) by (bit_vector)
                requires
                    t == m >> s,
                    m == (bits & 0x007f_ffffu32) | 0x0080_0000u32,
                    16 <= s <= 23,
            ;
            t as u8
        }
    }
}

/// The order of numbers is strict: nothing is below itself, and of two
/// numbers at most one is below the other.
pub proof fn lemma_below_is_strict(a: Num, b: Num)
    ensures
        !a.below(a),
        !(a.below(b) && b.below(a)),
{
}

/// A clamped ratio is a NaN only if the ratio was one; otherwise it is not
/// negative, unless it is the negative zero, and not above one.
pub proof fn lemma_unit_clamped_range(ratio: Single)
    ensures
        ratio.unit_clamped().nan() == ratio.nan(),
        !ratio.nan() ==> ratio.unit_clamped().zero() || (!ratio.unit_clamped().negative()
            && ratio.unit_clamped().bits <= ONE_SINGLE),
        ratio.unit_clamped().unit_clamped() == ratio.unit_clamped(),
{
    let b = ratio.bits;
    assert((0u32 & 0x7fff_ffffu32) == 0u32) by (bit_vector);
    assert((0x3f80_0000u32 & 0x7fff_ffffu32) == 0x3f80_0000u32) by (bit_vector);
    assert((0x3f80_0000u32 & 0x8000_0000u32) == 0u32) by (bit_vector);
    assert((b & 0x8000_0000u32) == 0u32 ==> (b & 0x7fff_ffffu32) == b) by (bit_vector);
}

/// Both zeros are the same number to the order: neither is below the other.
pub proof fn lemma_zeros_are_equal(a: Num, b: Num)
    requires
        a.zero(),
        b.zero(),
    ensures
        !a.below(b),
        !b.below(a),
{
}

/// A positive number with the exponent field `e` is its significand times
/// two to the power of `e` less 1075. Its index is that product rounded
/// down: the number truncated toward zero.
pub proof fn lemma_index_is_truncation(n: Num)
    requires
        !n.nan(),
        !n.negative(),
        1023 <= n.exponent() < 1087,
    ensures
        n.exponent() <= 1075 ==> n.index() as nat == n.significand() as nat / pow2(
            (1075 - n.exponent()) as nat,
        ),
        n.exponent() > 1075 ==> n.index() as nat == n.significand() as nat * pow2(
            (n.exponent() - 1075) as nat,
        ),
{
    let m = n.significand();
    let e = n.exponent();
    let bits = n.bits;
    assert(m < 0x20_0000_0000_0000) by (bit_vector)
        requires
            m == (bits & 0x000f_ffff_ffff_ffffu64) | 0x0010_0000_0000_0000u64,
    ;
    if e <= 1075 {
        lemma_u64_shr_is_div(m, (1075 - e) as u64);
    } else {
        let shift = (e - 1075) as u64;
        lemma2_to64();
        if shift < 11 {
            lemma_pow2_strictly_increases(shift as nat, 11);
        }
        assert(m * pow2(shift as nat) <= u64::MAX) by (nonlinear_arith)
            requires
                m < 0x20_0000_0000_0000,
                pow2(shift as nat) <= 2048,
        ;
        lemma_u64_shl_is_mul(m, shift);
    }
}

/// A single-precision number from one up to below 256 is its significand
/// times two to the power of its exponent field less 150. Its channel is
/// that product rounded down.
pub proof fn lemma_channel_is_truncation(x: Single)
    requires
        !x.nan(),
        !x.negative(),
        127 <= x.exponent() < 135,
    ensures
        x.channel() as nat == x.significand() as nat / pow2((150 - x.exponent()) as nat),
{
    let m = x.significand();
    let s = (150 - x.exponent()) as u32;
    let bits = x.bits;
    let t = m >> s;
    assert(t <= 255) by (bit_vector)
        requires
            t == m >> s,
            m == (bits & 0x007f_ffffu32) | 0x0080_0000u32,
            16 <= s <= 23,
    ;
    lemma_u32_shr_is_div(m, s);
}

} // verus!
