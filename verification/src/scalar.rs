use vstd::arithmetic::div_mod::lemma_fundamental_div_mod_converse;
use vstd::arithmetic::power2::{
    lemma2_to64, lemma_pow2_adds, lemma_pow2_pos, lemma_pow2_strictly_increases,
    lemma_pow2_unfold, pow2,
};
use vstd::prelude::*;

verus! {

/// The bits of a binary32 number below its sign.
pub const MAGNITUDE_MASK: u32 = 0x7fff_ffff;

/// The bit pattern of the tolerance of approximate equality, the binary32
/// number nearest to one hundred-thousandth.
pub const EPSILON_BITS: u32 = 0x3727_c5ac;

/// An IEEE-754 binary32 number, held as its bit pattern.
///
/// Two scalars are equal when their bits are: the two zeros differ, and a NaN
/// equals itself.
#[derive(Clone, Copy, Debug, PartialEq, Eq, Structural)]
pub struct Scalar {
    pub bits: u32,
}

impl Scalar {
    /// True when the sign bit is set.
    pub open spec fn spec_sign(self) -> bool {
        self.bits >= 0x8000_0000
    }

    /// The pattern without its sign bit, as a number.
    pub open spec fn spec_magnitude(self) -> int {
        self.bits as int % 0x8000_0000
    }

    /// True of the two zeros, positive and negative, and of nothing else.
    pub open spec fn spec_is_zero(self) -> bool {
        self.spec_magnitude() == 0
    }

    /// The eight bits of the exponent, as a number.
    pub open spec fn spec_exponent(self) -> int {
        self.spec_magnitude() / 0x80_0000
    }

    /// The 23 bits of the fraction, as a number.
    pub open spec fn spec_fraction(self) -> int {
        self.spec_magnitude() % 0x80_0000
    }

    /// True of every pattern that is neither an infinity nor a NaN.
    pub open spec fn spec_is_finite(self) -> bool {
        self.spec_magnitude() < 0x7f80_0000
    }

    /// The absolute value of a finite number, counted in units of two to the
    /// power of -149, the smallest positive number of the format: a whole
    /// number for every finite pattern.
    pub open spec fn spec_scaled_magnitude(self) -> int {
        if self.spec_exponent() == 0 {
            self.spec_fraction()
        } else {
            (0x80_0000 + self.spec_fraction()) * pow2((self.spec_exponent() - 1) as nat)
        }
    }

    /// True when the pattern is the whole number `v`, with positive zero for
    /// zero.
    pub open spec fn spec_is_integer(self, v: int) -> bool {
        &&& self.spec_is_finite()
        &&& self.spec_sign() == (v < 0)
        &&& self.spec_scaled_magnitude() == (if v < 0 {
            -v
        } else {
            v
        }) * pow2(149)
    }

    /// The pattern with its sign bit cleared.
    pub open spec fn spec_abs(self) -> Scalar {
        Scalar { bits: self.spec_magnitude() as u32 }
    }

    /// True when the number is finite and its absolute value is at most the
    /// tolerance of approximate equality.
    pub open spec fn spec_within_tolerance(self) -> bool {
        self.spec_is_finite() && self.spec_scaled_magnitude() <= (Scalar {
            bits: EPSILON_BITS,
        }).spec_scaled_magnitude()
    }

    /// The scalar with the given bit pattern.
    pub fn from_bits(bits: u32) -> (r: Scalar)
        ensures
            r.bits == bits,
    {
        Scalar { bits }
    }

    /// The bit pattern of the scalar.
    pub fn to_bits(self) -> (r: u32)
        ensures
            r == self.bits,
    {
        self.bits
    }

    /// Positive zero.
    pub fn zero() -> (r: Scalar)
        ensures
            r.bits == 0,
            r.spec_is_zero(),
    {
        Scalar { bits: 0 }
    }

    /// The scalar that a 16-bit signed integer is promoted to. Every such
    /// integer is a binary32 number, so nothing is rounded.
    pub fn from_i16(v: i16) -> (r: Scalar)
        ensures
            r.spec_is_integer(v as int),
            forall|other: Scalar| other.spec_is_integer(v as int) ==> other == r,
    {
        if v == 0 {
            let r = Scalar { bits: 0 };
            proof {
                assert(r.spec_magnitude() == 0);
                assert(r.spec_exponent() == 0);
                assert(r.spec_fraction() == 0);
                assert(0 * pow2(149) == 0) by (nonlinear_arith);
                assert(r.spec_is_integer(0));
                assert forall|other: Scalar| other.spec_is_integer(0) implies other == r by {
                    lemma_integer_unique(other, r, 0);
                }
            }
            return r;
        }
        let negative = v < 0;
        let mag: u32 = if negative {
            (-(v as i32)) as u32
        } else {
            v as u32
        };
        let mut k: u32 = 15;
        let mut top: u32 = 0x8000;
        let mut scale: u32 = 0x100;
        proof {
            lemma2_to64();
        }
        while mag < top
            invariant
                1 <= mag <= 0x8000,
                k <= 15,
                top == pow2(k as nat),
                scale == pow2((23 - k) as nat),
                top * scale == 0x80_0000,
                1 <= top <= 0x8000,
                mag < 2 * top,
            decreases k,
        {
            proof {
                lemma2_to64();
                lemma_pow2_unfold(k as nat);
                lemma_pow2_unfold((24 - k) as nat);
                assert((top / 2) * (scale * 2) == top * scale) by (nonlinear_arith)
                    requires
                        top % 2 == 0,
                ;
            }
            k -= 1;
            top /= 2;
            scale *= 2;
        }
        assert((mag - top) * scale < 0x80_0000 && (mag - top) * scale >= 0 && 0x80_0000
            + (mag - top) * scale == mag * scale) by (nonlinear_arith)
            requires
                top <= mag < 2 * top,
                top * scale == 0x80_0000,
                scale >= 0,
        ;
        let fraction: u32 = (mag - top) * scale;
        let magnitude: u32 = (127 + k) * 0x80_0000 + fraction;
        let bits: u32 = if negative {
            magnitude + 0x8000_0000
        } else {
            magnitude
        };
        let r = Scalar { bits };
        proof {
            assert(r.spec_magnitude() == magnitude);
            lemma_fundamental_div_mod_converse(
                magnitude as int,
                0x80_0000,
                127 + k as int,
                fraction as int,
            );
            assert(r.spec_exponent() == 127 + k);
            assert(r.spec_fraction() == fraction);
            lemma_pow2_adds((23 - k) as nat, (126 + k) as nat);
            assert(pow2((23 - k) as nat) * pow2((126 + k) as nat) == pow2(149));
            assert((mag * scale) * pow2((126 + k) as nat) == mag * pow2(149))
                by (nonlinear_arith)
                requires
                    scale * pow2((126 + k) as nat) == pow2(149),
            ;
            assert forall|other: Scalar| other.spec_is_integer(v as int) implies other == r by {
                lemma_integer_unique(other, r, v as int);
            }
        }
        r
    }

    /// Whether the number compares equal to zero: exactly, with no tolerance.
    pub fn is_zero(self) -> (r: bool)
        ensures
            r == self.spec_is_zero(),
    {
        let b: u32 = self.bits;
        assert((b & 0x7fff_ffff) == b % 0x8000_0000) by (bit_vector);
        (b & MAGNITUDE_MASK) == 0
    }

    /// The absolute value.
    pub fn abs(self) -> (r: Scalar)
        ensures
            r == self.spec_abs(),
    {
        let b: u32 = self.bits;
        assert((b & 0x7fff_ffff) == b % 0x8000_0000) by (bit_vector);
        Scalar { bits: b & MAGNITUDE_MASK }
    }

    /// Whether a difference of two entries is small enough for the entries to
    /// count as equal. A NaN and an infinity are not.
    pub fn within_tolerance(self) -> (r: bool)
        ensures
            r == self.spec_within_tolerance(),
    {
        proof {
            lemma_tolerance_is_order(self);
        }
        self.abs().bits <= EPSILON_BITS
    }
}

/// Decodes a scalar that was offered from outside: the number itself where
/// it could be read as a binary32 number, else the 16-bit signed integer that
/// it could be read as, promoted; nothing where it could be read as neither.
pub fn decode_float(as_float: Option<Scalar>, as_integer: Option<i16>) -> (r: Option<Scalar>)
    ensures
        match (as_float, as_integer) {
            (Some(x), _) => r == Some(x),
            (None, Some(v)) => r is Some && r->Some_0.spec_is_integer(v as int) && forall|
                other: Scalar,
            |
                other.spec_is_integer(v as int) ==> other == r->Some_0,
            (None, None) => r is None,
        },
{
    match as_float {
        Some(x) => Some(x),
        None => match as_integer {
            Some(v) => Some(Scalar::from_i16(v)),
            None => None,
        },
    }
}

/// A larger pattern below the sign is a larger absolute value.
proof fn lemma_magnitude_increases(a: Scalar, b: Scalar)
    requires
        a.spec_magnitude() < b.spec_magnitude(),
    ensures
        a.spec_scaled_magnitude() < b.spec_scaled_magnitude(),
{
    let ea = a.spec_exponent();
    let eb = b.spec_exponent();
    let fa = a.spec_fraction();
    let fb = b.spec_fraction();
    assert(a.spec_magnitude() == ea * 0x80_0000 + fa);
    assert(b.spec_magnitude() == eb * 0x80_0000 + fb);
    assert(0 <= ea <= eb);
    if ea == eb {
        if ea != 0 {
            let p = pow2((ea - 1) as nat) as int;
            lemma_pow2_pos((ea - 1) as nat);
            assert((0x80_0000 + fa) * p < (0x80_0000 + fb) * p) by (nonlinear_arith)
                requires
                    fa < fb,
                    p > 0,
            ;
        }
    } else {
        let q = pow2((eb - 1) as nat) as int;
        lemma_pow2_pos((eb - 1) as nat);
        assert(0x80_0000 <= (0x80_0000 + fb) * q) by (nonlinear_arith)
            requires
                fb >= 0,
                q >= 1,
        ;
        if ea != 0 {
            let p = pow2((ea - 1) as nat) as int;
            lemma_pow2_pos((ea - 1) as nat);
            lemma_pow2_unfold(ea as nat);
            if ea < eb - 1 {
                lemma_pow2_strictly_increases(ea as nat, (eb - 1) as nat);
            }
            assert((0x80_0000 + fa) * p < (0x80_0000 + fb) * q) by (nonlinear_arith)
                requires
                    0 <= fa < 0x80_0000,
                    fb >= 0,
                    p > 0,
                    2 * p <= q,
            ;
        }
    }
}

/// The order of two patterns below their signs is the order of the absolute
/// values of the two numbers.
pub proof fn lemma_magnitude_orders(a: Scalar, b: Scalar)
    ensures
        a.spec_magnitude() < b.spec_magnitude() <==> a.spec_scaled_magnitude()
            < b.spec_scaled_magnitude(),
        a.spec_magnitude() == b.spec_magnitude() <==> a.spec_scaled_magnitude()
            == b.spec_scaled_magnitude(),
{
    if a.spec_magnitude() < b.spec_magnitude() {
        lemma_magnitude_increases(a, b);
    }
    if b.spec_magnitude() < a.spec_magnitude() {
        lemma_magnitude_increases(b, a);
    }
}

/// The tolerance is 10995116 times two to the power of -40, and a number is
/// within it exactly when its pattern below the sign is at most that of the
/// tolerance.
pub proof fn lemma_tolerance_is_order(x: Scalar)
    ensures
        (Scalar { bits: EPSILON_BITS }).spec_scaled_magnitude() == 10995116 * pow2(109),
        x.spec_within_tolerance() <==> x.spec_magnitude() <= EPSILON_BITS,
{
    let e = Scalar { bits: EPSILON_BITS };
    assert(e.spec_magnitude() == 0x3727_c5ac);
    assert(e.spec_exponent() == 110);
    assert(e.spec_fraction() == 0x27_c5ac);
    lemma_magnitude_orders(x, e);
}

/// One pattern only is a given whole number.
pub proof fn lemma_integer_unique(a: Scalar, b: Scalar, v: int)
    requires
        a.spec_is_integer(v),
        b.spec_is_integer(v),
    ensures
        a == b,
{
    lemma_magnitude_orders(a, b);
}

} // verus!
