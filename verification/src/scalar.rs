use vstd::prelude::*;
use vstd::arithmetic::power2::{
    lemma2_to64, lemma_pow2_adds, lemma_pow2_pos, lemma_pow2_unfold, pow2,
};

verus! {

/// The key of positive infinity. Every number has a key from `-INFINITY`
/// to `INFINITY`.
pub const INFINITY: i32 = 0x7f80_0000;

/// The key of the number one.
pub const ONE: i32 = 0x3f80_0000;

/// A single-precision number, kept as far as comparing goes. A number is
/// known by its key: a whole number that is smaller exactly when the
/// number is smaller. What is not a number has no key, and every
/// comparison with it is false.
#[derive(Clone, Copy, Debug, PartialEq, Eq, Structural)]
pub enum Scalar {
    Nan,
    Num(i32),
}

/// What the low 31 bits of a single-precision pattern amount to, in units
/// of 2^-149: the exponent field is `mag / 2^23` and the fraction field
/// `mag % 2^23`. Infinity counts as the power of two that follows the
/// greatest finite number.
pub open spec fn magnitude(mag: int) -> int {
    let exponent = mag / 0x80_0000;
    let fraction = mag % 0x80_0000;
    if exponent == 0 {
        fraction
    } else {
        (0x80_0000 + fraction) * pow2((exponent - 1) as nat)
    }
}

/// Whether the pattern stands for no number.
pub open spec fn is_nan(bits: u32) -> bool {
    bits % 0x8000_0000 > INFINITY
}

/// The number that a single-precision pattern stands for, in units of
/// 2^-149. The top bit is the sign.
pub open spec fn value(bits: u32) -> int {
    if bits >= 0x8000_0000 {
        -magnitude(bits - 0x8000_0000)
    } else {
        magnitude(bits as int)
    }
}

impl Scalar {
    /// The scalar that a single-precision bit pattern stands for.
    pub open spec fn spec_from_bits(bits: u32) -> Scalar {
        if is_nan(bits) {
            Scalar::Nan
        } else if bits >= 0x8000_0000 {
            Scalar::Num((0x8000_0000 - bits) as i32)
        } else {
            Scalar::Num(bits as i32)
        }
    }

    /// The key of a number.
    pub open spec fn key(self) -> int {
        match self {
            Scalar::Num(k) => k as int,
            Scalar::Nan => 0,
        }
    }

    /// Whether this is a distance along a ray: a number from zero up, short
    /// of infinity.
    pub open spec fn spec_is_distance(self) -> bool {
        self matches Scalar::Num(k) && 0 <= k < INFINITY
    }

    /// Whether both are numbers and `self` is the smaller one.
    pub open spec fn spec_lt(self, other: Scalar) -> bool {
        self matches Scalar::Num(a) && other matches Scalar::Num(b) && a < b
    }

    /// Whether both are numbers and `self` is the greater one.
    pub open spec fn spec_gt(self, other: Scalar) -> bool {
        other.spec_lt(self)
    }

    /// Reads a single-precision bit pattern. The two zeros read the same.
    #[verifier::when_used_as_spec(spec_from_bits)]
    pub fn from_bits(bits: u32) -> (s: Scalar)
        ensures
            s == Scalar::from_bits(bits),
    {
        let negative = bits >= 0x8000_0000;
        let mag: u32 = if negative {
            bits - 0x8000_0000
        } else {
            bits
        };
        if mag > 0x7f80_0000 {
            Scalar::Nan
        } else if negative {
            Scalar::Num(-(mag as i32))
        } else {
            Scalar::Num(mag as i32)
        }
    }

    /// Whether this is a distance along a ray: a number from zero up, short
    /// of infinity. Minus zero is zero.
    #[verifier::when_used_as_spec(spec_is_distance)]
    pub fn is_distance(self) -> (ahead: bool)
        ensures
            ahead == self.is_distance(),
    {
        match self {
            Scalar::Num(k) => 0 <= k && k < INFINITY,
            Scalar::Nan => false,
        }
    }

    /// Whether `self` is less than `other`. False where either is no number.
    #[verifier::when_used_as_spec(spec_lt)]
    pub fn lt(self, other: Scalar) -> (less: bool)
        ensures
            less == self.spec_lt(other),
    {
        match (self, other) {
            (Scalar::Num(a), Scalar::Num(b)) => a < b,
            _ => false,
        }
    }

    /// Whether `self` is greater than `other`. False where either is no
    /// number.
    #[verifier::when_used_as_spec(spec_gt)]
    pub fn gt(self, other: Scalar) -> (greater: bool)
        ensures
            greater == self.spec_gt(other),
    {
        other.lt(self)
    }
}

/// The next pattern up stands for a greater magnitude.
proof fn lemma_magnitude_step(mag: int)
    requires
        0 <= mag < INFINITY,
    ensures
        0 <= magnitude(mag) < magnitude(mag + 1),
{
    let exponent = mag / 0x80_0000;
    let fraction = mag % 0x80_0000;
    lemma2_to64();
    if fraction + 1 < 0x80_0000 {
        // The next pattern has the same exponent and the next fraction.
        assert((mag + 1) / 0x80_0000 == exponent && (mag + 1) % 0x80_0000 == fraction + 1);
        if exponent > 0 {
            let scale = pow2((exponent - 1) as nat);
            lemma_pow2_pos((exponent - 1) as nat);
            assert(0 <= (0x80_0000 + fraction) * scale < (0x80_0000 + (fraction + 1)) * scale)
                by (nonlinear_arith)
                requires
                    scale > 0,
                    fraction >= 0,
            ;
        }
    } else {
        // The next pattern has the next exponent and no fraction.
        assert((mag + 1) / 0x80_0000 == exponent + 1 && (mag + 1) % 0x80_0000 == 0);
        if exponent > 0 {
            let scale = pow2((exponent - 1) as nat);
            lemma_pow2_pos((exponent - 1) as nat);
            lemma_pow2_unfold(exponent as nat);
            assert(0 <= (0x80_0000 + fraction) * scale < 0x80_0000 * (2 * scale))
                by (nonlinear_arith)
                requires
                    scale > 0,
                    fraction == 0x7f_ffff,
            ;
        } else {
            assert(0x80_0000 * pow2(0) == 0x80_0000);
        }
    }
}

/// A greater pattern stands for a greater magnitude.
proof fn lemma_magnitude_increases(a: int, b: int)
    requires
        0 <= a < b <= INFINITY,
    ensures
        0 <= magnitude(a) < magnitude(b),
    decreases b - a,
{
    lemma_magnitude_step(b - 1);
    if a < b - 1 {
        lemma_magnitude_increases(a, b - 1);
    }
}

/// Keys order as the numbers do: of two patterns that stand for numbers,
/// the one with the smaller key stands for the smaller number, and equal
/// keys stand for equal numbers.
pub proof fn lemma_keys_order_as_values(a: u32, b: u32)
    requires
        !is_nan(a),
        !is_nan(b),
    ensures
        Scalar::from_bits(a).spec_lt(Scalar::from_bits(b)) <==> value(a) < value(b),
        Scalar::from_bits(a) == Scalar::from_bits(b) <==> value(a) == value(b),
{
    let ma: int = if a >= 0x8000_0000 { a - 0x8000_0000 } else { a as int };
    let mb: int = if b >= 0x8000_0000 { b - 0x8000_0000 } else { b as int };
    if ma > 0 {
        lemma_magnitude_increases(0, ma);
    }
    if mb > 0 {
        lemma_magnitude_increases(0, mb);
    }
    if ma < mb {
        lemma_magnitude_increases(ma, mb);
    } else if mb < ma {
        lemma_magnitude_increases(mb, ma);
    }
}

/// Numbers are in a strict order, and of two numbers one is the smaller
/// unless they are equal. What is no number stands outside the order.
pub proof fn lemma_order_is_strict_and_total(a: Scalar, b: Scalar, c: Scalar)
    ensures
        !a.spec_lt(a),
        a.spec_lt(b) ==> !b.spec_lt(a),
        a.spec_lt(b) && b.spec_lt(c) ==> a.spec_lt(c),
        a is Num && b is Num ==> a.spec_lt(b) || a == b || a.spec_gt(b),
        a is Nan ==> !a.spec_lt(b) && !a.spec_gt(b) && !b.spec_lt(a) && !b.spec_gt(a),
{
}

/// The key `ONE` is that of the number one, and `INFINITY` that of the
/// power of two above every finite number.
pub proof fn lemma_notable_keys()
    ensures
        Scalar::from_bits(0x3f80_0000) == Scalar::Num(ONE),
        value(0x3f80_0000) == pow2(149),
        Scalar::from_bits(0x7f80_0000) == Scalar::Num(INFINITY),
        value(0x7f80_0000) == pow2(128) * pow2(149),
        Scalar::from_bits(0) == Scalar::from_bits(0x8000_0000),
{
    lemma2_to64();
    lemma_pow2_adds(23, 126);
    lemma_pow2_adds(23, 254);
    lemma_pow2_adds(128, 149);
    assert(0x3f80_0000int / 0x80_0000 == 127 && 0x3f80_0000int % 0x80_0000 == 0);
    assert(0x7f80_0000int / 0x80_0000 == 255 && 0x7f80_0000int % 0x80_0000 == 0);
}

} // verus!
