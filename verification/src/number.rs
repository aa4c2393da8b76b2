//! Finite binary64 numbers, held by their bit pattern and ordered exactly.

use vstd::arithmetic::mul::*;
use vstd::arithmetic::power2::*;
use vstd::prelude::*;

verus! {

/// Two to the power 52: the weight of the hidden bit of a normal number.
pub const HIDDEN_BIT: u64 = 0x0010_0000_0000_0000;

/// Two to the power 63: the sign bit.
pub const SIGN_BIT: u64 = 0x8000_0000_0000_0000;

/// The magnitude (sign bit cleared) of positive infinity; every finite
/// number has a smaller magnitude.
pub const INFINITY_MAGNITUDE: u64 = 0x7ff0_0000_0000_0000;

/// The bit pattern with its sign bit cleared.
pub open spec fn magnitude_of(bits: u64) -> int {
    if bits >= SIGN_BIT {
        bits - SIGN_BIT
    } else {
        bits as int
    }
}

/// A bit pattern stands for a finite number when its exponent field is not
/// all ones.
pub open spec fn is_finite(bits: u64) -> bool {
    magnitude_of(bits) < INFINITY_MAGNITUDE
}

/// The exact value of a non-negative finite number with the given magnitude
/// bits, counted in units of the smallest positive number (two to the power
/// -1074). Subnormal numbers are their fraction field; a normal number with
/// exponent field `e` and fraction `f` is `(2^52 + f) * 2^(e - 1)`.
pub open spec fn units_of_magnitude(magnitude: int) -> int {
    let exponent = magnitude / (HIDDEN_BIT as int);
    let fraction = magnitude % (HIDDEN_BIT as int);
    if exponent <= 0 {
        fraction
    } else {
        (HIDDEN_BIT + fraction) * pow2((exponent - 1) as nat)
    }
}

/// The exact value of the finite number with the given bit pattern, in units
/// of two to the power -1074. Both zeros have the value 0.
pub open spec fn units_of(bits: u64) -> int {
    if bits >= SIGN_BIT {
        -units_of_magnitude(magnitude_of(bits))
    } else {
        units_of_magnitude(magnitude_of(bits))
    }
}

/// The signed magnitude of a bit pattern: the integer that the comparison
/// functions of [`Number`] compare.
pub open spec fn ordinal_of(bits: u64) -> int {
    if bits >= SIGN_BIT {
        -magnitude_of(bits)
    } else {
        magnitude_of(bits)
    }
}

/// The magnitude bits order non-negative numbers as their values do.
pub proof fn lemma_units_of_magnitude_increases(a: int, b: int)
    requires
        0 <= a < b,
    ensures
        0 <= units_of_magnitude(a) < units_of_magnitude(b),
{
    let h: int = HIDDEN_BIT as int;
    let ea: int = a / h;
    let fa: int = a % h;
    let eb: int = b / h;
    let fb: int = b % h;
    assert(a == h * ea + fa && 0 <= fa < h && 0 <= ea) by {
        vstd::arithmetic::div_mod::lemma_fundamental_div_mod(a, h);
        vstd::arithmetic::div_mod::lemma_div_pos_is_pos(a, h);
    }
    assert(b == h * eb + fb && 0 <= fb < h && 0 <= eb) by {
        vstd::arithmetic::div_mod::lemma_fundamental_div_mod(b, h);
        vstd::arithmetic::div_mod::lemma_div_pos_is_pos(b, h);
    }
    assert(ea <= eb) by {
        vstd::arithmetic::div_mod::lemma_div_is_ordered(a, b, h);
    }
    if ea == eb {
        if ea > 0 {
            let p: int = pow2((ea - 1) as nat) as int;
            lemma_pow2_pos((ea - 1) as nat);
            lemma_mul_strict_inequality(h + fa, h + fb, p);
            lemma_mul_inequality(0, h + fa, p);
        }
    } else {
        // Every number of a lower binade lies below 2^52 * 2^ea, and every
        // number of a higher binade at or above it.
        let pb: int = pow2((eb - 1) as nat) as int;
        lemma_pow2_pos((eb - 1) as nat);
        let floor: int = h * (pow2(ea as nat) as int);
        lemma_pow2_pos(ea as nat);
        assert(units_of_magnitude(a) < floor) by {
            if ea == 0 {
                lemma2_to64();
            } else {
                let pa: int = pow2((ea - 1) as nat) as int;
                lemma_pow2_pos((ea - 1) as nat);
                lemma_pow2_unfold(ea as nat);
                lemma_mul_strict_inequality(h + fa, 2 * h, pa);
            }
        }
        assert(0 <= units_of_magnitude(a)) by {
            if ea > 0 {
                let pa: int = pow2((ea - 1) as nat) as int;
                lemma_pow2_pos((ea - 1) as nat);
                lemma_mul_inequality(0, h + fa, pa);
            }
        }
        assert(floor <= units_of_magnitude(b)) by {
            if ea < eb - 1 {
                lemma_pow2_strictly_increases(ea as nat, (eb - 1) as nat);
            }
            lemma_mul_inequality(pow2(ea as nat) as int, pb, h);
            assert(h * (pow2(ea as nat) as int) == (pow2(ea as nat) as int) * h)
                by (nonlinear_arith);
            assert(pb * h <= (h + fb) * pb) by (nonlinear_arith)
                requires
                    0 <= fb,
                    0 < pb,
            ;
        }
    }
}

/// The signed magnitudes of two bit patterns are ordered as the values
/// that the patterns stand for.
pub proof fn lemma_ordinal_orders_units(a: u64, b: u64)
    ensures
        ordinal_of(a) <= ordinal_of(b) <==> units_of(a) <= units_of(b),
        ordinal_of(a) < ordinal_of(b) <==> units_of(a) < units_of(b),
        ordinal_of(a) == ordinal_of(b) <==> units_of(a) == units_of(b),
{
    let ma: int = magnitude_of(a);
    let mb: int = magnitude_of(b);
    if ma < mb {
        lemma_units_of_magnitude_increases(ma, mb);
    } else if mb < ma {
        lemma_units_of_magnitude_increases(mb, ma);
    }
    if 0 < ma {
        lemma_units_of_magnitude_increases(0, ma);
    }
    if 0 < mb {
        lemma_units_of_magnitude_increases(0, mb);
    }
}

/// A finite JSON number. It is held as the bit pattern of a binary64
/// floating-point number and is never an infinity or a NaN.
///
/// Its view is its exact value as an integer count of units of two to the
/// power -1074, so contracts compare numbers as mathematical values.
#[derive(Clone, Copy, Debug)]
pub struct Number {
    bits: u64,
}

impl View for Number {
    type V = int;

    open spec fn view(&self) -> int {
        units_of(self.spec_to_bits())
    }
}

impl Number {
    #[verifier::type_invariant]
    spec fn well_formed(self) -> bool {
        is_finite(self.bits)
    }

    /// The bit pattern of the number.
    pub closed spec fn spec_to_bits(self) -> u64 {
        self.bits
    }

    /// The number with the given binary64 bit pattern, or `None` where the
    /// pattern is an infinity or a NaN.
    pub fn from_bits(bits: u64) -> (number: Option<Number>)
        ensures
            number is Some <==> is_finite(bits),
            number matches Some(n) ==> n.spec_to_bits() == bits,
    {
        let magnitude: u64 = if bits >= SIGN_BIT {
            bits - SIGN_BIT
        } else {
            bits
        };
        if magnitude < INFINITY_MAGNITUDE {
            Some(Number { bits })
        } else {
            None
        }
    }

    /// The number that the integer `n` is. Every 32-bit integer is a number
    /// exactly: one is two to the power 1074 units.
    pub fn from_i32(n: i32) -> (number: Number)
        ensures
            number@ == n * pow2(1074),
    {
        if n == 0 {
            return Number { bits: 0 };
        }
        let negative: bool = n < 0;
        let magnitude: u64 = if negative {
            (-(n as i64)) as u64
        } else {
            n as u64
        };
        // The place of the leading bit: top == 2^place <= magnitude < 2^(place + 1).
        let mut top: u64 = 1;
        let mut place: u64 = 0;
        proof {
            lemma2_to64();
        }
        while top <= magnitude / 2
            invariant
                top == pow2(place as nat),
                1 <= top <= magnitude <= 0x8000_0000,
                place <= 31,
            decreases magnitude - top,
        {
            proof {
                lemma2_to64();
                lemma_pow2_unfold((place + 1) as nat);
                if place >= 31 {
                    lemma_pow2_strictly_increases(31, (place + 1) as nat);
                }
            }
            top = top * 2;
            place = place + 1;
        }
        // The bits below the leading one, moved up to the top of the fraction field.
        let mut fraction: u64 = magnitude - top;
        let mut shift: u64 = place;
        proof {
            lemma2_to64();
            assert(pow2((shift - place) as nat) == 1);
        }
        while shift < 52
            invariant
                place <= shift <= 52,
                top == pow2(place as nat),
                top <= magnitude < 2 * top,
                fraction == (magnitude - top) * pow2((shift - place) as nat),
                fraction < pow2(shift as nat),
            decreases 52 - shift,
        {
            proof {
                lemma_pow2_unfold((shift + 1 - place) as nat);
                lemma_pow2_unfold((shift + 1) as nat);
                lemma2_to64_rest();
                if shift + 1 < 52 {
                    lemma_pow2_strictly_increases((shift + 1) as nat, 52);
                }
                assert((magnitude - top) * (2 * pow2((shift - place) as nat)) == 2 * ((magnitude
                    - top) * pow2((shift - place) as nat))) by (nonlinear_arith);
            }
            fraction = fraction * 2;
            shift = shift + 1;
        }
        proof {
            lemma2_to64_rest();
        }
        let field: u64 = (1023 + place) * HIDDEN_BIT + fraction;
        let bits: u64 = if negative {
            field + SIGN_BIT
        } else {
            field
        };
        proof {
            let h: int = HIDDEN_BIT as int;
            let e: int = 1023 + place;
            vstd::arithmetic::div_mod::lemma_fundamental_div_mod_converse(
                field as int,
                h,
                e,
                fraction as int,
            );
            let low: int = pow2((52 - place) as nat) as int;
            let high: int = pow2((1022 + place) as nat) as int;
            lemma_pow2_adds(place as nat, (52 - place) as nat);
            lemma_pow2_adds((52 - place) as nat, (1022 + place) as nat);
            assert(h + fraction == magnitude * low) by (nonlinear_arith)
                requires
                    h == top * low,
                    fraction == (magnitude - top) * low,
            ;
            assert((magnitude * low) * high == magnitude * (low * high)) by (nonlinear_arith);
            assert((-(magnitude as int)) * pow2(1074) == -(magnitude * pow2(1074)))
                by (nonlinear_arith);
        }
        Number { bits }
    }

    /// The binary64 bit pattern of the number.
    #[verifier::when_used_as_spec(spec_to_bits)]
    pub fn to_bits(self) -> (bits: u64)
        ensures
            bits == self.spec_to_bits(),
            is_finite(bits),
    {
        proof {
            use_type_invariant(&self);
        }
        self.bits
    }

    /// The signed magnitude of the bit pattern.
    fn ordinal(&self) -> (ordinal: i64)
        ensures
            ordinal == ordinal_of(self.spec_to_bits()),
    {
        proof {
            use_type_invariant(self);
        }
        if self.bits >= SIGN_BIT {
            let magnitude: u64 = self.bits - SIGN_BIT;
            -(magnitude as i64)
        } else {
            self.bits as i64
        }
    }

    /// Whether this number is less than or equal to `other`.
    pub fn le(&self, other: &Number) -> (holds: bool)
        ensures
            holds == (self@ <= other@),
    {
        proof {
            lemma_ordinal_orders_units(self.spec_to_bits(), other.spec_to_bits());
        }
        self.ordinal() <= other.ordinal()
    }

    /// Whether this number is strictly less than `other`.
    pub fn lt(&self, other: &Number) -> (holds: bool)
        ensures
            holds == (self@ < other@),
    {
        proof {
            lemma_ordinal_orders_units(self.spec_to_bits(), other.spec_to_bits());
        }
        self.ordinal() < other.ordinal()
    }
}

} // verus!
