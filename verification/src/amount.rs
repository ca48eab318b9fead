//! Amounts in the binary64 format of IEEE 754, held by their bit patterns.
//!
//! A finite amount is a whole number of units of 2^-1074, the smallest amount of
//! the format, so amounts are compared through `units`.
use vstd::arithmetic::mul::{
    lemma_mul_inequality, lemma_mul_is_associative, lemma_mul_is_commutative,
    lemma_mul_strict_inequality,
};
use vstd::arithmetic::power2::{
    lemma2_to64, lemma2_to64_rest, lemma_pow2_adds, lemma_pow2_pos, lemma_pow2_strictly_increases,
    lemma_pow2_unfold, pow2,
};
use vstd::prelude::*;

verus! {

/// An amount, by its bit pattern.
#[derive(Clone, Copy, Debug, PartialEq, Eq, Structural)]
pub struct Amount {
    pub bits: u64,
}

/// The bit pattern of 0.01.
pub const HUNDREDTH: u64 = 0x3f84_7ae1_47ae_147b;

/// The bit pattern of 0.05.
pub const TWENTIETH: u64 = 0x3fa9_9999_9999_999a;

/// The bit pattern of 0.
pub const ZERO: u64 = 0;

/// The bit pattern of 1.
pub const ONE: u64 = 0x3ff0_0000_0000_0000;

/// The bit pattern of 2.
pub const TWO: u64 = 0x4000_0000_0000_0000;

/// The bit pattern of 15.
pub const FIFTEEN: u64 = 0x402e_0000_0000_0000;

/// The bit pattern of 1000.
pub const THOUSAND: u64 = 0x408f_4000_0000_0000;

/// The bit pattern of 19 000 000.
pub const NINETEEN_MILLION: u64 = 0x4172_1eac_0000_0000;

/// The number of units in the amount 1.
pub open spec fn unit_count() -> nat {
    pow2(1074)
}

/// The units of the amount without its sign: `m` is a bit pattern whose sign bit is
/// clear, 11 bits of exponent above 52 bits of fraction. An infinity comes out above
/// every finite amount.
pub open spec fn magnitude_units(m: int) -> int {
    let exponent = m / 0x10_0000_0000_0000;
    let fraction = m % 0x10_0000_0000_0000;
    if exponent == 0 {
        fraction
    } else {
        (0x10_0000_0000_0000 + fraction) * pow2((exponent - 1) as nat)
    }
}

impl Amount {
    /// The bit pattern without the sign bit.
    pub open spec fn magnitude(self) -> int {
        self.bits as int % 0x8000_0000_0000_0000
    }

    /// Whether the sign bit is set.
    pub open spec fn negative(self) -> bool {
        self.bits >= 0x8000_0000_0000_0000
    }

    /// Whether the pattern stands for no amount at all.
    pub open spec fn is_nan(self) -> bool {
        self.magnitude() > 0x7ff0_0000_0000_0000
    }

    /// The amount in units of 2^-1074.
    pub open spec fn units(self) -> int {
        if self.negative() {
            -magnitude_units(self.magnitude())
        } else {
            magnitude_units(self.magnitude())
        }
    }

    /// Whether the amount is greater than the whole number `n`.
    pub open spec fn exceeds(self, n: int) -> bool {
        !self.is_nan() && self.units() > n * unit_count()
    }

    /// Whether the amount is the whole number `n` or greater.
    pub open spec fn reaches(self, n: int) -> bool {
        !self.is_nan() && self.units() >= n * unit_count()
    }

    /// Whether the amount is the whole number `n` or less.
    pub open spec fn stays_within(self, n: int) -> bool {
        !self.is_nan() && self.units() <= n * unit_count()
    }

    /// Whether the amount is the whole number `n`.
    pub open spec fn is_whole(self, n: int) -> bool {
        !self.is_nan() && self.units() == n * unit_count()
    }

    /// Whether `self` is less than `other`; false where one of them is no amount.
    pub open spec fn below(self, other: Amount) -> bool {
        !self.is_nan() && !other.is_nan() && self.units() < other.units()
    }

    /// Whether `self` is `other` or less; false where one of them is no amount.
    pub open spec fn at_most(self, other: Amount) -> bool {
        !self.is_nan() && !other.is_nan() && self.units() <= other.units()
    }

    /// The pattern as a number with a sign. It orders patterns as their amounts.
    pub open spec fn key(self) -> int {
        if self.negative() {
            -self.magnitude()
        } else {
            self.magnitude()
        }
    }

    fn nan(self) -> (b: bool)
        ensures
            b == self.is_nan(),
    {
        self.bits % 0x8000_0000_0000_0000 > 0x7ff0_0000_0000_0000
    }

    fn order_key(self) -> (k: i128)
        ensures
            k == self.key(),
    {
        let m: u64 = self.bits % 0x8000_0000_0000_0000;
        if self.bits >= 0x8000_0000_0000_0000 {
            -(m as i128)
        } else {
            m as i128
        }
    }

    /// Whether `self` is less than `other`.
    pub fn is_below(self, other: Amount) -> (b: bool)
        ensures
            b == self.below(other),
    {
        proof {
            law_key_order(self, other);
        }
        !self.nan() && !other.nan() && self.order_key() < other.order_key()
    }

    /// Whether `self` is `other` or less.
    pub fn is_at_most(self, other: Amount) -> (b: bool)
        ensures
            b == self.at_most(other),
    {
        proof {
            law_key_order(other, self);
        }
        !self.nan() && !other.nan() && self.order_key() <= other.order_key()
    }
}

/// The larger pattern without sign is the larger amount.
proof fn lemma_magnitude_increases(a: int, b: int)
    requires
        0 <= a < b,
    ensures
        magnitude_units(a) < magnitude_units(b),
{
    let h = 0x10_0000_0000_0000int;
    let (ea, fa) = (a / h, a % h);
    let (eb, fb) = (b / h, b % h);
    assert(ea <= eb);
    if eb == 0 {
    } else if ea == eb {
        lemma_pow2_pos((ea - 1) as nat);
        lemma_mul_strict_inequality(h + fa, h + fb, pow2((ea - 1) as nat) as int);
    } else {
        let pb = pow2((eb - 1) as nat) as int;
        lemma_pow2_pos((eb - 1) as nat);
        lemma_mul_inequality(h, h + fb, pb);
        if ea == 0 {
            lemma_mul_inequality(1, pb, h);
            assert(h * pb >= h) by (nonlinear_arith)
                requires
                    pb >= 1,
                    h == 0x10_0000_0000_0000,
            ;
        } else {
            let pa = pow2((ea - 1) as nat) as int;
            lemma_pow2_pos((ea - 1) as nat);
            lemma_mul_strict_inequality(h + fa, 2 * h, pa);
            lemma_pow2_unfold(ea as nat);
            if ea < eb - 1 {
                lemma_pow2_strictly_increases(ea as nat, (eb - 1) as nat);
            }
            assert(2 * h * pa <= h * pb) by (nonlinear_arith)
                requires
                    2 * pa <= pb,
                    h == 0x10_0000_0000_0000,
            ;
        }
    }
}

/// Zero is the only pattern without sign that stands for nothing.
proof fn lemma_magnitude_zero(a: int)
    requires
        0 <= a,
    ensures
        magnitude_units(a) >= 0,
        magnitude_units(a) == 0 <==> a == 0,
{
    assert(magnitude_units(0) == 0);
    if a > 0 {
        lemma_magnitude_increases(0, a);
    }
}

/// Amounts are ordered as their patterns, taken as numbers with a sign.
pub proof fn law_key_order(a: Amount, b: Amount)
    ensures
        a.units() < b.units() <==> a.key() < b.key(),
        a.units() == b.units() <==> a.key() == b.key(),
{
    let (ma, mb) = (a.magnitude(), b.magnitude());
    lemma_magnitude_zero(ma);
    lemma_magnitude_zero(mb);
    if ma < mb {
        lemma_magnitude_increases(ma, mb);
    }
    if mb < ma {
        lemma_magnitude_increases(mb, ma);
    }
}

/// The named bit patterns stand for the whole numbers of their names.
pub proof fn law_whole_patterns()
    ensures
        unit_count() > 0,
        (Amount { bits: ZERO }).is_whole(0),
        (Amount { bits: ONE }).is_whole(1),
        (Amount { bits: TWO }).is_whole(2),
        (Amount { bits: FIFTEEN }).is_whole(15),
        (Amount { bits: THOUSAND }).is_whole(1000),
        (Amount { bits: NINETEEN_MILLION }).is_whole(19_000_000),
{
    lemma_pow2_pos(1074);
    lemma2_to64();
    lemma2_to64_rest();
    lemma_whole(ONE, 1, 1023);
    lemma_whole(TWO, 2, 1024);
    lemma_whole(FIFTEEN, 15, 1026);
    lemma_whole(THOUSAND, 1000, 1032);
    lemma_whole(NINETEEN_MILLION, 19_000_000, 1047);
}

/// The distance from a normal pattern without sign to the next one, in units.
pub open spec fn spacing(a: Amount) -> nat {
    pow2((a.magnitude() / 0x10_0000_0000_0000 - 1) as nat)
}

/// Whether the amount is no further from one part in `n` than half the spacing there, so
/// that no pattern is nearer.
pub open spec fn nearest_to_part(a: Amount, n: int) -> bool {
    -n * spacing(a) <= 2 * (n * a.units() - unit_count()) <= n * spacing(a)
}

/// The named patterns of fractions are the nearest to the fractions of their names.
pub proof fn law_fraction_patterns()
    ensures
        !(Amount { bits: HUNDREDTH }).is_nan(),
        nearest_to_part(Amount { bits: HUNDREDTH }, 100),
        !(Amount { bits: TWENTIETH }).is_nan(),
        nearest_to_part(Amount { bits: TWENTIETH }, 20),
{
    lemma2_to64_rest();
    let p = pow2(1015) as int;
    lemma_pow2_adds(1015, 59);
    lemma_pow2_pos(1015);
    assert(-100 * p <= 2 * (100 * (5764607523034235 * p) - p * 0x800_0000_0000_0000) <= 100 * p)
        by (nonlinear_arith)
        requires
            p > 0,
    ;
    let q = pow2(1017) as int;
    lemma_pow2_adds(1017, 57);
    lemma_pow2_pos(1017);
    assert(-20 * q <= 2 * (20 * (7205759403792794 * q) - q * 0x200_0000_0000_0000) <= 20 * q)
        by (nonlinear_arith)
        requires
            q > 0,
    ;
}

proof fn lemma_whole(bits: u64, n: int, exponent: int)
    requires
        bits < 0x7ff0_0000_0000_0000,
        bits as int / 0x10_0000_0000_0000 == exponent,
        1 <= exponent <= 1075,
        0x10_0000_0000_0000 + bits as int % 0x10_0000_0000_0000 == n * pow2((1075 - exponent) as nat),
    ensures
        (Amount { bits }).is_whole(n),
{
    let p = pow2((exponent - 1) as nat) as int;
    let q = pow2((1075 - exponent) as nat) as int;
    lemma_pow2_adds((exponent - 1) as nat, (1075 - exponent) as nat);
    lemma_mul_is_associative(n, q, p);
    lemma_mul_is_commutative(q, p);
}

/// The pattern behind one without sign stands for one spacing more: a power of two units
/// that doubles from each exponent to the next.
pub proof fn law_next_pattern(bits: u64)
    requires
        bits < 0x7fff_ffff_ffff_ffff,
    ensures
        (Amount { bits: 0 }).units() == 0,
        (Amount { bits: (bits + 1) as u64 }).units() - (Amount { bits }).units() == pow2(
            (if bits < 0x10_0000_0000_0000 {
                0
            } else {
                bits as int / 0x10_0000_0000_0000 - 1
            }) as nat,
        ),
{
    let h = 0x10_0000_0000_0000int;
    let e = bits as int / h;
    let f = bits as int % h;
    let next = bits + 1;
    lemma2_to64();
    assert((Amount { bits }).units() == magnitude_units(bits as int));
    assert((Amount { bits: next as u64 }).units() == magnitude_units(next));
    if f + 1 < h {
        assert(next / h == e && next % h == f + 1);
        if e > 0 {
            let p = pow2((e - 1) as nat) as int;
            assert(magnitude_units(next) == (h + (f + 1)) * p);
            assert((h + (f + 1)) * p - (h + f) * p == p) by (nonlinear_arith);
        }
    } else {
        assert(next == (e + 1) * h);
        assert(next / h == e + 1 && next % h == 0);
        assert(magnitude_units(next) == (h + 0) * pow2(e as nat));
        if e > 0 {
            let p = pow2((e - 1) as nat) as int;
            lemma_pow2_unfold(e as nat);
            assert((h + 0) * (2 * p) - (h + f) * p == p) by (nonlinear_arith)
                requires
                    f == h - 1,
            ;
        }
    }
}

/// Setting the sign bit takes the amount to the other side of zero.
pub proof fn law_sign_bit(bits: u64)
    requires
        bits < 0x8000_0000_0000_0000,
    ensures
        (Amount { bits: (bits + 0x8000_0000_0000_0000) as u64 }).units() == -(Amount {
            bits,
        }).units(),
{
}

/// Less than and at most, read off the patterns. One that stands for no amount is on neither
/// side of any other. Of two without sign the larger pattern is the larger amount, of two
/// with sign the smaller one is, and one with sign is less than one without, but for the two
/// zeros.
pub proof fn law_order_of_patterns(a: Amount, b: Amount, less: bool, most: bool)
    requires
        call_ensures(Amount::is_below, (a, b), less),
        call_ensures(Amount::is_at_most, (a, b), most),
    ensures
        ({
            let sign = 0x8000_0000_0000_0000u64;
            let infinite = 0x7ff0_0000_0000_0000u64;
            let no_amount = |x: Amount| x.bits as int % sign as int > infinite;
            if no_amount(a) || no_amount(b) {
                !less && !most
            } else if a.bits < sign && b.bits < sign {
                (less <==> a.bits < b.bits) && (most <==> a.bits <= b.bits)
            } else if a.bits >= sign && b.bits >= sign {
                (less <==> a.bits > b.bits) && (most <==> a.bits >= b.bits)
            } else if a.bits >= sign {
                (less <==> !(a.bits == sign && b.bits == 0)) && most
            } else {
                !less && (most <==> a.bits == 0 && b.bits == sign)
            }
        }),
        less == a.below(b),
        most == a.at_most(b),
{
    law_key_order(a, b);
    law_key_order(b, a);
}

/// The bounds that amounts are held to, read off the patterns.
pub proof fn law_bounds_by_pattern(a: Amount)
    ensures
        a.is_nan() <==> a.bits as int % 0x8000_0000_0000_0000 > 0x7ff0_0000_0000_0000,
        a.stays_within(0) <==> a.bits == 0 || 0x8000_0000_0000_0000 <= a.bits
            <= 0xfff0_0000_0000_0000,
        a.exceeds(1) <==> 0x3ff0_0000_0000_0000 < a.bits <= 0x7ff0_0000_0000_0000,
        a.exceeds(15) <==> 0x402e_0000_0000_0000 < a.bits <= 0x7ff0_0000_0000_0000,
        a.exceeds(1000) <==> 0x408f_4000_0000_0000 < a.bits <= 0x7ff0_0000_0000_0000,
        a.exceeds(19_000_000) <==> 0x4172_1eac_0000_0000 < a.bits <= 0x7ff0_0000_0000_0000,
        a.reaches(19_000_000) <==> 0x4172_1eac_0000_0000 <= a.bits <= 0x7ff0_0000_0000_0000,
{
    law_whole_patterns();
    law_key_order(a, Amount { bits: 0 });
    law_key_order(Amount { bits: 0x3ff0_0000_0000_0000 }, a);
    law_key_order(Amount { bits: 0x402e_0000_0000_0000 }, a);
    law_key_order(Amount { bits: 0x408f_4000_0000_0000 }, a);
    law_key_order(Amount { bits: 0x4172_1eac_0000_0000 }, a);
}

/// A whole number bounds amounts as any pattern that stands for it does.
pub proof fn law_whole_bounds(a: Amount, whole: Amount, n: int)
    requires
        whole.is_whole(n),
    ensures
        whole.units() == n * (Amount { bits: 0x3ff0_0000_0000_0000 }).units(),
        a.exceeds(n) <==> whole.below(a),
        a.reaches(n) <==> whole.at_most(a),
        a.stays_within(n) <==> a.at_most(whole),
        a.is_whole(n) <==> a.at_most(whole) && whole.at_most(a),
{
    law_whole_patterns();
}

} // verus!
