//! The numeric model of the value tree.
//!
//! A `Number` stands for one double-precision value, held as plain integers:
//! a class (not-a-number, one of the two infinities, or finite), a sign, and
//! for finite values a mantissa `mant < 2^53` with a scale `1 <= scale <= 2046`,
//! so that the magnitude is exactly `mant * 2^scale` in units of `2^-1075`.
//! Every finite double has exactly one such form (the invariant pins it), so
//! order, sign tests and integer-valuedness are exact integer arithmetic.
//! `from_bits` builds a `Number` from the value's IEEE-754 bit pattern; the
//! `text` field carries the caller's decimal rendering for error messages and
//! plays no part in the numeric model.

use vstd::prelude::*;
use vstd::arithmetic::power2::*;
use vstd::arithmetic::mul::*;
use vstd::arithmetic::div_mod::*;

verus! {

/// Mantissa unit of a normal double: 2^52.
pub const MANT_UNIT: u64 = 0x10_0000_0000_0000;

/// Exclusive mantissa bound: 2^53.
pub const MANT_BOUND: u64 = 0x20_0000_0000_0000;

/// Divisor that isolates the sign bit: 2^63.
pub const SIGN_UNIT: u64 = 0x8000_0000_0000_0000;

/// The class of a numeric value.
#[derive(Debug, Clone, Copy, PartialEq, Eq, Structural)]
pub enum NumClass {
    Nan,
    NegInf,
    PosInf,
    Finite,
}

/// The mathematical content of a `Number`: its class, its exact value scaled
/// by 2^1075 (zero unless finite), and its decimal rendering.
pub struct SpecNum {
    pub class: NumClass,
    pub sv: int,
    pub text: Seq<char>,
}

/// The magnitude `m * 2^p`, in units of 2^-1075.
pub open spec fn mag(m: u64, p: u32) -> int {
    (m as int) * (pow2(p as nat) as int)
}

/// What `from_bits` returns, as a function of the IEEE-754 bit pattern:
/// the exponent field selects between the special classes, subnormal values
/// (scale 1, no implicit mantissa bit) and normal values.
pub open spec fn spec_of_bits(bits: u64, text: Seq<char>) -> SpecNum {
    let frac = bits % MANT_UNIT;
    let expf = (bits / MANT_UNIT) % 0x800;
    let sign = bits / SIGN_UNIT;
    if expf == 0x7ff {
        if frac == 0 {
            SpecNum {
                class: if sign == 1 {
                    NumClass::NegInf
                } else {
                    NumClass::PosInf
                },
                sv: 0,
                text,
            }
        } else {
            SpecNum { class: NumClass::Nan, sv: 0, text }
        }
    } else {
        let m = if expf == 0 {
            frac
        } else {
            (frac + MANT_UNIT) as u64
        };
        let p = if expf == 0 {
            1u32
        } else {
            expf as u32
        };
        SpecNum {
            class: NumClass::Finite,
            sv: if sign == 1 {
                -mag(m, p)
            } else {
                mag(m, p)
            },
            text,
        }
    }
}

/// A finite value is integer-valued when its magnitude, in units of 2^-1075,
/// is a multiple of 2^1075.
pub open spec fn whole_mag(m: u64, p: u32) -> bool {
    mag(m, p) % (pow2(1075) as int) == 0
}

/// A numeric value is integer-valued when it is finite with zero fractional
/// part; not-a-number and the infinities are not.
pub open spec fn num_is_whole(a: SpecNum) -> bool {
    a.class is Finite && (if a.sv < 0 {
        -a.sv
    } else {
        a.sv
    }) % (pow2(1075) as int) == 0
}

/// The strict order used by bound checks: false whenever either side is
/// not-a-number, otherwise the order of the extended real line.
pub open spec fn num_lt(a: SpecNum, b: SpecNum) -> bool {
    if a.class is Nan || b.class is Nan {
        false
    } else if a.class is NegInf {
        !(b.class is NegInf)
    } else if b.class is NegInf {
        false
    } else if b.class is PosInf {
        !(a.class is PosInf)
    } else if a.class is PosInf {
        false
    } else {
        a.sv < b.sv
    }
}

/// One double-precision value, in the plain-integer form described at the
/// top of this module.
#[derive(Debug)]
pub struct Number {
    class: NumClass,
    neg: bool,
    mant: u64,
    scale: u32,
    whole: bool,
    text: String,
}

impl View for Number {
    type V = SpecNum;

    closed spec fn view(&self) -> SpecNum {
        SpecNum {
            class: self.class,
            sv: if self.neg {
                -mag(self.mant, self.scale)
            } else {
                mag(self.mant, self.scale)
            },
            text: self.text@,
        }
    }
}

impl Number {
    /// The canonical-form invariant: a finite value has a bounded mantissa,
    /// a bounded scale, a full mantissa whenever the scale exceeds one (so
    /// each value has one form only), no negative zero, and a `whole` flag
    /// that matches the magnitude; the special classes carry zeroed fields.
    #[verifier::type_invariant]
    pub closed spec fn wf(self) -> bool {
        &&& if self.class is Finite {
            &&& self.mant < MANT_BOUND
            &&& 1 <= self.scale <= 2046
            &&& self.scale >= 2 ==> self.mant >= MANT_UNIT
            &&& self.mant == 0 ==> self.scale == 1 && !self.neg
            &&& self.neg ==> self.mant > 0
            &&& self.whole == whole_mag(self.mant, self.scale)
        } else {
            &&& self.mant == 0
            &&& self.scale == 1
            &&& !self.neg
            &&& !self.whole
        }
    }

    /// Builds the `Number` for the double-precision value whose IEEE-754 bit
    /// pattern is `bits`; `text` is the decimal rendering that error messages
    /// will show for it.
    pub fn from_bits(bits: u64, text: String) -> (r: Number)
        ensures
            r@ == spec_of_bits(bits, text@),
    {
        let frac: u64 = bits % MANT_UNIT;
        let expf: u64 = (bits / MANT_UNIT) % 0x800;
        let sign: u64 = bits / SIGN_UNIT;
        if expf == 0x7ff {
            let class = if frac != 0 {
                NumClass::Nan
            } else if sign == 1 {
                NumClass::NegInf
            } else {
                NumClass::PosInf
            };
            Number { class, neg: false, mant: 0, scale: 1, whole: false, text }
        } else {
            let m: u64 = if expf == 0 {
                frac
            } else {
                frac + MANT_UNIT
            };
            let p: u32 = if expf == 0 {
                1
            } else {
                expf as u32
            };
            let neg: bool = sign == 1 && m != 0;
            let whole: bool = compute_whole(m, p);
            proof {
                if m == 0 {
                    lemma_mul_by_zero_is_zero(pow2(1) as int);
                }
            }
            Number { class: NumClass::Finite, neg, mant: m, scale: p, whole, text }
        }
    }

    /// True of finite values only.
    pub fn is_finite(&self) -> (b: bool)
        ensures
            b == (self@.class is Finite),
    {
        match self.class {
            NumClass::Finite => true,
            _ => false,
        }
    }

    /// True of not-a-number only.
    pub fn is_nan(&self) -> (b: bool)
        ensures
            b == (self@.class is Nan),
    {
        match self.class {
            NumClass::Nan => true,
            _ => false,
        }
    }

    /// True when the value is finite with zero fractional part.
    pub fn is_whole(&self) -> (b: bool)
        ensures
            b == num_is_whole(self@),
    {
        proof {
            use_type_invariant(self);
        }
        match self.class {
            NumClass::Finite => {
                proof {
                    lemma_pow2_pos(self.scale as nat);
                    lemma_mul_nonnegative(self.mant as int, pow2(self.scale as nat) as int);
                    if self.mant > 0 {
                        lemma_mul_strictly_positive(
                            self.mant as int,
                            pow2(self.scale as nat) as int,
                        );
                    } else {
                        lemma_mul_by_zero_is_zero(pow2(self.scale as nat) as int);
                    }
                }
                self.whole
            },
            _ => false,
        }
    }

    /// The value is strictly negative (not-a-number is not).
    pub fn is_neg(&self) -> (b: bool)
        ensures
            b == (self@.class is NegInf || (self@.class is Finite && self@.sv < 0)),
    {
        proof {
            use_type_invariant(self);
            if self.class is Finite {
                lemma_pow2_pos(self.scale as nat);
                if self.mant > 0 {
                    lemma_mul_strictly_positive(self.mant as int, pow2(self.scale as nat) as int);
                } else {
                    lemma_mul_by_zero_is_zero(pow2(self.scale as nat) as int);
                }
            }
        }
        match self.class {
            NumClass::NegInf => true,
            NumClass::Finite => self.neg,
            _ => false,
        }
    }

    /// The value is strictly positive (not-a-number is not).
    pub fn is_pos(&self) -> (b: bool)
        ensures
            b == (self@.class is PosInf || (self@.class is Finite && self@.sv > 0)),
    {
        proof {
            use_type_invariant(self);
            if self.class is Finite {
                lemma_pow2_pos(self.scale as nat);
                if self.mant > 0 {
                    lemma_mul_strictly_positive(self.mant as int, pow2(self.scale as nat) as int);
                } else {
                    lemma_mul_by_zero_is_zero(pow2(self.scale as nat) as int);
                }
            }
        }
        match self.class {
            NumClass::PosInf => true,
            NumClass::Finite => !self.neg && self.mant > 0,
            _ => false,
        }
    }

    /// The value is at most zero (not-a-number is not).
    pub fn le_zero(&self) -> (b: bool)
        ensures
            b == (self@.class is NegInf || (self@.class is Finite && self@.sv <= 0)),
    {
        proof {
            use_type_invariant(self);
            if self.class is Finite {
                lemma_pow2_pos(self.scale as nat);
                if self.mant > 0 {
                    lemma_mul_strictly_positive(self.mant as int, pow2(self.scale as nat) as int);
                } else {
                    lemma_mul_by_zero_is_zero(pow2(self.scale as nat) as int);
                }
            }
        }
        match self.class {
            NumClass::NegInf => true,
            NumClass::Finite => self.neg || self.mant == 0,
            _ => false,
        }
    }

    /// The value is at least zero (not-a-number is not).
    pub fn ge_zero(&self) -> (b: bool)
        ensures
            b == (self@.class is PosInf || (self@.class is Finite && self@.sv >= 0)),
    {
        proof {
            use_type_invariant(self);
            if self.class is Finite {
                lemma_pow2_pos(self.scale as nat);
                if self.mant > 0 {
                    lemma_mul_strictly_positive(self.mant as int, pow2(self.scale as nat) as int);
                } else {
                    lemma_mul_by_zero_is_zero(pow2(self.scale as nat) as int);
                }
            }
        }
        match self.class {
            NumClass::PosInf => true,
            NumClass::Finite => !self.neg,
            _ => false,
        }
    }

    /// The decimal rendering given at construction.
    pub fn text(&self) -> (t: &String)
        ensures
            t@ == self@.text,
    {
        &self.text
    }

    /// An equal `Number`, fields and rendering alike.
    pub fn duplicate(&self) -> (r: Number)
        ensures
            r@ == self@,
    {
        proof {
            use_type_invariant(self);
        }
        Number {
            class: self.class,
            neg: self.neg,
            mant: self.mant,
            scale: self.scale,
            whole: self.whole,
            text: self.text.clone(),
        }
    }

    /// Strict order, as bound checks use it: false whenever either side is
    /// not-a-number.
    pub fn lt(&self, other: &Number) -> (r: bool)
        ensures
            r == num_lt(self@, other@),
    {
        proof {
            use_type_invariant(self);
            use_type_invariant(other);
        }
        match (self.class, other.class) {
            (NumClass::Nan, _) => false,
            (_, NumClass::Nan) => false,
            (NumClass::NegInf, NumClass::NegInf) => false,
            (NumClass::NegInf, _) => true,
            (_, NumClass::NegInf) => false,
            (NumClass::PosInf, _) => false,
            (NumClass::Finite, NumClass::PosInf) => true,
            (NumClass::Finite, NumClass::Finite) => {
                proof {
                    lemma_pow2_pos(self.scale as nat);
                    lemma_pow2_pos(other.scale as nat);
                    if self.mant > 0 {
                        lemma_mul_strictly_positive(
                            self.mant as int,
                            pow2(self.scale as nat) as int,
                        );
                    } else {
                        lemma_mul_by_zero_is_zero(pow2(self.scale as nat) as int);
                    }
                    if other.mant > 0 {
                        lemma_mul_strictly_positive(
                            other.mant as int,
                            pow2(other.scale as nat) as int,
                        );
                    } else {
                        lemma_mul_by_zero_is_zero(pow2(other.scale as nat) as int);
                    }
                }
                if self.neg != other.neg {
                    self.neg
                } else if !self.neg {
                    mag_lex_lt(self.mant, self.scale, other.mant, other.scale)
                } else {
                    mag_lex_lt(other.mant, other.scale, self.mant, self.scale)
                }
            },
        }
    }
}

impl Clone for Number {
    /// A clone carries the same numeric content and rendering text.
    fn clone(&self) -> (r: Number)
        ensures
            r@ == self@,
    {
        self.duplicate()
    }
}

impl PartialEq for Number {
    /// Numbers are equal when their numeric content is: the rendering text
    /// plays no part, so a negative zero equals a positive zero whatever it
    /// was written as. Two not-a-number values are equal to each other.
    fn eq(&self, other: &Number) -> (r: bool) {
        proof {
            use_type_invariant(self);
            use_type_invariant(other);
            lemma_eq_canonical(self, other);
        }
        self.class == other.class && self.neg == other.neg && self.mant == other.mant
            && self.scale == other.scale
    }
}

impl vstd::std_specs::cmp::PartialEqSpecImpl for Number {
    open spec fn obeys_eq_spec() -> bool {
        true
    }

    open spec fn eq_spec(&self, other: &Number) -> bool {
        self@.class == other@.class && self@.sv == other@.sv
    }
}

/// The canonical form is unique: two well-formed numbers have equal fields
/// exactly when their views carry the same class and scaled value.
proof fn lemma_eq_canonical(a: &Number, b: &Number)
    requires
        a.wf(),
        b.wf(),
    ensures
        (a.class == b.class && a.neg == b.neg && a.mant == b.mant && a.scale == b.scale) == (
        a@.class == b@.class && a@.sv == b@.sv),
{
    if a@.class == b@.class && a@.sv == b@.sv {
        if a.class is Finite {
            lemma_pow2_pos(a.scale as nat);
            lemma_pow2_pos(b.scale as nat);
            if a.mant > 0 {
                lemma_mul_strictly_positive(a.mant as int, pow2(a.scale as nat) as int);
            } else {
                lemma_mul_by_zero_is_zero(pow2(a.scale as nat) as int);
            }
            if b.mant > 0 {
                lemma_mul_strictly_positive(b.mant as int, pow2(b.scale as nat) as int);
            } else {
                lemma_mul_by_zero_is_zero(pow2(b.scale as nat) as int);
            }
            // Equal scaled values force equal signs, for a negative value has
            // a positive mantissa.
            assert(a.neg == b.neg);
            assert(mag(a.mant, a.scale) == mag(b.mant, b.scale));
            lemma2_to64();
            lemma2_to64_rest();
            if a.scale < b.scale {
                lemma_mag_lt(a.mant as int, a.scale as nat, b.mant as int, b.scale as nat);
            } else if b.scale < a.scale {
                lemma_mag_lt(b.mant as int, b.scale as nat, a.mant as int, a.scale as nat);
            } else {
                lemma_mul_is_commutative(a.mant as int, pow2(a.scale as nat) as int);
                lemma_mul_is_commutative(b.mant as int, pow2(b.scale as nat) as int);
                lemma_mul_equality_converse(
                    pow2(a.scale as nat) as int,
                    a.mant as int,
                    b.mant as int,
                );
            }
        }
    }
}

/// In canonical form the order of magnitudes is the lexicographic order of
/// (scale, mantissa).
fn mag_lex_lt(m1: u64, p1: u32, m2: u64, p2: u32) -> (r: bool)
    requires
        m1 < MANT_BOUND,
        m2 < MANT_BOUND,
        1 <= p1,
        1 <= p2,
        p1 >= 2 ==> m1 >= MANT_UNIT,
        p2 >= 2 ==> m2 >= MANT_UNIT,
        m1 == 0 ==> p1 == 1,
        m2 == 0 ==> p2 == 1,
    ensures
        r == (mag(m1, p1) < mag(m2, p2)),
{
    proof {
        lemma_pow2_pos(p1 as nat);
        lemma_pow2_pos(p2 as nat);
    }
    if p1 == p2 {
        proof {
            if m1 < m2 {
                lemma_mul_strict_inequality(m1 as int, m2 as int, pow2(p1 as nat) as int);
            } else {
                lemma_mul_inequality(m2 as int, m1 as int, pow2(p1 as nat) as int);
            }
        }
        m1 < m2
    } else if p1 < p2 {
        proof {
            lemma2_to64();
            lemma2_to64_rest();
            lemma_mag_lt(m1 as int, p1 as nat, m2 as int, p2 as nat);
        }
        true
    } else {
        proof {
            lemma2_to64();
            lemma2_to64_rest();
            lemma_mag_lt(m2 as int, p2 as nat, m1 as int, p1 as nat);
        }
        false
    }
}

/// With `m1 < 2^53` and a full mantissa `m2 >= 2^52` at a strictly larger
/// scale, the second magnitude strictly exceeds the first.
proof fn lemma_mag_lt(m1: int, p1: nat, m2: int, p2: nat)
    requires
        0 <= m1 < pow2(53),
        p1 < p2,
        pow2(52) <= m2,
    ensures
        m1 * (pow2(p1) as int) < m2 * (pow2(p2) as int),
{
    lemma_pow2_pos(p1);
    lemma_pow2_pos(p2);
    // m1 * 2^p1 < 2^53 * 2^p1
    lemma_mul_strict_inequality(m1, pow2(53) as int, pow2(p1) as int);
    // 2^53 * 2^p1 == 2^(53 + p1)
    lemma_pow2_adds(53, p1);
    // 2^(53 + p1) <= 2^(52 + p2)
    if 53 + p1 < 52 + p2 {
        lemma_pow2_strictly_increases(53 + p1, 52 + p2);
    }
    // 2^(52 + p2) == 2^52 * 2^p2 <= m2 * 2^p2
    lemma_pow2_adds(52, p2);
    lemma_mul_inequality(pow2(52) as int, m2, pow2(p2) as int);
}

/// 2^e as a machine word.
fn pow2_u64(e: u32) -> (r: u64)
    requires
        e <= 63,
    ensures
        r == pow2(e as nat),
{
    let mut i: u32 = 0;
    let mut acc: u64 = 1;
    proof {
        lemma2_to64();
        lemma2_to64_rest();
    }
    while i < e
        invariant
            i <= e <= 63,
            acc == pow2(i as nat),
        decreases e - i,
    {
        proof {
            lemma_pow2_unfold((i + 1) as nat);
            if i + 1 <= 63 {
                lemma_pow2_strictly_increases((i + 1) as nat, 64);
            }
            lemma2_to64();
        }
        acc = acc * 2;
        i = i + 1;
    }
    acc
}

/// Whether `m * 2^p` (in units of 2^-1075) is a whole number, decided by the
/// low bits of the mantissa.
fn compute_whole(m: u64, p: u32) -> (b: bool)
    requires
        m < MANT_BOUND,
        1 <= p <= 2046,
    ensures
        b == whole_mag(m, p),
{
    if m == 0 {
        proof {
            lemma_pow2_pos(1075);
            lemma_pow2_pos(p as nat);
            lemma_mul_by_zero_is_zero(pow2(p as nat) as int);
            lemma_mod_multiples_basic(0, pow2(1075) as int);
        }
        true
    } else if p >= 1075 {
        proof {
            lemma_whole_high_scale(m, p);
        }
        true
    } else if 1075 - p >= 54 {
        proof {
            lemma_whole_tiny(m, p);
        }
        false
    } else {
        let k: u32 = 1075 - p;
        let unit: u64 = pow2_u64(k);
        proof {
            lemma_pow2_pos(k as nat);
            lemma_whole_mask(m, p);
        }
        m % unit == 0
    }
}

/// At scale 1075 or above every magnitude is whole.
proof fn lemma_whole_high_scale(m: u64, p: u32)
    requires
        p >= 1075,
    ensures
        whole_mag(m, p),
{
    lemma_pow2_pos(1075);
    lemma_pow2_pos((p - 1075) as nat);
    lemma_pow2_adds((p - 1075) as nat, 1075);
    assert(mag(m, p) == (m as int) * ((pow2((p - 1075) as nat) * pow2(1075)) as int));
    lemma_mul_is_associative(m as int, pow2((p - 1075) as nat) as int, pow2(1075) as int);
    lemma_mod_multiples_basic((m as int) * (pow2((p - 1075) as nat) as int), pow2(1075) as int);
}

/// A nonzero magnitude whose scale leaves more than 53 fractional bits is
/// smaller than one and never whole.
proof fn lemma_whole_tiny(m: u64, p: u32)
    requires
        0 < m < MANT_BOUND,
        1 <= p,
        1075 - p >= 54,
    ensures
        !whole_mag(m, p),
{
    lemma2_to64();
    lemma2_to64_rest();
    lemma_pow2_pos(p as nat);
    lemma_pow2_pos(1075);
    // 0 < m * 2^p < 2^53 * 2^p == 2^(53 + p) <= 2^1074 < 2^1075
    lemma_mul_strictly_positive(m as int, pow2(p as nat) as int);
    lemma_mul_strict_inequality(m as int, pow2(53) as int, pow2(p as nat) as int);
    lemma_pow2_adds(53, p as nat);
    if 53 + p < 1075 {
        lemma_pow2_strictly_increases((53 + p) as nat, 1075);
    }
    lemma_small_mod(mag(m, p) as nat, pow2(1075));
}

/// Just below scale 1075 a magnitude is whole exactly when the mantissa is a
/// multiple of 2^(1075 - scale).
proof fn lemma_whole_mask(m: u64, p: u32)
    requires
        1022 <= p < 1075,
    ensures
        whole_mag(m, p) == (m % (pow2((1075 - p) as nat) as u64) == 0),
{
    let k = (1075 - p) as nat;
    lemma_pow2_pos(p as nat);
    lemma_pow2_pos(k);
    lemma_pow2_pos(1075);
    lemma2_to64();
    lemma2_to64_rest();
    lemma_pow2_strictly_increases(k, 64);
    lemma_pow2_adds(p as nat, k);
    // (2^p * m) % (2^p * 2^k) == 2^p * (m % 2^k)
    lemma_truncate_middle(m as int, pow2(p as nat) as int, pow2(k) as int);
    lemma_mul_is_commutative(m as int, pow2(p as nat) as int);
    assert(mag(m, p) == (pow2(p as nat) as int) * (m as int));
    lemma_mod_bound(m as int, pow2(k) as int);
    lemma_mul_by_zero_is_zero(pow2(p as nat) as int);
    if m % (pow2(k) as u64) == 0 {
        assert((pow2(p as nat) as int) * ((m as int) % (pow2(k) as int)) == 0);
    } else {
        lemma_mul_strictly_positive(pow2(p as nat) as int, (m as int) % (pow2(k) as int));
    }
}

} // verus!

verus! {

/// Two numeric values are within tolerance when both are finite and their
/// difference is strictly below 2^-52, the gap between 1 and the next
/// double; at this module's scale of 2^-1075 that bound is 2^1023. This is
/// false whenever either side is not finite, as a difference involving an
/// infinity or not-a-number is never below any bound.
pub open spec fn num_eps_close(a: SpecNum, b: SpecNum) -> bool {
    &&& a.class is Finite
    &&& b.class is Finite
    &&& -(pow2(1023) as int) < a.sv - b.sv < pow2(1023) as int
}

/// 2^e as a wide machine word.
fn pow2_u128(e: u32) -> (r: u128)
    requires
        e <= 127,
    ensures
        r == pow2(e as nat),
{
    let mut i: u32 = 0;
    let mut acc: u128 = 1;
    proof {
        lemma2_to64();
    }
    while i < e
        invariant
            i <= e <= 127,
            acc == pow2(i as nat),
        decreases e - i,
    {
        proof {
            lemma_pow2_unfold((i + 1) as nat);
            if i + 1 <= 127 {
                lemma_pow2_strictly_increases((i + 1) as nat, 128);
            }
            lemma_pow2_128();
        }
        acc = acc * 2;
        i = i + 1;
    }
    acc
}

/// 2^128 spelled out, for overflow bounds on wide words.
proof fn lemma_pow2_128()
    ensures
        pow2(128) == 0x100000000000000000000000000000000,
{
    lemma2_to64();
    lemma2_to64_rest();
    lemma_pow2_adds(64, 64);
}

/// Whether a canonical magnitude is strictly below 2^1023.
fn mag_below(m: u64, p: u32) -> (r: bool)
    requires
        m < MANT_BOUND,
        1 <= p <= 2046,
        p >= 2 ==> m >= MANT_UNIT,
    ensures
        r == (mag(m, p) < pow2(1023) as int),
{
    proof {
        lemma_pow2_pos(p as nat);
        lemma_pow2_pos(1023);
        lemma2_to64();
        lemma2_to64_rest();
    }
    if m == 0 {
        proof {
            lemma_mul_by_zero_is_zero(pow2(p as nat) as int);
        }
        true
    } else if p >= 1023 {
        proof {
            lemma_mul_inequality(1, m as int, pow2(p as nat) as int);
            if 1023 < p {
                lemma_pow2_strictly_increases(1023, p as nat);
            }
        }
        false
    } else {
        let c: u32 = 1023 - p;
        if c >= 53 {
            proof {
                lemma_mul_strict_inequality(m as int, pow2(53) as int, pow2(p as nat) as int);
                lemma_pow2_adds(53, p as nat);
                if 53 + p < 1023 {
                    lemma_pow2_strictly_increases((53 + p) as nat, 1023);
                }
            }
            true
        } else {
            let bound: u64 = pow2_u64(c);
            proof {
                lemma_pow2_adds(c as nat, p as nat);
                if m < bound {
                    lemma_mul_strict_inequality(m as int, pow2(c as nat) as int, pow2(
                        p as nat,
                    ) as int);
                } else {
                    lemma_mul_inequality(pow2(c as nat) as int, m as int, pow2(p as nat) as int);
                }
            }
            m < bound
        }
    }
}

/// Whether a canonical magnitude is at most 2^1023.
fn mag_at_most(m: u64, p: u32) -> (r: bool)
    requires
        m < MANT_BOUND,
        1 <= p <= 2046,
        p >= 2 ==> m >= MANT_UNIT,
    ensures
        r == (mag(m, p) <= pow2(1023) as int),
{
    proof {
        lemma_pow2_pos(p as nat);
        lemma_pow2_pos(1023);
        lemma2_to64();
        lemma2_to64_rest();
    }
    if m == 0 {
        proof {
            lemma_mul_by_zero_is_zero(pow2(p as nat) as int);
        }
        true
    } else if p >= 1024 {
        proof {
            lemma_mul_inequality(1, m as int, pow2(p as nat) as int);
            lemma_pow2_strictly_increases(1023, p as nat);
        }
        false
    } else {
        let c: u32 = 1023 - p;
        if c >= 53 {
            proof {
                lemma_mul_strict_inequality(m as int, pow2(53) as int, pow2(p as nat) as int);
                lemma_pow2_adds(53, p as nat);
                if 53 + p < 1023 {
                    lemma_pow2_strictly_increases((53 + p) as nat, 1023);
                }
            }
            true
        } else {
            let bound: u64 = pow2_u64(c);
            proof {
                lemma_pow2_adds(c as nat, p as nat);
                if m <= bound {
                    lemma_mul_inequality(m as int, pow2(c as nat) as int, pow2(p as nat) as int);
                } else {
                    lemma_mul_strict_inequality(pow2(c as nat) as int, m as int, pow2(
                        p as nat,
                    ) as int);
                }
            }
            m <= bound
        }
    }
}

/// Whether a small scaled amount `x * 2^p` is strictly below 2^1023.
fn small_scaled_below(x: u128, p: u32) -> (r: bool)
    requires
        x < 0x1000000000000000000000000000,
        1 <= p <= 2046,
    ensures
        r == ((x as int) * (pow2(p as nat) as int) < pow2(1023) as int),
{
    proof {
        lemma_pow2_pos(p as nat);
        lemma_pow2_pos(1023);
        lemma_pow2_128();
        lemma2_to64();
        lemma2_to64_rest();
        lemma_pow2_adds(54, 54);
        lemma_pow2_adds(104, 4);
    }
    if x == 0 {
        proof {
            lemma_mul_by_zero_is_zero(pow2(p as nat) as int);
        }
        true
    } else if p >= 1023 {
        proof {
            lemma_mul_inequality(1, x as int, pow2(p as nat) as int);
            if 1023 < p {
                lemma_pow2_strictly_increases(1023, p as nat);
            }
        }
        false
    } else {
        let c: u32 = 1023 - p;
        if c >= 108 {
            proof {
                lemma_mul_strict_inequality(x as int, pow2(108) as int, pow2(p as nat) as int);
                lemma_pow2_adds(108, p as nat);
                if 108 + p < 1023 {
                    lemma_pow2_strictly_increases((108 + p) as nat, 1023);
                }
            }
            true
        } else {
            let bound: u128 = pow2_u128(c);
            proof {
                lemma_pow2_adds(c as nat, p as nat);
                if x < bound {
                    lemma_mul_strict_inequality(x as int, pow2(c as nat) as int, pow2(
                        p as nat,
                    ) as int);
                } else {
                    lemma_mul_inequality(pow2(c as nat) as int, x as int, pow2(p as nat) as int);
                }
            }
            x < bound
        }
    }
}

/// With the smaller magnitude at least 55 scale steps below the larger one,
/// their difference is below 2^1023 exactly when the larger magnitude is at
/// most 2^1023.
proof fn lemma_eps_diff(hm: u64, hp: u32, lm: u64, lp: u32)
    requires
        hm >= MANT_UNIT,
        hm < MANT_BOUND,
        1 <= lm < MANT_BOUND,
        1 <= lp,
        lp + 55 <= hp <= 2046,
    ensures
        (mag(hm, hp) - mag(lm, lp) < pow2(1023) as int) == (mag(hm, hp) <= pow2(1023) as int),
{
    lemma2_to64();
    lemma2_to64_rest();
    lemma_pow2_pos(hp as nat);
    lemma_pow2_pos(lp as nat);
    lemma_pow2_pos(1023);
    // The small side is below 2^(hp - 2).
    lemma_mul_strict_inequality(lm as int, pow2(53) as int, pow2(lp as nat) as int);
    lemma_pow2_adds(53, lp as nat);
    if 53 + lp < hp - 2 {
        lemma_pow2_strictly_increases((53 + lp) as nat, (hp - 2) as nat);
    }
    assert(mag(lm, lp) < pow2((hp - 2) as nat));
    // The small side is positive.
    lemma_mul_strictly_positive(lm as int, pow2(lp as nat) as int);
    if mag(hm, hp) <= pow2(1023) as int {
        assert(mag(hm, hp) - mag(lm, lp) < pow2(1023) as int);
    } else {
        if hp >= 1024 {
            // mag(hm, hp) >= 2^(hp - 2) * 2^54 and the small side is below
            // 2^(hp - 2), so the difference is at least 2^(hp - 1), which is
            // at least 2^1023.
            lemma_mul_inequality(pow2(52) as int, hm as int, pow2(hp as nat) as int);
            lemma_pow2_adds(52, hp as nat);
            lemma_pow2_adds((hp - 2) as nat, 54);
            assert(mag(hm, hp) >= (pow2((hp - 2) as nat) * pow2(54)) as int);
            lemma_mul_is_distributive_sub(pow2((hp - 2) as nat) as int, pow2(54) as int, 1);
            assert(mag(hm, hp) - mag(lm, lp) > (pow2((hp - 2) as nat) as int) * (pow2(54) as int
                - 1));
            lemma_mul_left_inequality(pow2((hp - 2) as nat) as int, 2, pow2(54) as int - 1);
            lemma_pow2_unfold((hp - 1) as nat);
            lemma_mul_is_commutative(pow2((hp - 2) as nat) as int, 2);
            assert(mag(hm, hp) - mag(lm, lp) >= pow2((hp - 1) as nat));
            if 1023 < hp - 1 {
                lemma_pow2_strictly_increases(1023, (hp - 1) as nat);
            }
        } else {
            // hm exceeds 2^(1023 - hp), so it is at least one more, and the
            // difference keeps a full 2^hp of headroom over 2^1023.
            lemma_pow2_adds((1023 - hp) as nat, hp as nat);
            lemma_mul_strict_inequality_converse(
                pow2((1023 - hp) as nat) as int,
                hm as int,
                pow2(hp as nat) as int,
            );
            assert(hm as int >= pow2((1023 - hp) as nat) + 1);
            lemma_mul_inequality(
                pow2((1023 - hp) as nat) as int + 1,
                hm as int,
                pow2(hp as nat) as int,
            );
            lemma_mul_is_distributive_add_other_way(
                pow2(hp as nat) as int,
                pow2((1023 - hp) as nat) as int,
                1,
            );
            assert(mag(hm, hp) >= pow2(1023) + pow2(hp as nat));
            lemma_pow2_strictly_increases((53 + lp) as nat, hp as nat);
            assert(mag(lm, lp) < pow2(hp as nat));
        }
    }
}

/// With the smaller magnitude at least 55 scale steps below the larger one,
/// their sum is below 2^1023 exactly when the larger magnitude is.
proof fn lemma_eps_sum(hm: u64, hp: u32, lm: u64, lp: u32)
    requires
        hm >= MANT_UNIT,
        hm < MANT_BOUND,
        1 <= lm < MANT_BOUND,
        1 <= lp,
        lp + 55 <= hp <= 2046,
    ensures
        (mag(hm, hp) + mag(lm, lp) < pow2(1023) as int) == (mag(hm, hp) < pow2(1023) as int),
{
    lemma2_to64();
    lemma2_to64_rest();
    lemma_pow2_pos(hp as nat);
    lemma_pow2_pos(lp as nat);
    lemma_pow2_pos(1023);
    lemma_mul_strict_inequality(lm as int, pow2(53) as int, pow2(lp as nat) as int);
    lemma_pow2_adds(53, lp as nat);
    if 53 + lp < hp - 2 {
        lemma_pow2_strictly_increases((53 + lp) as nat, (hp - 2) as nat);
    }
    lemma_mul_strictly_positive(lm as int, pow2(lp as nat) as int);
    if mag(hm, hp) < pow2(1023) as int {
        if hp >= 1024 {
            lemma_mul_inequality(pow2(52) as int, hm as int, pow2(hp as nat) as int);
            lemma_pow2_adds(52, hp as nat);
            lemma_pow2_strictly_increases(1023, (52 + hp) as nat);
            assert(false);
        }
        // hm is below 2^(1023 - hp), so at most one less, leaving 2^hp of
        // room; the small side is below 2^(hp - 2).
        lemma_pow2_adds((1023 - hp) as nat, hp as nat);
        lemma_mul_strict_inequality_converse(
            hm as int,
            pow2((1023 - hp) as nat) as int,
            pow2(hp as nat) as int,
        );
        assert(hm as int <= pow2((1023 - hp) as nat) - 1);
        lemma_mul_inequality(
            hm as int,
            pow2((1023 - hp) as nat) as int - 1,
            pow2(hp as nat) as int,
        );
        lemma_mul_is_distributive_sub_other_way(
            pow2(hp as nat) as int,
            pow2((1023 - hp) as nat) as int,
            1,
        );
        assert(mag(hm, hp) <= pow2(1023) - pow2(hp as nat));
        lemma_pow2_strictly_increases((hp - 2) as nat, hp as nat);
        assert(mag(lm, lp) < pow2(hp as nat));
    }
}

impl Number {
    /// True when both values are finite and differ by strictly less than
    /// 2^-52, the tolerance literal-number matching allows for floating
    /// representation.
    pub fn eps_close(&self, other: &Number) -> (r: bool)
        ensures
            r == num_eps_close(self@, other@),
    {
        proof {
            use_type_invariant(self);
            use_type_invariant(other);
            lemma_pow2_pos(1023);
        }
        match (self.class, other.class) {
            (NumClass::Finite, NumClass::Finite) => {
                if self.neg == other.neg && self.mant == other.mant && self.scale == other.scale {
                    true
                } else {
                    let a_ge: bool = !mag_lex_lt(
                        self.mant,
                        self.scale,
                        other.mant,
                        other.scale,
                    );
                    let hm: u64 = if a_ge { self.mant } else { other.mant };
                    let hp: u32 = if a_ge { self.scale } else { other.scale };
                    let lm: u64 = if a_ge { other.mant } else { self.mant };
                    let lp: u32 = if a_ge { other.scale } else { self.scale };
                    let same_sign: bool = self.neg == other.neg;
                    proof {
                        lemma2_to64();
                        lemma2_to64_rest();
                        if hp < lp {
                            lemma_mag_lt(hm as int, hp as nat, lm as int, lp as nat);
                        }
                        assert(hp >= lp);
                        // The signed difference is plus or minus the
                        // magnitude difference or sum.
                        if same_sign {
                            assert(self@.sv - other@.sv == mag(hm, hp) - mag(lm, lp)
                                || self@.sv - other@.sv == mag(lm, lp) - mag(hm, hp));
                        } else {
                            assert(self@.sv - other@.sv == mag(hm, hp) + mag(lm, lp)
                                || self@.sv - other@.sv == -(mag(hm, hp) + mag(lm, lp)));
                        }
                        assert(mag(hm, hp) >= mag(lm, lp));
                        lemma_pow2_pos(lp as nat);
                        lemma_mul_nonnegative(lm as int, pow2(lp as nat) as int);
                    }
                    if lm == 0 {
                        // The smaller value is zero: the difference is the
                        // larger magnitude itself.
                        proof {
                            lemma_mul_by_zero_is_zero(pow2(lp as nat) as int);
                        }
                        mag_below(hm, hp)
                    } else if hp - lp >= 55 {
                        proof {
                            assert(hm >= MANT_UNIT);
                            lemma_eps_diff(hm, hp, lm, lp);
                            lemma_eps_sum(hm, hp, lm, lp);
                            lemma_mul_strictly_positive(lm as int, pow2(lp as nat) as int);
                        }
                        if same_sign {
                            mag_at_most(hm, hp)
                        } else {
                            mag_below(hm, hp)
                        }
                    } else {
                        let g: u32 = hp - lp;
                        let step: u128 = pow2_u128(g);
                        proof {
                            lemma_pow2_pos(g as nat);
                            if g < 54 {
                                lemma_pow2_strictly_increases(g as nat, 54);
                            }
                            lemma_mul_upper_bound(
                                hm as int,
                                pow2(53) as int,
                                pow2(g as nat) as int,
                                pow2(54) as int,
                            );
                            lemma_pow2_adds(53, 54);
                            lemma_pow2_128();
                            lemma_pow2_strictly_increases(107, 128);
                        }
                        let wide: u128 = (hm as u128) * step;
                        proof {
                            // wide * 2^lp is the larger magnitude.
                            lemma_pow2_adds(g as nat, lp as nat);
                            lemma_mul_is_associative(
                                hm as int,
                                pow2(g as nat) as int,
                                pow2(lp as nat) as int,
                            );
                            // wide >= lm, because the magnitudes are ordered.
                            lemma_pow2_pos(lp as nat);
                            lemma_mul_inequality_converse(
                                lm as int,
                                (wide) as int,
                                pow2(lp as nat) as int,
                            );
                        }
                        if same_sign {
                            let d: u128 = wide - (lm as u128);
                            proof {
                                lemma_mul_is_distributive_sub_other_way(
                                    pow2(lp as nat) as int,
                                    wide as int,
                                    lm as int,
                                );
                                lemma_pow2_strictly_increases(107, 108);
                            }
                            small_scaled_below(d, lp)
                        } else {
                            let s: u128 = wide + (lm as u128);
                            proof {
                                lemma_mul_is_distributive_add_other_way(
                                    pow2(lp as nat) as int,
                                    wide as int,
                                    lm as int,
                                );
                                lemma_pow2_strictly_increases(107, 108);
                            }
                            small_scaled_below(s, lp)
                        }
                    }
                }
            },
            _ => false,
        }
    }
}

} // verus!
