//! Numeric values of the language.
//!
//! A `Number` wraps an arbitrary-precision decimal float from the
//! `num_bigfloat` crate. The arithmetic itself is done by that crate; each
//! operation is reached through one trusted wrapper whose result is named by
//! an uninterpreted spec function, so that the evaluator's contracts can
//! speak about the values exactly.

use vstd::prelude::*;
use vstd::string::StrSliceExecFns;

verus! {

#[verifier::external_type_specification]
#[verifier::external_body]
pub struct ExBigFloat(num_bigfloat::BigFloat);

// Names for the results of the arithmetic of `num_bigfloat::BigFloat`.
// Each is applied by exactly one trusted wrapper below.
pub uninterp spec fn add_of(a: num_bigfloat::BigFloat, b: num_bigfloat::BigFloat) -> num_bigfloat::BigFloat;

pub uninterp spec fn sub_of(a: num_bigfloat::BigFloat, b: num_bigfloat::BigFloat) -> num_bigfloat::BigFloat;

pub uninterp spec fn mul_of(a: num_bigfloat::BigFloat, b: num_bigfloat::BigFloat) -> num_bigfloat::BigFloat;

pub uninterp spec fn div_of(a: num_bigfloat::BigFloat, b: num_bigfloat::BigFloat) -> num_bigfloat::BigFloat;

pub uninterp spec fn rem_of(a: num_bigfloat::BigFloat, b: num_bigfloat::BigFloat) -> num_bigfloat::BigFloat;

pub uninterp spec fn pow_of(a: num_bigfloat::BigFloat, b: num_bigfloat::BigFloat) -> num_bigfloat::BigFloat;

pub uninterp spec fn neg_of(a: num_bigfloat::BigFloat) -> num_bigfloat::BigFloat;

pub uninterp spec fn lit_of(s: Seq<char>) -> num_bigfloat::BigFloat;

pub uninterp spec fn zero_of(u: ()) -> num_bigfloat::BigFloat;

pub uninterp spec fn is_zero_of(a: num_bigfloat::BigFloat) -> bool;

pub uninterp spec fn is_negative_of(a: num_bigfloat::BigFloat) -> bool;

pub uninterp spec fn lt_of(a: num_bigfloat::BigFloat, b: num_bigfloat::BigFloat) -> bool;

pub uninterp spec fn sin_of(a: num_bigfloat::BigFloat) -> num_bigfloat::BigFloat;

pub uninterp spec fn cos_of(a: num_bigfloat::BigFloat) -> num_bigfloat::BigFloat;

pub uninterp spec fn tan_of(a: num_bigfloat::BigFloat) -> num_bigfloat::BigFloat;

pub uninterp spec fn asin_of(a: num_bigfloat::BigFloat) -> num_bigfloat::BigFloat;

pub uninterp spec fn acos_of(a: num_bigfloat::BigFloat) -> num_bigfloat::BigFloat;

pub uninterp spec fn atan_of(a: num_bigfloat::BigFloat) -> num_bigfloat::BigFloat;

pub uninterp spec fn sinh_of(a: num_bigfloat::BigFloat) -> num_bigfloat::BigFloat;

pub uninterp spec fn cosh_of(a: num_bigfloat::BigFloat) -> num_bigfloat::BigFloat;

pub uninterp spec fn tanh_of(a: num_bigfloat::BigFloat) -> num_bigfloat::BigFloat;

pub uninterp spec fn ln_of(a: num_bigfloat::BigFloat) -> num_bigfloat::BigFloat;

pub uninterp spec fn log2_of(a: num_bigfloat::BigFloat) -> num_bigfloat::BigFloat;

pub uninterp spec fn log10_of(a: num_bigfloat::BigFloat) -> num_bigfloat::BigFloat;

pub uninterp spec fn logb_of(a: num_bigfloat::BigFloat, b: num_bigfloat::BigFloat) -> num_bigfloat::BigFloat;

pub uninterp spec fn exp_of(a: num_bigfloat::BigFloat) -> num_bigfloat::BigFloat;

pub uninterp spec fn sqrt_of(a: num_bigfloat::BigFloat) -> num_bigfloat::BigFloat;

pub uninterp spec fn abs_of(a: num_bigfloat::BigFloat) -> num_bigfloat::BigFloat;

pub uninterp spec fn floor_of(a: num_bigfloat::BigFloat) -> num_bigfloat::BigFloat;

pub uninterp spec fn ceil_of(a: num_bigfloat::BigFloat) -> num_bigfloat::BigFloat;

pub uninterp spec fn round_of(a: num_bigfloat::BigFloat) -> num_bigfloat::BigFloat;

/// The shape of a numeric literal the tokenizer admits: digits and at most
/// one decimal point, with at least one digit.
pub open spec fn literal_shape(s: Seq<char>) -> bool {
    &&& s.len() > 0
    &&& forall|i: int| 0 <= i < s.len() ==> crate::tokenizer::is_num_char(#[trigger] s[i])
    &&& crate::tokenizer::valid_number(s)
}

/// Decides `literal_shape` of a text.
pub fn check_literal(s: &str) -> (r: bool)
    ensures
        r == literal_shape(s@),
{
    let n = s.unicode_len();
    if n == 0 {
        return false;
    }
    let mut digits: usize = 0;
    let mut dots: usize = 0;
    let mut i: usize = 0;
    while i < n
        invariant
            i <= n,
            n == s@.len(),
            digits == crate::tokenizer::count_digits(s@.subrange(0, i as int)),
            dots == crate::tokenizer::count_dots(s@.subrange(0, i as int)),
            digits <= i,
            dots <= i,
            forall|k: int| 0 <= k < i ==> crate::tokenizer::is_num_char(#[trigger] s@[k]),
        decreases n - i,
    {
        let c = s.get_char(i);
        proof {
            assert(s@.subrange(0, i + 1).drop_last() =~= s@.subrange(0, i as int));
            assert(s@.subrange(0, i + 1).last() == s@[i as int]);
        }
        if '0' <= c && c <= '9' {
            digits += 1;
        } else if c == '.' {
            dots += 1;
        } else {
            return false;
        }
        i += 1;
    }
    proof {
        assert(s@.subrange(0, n as int) =~= s@);
    }
    digits >= 1 && dots <= 1
}

/// The value of a chain of `n` sign flips in front of `v`.
pub open spec fn apply_negs(n: nat, v: num_bigfloat::BigFloat) -> num_bigfloat::BigFloat
    decreases n,
{
    if n == 0 {
        v
    } else {
        neg_of(apply_negs((n - 1) as nat, v))
    }
}

/// A chain of minus signs cancels in pairs: over a value whose double
/// negation gives it back (which `Number::neg` guarantees of every value it
/// returns), an even chain yields the value and an odd chain its negation.
pub proof fn lemma_unary_minus_chain(n: nat, v: num_bigfloat::BigFloat)
    requires
        neg_of(neg_of(v)) == v,
    ensures
        apply_negs(n, v) == if n % 2 == 0 {
            v
        } else {
            neg_of(v)
        },
    decreases n,
{
    if n > 0 {
        lemma_unary_minus_chain((n - 1) as nat, v);
    }
}

/// A numeric value of the calculator: one decimal big-float.
#[derive(Clone, Copy, Debug)]
pub struct Number {
    pub big: num_bigfloat::BigFloat,
}

impl Number {
    /// Relies on the constant `num_bigfloat::ZERO`, whose mantissa the
    /// crate defines as all zero, so `BigFloat::is_zero` holds of it.
    #[verifier::external_body]
    pub fn zero() -> (r: Number)
        ensures
            r.big == zero_of(()),
            is_zero_of(r.big),
    {
        Number { big: num_bigfloat::ZERO }
    }

    /// Relies on the constant `num_bigfloat::PI`.
    #[verifier::external_body]
    pub fn pi() -> (r: Number)
    {
        Number { big: num_bigfloat::PI }
    }

    /// Relies on the constant `num_bigfloat::E`.
    #[verifier::external_body]
    pub fn euler() -> (r: Number)
    {
        Number { big: num_bigfloat::E }
    }

    /// Relies on `num_bigfloat::BigFloat::parse`: it accepts every decimal
    /// literal made of digits with at most one point and at least one digit,
    /// and returns the value it denotes. Its result depends on the text alone.
    #[verifier::external_body]
    pub fn from_literal(s: &str) -> (r: Option<Number>)
        ensures
            r matches Some(n) ==> n.big == lit_of(s@),
            literal_shape(s@) ==> r is Some,
    {
        num_bigfloat::BigFloat::parse(s).map(|b| Number { big: b })
    }

    /// The wrapped big-float, for callers outside the library.
    pub fn get(&self) -> (r: num_bigfloat::BigFloat)
        ensures
            r == self.big,
    {
        self.big
    }

    /// Relies on `num_bigfloat::BigFloat::is_zero`.
    #[verifier::external_body]
    pub fn is_zero(&self) -> (r: bool)
        ensures
            r == is_zero_of(self.big),
    {
        self.big.is_zero()
    }

    /// Relies on `num_bigfloat::BigFloat::is_negative`.
    #[verifier::external_body]
    pub fn is_negative(&self) -> (r: bool)
        ensures
            r == is_negative_of(self.big),
    {
        self.big.is_negative()
    }

    /// Relies on `num_bigfloat::BigFloat::add`.
    #[verifier::external_body]
    pub fn add(&self, o: &Number) -> (r: Number)
        ensures
            r.big == add_of(self.big, o.big),
    {
        Number { big: self.big.add(&o.big) }
    }

    /// Relies on `num_bigfloat::BigFloat::sub`.
    #[verifier::external_body]
    pub fn sub(&self, o: &Number) -> (r: Number)
        ensures
            r.big == sub_of(self.big, o.big),
    {
        Number { big: self.big.sub(&o.big) }
    }

    /// Relies on `num_bigfloat::BigFloat::mul`.
    #[verifier::external_body]
    pub fn mul(&self, o: &Number) -> (r: Number)
        ensures
            r.big == mul_of(self.big, o.big),
    {
        Number { big: self.big.mul(&o.big) }
    }

    /// Relies on `num_bigfloat::BigFloat::div`.
    #[verifier::external_body]
    pub fn div(&self, o: &Number) -> (r: Number)
        ensures
            r.big == div_of(self.big, o.big),
    {
        Number { big: self.big.div(&o.big) }
    }

    /// Relies on `num_bigfloat::BigFloat::rem`: the remainder of truncating
    /// division, `a - (a / b).int() * b`, whose sign follows the dividend.
    #[verifier::external_body]
    pub fn rem(&self, o: &Number) -> (r: Number)
        ensures
            r.big == rem_of(self.big, o.big),
    {
        Number { big: self.big.rem(&o.big) }
    }

    /// Relies on `num_bigfloat::BigFloat::pow`.
    #[verifier::external_body]
    pub fn pow(&self, o: &Number) -> (r: Number)
        ensures
            r.big == pow_of(self.big, o.big),
    {
        Number { big: self.big.pow(&o.big) }
    }

    /// Relies on `num_bigfloat::BigFloat::inv_sign`, which flips the sign
    /// and so is its own inverse.
    #[verifier::external_body]
    pub fn neg(&self) -> (r: Number)
        ensures
            r.big == neg_of(self.big),
            neg_of(r.big) == self.big,
    {
        Number { big: self.big.inv_sign() }
    }

    /// Relies on the comparison `num_bigfloat::BigFloat::cmp`: the result
    /// says whether `self` is strictly below `o`.
    #[verifier::external_body]
    pub fn lt(&self, o: &Number) -> (r: bool)
        ensures
            r == lt_of(self.big, o.big),
    {
        matches!(self.big.cmp(&o.big), Some(c) if c < 0)
    }

    /// Relies on `num_bigfloat::BigFloat::sin`.
    #[verifier::external_body]
    pub fn sin(&self) -> (r: Number)
        ensures
            r.big == sin_of(self.big),
    {
        Number { big: self.big.sin() }
    }

    /// Relies on `num_bigfloat::BigFloat::cos`.
    #[verifier::external_body]
    pub fn cos(&self) -> (r: Number)
        ensures
            r.big == cos_of(self.big),
    {
        Number { big: self.big.cos() }
    }

    /// Relies on `num_bigfloat::BigFloat::tan`.
    #[verifier::external_body]
    pub fn tan(&self) -> (r: Number)
        ensures
            r.big == tan_of(self.big),
    {
        Number { big: self.big.tan() }
    }

    /// Relies on `num_bigfloat::BigFloat::asin`.
    #[verifier::external_body]
    pub fn asin(&self) -> (r: Number)
        ensures
            r.big == asin_of(self.big),
    {
        Number { big: self.big.asin() }
    }

    /// Relies on `num_bigfloat::BigFloat::acos`.
    #[verifier::external_body]
    pub fn acos(&self) -> (r: Number)
        ensures
            r.big == acos_of(self.big),
    {
        Number { big: self.big.acos() }
    }

    /// Relies on `num_bigfloat::BigFloat::atan`.
    #[verifier::external_body]
    pub fn atan(&self) -> (r: Number)
        ensures
            r.big == atan_of(self.big),
    {
        Number { big: self.big.atan() }
    }

    /// Relies on `num_bigfloat::BigFloat::sinh`.
    #[verifier::external_body]
    pub fn sinh(&self) -> (r: Number)
        ensures
            r.big == sinh_of(self.big),
    {
        Number { big: self.big.sinh() }
    }

    /// Relies on `num_bigfloat::BigFloat::cosh`.
    #[verifier::external_body]
    pub fn cosh(&self) -> (r: Number)
        ensures
            r.big == cosh_of(self.big),
    {
        Number { big: self.big.cosh() }
    }

    /// Relies on `num_bigfloat::BigFloat::tanh`.
    #[verifier::external_body]
    pub fn tanh(&self) -> (r: Number)
        ensures
            r.big == tanh_of(self.big),
    {
        Number { big: self.big.tanh() }
    }

    /// Relies on `num_bigfloat::BigFloat::ln`.
    #[verifier::external_body]
    pub fn ln(&self) -> (r: Number)
        ensures
            r.big == ln_of(self.big),
    {
        Number { big: self.big.ln() }
    }

    /// Relies on `num_bigfloat::BigFloat::log2`.
    #[verifier::external_body]
    pub fn log2(&self) -> (r: Number)
        ensures
            r.big == log2_of(self.big),
    {
        Number { big: self.big.log2() }
    }

    /// Relies on `num_bigfloat::BigFloat::log10`.
    #[verifier::external_body]
    pub fn log10(&self) -> (r: Number)
        ensures
            r.big == log10_of(self.big),
    {
        Number { big: self.big.log10() }
    }

    /// Relies on `num_bigfloat::BigFloat::log`: the logarithm of `self` in
    /// base `o`.
    #[verifier::external_body]
    pub fn logb(&self, o: &Number) -> (r: Number)
        ensures
            r.big == logb_of(self.big, o.big),
    {
        Number { big: self.big.log(&o.big) }
    }

    /// Relies on `num_bigfloat::BigFloat::exp`.
    #[verifier::external_body]
    pub fn exp(&self) -> (r: Number)
        ensures
            r.big == exp_of(self.big),
    {
        Number { big: self.big.exp() }
    }

    /// Relies on `num_bigfloat::BigFloat::sqrt`.
    #[verifier::external_body]
    pub fn sqrt(&self) -> (r: Number)
        ensures
            r.big == sqrt_of(self.big),
    {
        Number { big: self.big.sqrt() }
    }

    /// Relies on `num_bigfloat::BigFloat::abs`.
    #[verifier::external_body]
    pub fn abs(&self) -> (r: Number)
        ensures
            r.big == abs_of(self.big),
    {
        Number { big: self.big.abs() }
    }

    /// Relies on `num_bigfloat::BigFloat::floor`.
    #[verifier::external_body]
    pub fn floor(&self) -> (r: Number)
        ensures
            r.big == floor_of(self.big),
    {
        Number { big: self.big.floor() }
    }

    /// Relies on `num_bigfloat::BigFloat::ceil`.
    #[verifier::external_body]
    pub fn ceil(&self) -> (r: Number)
        ensures
            r.big == ceil_of(self.big),
    {
        Number { big: self.big.ceil() }
    }

    /// Relies on `num_bigfloat::BigFloat::round` with no fractional
    /// positions kept and ties going away from zero.
    #[verifier::external_body]
    pub fn round(&self) -> (r: Number)
        ensures
            r.big == round_of(self.big),
    {
        Number { big: self.big.round(0, num_bigfloat::RoundingMode::FromZero) }
    }
}

} // verus!
