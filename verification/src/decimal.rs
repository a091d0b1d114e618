//! Fixed-point decimal numbers as `rust_decimal` represents them: a signed
//! 96-bit mantissa and a power-of-ten scale between 0 and 28.
//!
//! Comparisons and sign operations are exact and verified here; addition,
//! subtraction, multiplication and division are carried out by `rust_decimal`
//! (which rounds when a result does not fit) and their results are named.
use vstd::prelude::*;
use crate::text::nat_text;

verus! {

/// Largest mantissa magnitude, 2^96 - 1.
pub const MAX_MANTISSA: i128 = 79228162514264337593543950335i128;

/// Largest scale (number of fractional digits).
pub const MAX_SCALE: u32 = 28u32;

/// 10^n.
pub open spec fn pow10(n: nat) -> int
    decreases n,
{
    if n == 0 {
        1
    } else {
        10 * pow10((n - 1) as nat)
    }
}

pub proof fn lemma_pow10_positive(n: nat)
    ensures
        pow10(n) > 0,
    decreases n,
{
    if n > 0 {
        lemma_pow10_positive((n - 1) as nat);
    }
}

/// The number `mantissa / 10^scale`. `==` compares representations: `1.0`
/// (mantissa 10, scale 1) and `1` are different values of this type.
#[derive(Clone, Copy, Debug, PartialEq, Eq, Structural)]
pub struct Decimal {
    pub mantissa: i128,
    pub scale: u32,
}

impl Decimal {
    /// The representation lies in the range that `rust_decimal` supports.
    pub open spec fn wf(self) -> bool {
        &&& -MAX_MANTISSA <= self.mantissa <= MAX_MANTISSA
        &&& self.scale <= MAX_SCALE
    }

    /// `self < other` as numbers: both sides brought to the common
    /// denominator `10^(self.scale + other.scale)`.
    pub open spec fn spec_less(self, other: Decimal) -> bool {
        self.mantissa * pow10(other.scale as nat) < other.mantissa * pow10(self.scale as nat)
    }

    pub open spec fn is_positive(self) -> bool {
        self.mantissa > 0
    }

    pub open spec fn is_negative(self) -> bool {
        self.mantissa < 0
    }

    pub open spec fn is_zero(self) -> bool {
        self.mantissa == 0
    }

    pub open spec fn spec_zero() -> Decimal {
        Decimal { mantissa: 0, scale: 0 }
    }

    pub open spec fn spec_from_i64(n: i64) -> Decimal {
        Decimal { mantissa: n as i128, scale: 0 }
    }

    pub open spec fn spec_neg(self) -> Decimal {
        Decimal { mantissa: (-self.mantissa) as i128, scale: self.scale }
    }

    pub open spec fn spec_abs(self) -> Decimal {
        Decimal {
            mantissa: if self.mantissa < 0 { (-self.mantissa) as i128 } else { self.mantissa },
            scale: self.scale,
        }
    }

    /// Zero (`Decimal::ZERO`).
    pub fn zero() -> (r: Decimal)
        ensures
            r == Decimal::spec_zero(),
            r.wf(),
    {
        Decimal { mantissa: 0, scale: 0 }
    }

    /// One (`Decimal::ONE`).
    pub fn one() -> (r: Decimal)
        ensures
            r == (Decimal { mantissa: 1, scale: 0 }),
            r.wf(),
    {
        Decimal { mantissa: 1, scale: 0 }
    }

    /// The integer `n` at scale 0 (`Decimal::from(n)`).
    pub fn from_i64(n: i64) -> (r: Decimal)
        ensures
            r == Decimal::spec_from_i64(n),
            r.wf(),
    {
        Decimal { mantissa: n as i128, scale: 0 }
    }

    /// `mantissa / 10^scale`, or `None` where that is out of range.
    pub fn from_mantissa_scale(mantissa: i128, scale: u32) -> (r: Option<Decimal>)
        ensures
            r is Some <==> (Decimal { mantissa, scale }).wf(),
            r matches Some(d) ==> d == (Decimal { mantissa, scale }),
    {
        if -MAX_MANTISSA <= mantissa && mantissa <= MAX_MANTISSA && scale <= MAX_SCALE {
            Some(Decimal { mantissa, scale })
        } else {
            None
        }
    }

    /// Negation: the sign flips, the scale stays.
    pub fn neg(self) -> (r: Decimal)
        requires
            self.wf(),
        ensures
            r == self.spec_neg(),
            r.wf(),
    {
        Decimal { mantissa: -self.mantissa, scale: self.scale }
    }

    /// Absolute value: the sign is cleared, the scale stays.
    pub fn abs(self) -> (r: Decimal)
        requires
            self.wf(),
        ensures
            r == self.spec_abs(),
            r.wf(),
    {
        if self.mantissa < 0 {
            Decimal { mantissa: -self.mantissa, scale: self.scale }
        } else {
            self
        }
    }

    /// `self > 0`.
    pub fn gt_zero(self) -> (r: bool)
        ensures
            r == self.is_positive(),
            r == Decimal::spec_zero().spec_less(self),
    {
        proof {
            lemma_pow10_positive(self.scale as nat);
            assert(pow10(0) == 1);
            lemma_sign_times_positive(self.mantissa as int, pow10(self.scale as nat));
        }
        self.mantissa > 0
    }

    /// `self < 0`.
    pub fn lt_zero(self) -> (r: bool)
        ensures
            r == self.is_negative(),
            r == self.spec_less(Decimal::spec_zero()),
    {
        proof {
            lemma_pow10_positive(self.scale as nat);
            assert(pow10(0) == 1);
            lemma_sign_times_positive(self.mantissa as int, pow10(self.scale as nat));
        }
        self.mantissa < 0
    }
}

proof fn lemma_sign_times_positive(m: int, p: int)
    requires
        p > 0,
    ensures
        (m * p > 0) == (m > 0),
        (m * p < 0) == (m < 0),
        (m * p == 0) == (m == 0),
{
    if m > 0 {
        assert(m * p > 0) by (nonlinear_arith)
            requires
                m > 0,
                p > 0,
        ;
    } else if m < 0 {
        assert(m * p < 0) by (nonlinear_arith)
            requires
                m < 0,
                p > 0,
        ;
    }
}

/// What `rust_decimal::Decimal::checked_add` returns for the two numbers.
pub uninterp spec fn decimal_checked_add(a: Decimal, b: Decimal) -> Option<Decimal>;

/// What `rust_decimal::Decimal::checked_sub` returns for the two numbers.
pub uninterp spec fn decimal_checked_sub(a: Decimal, b: Decimal) -> Option<Decimal>;

/// What `rust_decimal::Decimal::checked_mul` returns for the two numbers.
pub uninterp spec fn decimal_checked_mul(a: Decimal, b: Decimal) -> Option<Decimal>;

/// What `rust_decimal::Decimal::checked_div` returns for the two numbers.
pub uninterp spec fn decimal_checked_div(a: Decimal, b: Decimal) -> Option<Decimal>;

/// What the source of `checked_add` shows of its result.
pub open spec fn sum_facts(a: Decimal, b: Decimal, r: Option<Decimal>) -> bool {
    &&& (a.mantissa == 0 ==> r == Some(b))
    &&& (a.mantissa != 0 && b.mantissa == 0 ==> r == Some(a))
    &&& (a.scale == b.scale && -MAX_MANTISSA <= a.mantissa + b.mantissa <= MAX_MANTISSA ==> r == Some(
        Decimal { mantissa: (a.mantissa + b.mantissa) as i128, scale: a.scale },
    ))
}

/// What the source of `checked_sub` shows of its result.
pub open spec fn difference_facts(a: Decimal, b: Decimal, r: Option<Decimal>) -> bool {
    &&& (a.mantissa != 0 && b.mantissa == 0 ==> r == Some(a))
    &&& (a.mantissa == 0 ==> r == Some(Decimal { mantissa: (-b.mantissa) as i128, scale: b.scale }))
    &&& (a.scale == b.scale && -MAX_MANTISSA <= a.mantissa - b.mantissa <= MAX_MANTISSA ==> r == Some(
        Decimal { mantissa: (a.mantissa - b.mantissa) as i128, scale: a.scale },
    ))
    &&& match r {
        Some(d) => (a.spec_less(b) ==> d.mantissa <= 0) && (b.spec_less(a) ==> d.mantissa >= 0),
        None => true,
    }
}

/// The sign of `r` is never the opposite of the sign of the product (or
/// quotient) of `a` and `b`; it may be zero where the magnitude rounds away.
pub open spec fn sign_facts(a: Decimal, b: Decimal, r: Option<Decimal>) -> bool {
    match r {
        Some(d) => {
            &&& ((a.mantissa >= 0 && b.mantissa >= 0) || (a.mantissa <= 0 && b.mantissa <= 0) ==> d.mantissa >= 0)
            &&& ((a.mantissa >= 0 && b.mantissa <= 0) || (a.mantissa <= 0 && b.mantissa >= 0) ==> d.mantissa <= 0)
        },
        None => true,
    }
}

/// What the source of `checked_mul` shows of its result.
pub open spec fn product_facts(a: Decimal, b: Decimal, r: Option<Decimal>) -> bool {
    &&& (a.mantissa == 0 || b.mantissa == 0 ==> r == Some(Decimal::spec_zero()))
    &&& (a.mantissa != 0 && b.mantissa != 0 && a.scale + b.scale <= MAX_SCALE
        && -MAX_MANTISSA <= a.mantissa * b.mantissa <= MAX_MANTISSA ==> r == Some(
        Decimal { mantissa: (a.mantissa * b.mantissa) as i128, scale: (a.scale + b.scale) as u32 },
    ))
    &&& sign_facts(a, b, r)
}

/// What the source of `checked_div` shows of its result.
pub open spec fn quotient_facts(a: Decimal, b: Decimal, r: Option<Decimal>) -> bool {
    &&& (b.mantissa == 0 ==> r is None)
    &&& (a.mantissa == 0 && b.mantissa != 0 ==> r == Some(Decimal::spec_zero()))
    &&& sign_facts(a, b, r)
}

/// Calls `rust_decimal::Decimal::checked_add`. Claimed: the result is the
/// named one; a result that exists lies in the supported range (the
/// crate's documented representation); adding anything to zero gives the
/// right operand as it is, and adding zero to a nonzero number gives that
/// number (the crate returns the operand unchanged); and at equal scales a sum that
/// fits in 96 bits is exact at that scale (the crate aligns nothing and only
/// rounds when the sum leaves 96 bits). Not claimed: rounding and overflow
/// in other cases.
#[verifier::external_body]
pub(crate) fn checked_add(a: Decimal, b: Decimal) -> (r: Option<Decimal>)
    requires
        a.wf(),
        b.wf(),
    ensures
        r == decimal_checked_add(a, b),
        r matches Some(d) ==> d.wf(),
        sum_facts(a, b, r),
{
    let x = rust_decimal::Decimal::from_i128_with_scale(a.mantissa, a.scale);
    let y = rust_decimal::Decimal::from_i128_with_scale(b.mantissa, b.scale);
    match x.checked_add(y) {
        Some(d) => Some(Decimal { mantissa: d.mantissa(), scale: d.scale() }),
        None => None,
    }
}

/// Calls `rust_decimal::Decimal::checked_sub`; claims as for `checked_add`,
/// except that subtracting from zero gives the right operand negated, at
/// its scale; besides, a difference never has the opposite sign of the
/// exact one (the crate computes the sign exactly and rounds only the
/// magnitude).
#[verifier::external_body]
pub(crate) fn checked_sub(a: Decimal, b: Decimal) -> (r: Option<Decimal>)
    requires
        a.wf(),
        b.wf(),
    ensures
        r == decimal_checked_sub(a, b),
        r matches Some(d) ==> d.wf(),
        difference_facts(a, b, r),
{
    let x = rust_decimal::Decimal::from_i128_with_scale(a.mantissa, a.scale);
    let y = rust_decimal::Decimal::from_i128_with_scale(b.mantissa, b.scale);
    match x.checked_sub(y) {
        Some(d) => Some(Decimal { mantissa: d.mantissa(), scale: d.scale() }),
        None => None,
    }
}

/// Calls `rust_decimal::Decimal::checked_mul`. Claimed besides the naming
/// and the range: a zero operand gives zero at scale 0, and a product whose
/// scales add up to at most 28 and whose mantissa fits in 96 bits is exact
/// (the crate only rescales beyond those bounds); and the product never has
/// the opposite sign of the operands' (the crate sets the sign as the
/// exclusive or of theirs and rounds only the magnitude, possibly to zero).
#[verifier::external_body]
pub(crate) fn checked_mul(a: Decimal, b: Decimal) -> (r: Option<Decimal>)
    requires
        a.wf(),
        b.wf(),
    ensures
        r == decimal_checked_mul(a, b),
        r matches Some(d) ==> d.wf(),
        product_facts(a, b, r),
{
    let x = rust_decimal::Decimal::from_i128_with_scale(a.mantissa, a.scale);
    let y = rust_decimal::Decimal::from_i128_with_scale(b.mantissa, b.scale);
    match x.checked_mul(y) {
        Some(d) => Some(Decimal { mantissa: d.mantissa(), scale: d.scale() }),
        None => None,
    }
}

/// Calls `rust_decimal::Decimal::checked_div`. Claimed besides the naming and
/// the range: division by zero gives `None`, and zero divided by anything
/// else gives zero at scale 0 (the crate's source tests both before dividing);
/// and the quotient never has the opposite sign of the operands' (the sign
/// is the exclusive or of theirs; only the magnitude is rounded).
#[verifier::external_body]
pub(crate) fn checked_div(a: Decimal, b: Decimal) -> (r: Option<Decimal>)
    requires
        a.wf(),
        b.wf(),
    ensures
        r == decimal_checked_div(a, b),
        r matches Some(d) ==> d.wf(),
        quotient_facts(a, b, r),
{
    let x = rust_decimal::Decimal::from_i128_with_scale(a.mantissa, a.scale);
    let y = rust_decimal::Decimal::from_i128_with_scale(b.mantissa, b.scale);
    match x.checked_div(y) {
        Some(d) => Some(Decimal { mantissa: d.mantissa(), scale: d.scale() }),
        None => None,
    }
}

/// Calls `<` of `rust_decimal::Decimal`, which compares the numbers by value
/// (its `cmp` rescales both to a common scale before comparing).
#[verifier::external_body]
pub(crate) fn less_than(a: Decimal, b: Decimal) -> (r: bool)
    requires
        a.wf(),
        b.wf(),
    ensures
        r == a.spec_less(b),
{
    let x = rust_decimal::Decimal::from_i128_with_scale(a.mantissa, a.scale);
    let y = rust_decimal::Decimal::from_i128_with_scale(b.mantissa, b.scale);
    x < y
}

/// `a + b` as `rust_decimal` computes it, or `None` where it overflows.
pub fn try_add(a: Decimal, b: Decimal) -> (r: Option<Decimal>)
    requires
        a.wf(),
        b.wf(),
    ensures
        r == decimal_checked_add(a, b),
        r matches Some(d) ==> d.wf(),
        sum_facts(a, b, r),
{
    match checked_add(a, b) {
        Some(_) => Some(self::add(a, b)),
        None => None,
    }
}

/// `a - b` as `rust_decimal` computes it, or `None` where it overflows.
pub fn try_sub(a: Decimal, b: Decimal) -> (r: Option<Decimal>)
    requires
        a.wf(),
        b.wf(),
    ensures
        r == decimal_checked_sub(a, b),
        r matches Some(d) ==> d.wf(),
        difference_facts(a, b, r),
{
    match checked_sub(a, b) {
        Some(_) => Some(self::sub(a, b)),
        None => None,
    }
}

/// `a * b` as `rust_decimal` computes it, or `None` where it overflows.
pub fn try_mul(a: Decimal, b: Decimal) -> (r: Option<Decimal>)
    requires
        a.wf(),
        b.wf(),
    ensures
        r == decimal_checked_mul(a, b),
        r matches Some(d) ==> d.wf(),
        product_facts(a, b, r),
{
    match checked_mul(a, b) {
        Some(_) => Some(self::mul(a, b)),
        None => None,
    }
}

/// `a / b` as `rust_decimal` computes it, or `None` where `b` is zero or the
/// quotient overflows.
pub fn try_div(a: Decimal, b: Decimal) -> (r: Option<Decimal>)
    requires
        a.wf(),
        b.wf(),
    ensures
        r == decimal_checked_div(a, b),
        r matches Some(d) ==> d.wf(),
        quotient_facts(a, b, r),
{
    match checked_div(a, b) {
        Some(_) => Some(self::div(a, b)),
        None => None,
    }
}

/// `a + b` as `rust_decimal` computes it, where it does not overflow.
pub fn add(a: Decimal, b: Decimal) -> (r: Decimal)
    requires
        a.wf(),
        b.wf(),
        decimal_checked_add(a, b) is Some,
    ensures
        r == decimal_checked_add(a, b)->0,
        r.wf(),
        sum_facts(a, b, Some(r)),
{
    checked_add(a, b).unwrap()
}

/// `a - b` as `rust_decimal` computes it, where it does not overflow.
pub fn sub(a: Decimal, b: Decimal) -> (r: Decimal)
    requires
        a.wf(),
        b.wf(),
        decimal_checked_sub(a, b) is Some,
    ensures
        r == decimal_checked_sub(a, b)->0,
        r.wf(),
        difference_facts(a, b, Some(r)),
{
    checked_sub(a, b).unwrap()
}

/// `a * b` as `rust_decimal` computes it, where it does not overflow.
pub fn mul(a: Decimal, b: Decimal) -> (r: Decimal)
    requires
        a.wf(),
        b.wf(),
        decimal_checked_mul(a, b) is Some,
    ensures
        r == decimal_checked_mul(a, b)->0,
        r.wf(),
        product_facts(a, b, Some(r)),
{
    checked_mul(a, b).unwrap()
}

/// `a / b` as `rust_decimal` computes it, where `b` is not zero and the
/// quotient does not overflow.
pub fn div(a: Decimal, b: Decimal) -> (r: Decimal)
    requires
        a.wf(),
        b.wf(),
        decimal_checked_div(a, b) is Some,
    ensures
        r == decimal_checked_div(a, b)->0,
        r.wf(),
        quotient_facts(a, b, Some(r)),
{
    checked_div(a, b).unwrap()
}

/// `a < b` by value.
pub fn lt(a: Decimal, b: Decimal) -> (r: bool)
    requires
        a.wf(),
        b.wf(),
    ensures
        r == a.spec_less(b),
{
    less_than(a, b)
}

/// The number a text stands for, as `rust_decimal` parses it.
pub uninterp spec fn decimal_from_text(text: Seq<char>) -> Option<Decimal>;

/// Parses with `str::parse::<rust_decimal::Decimal>` (its `FromStr`).
/// Claimed: the result is the named one, a function of the text, and a
/// result that exists lies in the supported range. The parse error is
/// dropped.
#[verifier::external_body]
pub(crate) fn parse_decimal(text: &str) -> (r: Option<Decimal>)
    ensures
        r == decimal_from_text(text@),
        r matches Some(d) ==> d.wf(),
{
    match text.parse::<rust_decimal::Decimal>() {
        Ok(d) => Some(Decimal { mantissa: d.mantissa(), scale: d.scale() }),
        Err(_) => None,
    }
}

/// The decimal digits of `n`, none for zero.
pub open spec fn digits_of(n: nat) -> Seq<char> {
    if n == 0 {
        Seq::empty()
    } else {
        nat_text(n)
    }
}

/// The text `Display` writes for a number: a minus sign where the number is
/// negative, then the digits of the mantissa's magnitude, padded with
/// leading zeros to at least `scale` digits, with a point before the last
/// `scale` of them; an empty whole part is written `0`.
pub open spec fn decimal_text(d: Decimal) -> Seq<char> {
    let n: nat = if d.mantissa < 0 { (-d.mantissa) as nat } else { d.mantissa as nat };
    let raw = digits_of(n);
    let s = d.scale as nat;
    let digits = if raw.len() < s { Seq::new((s - raw.len()) as nat, |i: int| '0') + raw } else { raw };
    let cut = digits.len() - s;
    let whole = if cut == 0 { seq!['0'] } else { digits.subrange(0, cut) };
    let body = if s == 0 { whole } else { whole + seq!['.'] + digits.subrange(cut, digits.len() as int) };
    (if d.mantissa < 0 { seq!['-'] } else { Seq::empty() }) + body
}

/// Writes a number with the `Display` of `rust_decimal::Decimal`. Claimed:
/// the text `decimal_text` describes, as the crate's `to_str_internal`
/// builds it with no precision asked for, the sign coming from
/// `pad_integral` (a number made from a zero mantissa is never negative).
#[verifier::external_body]
pub(crate) fn decimal_to_text(d: Decimal) -> (r: String)
    requires
        d.wf(),
    ensures
        r@ == decimal_text(d),
{
    rust_decimal::Decimal::from_i128_with_scale(d.mantissa, d.scale).to_string()
}

} // verus!
