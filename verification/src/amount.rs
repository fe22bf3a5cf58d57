//! Monetary amounts.
//!
//! An [`Amount`] holds the two plain values that make up a `rust_decimal::Decimal`: a signed
//! mantissa of at most 96 bits and a scale (the number of digits after the decimal point, at
//! most 28). Its value is `mantissa / 10^scale`. The arithmetic itself is done by
//! `rust_decimal`, through the trusted wrappers at the end of this file.
use rust_decimal::Decimal;
use rust_decimal::RoundingStrategy;
use vstd::prelude::*;

verus! {

/// The largest magnitude of a mantissa: 2^96 - 1.
pub const MAX_MANTISSA: i128 = 79228162514264337593543950335;

/// The largest scale.
pub const MAX_SCALE: u32 = 28;

/// The number of digits after the decimal point that amounts are rounded to.
pub const AMOUNT_DP: u32 = 4;

pub open spec fn pow10(n: nat) -> int
    decreases n,
{
    if n == 0 {
        1
    } else {
        10 * pow10((n - 1) as nat)
    }
}

pub open spec fn in_range(m: int) -> bool {
    -MAX_MANTISSA <= m <= MAX_MANTISSA
}

/// The mathematical content of an [`Amount`].
pub struct AmountModel {
    pub mantissa: int,
    pub scale: nat,
}

impl AmountModel {
    pub open spec fn wf(self) -> bool {
        &&& self.scale <= MAX_SCALE
        &&& in_range(self.mantissa)
    }

    /// The mantissa of the same value written with `s` digits after the point
    /// (meaningful for `s >= self.scale`).
    pub open spec fn aligned(self, s: nat) -> int {
        self.mantissa * pow10((s - self.scale) as nat)
    }

    /// The value in units of 10^-28, the finest step a decimal can express.
    pub open spec fn units(self) -> int {
        self.aligned(MAX_SCALE as nat)
    }

    pub open spec fn neg(self) -> AmountModel {
        AmountModel { mantissa: -self.mantissa, scale: self.scale }
    }
}

pub open spec fn zero_model() -> AmountModel {
    AmountModel { mantissa: 0, scale: 0 }
}

pub open spec fn common_scale(a: AmountModel, b: AmountModel) -> nat {
    if a.scale >= b.scale {
        a.scale
    } else {
        b.scale
    }
}

/// What `rust_decimal` returns for `a + b` when the operands and the sum, written at the
/// larger of the two scales, fit in 96 bits.
pub open spec fn add_spec(a: AmountModel, b: AmountModel) -> AmountModel {
    if a.mantissa == 0 {
        b
    } else if b.mantissa == 0 {
        a
    } else {
        let s = common_scale(a, b);
        AmountModel { mantissa: a.aligned(s) + b.aligned(s), scale: s }
    }
}

/// What `rust_decimal` returns for `a - b` under the same condition.
pub open spec fn sub_spec(a: AmountModel, b: AmountModel) -> AmountModel {
    if a.mantissa == 0 {
        b.neg()
    } else if b.mantissa == 0 {
        a
    } else {
        let s = common_scale(a, b);
        AmountModel { mantissa: a.aligned(s) - b.aligned(s), scale: s }
    }
}

/// `a + b` is computed exactly: both operands and the sum fit in 96 bits at the common scale.
pub open spec fn add_fits(a: AmountModel, b: AmountModel) -> bool {
    let s = common_scale(a, b);
    a.mantissa == 0 || b.mantissa == 0 || (in_range(a.aligned(s)) && in_range(b.aligned(s))
        && in_range(a.aligned(s) + b.aligned(s)))
}

/// `a - b` is computed exactly.
pub open spec fn sub_fits(a: AmountModel, b: AmountModel) -> bool {
    let s = common_scale(a, b);
    a.mantissa == 0 || b.mantissa == 0 || (in_range(a.aligned(s)) && in_range(b.aligned(s))
        && in_range(a.aligned(s) - b.aligned(s)))
}

/// The value of `a` is less than the value of `b`.
pub open spec fn lt_spec(a: AmountModel, b: AmountModel) -> bool {
    let s = common_scale(a, b);
    a.aligned(s) < b.aligned(s)
}

/// The values of `a` and `b` are equal.
pub open spec fn same_value(a: AmountModel, b: AmountModel) -> bool {
    let s = common_scale(a, b);
    a.aligned(s) == b.aligned(s)
}

/// `a` rounded to `dp` digits after the point, a midpoint rounded away from zero.
pub open spec fn round_spec(a: AmountModel, dp: nat) -> AmountModel {
    if a.scale <= dp {
        a
    } else if a.mantissa == 0 {
        AmountModel { mantissa: 0, scale: dp }
    } else {
        let d = pow10((a.scale - dp) as nat);
        let mag: int = if a.mantissa < 0 {
            -a.mantissa
        } else {
            a.mantissa
        };
        let q = mag / d;
        let r = mag % d;
        let rounded = if 2 * r >= d {
            q + 1
        } else {
            q
        };
        AmountModel { mantissa: if a.mantissa < 0 {
            -rounded
        } else {
            rounded
        }, scale: dp }
    }
}

/// What `rust_decimal` parses from a text (`None` where it refuses the text).
pub uninterp spec fn decimal_parse(text: Seq<char>) -> Option<AmountModel>;

/// What `Decimal::checked_add` returns where the exact sum does not fit in 96 bits at the
/// larger of the two scales (the source then rounds at a lower scale, or reports overflow).
pub uninterp spec fn decimal_checked_add(a: AmountModel, b: AmountModel) -> Option<AmountModel>;

/// What `Decimal::checked_sub` returns where the exact difference does not fit in 96 bits at
/// the larger of the two scales.
pub uninterp spec fn decimal_checked_sub(a: AmountModel, b: AmountModel) -> Option<AmountModel>;

/// What `a + b` gives: `None` where it overflows (where the `+` of `rust_decimal` panics).
pub open spec fn checked_add_spec(a: AmountModel, b: AmountModel) -> Option<AmountModel> {
    if add_fits(a, b) {
        Some(add_spec(a, b))
    } else {
        decimal_checked_add(a, b)
    }
}

/// What `a - b` gives: `None` where it overflows.
pub open spec fn checked_sub_spec(a: AmountModel, b: AmountModel) -> Option<AmountModel> {
    if sub_fits(a, b) {
        Some(sub_spec(a, b))
    } else {
        decimal_checked_sub(a, b)
    }
}

/// `a + b` does not overflow.
pub open spec fn add_ok(a: AmountModel, b: AmountModel) -> bool {
    checked_add_spec(a, b) matches Some(x) && x.wf()
}

/// `a - b` does not overflow.
pub open spec fn sub_ok(a: AmountModel, b: AmountModel) -> bool {
    checked_sub_spec(a, b) matches Some(x) && x.wf()
}

/// The sum, where `a + b` does not overflow.
pub open spec fn sum_of(a: AmountModel, b: AmountModel) -> AmountModel {
    checked_add_spec(a, b).unwrap()
}

/// The difference, where `a - b` does not overflow.
pub open spec fn difference_of(a: AmountModel, b: AmountModel) -> AmountModel {
    checked_sub_spec(a, b).unwrap()
}

pub open spec fn model_of(r: Option<Amount>) -> Option<AmountModel> {
    match r {
        Some(x) => Some(x@),
        None => None,
    }
}

/// The character of a decimal digit.
pub open spec fn digit_char(d: nat) -> char {
    (48 + d) as char
}

/// The decimal digits of `n`, without leading zeros ("0" for zero).
pub open spec fn nat_digits(n: nat) -> Seq<char>
    decreases n,
{
    if n < 10 {
        seq![digit_char(n)]
    } else {
        nat_digits(n / 10).push(digit_char(n % 10))
    }
}

/// The text that `rust_decimal` displays for a decimal: a `-` where it is negative, the digits
/// of the magnitude of the mantissa padded with zeros on the left to at least `scale` digits,
/// a point before the last `scale` of them where `scale` is not zero, and a `0` where nothing
/// stands before the point.
pub open spec fn decimal_text(mantissa: int, scale: nat) -> Seq<char> {
    let mag: nat = if mantissa < 0 {
        (-mantissa) as nat
    } else {
        mantissa as nat
    };
    let d = if mag == 0 {
        Seq::<char>::empty()
    } else {
        nat_digits(mag)
    };
    let padded = if d.len() < scale {
        Seq::new((scale - d.len()) as nat, |i: int| '0') + d
    } else {
        d
    };
    let w = padded.len() - scale;
    let body = if scale == 0 {
        if padded.len() == 0 {
            seq!['0']
        } else {
            padded
        }
    } else {
        (if w == 0 {
            seq!['0']
        } else {
            padded.take(w)
        }) + seq!['.'] + padded.skip(w)
    };
    if mantissa < 0 {
        seq!['-'] + body
    } else {
        body
    }
}

/// An amount of money: the mantissa and scale of a decimal.
#[derive(Clone, Copy, Debug)]
pub struct Amount {
    mantissa: i128,
    scale: u32,
}

/// Why a text is not an amount.
#[derive(Clone, Copy, Debug, PartialEq, Eq, Structural)]
pub enum AmountError {
    Malformed,
}

impl View for Amount {
    type V = AmountModel;

    closed spec fn view(&self) -> AmountModel {
        AmountModel { mantissa: self.mantissa as int, scale: self.scale as nat }
    }
}

impl Amount {
    #[verifier::type_invariant]
    spec fn inv(&self) -> bool {
        self@.wf()
    }

    /// Every amount is well formed.
    pub fn check_wf(&self)
        ensures
            self@.wf(),
    {
        proof {
            use_type_invariant(self);
        }
    }

    /// The amount `num / 10^scale`.
    pub fn new(num: i64, scale: u32) -> (r: Amount)
        requires
            scale <= MAX_SCALE,
        ensures
            r@ == (AmountModel { mantissa: num as int, scale: scale as nat }),
    {
        Amount { mantissa: num as i128, scale }
    }

    /// The amount with the given mantissa and scale, where they are those of a decimal.
    pub fn from_parts(mantissa: i128, scale: u32) -> (r: Option<Amount>)
        ensures
            r is Some <==> (AmountModel { mantissa: mantissa as int, scale: scale as nat }).wf(),
            r matches Some(a) ==> a@ == (AmountModel {
                mantissa: mantissa as int,
                scale: scale as nat,
            }),
    {
        if scale <= MAX_SCALE && -MAX_MANTISSA <= mantissa && mantissa <= MAX_MANTISSA {
            Some(Amount { mantissa, scale })
        } else {
            None
        }
    }

    /// Zero.
    pub fn zero() -> (r: Amount)
        ensures
            r@ == zero_model(),
    {
        Amount { mantissa: 0, scale: 0 }
    }

    /// Whether the value is below zero.
    pub fn is_negative(&self) -> (r: bool)
        ensures
            r == (self@.mantissa < 0),
            r == (self@.units() < 0),
    {
        proof {
            use_type_invariant(self);
            lemma_sign_units(self@);
        }
        self.mantissa < 0
    }

    pub fn mantissa(&self) -> (r: i128)
        ensures
            r == self@.mantissa,
    {
        self.mantissa
    }

    pub fn scale(&self) -> (r: u32)
        ensures
            r == self@.scale,
    {
        self.scale
    }
}

impl PartialEq for Amount {
    /// Two amounts are equal where their values are, whatever their scales.
    fn eq(&self, other: &Amount) -> (r: bool) {
        proof {
            use_type_invariant(self);
            use_type_invariant(other);
        }
        decimal_eq(*self, *other)
    }
}

impl vstd::std_specs::cmp::PartialEqSpecImpl for Amount {
    open spec fn obeys_eq_spec() -> bool {
        true
    }

    open spec fn eq_spec(&self, other: &Amount) -> bool {
        same_value(self@, other@)
    }
}

/// `a * 10^(to - from)` where that fits in 96 bits, else `None`.
fn aligned_mantissa(m: i128, from: u32, to: u32) -> (r: Option<i128>)
    requires
        in_range(m as int),
        from <= to <= MAX_SCALE,
    ensures
        r matches Some(x) ==> x == m * pow10((to - from) as nat) && in_range(x as int),
        r is None ==> !in_range(m * pow10((to - from) as nat)),
{
    let mut x: i128 = m;
    let mut k: u32 = from;
    while k < to
        invariant
            from <= k <= to <= MAX_SCALE,
            in_range(x as int),
            x == m * pow10((k - from) as nat),
        decreases to - k,
    {
        proof {
            lemma_pow10_succ((k - from) as nat);
            assert(x * 10 == m * pow10((k + 1 - from) as nat)) by (nonlinear_arith)
                requires
                    x == m * pow10((k - from) as nat),
                    pow10((k + 1 - from) as nat) == 10 * pow10((k - from) as nat),
            ;
        }
        let y: i128 = x * 10;
        k = k + 1;
        if y < -MAX_MANTISSA || y > MAX_MANTISSA {
            proof {
                lemma_out_of_range_grows(y as int, (to - k) as nat);
                lemma_pow10_add((k - from) as nat, (to - k) as nat);
                assert(m * pow10((to - from) as nat) == y * pow10((to - k) as nat))
                    by (nonlinear_arith)
                    requires
                        y == m * pow10((k - from) as nat),
                        pow10((to - from) as nat) == pow10((k - from) as nat) * pow10(
                            (to - k) as nat,
                        ),
                ;
            }
            return None;
        }
        x = y;
    }
    Some(x)
}

/// Whether `a + b` is computed exactly (see [`add_fits`]).
pub fn can_add(a: Amount, b: Amount) -> (r: bool)
    ensures
        r == add_fits(a@, b@),
{
    proof {
        use_type_invariant(a);
        use_type_invariant(b);
    }
    if a.mantissa == 0 || b.mantissa == 0 {
        return true;
    }
    let s = if a.scale >= b.scale {
        a.scale
    } else {
        b.scale
    };
    match (aligned_mantissa(a.mantissa, a.scale, s), aligned_mantissa(b.mantissa, b.scale, s)) {
        (Some(x), Some(y)) => -MAX_MANTISSA <= x + y && x + y <= MAX_MANTISSA,
        _ => false,
    }
}

/// Whether `a - b` is computed exactly (see [`sub_fits`]).
pub fn can_sub(a: Amount, b: Amount) -> (r: bool)
    ensures
        r == sub_fits(a@, b@),
{
    proof {
        use_type_invariant(a);
        use_type_invariant(b);
    }
    if a.mantissa == 0 || b.mantissa == 0 {
        return true;
    }
    let s = if a.scale >= b.scale {
        a.scale
    } else {
        b.scale
    };
    match (aligned_mantissa(a.mantissa, a.scale, s), aligned_mantissa(b.mantissa, b.scale, s)) {
        (Some(x), Some(y)) => -MAX_MANTISSA <= x - y && x - y <= MAX_MANTISSA,
        _ => false,
    }
}

pub proof fn lemma_pow10_succ(n: nat)
    ensures
        pow10(n + 1) == 10 * pow10(n),
{
    assert(((n + 1) - 1) as nat == n);
}

pub proof fn lemma_pow10_pos(n: nat)
    ensures
        pow10(n) >= 1,
    decreases n,
{
    if n > 0 {
        lemma_pow10_pos((n - 1) as nat);
    }
}

pub proof fn lemma_pow10_add(a: nat, b: nat)
    ensures
        pow10(a + b) == pow10(a) * pow10(b),
    decreases b,
{
    if b == 0 {
        assert(a + b == a);
    } else {
        let b1 = (b - 1) as nat;
        lemma_pow10_add(a, b1);
        lemma_pow10_succ(a + b1);
        lemma_pow10_succ(b1);
        assert(a + b1 + 1 == a + b);
        assert(b1 + 1 == b);
        assert(pow10(a) * (10 * pow10(b1)) == 10 * (pow10(a) * pow10(b1))) by (nonlinear_arith);
    }
}

/// A mantissa out of range stays out of range when it is scaled up.
proof fn lemma_out_of_range_grows(y: int, n: nat)
    requires
        !in_range(y),
    ensures
        !in_range(y * pow10(n)),
{
    lemma_pow10_pos(n);
    if y > 0 {
        assert(y * pow10(n) >= y) by (nonlinear_arith)
            requires
                y > 0,
                pow10(n) >= 1,
        ;
    } else {
        assert(y * pow10(n) <= y) by (nonlinear_arith)
            requires
                y < 0,
                pow10(n) >= 1,
        ;
    }
}

proof fn lemma_zero_units(a: AmountModel)
    requires
        a.mantissa == 0,
    ensures
        a.units() == 0,
{
    let p = pow10((MAX_SCALE - a.scale) as nat);
    assert(a.mantissa * p == 0) by (nonlinear_arith)
        requires
            a.mantissa == 0,
    ;
}

/// The sign of the units is that of the mantissa.
proof fn lemma_sign_units(a: AmountModel)
    requires
        a.scale <= MAX_SCALE,
    ensures
        (a.mantissa < 0) == (a.units() < 0),
{
    let p = pow10((MAX_SCALE - a.scale) as nat);
    lemma_pow10_pos((MAX_SCALE - a.scale) as nat);
    assert((a.mantissa < 0) == (a.mantissa * p < 0)) by (nonlinear_arith)
        requires
            p >= 1,
    ;
}

/// Writing an amount at a finer scale keeps its units.
pub proof fn lemma_aligned_units(a: AmountModel, s: nat)
    requires
        a.scale <= s <= MAX_SCALE,
    ensures
        a.aligned(s) * pow10((MAX_SCALE - s) as nat) == a.units(),
{
    lemma_pow10_add((s - a.scale) as nat, (MAX_SCALE - s) as nat);
    assert(((s - a.scale) as nat + (MAX_SCALE - s) as nat) == (MAX_SCALE - a.scale) as nat);
    let p = pow10((s - a.scale) as nat);
    let q = pow10((MAX_SCALE - s) as nat);
    assert(a.mantissa * p * q == a.mantissa * (p * q)) by (nonlinear_arith);
}

/// The value of a sum is the sum of the values.
pub proof fn lemma_add_units(a: AmountModel, b: AmountModel)
    requires
        a.scale <= MAX_SCALE,
        b.scale <= MAX_SCALE,
    ensures
        add_spec(a, b).units() == a.units() + b.units(),
        add_spec(a, b).scale <= MAX_SCALE,
{
    let s = common_scale(a, b);
    lemma_aligned_units(a, s);
    lemma_aligned_units(b, s);
    if a.mantissa == 0 {
        lemma_zero_units(a);
    } else if b.mantissa == 0 {
        lemma_zero_units(b);
    } else {
        let r = add_spec(a, b);
        let q = pow10((MAX_SCALE - s) as nat);
        assert(r.units() == r.mantissa * q) by {
            assert(r.aligned(MAX_SCALE as nat) == r.mantissa * pow10((MAX_SCALE - s) as nat));
        }
        assert((a.aligned(s) + b.aligned(s)) * q == a.aligned(s) * q + b.aligned(s) * q)
            by (nonlinear_arith);
    }
}

/// The value of a difference is the difference of the values.
pub proof fn lemma_sub_units(a: AmountModel, b: AmountModel)
    requires
        a.scale <= MAX_SCALE,
        b.scale <= MAX_SCALE,
    ensures
        sub_spec(a, b).units() == a.units() - b.units(),
        sub_spec(a, b).scale <= MAX_SCALE,
{
    let s = common_scale(a, b);
    lemma_aligned_units(a, s);
    lemma_aligned_units(b, s);
    if a.mantissa == 0 {
        lemma_zero_units(a);
        let p = pow10((MAX_SCALE - b.scale) as nat);
        assert((-b.mantissa) * p == -(b.mantissa * p)) by (nonlinear_arith);
    } else if b.mantissa == 0 {
        lemma_zero_units(b);
    } else {
        let r = sub_spec(a, b);
        let q = pow10((MAX_SCALE - s) as nat);
        assert(r.units() == r.mantissa * q) by {
            assert(r.aligned(MAX_SCALE as nat) == r.mantissa * pow10((MAX_SCALE - s) as nat));
        }
        assert((a.aligned(s) - b.aligned(s)) * q == a.aligned(s) * q - b.aligned(s) * q)
            by (nonlinear_arith);
    }
}

/// Comparing at the common scale compares the values.
pub proof fn lemma_lt_units(a: AmountModel, b: AmountModel)
    requires
        a.scale <= MAX_SCALE,
        b.scale <= MAX_SCALE,
    ensures
        lt_spec(a, b) <==> a.units() < b.units(),
        same_value(a, b) <==> a.units() == b.units(),
{
    let s = common_scale(a, b);
    lemma_aligned_units(a, s);
    lemma_aligned_units(b, s);
    let q = pow10((MAX_SCALE - s) as nat);
    lemma_pow10_pos((MAX_SCALE - s) as nat);
    let x = a.aligned(s);
    let y = b.aligned(s);
    assert(x < y <==> x * q < y * q) by (nonlinear_arith)
        requires
            q >= 1,
    ;
    assert(x == y <==> x * q == y * q) by (nonlinear_arith)
        requires
            q >= 1,
    ;
}

/// `amount` rounded to four digits after the point, a midpoint rounded away from zero.
pub fn round_amount(amount: Amount) -> (r: Amount)
    ensures
        r@ == round_spec(amount@, AMOUNT_DP as nat),
        r@.wf(),
{
    proof {
        use_type_invariant(amount);
    }
    decimal_round_dp(amount, AMOUNT_DP)
}

/// The text of `amount` rounded to four digits after the point.
pub fn serialize_amount(amount: Amount) -> (r: String)
    ensures
        r@ == decimal_text(
            round_spec(amount@, AMOUNT_DP as nat).mantissa,
            round_spec(amount@, AMOUNT_DP as nat).scale,
        ),
{
    let rounded = round_amount(amount);
    decimal_to_string(rounded)
}

/// The amount that a text gives: zero for an empty text, else the decimal that the text
/// spells, rounded to four digits after the point.
pub fn deserialize_amount(text: &str) -> (r: Result<Amount, AmountError>)
    ensures
        text@.len() == 0 ==> (r matches Ok(a) && a@ == zero_model()),
        text@.len() != 0 ==> match decimal_parse(text@) {
            Some(d) => r matches Ok(a) && a@ == round_spec(d, AMOUNT_DP as nat),
            None => r == Err::<Amount, AmountError>(AmountError::Malformed),
        },
{
    if text.is_empty() {
        return Ok(Amount::zero());
    }
    match decimal_from_str(text) {
        Some(d) => Ok(round_amount(d)),
        None => Err(AmountError::Malformed),
    }
}

// The trusted items below make the calls into `rust_decimal`. Each converts its `Amount`
// arguments into decimals with `Decimal::from_i128_with_scale`, which does not panic on a
// well-formed amount, and converts a decimal result back with `Decimal::mantissa` and
// `Decimal::scale`, which always give a mantissa within 96 bits and a scale of at most 28.

/// Calls `Decimal::checked_add` (`rust_decimal::ops::add_impl`, whose overflow is also what
/// makes `Decimal + Decimal` panic). Where both operands and the exact sum fit in 96 bits at
/// the larger of the two scales, the source computes the sum exactly at that scale, and
/// returns an operand unchanged where the other one is zero; elsewhere its result is named
/// [`decimal_checked_add`]. A decimal it gives is well formed.
#[verifier::external_body]
pub(crate) fn decimal_add(a: Amount, b: Amount) -> (r: Option<Amount>)
    requires
        a@.wf(),
        b@.wf(),
    ensures
        add_fits(a@, b@) ==> model_of(r) == Some(add_spec(a@, b@)),
        !add_fits(a@, b@) ==> model_of(r) == decimal_checked_add(a@, b@),
        r matches Some(x) ==> x@.wf(),
{
    let x = Decimal::from_i128_with_scale(a.mantissa, a.scale);
    let y = Decimal::from_i128_with_scale(b.mantissa, b.scale);
    match x.checked_add(y) {
        Some(z) => Some(Amount { mantissa: z.mantissa(), scale: z.scale() }),
        None => None,
    }
}

/// Calls `Decimal::checked_sub` (`rust_decimal::ops::sub_impl`), stated as for
/// [`decimal_add`]; where the left operand is zero the source returns the right one negated.
/// Elsewhere its result is named [`decimal_checked_sub`].
#[verifier::external_body]
pub(crate) fn decimal_sub(a: Amount, b: Amount) -> (r: Option<Amount>)
    requires
        a@.wf(),
        b@.wf(),
    ensures
        sub_fits(a@, b@) ==> model_of(r) == Some(sub_spec(a@, b@)),
        !sub_fits(a@, b@) ==> model_of(r) == decimal_checked_sub(a@, b@),
        r matches Some(x) ==> x@.wf(),
{
    let x = Decimal::from_i128_with_scale(a.mantissa, a.scale);
    let y = Decimal::from_i128_with_scale(b.mantissa, b.scale);
    match x.checked_sub(y) {
        Some(z) => Some(Amount { mantissa: z.mantissa(), scale: z.scale() }),
        None => None,
    }
}

/// Calls `Decimal < Decimal`, which compares the values exactly (`rust_decimal::ops::cmp_impl`).
#[verifier::external_body]
pub(crate) fn decimal_lt(a: Amount, b: Amount) -> (r: bool)
    requires
        a@.wf(),
        b@.wf(),
    ensures
        r == lt_spec(a@, b@),
{
    Decimal::from_i128_with_scale(a.mantissa, a.scale) < Decimal::from_i128_with_scale(
        b.mantissa,
        b.scale,
    )
}

/// Calls `Decimal == Decimal`, which compares the values exactly.
#[verifier::external_body]
fn decimal_eq(a: Amount, b: Amount) -> (r: bool)
    requires
        a@.wf(),
        b@.wf(),
    ensures
        r == same_value(a@, b@),
{
    Decimal::from_i128_with_scale(a.mantissa, a.scale) == Decimal::from_i128_with_scale(
        b.mantissa,
        b.scale,
    )
}

/// Calls `Decimal::round_dp_with_strategy` with `MidpointAwayFromZero`. The source leaves a
/// decimal with at most `dp` digits after the point unchanged, and otherwise divides the
/// magnitude by `10^(scale - dp)`, adds one where the remainder is at least half the divisor,
/// and keeps the sign, at scale `dp`.
#[verifier::external_body]
fn decimal_round_dp(a: Amount, dp: u32) -> (r: Amount)
    requires
        a@.wf(),
    ensures
        r@ == round_spec(a@, dp as nat),
        r@.wf(),
{
    let x = Decimal::from_i128_with_scale(a.mantissa, a.scale);
    let z = x.round_dp_with_strategy(dp, RoundingStrategy::MidpointAwayFromZero);
    Amount { mantissa: z.mantissa(), scale: z.scale() }
}

/// Calls `<Decimal as FromStr>::from_str`; its result is named [`decimal_parse`], and a
/// decimal it gives is well formed.
#[verifier::external_body]
fn decimal_from_str(text: &str) -> (r: Option<Amount>)
    ensures
        match r {
            Some(a) => decimal_parse(text@) == Some(a@) && a@.wf(),
            None => decimal_parse(text@) is None,
        },
{
    match text.parse::<Decimal>() {
        Ok(z) => Some(Amount { mantissa: z.mantissa(), scale: z.scale() }),
        Err(_) => None,
    }
}

/// Calls `<Decimal as ToString>::to_string`: the source (`Display` through
/// `str::to_str_internal` and `Formatter::pad_integral`, with no width or precision) gives
/// the text stated by [`decimal_text`].
#[verifier::external_body]
fn decimal_to_string(a: Amount) -> (r: String)
    requires
        a@.wf(),
    ensures
        r@ == decimal_text(a@.mantissa, a@.scale),
{
    Decimal::from_i128_with_scale(a.mantissa, a.scale).to_string()
}

} // verus!
