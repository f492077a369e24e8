//! Fixed-point decimal numbers as used for all money, price and quantity values.
//!
//! A `Dec` holds the same two plain values as `rust_decimal::Decimal`: a signed
//! mantissa of at most 96 bits and a scale between 0 and 28; its value is
//! `mantissa / 10^scale`.  Arithmetic that may round is done by `rust_decimal`
//! itself behind the trusted items of this module.
use vstd::prelude::*;
use rust_decimal::Decimal;
use vstd::arithmetic::div_mod::{lemma_fundamental_div_mod, lemma_fundamental_div_mod_converse};

verus! {

/// 10 raised to `n`.
pub open spec fn pow10(n: nat) -> int
    decreases n,
{
    if n == 0 {
        1
    } else {
        10 * pow10((n - 1) as nat)
    }
}

/// The largest mantissa magnitude a decimal can hold: 2^96 - 1.
pub const MAX_MANTISSA: i128 = 0xFFFF_FFFF_FFFF_FFFF_FFFF_FFFFi128;

/// The largest scale (number of fractional digits) a decimal can hold.
pub const MAX_SCALE: u32 = 28;

/// Value of a (mantissa, scale) pair counted in units of 10^-28.
pub open spec fn pair_units(p: (int, int)) -> int {
    p.0 * pow10((28 - p.1) as nat)
}

/// A pair that a decimal can hold.
pub open spec fn pair_fits(p: (int, int)) -> bool {
    &&& 0 <= p.1 <= 28
    &&& -MAX_MANTISSA <= p.0 <= MAX_MANTISSA
}

/// Outcome of comparing two decimals by value.
#[derive(Clone, Copy, Debug, PartialEq, Eq, Structural)]
pub enum Order {
    Less,
    Equal,
    Greater,
}

/// What `rust_decimal` returns for `a + b` on (mantissa, scale) pairs; `None` on overflow.
pub uninterp spec fn decimal_sum(am: int, asc: int, bm: int, bsc: int) -> Option<(int, int)>;

/// What `rust_decimal` returns for `a - b` on (mantissa, scale) pairs; `None` on overflow.
pub uninterp spec fn decimal_difference(am: int, asc: int, bm: int, bsc: int) -> Option<(int, int)>;

/// What `rust_decimal` returns for `a * b` on (mantissa, scale) pairs; `None` on overflow.
pub uninterp spec fn decimal_product(am: int, asc: int, bm: int, bsc: int) -> Option<(int, int)>;

/// What `rust_decimal` returns for `a / b` on (mantissa, scale) pairs; `None` on a zero divisor or overflow.
pub uninterp spec fn decimal_quotient(am: int, asc: int, bm: int, bsc: int) -> Option<(int, int)>;

/// What `rust_decimal`'s `FromStr` gives for a text, as a (mantissa, scale) pair.
pub uninterp spec fn decimal_from_text(text: Seq<char>) -> Option<(int, int)>;

/// The decimal digits of `n`, most significant first; none for zero.
pub open spec fn digits_of(n: nat) -> Seq<char>
    decreases n,
{
    if n == 0 {
        seq![]
    } else {
        digits_of(n / 10) + seq![(48 + n % 10) as char]
    }
}

/// `d` with zeros put in front up to `w` characters.
pub open spec fn zero_padded(d: Seq<char>, w: nat) -> Seq<char> {
    if d.len() >= w {
        d
    } else {
        Seq::new((w - d.len()) as nat, |i: int| '0') + d
    }
}

/// The text `rust_decimal`'s `Display` writes for a (mantissa, scale) pair: a
/// minus sign for a negative value, the whole digits ("0" when there are
/// none), and, for a positive scale, a point and exactly `s` fractional digits.
pub open spec fn decimal_display(m: int, s: int) -> Seq<char> {
    let mag = if m < 0 { -m } else { m };
    let d = zero_padded(digits_of(mag as nat), s as nat);
    let whole = d.subrange(0, d.len() - s);
    let int_part = if whole.len() == 0 { seq!['0'] } else { whole };
    let body = if s > 0 { int_part + seq!['.'] + d.subrange(d.len() - s, d.len() as int) } else { int_part };
    if m < 0 { seq!['-'] + body } else { body }
}

/// The exact sum of two pairs, written at the larger of the two scales.
pub open spec fn aligned_sum(a: (int, int), b: (int, int)) -> (int, int) {
    let s = if a.1 >= b.1 { a.1 } else { b.1 };
    (a.0 * pow10((s - a.1) as nat) + b.0 * pow10((s - b.1) as nat), s)
}

/// The exact difference of two pairs, written at the larger of the two scales.
pub open spec fn aligned_difference(a: (int, int), b: (int, int)) -> (int, int) {
    aligned_sum(a, (-b.0, b.1))
}

/// Half-to-even rounding of a (mantissa, scale) pair to `dp` fractional digits.
pub open spec fn round_dp_pair(p: (int, int), dp: int) -> (int, int) {
    if p.1 <= dp {
        p
    } else {
        let unit = pow10((p.1 - dp) as nat);
        let mag = if p.0 < 0 { -p.0 } else { p.0 };
        let q = mag / unit;
        let r = mag % unit;
        let rq = if 2 * r > unit || (2 * r == unit && q % 2 == 1) { q + 1 } else { q };
        (if p.0 < 0 { -rq } else { rq }, dp)
    }
}

/// A decimal number: `mantissa / 10^scale`.
#[derive(Clone, Copy, Debug)]
pub struct Dec {
    mantissa: i128,
    scale: u32,
}

/// Lifts a pair-valued result to a spec-level option of pairs.
pub open spec fn opt_pair(r: Option<Dec>) -> Option<(int, int)> {
    match r {
        Some(d) => Some(d.pair()),
        None => None,
    }
}

impl Dec {
    #[verifier::type_invariant]
    spec fn inv(self) -> bool {
        &&& self.scale <= MAX_SCALE
        &&& -MAX_MANTISSA <= self.mantissa <= MAX_MANTISSA
    }

    /// The mantissa.
    pub closed spec fn m(self) -> int {
        self.mantissa as int
    }

    /// The scale.
    pub closed spec fn sc(self) -> int {
        self.scale as int
    }

    /// (mantissa, scale).
    pub open spec fn pair(self) -> (int, int) {
        (self.m(), self.sc())
    }

    /// The value in units of 10^-28.
    pub open spec fn units(self) -> int {
        pair_units(self.pair())
    }

    /// Builds `mantissa / 10^scale`; `None` when the pair does not fit.
    pub fn new(mantissa: i128, scale: u32) -> (r: Option<Dec>)
        ensures
            r is Some <==> pair_fits((mantissa as int, scale as int)),
            r matches Some(d) ==> d.pair() == (mantissa as int, scale as int),
    {
        if scale <= MAX_SCALE && -MAX_MANTISSA <= mantissa && mantissa <= MAX_MANTISSA {
            Some(Dec { mantissa, scale })
        } else {
            None
        }
    }

    /// Zero (mantissa 0, scale 0).
    pub fn zero() -> (r: Dec)
        ensures
            r.pair() == (0int, 0int),
    {
        Dec { mantissa: 0, scale: 0 }
    }

    /// The integer `v` (scale 0).
    pub fn from_int(v: i64) -> (r: Dec)
        ensures
            r.pair() == (v as int, 0int),
    {
        Dec { mantissa: v as i128, scale: 0 }
    }

    /// `mantissa / 10^scale` for a mantissa that fits in an `i64`.
    pub fn from_small(mantissa: i64, scale: u32) -> (r: Dec)
        requires
            scale <= 28,
        ensures
            r.pair() == (mantissa as int, scale as int),
    {
        Dec { mantissa: mantissa as i128, scale }
    }

    /// The mantissa.
    pub fn mantissa(&self) -> (r: i128)
        ensures
            r as int == self.m(),
    {
        self.mantissa
    }

    /// The scale.
    pub fn scale(&self) -> (r: u32)
        ensures
            r as int == self.sc(),
            r <= MAX_SCALE,
    {
        proof {
            use_type_invariant(self);
        }
        self.scale
    }

    /// Whether the value is zero.
    pub fn is_zero(&self) -> (r: bool)
        ensures
            r == (self.m() == 0),
            r == (self.units() == 0),
    {
        proof {
            use_type_invariant(self);
            lemma_pow10_positive((28 - self.sc()) as nat);
            assert(self.m() != 0 ==> self.units() != 0) by (nonlinear_arith)
                requires
                    self.units() == self.m() * pow10((28 - self.sc()) as nat),
                    pow10((28 - self.sc()) as nat) > 0,
            ;
        }
        self.mantissa == 0
    }

    /// Whether the value is above zero.
    pub fn is_positive(&self) -> (r: bool)
        ensures
            r == (self.m() > 0),
            r == (self.units() > 0),
    {
        proof {
            use_type_invariant(self);
            lemma_units_sign(*self);
        }
        self.mantissa > 0
    }

    /// The absolute value (same scale).
    pub fn abs(&self) -> (r: Dec)
        ensures
            r.pair() == (if self.m() < 0 { -self.m() } else { self.m() }, self.sc()),
    {
        proof {
            use_type_invariant(self);
        }
        if self.mantissa < 0 {
            Dec { mantissa: -self.mantissa, scale: self.scale }
        } else {
            *self
        }
    }

    /// The negated value (same scale).
    pub fn neg(&self) -> (r: Dec)
        ensures
            r.pair() == (-self.m(), self.sc()),
    {
        proof {
            use_type_invariant(self);
        }
        Dec { mantissa: -self.mantissa, scale: self.scale }
    }
}

/// Whether `rust_decimal` adds the two pairs without rounding: one of them is zero,
/// or their sum written at the larger scale fits in 96 bits.
pub open spec fn sum_is_exact(a: (int, int), b: (int, int)) -> bool {
    a.0 == 0 || b.0 == 0 || pair_fits(aligned_sum(a, b))
}

/// The pair `rust_decimal` returns for an exact sum: the other operand when one is
/// zero (the first operand is tested first), else the aligned sum.
pub open spec fn exact_sum(a: (int, int), b: (int, int)) -> (int, int) {
    if a.0 == 0 {
        b
    } else if b.0 == 0 {
        a
    } else {
        aligned_sum(a, b)
    }
}

/// The result of `rust_decimal`'s checked addition on two pairs.
pub open spec fn add_result(a: (int, int), b: (int, int)) -> Option<(int, int)> {
    if sum_is_exact(a, b) {
        Some(exact_sum(a, b))
    } else {
        decimal_sum(a.0, a.1, b.0, b.1)
    }
}

/// Whether `rust_decimal` subtracts the two pairs without rounding.
pub open spec fn difference_is_exact(a: (int, int), b: (int, int)) -> bool {
    a.0 == 0 || b.0 == 0 || pair_fits(aligned_difference(a, b))
}

/// The pair `rust_decimal` returns for an exact difference: the negated second
/// operand when the first is zero, the first when the second is zero, else the
/// aligned difference.
pub open spec fn exact_difference(a: (int, int), b: (int, int)) -> (int, int) {
    if a.0 == 0 {
        (-b.0, b.1)
    } else if b.0 == 0 {
        a
    } else {
        aligned_difference(a, b)
    }
}

/// The result of `rust_decimal`'s checked subtraction on two pairs.
pub open spec fn sub_result(a: (int, int), b: (int, int)) -> Option<(int, int)> {
    if difference_is_exact(a, b) {
        Some(exact_difference(a, b))
    } else {
        decimal_difference(a.0, a.1, b.0, b.1)
    }
}

/// Whether `rust_decimal` multiplies the two pairs without rounding: an operand is
/// zero, or the mantissa product fits at the summed scale.
pub open spec fn product_is_exact(a: (int, int), b: (int, int)) -> bool {
    a.0 == 0 || b.0 == 0 || pair_fits((a.0 * b.0, a.1 + b.1))
}

/// The pair `rust_decimal` returns for an exact product.
pub open spec fn exact_product(a: (int, int), b: (int, int)) -> (int, int) {
    if a.0 == 0 || b.0 == 0 {
        (0, 0)
    } else {
        (a.0 * b.0, a.1 + b.1)
    }
}

/// The result of `rust_decimal`'s checked multiplication on two pairs.
pub open spec fn mul_result(a: (int, int), b: (int, int)) -> Option<(int, int)> {
    if product_is_exact(a, b) {
        Some(exact_product(a, b))
    } else {
        decimal_product(a.0, a.1, b.0, b.1)
    }
}

/// Whether `a / b` is a whole number of units of `10^-t`.
pub open spec fn whole_at(a: (int, int), b: (int, int), t: nat) -> bool {
    (pair_units(a) * pow10(t)) % pair_units(b) == 0
}

/// The mantissa of `a / b` at scale `t` (exact where `whole_at`).
pub open spec fn mantissa_at(a: (int, int), b: (int, int), t: nat) -> int {
    (pair_units(a) * pow10(t)) / pair_units(b)
}

/// The smallest scale from `t` up to 28 at which `a / b` is whole, if any.
pub open spec fn first_whole(a: (int, int), b: (int, int), t: int) -> Option<int>
    decreases 29 - t,
{
    if t < 0 || t > 28 {
        None
    } else if whole_at(a, b, t as nat) {
        Some(t)
    } else {
        first_whole(a, b, t + 1)
    }
}

/// Whether `rust_decimal` divides without rounding by the path it takes for a
/// divisor of at most 32 bits: the exact quotient can be written with at most
/// 28 fractional digits and a 96-bit mantissa.
pub open spec fn quotient_terminates(a: (int, int), b: (int, int)) -> bool {
    &&& a.0 != 0
    &&& b.0 != 0
    &&& -0xFFFF_FFFF <= b.0 <= 0xFFFF_FFFF
    &&& first_whole(a, b, 0) matches Some(t) && -MAX_MANTISSA <= mantissa_at(a, b, t as nat) <= MAX_MANTISSA
}

/// How many more fractional digits than the fewest it needs `rust_decimal`
/// writes an exact quotient with (trailing zeros it keeps).
pub uninterp spec fn decimal_quotient_zeros(am: int, asc: int, bm: int, bsc: int) -> nat;

/// The pair `rust_decimal` returns for a terminating quotient that keeps `e`
/// trailing zeros: the exact value, at the smallest scale it is whole at plus
/// `e` (never beyond scale 28).
pub open spec fn terminating_quotient(a: (int, int), b: (int, int), e: nat) -> (int, int) {
    let t = first_whole(a, b, 0)->0;
    let k = if t + e <= 28 { t + e } else { t };
    (mantissa_at(a, b, k as nat), k)
}

/// The result of `rust_decimal`'s checked division on two pairs.
pub open spec fn div_result(a: (int, int), b: (int, int)) -> Option<(int, int)> {
    if b.0 == 0 {
        None
    } else if a.0 == 0 {
        Some((0, 0))
    } else if quotient_terminates(a, b) {
        Some(terminating_quotient(a, b, decimal_quotient_zeros(a.0, a.1, b.0, b.1)))
    } else {
        decimal_quotient(a.0, a.1, b.0, b.1)
    }
}

impl Dec {
    /// `rust_decimal::Decimal::checked_add` on the two values.  Where no rounding can
    /// occur (an operand is zero, or the sum at the larger scale fits in 96 bits) the
    /// result is that exact pair; otherwise it is what `decimal_sum` names.
    #[verifier::external_body]
    pub(crate) fn checked_add(&self, other: &Dec) -> (r: Option<Dec>)
        ensures
            opt_pair(r) == add_result(self.pair(), other.pair()),
            !sum_is_exact(self.pair(), other.pair()) ==> opt_pair(r) == decimal_sum(
                self.m(),
                self.sc(),
                other.m(),
                other.sc(),
            ),
    {
        let x = Decimal::from_i128_with_scale(self.mantissa, self.scale);
        let y = Decimal::from_i128_with_scale(other.mantissa, other.scale);
        match x.checked_add(y) {
            Some(z) => Some(Dec { mantissa: z.mantissa(), scale: z.scale() }),
            None => None,
        }
    }

    /// `rust_decimal::Decimal::checked_sub` on the two values.  Where no rounding can
    /// occur the result is the exact pair; otherwise it is what `decimal_difference` names.
    #[verifier::external_body]
    pub(crate) fn checked_sub(&self, other: &Dec) -> (r: Option<Dec>)
        ensures
            opt_pair(r) == sub_result(self.pair(), other.pair()),
            !difference_is_exact(self.pair(), other.pair()) ==> opt_pair(r) == decimal_difference(
                self.m(),
                self.sc(),
                other.m(),
                other.sc(),
            ),
    {
        let x = Decimal::from_i128_with_scale(self.mantissa, self.scale);
        let y = Decimal::from_i128_with_scale(other.mantissa, other.scale);
        match x.checked_sub(y) {
            Some(z) => Some(Dec { mantissa: z.mantissa(), scale: z.scale() }),
            None => None,
        }
    }

    /// `rust_decimal::Decimal::checked_mul` on the two values.  A zero operand gives
    /// zero at scale 0; a product whose mantissa fits at the summed scale is exact;
    /// otherwise the result is what `decimal_product` names.
    #[verifier::external_body]
    pub(crate) fn checked_mul(&self, other: &Dec) -> (r: Option<Dec>)
        ensures
            opt_pair(r) == mul_result(self.pair(), other.pair()),
            !product_is_exact(self.pair(), other.pair()) ==> opt_pair(r) == decimal_product(
                self.m(),
                self.sc(),
                other.m(),
                other.sc(),
            ),
    {
        let x = Decimal::from_i128_with_scale(self.mantissa, self.scale);
        let y = Decimal::from_i128_with_scale(other.mantissa, other.scale);
        match x.checked_mul(y) {
            Some(z) => Some(Dec { mantissa: z.mantissa(), scale: z.scale() }),
            None => None,
        }
    }

    /// `rust_decimal::Decimal::checked_div` on the two values.  A zero divisor gives
    /// `None` and a zero dividend gives zero at scale 0.  With a divisor of at most
    /// 32 bits, a quotient that can be written exactly (at most 28 fractional
    /// digits, a 96-bit mantissa) is returned exactly: the division loop only
    /// rounds when it runs out of scale or of mantissa, and the trailing zeros it
    /// then strips leave the value as it is; how many such zeros remain is what
    /// `decimal_quotient_zeros` names.  Any other quotient is what
    /// `decimal_quotient` names.
    #[verifier::external_body]
    pub(crate) fn checked_div(&self, other: &Dec) -> (r: Option<Dec>)
        ensures
            opt_pair(r) == div_result(self.pair(), other.pair()),
            quotient_terminates(self.pair(), other.pair()) ==> opt_pair(r) == Some(
                terminating_quotient(
                    self.pair(),
                    other.pair(),
                    decimal_quotient_zeros(self.m(), self.sc(), other.m(), other.sc()),
                ),
            ),
            !quotient_terminates(self.pair(), other.pair()) && self.m() != 0 && other.m() != 0 ==> opt_pair(r) == decimal_quotient(
                self.m(),
                self.sc(),
                other.m(),
                other.sc(),
            ),
    {
        let x = Decimal::from_i128_with_scale(self.mantissa, self.scale);
        let y = Decimal::from_i128_with_scale(other.mantissa, other.scale);
        match x.checked_div(y) {
            Some(z) => Some(Dec { mantissa: z.mantissa(), scale: z.scale() }),
            None => None,
        }
    }

    /// Compares the two values with `rust_decimal`'s `<` and `==`, which compare
    /// by value whatever the scales.
    #[verifier::external_body]
    pub(crate) fn compare(&self, other: &Dec) -> (r: Order)
        ensures
            (r == Order::Less) == (self.units() < other.units()),
            (r == Order::Equal) == (self.units() == other.units()),
            (r == Order::Greater) == (self.units() > other.units()),
    {
        let x = Decimal::from_i128_with_scale(self.mantissa, self.scale);
        let y = Decimal::from_i128_with_scale(other.mantissa, other.scale);
        if x < y {
            Order::Less
        } else if x == y {
            Order::Equal
        } else {
            Order::Greater
        }
    }

    /// Writes the value with `rust_decimal`'s `Display` (no precision asked for,
    /// so all the digits of its scale): the text `decimal_display` states.
    #[verifier::external_body]
    pub(crate) fn display(&self) -> (r: String)
        ensures
            r@ == decimal_display(self.m(), self.sc()),
    {
        Decimal::from_i128_with_scale(self.mantissa, self.scale).to_string()
    }

    /// Parses a text with `rust_decimal`'s `FromStr`; `None` where it reports an error.
    /// The result is the value `decimal_from_text` names.
    #[verifier::external_body]
    pub(crate) fn parse(text: &str) -> (r: Option<Dec>)
        ensures
            opt_pair(r) == decimal_from_text(text@),
    {
        match text.parse::<Decimal>() {
            Ok(z) => Some(Dec { mantissa: z.mantissa(), scale: z.scale() }),
            Err(_) => None,
        }
    }
}

/// 10^k as a machine integer, for k <= 28.
pub fn pow10_exec(k: u32) -> (r: i128)
    requires
        k <= 28,
    ensures
        r == pow10(k as nat),
        r >= 1,
{
    let mut r: i128 = 1;
    let mut i: u32 = 0;
    while i < k
        invariant
            i <= k <= 28,
            r == pow10(i as nat),
            1 <= r <= pow10(i as nat),
        decreases k - i,
    {
        proof {
            lemma_pow10_bound(i as nat);
            reveal_with_fuel(pow10, 2);
        }
        r = r * 10;
        i = i + 1;
    }
    r
}

/// 10^a <= 10^b when a <= b.
pub proof fn lemma_pow10_mono(a: nat, b: nat)
    requires
        a <= b,
    ensures
        1 <= pow10(a) <= pow10(b),
    decreases b,
{
    lemma_pow10_positive(a);
    if a < b {
        lemma_pow10_mono(a, (b - 1) as nat);
    }
}

/// 10^n stays within 10^28 for n <= 28, which fits comfortably in an `i128`.
pub proof fn lemma_pow10_bound(n: nat)
    requires
        n <= 28,
    ensures
        1 <= pow10(n) <= 10000000000000000000000000000,
{
    lemma_pow10_mono(n, 28);
    reveal_with_fuel(pow10, 29);
    assert(pow10(28) == 10000000000000000000000000000);
}

impl Dec {
    /// Rounds to `dp` fractional digits, half to even, as `rust_decimal`'s `round_dp`
    /// does: a value with at most `dp` fractional digits is returned unchanged.
    pub fn round_dp(&self, dp: u32) -> (r: Dec)
        ensures
            r.pair() == round_dp_pair(self.pair(), dp as int),
    {
        proof {
            use_type_invariant(self);
        }
        if self.scale <= dp {
            return *self;
        }
        let k = self.scale - dp;
        let unit = pow10_exec(k);
        proof {
            lemma_pow10_bound(k as nat);
            assert(unit >= 10) by {
                reveal_with_fuel(pow10, 2);
                lemma_pow10_positive((k - 1) as nat);
            }
        }
        let mag: i128 = if self.mantissa < 0 { -self.mantissa } else { self.mantissa };
        let q = mag / unit;
        let rem = mag % unit;
        proof {
            assert(q <= mag / 10) by {
                vstd::arithmetic::div_mod::lemma_div_is_ordered_by_denominator(mag as int, 10, unit as int);
            }
            assert(mag / 10 < MAX_MANTISSA) by {
                vstd::arithmetic::div_mod::lemma_div_is_ordered(mag as int, MAX_MANTISSA as int, 10);
            }
            assert(0 <= rem < unit) by {
                vstd::arithmetic::div_mod::lemma_mod_bound(mag as int, unit as int);
            }
        }
        let rq: i128 = if 2 * rem > unit || (2 * rem == unit && q % 2 == 1) { q + 1 } else { q };
        let mantissa: i128 = if self.mantissa < 0 { -rq } else { rq };
        Dec { mantissa, scale: dp }
    }

    /// The smaller of two values; the first one when they are equal (as `Ord::min`).
    pub fn min(&self, other: &Dec) -> (r: Dec)
        ensures
            r == (if other.units() < self.units() { *other } else { *self }),
    {
        match self.compare(other) {
            Order::Greater => *other,
            _ => *self,
        }
    }
}

/// 10^n is positive.
pub proof fn lemma_pow10_positive(n: nat)
    ensures
        pow10(n) > 0,
    decreases n,
{
    if n > 0 {
        lemma_pow10_positive((n - 1) as nat);
    }
}

/// The units of a decimal have the sign of its mantissa.
pub proof fn lemma_units_sign(d: Dec)
    ensures
        (d.units() > 0) == (d.m() > 0),
        (d.units() < 0) == (d.m() < 0),
        (d.units() == 0) == (d.m() == 0),
{
    let p = pow10((28 - d.sc()) as nat);
    lemma_pow10_positive((28 - d.sc()) as nat);
    assert((d.m() * p > 0) == (d.m() > 0) && (d.m() * p < 0) == (d.m() < 0)) by (nonlinear_arith)
        requires
            p > 0,
    ;
}

/// 10^(a + b) is 10^a times 10^b.
pub proof fn lemma_pow10_add(a: nat, b: nat)
    ensures
        pow10(a + b) == pow10(a) * pow10(b),
    decreases b,
{
    if b > 0 {
        lemma_pow10_add(a, (b - 1) as nat);
        assert((a + b - 1) as nat == a + ((b - 1) as nat));
        let pa = pow10(a);
        let pb1 = pow10((b - 1) as nat);
        assert(pa * (10 * pb1) == 10 * (pa * pb1)) by (nonlinear_arith);
    }
}

/// The units of `(m, sc)`, with the scale split at `s`.
proof fn lemma_units_split(m: int, sc: int, s: int)
    requires
        0 <= sc <= s <= 28,
    ensures
        pair_units((m, sc)) == (m * pow10((s - sc) as nat)) * pow10((28 - s) as nat),
{
    lemma_pow10_add((s - sc) as nat, (28 - s) as nat);
    assert(((s - sc) as nat) + ((28 - s) as nat) == (28 - sc) as nat);
    let p = pow10((s - sc) as nat);
    let q = pow10((28 - s) as nat);
    assert(m * (p * q) == (m * p) * q) by (nonlinear_arith);
}

/// Negating the mantissa negates the units.
pub proof fn lemma_units_neg(m: int, sc: int)
    ensures
        pair_units((-m, sc)) == -pair_units((m, sc)),
{
    let p = pow10((28 - sc) as nat);
    assert((-m) * p == -(m * p)) by (nonlinear_arith);
}

/// A zero mantissa has zero units.
proof fn lemma_units_zero(sc: int)
    ensures
        pair_units((0, sc)) == 0,
{
}

/// The aligned sum of two pairs is worth the sum of their values.
pub proof fn lemma_units_aligned_sum(a: (int, int), b: (int, int))
    requires
        0 <= a.1 <= 28,
        0 <= b.1 <= 28,
    ensures
        pair_units(aligned_sum(a, b)) == pair_units(a) + pair_units(b),
        0 <= aligned_sum(a, b).1 <= 28,
{
    let s = if a.1 >= b.1 { a.1 } else { b.1 };
    lemma_units_split(a.0, a.1, s);
    lemma_units_split(b.0, b.1, s);
    let x = a.0 * pow10((s - a.1) as nat);
    let y = b.0 * pow10((s - b.1) as nat);
    let q = pow10((28 - s) as nat);
    assert((x + y) * q == x * q + y * q) by (nonlinear_arith);
}

/// An exact sum is worth the sum of the values, at a scale in range.
pub proof fn lemma_units_exact_sum(a: (int, int), b: (int, int))
    requires
        0 <= a.1 <= 28,
        0 <= b.1 <= 28,
    ensures
        pair_units(exact_sum(a, b)) == pair_units(a) + pair_units(b),
        0 <= exact_sum(a, b).1 <= 28,
{
    lemma_units_zero(a.1);
    lemma_units_zero(b.1);
    if a.0 != 0 && b.0 != 0 {
        lemma_units_aligned_sum(a, b);
    }
}

/// An exact difference is worth the difference of the values, at a scale in range.
pub proof fn lemma_units_exact_difference(a: (int, int), b: (int, int))
    requires
        0 <= a.1 <= 28,
        0 <= b.1 <= 28,
    ensures
        pair_units(exact_difference(a, b)) == pair_units(a) - pair_units(b),
        0 <= exact_difference(a, b).1 <= 28,
{
    lemma_units_zero(a.1);
    lemma_units_zero(b.1);
    lemma_units_neg(b.0, b.1);
    if a.0 != 0 && b.0 != 0 {
        lemma_units_aligned_sum(a, (-b.0, b.1));
    }
}

/// An exact product is worth the product of the values (in units of 10^-28,
/// once scaled back by 10^28), at a scale in range.
pub proof fn lemma_units_exact_product(a: (int, int), b: (int, int))
    requires
        0 <= a.1,
        0 <= b.1,
        a.0 != 0 && b.0 != 0 ==> a.1 + b.1 <= 28,
    ensures
        pair_units(exact_product(a, b)) * pow10(28) == pair_units(a) * pair_units(b),
        0 <= exact_product(a, b).1 <= 28,
{
    let pa = pow10((28 - a.1) as nat);
    let pb = pow10((28 - b.1) as nat);
    if a.0 == 0 || b.0 == 0 {
        lemma_units_zero(0);
        assert(pair_units(a) * pair_units(b) == 0) by (nonlinear_arith)
            requires
                a.0 == 0 || b.0 == 0,
                pair_units(a) == a.0 * pa,
                pair_units(b) == b.0 * pb,
        ;
    } else {
        let pab = pow10((28 - a.1 - b.1) as nat);
        let p28 = pow10(28);
        lemma_pow10_add((28 - a.1) as nat, (28 - b.1) as nat);
        lemma_pow10_add((28 - a.1 - b.1) as nat, 28);
        assert(((28 - a.1) as nat) + ((28 - b.1) as nat) == ((28 - a.1 - b.1) as nat) + 28);
        assert((a.0 * b.0 * pab) * p28 == (a.0 * pa) * (b.0 * pb)) by (nonlinear_arith)
            requires
                pa * pb == pab * p28,
        ;
    }
}

/// A multiple of a nonzero divisor divides exactly.
pub proof fn lemma_div_exact(x: int, y: int, q: int)
    requires
        y != 0,
        x == y * q,
    ensures
        x % y == 0,
        x / y == q,
{
    lemma_fundamental_div_mod(x, y);
    let r = x % y;
    let k = x / y;
    if y > 0 {
        assert(0 <= r < y);
    } else {
        assert(0 <= r < -y);
    }
    assert(k == q && r == 0) by (nonlinear_arith)
        requires
            x == y * k + r,
            x == y * q,
            y != 0,
            y > 0 ==> 0 <= r < y,
            y < 0 ==> 0 <= r < -y,
    ;
}

/// Where `a / b` is whole at scale `t`, it is whole at every larger scale, with
/// the mantissa grown by the extra powers of ten.
pub proof fn lemma_whole_mono(a: (int, int), b: (int, int), t: nat, u: nat)
    requires
        pair_units(b) != 0,
        whole_at(a, b, t),
        t <= u,
    ensures
        whole_at(a, b, u),
        mantissa_at(a, b, u) == mantissa_at(a, b, t) * pow10((u - t) as nat),
        mantissa_at(a, b, u) * pair_units(b) == pair_units(a) * pow10(u),
{
    let y = pair_units(b);
    let x = pair_units(a) * pow10(t);
    let q = x / y;
    lemma_fundamental_div_mod(x, y);
    lemma_pow10_add(t, (u - t) as nat);
    assert(t + ((u - t) as nat) == u);
    let d = pow10((u - t) as nat);
    let xu = pair_units(a) * pow10(u);
    assert(xu == y * (q * d)) by (nonlinear_arith)
        requires
            pow10(u) == pow10(t) * d,
            x == pair_units(a) * pow10(t),
            x == y * q,
            xu == pair_units(a) * pow10(u),
    ;
    lemma_div_exact(xu, y, q * d);
    assert((q * d) * y == y * (q * d)) by (nonlinear_arith);
}

/// What the search for a whole scale finds is a whole scale in range.
pub proof fn lemma_first_whole_some(a: (int, int), b: (int, int), t: int)
    ensures
        first_whole(a, b, t) matches Some(t0) ==> 0 <= t <= t0 <= 28 && whole_at(a, b, t0 as nat),
    decreases 29 - t,
{
    if 0 <= t <= 28 && !whole_at(a, b, t as nat) {
        lemma_first_whole_some(a, b, t + 1);
    }
}

/// A terminating quotient is worth exactly `a / b`, at a scale in range.
pub proof fn lemma_terminating_value(a: (int, int), b: (int, int), e: nat)
    requires
        quotient_terminates(a, b),
    ensures
        pair_units(terminating_quotient(a, b, e)) * pair_units(b) == pair_units(a) * pow10(28),
        0 <= terminating_quotient(a, b, e).1 <= 28,
{
    let pb = pow10((28 - b.1) as nat);
    lemma_pow10_positive((28 - b.1) as nat);
    assert(pair_units(b) != 0) by (nonlinear_arith)
        requires
            pair_units(b) == b.0 * pb,
            b.0 != 0,
            pb > 0,
    ;
    lemma_first_whole_some(a, b, 0);
    let t0 = first_whole(a, b, 0)->0;
    let c = terminating_quotient(a, b, e);
    let k = c.1;
    lemma_whole_mono(a, b, t0 as nat, k as nat);
    let mk = c.0;
    let pk = pow10((28 - k) as nat);
    lemma_pow10_add(k as nat, (28 - k) as nat);
    assert((k as nat) + ((28 - k) as nat) == 28);
    assert(pair_units(c) * pair_units(b) == pair_units(a) * pow10(28)) by (nonlinear_arith)
        requires
            mk * pair_units(b) == pair_units(a) * pow10(k as nat),
            pair_units(c) == mk * pk,
            pow10(28) == pow10(k as nat) * pk,
    ;
}

/// Where the quotient terminates (or the dividend is zero), the division is
/// exact: the result is worth `a / b`, at a scale in range.
pub proof fn lemma_quotient_value(a: (int, int), b: (int, int))
    requires
        b.0 != 0,
        a.0 != 0 ==> quotient_terminates(a, b),
    ensures
        div_result(a, b) matches Some(c) && pair_units(c) * pair_units(b) == pair_units(a) * pow10(28) && 0 <= c.1
            <= 28,
{
    if a.0 == 0 {
        lemma_units_zero(a.1);
        lemma_units_zero(0);
    } else {
        lemma_terminating_value(a, b, decimal_quotient_zeros(a.0, a.1, b.0, b.1));
    }
}

/// If `a / b` is whole at some scale `u` from `t` on, the search from `t` finds
/// a scale no larger than `u`.
pub proof fn lemma_first_whole_found(a: (int, int), b: (int, int), t: int, u: int)
    requires
        0 <= t <= u <= 28,
        whole_at(a, b, u as nat),
    ensures
        first_whole(a, b, t) matches Some(t0) && t <= t0 <= u && whole_at(a, b, t0 as nat),
    decreases u - t,
{
    if !whole_at(a, b, t as nat) {
        lemma_first_whole_found(a, b, t + 1, u);
    }
}

/// Dividing a pair with at most 26 fractional digits by 100 is exact: the
/// quotient is worth a hundredth of the dividend and has a scale in range.
pub proof fn lemma_divide_by_hundred(x: (int, int))
    requires
        0 <= x.1 <= 26,
        -MAX_MANTISSA <= x.0 <= MAX_MANTISSA,
    ensures
        div_result(x, (100, 0)) matches Some(c) && pair_units(c) * 100 == pair_units(x) && 0 <= c.1 <= 28,
{
    let b = (100int, 0int);
    lemma_pow10_positive(28);
    let p28 = pow10(28);
    assert(pair_units(b) == 100 * p28);
    if x.0 == 0 {
        lemma_units_zero(x.1);
        lemma_units_zero(0);
    } else {
        let u = (x.1 + 2) as nat;
        lemma_pow10_add((28 - x.1) as nat, u);
        assert(((28 - x.1) as nat) + u == 30);
        lemma_pow10_add(2, 28);
        reveal_with_fuel(pow10, 3);
        assert(pow10(30) == 100 * p28);
        let xu = pair_units(x) * pow10(u);
        assert(xu == x.0 * pair_units(b)) by (nonlinear_arith)
            requires
                pair_units(x) == x.0 * pow10((28 - x.1) as nat),
                pow10(30) == pow10((28 - x.1) as nat) * pow10(u),
                pow10(30) == 100 * p28,
                pair_units(b) == 100 * p28,
                xu == pair_units(x) * pow10(u),
        ;
        assert(xu == x.0 * pair_units(b) + 0);
        lemma_fundamental_div_mod_converse(xu, pair_units(b), x.0, 0);
        assert(whole_at(x, b, u));
        assert(mantissa_at(x, b, u) == x.0);
        lemma_first_whole_found(x, b, 0, u as int);
        let t0 = first_whole(x, b, 0)->0;
        lemma_whole_mono(x, b, t0 as nat, u);
        let m0 = mantissa_at(x, b, t0 as nat);
        let d = pow10((u - t0) as nat);
        lemma_pow10_positive((u - t0) as nat);
        assert(-MAX_MANTISSA <= m0 <= MAX_MANTISSA) by (nonlinear_arith)
            requires
                m0 * d == x.0,
                d >= 1,
                -MAX_MANTISSA <= x.0 <= MAX_MANTISSA,
        ;
        assert(quotient_terminates(x, b));
        let e = decimal_quotient_zeros(x.0, x.1, b.0, b.1);
        let c = terminating_quotient(x, b, e);
        let k = c.1;
        assert(t0 <= k <= 28);
        lemma_whole_mono(x, b, t0 as nat, k as nat);
        let mk = c.0;
        let pk = pow10((28 - k) as nat);
        lemma_pow10_add(k as nat, (28 - k) as nat);
        assert((k as nat) + ((28 - k) as nat) == 28);
        assert(pair_units(c) * 100 == pair_units(x)) by (nonlinear_arith)
            requires
                mk * pair_units(b) == pair_units(x) * pow10(k as nat),
                pair_units(c) == mk * pk,
                p28 == pow10(k as nat) * pk,
                pair_units(b) == 100 * p28,
                p28 > 0,
        ;
    }
}

} // verus!
