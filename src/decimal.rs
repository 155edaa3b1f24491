use vstd::prelude::*;

verus! {

/// Largest magnitude of a mantissa: 2^96 - 1.
pub const MAX_MANTISSA: i128 = 79228162514264337593543950335;

/// Largest number of fractional digits.
pub const MAX_SCALE: u32 = 28;

/// An exact decimal number `mantissa / 10^scale`, the plain-value form of
/// `rust_decimal::Decimal` (96-bit magnitude, scale up to 28).
#[derive(Clone, Copy, Debug)]
pub struct Decimal {
    pub mantissa: i128,
    pub scale: u32,
}

/// How a value is rounded when fractional digits are dropped.
#[derive(Clone, Copy, Debug, PartialEq, Eq, Structural)]
pub enum Rounding {
    /// A tie goes away from zero (money).
    MidpointAwayFromZero,
    /// A tie goes to the even neighbour (interest accrual).
    MidpointNearestEven,
}

pub open spec fn pow10(n: nat) -> int
    decreases n,
{
    if n == 0 {
        1
    } else {
        10 * pow10((n - 1) as nat)
    }
}

/// A (mantissa, scale) pair is representable.
pub open spec fn valid(v: (int, nat)) -> bool {
    -MAX_MANTISSA <= v.0 <= MAX_MANTISSA && v.1 <= MAX_SCALE
}

/// The exact value in units of 10^-28.
pub open spec fn units(v: (int, nat)) -> int {
    v.0 * pow10((MAX_SCALE - v.1) as nat)
}

pub open spec fn negate(v: (int, nat)) -> (int, nat) {
    (-v.0, v.1)
}

pub open spec fn abs_int(x: int) -> int {
    if x < 0 {
        -x
    } else {
        x
    }
}

pub open spec fn max_scale(a: (int, nat), b: (int, nat)) -> nat {
    if a.1 >= b.1 {
        a.1
    } else {
        b.1
    }
}

/// The mantissa that both operands have once brought to the larger scale.
pub open spec fn aligned_sum(a: (int, nat), b: (int, nat)) -> int {
    let s = if a.1 >= b.1 {
        a.1
    } else {
        b.1
    };
    a.0 * pow10((s - a.1) as nat) + b.0 * pow10((s - b.1) as nat)
}

/// `v` rounded to `dp` fractional digits: the magnitude is divided by a power
/// of ten and the remainder decides whether one is added.
pub open spec fn round_to(v: (int, nat), dp: nat, rule: Rounding) -> (int, nat) {
    if v.1 <= dp {
        v
    } else {
        let p = pow10((v.1 - dp) as nat);
        let q = abs_int(v.0) / p;
        let r = abs_int(v.0) % p;
        let up = 2 * r > p || (2 * r == p && (rule == Rounding::MidpointAwayFromZero || q % 2
            == 1));
        let mag = if up {
            q + 1
        } else {
            q
        };
        (if v.0 < 0 {
            -mag
        } else {
            mag
        }, dp)
    }
}

/// The product of the mantissas fits, at the sum of the scales.
pub open spec fn exact_product_fits(a: (int, nat), b: (int, nat)) -> bool {
    -MAX_MANTISSA <= a.0 * b.0 <= MAX_MANTISSA && a.1 + b.1 <= MAX_SCALE
}

/// What `rust_decimal::Decimal::checked_add` returns.
pub uninterp spec fn decimal_sum(a: (int, nat), b: (int, nat)) -> Option<(int, nat)>;

/// What `rust_decimal::Decimal::checked_mul` returns.
pub uninterp spec fn decimal_product(a: (int, nat), b: (int, nat)) -> Option<(int, nat)>;

/// What `rust_decimal::Decimal::checked_div` returns.
pub uninterp spec fn decimal_quotient(a: (int, nat), b: (int, nat)) -> Option<(int, nat)>;

/// What `rust_decimal::MathematicalOps::checked_powd` returns.
pub uninterp spec fn decimal_power(a: (int, nat), b: (int, nat)) -> Option<(int, nat)>;

/// `a - b`, computed as the sum with the negated operand.
pub open spec fn decimal_difference(a: (int, nat), b: (int, nat)) -> Option<(int, nat)> {
    decimal_sum(a, negate(b))
}

pub open spec fn opt_view(o: Option<Decimal>) -> Option<(int, nat)> {
    match o {
        None => None,
        Some(d) => Some(d@),
    }
}

pub open spec fn opt_wf(o: Option<Decimal>) -> bool {
    match o {
        None => true,
        Some(d) => d.wf(),
    }
}

impl View for Decimal {
    type V = (int, nat);

    open spec fn view(&self) -> (int, nat) {
        (self.mantissa as int, self.scale as nat)
    }
}

/// Relies on `rust_decimal::Decimal::checked_add`: the result is representable,
/// and whenever the exact sum fits at the larger scale it is that sum, at a
/// scale no larger.
#[verifier::external_body]
fn add_outside(a: Decimal, b: Decimal) -> (r: Option<Decimal>)
    requires
        a.wf(),
        b.wf(),
    ensures
        r matches Some(x) ==> decimal_sum(a@, b@) == Some(x@) && x.wf(),
        r is None ==> decimal_sum(a@, b@) is None,
        r matches Some(x) ==> (-MAX_MANTISSA <= aligned_sum(a@, b@) <= MAX_MANTISSA ==> units(x@)
            == units(a@) + units(b@) && x@.1 <= max_scale(a@, b@)),
        r is None ==> !(-MAX_MANTISSA <= aligned_sum(a@, b@) <= MAX_MANTISSA),
{
    let x = rust_decimal::Decimal::from_i128_with_scale(a.mantissa, a.scale);
    let y = rust_decimal::Decimal::from_i128_with_scale(b.mantissa, b.scale);
    x.checked_add(y).map(|z| Decimal { mantissa: z.mantissa(), scale: z.scale() })
}

/// Relies on `rust_decimal::Decimal::checked_mul`: the result is representable,
/// and a product whose mantissa fits at the summed scale (at most 28) is exact.
#[verifier::external_body]
fn mul_outside(a: Decimal, b: Decimal) -> (r: Option<Decimal>)
    requires
        a.wf(),
        b.wf(),
    ensures
        r matches Some(x) ==> decimal_product(a@, b@) == Some(x@) && x.wf(),
        r is None ==> decimal_product(a@, b@) is None,
        r matches Some(x) ==> (exact_product_fits(a@, b@) ==> units(x@) == units(
            (a@.0 * b@.0, a@.1 + b@.1),
        )),
        r is None ==> !exact_product_fits(a@, b@),
{
    let x = rust_decimal::Decimal::from_i128_with_scale(a.mantissa, a.scale);
    let y = rust_decimal::Decimal::from_i128_with_scale(b.mantissa, b.scale);
    x.checked_mul(y).map(|z| Decimal { mantissa: z.mantissa(), scale: z.scale() })
}

/// Relies on `rust_decimal::Decimal::checked_div`: `None` on a zero divisor; a
/// divisor of magnitude at least one cannot overflow the result.
#[verifier::external_body]
fn div_outside(a: Decimal, b: Decimal) -> (r: Option<Decimal>)
    requires
        a.wf(),
        b.wf(),
    ensures
        r matches Some(x) ==> decimal_quotient(a@, b@) == Some(x@) && x.wf(),
        r is None ==> decimal_quotient(a@, b@) is None,
        units(b@) == 0 ==> r is None,
        abs_int(units(b@)) >= pow10(28) ==> r is Some,
{
    let x = rust_decimal::Decimal::from_i128_with_scale(a.mantissa, a.scale);
    let y = rust_decimal::Decimal::from_i128_with_scale(b.mantissa, b.scale);
    x.checked_div(y).map(|z| Decimal { mantissa: z.mantissa(), scale: z.scale() })
}

/// Relies on `rust_decimal::MathematicalOps::checked_powd`: the result is
/// representable.
#[verifier::external_body]
fn powd_outside(a: Decimal, b: Decimal) -> (r: Option<Decimal>)
    requires
        a.wf(),
        b.wf(),
    ensures
        r matches Some(x) ==> decimal_power(a@, b@) == Some(x@) && x.wf(),
        r is None ==> decimal_power(a@, b@) is None,
{
    let x = rust_decimal::Decimal::from_i128_with_scale(a.mantissa, a.scale);
    let y = rust_decimal::Decimal::from_i128_with_scale(b.mantissa, b.scale);
    rust_decimal::MathematicalOps::checked_powd(&x, y).map(
        |z| Decimal { mantissa: z.mantissa(), scale: z.scale() },
    )
}

/// Relies on `rust_decimal::Decimal::round_dp_with_strategy`: a value with at
/// most `dp` fractional digits is returned as it is; otherwise the magnitude is
/// divided by `10^(scale - dp)` and one is added when the dropped part is above
/// one half, or exactly one half and the rule says so.
#[verifier::external_body]
fn round_outside(a: Decimal, dp: u32, rule: Rounding) -> (r: Decimal)
    requires
        a.wf(),
    ensures
        r@ == round_to(a@, dp as nat, rule),
{
    let x = rust_decimal::Decimal::from_i128_with_scale(a.mantissa, a.scale);
    let strategy = match rule {
        Rounding::MidpointAwayFromZero => rust_decimal::RoundingStrategy::MidpointAwayFromZero,
        Rounding::MidpointNearestEven => rust_decimal::RoundingStrategy::MidpointNearestEven,
    };
    let z = x.round_dp_with_strategy(dp, strategy);
    Decimal { mantissa: z.mantissa(), scale: z.scale() }
}

/// Relies on `Ord for rust_decimal::Decimal`: numbers are ordered by value.
#[verifier::external_body]
fn cmp_outside(a: Decimal, b: Decimal) -> (r: core::cmp::Ordering)
    requires
        a.wf(),
        b.wf(),
    ensures
        (r == core::cmp::Ordering::Less) == (units(a@) < units(b@)),
        (r == core::cmp::Ordering::Equal) == (units(a@) == units(b@)),
        (r == core::cmp::Ordering::Greater) == (units(a@) > units(b@)),
{
    let x = rust_decimal::Decimal::from_i128_with_scale(a.mantissa, a.scale);
    let y = rust_decimal::Decimal::from_i128_with_scale(b.mantissa, b.scale);
    x.cmp(&y)
}

impl Decimal {
    pub open spec fn wf(&self) -> bool {
        valid(self@)
    }

    /// `mantissa / 10^scale`.
    pub fn new(mantissa: i64, scale: u32) -> (r: Decimal)
        requires
            scale <= MAX_SCALE,
        ensures
            r@ == (mantissa as int, scale as nat),
            r.wf(),
    {
        Decimal { mantissa: mantissa as i128, scale }
    }

    /// `mantissa / 10^scale`, for a mantissa of up to 96 bits.
    pub fn from_i128_with_scale(mantissa: i128, scale: u32) -> (r: Decimal)
        requires
            -MAX_MANTISSA <= mantissa <= MAX_MANTISSA,
            scale <= MAX_SCALE,
        ensures
            r@ == (mantissa as int, scale as nat),
            r.wf(),
    {
        Decimal { mantissa, scale }
    }

    /// A whole number.
    pub fn from_int(n: i64) -> (r: Decimal)
        ensures
            r@ == (n as int, 0nat),
            r.wf(),
    {
        Decimal { mantissa: n as i128, scale: 0 }
    }

    pub fn zero() -> (r: Decimal)
        ensures
            r@ == (0int, 0nat),
            r.wf(),
    {
        Decimal { mantissa: 0, scale: 0 }
    }

    pub fn one() -> (r: Decimal)
        ensures
            r@ == (1int, 0nat),
            r.wf(),
    {
        Decimal { mantissa: 1, scale: 0 }
    }

    pub fn is_zero(&self) -> (r: bool)
        requires
            self.wf(),
        ensures
            r == (units(self@) == 0),
    {
        proof {
            lemma_units_sign(self@);
        }
        self.mantissa == 0
    }

    pub fn neg(&self) -> (r: Decimal)
        requires
            self.wf(),
        ensures
            r@ == negate(self@),
            r.wf(),
    {
        Decimal { mantissa: -self.mantissa, scale: self.scale }
    }

    pub fn abs(&self) -> (r: Decimal)
        requires
            self.wf(),
        ensures
            r@ == (abs_int(self@.0), self@.1),
            r.wf(),
    {
        if self.mantissa < 0 {
            Decimal { mantissa: -self.mantissa, scale: self.scale }
        } else {
            *self
        }
    }

    pub fn checked_add(&self, other: &Decimal) -> (r: Option<Decimal>)
        requires
            self.wf(),
            other.wf(),
        ensures
            r matches Some(x) ==> decimal_sum(self@, other@) == Some(x@) && x.wf(),
            r is None ==> decimal_sum(self@, other@) is None,
            r matches Some(x) ==> (-MAX_MANTISSA <= aligned_sum(self@, other@) <= MAX_MANTISSA
                ==> units(x@) == units(self@) + units(other@) && x@.1 <= max_scale(self@, other@)),
            r is None ==> !(-MAX_MANTISSA <= aligned_sum(self@, other@) <= MAX_MANTISSA),
    {
        add_outside(*self, *other)
    }

    pub fn checked_sub(&self, other: &Decimal) -> (r: Option<Decimal>)
        requires
            self.wf(),
            other.wf(),
        ensures
            r matches Some(x) ==> decimal_difference(self@, other@) == Some(x@) && x.wf(),
            r is None ==> decimal_difference(self@, other@) is None,
            r matches Some(x) ==> (-MAX_MANTISSA <= aligned_sum(self@, negate(other@))
                <= MAX_MANTISSA ==> units(x@) == units(self@) - units(other@) && x@.1 <= max_scale(
                self@,
                other@,
            )),
            r is None ==> !(-MAX_MANTISSA <= aligned_sum(self@, negate(other@)) <= MAX_MANTISSA),
    {
        let n = other.neg();
        proof {
            assert(units(n@) == -units(other@)) by (nonlinear_arith)
                requires
                    n@.0 == -other@.0,
                    n@.1 == other@.1,
                    units(n@) == n@.0 * pow10((MAX_SCALE - n@.1) as nat),
                    units(other@) == other@.0 * pow10((MAX_SCALE - other@.1) as nat),
            ;
        }
        add_outside(*self, n)
    }

    pub fn checked_mul(&self, other: &Decimal) -> (r: Option<Decimal>)
        requires
            self.wf(),
            other.wf(),
        ensures
            r matches Some(x) ==> decimal_product(self@, other@) == Some(x@) && x.wf(),
            r is None ==> decimal_product(self@, other@) is None,
            r matches Some(x) ==> (exact_product_fits(self@, other@) ==> units(x@) == units(
                (self@.0 * other@.0, self@.1 + other@.1),
            )),
            r is None ==> !exact_product_fits(self@, other@),
    {
        mul_outside(*self, *other)
    }

    pub fn checked_div(&self, other: &Decimal) -> (r: Option<Decimal>)
        requires
            self.wf(),
            other.wf(),
        ensures
            r matches Some(x) ==> decimal_quotient(self@, other@) == Some(x@) && x.wf(),
            r is None ==> decimal_quotient(self@, other@) is None,
            units(other@) == 0 ==> r is None,
            abs_int(units(other@)) >= pow10(28) ==> r is Some,
    {
        div_outside(*self, *other)
    }

    pub fn checked_powd(&self, exp: &Decimal) -> (r: Option<Decimal>)
        requires
            self.wf(),
            exp.wf(),
        ensures
            r matches Some(x) ==> decimal_power(self@, exp@) == Some(x@) && x.wf(),
            r is None ==> decimal_power(self@, exp@) is None,
    {
        powd_outside(*self, *exp)
    }

    pub fn round_dp(&self, dp: u32, rule: Rounding) -> (r: Decimal)
        requires
            self.wf(),
        ensures
            r@ == round_to(self@, dp as nat, rule),
            r.wf(),
    {
        let r = round_outside(*self, dp, rule);
        proof {
            lemma_round_valid(self@, dp as nat, rule);
        }
        r
    }

    /// `self < other` by value.
    pub fn less_than(&self, other: &Decimal) -> (r: bool)
        requires
            self.wf(),
            other.wf(),
        ensures
            r == (units(self@) < units(other@)),
    {
        match self.compare(other) {
            core::cmp::Ordering::Less => true,
            _ => false,
        }
    }

    /// `self == other` by value: `1.50` and `1.5` are equal.
    pub fn same_value(&self, other: &Decimal) -> (r: bool)
        requires
            self.wf(),
            other.wf(),
        ensures
            r == (units(self@) == units(other@)),
    {
        match self.compare(other) {
            core::cmp::Ordering::Equal => true,
            _ => false,
        }
    }

    /// Compares by value: `1.50` and `1.5` are equal.
    pub fn compare(&self, other: &Decimal) -> (r: core::cmp::Ordering)
        requires
            self.wf(),
            other.wf(),
        ensures
            (r == core::cmp::Ordering::Less) == (units(self@) < units(other@)),
            (r == core::cmp::Ordering::Equal) == (units(self@) == units(other@)),
            (r == core::cmp::Ordering::Greater) == (units(self@) > units(other@)),
    {
        cmp_outside(*self, *other)
    }
}

pub proof fn lemma_pow10_positive(n: nat)
    ensures
        pow10(n) >= 1,
    decreases n,
{
    if n > 0 {
        lemma_pow10_positive((n - 1) as nat);
    }
}

pub proof fn lemma_pow10_add(a: nat, b: nat)
    ensures
        pow10(a + b) == pow10(a) * pow10(b),
    decreases a,
{
    if a > 0 {
        lemma_pow10_add((a - 1) as nat, b);
        assert(pow10(a + b) == 10 * pow10((a - 1 + b) as nat));
        let x = pow10((a - 1) as nat);
        let y = pow10(b);
        assert((10 * x) * y == 10 * (x * y)) by (nonlinear_arith);
    }
}

/// The sign of the value is the sign of the mantissa.
pub proof fn lemma_units_sign(v: (int, nat))
    ensures
        (units(v) == 0) == (v.0 == 0),
        (units(v) < 0) == (v.0 < 0),
{
    lemma_pow10_positive((MAX_SCALE - v.1) as nat);
    let p = pow10((MAX_SCALE - v.1) as nat);
    assert((v.0 * p == 0) == (v.0 == 0)) by (nonlinear_arith)
        requires
            p >= 1,
    ;
    assert((v.0 * p < 0) == (v.0 < 0)) by (nonlinear_arith)
        requires
            p >= 1,
    ;
}

proof fn lemma_round_valid(v: (int, nat), dp: nat, rule: Rounding)
    requires
        valid(v),
    ensures
        valid(round_to(v, dp, rule)),
{
    if v.1 > dp {
        let p = pow10((v.1 - dp) as nat);
        lemma_pow10_positive((v.1 - dp - 1) as nat);
        assert(p >= 10);
        let a = abs_int(v.0);
        let q = a / p;
        assert(q * 10 <= a) by (nonlinear_arith)
            requires
                p >= 10,
                q == a / p,
                a >= 0,
        ;
    }
}

/// Digits of precision assumed when none is given.
pub const DEFAULT_PRECISION: u32 = 28;

/// Fractional digits kept when no scale is given.
pub const DEFAULT_SCALE: u32 = 2;

/// `value` rounded to `min(scale, precision)` fractional digits by `rounding`;
/// by default two digits, ties away from zero.
pub fn round_decimal(
    value: Decimal,
    precision: Option<u32>,
    scale: Option<u32>,
    rounding: Option<Rounding>,
) -> (r: Decimal)
    requires
        value.wf(),
    ensures
        r.wf(),
        ({
            let p = match precision {
                Some(p) => p,
                None => DEFAULT_PRECISION,
            };
            let s = match scale {
                Some(s) => s,
                None => DEFAULT_SCALE,
            };
            let rule = match rounding {
                Some(x) => x,
                None => Rounding::MidpointAwayFromZero,
            };
            r@ == round_to(value@, if s <= p { s as nat } else { p as nat }, rule)
        }),
{
    let p = match precision {
        Some(p) => p,
        None => DEFAULT_PRECISION,
    };
    let s = match scale {
        Some(s) => s,
        None => DEFAULT_SCALE,
    };
    let rule = match rounding {
        Some(x) => x,
        None => Rounding::MidpointAwayFromZero,
    };
    let dp = if s <= p {
        s
    } else {
        p
    };
    value.round_dp(dp, rule)
}

} // verus!
