use vstd::prelude::*;

use crate::date::{month_after, Date};
use crate::decimal::{
    abs_int, aligned_sum, decimal_difference, decimal_power, decimal_product, decimal_quotient,
    decimal_sum, lemma_pow10_add, lemma_pow10_positive, lemma_units_sign, max_scale, negate,
    opt_view, opt_wf, pow10, round_to, units, Decimal, Rounding, MAX_MANTISSA, MAX_SCALE,
};
use crate::error::AmortiseError;
use crate::interest::{
    calculate_period_interest, daily_rate_of, decompound_rate, decompounded,
    get_daily_interest_rate, period_interest, InterestMethod, InterestType,
};

verus! {

/// Fractional digits kept of money.
pub const MONEY_SCALE: u32 = 2;

/// Fractional digits kept of the APR.
pub const APR_SCALE: u32 = 6;

/// One line of a schedule.
#[derive(Clone, Copy, Debug)]
pub struct Payment {
    /// 1-based period number.
    pub month: u32,
    pub payment: Decimal,
    /// The part of the payment that reduces the balance.
    pub principal: Decimal,
    pub interest: Decimal,
    /// The balance once the payment is made.
    pub balance: Decimal,
    /// Days of interest accrual in the period.
    pub days: u32,
}

/// Figures for a whole schedule.
#[derive(Clone, Copy, Debug)]
pub struct Meta {
    pub total_payable: Decimal,
    pub total_principal: Decimal,
    pub total_interest: Decimal,
    pub daily_rate: Decimal,
    /// The annual rate used: decompounded for compound interest.
    pub annual_rate: Decimal,
    pub calculated_apr: Decimal,
    /// Equal to the APR: fees are not yet part of it.
    pub calculated_ear: Decimal,
}

/// A payment ledger in period order, and its figures.
#[derive(Clone, Debug)]
pub struct Schedule {
    pub payments: Vec<Payment>,
    pub meta: Meta,
}

/// A column of the ledger that is totalled.
#[derive(Clone, Copy, Debug, PartialEq, Eq, Structural)]
pub enum Column {
    Payment,
    Principal,
    Interest,
}

impl Payment {
    pub open spec fn wf(&self) -> bool {
        &&& self.payment.wf()
        &&& self.principal.wf()
        &&& self.interest.wf()
        &&& self.balance.wf()
    }
}

impl Meta {
    pub open spec fn wf(&self) -> bool {
        &&& self.total_payable.wf()
        &&& self.total_principal.wf()
        &&& self.total_interest.wf()
        &&& self.daily_rate.wf()
        &&& self.annual_rate.wf()
        &&& self.calculated_apr.wf()
        &&& self.calculated_ear.wf()
    }

    pub open spec fn is_zero(&self) -> bool {
        &&& self.total_payable@ == (0int, 0nat)
        &&& self.total_principal@ == (0int, 0nat)
        &&& self.total_interest@ == (0int, 0nat)
        &&& self.daily_rate@ == (0int, 0nat)
        &&& self.annual_rate@ == (0int, 0nat)
        &&& self.calculated_apr@ == (0int, 0nat)
        &&& self.calculated_ear@ == (0int, 0nat)
    }
}

pub open spec fn rows_wf(rows: Seq<Payment>) -> bool {
    forall|i: int| 0 <= i < rows.len() ==> #[trigger] rows[i].wf()
}

impl Schedule {
    pub open spec fn wf(&self) -> bool {
        self.meta.wf() && rows_wf(self.payments@)
    }

    /// An empty schedule with every figure zero.
    pub fn new() -> (r: Schedule)
        ensures
            r.payments@.len() == 0,
            r.meta.is_zero(),
            r.wf(),
    {
        let z = Decimal::zero();
        Schedule {
            payments: Vec::new(),
            meta: Meta {
                total_payable: z,
                total_principal: z,
                total_interest: z,
                daily_rate: z,
                annual_rate: z,
                calculated_apr: z,
                calculated_ear: z,
            },
        }
    }
}

/// Rounded to cents, ties away from zero.
pub open spec fn money(v: (int, nat)) -> (int, nat) {
    round_to(v, MONEY_SCALE as nat, Rounding::MidpointAwayFromZero)
}

/// The dates of the period after one with dates `d`: it starts the day
/// after `d`'s capitalisation date, and both other dates move on by a month.
pub open spec fn next_dates(d: (int, int, int)) -> Option<(int, int, int)> {
    if d.1 >= i32::MAX {
        None
    } else {
        match (month_after(d.1), month_after(d.2)) {
            (Some(cap), Some(pay)) => Some((d.1 + 1, cap, pay)),
            _ => None,
        }
    }
}

/// The start, capitalisation date and payment date of period `i` (from 0).
#[verifier::opaque]
pub open spec fn period_dates(disbursal: int, first_cap: int, first_pay: int, i: nat) -> Option<
    (int, int, int),
>
    decreases i,
{
    if i == 0 {
        Some((disbursal, first_cap, first_pay))
    } else {
        match period_dates(disbursal, first_cap, first_pay, (i - 1) as nat) {
            None => None,
            Some(d) => next_dates(d),
        }
    }
}

/// The exact sum of `a` and `b` fits the mantissa at the larger scale.
pub open spec fn sum_fits(a: (int, nat), b: (int, nat)) -> bool {
    -MAX_MANTISSA <= aligned_sum(a, b) <= MAX_MANTISSA
}

/// A sum of money: two amounts in whole cents add exactly, and overflow where
/// their sum does not fit; other amounts add as decimals.
pub open spec fn money_sum(a: (int, nat), b: (int, nat)) -> Option<(int, nat)> {
    if a.1 <= 2 && b.1 <= 2 && !sum_fits(a, b) {
        None
    } else {
        decimal_sum(a, b)
    }
}

/// A difference of money, as [`money_sum`].
pub open spec fn money_difference(a: (int, nat), b: (int, nat)) -> Option<(int, nat)> {
    money_sum(a, negate(b))
}

pub open spec fn add_fee(p: (int, nat), fee: Option<(int, nat)>) -> Option<(int, nat)> {
    match fee {
        None => Some(p),
        Some(f) => money_sum(p, f),
    }
}

/// What is paid in a period: the level payment, except in the last period,
/// where a settled schedule pays the balance with its interest and a balloon
/// schedule pays the balloon; either way with the option fee on top.
pub open spec fn owed(
    last: bool,
    settle: bool,
    opening: (int, nat),
    interest: (int, nat),
    level: (int, nat),
    balloon: Option<(int, nat)>,
    fee: Option<(int, nat)>,
) -> Option<(int, nat)> {
    if last && settle {
        match money_sum(opening, interest) {
            None => None,
            Some(p) => add_fee(p, fee),
        }
    } else if last && balloon is Some {
        add_fee(balloon.unwrap(), fee)
    } else {
        Some(level)
    }
}

/// The part of a payment that reduces the balance: payment less interest, in
/// cents; in the last period less the option fee; and in the last period of a
/// balloon schedule that is not settled, the whole opening balance.
pub open spec fn principal_part(
    last: bool,
    settle: bool,
    opening: (int, nat),
    interest: (int, nat),
    payment: (int, nat),
    balloon: Option<(int, nat)>,
    fee: Option<(int, nat)>,
) -> Option<(int, nat)> {
    match money_difference(payment, interest) {
        None => None,
        Some(d) => {
            let after_fee = if last && fee is Some {
                match money_difference(money(d), fee.unwrap()) {
                    None => None,
                    Some(e) => Some(money(e)),
                }
            } else {
                Some(money(d))
            };
            match after_fee {
                None => None,
                Some(p) => if last && balloon is Some && !settle {
                    Some(opening)
                } else {
                    Some(p)
                },
            }
        },
    }
}

/// The balance a period starts from.
pub open spec fn opening(rows: Seq<Payment>, i: int, principal: (int, nat)) -> (int, nat) {
    if i == 0 {
        principal
    } else {
        rows[i - 1].balance@
    }
}

pub open spec fn as_decimal(v: (int, nat)) -> Decimal {
    Decimal { mantissa: v.0 as i128, scale: v.1 as u32 }
}

/// Period `i` (from 0) of `n`, from its opening balance and dates; `None`
/// where a step of it fails.
#[verifier::opaque]
pub open spec fn period_row(
    i: int,
    n: int,
    dates: (int, int, int),
    daily_rate: (int, nat),
    open_balance: (int, nat),
    level: (int, nat),
    method: InterestMethod,
    settle: bool,
    balloon: Option<(int, nat)>,
    fee: Option<(int, nat)>,
) -> Option<Payment> {
    let last = i == n - 1;
    match period_interest(dates.0, dates.1, dates.2, daily_rate, open_balance, level, method) {
        None => None,
        Some(accrued) => {
            let interest = accrued.0;
            match owed(last, settle, open_balance, interest, level, balloon, fee) {
                None => None,
                Some(payment) => match principal_part(
                    last,
                    settle,
                    open_balance,
                    interest,
                    payment,
                    balloon,
                    fee,
                ) {
                    None => None,
                    Some(part) => match money_difference(open_balance, part) {
                        None => None,
                        Some(d) => Some(
                            Payment {
                                month: (i + 1) as u32,
                                payment: as_decimal(payment),
                                principal: as_decimal(part),
                                interest: as_decimal(interest),
                                balance: as_decimal(money(d)),
                                days: accrued.1 as u32,
                            },
                        ),
                    },
                },
            }
        },
    }
}

/// The ledger of the first `k` periods, each built from the one before it;
/// `None` where a step fails.
#[verifier::opaque]
pub open spec fn ledger(
    principal: (int, nat),
    disbursal: int,
    first_cap: int,
    first_pay: int,
    n: int,
    daily_rate: (int, nat),
    level: (int, nat),
    method: InterestMethod,
    settle: bool,
    balloon: Option<(int, nat)>,
    fee: Option<(int, nat)>,
    k: nat,
) -> Option<Seq<Payment>>
    decreases k,
{
    if k == 0 {
        Some(Seq::empty())
    } else {
        match ledger(
            principal,
            disbursal,
            first_cap,
            first_pay,
            n,
            daily_rate,
            level,
            method,
            settle,
            balloon,
            fee,
            (k - 1) as nat,
        ) {
            None => None,
            Some(rows) => match period_dates(disbursal, first_cap, first_pay, (k - 1) as nat) {
                None => None,
                Some(d) => match period_row(
                    k - 1,
                    n,
                    d,
                    daily_rate,
                    opening(rows, k - 1, principal),
                    level,
                    method,
                    settle,
                    balloon,
                    fee,
                ) {
                    None => None,
                    Some(row) => Some(rows.push(row)),
                },
            },
        }
    }
}

/// The annual rate a schedule uses: decompounded for compound interest.
pub open spec fn effective_rate(annual_rate: (int, nat), t: InterestType) -> Option<(int, nat)> {
    if t == InterestType::Compound {
        decompounded(annual_rate)
    } else {
        Some(annual_rate)
    }
}

/// Every step of building the schedule succeeds: the rate, each period, the
/// totals and the APR.
pub open spec fn build_succeeds(
    principal: (int, nat),
    disbursal: int,
    first_cap: int,
    first_pay: int,
    n: int,
    annual_rate: (int, nat),
    level: (int, nat),
    method: InterestMethod,
    interest_type: InterestType,
    settle: bool,
    balloon: Option<(int, nat)>,
    fee: Option<(int, nat)>,
) -> bool {
    match effective_rate(annual_rate, interest_type) {
        None => false,
        Some(rate) => match ledger(
            principal,
            disbursal,
            first_cap,
            first_pay,
            n,
            daily_rate_of(rate, method),
            level,
            method,
            settle,
            balloon,
            fee,
            n as nat,
        ) {
            None => false,
            Some(rows) => {
                &&& total_upto(rows, n, Column::Payment) is Some
                &&& total_upto(rows, n, Column::Principal) is Some
                &&& total_upto(rows, n, Column::Interest) is Some
                &&& apr_of(rows) is Some
            },
        },
    }
}

pub open spec fn column(p: Payment, c: Column) -> (int, nat) {
    match c {
        Column::Payment => p.payment@,
        Column::Principal => p.principal@,
        Column::Interest => p.interest@,
    }
}

/// The running total of a column over the first `k` lines, added in order as
/// money.
pub open spec fn total_upto(rows: Seq<Payment>, k: int, c: Column) -> Option<(int, nat)>
    decreases k,
{
    if k <= 0 {
        Some((0, 0))
    } else {
        match total_upto(rows, k - 1, c) {
            None => None,
            Some(t) => money_sum(t, column(rows[k - 1], c)),
        }
    }
}

/// The balance curve over the first `k` lines: each closing balance times
/// its day count, added in order.
pub open spec fn curve_upto(rows: Seq<Payment>, k: int) -> Option<(int, nat)>
    decreases k,
{
    if k <= 0 {
        Some((0, 0))
    } else {
        match curve_upto(rows, k - 1) {
            None => None,
            Some(t) => match decimal_product(rows[k - 1].balance@, (rows[k - 1].days as int, 0)) {
                None => None,
                Some(x) => decimal_sum(t, x),
            },
        }
    }
}

/// `(1 + (interest / curve) * 365 / 12)^12 - 1`, to six places; `None` on a
/// zero curve.
pub open spec fn apr_from(curve: (int, nat), interest: (int, nat)) -> Option<(int, nat)> {
    if units(curve) == 0 {
        None
    } else {
        match decimal_quotient(interest, curve) {
            None => None,
            Some(daily) => match decimal_product(daily, (365, 0)) {
                None => None,
                Some(y) => match decimal_quotient(y, (12, 0)) {
                    None => None,
                    Some(z) => match decimal_sum((1, 0), z) {
                        None => None,
                        Some(b) => match decimal_power(b, (12, 0)) {
                            None => None,
                            Some(g) => match decimal_difference(g, (1, 0)) {
                                None => None,
                                Some(a) => Some(
                                    round_to(a, APR_SCALE as nat, Rounding::MidpointAwayFromZero),
                                ),
                            },
                        },
                    },
                },
            },
        }
    }
}

/// The balance-weighted APR of a ledger.
pub open spec fn apr_of(rows: Seq<Payment>) -> Option<(int, nat)> {
    let n = rows.len() as int;
    match (curve_upto(rows, n), total_upto(rows, n, Column::Interest)) {
        (Some(c), Some(i)) => apr_from(c, i),
        _ => None,
    }
}

/// The exact sum of a column over the first `k` lines.
pub open spec fn column_units(rows: Seq<Payment>, k: int, c: Column) -> int
    decreases k,
{
    if k <= 0 {
        0
    } else {
        column_units(rows, k - 1, c) + units(column(rows[k - 1], c))
    }
}

/// Every entry of a column over the first `k` lines is in whole cents.
pub open spec fn column_in_cents(rows: Seq<Payment>, k: int, c: Column) -> bool {
    forall|j: int| 0 <= j < k ==> (#[trigger] column(rows[j], c)).1 <= 2
}

/// The exact sum of the principal parts of the first `k` lines.
pub open spec fn principal_paid(rows: Seq<Payment>, k: int) -> int {
    column_units(rows, k, Column::Principal)
}

proof fn lemma_pow10_small()
    ensures
        pow10(0) == 1,
        pow10(1) == 10,
        pow10(2) == 100,
{
    assert(pow10(0) == 1);
    assert(pow10(1) == 10);
    assert(pow10(2) == 100);
}

/// Rounding to cents yields at most two fractional digits, and leaves a value
/// that has at most two unchanged.
pub proof fn lemma_money(v: (int, nat))
    ensures
        money(v).1 <= 2,
        v.1 <= 2 ==> money(v) == v,
        units(v) == 0 ==> units(money(v)) == 0,
{
    lemma_units_sign(v);
    lemma_units_sign(money(v));
    if v.1 > 2 && v.0 == 0 {
        let p = pow10((v.1 - 2) as nat);
        lemma_pow10_positive((v.1 - 2) as nat);
        assert(0int / p == 0 && 0int % p == 0) by (nonlinear_arith)
            requires
                p >= 1,
        ;
    }
}

/// Whether the exact sum of `a` and `b` fits the mantissa at the larger
/// scale of the two.
fn aligned_fits(a: Decimal, b: Decimal) -> (r: bool)
    requires
        a.wf(),
        b.wf(),
    ensures
        r == (-MAX_MANTISSA <= aligned_sum(a@, b@) <= MAX_MANTISSA),
{
    let (hi, lo) = if a.scale >= b.scale {
        (a, b)
    } else {
        (b, a)
    };
    let d: u32 = hi.scale - lo.scale;
    let mut x: i128 = lo.mantissa;
    let mut j: u32 = 0;
    proof {
        lemma_pow10_small();
        assert(aligned_sum(a@, b@) == hi@.0 + lo@.0 * pow10(d as nat)) by {
            if a.scale >= b.scale {
                assert(aligned_sum(a@, b@) == a@.0 * pow10(0) + b@.0 * pow10(d as nat));
            } else {
                assert(aligned_sum(a@, b@) == a@.0 * pow10(d as nat) + b@.0 * pow10(0));
            }
        }
    }
    while j < d
        invariant
            j <= d,
            d <= MAX_SCALE,
            hi.wf(),
            lo.wf(),
            x == lo@.0 * pow10(j as nat),
            -2 * MAX_MANTISSA <= x <= 2 * MAX_MANTISSA,
            aligned_sum(a@, b@) == hi@.0 + lo@.0 * pow10(d as nat),
        decreases d - j,
    {
        let next: i128 = x * 10;
        if next > 2 * MAX_MANTISSA || next < -2 * MAX_MANTISSA {
            proof {
                let rest = (d - j - 1) as nat;
                lemma_pow10_add((j + 1) as nat, rest);
                lemma_pow10_positive(rest);
                assert(pow10((j + 1) as nat) == 10 * pow10(j as nat));
                let big = lo@.0 * pow10((j + 1) as nat);
                assert(big == next) by (nonlinear_arith)
                    requires
                        x == lo@.0 * pow10(j as nat),
                        next == x * 10,
                        pow10((j + 1) as nat) == 10 * pow10(j as nat),
                        big == lo@.0 * pow10((j + 1) as nat),
                ;
                assert(abs_int(big * pow10(rest)) >= abs_int(big)) by (nonlinear_arith)
                    requires
                        pow10(rest) >= 1,
                ;
                assert(lo@.0 * pow10(d as nat) == big * pow10(rest)) by (nonlinear_arith)
                    requires
                        pow10(d as nat) == pow10((j + 1) as nat) * pow10(rest),
                        big == lo@.0 * pow10((j + 1) as nat),
                ;
            }
            return false;
        }
        proof {
            assert(pow10((j + 1) as nat) == 10 * pow10(j as nat));
            assert(next == lo@.0 * pow10((j + 1) as nat)) by (nonlinear_arith)
                requires
                    x == lo@.0 * pow10(j as nat),
                    next == x * 10,
                    pow10((j + 1) as nat) == 10 * pow10(j as nat),
            ;
        }
        x = next;
        j = j + 1;
    }
    let sum = hi.mantissa + x;
    -MAX_MANTISSA <= sum && sum <= MAX_MANTISSA
}

/// A sum of money: exact, or an overflow where the exact sum does not fit.
fn money_add(a: Decimal, b: Decimal) -> (r: Result<Decimal, AmortiseError>)
    requires
        a.wf(),
        b.wf(),
    ensures
        r is Ok <==> money_sum(a@, b@) is Some,
        r matches Ok(x) ==> money_sum(a@, b@) == Some(x@) && x.wf(),
        r matches Ok(x) ==> (sum_fits(a@, b@) ==> units(x@) == units(a@) + units(b@) && x@.1
            <= max_scale(a@, b@)),
        r matches Ok(x) ==> (a@.1 <= 2 && b@.1 <= 2 ==> units(x@) == units(a@) + units(b@) && x@.1
            <= 2),
{
    if a.scale <= 2 && b.scale <= 2 && !aligned_fits(a, b) {
        return Err(AmortiseError::Overflow);
    }
    match a.checked_add(&b) {
        Some(x) => Ok(x),
        None => Err(AmortiseError::Overflow),
    }
}

/// A difference of money: exact, or an overflow where it does not fit.
fn money_sub(a: Decimal, b: Decimal) -> (r: Result<Decimal, AmortiseError>)
    requires
        a.wf(),
        b.wf(),
    ensures
        r is Ok <==> money_difference(a@, b@) is Some,
        r matches Ok(x) ==> money_difference(a@, b@) == Some(x@) && x.wf(),
        r matches Ok(x) ==> (sum_fits(a@, negate(b@)) ==> units(x@) == units(a@) - units(b@) && x@.1
            <= max_scale(a@, b@)),
        r matches Ok(x) ==> (a@.1 <= 2 && b@.1 <= 2 ==> units(x@) == units(a@) - units(b@) && x@.1
            <= 2),
        r matches Ok(x) ==> (a@ == b@ ==> units(x@) == 0),
{
    proof {
        lemma_pow10_small();
        assert(aligned_sum(a@, negate(a@)) == 0) by (nonlinear_arith)
            requires
                aligned_sum(a@, negate(a@)) == a@.0 * pow10(0) + (-a@.0) * pow10(0),
                pow10(0) == 1,
        ;
    }
    let n = b.neg();
    if a.scale <= 2 && b.scale <= 2 && !aligned_fits(a, n) {
        return Err(AmortiseError::Overflow);
    }
    match a.checked_sub(&b) {
        Some(x) => Ok(x),
        None => Err(AmortiseError::Overflow),
    }
}

proof fn lemma_paid_prefix(a: Seq<Payment>, b: Seq<Payment>, k: int)
    requires
        0 <= k <= a.len(),
        k <= b.len(),
        forall|i: int| 0 <= i < k ==> a[i] == b[i],
    ensures
        principal_paid(a, k) == principal_paid(b, k),
    decreases k,
{
    if k > 0 {
        lemma_paid_prefix(a, b, k - 1);
    }
}

proof fn lemma_dates_next(disbursal: int, first_cap: int, first_pay: int, i: nat)
    ensures
        period_dates(disbursal, first_cap, first_pay, 0) == Some((disbursal, first_cap, first_pay)),
        period_dates(disbursal, first_cap, first_pay, i + 1) == match period_dates(
            disbursal,
            first_cap,
            first_pay,
            i,
        ) {
            None => None,
            Some(d) => next_dates(d),
        },
{
    reveal_with_fuel(period_dates, 2);
}

proof fn lemma_ledger_next(
    principal: (int, nat),
    disbursal: int,
    first_cap: int,
    first_pay: int,
    n: int,
    daily_rate: (int, nat),
    level: (int, nat),
    method: InterestMethod,
    settle: bool,
    balloon: Option<(int, nat)>,
    fee: Option<(int, nat)>,
    k: nat,
)
    ensures
        ledger(
            principal,
            disbursal,
            first_cap,
            first_pay,
            n,
            daily_rate,
            level,
            method,
            settle,
            balloon,
            fee,
            0,
        ) == Some(Seq::<Payment>::empty()),
        ledger(
            principal,
            disbursal,
            first_cap,
            first_pay,
            n,
            daily_rate,
            level,
            method,
            settle,
            balloon,
            fee,
            k + 1,
        ) == match ledger(
            principal,
            disbursal,
            first_cap,
            first_pay,
            n,
            daily_rate,
            level,
            method,
            settle,
            balloon,
            fee,
            k,
        ) {
            None => None,
            Some(rows) => match period_dates(disbursal, first_cap, first_pay, k) {
                None => None,
                Some(d) => match period_row(
                    k as int,
                    n,
                    d,
                    daily_rate,
                    opening(rows, k as int, principal),
                    level,
                    method,
                    settle,
                    balloon,
                    fee,
                ) {
                    None => None,
                    Some(row) => Some(rows.push(row)),
                },
            },
        },
{
    reveal_with_fuel(ledger, 2);
}

proof fn lemma_ledger_none(
    principal: (int, nat),
    disbursal: int,
    first_cap: int,
    first_pay: int,
    n: int,
    daily_rate: (int, nat),
    level: (int, nat),
    method: InterestMethod,
    settle: bool,
    balloon: Option<(int, nat)>,
    fee: Option<(int, nat)>,
    k: nat,
    j: nat,
)
    requires
        ledger(
            principal,
            disbursal,
            first_cap,
            first_pay,
            n,
            daily_rate,
            level,
            method,
            settle,
            balloon,
            fee,
            k,
        ) is None,
        k <= j,
    ensures
        ledger(
            principal,
            disbursal,
            first_cap,
            first_pay,
            n,
            daily_rate,
            level,
            method,
            settle,
            balloon,
            fee,
            j,
        ) is None,
    decreases j - k,
{
    if k < j {
        lemma_ledger_next(
            principal,
            disbursal,
            first_cap,
            first_pay,
            n,
            daily_rate,
            level,
            method,
            settle,
            balloon,
            fee,
            (j - 1) as nat,
        );
        lemma_ledger_none(
            principal,
            disbursal,
            first_cap,
            first_pay,
            n,
            daily_rate,
            level,
            method,
            settle,
            balloon,
            fee,
            k,
            (j - 1) as nat,
        );
    }
}

proof fn lemma_total_none(rows: Seq<Payment>, k: int, j: int, c: Column)
    requires
        total_upto(rows, k, c) is None,
        k <= j,
    ensures
        total_upto(rows, j, c) is None,
    decreases j - k,
{
    if k < j {
        lemma_total_none(rows, k, j - 1, c);
    }
}

proof fn lemma_curve_none(rows: Seq<Payment>, k: int, j: int)
    requires
        curve_upto(rows, k) is None,
        k <= j,
    ensures
        curve_upto(rows, j) is None,
    decreases j - k,
{
    if k < j {
        lemma_curve_none(rows, k, j - 1);
    }
}

/// The total of a column, added line by line from zero.
fn column_total(rows: &Vec<Payment>, c: Column) -> (r: Result<Decimal, AmortiseError>)
    requires
        rows_wf(rows@),
    ensures
        r is Ok <==> total_upto(rows@, rows@.len() as int, c) is Some,
        r matches Ok(x) ==> x.wf() && total_upto(rows@, rows@.len() as int, c) == Some(x@),
        r matches Ok(x) ==> (column_in_cents(rows@, rows@.len() as int, c) ==> units(x@)
            == column_units(rows@, rows@.len() as int, c) && x@.1 <= 2),
{
    let mut total = Decimal::zero();
    let mut i: usize = 0;
    while i < rows.len()
        invariant
            i <= rows@.len(),
            rows_wf(rows@),
            total.wf(),
            total_upto(rows@, i as int, c) == Some(total@),
            column_in_cents(rows@, i as int, c) ==> units(total@) == column_units(
                rows@,
                i as int,
                c,
            ) && total@.1 <= 2,
        decreases rows@.len() - i,
    {
        let row = rows[i];
        assert(rows@[i as int].wf());
        let x = match c {
            Column::Payment => row.payment,
            Column::Principal => row.principal,
            Column::Interest => row.interest,
        };
        total = match money_add(total, x) {
            Ok(t) => t,
            Err(_) => {
                proof {
                    lemma_total_none(rows@, i + 1, rows@.len() as int, c);
                }
                return Err(AmortiseError::Overflow);
            },
        };
        i = i + 1;
    }
    Ok(total)
}

/// The balance-weighted APR of a ledger: `Σ balance × days` is the balance
/// curve, total interest over it the daily cost, and
/// `(1 + daily_cost × 365 / 12)^12 - 1` the rate, to six places (ties away
/// from zero). A zero curve has no APR.
pub fn get_apr(payments: &Vec<Payment>) -> (r: Result<Decimal, AmortiseError>)
    requires
        rows_wf(payments@),
    ensures
        r is Ok <==> apr_of(payments@) is Some,
        r matches Ok(x) ==> x.wf() && apr_of(payments@) == Some(x@),
        r == Err::<Decimal, AmortiseError>(AmortiseError::ZeroBalanceCurve) ==> (curve_upto(
            payments@,
            payments@.len() as int,
        ) matches Some(c) && units(c) == 0),
        (curve_upto(payments@, payments@.len() as int) matches Some(c) && units(c) == 0)
            && total_upto(payments@, payments@.len() as int, Column::Interest) is Some ==> r
            == Err::<Decimal, AmortiseError>(AmortiseError::ZeroBalanceCurve),
{
    let mut curve = Decimal::zero();
    let mut total_interest = Decimal::zero();
    let mut i: usize = 0;
    while i < payments.len()
        invariant
            i <= payments@.len(),
            rows_wf(payments@),
            curve.wf(),
            total_interest.wf(),
            curve_upto(payments@, i as int) == Some(curve@),
            total_upto(payments@, i as int, Column::Interest) == Some(total_interest@),
        decreases payments@.len() - i,
    {
        let row = payments[i];
        assert(payments@[i as int].wf());
        let weighted = match row.balance.checked_mul(&Decimal::from_int(row.days as i64)) {
            Some(x) => x,
            None => {
                proof {
                    lemma_curve_none(payments@, i + 1, payments@.len() as int);
                }
                return Err(AmortiseError::Overflow);
            },
        };
        curve = match curve.checked_add(&weighted) {
            Some(x) => x,
            None => {
                proof {
                    lemma_curve_none(payments@, i + 1, payments@.len() as int);
                }
                return Err(AmortiseError::Overflow);
            },
        };
        total_interest = match money_add(total_interest, row.interest) {
            Ok(x) => x,
            Err(_) => {
                proof {
                    lemma_total_none(payments@, i + 1, payments@.len() as int, Column::Interest);
                }
                return Err(AmortiseError::Overflow);
            },
        };
        i = i + 1;
    }
    if curve.is_zero() {
        return Err(AmortiseError::ZeroBalanceCurve);
    }
    let daily_cost = match total_interest.checked_div(&curve) {
        Some(x) => x,
        None => return Err(AmortiseError::Overflow),
    };
    let yearly = match daily_cost.checked_mul(&Decimal::from_int(365)) {
        Some(x) => x,
        None => return Err(AmortiseError::Overflow),
    };
    let twelve = Decimal::from_int(12);
    let monthly = match yearly.checked_div(&twelve) {
        Some(x) => x,
        None => return Err(AmortiseError::Overflow),
    };
    let base = match Decimal::one().checked_add(&monthly) {
        Some(x) => x,
        None => return Err(AmortiseError::Overflow),
    };
    let growth = match base.checked_powd(&twelve) {
        Some(x) => x,
        None => return Err(AmortiseError::Overflow),
    };
    let apr = match growth.checked_sub(&Decimal::one()) {
        Some(x) => x,
        None => return Err(AmortiseError::Overflow),
    };
    Ok(apr.round_dp(APR_SCALE, Rounding::MidpointAwayFromZero))
}


/// `s` is the ledger of `n` periods built from these terms at the level
/// payment `level`, with its totals and APR.
pub open spec fn schedule_built(
    s: Schedule,
    principal: (int, nat),
    disbursal: int,
    first_cap: int,
    first_pay: int,
    n: int,
    annual_rate: (int, nat),
    level: (int, nat),
    method: InterestMethod,
    interest_type: InterestType,
    settle: bool,
    balloon: Option<(int, nat)>,
    fee: Option<(int, nat)>,
) -> bool {
    &&& s.wf()
    &&& s.payments@.len() == n
    &&& effective_rate(annual_rate, interest_type) == Some(s.meta.annual_rate@)
    &&& ledger(
        principal,
        disbursal,
        first_cap,
        first_pay,
        n,
        s.meta.daily_rate@,
        level,
        method,
        settle,
        balloon,
        fee,
        n as nat,
    ) == Some(s.payments@)
    &&& s.meta.daily_rate@ == daily_rate_of(s.meta.annual_rate@, method)
    &&& total_upto(s.payments@, n, Column::Payment) == Some(s.meta.total_payable@)
    &&& total_upto(s.payments@, n, Column::Principal) == Some(s.meta.total_principal@)
    &&& total_upto(s.payments@, n, Column::Interest) == Some(s.meta.total_interest@)
    &&& apr_of(s.payments@) == Some(s.meta.calculated_apr@)
    &&& s.meta.calculated_ear == s.meta.calculated_apr
    &&& column_in_cents(s.payments@, n, Column::Payment) ==> units(s.meta.total_payable@)
        == column_units(s.payments@, n, Column::Payment)
    &&& principal.1 <= 2 ==> units(s.meta.total_principal@) == principal_paid(s.payments@, n)
    &&& units(s.meta.total_interest@) == column_units(s.payments@, n, Column::Interest)
    &&& n >= 1 ==> final_row_facts(
        final_row(s.payments@, n),
        opening(s.payments@, n - 1, principal),
        settle,
        level,
        balloon,
        fee,
    )
}

/// The fee's value, zero when there is none.
pub open spec fn fee_units(fee: Option<(int, nat)>) -> int {
    match fee {
        None => 0,
        Some(f) => units(f),
    }
}

/// What the last line of a ledger pays, given the balance it opens with:
/// settled, the opening balance with its interest and the fee (amounts in
/// whole cents); with a balloon, the balloon and the fee (exact where their
/// sum fits), the principal part clearing the balance; otherwise the level
/// payment, with the fee taken off the principal part.
pub open spec fn final_row_facts(
    row: Payment,
    open_balance: (int, nat),
    settle: bool,
    level: (int, nat),
    balloon: Option<(int, nat)>,
    fee: Option<(int, nat)>,
) -> bool {
    let fee_in_cents = fee is Some ==> fee.unwrap().1 <= 2;
    &&& settle && open_balance.1 <= 2 && fee_in_cents ==> units(row.payment@) == units(
        open_balance,
    ) + units(row.interest@) + fee_units(fee) && units(row.principal@) == units(open_balance)
        && units(row.balance@) == 0
    &&& !settle && balloon is Some ==> row.principal@ == open_balance && units(row.balance@) == 0
    &&& !settle && balloon is Some && fee is None ==> row.payment@ == balloon.unwrap()
    &&& !settle && balloon is Some && fee is Some && sum_fits(balloon.unwrap(), fee.unwrap())
        ==> units(row.payment@) == units(balloon.unwrap()) + units(fee.unwrap())
    &&& !settle && balloon is None ==> row.payment@ == level && (level.1 <= 2 && fee_in_cents
        ==> units(row.principal@) == units(level) - units(row.interest@) - fee_units(fee))
}

/// The last line of a ledger with `n` lines.
pub open spec fn final_row(rows: Seq<Payment>, n: int) -> Payment {
    rows[n - 1]
}

/// One period of the ledger: period `i` of `n`, from its opening balance and
/// dates.
#[verifier::rlimit(40)]
fn next_row(
    i: u32,
    n: u32,
    start: Date,
    cap: Date,
    pay: Date,
    daily_rate: Decimal,
    balance: Decimal,
    level: Decimal,
    method: InterestMethod,
    settle: bool,
    balloon: Option<Decimal>,
    fee: Option<Decimal>,
) -> (r: Result<Payment, AmortiseError>)
    requires
        i < n,
        daily_rate.wf(),
        balance.wf(),
        level.wf(),
        opt_wf(balloon),
        opt_wf(fee),
    ensures
        r is Ok <==> period_row(
            i as int,
            n as int,
            (start.days as int, cap.days as int, pay.days as int),
            daily_rate@,
            balance@,
            level@,
            method,
            settle,
            opt_view(balloon),
            opt_view(fee),
        ) is Some,
        r matches Ok(row) ==> period_row(
            i as int,
            n as int,
            (start.days as int, cap.days as int, pay.days as int),
            daily_rate@,
            balance@,
            level@,
            method,
            settle,
            opt_view(balloon),
            opt_view(fee),
        ) == Some(row),
        r matches Ok(row) ==> row.wf(),
        r matches Ok(row) ==> row.balance@.1 <= 2 && row.interest@.1 <= 2,
        r matches Ok(row) ==> row.principal@.1 <= 2 || row.principal@ == balance@,
        r matches Ok(row) ==> (balance@.1 <= 2 ==> units(row.balance@) == units(balance@) - units(
            row.principal@,
        )),
        r matches Ok(row) ==> (i < n - 1 && level@.1 <= 2 ==> units(row.payment@) == units(
            row.principal@,
        ) + units(row.interest@)),
        r matches Ok(row) ==> (i == n - 1 ==> final_row_facts(
            row,
            balance@,
            settle,
            level@,
            opt_view(balloon),
            opt_view(fee),
        )),
        r matches Ok(row) ==> (i == n - 1 && settle && balance@.1 <= 2 && (fee is Some
            ==> fee.unwrap()@.1 <= 2) ==> units(row.balance@) == 0),
        r matches Ok(row) ==> (i == n - 1 && !settle && balloon is Some ==> {
            &&& units(row.balance@) == 0
            &&& fee is None ==> row.payment@ == balloon.unwrap()@
            &&& (fee is Some && balloon.unwrap()@.1 <= 2 && fee.unwrap()@.1 <= 2) ==> units(
                row.payment@,
            ) == units(balloon.unwrap()@) + units(fee.unwrap()@)
        }),
{
    proof {
        reveal(period_row);
    }
    let last = i + 1 == n;
    let (interest, days) = calculate_period_interest(
        start,
        cap,
        pay,
        daily_rate,
        balance,
        level,
        method,
    )?;
    proof {
        lemma_money(interest@);
    }
    let payment = if settle && last {
        let p = money_add(balance, interest)?;
        match fee {
            Some(f) => money_add(p, f)?,
            None => p,
        }
    } else if last && balloon.is_some() {
        let b = balloon.unwrap();
        match fee {
            Some(f) => money_add(b, f)?,
            None => b,
        }
    } else {
        level
    };
    let d = money_sub(payment, interest)?;
    let mut part = d.round_dp(MONEY_SCALE, Rounding::MidpointAwayFromZero);
    proof {
        lemma_money(d@);
    }
    if last && fee.is_some() {
        let e = money_sub(part, fee.unwrap())?;
        part = e.round_dp(MONEY_SCALE, Rounding::MidpointAwayFromZero);
        proof {
            lemma_money(e@);
        }
    }
    if last && balloon.is_some() && !settle {
        part = balance;
    }
    let diff = money_sub(balance, part)?;
    let new_balance = diff.round_dp(MONEY_SCALE, Rounding::MidpointAwayFromZero);
    proof {
        lemma_money(diff@);
    }
    let row = Payment {
        month: i + 1,
        payment,
        principal: part,
        interest,
        balance: new_balance,
        days,
    };
    Ok(row)
}

/// Builds the ledger of `num_payments` periods at the level payment
/// `period_payment`.
///
/// Each period accrues interest on the opening balance from its start through
/// its capitalisation date; the payment less that interest, in cents, is the
/// principal part, and the balance falls by it. With `settle_balance` the last
/// payment is the opening balance with its interest, so that the balance
/// closes at zero; otherwise, with a balloon, the last payment is the balloon
/// and it clears the balance. An option fee is added to the last payment and
/// is no part of the principal.
#[verifier::rlimit(60)]
pub fn build_schedule(
    principal: Decimal,
    disbursal_date: Date,
    first_capitalisation_date: Date,
    first_payment_date: Date,
    num_payments: u32,
    annual_rate: Decimal,
    period_payment: Decimal,
    interest_method: InterestMethod,
    interest_type: InterestType,
    settle_balance: bool,
    balloon_payment: Option<Decimal>,
    option_fee: Option<Decimal>,
) -> (r: Result<Schedule, AmortiseError>)
    requires
        principal.wf(),
        annual_rate.wf(),
        period_payment.wf(),
        opt_wf(balloon_payment),
        opt_wf(option_fee),
    ensures
        r is Ok <==> build_succeeds(
            principal@,
            disbursal_date.days as int,
            first_capitalisation_date.days as int,
            first_payment_date.days as int,
            num_payments as int,
            annual_rate@,
            period_payment@,
            interest_method,
            interest_type,
            settle_balance,
            opt_view(balloon_payment),
            opt_view(option_fee),
        ),
        r matches Ok(s) ==> schedule_built(
            s,
            principal@,
            disbursal_date.days as int,
            first_capitalisation_date.days as int,
            first_payment_date.days as int,
            num_payments as int,
            annual_rate@,
            period_payment@,
            interest_method,
            interest_type,
            settle_balance,
            opt_view(balloon_payment),
            opt_view(option_fee),
        ),
        // every period but the last: payment = principal part + interest
        r matches Ok(s) ==> (period_payment@.1 <= 2 ==> forall|i: int|
            0 <= i < num_payments - 1 ==> units(#[trigger] s.payments@[i].payment@) == units(
                s.payments@[i].principal@,
            ) + units(s.payments@[i].interest@)),
        // the principal parts add up to what the balance fell by
        r matches Ok(s) ==> (principal@.1 <= 2 && num_payments >= 1 ==> principal_paid(
            s.payments@,
            num_payments as int,
        ) == units(principal@) - units(final_row(s.payments@, num_payments as int).balance@)),
        // a settled schedule closes at zero
        r matches Ok(s) ==> (settle_balance && num_payments >= 1 && (principal@.1 <= 2
            || num_payments >= 2) && (option_fee matches Some(f) ==> f@.1 <= 2) ==> units(
            final_row(s.payments@, num_payments as int).balance@,
        ) == 0),
        // a balloon schedule pays the balloon and the fee last, and closes at zero
        r matches Ok(s) ==> (!settle_balance && balloon_payment is Some && num_payments >= 1 ==> {
            let last = final_row(s.payments@, num_payments as int);
            &&& units(last.balance@) == 0
            &&& option_fee is None ==> last.payment@ == balloon_payment.unwrap()@
            &&& (option_fee is Some && balloon_payment.unwrap()@.1 <= 2 && option_fee.unwrap()@.1
                <= 2)
                ==> units(last.payment@) == units(balloon_payment.unwrap()@) + units(
                option_fee.unwrap()@,
            )
        }),
{
    let rate = if interest_type == InterestType::Compound {
        decompound_rate(annual_rate)?
    } else {
        annual_rate
    };
    let daily_rate = get_daily_interest_rate(rate, interest_method);
    let ghost n = num_payments as int;
    let ghost balloon = opt_view(balloon_payment);
    let ghost fee = opt_view(option_fee);
    let ghost start0 = disbursal_date.days as int;
    let ghost cap0 = first_capitalisation_date.days as int;
    let ghost pay0 = first_payment_date.days as int;
    let mut rows: Vec<Payment> = Vec::new();
    let mut balance = principal;
    let mut start = disbursal_date;
    let mut cap = first_capitalisation_date;
    let mut pay = first_payment_date;
    let mut m: u32 = 0;
    proof {
        lemma_dates_next(start0, cap0, pay0, 0);
        lemma_ledger_next(
            principal@,
            start0,
            cap0,
            pay0,
            n,
            daily_rate@,
            period_payment@,
            interest_method,
            settle_balance,
            balloon,
            fee,
            0,
        );
    }
    while m < num_payments
        invariant
            m <= num_payments,
            n == num_payments as int,
            start0 == disbursal_date.days as int,
            cap0 == first_capitalisation_date.days as int,
            pay0 == first_payment_date.days as int,
            balloon == opt_view(balloon_payment),
            fee == opt_view(option_fee),
            principal.wf(),
            period_payment.wf(),
            daily_rate.wf(),
            opt_wf(balloon_payment),
            opt_wf(option_fee),
            rows@.len() == m,
            rows_wf(rows@),
            effective_rate(annual_rate@, interest_type) == Some(rate@),
            daily_rate@ == daily_rate_of(rate@, interest_method),
            ledger(
                principal@,
                start0,
                cap0,
                pay0,
                n,
                daily_rate@,
                period_payment@,
                interest_method,
                settle_balance,
                balloon,
                fee,
                m as nat,
            ) == Some(rows@),
            balance.wf(),
            balance@ == opening(rows@, m as int, principal@),
            m < num_payments ==> period_dates(start0, cap0, pay0, m as nat) == Some(
                (start.days as int, cap.days as int, pay.days as int),
            ),
            m >= 1 ==> balance@.1 <= 2,
            column_in_cents(rows@, m as int, Column::Interest),
            principal@.1 <= 2 ==> column_in_cents(rows@, m as int, Column::Principal),
            principal@.1 <= 2 ==> balance@.1 <= 2 && principal_paid(rows@, m as int) == units(
                principal@,
            ) - units(balance@),
            period_payment@.1 <= 2 ==> forall|i: int|
                0 <= i < m && i < n - 1 ==> units(#[trigger] rows@[i].payment@) == units(
                    rows@[i].principal@,
                ) + units(rows@[i].interest@),
            m == n && n >= 1 ==> final_row_facts(
                rows@[n - 1],
                opening(rows@, n - 1, principal@),
                settle_balance,
                period_payment@,
                balloon,
                fee,
            ),
            m == n && n >= 1 && settle_balance && (principal@.1 <= 2 || n >= 2) && (
            option_fee matches Some(f) ==> f@.1 <= 2) ==> units(balance@) == 0,
            m == n && n >= 1 && !settle_balance && balloon_payment is Some ==> {
                let last = rows@[n - 1];
                &&& units(last.balance@) == 0
                &&& option_fee is None ==> last.payment@ == balloon_payment.unwrap()@
                &&& (option_fee is Some && balloon_payment.unwrap()@.1 <= 2
                    && option_fee.unwrap()@.1 <= 2)
                    ==> units(last.payment@) == units(balloon_payment.unwrap()@) + units(
                option_fee.unwrap()@,
            )
            },
        decreases num_payments - m,
    {
        let row = match next_row(
            m,
            num_payments,
            start,
            cap,
            pay,
            daily_rate,
            balance,
            period_payment,
            interest_method,
            settle_balance,
            balloon_payment,
            option_fee,
        ) {
            Ok(x) => x,
            Err(e) => {
                proof {
                    lemma_ledger_next(
                        principal@,
                        start0,
                        cap0,
                        pay0,
                        n,
                        daily_rate@,
                        period_payment@,
                        interest_method,
                        settle_balance,
                        balloon,
                        fee,
                        m as nat,
                    );
                    assert(ledger(
                        principal@,
                        start0,
                        cap0,
                        pay0,
                        n,
                        daily_rate@,
                        period_payment@,
                        interest_method,
                        settle_balance,
                        balloon,
                        fee,
                        (m + 1) as nat,
                    ) is None);
                    lemma_ledger_none(
                        principal@,
                        start0,
                        cap0,
                        pay0,
                        n,
                        daily_rate@,
                        period_payment@,
                        interest_method,
                        settle_balance,
                        balloon,
                        fee,
                        (m + 1) as nat,
                        n as nat,
                    );
                }
                assert(effective_rate(annual_rate@, interest_type) == Some(rate@));
                assert(ledger(
                    principal@,
                    start0,
                    cap0,
                    pay0,
                    n,
                    daily_rate_of(rate@, interest_method),
                    period_payment@,
                    interest_method,
                    settle_balance,
                    balloon,
                    fee,
                    n as nat,
                ) is None);
                return Err(e);
            },
        };
        let last = m + 1 == num_payments;
        let new_balance = row.balance;
        let ghost old_rows = rows@;
        rows.push(row);
        proof {
            assert(rows@[m as int] == row);
            assert(opening(rows@, m as int, principal@) == balance@);
            assert forall|i: int| 0 <= i < rows@.len() implies #[trigger] rows@[i].wf() by {
                if i < m {
                    assert(rows@[i] == old_rows[i]);
                }
            }
            lemma_ledger_next(
                principal@,
                start0,
                cap0,
                pay0,
                n,
                daily_rate@,
                period_payment@,
                interest_method,
                settle_balance,
                balloon,
                fee,
                m as nat,
            );
            lemma_dates_next(start0, cap0, pay0, m as nat);
            assert forall|j: int| 0 <= j < m + 1 implies (#[trigger] column(
                rows@[j],
                Column::Interest,
            )).1 <= 2 by {
                if j < m {
                    assert(rows@[j] == old_rows[j]);
                }
            }
            if principal@.1 <= 2 {
                assert forall|j: int| 0 <= j < m + 1 implies (#[trigger] column(
                    rows@[j],
                    Column::Principal,
                )).1 <= 2 by {
                    if j < m {
                        assert(rows@[j] == old_rows[j]);
                    }
                }
            }
            lemma_paid_prefix(rows@, old_rows, m as int);
            assert(principal_paid(rows@, m + 1) == principal_paid(rows@, m as int) + units(
                row.principal@,
            ));
            if period_payment@.1 <= 2 {
                assert forall|i: int| 0 <= i < m + 1 && i < n - 1 implies units(
                    #[trigger] rows@[i].payment@,
                ) == units(rows@[i].principal@) + units(rows@[i].interest@) by {
                    if i < m {
                        assert(rows@[i] == old_rows[i]);
                    }
                }
            }
        }
        balance = new_balance;
        if !last {
            let next_start = cap.next_day();
            let next_cap = cap.add_month();
            let next_pay = pay.add_month();
            match (next_start, next_cap, next_pay) {
                (Some(a), Some(b), Some(c)) => {
                    start = a;
                    cap = b;
                    pay = c;
                },
                _ => {
                    proof {
                        lemma_ledger_next(
                            principal@,
                            start0,
                            cap0,
                            pay0,
                            n,
                            daily_rate@,
                            period_payment@,
                            interest_method,
                            settle_balance,
                            balloon,
                            fee,
                            (m + 1) as nat,
                        );
                        assert(period_dates(start0, cap0, pay0, (m + 1) as nat) is None);
                        assert(ledger(
                            principal@,
                            start0,
                            cap0,
                            pay0,
                            n,
                            daily_rate@,
                            period_payment@,
                            interest_method,
                            settle_balance,
                            balloon,
                            fee,
                            (m + 2) as nat,
                        ) is None);
                        lemma_ledger_none(
                            principal@,
                            start0,
                            cap0,
                            pay0,
                            n,
                            daily_rate@,
                            period_payment@,
                            interest_method,
                            settle_balance,
                            balloon,
                            fee,
                            (m + 2) as nat,
                            n as nat,
                        );
                    }
                    return Err(AmortiseError::DateOutOfRange);
                },
            }
        }
        m = m + 1;
    }
    let total_payable = column_total(&rows, Column::Payment)?;
    let total_principal = column_total(&rows, Column::Principal)?;
    let total_interest = column_total(&rows, Column::Interest)?;
    let apr = get_apr(&rows)?;
    Ok(
        Schedule {
            payments: rows,
            meta: Meta {
                total_payable,
                total_principal,
                total_interest,
                daily_rate,
                annual_rate: rate,
                calculated_apr: apr,
                calculated_ear: apr,
            },
        },
    )
}

} // verus!
