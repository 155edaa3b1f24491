use vstd::prelude::*;

use crate::date::Date;
use crate::decimal::{
    decimal_difference, decimal_power, decimal_product, decimal_quotient, decimal_sum, opt_view,
    opt_wf, units, Decimal, Rounding,
};
use crate::error::AmortiseError;
use crate::interest::{daily_rate_of, InterestMethod, InterestType};
use crate::schedule::{
    build_schedule, build_succeeds, effective_rate, final_row, ledger, money, schedule_built,
    Schedule, MONEY_SCALE,
};
use crate::secant::{secant_method, secant_outcome, secant_trace};

verus! {

/// Payment periods in a year.
pub const PERIODS_PER_YEAR: i64 = 12;

/// Most secant steps taken when solving for the payment.
pub const SOLVER_ITERATIONS: usize = 4;

/// The closed-form level payment of an annuity at `rate / 12` a period over
/// `n` periods, `principal × r × (1 + r)^n / ((1 + r)^n - 1)`, in cents.
pub open spec fn rough_payment(principal: (int, nat), annual_rate: (int, nat), n: int) -> Option<
    (int, nat),
> {
    match decimal_quotient(annual_rate, (PERIODS_PER_YEAR as int, 0)) {
        None => None,
        Some(r) => match decimal_sum((1, 0), r) {
            None => None,
            Some(base) => match decimal_power(base, (n, 0)) {
                None => None,
                Some(factor) => match decimal_product(principal, r) {
                    None => None,
                    Some(pr) => match decimal_product(pr, factor) {
                        None => None,
                        Some(num) => match decimal_difference(factor, (1, 0)) {
                            None => None,
                            Some(den) => match decimal_quotient(num, den) {
                                None => None,
                                Some(q) => Some(money(q)),
                            },
                        },
                    },
                },
            },
        },
    }
}

/// Tolerance of the payment solver: 0.1.
pub open spec fn solver_tolerance() -> (int, nat) {
    (1, 1)
}

/// The seeds of the payment solver: the rough payment of the principal less
/// any balloon, divided and multiplied by 2.5.
pub open spec fn solver_seeds(
    principal: (int, nat),
    annual_rate: (int, nat),
    n: int,
    balloon: Option<(int, nat)>,
) -> Option<((int, nat), (int, nat))> {
    let financed = match balloon {
        None => Some(principal),
        Some(b) => decimal_difference(principal, b),
    };
    match financed {
        None => None,
        Some(e) => match rough_payment(e, annual_rate, n) {
            None => None,
            Some(r) => match (decimal_quotient(r, (25, 1)), decimal_product(r, (25, 1))) {
                (Some(low), Some(high)) => Some((low, high)),
                _ => None,
            },
        },
    }
}

/// What the solver drives to zero at the level payment `level`: the closing
/// balance of the unsettled ledger without balloon or fee, less the balloon
/// if there is one; `None` where that ledger cannot be built.
pub open spec fn objective_value(
    principal: (int, nat),
    disbursal: int,
    first_cap: int,
    first_pay: int,
    n: int,
    annual_rate: (int, nat),
    level: (int, nat),
    method: InterestMethod,
    interest_type: InterestType,
    balloon: Option<(int, nat)>,
) -> Option<(int, nat)> {
    if !build_succeeds(
        principal,
        disbursal,
        first_cap,
        first_pay,
        n,
        annual_rate,
        level,
        method,
        interest_type,
        false,
        None,
        None,
    ) {
        None
    } else {
        let rate = effective_rate(annual_rate, interest_type).unwrap();
        let rows = ledger(
            principal,
            disbursal,
            first_cap,
            first_pay,
            n,
            daily_rate_of(rate, method),
            level,
            method,
            false,
            None,
            None,
            n as nat,
        ).unwrap();
        let closing = rows[n - 1].balance@;
        match balloon {
            None => Some(closing),
            Some(b) => decimal_difference(closing, b),
        }
    }
}

/// The payment solver's run of at most `k` secant steps from `a` and `b` on
/// [`objective_value`]: `Some(Some(x))` when a step converges on `x`,
/// `Some(None)` when none of the `k` steps does, `None` when a value or a step
/// cannot be computed.
pub open spec fn solver_run(
    principal: (int, nat),
    disbursal: int,
    first_cap: int,
    first_pay: int,
    n: int,
    annual_rate: (int, nat),
    method: InterestMethod,
    interest_type: InterestType,
    balloon: Option<(int, nat)>,
    a: (int, nat),
    b: (int, nat),
    k: nat,
) -> Option<Option<(int, nat)>>
    decreases k,
{
    if k == 0 {
        Some(None)
    } else {
        match (
            objective_value(
                principal,
                disbursal,
                first_cap,
                first_pay,
                n,
                annual_rate,
                a,
                method,
                interest_type,
                balloon,
            ),
            objective_value(
                principal,
                disbursal,
                first_cap,
                first_pay,
                n,
                annual_rate,
                b,
                method,
                interest_type,
                balloon,
            ),
        ) {
            (Some(fa), Some(fb)) => match secant_outcome(a, b, fa, fb, solver_tolerance()) {
                None => None,
                Some(step) => if step.0 {
                    Some(Some(step.1))
                } else {
                    solver_run(
                        principal,
                        disbursal,
                        first_cap,
                        first_pay,
                        n,
                        annual_rate,
                        method,
                        interest_type,
                        balloon,
                        b,
                        step.1,
                        (k - 1) as nat,
                    )
                },
            },
            _ => None,
        }
    }
}

/// What the payment solver finds: its run from its seeds, with at most
/// [`SOLVER_ITERATIONS`] steps; `None` where the seeds cannot be computed.
pub open spec fn solved_payment(
    principal: (int, nat),
    disbursal: int,
    first_cap: int,
    first_pay: int,
    n: int,
    annual_rate: (int, nat),
    method: InterestMethod,
    interest_type: InterestType,
    balloon: Option<(int, nat)>,
) -> Option<Option<(int, nat)>> {
    match solver_seeds(principal, annual_rate, n, balloon) {
        None => None,
        Some(seeds) => solver_run(
            principal,
            disbursal,
            first_cap,
            first_pay,
            n,
            annual_rate,
            method,
            interest_type,
            balloon,
            seeds.0,
            seeds.1,
            SOLVER_ITERATIONS as nat,
        ),
    }
}

/// A secant trace on a function whose values are those of
/// [`objective_value`] follows the solver's run.
proof fn lemma_run_follows_trace<F: Fn(Decimal) -> Result<Decimal, AmortiseError>>(
    principal: (int, nat),
    disbursal: int,
    first_cap: int,
    first_pay: int,
    n: int,
    annual_rate: (int, nat),
    method: InterestMethod,
    interest_type: InterestType,
    balloon: Option<(int, nat)>,
    f: F,
    ps: Seq<Decimal>,
    vs: Seq<Decimal>,
    k: int,
    j: int,
    iters: nat,
)
    requires
        secant_trace(f, solver_tolerance(), ps, vs, k),
        forall|x: Decimal, y: Decimal|
            #[trigger] f.ensures((x,), Ok::<Decimal, AmortiseError>(y)) ==> objective_value(
                principal,
                disbursal,
                first_cap,
                first_pay,
                n,
                annual_rate,
                x@,
                method,
                interest_type,
                balloon,
            ) == Some(y@),
        0 <= j <= k,
        k <= iters,
    ensures
        solver_run(
            principal,
            disbursal,
            first_cap,
            first_pay,
            n,
            annual_rate,
            method,
            interest_type,
            balloon,
            ps[j]@,
            ps[j + 1]@,
            (iters - j) as nat,
        ) == solver_run(
            principal,
            disbursal,
            first_cap,
            first_pay,
            n,
            annual_rate,
            method,
            interest_type,
            balloon,
            ps[k]@,
            ps[k + 1]@,
            (iters - k) as nat,
        ),
    decreases k - j,
{
    if j < k {
        assert(f.ensures((ps[j],), Ok::<Decimal, AmortiseError>(vs[j])));
        assert(f.ensures((ps[j + 1],), Ok::<Decimal, AmortiseError>(vs[j + 1])));
        assert(secant_outcome(ps[j]@, ps[j + 1]@, vs[j]@, vs[j + 1]@, solver_tolerance()) == Some(
            (false, ps[j + 2]@),
        ));
        lemma_run_follows_trace(
            principal,
            disbursal,
            first_cap,
            first_pay,
            n,
            annual_rate,
            method,
            interest_type,
            balloon,
            f,
            ps,
            vs,
            k,
            j + 1,
            iters,
        );
    }
}

/// The closed-form level payment that retires `principal` over
/// `num_payments` monthly periods; the seed of the solver.
pub fn calculate_rough_period_payment(
    principal: Decimal,
    annual_rate: Decimal,
    num_payments: u32,
) -> (r: Result<Decimal, AmortiseError>)
    requires
        principal.wf(),
        annual_rate.wf(),
    ensures
        r is Ok <==> rough_payment(principal@, annual_rate@, num_payments as int) is Some,
        r matches Ok(x) ==> x.wf() && rough_payment(principal@, annual_rate@, num_payments as int)
            == Some(x@),
{
    let one = Decimal::one();
    let period_rate = match annual_rate.checked_div(&Decimal::from_int(PERIODS_PER_YEAR)) {
        Some(x) => x,
        None => return Err(AmortiseError::Overflow),
    };
    let base = match one.checked_add(&period_rate) {
        Some(x) => x,
        None => return Err(AmortiseError::Overflow),
    };
    let factor = match base.checked_powd(&Decimal::from_int(num_payments as i64)) {
        Some(x) => x,
        None => return Err(AmortiseError::Overflow),
    };
    let pr = match principal.checked_mul(&period_rate) {
        Some(x) => x,
        None => return Err(AmortiseError::Overflow),
    };
    let num = match pr.checked_mul(&factor) {
        Some(x) => x,
        None => return Err(AmortiseError::Overflow),
    };
    let den = match factor.checked_sub(&one) {
        Some(x) => x,
        None => return Err(AmortiseError::Overflow),
    };
    let q = match num.checked_div(&den) {
        Some(x) => x,
        None => return Err(AmortiseError::Overflow),
    };
    Ok(q.round_dp(MONEY_SCALE, Rounding::MidpointAwayFromZero))
}

/// The schedule for what the solver found: with no payment found, the empty
/// schedule, which signals that the solver did not converge; otherwise the
/// ledger at that payment in cents, settled in the last period unless a
/// balloon closes it.
pub fn schedule_from_solution(
    solution: Option<Decimal>,
    principal: Decimal,
    annual_rate: Decimal,
    num_payments: u32,
    disbursal_date: Date,
    first_payment_date: Date,
    first_capitalisation_date: Date,
    interest_method: InterestMethod,
    interest_type: InterestType,
    balloon_payment: Option<Decimal>,
    option_fee: Option<Decimal>,
) -> (r: Result<Schedule, AmortiseError>)
    requires
        opt_wf(solution),
        principal.wf(),
        annual_rate.wf(),
        opt_wf(balloon_payment),
        opt_wf(option_fee),
    ensures
        solution is None ==> (r matches Ok(s) && s.payments@.len() == 0 && s.meta.is_zero()
            && s.wf()),
        solution is Some ==> (r is Ok <==> build_succeeds(
            principal@,
            disbursal_date.days as int,
            first_capitalisation_date.days as int,
            first_payment_date.days as int,
            num_payments as int,
            annual_rate@,
            money(solution.unwrap()@),
            interest_method,
            interest_type,
            balloon_payment is None,
            opt_view(balloon_payment),
            opt_view(option_fee),
        )),
        solution is Some ==> (r matches Ok(s) ==> schedule_built(
            s,
            principal@,
            disbursal_date.days as int,
            first_capitalisation_date.days as int,
            first_payment_date.days as int,
            num_payments as int,
            annual_rate@,
            money(solution.unwrap()@),
            interest_method,
            interest_type,
            balloon_payment is None,
            opt_view(balloon_payment),
            opt_view(option_fee),
        )),
        solution is Some ==> (r matches Ok(s) ==> closing_laws(
            s,
            principal@,
            num_payments as int,
            balloon_payment is None,
            opt_view(balloon_payment),
            opt_view(option_fee),
        )),
{
    match solution {
        None => Ok(Schedule::new()),
        Some(p) => {
            let level = p.round_dp(MONEY_SCALE, Rounding::MidpointAwayFromZero);
            proof {
                crate::schedule::lemma_money(p@);
            }
            build_schedule(
                principal,
                disbursal_date,
                first_capitalisation_date,
                first_payment_date,
                num_payments,
                annual_rate,
                level,
                interest_method,
                interest_type,
                balloon_payment.is_none(),
                balloon_payment,
                option_fee,
            )
        },
    }
}

/// How a ledger at a level payment in cents closes: every period but the last
/// pays principal part plus interest; a settled ledger ends at zero; a balloon
/// ledger pays the balloon and the fee last, and ends at zero.
pub open spec fn closing_laws(
    s: Schedule,
    principal: (int, nat),
    n: int,
    settle: bool,
    balloon: Option<(int, nat)>,
    fee: Option<(int, nat)>,
) -> bool {
    &&& forall|i: int|
        0 <= i < n - 1 ==> units(#[trigger] s.payments@[i].payment@) == units(
            s.payments@[i].principal@,
        ) + units(s.payments@[i].interest@)
    &&& settle && n >= 1 && (principal.1 <= 2 || n >= 2) && (fee is Some ==> fee.unwrap().1 <= 2)
        ==> units(final_row(s.payments@, n).balance@) == 0
    &&& !settle && balloon is Some && n >= 1 ==> {
        let last = final_row(s.payments@, n);
        &&& units(last.balance@) == 0
        &&& fee is None ==> last.payment@ == balloon.unwrap()
        &&& (fee is Some && balloon.unwrap().1 <= 2 && fee.unwrap().1 <= 2) ==> units(
            last.payment@,
        ) == units(balloon.unwrap()) + units(fee.unwrap())
    }
}

/// The amortisation schedule of a loan.
///
/// With a fixed payment the ledger is built at that payment and not settled.
/// Otherwise the level payment is solved for: the rough annuity payment (of
/// the principal less any balloon) seeds the secant method at 1/2.5 and 2.5
/// times itself, with tolerance 0.1 and at most four steps, on the closing
/// balance (less the balloon) of unsettled ledgers without balloon or fee
/// ([`solved_payment`]). When that run ends without converging the schedule is
/// empty; when it converges on `x`, the ledger is built at `x` in cents.
pub fn amortise(
    principal: Decimal,
    annual_rate: Decimal,
    num_payments: u32,
    disbursal_date: Date,
    first_payment_date: Date,
    first_capitalisation_date: Date,
    interest_method: InterestMethod,
    interest_type: InterestType,
    fixed_payment: Option<Decimal>,
    balloon_payment: Option<Decimal>,
    option_fee: Option<Decimal>,
) -> (r: Result<Schedule, AmortiseError>)
    requires
        num_payments >= 1,
        principal.wf(),
        annual_rate.wf(),
        opt_wf(fixed_payment),
        opt_wf(balloon_payment),
        opt_wf(option_fee),
    ensures
        fixed_payment is Some ==> (r is Ok <==> build_succeeds(
            principal@,
            disbursal_date.days as int,
            first_capitalisation_date.days as int,
            first_payment_date.days as int,
            num_payments as int,
            annual_rate@,
            fixed_payment.unwrap()@,
            interest_method,
            interest_type,
            false,
            opt_view(balloon_payment),
            opt_view(option_fee),
        )),
        fixed_payment is Some ==> (r matches Ok(s) ==> schedule_built(
            s,
            principal@,
            disbursal_date.days as int,
            first_capitalisation_date.days as int,
            first_payment_date.days as int,
            num_payments as int,
            annual_rate@,
            fixed_payment.unwrap()@,
            interest_method,
            interest_type,
            false,
            opt_view(balloon_payment),
            opt_view(option_fee),
        )),
        fixed_payment is Some ==> (r matches Ok(s) ==> (fixed_payment.unwrap()@.1 <= 2
            ==> closing_laws(
            s,
            principal@,
            num_payments as int,
            false,
            opt_view(balloon_payment),
            opt_view(option_fee),
        ))),
        fixed_payment is None && solved_payment(
            principal@,
            disbursal_date.days as int,
            first_capitalisation_date.days as int,
            first_payment_date.days as int,
            num_payments as int,
            annual_rate@,
            interest_method,
            interest_type,
            opt_view(balloon_payment),
        ) is None ==> r is Err,
        fixed_payment is None && solved_payment(
            principal@,
            disbursal_date.days as int,
            first_capitalisation_date.days as int,
            first_payment_date.days as int,
            num_payments as int,
            annual_rate@,
            interest_method,
            interest_type,
            opt_view(balloon_payment),
        ) == Some(None::<(int, nat)>) ==> (r matches Ok(s)
            && s.payments@.len() == 0 && s.meta.is_zero() && s.wf()),
        fixed_payment is None && (solved_payment(
            principal@,
            disbursal_date.days as int,
            first_capitalisation_date.days as int,
            first_payment_date.days as int,
            num_payments as int,
            annual_rate@,
            interest_method,
            interest_type,
            opt_view(balloon_payment),
        ) matches Some(Some(_))) ==> (r is Ok <==> build_succeeds(
            principal@,
            disbursal_date.days as int,
            first_capitalisation_date.days as int,
            first_payment_date.days as int,
            num_payments as int,
            annual_rate@,
            money(solved_payment(
                principal@,
                disbursal_date.days as int,
                first_capitalisation_date.days as int,
                first_payment_date.days as int,
                num_payments as int,
                annual_rate@,
                interest_method,
                interest_type,
                opt_view(balloon_payment),
            ).unwrap().unwrap()),
            interest_method,
            interest_type,
            balloon_payment is None,
            opt_view(balloon_payment),
            opt_view(option_fee),
        )),
        fixed_payment is None && (solved_payment(
            principal@,
            disbursal_date.days as int,
            first_capitalisation_date.days as int,
            first_payment_date.days as int,
            num_payments as int,
            annual_rate@,
            interest_method,
            interest_type,
            opt_view(balloon_payment),
        ) matches Some(Some(_))) ==> (r matches Ok(s) ==> schedule_built(
            s,
            principal@,
            disbursal_date.days as int,
            first_capitalisation_date.days as int,
            first_payment_date.days as int,
            num_payments as int,
            annual_rate@,
            money(solved_payment(
                principal@,
                disbursal_date.days as int,
                first_capitalisation_date.days as int,
                first_payment_date.days as int,
                num_payments as int,
                annual_rate@,
                interest_method,
                interest_type,
                opt_view(balloon_payment),
            ).unwrap().unwrap()),
            interest_method,
            interest_type,
            balloon_payment is None,
            opt_view(balloon_payment),
            opt_view(option_fee),
        ) && closing_laws(
            s,
            principal@,
            num_payments as int,
            balloon_payment is None,
            opt_view(balloon_payment),
            opt_view(option_fee),
        )),
{
    if let Some(fixed) = fixed_payment {
        return build_schedule(
            principal,
            disbursal_date,
            first_capitalisation_date,
            first_payment_date,
            num_payments,
            annual_rate,
            fixed,
            interest_method,
            interest_type,
            false,
            balloon_payment,
            option_fee,
        );
    }
    let effective_principal = match balloon_payment {
        Some(b) => match principal.checked_sub(&b) {
            Some(x) => x,
            None => return Err(AmortiseError::Overflow),
        },
        None => principal,
    };
    let rough = calculate_rough_period_payment(effective_principal, annual_rate, num_payments);
    let rough = match rough {
        Ok(x) => x,
        Err(e) => return Err(e),
    };
    let window = Decimal::new(25, 1);
    let low = match rough.checked_div(&window) {
        Some(x) => x,
        None => return Err(AmortiseError::Overflow),
    };
    let high = match rough.checked_mul(&window) {
        Some(x) => x,
        None => return Err(AmortiseError::Overflow),
    };
    let tolerance = Decimal::new(1, 1);
    let ghost seeds = solver_seeds(
        principal@,
        annual_rate@,
        num_payments as int,
        opt_view(balloon_payment),
    );
    assert(seeds == Some((low@, high@)));
    let objective = |p: Decimal| -> (r: Result<Decimal, AmortiseError>)
        requires
            p.wf(),
            principal.wf(),
            annual_rate.wf(),
            num_payments >= 1,
            opt_wf(balloon_payment),
        ensures
            r is Ok <==> objective_value(
                principal@,
                disbursal_date.days as int,
                first_capitalisation_date.days as int,
                first_payment_date.days as int,
                num_payments as int,
                annual_rate@,
                p@,
                interest_method,
                interest_type,
                opt_view(balloon_payment),
            ) is Some,
            r matches Ok(v) ==> v.wf() && objective_value(
                principal@,
                disbursal_date.days as int,
                first_capitalisation_date.days as int,
                first_payment_date.days as int,
                num_payments as int,
                annual_rate@,
                p@,
                interest_method,
                interest_type,
                opt_view(balloon_payment),
            ) == Some(v@),
        {
            let s = build_schedule(
                principal,
                disbursal_date,
                first_capitalisation_date,
                first_payment_date,
                num_payments,
                annual_rate,
                p,
                interest_method,
                interest_type,
                false,
                None,
                None,
            )?;
            let k = s.payments.len();
            let closing = s.payments[k - 1].balance;
            assert(s.payments@[k - 1].wf());
            match balloon_payment {
                Some(b) => match closing.checked_sub(&b) {
                    Some(v) => Ok(v),
                    None => Err(AmortiseError::Overflow),
                },
                None => Ok(closing),
            }
        };
    let result = secant_method(objective, low, high, tolerance, SOLVER_ITERATIONS);
    proof {
        assert forall|x: Decimal, y: Decimal|
            #[trigger] objective.ensures((x,), Ok::<Decimal, AmortiseError>(y))
            implies objective_value(
                principal@,
                disbursal_date.days as int,
                first_capitalisation_date.days as int,
                first_payment_date.days as int,
                num_payments as int,
                annual_rate@,
                x@,
                interest_method,
                interest_type,
                opt_view(balloon_payment),
            )
                == Some(y@) by {}
        assert forall|x: Decimal, e: AmortiseError|
            #[trigger] objective.ensures((x,), Err::<Decimal, AmortiseError>(e))
            implies objective_value(
                principal@,
                disbursal_date.days as int,
                first_capitalisation_date.days as int,
                first_payment_date.days as int,
                num_payments as int,
                annual_rate@,
                x@,
                interest_method,
                interest_type,
                opt_view(balloon_payment),
            )
                is None by {}
        if result matches Ok(Some(_)) {
            let x = result->Ok_0.unwrap();
            let (ps, vs, k) = choose|ps: Seq<Decimal>, vs: Seq<Decimal>, k: int|
                #[trigger] secant_trace(objective, tolerance@, ps, vs, k) && ps[0] == low && ps[1]
                    == high && k < SOLVER_ITERATIONS && vs.len() == k + 2 && secant_outcome(
                    ps[k]@,
                    ps[k + 1]@,
                    vs[k]@,
                    vs[k + 1]@,
                    tolerance@,
                ) == Some((true, x@));
            lemma_run_follows_trace(
                principal@,
                    disbursal_date.days as int,
                    first_capitalisation_date.days as int,
                    first_payment_date.days as int,
                    num_payments as int,
                    annual_rate@,
                    interest_method,
                    interest_type,
                    opt_view(balloon_payment),
                objective,
                ps,
                vs,
                k,
                0,
                SOLVER_ITERATIONS as nat,
            );
            if vs.len() >= k + 1 {
                assert(objective.ensures((ps[k],), Ok::<Decimal, AmortiseError>(vs[k])));
            }
            if vs.len() == k + 2 {
                assert(objective.ensures((ps[k + 1],), Ok::<Decimal, AmortiseError>(vs[k + 1])));
            }
        } else if result matches Ok(None) {
            let (ps, vs, k) = choose|ps: Seq<Decimal>, vs: Seq<Decimal>, k: int|
                #[trigger] secant_trace(objective, tolerance@, ps, vs, k) && ps[0] == low && ps[1]
                    == high && k == SOLVER_ITERATIONS && vs.len() == k + 1;
            lemma_run_follows_trace(
                principal@,
                    disbursal_date.days as int,
                    first_capitalisation_date.days as int,
                    first_payment_date.days as int,
                    num_payments as int,
                    annual_rate@,
                    interest_method,
                    interest_type,
                    opt_view(balloon_payment),
                objective,
                ps,
                vs,
                k,
                0,
                SOLVER_ITERATIONS as nat,
            );
            if vs.len() >= k + 1 {
                assert(objective.ensures((ps[k],), Ok::<Decimal, AmortiseError>(vs[k])));
            }
            if vs.len() == k + 2 {
                assert(objective.ensures((ps[k + 1],), Ok::<Decimal, AmortiseError>(vs[k + 1])));
            }
        } else {
            let (ps, vs, k) = choose|ps: Seq<Decimal>, vs: Seq<Decimal>, k: int|
                #[trigger] secant_trace(objective, tolerance@, ps, vs, k) && ps[0] == low && ps[1]
                    == high && k < SOLVER_ITERATIONS && ((vs.len() == 0 && exists|e: AmortiseError|
                    objective.ensures((ps[0],), Err::<Decimal, AmortiseError>(e))) || (vs.len()
                    == k + 1 && exists|e: AmortiseError|
                    objective.ensures((ps[k + 1],), Err::<Decimal, AmortiseError>(e))) || (vs.len()
                    == k + 2 && secant_outcome(ps[k]@, ps[k + 1]@, vs[k]@, vs[k + 1]@, tolerance@)
                    is None));
            lemma_run_follows_trace(
                principal@,
                    disbursal_date.days as int,
                    first_capitalisation_date.days as int,
                    first_payment_date.days as int,
                    num_payments as int,
                    annual_rate@,
                    interest_method,
                    interest_type,
                    opt_view(balloon_payment),
                objective,
                ps,
                vs,
                k,
                0,
                SOLVER_ITERATIONS as nat,
            );
            if vs.len() >= k + 1 {
                assert(objective.ensures((ps[k],), Ok::<Decimal, AmortiseError>(vs[k])));
            }
            if vs.len() == k + 2 {
                assert(objective.ensures((ps[k + 1],), Ok::<Decimal, AmortiseError>(vs[k + 1])));
            }
        }
    }
    let solution = match result {
        Ok(x) => x,
        Err(e) => return Err(e),
    };
    schedule_from_solution(
        solution,
        principal,
        annual_rate,
        num_payments,
        disbursal_date,
        first_payment_date,
        first_capitalisation_date,
        interest_method,
        interest_type,
        balloon_payment,
        option_fee,
    )
}

} // verus!
