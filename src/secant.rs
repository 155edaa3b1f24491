use vstd::prelude::*;

use crate::decimal::{
    abs_int, decimal_difference, decimal_product, decimal_quotient, lemma_pow10_positive, units,
    Decimal,
};
use crate::error::AmortiseError;

verus! {

/// One secant step from the points `(x0, f0)` and `(x1, f1)`:
/// `Some((true, x))` when `x` is taken as the root, `Some((false, x2))` to go
/// on from `x2 = x1 - f1 (x1 - x0) / (f1 - f0)`, `None` when the arithmetic
/// does not fit.
///
/// `x1` is the root when `|f1| < eps`. When `f1 == f0` the secant is flat and
/// has no crossing: `x1`, the latest estimate, is returned as the root. `x2` is
/// the root when `|x2 - x1| < eps`.
pub open spec fn secant_outcome(
    x0: (int, nat),
    x1: (int, nat),
    f0: (int, nat),
    f1: (int, nat),
    eps: (int, nat),
) -> Option<(bool, (int, nat))> {
    if abs_int(units(f1)) < units(eps) {
        Some((true, x1))
    } else if units(f1) == units(f0) {
        Some((true, x1))
    } else {
        match decimal_difference(x1, x0) {
            None => None,
            Some(dx) => match decimal_product(f1, dx) {
                None => None,
                Some(num) => match decimal_difference(f1, f0) {
                    None => None,
                    Some(den) => match decimal_quotient(num, den) {
                        None => None,
                        Some(step) => match decimal_difference(x1, step) {
                            None => None,
                            Some(x2) => match decimal_difference(x2, x1) {
                                None => None,
                                Some(gap) => Some((abs_int(units(gap)) < units(eps), x2)),
                            },
                        },
                    },
                },
            },
        }
    }
}

proof fn lemma_abs_units(v: (int, nat))
    ensures
        units((abs_int(v.0), v.1)) == abs_int(units(v)),
{
    lemma_pow10_positive((28 - v.1) as nat);
    let p = crate::decimal::pow10((28 - v.1) as nat);
    assert(abs_int(v.0) * p == abs_int(v.0 * p)) by (nonlinear_arith)
        requires
            p >= 1,
    ;
}

/// One step of the secant method, on values of the function that the caller
/// has computed.
pub fn secant_step(x0: Decimal, x1: Decimal, f0: Decimal, f1: Decimal, epsilon: Decimal) -> (r:
    Result<(bool, Decimal), AmortiseError>)
    requires
        x0.wf(),
        x1.wf(),
        f0.wf(),
        f1.wf(),
        epsilon.wf(),
    ensures
        r is Ok <==> secant_outcome(x0@, x1@, f0@, f1@, epsilon@) is Some,
        r matches Ok((done, x)) ==> x.wf() && secant_outcome(x0@, x1@, f0@, f1@, epsilon@) == Some(
            (done, x@),
        ),
{
    proof {
        lemma_abs_units(f1@);
    }
    if f1.abs().less_than(&epsilon) {
        return Ok((true, x1));
    }
    if f1.same_value(&f0) {
        return Ok((true, x1));
    }
    let dx = match x1.checked_sub(&x0) {
        Some(v) => v,
        None => return Err(AmortiseError::Overflow),
    };
    let num = match f1.checked_mul(&dx) {
        Some(v) => v,
        None => return Err(AmortiseError::Overflow),
    };
    let den = match f1.checked_sub(&f0) {
        Some(v) => v,
        None => return Err(AmortiseError::Overflow),
    };
    let step = match num.checked_div(&den) {
        Some(v) => v,
        None => return Err(AmortiseError::Overflow),
    };
    let x2 = match x1.checked_sub(&step) {
        Some(v) => v,
        None => return Err(AmortiseError::Overflow),
    };
    let gap = match x2.checked_sub(&x1) {
        Some(v) => v,
        None => return Err(AmortiseError::Overflow),
    };
    proof {
        lemma_abs_units(gap@);
    }
    Ok((gap.abs().less_than(&epsilon), x2))
}

/// The first `k` steps of the secant method from `ps[0]` and `ps[1]`: `ps` are
/// the iterates, `vs[j]` a value that `f` returned at `ps[j]`, and each of the
/// `k` steps went on from `(ps[j], ps[j + 1])` to `ps[j + 2]`.
pub open spec fn secant_trace<F: Fn(Decimal) -> Result<Decimal, AmortiseError>>(
    f: F,
    eps: (int, nat),
    ps: Seq<Decimal>,
    vs: Seq<Decimal>,
    k: int,
) -> bool {
    &&& 0 <= k
    &&& ps.len() == k + 2
    &&& vs.len() <= k + 2
    &&& k > 0 ==> vs.len() >= k + 1
    &&& forall|j: int|
        0 <= j < vs.len() ==> f.ensures((ps[j],), Ok::<Decimal, AmortiseError>(#[trigger] vs[j]))
    &&& forall|j: int|
        0 <= j < k ==> #[trigger] secant_outcome(ps[j]@, ps[j + 1]@, vs[j]@, vs[j + 1]@, eps)
            == Some((false, ps[j + 2]@))
}

/// Looks for a root of `f` by the secant method from the seeds `x0` and `x1`,
/// with at most `max_iterations` steps; `f` is evaluated once at each iterate.
/// `Ok(Some(x))` when a step converged on `x`; `Ok(None)` when none of the
/// `max_iterations` steps did; an error of `f` or of a step's arithmetic ends
/// the search.
pub fn secant_method<F: Fn(Decimal) -> Result<Decimal, AmortiseError>>(
    f: F,
    x0: Decimal,
    x1: Decimal,
    epsilon: Decimal,
    max_iterations: usize,
) -> (r: Result<Option<Decimal>, AmortiseError>)
    requires
        x0.wf(),
        x1.wf(),
        epsilon.wf(),
        forall|x: Decimal| x.wf() ==> #[trigger] f.requires((x,)),
        forall|x: Decimal, y: Result<Decimal, AmortiseError>|
            #[trigger] f.ensures((x,), y) ==> (y matches Ok(v) ==> v.wf()),
    ensures
        max_iterations == 0 ==> r == Ok::<Option<Decimal>, AmortiseError>(None),
        r matches Ok(Some(x)) ==> x.wf() && exists|ps: Seq<Decimal>, vs: Seq<Decimal>, k: int|
            #[trigger] secant_trace(f, epsilon@, ps, vs, k) && ps[0] == x0 && ps[1] == x1 && k
                < max_iterations && vs.len() == k + 2 && secant_outcome(
                ps[k]@,
                ps[k + 1]@,
                vs[k]@,
                vs[k + 1]@,
                epsilon@,
            ) == Some((true, x@)),
        r matches Ok(None) ==> max_iterations == 0 || exists|
            ps: Seq<Decimal>,
            vs: Seq<Decimal>,
            k: int,
        |
            #[trigger] secant_trace(f, epsilon@, ps, vs, k) && ps[0] == x0 && ps[1] == x1 && k
                == max_iterations && vs.len() == k + 1,
        r is Err ==> exists|ps: Seq<Decimal>, vs: Seq<Decimal>, k: int|
            #[trigger] secant_trace(f, epsilon@, ps, vs, k) && ps[0] == x0 && ps[1] == x1 && k
                < max_iterations && ((vs.len() == 0 && exists|e: AmortiseError|
                f.ensures((ps[0],), Err::<Decimal, AmortiseError>(e))) || (vs.len() == k + 1
                && exists|e: AmortiseError|
                f.ensures((ps[k + 1],), Err::<Decimal, AmortiseError>(e))) || (vs.len() == k + 2
                && secant_outcome(ps[k]@, ps[k + 1]@, vs[k]@, vs[k + 1]@, epsilon@) is None)),
{
    if max_iterations == 0 {
        return Ok(None);
    }
    let ghost mut ps: Seq<Decimal> = seq![x0, x1];
    let ghost mut vs: Seq<Decimal> = Seq::empty();
    let mut a = x0;
    let mut b = x1;
    let mut fa = match f(a) {
        Ok(v) => v,
        Err(e) => {
            assert(secant_trace(f, epsilon@, ps, vs, 0));
            return Err(e);
        },
    };
    proof {
        vs = vs.push(fa);
    }
    let mut iteration: usize = 0;
    while iteration < max_iterations
        invariant
            a.wf(),
            b.wf(),
            fa.wf(),
            epsilon.wf(),
            0 < max_iterations,
            iteration <= max_iterations,
            secant_trace(f, epsilon@, ps, vs, iteration as int),
            ps[0] == x0,
            ps[1] == x1,
            vs.len() == iteration + 1,
            ps[iteration as int] == a,
            ps[iteration + 1] == b,
            vs[iteration as int] == fa,
            forall|x: Decimal| x.wf() ==> #[trigger] f.requires((x,)),
            forall|x: Decimal, y: Result<Decimal, AmortiseError>|
                #[trigger] f.ensures((x,), y) ==> (y matches Ok(v) ==> v.wf()),
        decreases max_iterations - iteration,
    {
        let fb = match f(b) {
            Ok(v) => v,
            Err(e) => {
                assert(f.ensures((ps[iteration + 1],), Err::<Decimal, AmortiseError>(e)));
                assert(secant_trace(f, epsilon@, ps, vs, iteration as int));
                return Err(e);
            },
        };
        let ghost vs2 = vs.push(fb);
        assert(secant_trace(f, epsilon@, ps, vs2, iteration as int)) by {
            assert forall|j: int| 0 <= j < vs2.len() implies f.ensures(
                (ps[j],),
                Ok::<Decimal, AmortiseError>(#[trigger] vs2[j]),
            ) by {
                if j < vs.len() {
                    assert(vs2[j] == vs[j]);
                }
            }
            assert forall|j: int| 0 <= j < iteration implies #[trigger] secant_outcome(
                ps[j]@,
                ps[j + 1]@,
                vs2[j]@,
                vs2[j + 1]@,
                epsilon@,
            ) == Some((false, ps[j + 2]@)) by {
                assert(vs2[j] == vs[j]);
                assert(vs2[j + 1] == vs[j + 1]);
                assert(secant_outcome(ps[j]@, ps[j + 1]@, vs[j]@, vs[j + 1]@, epsilon@) == Some(
                    (false, ps[j + 2]@),
                ));
            }
        }
        let (done, x) = match secant_step(a, b, fa, fb, epsilon) {
            Ok(v) => v,
            Err(e) => {
                assert(vs2[iteration as int] == fa && vs2[iteration + 1] == fb);
                assert(secant_trace(f, epsilon@, ps, vs2, iteration as int));
                return Err(e);
            },
        };
        if done {
            assert(vs2[iteration as int] == fa && vs2[iteration + 1] == fb);
            assert(secant_trace(f, epsilon@, ps, vs2, iteration as int));
            return Ok(Some(x));
        }
        let ghost ps2 = ps.push(x);
        assert(secant_trace(f, epsilon@, ps2, vs2, iteration + 1)) by {
            assert forall|j: int| 0 <= j < vs2.len() implies f.ensures(
                (ps2[j],),
                Ok::<Decimal, AmortiseError>(#[trigger] vs2[j]),
            ) by {
                assert(ps2[j] == ps[j]);
            }
            assert forall|j: int| 0 <= j < iteration + 1 implies #[trigger] secant_outcome(
                ps2[j]@,
                ps2[j + 1]@,
                vs2[j]@,
                vs2[j + 1]@,
                epsilon@,
            ) == Some((false, ps2[j + 2]@)) by {
                assert(ps2[j] == ps[j]);
                assert(ps2[j + 1] == ps[j + 1]);
                if j < iteration {
                    assert(ps2[j + 2] == ps[j + 2]);
                } else {
                    assert(ps2[j + 2] == x);
                }
            }
        }
        proof {
            ps = ps2;
            vs = vs2;
        }
        a = b;
        b = x;
        fa = fb;
        iteration = iteration + 1;
    }
    assert(secant_trace(f, epsilon@, ps, vs, iteration as int));
    Ok(None)
}

} // verus!
