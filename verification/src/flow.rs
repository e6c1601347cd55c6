//! Steps in a row, each of which can fail.
use crate::error::{ErrorView, InferError};
use vstd::prelude::*;

verus! {

/// An executable outcome as a mathematical value.
pub open spec fn outcome<T>(r: Result<Vec<T>, InferError>) -> Result<Seq<T>, ErrorView> {
    match r {
        Ok(v) => Ok(v@),
        Err(e) => Err(e@),
    }
}

/// Whether these are the outcomes along the first steps: each made from the one before by its
/// step, or an error that was already there.
pub open spec fn follows<S>(
    steps: Seq<spec_fn(S, Result<S, ErrorView>) -> bool>,
    x: S,
    trace: Seq<Result<S, ErrorView>>,
) -> bool {
    &&& 0 < trace.len() <= steps.len() + 1
    &&& trace[0] == Ok::<S, ErrorView>(x)
    &&& forall|i: int|
        0 <= i < trace.len() - 1 ==> match #[trigger] trace[i] {
            Ok(v) => steps[i](v, trace[i + 1]),
            Err(e) => trace[i + 1] == Err::<S, ErrorView>(e),
        }
}

/// Whether the first `n` steps, from `x` on, can end with this outcome.
pub open spec fn reaches<S>(
    steps: Seq<spec_fn(S, Result<S, ErrorView>) -> bool>,
    x: S,
    n: int,
    r: Result<S, ErrorView>,
) -> bool {
    exists|trace: Seq<Result<S, ErrorView>>|
        #[trigger] follows(steps, x, trace) && trace.len() == n + 1 && trace.last() == r
}

/// Whether all steps, from `x` on, can end with this outcome: that of the last step, or the error
/// of the first step that fails.
pub open spec fn flows<S>(
    steps: Seq<spec_fn(S, Result<S, ErrorView>) -> bool>,
    x: S,
    r: Result<S, ErrorView>,
) -> bool {
    reaches(steps, x, steps.len() as int, r)
}

/// Before the first step there is what the steps start from.
pub proof fn lemma_start<S>(
    steps: Seq<spec_fn(S, Result<S, ErrorView>) -> bool>,
    x: S,
)
    ensures
        reaches(steps, x, 0, Ok(x)),
{
    let trace = seq![Ok::<S, ErrorView>(x)];
    assert(follows(steps, x, trace));
    assert(trace.last() == Ok::<S, ErrorView>(x));
}

/// One more step.
pub proof fn lemma_step<S>(
    steps: Seq<spec_fn(S, Result<S, ErrorView>) -> bool>,
    x: S,
    i: int,
    v: S,
    r: Result<S, ErrorView>,
)
    requires
        0 <= i < steps.len(),
        reaches(steps, x, i, Ok(v)),
        steps[i](v, r),
    ensures
        reaches(steps, x, i + 1, r),
        r is Err ==> flows(steps, x, r),
    decreases steps.len() - i,
{
    let trace = choose|trace: Seq<Result<S, ErrorView>>|
        #[trigger] follows(steps, x, trace) && trace.len() == i + 1 && trace.last() == Ok::<
            S,
            ErrorView,
        >(v);
    let longer = trace.push(r);
    assert forall|k: int| 0 <= k < longer.len() - 1 implies match #[trigger] longer[k] {
        Ok(u) => steps[k](u, longer[k + 1]),
        Err(e) => longer[k + 1] == Err::<S, ErrorView>(e),
    } by {
        assert(longer[k] == trace[k]);
        if k < trace.len() - 1 {
            assert(longer[k + 1] == trace[k + 1]);
        }
    }
    assert(follows(steps, x, longer));
    assert(longer.last() == r);
    if let Err(e) = r {
        lemma_fail(steps, x, i + 1, e);
    }
}

/// An error stays to the end.
pub proof fn lemma_fail<S>(
    steps: Seq<spec_fn(S, Result<S, ErrorView>) -> bool>,
    x: S,
    i: int,
    e: ErrorView,
)
    requires
        0 <= i <= steps.len(),
        reaches(steps, x, i, Err(e)),
    ensures
        flows(steps, x, Err(e)),
    decreases steps.len() - i,
{
    if i < steps.len() {
        let trace = choose|trace: Seq<Result<S, ErrorView>>|
            #[trigger] follows(steps, x, trace) && trace.len() == i + 1 && trace.last() == Err::<
                S,
                ErrorView,
            >(e);
        let longer = trace.push(Err(e));
        assert forall|k: int| 0 <= k < longer.len() - 1 implies match #[trigger] longer[k] {
            Ok(u) => steps[k](u, longer[k + 1]),
            Err(f) => longer[k + 1] == Err::<S, ErrorView>(f),
        } by {
            assert(longer[k] == trace[k]);
            if k < trace.len() - 1 {
                assert(longer[k + 1] == trace[k + 1]);
            }
        }
        assert(follows(steps, x, longer));
        assert(longer.last() == Err::<S, ErrorView>(e));
        lemma_fail(steps, x, i + 1, e);
    }
}

/// Whether each step in turn leads from one value to the next, from `x` to `r`.
pub open spec fn passes<S>(
    steps: Seq<spec_fn(S, Result<S, ErrorView>) -> bool>,
    x: S,
    r: S,
    values: Seq<S>,
) -> bool {
    &&& values.len() == steps.len() + 1
    &&& values[0] == x
    &&& values[steps.len() as int] == r
    &&& forall|i: int| 0 <= i < steps.len() ==> steps[i](#[trigger] values[i], Ok(values[i + 1]))
}

/// What comes out of steps in a row has gone through every one of them, in their order.
pub proof fn every_step_is_passed<S>(
    steps: Seq<spec_fn(S, Result<S, ErrorView>) -> bool>,
    x: S,
    r: S,
)
    requires
        flows(steps, x, Ok(r)),
    ensures
        exists|values: Seq<S>| #[trigger] passes(steps, x, r, values),
{
    let n = steps.len() as int;
    let trace = choose|trace: Seq<Result<S, ErrorView>>|
        #[trigger] follows(steps, x, trace) && trace.len() == n + 1 && trace.last() == Ok::<
            S,
            ErrorView,
        >(r);
    let values = Seq::new((n + 1) as nat, |i: int| trace[i]->Ok_0);
    assert forall|i: int| 0 <= i <= n implies #[trigger] trace[i] is Ok by {
        lemma_ok_before(steps, x, trace, i);
    }
    assert forall|i: int| 0 <= i < n implies steps[i](#[trigger] values[i], Ok(values[i + 1])) by {
        assert(trace[i] is Ok);
        assert(trace[i + 1] is Ok);
        assert(trace[i + 1] == Ok::<S, ErrorView>(values[i + 1]));
    }
    assert(passes(steps, x, r, values));
}

proof fn lemma_ok_before<S>(
    steps: Seq<spec_fn(S, Result<S, ErrorView>) -> bool>,
    x: S,
    trace: Seq<Result<S, ErrorView>>,
    i: int,
)
    requires
        follows(steps, x, trace),
        trace.last() is Ok,
        0 <= i < trace.len(),
    ensures
        trace[i] is Ok,
    decreases trace.len() - i,
{
    if i < trace.len() - 1 {
        lemma_ok_before(steps, x, trace, i + 1);
        let _ = trace[i];
    }
}

/// Where every step has one outcome, so have all steps together.
pub proof fn flows_are_settled<S>(
    steps: Seq<spec_fn(S, Result<S, ErrorView>) -> bool>,
    x: S,
    a: Result<S, ErrorView>,
    b: Result<S, ErrorView>,
)
    requires
        flows(steps, x, a),
        flows(steps, x, b),
        forall|i: int, v: S, p: Result<S, ErrorView>, q: Result<S, ErrorView>|
            #![trigger steps[i](v, p), steps[i](v, q)]
            0 <= i < steps.len() && steps[i](v, p) && steps[i](v, q) ==> p == q,
    ensures
        a == b,
{
    let n = steps.len() as int;
    let s = choose|trace: Seq<Result<S, ErrorView>>|
        #[trigger] follows(steps, x, trace) && trace.len() == n + 1 && trace.last() == a;
    let t = choose|trace: Seq<Result<S, ErrorView>>|
        #[trigger] follows(steps, x, trace) && trace.len() == n + 1 && trace.last() == b;
    lemma_same_trace(steps, x, s, t, n);
}

proof fn lemma_same_trace<S>(
    steps: Seq<spec_fn(S, Result<S, ErrorView>) -> bool>,
    x: S,
    s: Seq<Result<S, ErrorView>>,
    t: Seq<Result<S, ErrorView>>,
    n: int,
)
    requires
        follows(steps, x, s),
        follows(steps, x, t),
        0 <= n < s.len(),
        n < t.len(),
        forall|i: int, v: S, p: Result<S, ErrorView>, q: Result<S, ErrorView>|
            #![trigger steps[i](v, p), steps[i](v, q)]
            0 <= i < steps.len() && steps[i](v, p) && steps[i](v, q) ==> p == q,
    ensures
        s[n] == t[n],
    decreases n,
{
    if n > 0 {
        lemma_same_trace(steps, x, s, t, n - 1);
        match s[n - 1] {
            Ok(v) => {
                assert(steps[n - 1](v, s[n]));
                assert(t[n - 1] == Ok::<S, ErrorView>(v));
                assert(steps[n - 1](v, t[n]));
            },
            Err(_) => {},
        }
    }
}

} // verus!
