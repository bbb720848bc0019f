//! Shrinking: simpler candidates for a value, and the search for a value
//! that fails and has no simpler candidate that fails.

use vstd::prelude::*;
use crate::context::TestContext;
use crate::outcome::{Outcome, TestResult};
use crate::property::Predicate;

verus! {

/// A type whose values can be made simpler.
pub trait Shrink: DeepView + Sized {
    /// The deep views of the candidates for the value whose deep view is
    /// `model`, in the order in which they are tried.
    spec fn candidates(model: Self::V) -> Seq<Self::V>;

    /// How far the value is from the simplest one.
    spec fn measure(model: Self::V) -> nat;

    /// Every candidate is strictly simpler than the value; so the value is
    /// not among its candidates, and a minimal value has none.
    proof fn lemma_candidates_simpler(model: Self::V)
        ensures
            forall|i: int|
                0 <= i < Self::candidates(model).len() ==> Self::measure(
                    #[trigger] Self::candidates(model)[i],
                ) < Self::measure(model),
    ;

    /// The candidates for `value`.
    fn shrink(value: &Self) -> (out: Vec<Self>)
        ensures
            out.deep_view() == Self::candidates(value.deep_view()),
    ;
}

/// The magnitude of `n`.
pub open spec fn magnitude(n: int) -> nat {
    if n < 0 {
        (-n) as nat
    } else {
        n as nat
    }
}

/// Half of `n`, rounded towards zero; a negative `n` is brought one closer
/// to zero first, so that the halves of the integers of a machine type are
/// found without leaving the type.
pub open spec fn halved(n: int) -> int {
    if n < 0 {
        -((-(n + 1)) / 2)
    } else {
        n / 2
    }
}

impl Shrink for i64 {
    /// An integer shrinks to zero and to the integer halfway to zero.
    open spec fn candidates(model: i64) -> Seq<i64> {
        if model == 0 {
            Seq::empty()
        } else if halved(model as int) == 0 {
            seq![0i64]
        } else {
            seq![0i64, halved(model as int) as i64]
        }
    }

    open spec fn measure(model: i64) -> nat {
        magnitude(model as int)
    }

    proof fn lemma_candidates_simpler(model: i64) {
    }

    fn shrink(value: &i64) -> (out: Vec<i64>) {
        let mut out: Vec<i64> = Vec::new();
        if *value != 0 {
            out.push(0);
            let half: i64 = if *value < 0 {
                -((-(*value + 1)) / 2)
            } else {
                *value / 2
            };
            if half != 0 {
                out.push(half);
            }
        }
        out
    }
}

impl Shrink for bool {
    /// `true` shrinks to `false`, which is minimal.
    open spec fn candidates(model: bool) -> Seq<bool> {
        if model {
            seq![false]
        } else {
            Seq::empty()
        }
    }

    open spec fn measure(model: bool) -> nat {
        if model {
            1
        } else {
            0
        }
    }

    proof fn lemma_candidates_simpler(model: bool) {
    }

    fn shrink(value: &bool) -> (out: Vec<bool>) {
        let mut out: Vec<bool> = Vec::new();
        if *value {
            out.push(false);
        }
        out
    }
}

/// Where a search for a simpler failing value ends.
pub struct Minimum<V> {
    /// The deep view of the value that is left.
    pub value: V,
    /// The failure that the value gave.
    pub verdict: Outcome,
    /// The context that the search leaves behind.
    pub context: TestContext,
}

/// Whether the outcome is a failure.
pub open spec fn is_failure(outcome: Outcome) -> bool {
    outcome is Fail
}

/// The search that starts at `value`, which gave the failure `verdict`, with
/// the candidates before `next` tried already: the candidates are tried in
/// order, each in the context that the one before it left; the first
/// that fails takes the value's place, and the search goes on from there,
/// until a value is left none of whose candidates fails. Only a candidate
/// that is simpler than the value takes its place, as every candidate of a
/// `Shrink` type is; that is why the search ends.
pub open spec fn minimal<T: Shrink, P: Predicate<T>>(
    op: &P,
    ctx: TestContext,
    value: T::V,
    verdict: Outcome,
    next: nat,
) -> Minimum<T::V>
    decreases T::measure(value), T::candidates(value).len() - next,
{
    let candidates = T::candidates(value);
    if next >= candidates.len() {
        Minimum { value, verdict, context: ctx }
    } else {
        let candidate = candidates[next as int];
        let outcome = op.verdict(ctx, candidate);
        let after = op.context_after(ctx, candidate);
        if is_failure(outcome) && T::measure(candidate) < T::measure(value) {
            minimal::<T, P>(op, after, candidate, outcome, 0)
        } else {
            minimal::<T, P>(op, after, value, verdict, next + 1)
        }
    }
}

/// A value together with the result that it gave.
pub struct Minimized<T> {
    pub value: T,
    pub result: TestResult,
}

/// Replaces `value`, which gave `failure`, by the first of its candidates
/// that fails as well, again and again, until none of the candidates fails.
pub fn minimize<T: Shrink, P: Predicate<T>>(
    test_context: &mut TestContext,
    op: &P,
    value: T,
    failure: TestResult,
) -> (least: Minimized<T>)
    ensures
        least.value.deep_view() == minimal::<T, P>(
            op,
            *old(test_context),
            value.deep_view(),
            failure@,
            0,
        ).value,
        least.result@ == minimal::<T, P>(
            op,
            *old(test_context),
            value.deep_view(),
            failure@,
            0,
        ).verdict,
        *final(test_context) == minimal::<T, P>(
            op,
            *old(test_context),
            value.deep_view(),
            failure@,
            0,
        ).context,
        final(test_context).size == old(test_context).size,
{
    let ghost target = minimal::<T, P>(op, *test_context, value.deep_view(), failure@, 0);
    let mut current = value;
    let mut result = failure;
    let mut candidates = T::shrink(&current);
    let mut i: usize = 0;
    while i < candidates.len()
        invariant
            i <= candidates.len(),
            candidates.deep_view() == T::candidates(current.deep_view()),
            target == minimal::<T, P>(op, *test_context, current.deep_view(), result@, i as nat),
            test_context.size == old(test_context).size,
        decreases T::measure(current.deep_view()), candidates.len() - i,
    {
        proof {
            T::lemma_candidates_simpler(current.deep_view());
        }
        let outcome = op.test(test_context, &candidates[i]);
        let failed = match &outcome {
            TestResult::Fail(_) => true,
            _ => false,
        };
        if failed {
            current = candidates.swap_remove(i);
            result = outcome;
            candidates = T::shrink(&current);
            i = 0;
        } else {
            i = i + 1;
        }
    }
    Minimized { value: current, result }
}

/// The search ends in a local minimum, whichever candidates were tried
/// already and did not fail.
proof fn lemma_search_ends_in_minimum<T: Shrink, P: Predicate<T>>(
    op: &P,
    ctx: TestContext,
    value: T::V,
    next: nat,
)
    requires
        forall|c: TestContext, d: TestContext, v: T::V| #[trigger]
            op.verdict(c, v) == #[trigger] op.verdict(d, v),
        is_failure(op.verdict(ctx, value)),
        forall|j: int|
            0 <= j < next && j < T::candidates(value).len() ==> !is_failure(
                op.verdict(ctx, #[trigger] T::candidates(value)[j]),
            ),
    ensures
        ({
            let least = minimal::<T, P>(op, ctx, value, op.verdict(ctx, value), next);
            &&& least.verdict == op.verdict(ctx, least.value)
            &&& is_failure(least.verdict)
            &&& forall|j: int|
                0 <= j < T::candidates(least.value).len() ==> !is_failure(
                    op.verdict(ctx, #[trigger] T::candidates(least.value)[j]),
                )
            &&& T::measure(least.value) <= T::measure(value)
        }),
    decreases T::measure(value), T::candidates(value).len() - next,
{
    let candidates = T::candidates(value);
    T::lemma_candidates_simpler(value);
    if next < candidates.len() {
        let candidate = candidates[next as int];
        let outcome = op.verdict(ctx, candidate);
        let after = op.context_after(ctx, candidate);
        if is_failure(outcome) {
            lemma_search_ends_in_minimum::<T, P>(op, after, candidate, 0);
        } else {
            lemma_search_ends_in_minimum::<T, P>(op, after, value, next + 1);
        }
    }
}

/// The search for a simpler failing value ends in a local minimum. For a
/// predicate whose outcome does not depend on the context, and a value that
/// fails: the value that is left fails, with the outcome that the search
/// reports; none of its candidates fails; and it is no further from the
/// simplest value than the value that the search began with.
pub proof fn lemma_minimal_is_local_minimum<T: Shrink, P: Predicate<T>>(
    op: &P,
    ctx: TestContext,
    value: T::V,
)
    requires
        forall|c: TestContext, d: TestContext, v: T::V| #[trigger]
            op.verdict(c, v) == #[trigger] op.verdict(d, v),
        is_failure(op.verdict(ctx, value)),
    ensures
        ({
            let least = minimal::<T, P>(op, ctx, value, op.verdict(ctx, value), 0);
            &&& least.verdict == op.verdict(ctx, least.value)
            &&& is_failure(least.verdict)
            &&& forall|j: int|
                0 <= j < T::candidates(least.value).len() ==> !is_failure(
                    op.verdict(ctx, #[trigger] T::candidates(least.value)[j]),
                )
            &&& T::measure(least.value) <= T::measure(value)
        }),
{
    lemma_search_ends_in_minimum::<T, P>(op, ctx, value, 0);
}

} // verus!
