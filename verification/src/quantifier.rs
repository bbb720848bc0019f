//! Universal quantification over generated values.

use vstd::prelude::*;
use core::marker::PhantomData;
use crate::arbitrary::Arbitrary;
use crate::context::TestContext;
use crate::outcome::{Outcome, TestResult};
use crate::property::{Predicate, Property};
use crate::shrink::{is_failure, minimal, minimize, Shrink};
use crate::text::ToText;

verus! {

/// The outcome `inner` as an enclosing quantifier hands it on: a failure's
/// trail gets `text` in front, anything else passes unchanged.
pub open spec fn recorded(text: Seq<char>, inner: Outcome) -> Outcome {
    match inner {
        Outcome::Fail(trail) => Outcome::Fail(seq![text] + trail),
        other => other,
    }
}

/// The outcome of `for_all` over `T` with `predicate`, in `ctx`.
pub open spec fn for_all_verdict<T: Arbitrary + ToText, P: Predicate<T>>(
    predicate: &P,
    ctx: TestContext,
) -> Outcome {
    recorded(T::text(T::drawn(ctx)), predicate.verdict(T::context_after(ctx), T::drawn(ctx)))
}

/// The context that `for_all` over `T` with `predicate` leaves behind.
pub open spec fn for_all_context<T: Arbitrary + ToText, P: Predicate<T>>(
    predicate: &P,
    ctx: TestContext,
) -> TestContext {
    predicate.context_after(T::context_after(ctx), T::drawn(ctx))
}

/// Puts `text` in front of the trail of a failure.
pub fn record(text: String, inner: TestResult) -> (result: TestResult)
    ensures
        result@ == recorded(text@, inner@),
{
    match inner {
        TestResult::Success => TestResult::Success,
        TestResult::ExhaustedGenerators(attempts) => TestResult::ExhaustedGenerators(attempts),
        TestResult::Fail(trail) => {
            let ghost before = trail.deep_view();
            let mut trail = trail;
            trail.insert(0, text);
            assert(trail.deep_view() =~= seq![text@] + before);
            TestResult::Fail(trail)
        },
    }
}

/// Generates one value of `T`, evaluates `op` on it, and on a failure puts
/// the value's text in front of the trail.
pub fn for_all<T: Arbitrary + ToText, P: Predicate<T>>(
    test_context: &mut TestContext,
    op: &P,
) -> (result: TestResult)
    ensures
        result@ == for_all_verdict::<T, P>(op, *old(test_context)),
        *final(test_context) == for_all_context::<T, P>(op, *old(test_context)),
        final(test_context).size == old(test_context).size,
{
    let arg = T::arbitrary(test_context);
    let inner = op.test(test_context, &arg);
    record(arg.to_text(), inner)
}

/// Generates one value of `T`, evaluates the closure `op` on it, and on a
/// failure puts the value's text in front of the trail.
///
/// The closure gets no context, so it cannot quantify in turn; what it
/// returns is whatever it allows for the value that was generated.
pub fn for_all_with<T: Arbitrary + ToText, F: Fn(&T) -> TestResult>(
    test_context: &mut TestContext,
    op: F,
) -> (result: TestResult)
    requires
        forall|value: T| op.requires((&value,)),
    ensures
        exists|value: T, inner: TestResult|
            {
                &&& value.deep_view() == T::drawn(*old(test_context))
                &&& #[trigger] op.ensures((&value,), inner)
                &&& result@ == recorded(T::text(value.deep_view()), inner@)
            },
        *final(test_context) == T::context_after(*old(test_context)),
{
    let arg = T::arbitrary(test_context);
    let inner = op(&arg);
    record(arg.to_text(), inner)
}

/// The quantifier as a value: `predicate` for all values of `T`.
///
/// It is a property, and also a predicate that takes no notice of the value
/// it is given, so that quantifiers nest.
pub struct ForAll<T, P> {
    pub predicate: P,
    pub of: PhantomData<T>,
}

impl<T: Arbitrary + ToText, P: Predicate<T>> ForAll<T, P> {
    /// The quantifier over `T` with `predicate`.
    pub fn new(predicate: P) -> (quantifier: Self)
        ensures
            quantifier.predicate == predicate,
    {
        ForAll { predicate, of: PhantomData }
    }
}

impl<T: Arbitrary + ToText, P: Predicate<T>> Property for ForAll<T, P> {
    open spec fn verdict(&self, ctx: TestContext) -> Outcome {
        for_all_verdict::<T, P>(&self.predicate, ctx)
    }

    open spec fn context_after(&self, ctx: TestContext) -> TestContext {
        for_all_context::<T, P>(&self.predicate, ctx)
    }

    fn check(&self, test_context: &mut TestContext) -> (result: TestResult) {
        for_all::<T, P>(test_context, &self.predicate)
    }
}

impl<S: DeepView, T: Arbitrary + ToText, P: Predicate<T>> Predicate<S> for ForAll<T, P> {
    open spec fn verdict(&self, ctx: TestContext, value: S::V) -> Outcome {
        for_all_verdict::<T, P>(&self.predicate, ctx)
    }

    open spec fn context_after(&self, ctx: TestContext, value: S::V) -> TestContext {
        for_all_context::<T, P>(&self.predicate, ctx)
    }

    fn test(&self, test_context: &mut TestContext, value: &S) -> (result: TestResult) {
        for_all::<T, P>(test_context, &self.predicate)
    }
}

/// The outcome of `for_all_minimal` over `T` with `predicate`, in `ctx`:
/// that of `for_all`, but for a failure, which names the value that the
/// search for a simpler failing value ends in.
pub open spec fn for_all_minimal_verdict<T: Arbitrary + ToText + Shrink, P: Predicate<T>>(
    predicate: &P,
    ctx: TestContext,
) -> Outcome {
    let first = predicate.verdict(T::context_after(ctx), T::drawn(ctx));
    if is_failure(first) {
        let least = minimal::<T, P>(
            predicate,
            for_all_context::<T, P>(predicate, ctx),
            T::drawn(ctx),
            first,
            0,
        );
        recorded(T::text(least.value), least.verdict)
    } else {
        first
    }
}

/// The context that `for_all_minimal` over `T` with `predicate` leaves behind.
pub open spec fn for_all_minimal_context<T: Arbitrary + ToText + Shrink, P: Predicate<T>>(
    predicate: &P,
    ctx: TestContext,
) -> TestContext {
    let first = predicate.verdict(T::context_after(ctx), T::drawn(ctx));
    if is_failure(first) {
        minimal::<T, P>(
            predicate,
            for_all_context::<T, P>(predicate, ctx),
            T::drawn(ctx),
            first,
            0,
        ).context
    } else {
        for_all_context::<T, P>(predicate, ctx)
    }
}

/// Generates one value of `T` and evaluates `op` on it; on a failure,
/// searches for a simpler value that fails as well, and puts the text of the
/// value that is left in front of the trail of its failure.
pub fn for_all_minimal<T: Arbitrary + ToText + Shrink, P: Predicate<T>>(
    test_context: &mut TestContext,
    op: &P,
) -> (result: TestResult)
    ensures
        result@ == for_all_minimal_verdict::<T, P>(op, *old(test_context)),
        *final(test_context) == for_all_minimal_context::<T, P>(op, *old(test_context)),
        final(test_context).size == old(test_context).size,
{
    let arg = T::arbitrary(test_context);
    let first = op.test(test_context, &arg);
    match first {
        TestResult::Fail(trail) => {
            let least = minimize::<T, P>(test_context, op, arg, TestResult::Fail(trail));
            record(least.value.to_text(), least.result)
        },
        other => other,
    }
}

/// The quantifier that searches for a simpler failing value, as a value.
pub struct ForAllMinimal<T, P> {
    pub predicate: P,
    pub of: PhantomData<T>,
}

impl<T: Arbitrary + ToText + Shrink, P: Predicate<T>> ForAllMinimal<T, P> {
    /// The quantifier over `T` with `predicate`.
    pub fn new(predicate: P) -> (quantifier: Self)
        ensures
            quantifier.predicate == predicate,
    {
        ForAllMinimal { predicate, of: PhantomData }
    }
}

impl<T: Arbitrary + ToText + Shrink, P: Predicate<T>> Property for ForAllMinimal<T, P> {
    open spec fn verdict(&self, ctx: TestContext) -> Outcome {
        for_all_minimal_verdict::<T, P>(&self.predicate, ctx)
    }

    open spec fn context_after(&self, ctx: TestContext) -> TestContext {
        for_all_minimal_context::<T, P>(&self.predicate, ctx)
    }

    fn check(&self, test_context: &mut TestContext) -> (result: TestResult) {
        for_all_minimal::<T, P>(test_context, &self.predicate)
    }
}

impl<S: DeepView, T: Arbitrary + ToText + Shrink, P: Predicate<T>> Predicate<S> for ForAllMinimal<
    T,
    P,
> {
    open spec fn verdict(&self, ctx: TestContext, value: S::V) -> Outcome {
        for_all_minimal_verdict::<T, P>(&self.predicate, ctx)
    }

    open spec fn context_after(&self, ctx: TestContext, value: S::V) -> TestContext {
        for_all_minimal_context::<T, P>(&self.predicate, ctx)
    }

    fn test(&self, test_context: &mut TestContext, value: &S) -> (result: TestResult) {
        for_all_minimal::<T, P>(test_context, &self.predicate)
    }
}

/// Two nested quantifiers whose inner predicate always fails with an empty
/// trail yield a failure whose trail holds exactly the text of the outer
/// value and then the text of the inner value.
pub proof fn lemma_nested_trail<
    T: Arbitrary + ToText,
    U: Arbitrary + ToText,
    P: Predicate<T>,
    Q: Predicate<U>,
>(outer: &P, inner: &Q, ctx: TestContext)
    requires
        forall|c: TestContext, v: T::V| #[trigger]
            outer.verdict(c, v) == for_all_verdict::<U, Q>(inner, c),
        forall|c: TestContext, u: U::V| #[trigger]
            inner.verdict(c, u) == Outcome::Fail(Seq::empty()),
    ensures
        for_all_verdict::<T, P>(outer, ctx) == Outcome::Fail(
            seq![T::text(T::drawn(ctx)), U::text(U::drawn(T::context_after(ctx)))],
        ),
{
    let middle = T::context_after(ctx);
    let inner_value = U::drawn(middle);
    assert(seq![T::text(T::drawn(ctx))] + seq![U::text(inner_value)] =~= seq![
        T::text(T::drawn(ctx)),
        U::text(inner_value),
    ]);
}

} // verus!
