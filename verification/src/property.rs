//! Properties and predicates: what the engine evaluates.

use vstd::prelude::*;
use crate::context::TestContext;
use crate::outcome::{Outcome, TestResult};

verus! {

/// A property: evaluated in a context, it yields a result.
///
/// The result and the context that is left are functions of the context in
/// which the property is evaluated. An evaluation may advance the random
/// source; the size is the runner's to set.
pub trait Property {
    /// The outcome of an evaluation in `ctx`.
    spec fn verdict(&self, ctx: TestContext) -> Outcome;

    /// The context that an evaluation in `ctx` leaves behind.
    spec fn context_after(&self, ctx: TestContext) -> TestContext;

    /// Evaluates the property once.
    fn check(&self, test_context: &mut TestContext) -> (result: TestResult)
        ensures
            result@ == self.verdict(*old(test_context)),
            *final(test_context) == self.context_after(*old(test_context)),
            final(test_context).size == old(test_context).size,
    ;
}

/// A predicate over values of `T`, which may itself quantify over further
/// values that it generates in the context.
pub trait Predicate<T: DeepView> {
    /// The outcome for the value whose deep view is `value`, in `ctx`.
    spec fn verdict(&self, ctx: TestContext, value: T::V) -> Outcome;

    /// The context that the evaluation leaves behind.
    spec fn context_after(&self, ctx: TestContext, value: T::V) -> TestContext;

    /// Evaluates the predicate on `value`.
    fn test(&self, test_context: &mut TestContext, value: &T) -> (result: TestResult)
        ensures
            result@ == self.verdict(*old(test_context), value.deep_view()),
            *final(test_context) == self.context_after(*old(test_context), value.deep_view()),
            final(test_context).size == old(test_context).size,
    ;
}

} // verus!
