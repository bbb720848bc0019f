//! Ready-made properties and predicates.

use vstd::prelude::*;
use vstd::pervasive::VecAdditionalExecFns;
use crate::context::TestContext;
use crate::outcome::{Outcome, TestResult, TestResultish};
use crate::property::{Predicate, Property};

verus! {

/// The predicate, and the property, that holds always or never.
pub struct Always {
    pub holds: bool,
}

impl Property for Always {
    open spec fn verdict(&self, ctx: TestContext) -> Outcome {
        self.holds.outcome()
    }

    open spec fn context_after(&self, ctx: TestContext) -> TestContext {
        ctx
    }

    fn check(&self, test_context: &mut TestContext) -> (result: TestResult) {
        TestResultish::to_test_result(&self.holds)
    }
}

impl<T: DeepView> Predicate<T> for Always {
    open spec fn verdict(&self, ctx: TestContext, value: T::V) -> Outcome {
        self.holds.outcome()
    }

    open spec fn context_after(&self, ctx: TestContext, value: T::V) -> TestContext {
        ctx
    }

    fn test(&self, test_context: &mut TestContext, value: &T) -> (result: TestResult) {
        TestResultish::to_test_result(&self.holds)
    }
}

/// The property that holds while the context's size is below a limit.
pub struct SizeBelow {
    pub limit: u32,
}

impl Property for SizeBelow {
    open spec fn verdict(&self, ctx: TestContext) -> Outcome {
        (ctx.size < self.limit).outcome()
    }

    open spec fn context_after(&self, ctx: TestContext) -> TestContext {
        ctx
    }

    fn check(&self, test_context: &mut TestContext) -> (result: TestResult) {
        let holds = test_context.size < self.limit;
        TestResultish::to_test_result(&holds)
    }
}

/// The predicate on integers that holds up to a bound.
pub struct AtMost {
    pub bound: i64,
}

impl Predicate<i64> for AtMost {
    open spec fn verdict(&self, ctx: TestContext, value: i64) -> Outcome {
        (value <= self.bound).outcome()
    }

    open spec fn context_after(&self, ctx: TestContext, value: i64) -> TestContext {
        ctx
    }

    fn test(&self, test_context: &mut TestContext, value: &i64) -> (result: TestResult) {
        let holds = *value <= self.bound;
        TestResultish::to_test_result(&holds)
    }
}

/// The items of `items` in the opposite order.
pub fn reversed(items: &Vec<i64>) -> (result: Vec<i64>)
    ensures
        result@ == items@.reverse(),
{
    let mut result: Vec<i64> = Vec::new();
    let mut i: usize = items.len();
    while i > 0
        invariant
            i <= items.len(),
            result.len() == items.len() - i,
            forall|k: int| 0 <= k < result.len() ==> result[k] == items[items.len() - 1 - k],
        decreases i,
    {
        i = i - 1;
        result.push(items[i]);
    }
    result
}

/// Whether the two sequences hold the same items in the same order.
pub fn same_items(left: &Vec<i64>, right: &Vec<i64>) -> (same: bool)
    ensures
        same == (left@ == right@),
{
    if left.len() != right.len() {
        return false;
    }
    let mut i: usize = 0;
    while i < left.len()
        invariant
            i <= left.len(),
            left.len() == right.len(),
            forall|k: int| 0 <= k < i ==> left[k] == right[k],
        decreases left.len() - i,
    {
        if left[i] != right[i] {
            return false;
        }
        i = i + 1;
    }
    assert(left@ =~= right@);
    true
}

/// The predicate "a sequence reversed twice is the sequence again", with a
/// fault built in: after the first reversal the first item is overwritten
/// with `corruption`. It holds of the empty sequence, and of a sequence that
/// ends in `corruption`, and of no other.
pub struct ReversedTwice {
    pub corruption: i64,
}

impl Predicate<Vec<i64>> for ReversedTwice {
    open spec fn verdict(&self, ctx: TestContext, value: Seq<i64>) -> Outcome {
        (value.len() == 0 || value.last() == self.corruption).outcome()
    }

    open spec fn context_after(&self, ctx: TestContext, value: Seq<i64>) -> TestContext {
        ctx
    }

    fn test(&self, test_context: &mut TestContext, value: &Vec<i64>) -> (result: TestResult) {
        let mut once = reversed(value);
        if once.len() > 0 {
            once.set(0, self.corruption);
        }
        let twice = reversed(&once);
        let holds = same_items(value, &twice);
        proof {
            if value.len() == 0 || value@.last() == self.corruption {
                assert(twice@ =~= value@);
            }
        }
        TestResultish::to_test_result(&holds)
    }
}

} // verus!
