//! The outcome of evaluating a property once.

use vstd::prelude::*;

verus! {

/// The three ways in which one evaluation of a property can end.
#[derive(Debug, PartialEq, Eq)]
pub enum TestResult {
    /// The property held.
    Success,
    /// A generator gave up after this many attempts.
    ExhaustedGenerators(usize),
    /// The property failed; the texts of the generated values, the outermost
    /// quantifier's first.
    Fail(Vec<String>),
}

/// The mathematical value of a `TestResult`.
pub enum Outcome {
    Success,
    ExhaustedGenerators(nat),
    Fail(Seq<Seq<char>>),
}

impl View for TestResult {
    type V = Outcome;

    open spec fn view(&self) -> Outcome {
        match self {
            TestResult::Success => Outcome::Success,
            TestResult::ExhaustedGenerators(attempts) => Outcome::ExhaustedGenerators(
                *attempts as nat,
            ),
            TestResult::Fail(trail) => Outcome::Fail(trail.deep_view()),
        }
    }
}

/// What can be turned into the outcome of a property.
pub trait TestResultish {
    /// The outcome that the value stands for.
    spec fn outcome(&self) -> Outcome;

    /// Turns the value into a result.
    fn to_test_result(value: &Self) -> (result: TestResult)
        ensures
            result@ == value.outcome(),
    ;
}

impl TestResultish for bool {
    /// `true` is a success, `false` a failure with an empty trail.
    open spec fn outcome(&self) -> Outcome {
        if *self {
            Outcome::Success
        } else {
            Outcome::Fail(Seq::empty())
        }
    }

    fn to_test_result(value: &bool) -> (result: TestResult) {
        if *value {
            TestResult::Success
        } else {
            let trail: Vec<String> = Vec::new();
            assert(trail.deep_view() =~= Seq::<Seq<char>>::empty());
            TestResult::Fail(trail)
        }
    }
}

impl TestResultish for TestResult {
    /// A result stands for itself.
    open spec fn outcome(&self) -> Outcome {
        self@
    }

    fn to_test_result(value: &TestResult) -> (result: TestResult) {
        match value {
            TestResult::Success => TestResult::Success,
            TestResult::ExhaustedGenerators(attempts) => TestResult::ExhaustedGenerators(*attempts),
            TestResult::Fail(trail) => TestResult::Fail(trail.clone()),
        }
    }
}

} // verus!
