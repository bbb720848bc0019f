//! Reports: the line that is printed for a test, and runs of several tests.

use vstd::prelude::*;
use vstd::string::StringExecFns;
use crate::outcome::{Outcome, TestResult};
use crate::property::Property;
use crate::runner::{fresh, standard_schedule, run_a_test, run_from, Test};
use crate::text::{decimal, push_decimal};

verus! {

/// The entries of a trail, one on each line.
pub open spec fn trail_text(trail: Seq<Seq<char>>) -> Seq<char>
    decreases trail.len(),
{
    if trail.len() == 0 {
        Seq::empty()
    } else if trail.len() == 1 {
        trail[0]
    } else {
        trail_text(trail.drop_last()) + seq!['\n'] + trail.last()
    }
}

/// The report of the test named `name` that ended in `outcome`.
pub open spec fn report(name: Seq<char>, outcome: Outcome) -> Seq<char> {
    match outcome {
        Outcome::Success => "success "@ + name,
        Outcome::Fail(trail) => "failed "@ + name + ", counter example:\n"@ + trail_text(trail),
        Outcome::ExhaustedGenerators(attempts) => "exhausted generators after "@ + decimal(
            attempts,
        ) + " tries"@,
    }
}

/// Appends the entries of `trail` to `s`, one on each line.
fn push_trail(s: &mut String, trail: &Vec<String>)
    ensures
        final(s)@ == old(s)@ + trail_text(trail.deep_view()),
{
    let ghost head = s@;
    let ghost entries = trail.deep_view();
    let mut i: usize = 0;
    while i < trail.len()
        invariant
            i <= trail.len(),
            entries == trail.deep_view(),
            s@ == head + trail_text(entries.take(i as int)),
        decreases trail.len() - i,
    {
        if i > 0 {
            s.append("\n");
        }
        s.append(trail[i].as_str());
        proof {
            reveal_strlit("\n");
            let next = entries.take(i + 1);
            assert(next.drop_last() =~= entries.take(i as int));
        }
        i = i + 1;
    }
    assert(entries.take(i as int) =~= entries);
}

/// The line that reports `result` for the test named `name`.
pub fn report_line(name: &str, result: &TestResult) -> (line: String)
    ensures
        line@ == report(name@, result@),
{
    match result {
        TestResult::Success => {
            let mut line = String::from_str("success ");
            line.append(name);
            line
        },
        TestResult::Fail(trail) => {
            let mut line = String::from_str("failed ");
            line.append(name);
            line.append(", counter example:\n");
            push_trail(&mut line, trail);
            line
        },
        TestResult::ExhaustedGenerators(attempts) => {
            let mut line = String::from_str("exhausted generators after ");
            push_decimal(&mut line, *attempts as u64);
            line.append(" tries");
            line
        },
    }
}

/// A test's result together with the line that reports it.
pub struct TestReport {
    pub result: TestResult,
    pub line: String,
}

/// What `run_test` returns for `test` and `seed`.
pub open spec fn reported<P: Property>(test: Test<P>, seed: u64, outcome: TestReport) -> bool {
    &&& outcome.result@ == run_from(&test.property, fresh(seed), standard_schedule()).verdict
    &&& outcome.line@ == report(test.name@, outcome.result@)
}

/// Runs `test` from a fresh context with the seed `seed`, and reports it.
pub fn run_test<P: Property>(test: &Test<P>, seed: u64) -> (outcome: TestReport)
    ensures
        reported(*test, seed, outcome),
{
    let result = run_a_test(test, seed);
    let line = report_line(test.name.as_str(), &result);
    TestReport { result, line }
}

/// Runs the tests in order, each from a fresh context of its own with the
/// seed `seed`, so that no test's outcome bears on another's.
pub fn run_tests<P: Property>(tests: &[Test<P>], seed: u64) -> (reports: Vec<TestReport>)
    ensures
        reports.len() == tests.len(),
        forall|i: int| 0 <= i < tests.len() ==> reported(tests[i], seed, #[trigger] reports[i]),
{
    let mut reports: Vec<TestReport> = Vec::new();
    let mut i: usize = 0;
    while i < tests.len()
        invariant
            i <= tests.len(),
            reports.len() == i,
            forall|k: int| 0 <= k < i ==> reported(tests[k], seed, #[trigger] reports[k]),
        decreases tests.len() - i,
    {
        let outcome = run_test(&tests[i], seed);
        reports.push(outcome);
        i = i + 1;
    }
    reports
}

/// Whether every one of the reports is a success.
pub fn all_succeeded(reports: &Vec<TestReport>) -> (yes: bool)
    ensures
        yes == (forall|i: int| 0 <= i < reports.len() ==> reports[i].result@ == Outcome::Success),
{
    let mut i: usize = 0;
    while i < reports.len()
        invariant
            i <= reports.len(),
            forall|k: int| 0 <= k < i ==> reports[k].result@ == Outcome::Success,
        decreases reports.len() - i,
    {
        match &reports[i].result {
            TestResult::Success => {},
            _ => {
                return false;
            },
        }
        i = i + 1;
    }
    true
}

} // verus!
