//! The runner: one test over a schedule of sizes.

use vstd::prelude::*;
use crate::context::{resized, TestContext};
use crate::outcome::{Outcome, TestResult};
use crate::property::Property;
use crate::random::RandomSource;

verus! {

/// A named property.
pub struct Test<P> {
    pub name: String,
    pub property: P,
}

/// What a run over a schedule comes to.
pub struct Run {
    /// The outcome of the run.
    pub verdict: Outcome,
    /// How many times the property was evaluated.
    pub passes: nat,
    /// The context that the run leaves behind.
    pub context: TestContext,
}

/// What a run returns: the result, and how many passes were made.
pub struct RunReport {
    pub result: TestResult,
    pub passes: usize,
}

/// The context of a fresh run with the seed `seed`.
pub open spec fn fresh(seed: u64) -> TestContext {
    TestContext { random: RandomSource { state: seed }, size: 0 }
}

/// The sizes of the two passes that are made where no schedule is given.
pub open spec fn standard_schedule() -> Seq<u32> {
    seq![10u32, 1000u32]
}

/// The run of `property` over `schedule` that starts in `ctx`: pass by pass,
/// the size is set and the property evaluated, up to and including the first
/// pass that is not a success.
pub open spec fn run_from<P: Property>(property: &P, ctx: TestContext, schedule: Seq<u32>) -> Run
    decreases schedule.len(),
{
    if schedule.len() == 0 {
        Run { verdict: Outcome::Success, passes: 0, context: ctx }
    } else {
        let pass = resized(ctx, schedule[0]);
        let verdict = property.verdict(pass);
        let next = property.context_after(pass);
        if verdict == Outcome::Success {
            let rest = run_from(property, next, schedule.skip(1));
            Run { verdict: rest.verdict, passes: rest.passes + 1, context: rest.context }
        } else {
            Run { verdict, passes: 1, context: next }
        }
    }
}

/// The context in which pass `k` of a run evaluates the property, where the
/// passes before it were made.
pub open spec fn pass_context<P: Property>(
    property: &P,
    ctx: TestContext,
    schedule: Seq<u32>,
    k: nat,
) -> TestContext
    decreases k,
{
    if k == 0 {
        resized(ctx, schedule[0])
    } else {
        resized(
            property.context_after(pass_context(property, ctx, schedule, (k - 1) as nat)),
            schedule[k as int],
        )
    }
}

/// Pass `k + 1` of a run is pass `k` of the run that is left after the first pass.
proof fn lemma_pass_context_shift<P: Property>(
    property: &P,
    ctx: TestContext,
    schedule: Seq<u32>,
    k: nat,
)
    requires
        k + 1 < schedule.len(),
    ensures
        pass_context(
            property,
            property.context_after(resized(ctx, schedule[0])),
            schedule.skip(1),
            k,
        ) == pass_context(property, ctx, schedule, k + 1),
    decreases k,
{
    if k > 0 {
        lemma_pass_context_shift(property, ctx, schedule, (k - 1) as nat);
    } else {
        assert(pass_context(property, ctx, schedule, 0) == resized(ctx, schedule[0]));
    }
}

/// A run stops at the first pass that is not a success: where the passes
/// before pass `k` succeed and pass `k` does not, the run's outcome is that of
/// pass `k`, and the property is evaluated `k + 1` times and no more.
pub proof fn lemma_run_short_circuit<P: Property>(
    property: &P,
    ctx: TestContext,
    schedule: Seq<u32>,
    k: nat,
)
    requires
        k < schedule.len(),
        forall|j: nat|
            j < k ==> property.verdict(#[trigger] pass_context(property, ctx, schedule, j))
                == Outcome::Success,
        property.verdict(pass_context(property, ctx, schedule, k)) != Outcome::Success,
    ensures
        run_from(property, ctx, schedule).verdict == property.verdict(
            pass_context(property, ctx, schedule, k),
        ),
        run_from(property, ctx, schedule).passes == k + 1,
        run_from(property, ctx, schedule).context == property.context_after(
            pass_context(property, ctx, schedule, k),
        ),
    decreases k,
{
    if k > 0 {
        let next = property.context_after(resized(ctx, schedule[0]));
        let rest = schedule.skip(1);
        assert(property.verdict(pass_context(property, ctx, schedule, 0)) == Outcome::Success);
        assert forall|j: nat| j < k - 1 implies property.verdict(
            #[trigger] pass_context(property, next, rest, j),
        ) == Outcome::Success by {
            lemma_pass_context_shift(property, ctx, schedule, j);
        }
        lemma_pass_context_shift(property, ctx, schedule, (k - 1) as nat);
        lemma_run_short_circuit(property, next, rest, (k - 1) as nat);
    }
}

/// Where every pass succeeds, the run is a success and the property is
/// evaluated exactly once for each size of the schedule.
pub proof fn lemma_run_all_pass<P: Property>(property: &P, ctx: TestContext, schedule: Seq<u32>)
    requires
        forall|j: nat|
            j < schedule.len() ==> property.verdict(
                #[trigger] pass_context(property, ctx, schedule, j),
            ) == Outcome::Success,
    ensures
        run_from(property, ctx, schedule).verdict == Outcome::Success,
        run_from(property, ctx, schedule).passes == schedule.len(),
    decreases schedule.len(),
{
    if schedule.len() > 0 {
        let next = property.context_after(resized(ctx, schedule[0]));
        let rest = schedule.skip(1);
        assert(property.verdict(pass_context(property, ctx, schedule, 0)) == Outcome::Success);
        assert forall|j: nat| j < rest.len() implies property.verdict(
            #[trigger] pass_context(property, next, rest, j),
        ) == Outcome::Success by {
            lemma_pass_context_shift(property, ctx, schedule, j);
        }
        lemma_run_all_pass(property, next, rest);
    }
}

/// A run makes at least one pass where there is one to make, and never more
/// passes than the schedule holds.
pub proof fn lemma_run_passes_bounded<P: Property>(
    property: &P,
    ctx: TestContext,
    schedule: Seq<u32>,
)
    ensures
        run_from(property, ctx, schedule).passes <= schedule.len(),
        schedule.len() > 0 ==> run_from(property, ctx, schedule).passes >= 1,
        run_from(property, ctx, schedule).verdict != Outcome::Success ==> run_from(
            property,
            ctx,
            schedule,
        ).passes >= 1,
    decreases schedule.len(),
{
    if schedule.len() > 0 {
        lemma_run_passes_bounded(
            property,
            property.context_after(resized(ctx, schedule[0])),
            schedule.skip(1),
        );
    }
}

/// Runs `property` over `schedule` in the context given: for each size in
/// turn, sets the size and evaluates the property, and stops at the first
/// result that is not a success.
pub fn run_schedule<P: Property>(
    property: &P,
    test_context: &mut TestContext,
    schedule: &Vec<u32>,
) -> (report: RunReport)
    ensures
        report.result@ == run_from(property, *old(test_context), schedule@).verdict,
        report.passes == run_from(property, *old(test_context), schedule@).passes,
        *final(test_context) == run_from(property, *old(test_context), schedule@).context,
{
    let ghost total = run_from(property, *test_context, schedule@);
    let mut i: usize = 0;
    assert(schedule@.skip(0) =~= schedule@);
    while i < schedule.len()
        invariant
            i <= schedule.len(),
            total == run_from(property, *old(test_context), schedule@),
            total.verdict == run_from(property, *test_context, schedule@.skip(i as int)).verdict,
            total.passes == i + run_from(property, *test_context, schedule@.skip(i as int)).passes,
            total.context == run_from(property, *test_context, schedule@.skip(i as int)).context,
        decreases schedule.len() - i,
    {
        proof {
            assert(schedule@.skip(i as int).skip(1) =~= schedule@.skip(i + 1));
        }
        test_context.set_size(schedule[i]);
        let result = property.check(test_context);
        match result {
            TestResult::Success => {},
            other => {
                return RunReport { result: other, passes: i + 1 };
            },
        }
        i = i + 1;
    }
    RunReport { result: TestResult::Success, passes: i }
}

/// Runs `test` over `schedule` from a fresh context with the seed `seed`.
pub fn run_with_schedule<P: Property>(test: &Test<P>, seed: u64, schedule: &Vec<u32>) -> (result:
    TestResult)
    ensures
        result@ == run_from(&test.property, fresh(seed), schedule@).verdict,
{
    let mut test_context = TestContext::new(seed);
    run_schedule(&test.property, &mut test_context, schedule).result
}

/// Runs `test` from a fresh context with the seed `seed`: one pass at size
/// 10, then one at size 1000.
pub fn run_a_test<P: Property>(test: &Test<P>, seed: u64) -> (result: TestResult)
    ensures
        result@ == run_from(&test.property, fresh(seed), standard_schedule()).verdict,
{
    let mut schedule: Vec<u32> = Vec::new();
    schedule.push(10);
    schedule.push(1000);
    assert(schedule@ =~= standard_schedule());
    run_with_schedule(test, seed, &schedule)
}

} // verus!
