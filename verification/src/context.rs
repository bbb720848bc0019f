//! The generation context: the random source and the current size.

use vstd::prelude::*;
use crate::random::{mix, step, RandomSource};

verus! {

/// What every generator draws from: a random source and the bound on the
/// magnitude and length of what is generated.
pub struct TestContext {
    pub random: RandomSource,
    pub size: u32,
}

/// The number in `start ..= end` that the raw draw `raw` stands for.
pub open spec fn pick(raw: u64, start: i64, end: i64) -> i64 {
    (start + raw as int % (end - start + 1)) as i64
}

/// The number that `choose_in_range` hands out in `ctx` for the range `start ..= end`.
pub open spec fn chosen(ctx: TestContext, start: i64, end: i64) -> i64 {
    pick(mix(step(ctx.random.state)), start, end)
}

/// The context that a single draw leaves behind.
pub open spec fn after_draw(ctx: TestContext) -> TestContext {
    TestContext { random: RandomSource { state: step(ctx.random.state) }, size: ctx.size }
}

/// The context `ctx` with its size set to `size`.
pub open spec fn resized(ctx: TestContext, size: u32) -> TestContext {
    TestContext { random: ctx.random, size }
}

impl TestContext {
    /// A fresh context: a source seeded with `seed`, and size 0.
    pub fn new(seed: u64) -> (ctx: Self)
        ensures
            ctx.random.state == seed,
            ctx.size == 0,
    {
        TestContext { random: RandomSource::new(seed), size: 0 }
    }

    /// Sets the size for the next pass; the random source is left alone.
    pub fn set_size(&mut self, size: u32)
        ensures
            *final(self) == resized(*old(self), size),
    {
        self.size = size;
    }
}

/// Draws a number from `start ..= end`, both ends included.
pub fn choose_in_range(test_context: &mut TestContext, start: i64, end: i64) -> (value: i64)
    requires
        start <= end,
    ensures
        start <= value <= end,
        value == chosen(*old(test_context), start, end),
        *final(test_context) == after_draw(*old(test_context)),
{
    let raw: u64 = test_context.random.next_u64();
    let span: u128 = (end as i128 - start as i128 + 1) as u128;
    let offset: u128 = raw as u128 % span;
    (start as i128 + offset as i128) as i64
}

} // verus!
