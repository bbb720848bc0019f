//! Generation of random values that the context's size bounds.

use vstd::prelude::*;
use crate::context::{after_draw, choose_in_range, chosen, TestContext};

verus! {

/// A type of which random values can be generated.
///
/// What is generated is a function of the context, and is bounded by the
/// context's size; generation advances the random source and leaves the size
/// as it is.
pub trait Arbitrary: DeepView + Sized {
    /// The deep view of the value that is generated in `ctx`.
    spec fn drawn(ctx: TestContext) -> Self::V;

    /// The context that generation in `ctx` leaves behind.
    spec fn context_after(ctx: TestContext) -> TestContext;

    /// Whether `size` bounds the value whose deep view is `model`.
    spec fn within(model: Self::V, size: u32) -> bool;

    /// In every context, generation leaves the size as it is, and the size
    /// bounds what is generated.
    proof fn lemma_drawn_within(ctx: TestContext)
        ensures
            Self::context_after(ctx).size == ctx.size,
            Self::within(Self::drawn(ctx), ctx.size),
    ;

    /// Generates a value.
    fn arbitrary(test_context: &mut TestContext) -> (value: Self)
        ensures
            value.deep_view() == Self::drawn(*old(test_context)),
            *final(test_context) == Self::context_after(*old(test_context)),
            final(test_context).size == old(test_context).size,
            Self::within(value.deep_view(), old(test_context).size),
    ;
}

impl Arbitrary for i64 {
    /// An integer is drawn from zero up to the size.
    open spec fn drawn(ctx: TestContext) -> i64 {
        chosen(ctx, 0, ctx.size as i64)
    }

    open spec fn context_after(ctx: TestContext) -> TestContext {
        after_draw(ctx)
    }

    open spec fn within(model: i64, size: u32) -> bool {
        0 <= model <= size
    }

    proof fn lemma_drawn_within(ctx: TestContext) {
    }

    fn arbitrary(test_context: &mut TestContext) -> (value: i64) {
        let size: i64 = test_context.size as i64;
        choose_in_range(test_context, 0, size)
    }
}

impl Arbitrary for bool {
    /// A boolean is true where one is drawn from zero and one.
    open spec fn drawn(ctx: TestContext) -> bool {
        chosen(ctx, 0, 1) == 1
    }

    open spec fn context_after(ctx: TestContext) -> TestContext {
        after_draw(ctx)
    }

    /// The size does not bound a boolean.
    open spec fn within(model: bool, size: u32) -> bool {
        true
    }

    proof fn lemma_drawn_within(ctx: TestContext) {
    }

    fn arbitrary(test_context: &mut TestContext) -> (value: bool) {
        let value: i64 = choose_in_range(test_context, 0, 1);
        value == 1
    }
}

/// The deep views of `count` values of `T` that are generated one after the
/// other, the first in `ctx`.
pub open spec fn drawn_items<T: Arbitrary>(ctx: TestContext, count: nat) -> Seq<T::V>
    decreases count,
{
    if count == 0 {
        Seq::empty()
    } else {
        let before = (count - 1) as nat;
        drawn_items::<T>(ctx, before).push(T::drawn(context_after_items::<T>(ctx, before)))
    }
}

/// The context that is left when `count` values of `T` were generated one
/// after the other, the first in `ctx`.
pub open spec fn context_after_items<T: Arbitrary>(ctx: TestContext, count: nat) -> TestContext
    decreases count,
{
    if count == 0 {
        ctx
    } else {
        T::context_after(context_after_items::<T>(ctx, (count - 1) as nat))
    }
}

/// However many items are generated one after the other, the size stays as
/// it is and bounds each of them.
pub proof fn lemma_drawn_items_within<T: Arbitrary>(ctx: TestContext, count: nat)
    ensures
        context_after_items::<T>(ctx, count).size == ctx.size,
        drawn_items::<T>(ctx, count).len() == count,
        forall|i: int|
            0 <= i < count ==> T::within(#[trigger] drawn_items::<T>(ctx, count)[i], ctx.size),
    decreases count,
{
    if count > 0 {
        let before = (count - 1) as nat;
        lemma_drawn_items_within::<T>(ctx, before);
        T::lemma_drawn_within(context_after_items::<T>(ctx, before));
    }
}

/// The length of the sequence that is generated in `ctx`.
pub open spec fn drawn_length(ctx: TestContext) -> nat {
    chosen(ctx, 0, ctx.size as i64) as nat
}

impl<T: Arbitrary> Arbitrary for Vec<T> {
    /// A length is drawn from zero up to the size, and then that many items,
    /// in the order in which they stand.
    open spec fn drawn(ctx: TestContext) -> Seq<T::V> {
        drawn_items::<T>(after_draw(ctx), drawn_length(ctx))
    }

    open spec fn context_after(ctx: TestContext) -> TestContext {
        context_after_items::<T>(after_draw(ctx), drawn_length(ctx))
    }

    /// The size bounds the length and each of the items.
    open spec fn within(model: Seq<T::V>, size: u32) -> bool {
        &&& model.len() <= size
        &&& forall|i: int| 0 <= i < model.len() ==> T::within(#[trigger] model[i], size)
    }

    proof fn lemma_drawn_within(ctx: TestContext) {
        lemma_drawn_items_within::<T>(after_draw(ctx), drawn_length(ctx));
    }

    fn arbitrary(test_context: &mut TestContext) -> (value: Vec<T>) {
        let ghost start = *test_context;
        let size: i64 = test_context.size as i64;
        let length: usize = choose_in_range(test_context, 0, size) as usize;
        let ghost first = *test_context;
        let mut items: Vec<T> = Vec::new();
        let mut i: usize = 0;
        while i < length
            invariant
                i <= length <= first.size,
                items.len() == i,
                test_context.size == first.size,
                items.deep_view() == drawn_items::<T>(first, i as nat),
                *test_context == context_after_items::<T>(first, i as nat),
                Self::within(items.deep_view(), first.size),
            decreases length - i,
        {
            let ghost before = items.deep_view();
            let item = T::arbitrary(test_context);
            items.push(item);
            assert forall|k: int| 0 <= k < items.deep_view().len() implies T::within(
                #[trigger] items.deep_view()[k],
                first.size,
            ) by {
                if k < before.len() {
                    assert(items.deep_view()[k] == before[k]);
                }
            }
            i = i + 1;
        }
        items
    }
}

} // verus!
