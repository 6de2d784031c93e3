use crate::context::{BorthContext, ContextView};
use crate::errors::{BorthError, BorthResult};
use vstd::prelude::*;

verus! {

/// Moves the third item to the top.
pub open spec fn effect(c: ContextView) -> (ContextView, BorthResult<()>) {
    let items = c.stack.items;
    let n = items.len();
    if n == 0 {
        (c, Err(BorthError::StackUnderflow))
    } else if n == 1 {
        (c.with_items(items.drop_last()), Err(BorthError::StackUnderflow))
    } else if n == 2 {
        (c.with_items(items.drop_last().drop_last()), Err(BorthError::StackUnderflow))
    } else {
        (
            c.with_items(
                items.drop_last().drop_last().drop_last().push(items[n - 2]).push(items[n - 1]).push(
                    items[n - 3],
                ),
            ),
            Ok(()),
        )
    }
}

/// Moves the third item to the top.
pub fn call(ctx: &mut BorthContext) -> (r: BorthResult<()>)
    requires
        old(ctx).wf(),
    ensures
        final(ctx).wf(),
        (final(ctx)@, r) == effect(old(ctx)@),
{
    let value1 = ctx.pop_value()?;
    let value2 = ctx.pop_value()?;
    let value3 = ctx.pop_value()?;
    ctx.push_value(value2)?;
    ctx.push_value(value1)?;
    ctx.push_value(value3)
}

} // verus!
