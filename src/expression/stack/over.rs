use crate::context::{BorthContext, ContextView};
use crate::errors::{BorthError, BorthResult};
use vstd::prelude::*;

verus! {

/// Pushes a copy of the second item; a full stack is left as it was.
pub open spec fn effect(c: ContextView) -> (ContextView, BorthResult<()>) {
    let items = c.stack.items;
    let n = items.len();
    if n == 0 {
        (c, Err(BorthError::StackUnderflow))
    } else if n == 1 {
        (c.with_items(items.drop_last()), Err(BorthError::StackUnderflow))
    } else if n >= c.stack.capacity {
        (c, Err(BorthError::StackOverflow))
    } else {
        (c.with_items(items.push(items[n - 2])), Ok(()))
    }
}

/// Pushes a copy of the second item.
pub fn call(ctx: &mut BorthContext) -> (r: BorthResult<()>)
    requires
        old(ctx).wf(),
    ensures
        final(ctx).wf(),
        (final(ctx)@, r) == effect(old(ctx)@),
{
    let ghost items = old(ctx)@.stack.items;
    let value1 = ctx.pop_value()?;
    let value2 = ctx.pop_value()?;
    assert(items.drop_last().drop_last().push(value2).push(value1) =~= items);
    ctx.push_value(value2)?;
    ctx.push_value(value1)?;
    ctx.push_value(value2)
}

} // verus!
