use crate::context::{BorthContext, ContextView};
use crate::errors::{BorthError, BorthResult};
use vstd::prelude::*;

verus! {

/// Removes the top item.
pub open spec fn effect(c: ContextView) -> (ContextView, BorthResult<()>) {
    let items = c.stack.items;
    if items.len() == 0 {
        (c, Err(BorthError::StackUnderflow))
    } else {
        (c.with_items(items.drop_last()), Ok(()))
    }
}

/// Removes the top item.
pub fn call(ctx: &mut BorthContext) -> (r: BorthResult<()>)
    requires
        old(ctx).wf(),
    ensures
        final(ctx).wf(),
        (final(ctx)@, r) == effect(old(ctx)@),
{
    ctx.pop_value()?;
    Ok(())
}

} // verus!
