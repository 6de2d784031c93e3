use crate::context::{BorthContext, ContextView};
use crate::errors::{BorthError, BorthResult};
use crate::number::{decimal, decimal_string};
use vstd::prelude::*;

verus! {

/// Pops the top item and prints it in decimal.
pub open spec fn effect(c: ContextView) -> (ContextView, BorthResult<()>) {
    let items = c.stack.items;
    if items.len() == 0 {
        (c, Err(BorthError::StackUnderflow))
    } else {
        (c.with_items(items.drop_last()).print(decimal(items.last() as int)), Ok(()))
    }
}

/// Pops the top item and prints it in decimal.
pub fn call(ctx: &mut BorthContext) -> (r: BorthResult<()>)
    requires
        old(ctx).wf(),
    ensures
        final(ctx).wf(),
        (final(ctx)@, r) == effect(old(ctx)@),
{
    let item1 = ctx.pop_value()?;
    ctx.print(decimal_string(item1).as_str());
    Ok(())
}

} // verus!
