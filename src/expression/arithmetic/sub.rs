use crate::context::{BorthContext, ContextView};
use crate::errors::BorthResult;
use crate::stack::BorthItem;
use vstd::prelude::*;

verus! {

/// Subtract the top value on the stack from the second top value, wrapping on overflow.
pub open spec fn effect(c: ContextView) -> (ContextView, BorthResult<()>) {
    c.binary(|b: BorthItem, a: BorthItem| b.wrapping_sub(a))
}

/// Subtract the top value on the stack from the second top value, wrapping on overflow.
pub fn call(ctx: &mut BorthContext) -> (r: BorthResult<()>)
    requires
        old(ctx).wf(),
    ensures
        final(ctx).wf(),
        (final(ctx)@, r) == effect(old(ctx)@),
{
    let value1 = ctx.pop_value()?;
    let value2 = ctx.pop_value()?;
    ctx.push_value(value2.wrapping_sub(value1))
}

} // verus!
