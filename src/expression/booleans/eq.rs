use crate::context::{BorthContext, ContextView};
use crate::errors::BorthResult;
use crate::stack::BorthItem;
use vstd::prelude::*;

verus! {

/// Replaces the two items on top with true (-1) when they are equal, else false (0).
pub open spec fn effect(c: ContextView) -> (ContextView, BorthResult<()>) {
    c.binary(|b: BorthItem, a: BorthItem| if b == a { -1i16 } else { 0i16 })
}

/// Replaces the two items on top with true (-1) when they are equal, else false (0).
pub fn call(ctx: &mut BorthContext) -> (r: BorthResult<()>)
    requires
        old(ctx).wf(),
    ensures
        final(ctx).wf(),
        (final(ctx)@, r) == effect(old(ctx)@),
{
    let value1 = ctx.pop_value()?;
    let value2 = ctx.pop_value()?;
    ctx.push_value(if value2 == value1 { -1 } else { 0 })
}

} // verus!
