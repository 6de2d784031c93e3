use crate::context::{BorthContext, ContextView};
use crate::errors::BorthResult;
use crate::stack::BorthItem;
use vstd::prelude::*;

verus! {

/// Return -1 if the top value is falsy, otherwise returns 0.
pub open spec fn effect(c: ContextView) -> (ContextView, BorthResult<()>) {
    c.unary(|a: BorthItem| if a == 0 { -1i16 } else { 0i16 })
}

/// Return -1 if the top value is falsy, otherwise returns 0.
pub fn call(ctx: &mut BorthContext) -> (r: BorthResult<()>)
    requires
        old(ctx).wf(),
    ensures
        final(ctx).wf(),
        (final(ctx)@, r) == effect(old(ctx)@),
{
    let value1 = ctx.pop_value()?;
    ctx.push_value(if value1 == 0 { -1 } else { 0 })
}

} // verus!
