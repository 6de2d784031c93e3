use crate::context::{BorthContext, ContextView};
use crate::errors::BorthResult;
use vstd::prelude::*;

verus! {

/// Adds a line break to the output.
pub open spec fn effect(c: ContextView) -> (ContextView, BorthResult<()>) {
    (ContextView { stack: c.stack, output: c.output.push('\n') }, Ok(()))
}

/// Adds a line break to the output.
pub fn call(ctx: &mut BorthContext) -> (r: BorthResult<()>)
    requires
        old(ctx).wf(),
    ensures
        final(ctx).wf(),
        (final(ctx)@, r) == effect(old(ctx)@),
{
    ctx.print_char('\n');
    Ok(())
}

} // verus!
