use crate::context::{BorthContext, ContextView};
use crate::errors::{BorthError, BorthResult};
use crate::text::push_char;
use vstd::prelude::*;

verus! {

/// Whether `code` is the code of a character: at most `0x10FFFF` and not a
/// surrogate.
pub open spec fn is_char_code(code: u32) -> bool {
    code <= 0x10FFFF && !(0xD800 <= code <= 0xDFFF)
}

/// Relies on char::from_u32: the character with that code, if it has one.
#[verifier::external_body]
fn char_from_code(code: u32) -> (r: Option<char>)
    ensures
        r == (if is_char_code(code) {
            Some(code as char)
        } else {
            None
        }),
{
    char::from_u32(code)
}

/// Pops the top item and prints the character with that code; a negative
/// item has none and gives `RuntimeError`.
pub open spec fn effect(c: ContextView) -> (ContextView, BorthResult<()>) {
    let items = c.stack.items;
    if items.len() == 0 {
        (c, Err(BorthError::StackUnderflow))
    } else if items.last() < 0 {
        (c.with_items(items.drop_last()), Err(BorthError::RuntimeError))
    } else {
        (c.with_items(items.drop_last()).print(seq![(items.last() as u32) as char]), Ok(()))
    }
}

/// Pops the top item and prints the character with that code.
pub fn call(ctx: &mut BorthContext) -> (r: BorthResult<()>)
    requires
        old(ctx).wf(),
    ensures
        final(ctx).wf(),
        (final(ctx)@, r) == effect(old(ctx)@),
{
    let item1 = ctx.pop_value()?;
    if item1 < 0 {
        return Err(BorthError::RuntimeError);
    }
    let ascii = match char_from_code(item1 as u32) {
        Some(c) => c,
        None => return Err(BorthError::RuntimeError),
    };
    let mut text = String::new();
    push_char(&mut text, ascii);
    ctx.print(text.as_str());
    Ok(())
}

} // verus!
