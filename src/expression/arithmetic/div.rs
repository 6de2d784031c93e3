use crate::context::{BorthContext, ContextView};
use crate::errors::{BorthError, BorthResult};
use crate::stack::BorthItem;
use vstd::prelude::*;

verus! {

/// `b / a` rounded toward zero.
pub open spec fn trunc_div(b: int, a: int) -> int {
    let q = (if b < 0 { -b } else { b }) / (if a < 0 { -a } else { a });
    if (b < 0) == (a < 0) {
        q
    } else {
        -q
    }
}

/// Quotient of items, rounded toward zero; `i16::MIN / -1` wraps to `i16::MIN`.
pub open spec fn quotient(b: BorthItem, a: BorthItem) -> BorthItem {
    if b == i16::MIN && a == -1 {
        i16::MIN
    } else {
        trunc_div(b as int, a as int) as BorthItem
    }
}

/// Divide the second top value on the stack by the top value.
/// Both are popped before a zero divisor is reported.
pub open spec fn effect(c: ContextView) -> (ContextView, BorthResult<()>) {
    let items = c.stack.items;
    let n = items.len();
    if n < 2 {
        c.binary(|b: BorthItem, a: BorthItem| b)
    } else if items[n - 1] == 0 {
        (c.with_items(items.drop_last().drop_last()), Err(BorthError::DivisionByZero))
    } else {
        c.binary(|b: BorthItem, a: BorthItem| quotient(b, a))
    }
}

/// `b / a` rounded toward zero, wrapping on overflow.
fn quotient_of(b: BorthItem, a: BorthItem) -> (r: BorthItem)
    requires
        a != 0,
    ensures
        r == quotient(b, a),
{
    let neg = (b < 0) != (a < 0);
    let top: u32 = if b < 0 { (0 - b as i32) as u32 } else { b as u32 };
    let bottom: u32 = if a < 0 { (0 - a as i32) as u32 } else { a as u32 };
    assert(top as int == (if b < 0 { -(b as int) } else { b as int }));
    assert(bottom as int == (if a < 0 { -(a as int) } else { a as int }));
    let q: u32 = top / bottom;
    assert(q <= top) by (nonlinear_arith)
        requires
            bottom >= 1,
            q == top / bottom,
    ;
    assert(q as int == trunc_div(b as int, a as int) || q as int == -trunc_div(b as int, a as int));
    assert(q <= 32768);
    if neg {
        assert(trunc_div(b as int, a as int) == -(q as int));
        assert(!(b == i16::MIN && a == -1));
        let r = (0 - q as i32) as i16;
        assert(r as int == -(q as int));
        r
    } else if q == 32768 {
        assert(top == 32768 && bottom == 1) by (nonlinear_arith)
            requires
                top <= 32768,
                bottom >= 1,
                q == top / bottom,
                q == 32768,
        ;
        i16::MIN
    } else {
        assert(trunc_div(b as int, a as int) == q as int);
        if b == i16::MIN && a == -1 {
            assert(top == 32768 && bottom == 1);
            assert(q == 32768) by (nonlinear_arith)
                requires
                    top == 32768,
                    bottom == 1,
                    q == top / bottom,
            ;
        }
        q as i16
    }
}

/// Divide the second top value on the stack by the top value.
pub fn call(ctx: &mut BorthContext) -> (r: BorthResult<()>)
    requires
        old(ctx).wf(),
    ensures
        final(ctx).wf(),
        (final(ctx)@, r) == effect(old(ctx)@),
{
    let value1 = ctx.pop_value()?;
    let value2 = ctx.pop_value()?;
    if value1 == 0 {
        return Err(BorthError::DivisionByZero);
    }
    let result = quotient_of(value2, value1);
    ctx.push_value(result)
}

} // verus!
