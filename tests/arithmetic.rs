use borth::context::BorthContext;
use borth::errors::BorthError;
use borth::expression::arithmetic::{add, div, mul, sub};
use borth::stack::BorthItem;

fn create_context() -> BorthContext {
    BorthContext::with_stack_size(10)
}

fn push_to_stack(ctx: &mut BorthContext, items: &[BorthItem]) {
    for item in items {
        let _ = ctx.push_value(*item);
    }
}

#[test]
fn test1_add() {
    let mut ctx = create_context();
    push_to_stack(&mut ctx, &[1, 2]);
    assert_eq!(add::call(&mut ctx), Ok(()));
    assert!(ctx.test(&[3], ""));
}

#[test]
fn test2_add_with_three_items() {
    let mut ctx = create_context();
    push_to_stack(&mut ctx, &[1, 2, 3]);
    assert_eq!(add::call(&mut ctx), Ok(()));
    assert!(ctx.test(&[1, 5], ""));
}

#[test]
fn add_test3_stack_underflow_empty() {
    let mut ctx = create_context();
    assert_eq!(add::call(&mut ctx), Err(BorthError::StackUnderflow));
}

#[test]
fn add_test4_stack_underflow_with_one_item() {
    let mut ctx = create_context();
    push_to_stack(&mut ctx, &[1]);
    assert_eq!(add::call(&mut ctx), Err(BorthError::StackUnderflow));
}

#[test]
fn test1_div() {
    let mut ctx = create_context();
    push_to_stack(&mut ctx, &[12, 3]);
    assert_eq!(div::call(&mut ctx), Ok(()));
    assert!(ctx.test(&[4], ""));
}

#[test]
fn test2_div() {
    let mut ctx = create_context();
    push_to_stack(&mut ctx, &[8, 3]);
    assert_eq!(div::call(&mut ctx), Ok(()));
    assert!(ctx.test(&[2], ""));
}

#[test]
fn test3_div_with_three() {
    let mut ctx = create_context();
    push_to_stack(&mut ctx, &[1, 12, 3]);
    assert_eq!(div::call(&mut ctx), Ok(()));
    assert!(ctx.test(&[1, 4], ""));
}

#[test]
fn div_test4_stack_underflow_empty() {
    let mut ctx = create_context();
    assert_eq!(div::call(&mut ctx), Err(BorthError::StackUnderflow));
}

#[test]
fn test5_stack_underflow_with_one_item() {
    let mut ctx = create_context();
    push_to_stack(&mut ctx, &[1]);
    assert_eq!(div::call(&mut ctx), Err(BorthError::StackUnderflow));
}

#[test]
fn test6_div_by_zero() {
    let mut ctx = create_context();
    push_to_stack(&mut ctx, &[8, 0]);
    assert_eq!(div::call(&mut ctx), Err(BorthError::DivisionByZero));
    assert!(ctx.test(&[], ""));
}

#[test]
fn test1_sub() {
    let mut ctx = create_context();
    push_to_stack(&mut ctx, &[3, 4]);
    assert_eq!(sub::call(&mut ctx), Ok(()));
    assert!(ctx.test(&[-1], ""));
}

#[test]
fn test2_sub_with_three_items() {
    let mut ctx = create_context();
    push_to_stack(&mut ctx, &[1, 12, 3]);
    assert_eq!(sub::call(&mut ctx), Ok(()));
    assert!(ctx.test(&[1, 9], ""));
}

#[test]
fn sub_test3_stack_underflow_empty() {
    let mut ctx = create_context();
    assert_eq!(sub::call(&mut ctx), Err(BorthError::StackUnderflow));
}

#[test]
fn sub_test4_stack_underflow_with_one_item() {
    let mut ctx = create_context();
    push_to_stack(&mut ctx, &[1]);
    assert_eq!(sub::call(&mut ctx), Err(BorthError::StackUnderflow));
}

#[test]
fn mul_of_two_items() {
    let mut ctx = create_context();
    push_to_stack(&mut ctx, &[1, 4, 5]);
    assert_eq!(mul::call(&mut ctx), Ok(()));
    assert!(ctx.test(&[1, 20], ""));
}

#[test]
fn arithmetic_wraps_on_overflow() {
    let mut ctx = create_context();
    push_to_stack(&mut ctx, &[32767, 1]);
    assert_eq!(add::call(&mut ctx), Ok(()));
    assert!(ctx.test(&[-32768], ""));
    push_to_stack(&mut ctx, &[1]);
    assert_eq!(sub::call(&mut ctx), Ok(()));
    assert!(ctx.test(&[32767], ""));
    push_to_stack(&mut ctx, &[2]);
    assert_eq!(mul::call(&mut ctx), Ok(()));
    assert!(ctx.test(&[-2], ""));
}

#[test]
fn div_rounds_toward_zero() {
    let mut ctx = create_context();
    push_to_stack(&mut ctx, &[-7, 2]);
    assert_eq!(div::call(&mut ctx), Ok(()));
    assert!(ctx.test(&[-3], ""));
    push_to_stack(&mut ctx, &[-1]);
    assert_eq!(div::call(&mut ctx), Ok(()));
    assert!(ctx.test(&[3], ""));
}

#[test]
fn div_of_smallest_item_by_minus_one_wraps() {
    let mut ctx = create_context();
    push_to_stack(&mut ctx, &[-32768, -1]);
    assert_eq!(div::call(&mut ctx), Ok(()));
    assert!(ctx.test(&[-32768], ""));
}

#[test]
fn binary_underflow_drops_the_lone_item() {
    let mut ctx = create_context();
    push_to_stack(&mut ctx, &[1]);
    assert_eq!(mul::call(&mut ctx), Err(BorthError::StackUnderflow));
    assert!(ctx.test(&[], ""));
}
