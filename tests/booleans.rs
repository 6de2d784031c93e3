use borth::context::BorthContext;
use borth::errors::BorthError;
use borth::expression::booleans::{and, eq, gt, lt, not, or};
use borth::stack::BorthItem;

fn create_context() -> BorthContext {
    BorthContext::with_stack_size(10)
}

fn push_to_stack(ctx: &mut BorthContext, items: &[BorthItem]) {
    for item in items {
        let _ = ctx.push_value(*item);
    }
}

#[test]
fn test1_and_none() {
    let mut ctx = create_context();
    push_to_stack(&mut ctx, &[0, 0]);
    assert_eq!(and::call(&mut ctx), Ok(()));
    assert!(ctx.test(&[0], ""));
}

#[test]
fn test2_and_one() {
    let mut ctx = create_context();
    push_to_stack(&mut ctx, &[-1, 0]);
    assert_eq!(and::call(&mut ctx), Ok(()));
    assert!(ctx.test(&[0], ""));
}

#[test]
fn test3_and_both() {
    let mut ctx = create_context();
    push_to_stack(&mut ctx, &[-1, -1]);
    assert_eq!(and::call(&mut ctx), Ok(()));
    assert!(ctx.test(&[-1], ""));
}

#[test]
fn and_test4_stack_underflow() {
    let mut ctx = create_context();
    assert_eq!(and::call(&mut ctx), Err(BorthError::StackUnderflow));
}

#[test]
fn and_test5_stack_underflow() {
    let mut ctx = create_context();
    push_to_stack(&mut ctx, &[-1]);
    assert_eq!(and::call(&mut ctx), Err(BorthError::StackUnderflow));
}

#[test]
fn test1_less_true() {
    let mut ctx = create_context();
    push_to_stack(&mut ctx, &[1, 2]);
    assert_eq!(lt::call(&mut ctx), Ok(()));
    assert!(ctx.test(&[-1], ""));
}

#[test]
fn test2_less_false() {
    let mut ctx = create_context();
    push_to_stack(&mut ctx, &[2, 1]);
    assert_eq!(lt::call(&mut ctx), Ok(()));
    assert!(ctx.test(&[0], ""));
}

#[test]
fn test2_less_equals() {
    let mut ctx = create_context();
    push_to_stack(&mut ctx, &[2, 2]);
    assert_eq!(lt::call(&mut ctx), Ok(()));
    assert!(ctx.test(&[0], ""));
}

#[test]
fn lt_test4_stack_underflow() {
    let mut ctx = create_context();
    assert_eq!(lt::call(&mut ctx), Err(BorthError::StackUnderflow));
}

#[test]
fn lt_test5_stack_underflow() {
    let mut ctx = create_context();
    push_to_stack(&mut ctx, &[-1]);
    assert_eq!(lt::call(&mut ctx), Err(BorthError::StackUnderflow));
}

#[test]
fn test1_not_true() {
    let mut ctx = create_context();
    push_to_stack(&mut ctx, &[-1]);
    assert_eq!(not::call(&mut ctx), Ok(()));
    assert!(ctx.test(&[0], ""));
}

#[test]
fn test2_not_false() {
    let mut ctx = create_context();
    push_to_stack(&mut ctx, &[0]);
    assert_eq!(not::call(&mut ctx), Ok(()));
    assert!(ctx.test(&[-1], ""));
}

#[test]
fn test3_not_not() {
    let mut ctx = create_context();
    push_to_stack(&mut ctx, &[10]);
    assert_eq!(not::call(&mut ctx), Ok(()));
    assert_eq!(not::call(&mut ctx), Ok(()));
    assert!(ctx.test(&[-1], ""));
}

#[test]
fn not_test4_stack_underflow_empty() {
    let mut ctx = create_context();
    assert_eq!(not::call(&mut ctx), Err(BorthError::StackUnderflow));
}

#[test]
fn eq_gt_or_results() {
    let mut ctx = create_context();
    push_to_stack(&mut ctx, &[3, 3]);
    assert_eq!(eq::call(&mut ctx), Ok(()));
    assert!(ctx.test(&[-1], ""));
    push_to_stack(&mut ctx, &[2]);
    assert_eq!(gt::call(&mut ctx), Ok(()));
    assert!(ctx.test(&[0], ""));
    push_to_stack(&mut ctx, &[5]);
    assert_eq!(or::call(&mut ctx), Ok(()));
    assert!(ctx.test(&[5], ""));
}

#[test]
fn and_or_are_bitwise() {
    let mut ctx = create_context();
    push_to_stack(&mut ctx, &[12, 10]);
    assert_eq!(and::call(&mut ctx), Ok(()));
    assert!(ctx.test(&[8], ""));
    push_to_stack(&mut ctx, &[3]);
    assert_eq!(or::call(&mut ctx), Ok(()));
    assert!(ctx.test(&[11], ""));
}
