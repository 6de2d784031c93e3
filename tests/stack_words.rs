use borth::context::BorthContext;
use borth::errors::BorthError;
use borth::expression::stack::{drop, dup, over, rot, swap};
use borth::stack::BorthItem;

fn create_context() -> BorthContext {
    BorthContext::with_stack_size(10)
}

fn push_to_stack(ctx: &mut BorthContext, items: &[BorthItem]) {
    for item in items {
        let _ = ctx.push_value(*item);
    }
}

#[test]
fn test1_rot() {
    let mut ctx = create_context();
    push_to_stack(&mut ctx, &[1, 2, 3]);
    assert_eq!(rot::call(&mut ctx), Ok(()));
    assert!(ctx.test(&[2, 3, 1], ""));
}

#[test]
fn test2_rot() {
    let mut ctx = create_context();
    push_to_stack(&mut ctx, &[1, 2, 3]);
    assert_eq!(rot::call(&mut ctx), Ok(()));
    assert_eq!(rot::call(&mut ctx), Ok(()));
    assert_eq!(rot::call(&mut ctx), Ok(()));
    assert!(ctx.test(&[1, 2, 3], ""));
}

#[test]
fn rot_test3_stack_underflow() {
    let mut ctx = create_context();
    assert_eq!(rot::call(&mut ctx), Err(BorthError::StackUnderflow));
}

#[test]
fn rot_test4_stack_underflow() {
    let mut ctx = create_context();
    push_to_stack(&mut ctx, &[1]);
    assert_eq!(rot::call(&mut ctx), Err(BorthError::StackUnderflow));
}

#[test]
fn rot_test5_stack_underflow() {
    let mut ctx = create_context();
    push_to_stack(&mut ctx, &[1, 2]);
    assert_eq!(rot::call(&mut ctx), Err(BorthError::StackUnderflow));
}

#[test]
fn test1_drop() {
    let mut ctx = create_context();
    push_to_stack(&mut ctx, &[1]);
    assert_eq!(drop::call(&mut ctx), Ok(()));
    assert!(ctx.test(&[], ""));
}

#[test]
fn test2_drop() {
    let mut ctx = create_context();
    push_to_stack(&mut ctx, &[1, 2]);
    assert_eq!(drop::call(&mut ctx), Ok(()));
    assert!(ctx.test(&[1], ""));
}

#[test]
fn drop_test3_stack_underflow() {
    let mut ctx = create_context();
    assert_eq!(drop::call(&mut ctx), Err(BorthError::StackUnderflow));
}

#[test]
fn test1_dup() {
    let mut ctx = create_context();
    push_to_stack(&mut ctx, &[1]);
    assert_eq!(dup::call(&mut ctx), Ok(()));
    assert!(ctx.test(&[1, 1], ""));
}

#[test]
fn test2_dup() {
    let mut ctx = create_context();
    push_to_stack(&mut ctx, &[1, 2]);
    assert_eq!(dup::call(&mut ctx), Ok(()));
    assert!(ctx.test(&[1, 2, 2], ""));
}

#[test]
fn dup_test3_stack_underflow() {
    let mut ctx = create_context();
    assert_eq!(dup::call(&mut ctx), Err(BorthError::StackUnderflow));
}

#[test]
fn test1_swap() {
    let mut ctx = create_context();
    push_to_stack(&mut ctx, &[1, 2]);
    assert_eq!(swap::call(&mut ctx), Ok(()));
    assert!(ctx.test(&[2, 1], ""));
}

#[test]
fn test2_swap() {
    let mut ctx = create_context();
    push_to_stack(&mut ctx, &[1, 2, 3]);
    assert_eq!(swap::call(&mut ctx), Ok(()));
    assert_eq!(swap::call(&mut ctx), Ok(()));
    assert_eq!(swap::call(&mut ctx), Ok(()));
    assert!(ctx.test(&[1, 3, 2], ""));
}

#[test]
fn swap_test3_stack_underflow() {
    let mut ctx = create_context();
    assert_eq!(swap::call(&mut ctx), Err(BorthError::StackUnderflow));
}

#[test]
fn swap_test4_stack_underflow() {
    let mut ctx = create_context();
    push_to_stack(&mut ctx, &[1]);
    assert_eq!(swap::call(&mut ctx), Err(BorthError::StackUnderflow));
}

#[test]
fn over_copies_second_item() {
    let mut ctx = create_context();
    push_to_stack(&mut ctx, &[1, 2]);
    assert_eq!(over::call(&mut ctx), Ok(()));
    assert!(ctx.test(&[1, 2, 1], ""));
}

#[test]
fn dup_and_over_on_full_stack_overflow_unchanged() {
    let mut ctx = BorthContext::with_stack_size(4);
    push_to_stack(&mut ctx, &[1, 2]);
    assert_eq!(dup::call(&mut ctx), Err(BorthError::StackOverflow));
    assert!(ctx.test(&[1, 2], ""));
    assert_eq!(over::call(&mut ctx), Err(BorthError::StackOverflow));
    assert!(ctx.test(&[1, 2], ""));
}
