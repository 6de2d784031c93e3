use borth::errors::BorthError;
use borth::stack::{BorthItem, BorthStack};

fn create_stack(capacity: usize) -> BorthStack {
    BorthStack::with_size(capacity * std::mem::size_of::<BorthItem>())
}

fn assert_pop_items(stack: &mut BorthStack, items: &[BorthItem]) {
    for item in items {
        if let Ok(value) = stack.pop() {
            assert_eq!(value, *item);
        } else {
            assert!(false)
        }
    }
    assert!(match stack.pop() {
        Err(BorthError::StackUnderflow) => true,
        _ => false,
    })
}

#[test]
fn test1_pop_when_empty() {
    let mut stack = create_stack(1);
    assert_pop_items(&mut stack, &[]);
}

#[test]
fn test2_push_item() {
    let mut stack = create_stack(1);
    assert!(stack.push(0).is_ok());
    assert_pop_items(&mut stack, &[0]);
}

#[test]
fn test3_push_many_items() {
    let mut stack = create_stack(3);
    assert!(stack.push(0).is_ok());
    assert!(stack.push(1).is_ok());
    assert!(stack.push(2).is_ok());
    assert_pop_items(&mut stack, &[2, 1, 0]);
}

#[test]
fn test4_push_when_full() {
    let mut stack = create_stack(1);
    assert!(stack.push(0).is_ok());
    assert!(match stack.push(0) {
        Err(BorthError::StackOverflow) => true,
        _ => false,
    })
}

#[test]
fn stack_lifo_round_trip() {
    let mut stack = create_stack(4);
    for x in [5, -3, 32767, -32768] {
        assert_eq!(stack.push(x), Ok(()));
    }
    assert_pop_items(&mut stack, &[-32768, 32767, -3, 5]);
}

#[test]
fn stack_full_push_leaves_items() {
    let mut stack = create_stack(2);
    assert_eq!(stack.push(1), Ok(()));
    assert_eq!(stack.push(2), Ok(()));
    assert_eq!(stack.push(3), Err(BorthError::StackOverflow));
    assert_eq!(stack.items(), &[1, 2]);
}

#[test]
fn stack_odd_byte_size_rounds_down() {
    let mut stack = BorthStack::with_size(5);
    assert_eq!(stack.push(1), Ok(()));
    assert_eq!(stack.push(2), Ok(()));
    assert_eq!(stack.push(3), Err(BorthError::StackOverflow));
}

#[test]
fn stack_of_zero_bytes_is_always_full() {
    let mut stack = BorthStack::with_size(0);
    assert_eq!(stack.push(1), Err(BorthError::StackOverflow));
    assert_eq!(stack.pop(), Err(BorthError::StackUnderflow));
}
