use chip8::stack::{Stack, StackError, STACK_SIZE};

#[test]
fn new_stack_is_empty() {
    let stack = Stack::new();
    assert_eq!(stack.len(), 0);
}

#[test]
fn pop_of_empty_stack_underflows() {
    let mut stack = Stack::new();
    assert_eq!(stack.pop(), Err(StackError::StackUnderflow));
    assert_eq!(stack.len(), 0);
}

#[test]
fn push_then_pop_round_trips() {
    let mut stack = Stack::new();
    assert_eq!(stack.push(0x0ABC), Ok(()));
    assert_eq!(stack.len(), 1);
    assert_eq!(stack.pop(), Ok(0x0ABC));
    assert_eq!(stack.len(), 0);
}

#[test]
fn seventeenth_push_overflows() {
    let mut stack = Stack::new();
    for value in 0..16u16 {
        assert_eq!(stack.push(value), Ok(()));
    }
    assert_eq!(stack.len(), STACK_SIZE);
    assert_eq!(stack.push(16), Err(StackError::StackOverflow));
    assert_eq!(stack.len(), STACK_SIZE);
    assert_eq!(stack.pop(), Ok(15));
}

#[test]
fn sixteen_pops_reverse_sixteen_pushes() {
    let mut stack = Stack::new();
    for value in 0..16u16 {
        assert_eq!(stack.push(0x200 + 3 * value), Ok(()));
    }
    for value in (0..16u16).rev() {
        assert_eq!(stack.pop(), Ok(0x200 + 3 * value));
    }
    assert_eq!(stack.pop(), Err(StackError::StackUnderflow));
}

#[test]
fn stack_is_usable_after_failures() {
    let mut stack = Stack::new();
    assert_eq!(stack.pop(), Err(StackError::StackUnderflow));
    assert_eq!(stack.push(7), Ok(()));
    assert_eq!(stack.push(9), Ok(()));
    assert_eq!(stack.pop(), Ok(9));
    assert_eq!(stack.push(11), Ok(()));
    assert_eq!(stack.pop(), Ok(11));
    assert_eq!(stack.pop(), Ok(7));
    assert_eq!(stack.pop(), Err(StackError::StackUnderflow));
}
