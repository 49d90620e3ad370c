use chip8::fault::Fault;
use chip8::stack::{Stack, STACK_CAPACITY};

#[test]
fn push_pop_round_trip() {
    let mut stack = Stack::new();

    stack.push(0x202).unwrap();
    stack.push(0x30A).unwrap();

    assert_eq!(stack.pop().unwrap(), 0x30A);
    assert_eq!(stack.pop().unwrap(), 0x202);
    assert_eq!(stack.pop(), Err(Fault::StackUnderflow));
}

#[test]
fn overflow_is_a_fault() {
    let mut stack = Stack::new();

    for address in 0..STACK_CAPACITY {
        assert_eq!(stack.push(address as u16), Ok(()));
    }
    assert_eq!(stack.push(0xBEE), Err(Fault::StackOverflow));

    // The full stack still pops in reverse order.
    assert_eq!(stack.pop().unwrap(), (STACK_CAPACITY - 1) as u16);
}

#[test]
fn pointer_moves_alone() {
    let mut stack = Stack::new();

    assert_eq!(stack.sp_increment(), 1);
    assert_eq!(stack.sp_increment(), 2);
    assert_eq!(stack.sp_decrement(), 1);
    assert_eq!(stack.sp_decrement(), 0);
    // Retreating an empty stack's pointer leaves it at zero.
    assert_eq!(stack.sp_decrement(), 0);
}
