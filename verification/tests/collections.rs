//! The bounded containers

use embedded_eventloop::collections::RingBuf;
use embedded_eventloop::collections::Stack;

#[test]
fn stack_push_order() {
    let mut stack: Stack<u8> = Stack::new(3);
    assert_eq!(stack.push(1), Ok(()));
    assert_eq!(stack.push(2), Ok(()));
    assert_eq!(stack.push(3), Ok(()));

    // The fourth push on a capacity-3 stack fails and returns the element
    assert_eq!(stack.push(4), Err(4));

    // Iteration yields push order
    assert_eq!(stack.len(), 3);
    assert_eq!(*stack.get(0), 1);
    assert_eq!(*stack.get(1), 2);
    assert_eq!(*stack.get(2), 3);
}

#[test]
fn stack_zero_capacity() {
    let mut stack: Stack<u8> = Stack::new(0);
    assert_eq!(stack.push(1), Err(1));
    assert_eq!(stack.len(), 0);
}

#[test]
fn stack_duplicate() {
    let mut stack: Stack<u8> = Stack::new(2);
    stack.push(5).unwrap();
    stack.push(6).unwrap();
    let copy = stack.duplicate();
    assert_eq!(copy.len(), 2);
    assert_eq!(*copy.get(0), 5);
    assert_eq!(*copy.get(1), 6);
}

#[test]
fn ringbuf_capacity() {
    let mut queue: RingBuf<u8> = RingBuf::new(2);
    assert_eq!(queue.push(1), Ok(()));
    assert_eq!(queue.push(2), Ok(()));

    // The third push on a capacity-2 queue fails and returns the element
    assert_eq!(queue.push(3), Err(3));

    // One pop permits exactly one more push
    assert_eq!(queue.pop(), Some(1));
    assert_eq!(queue.push(3), Ok(()));
    assert_eq!(queue.push(4), Err(4));
}

#[test]
fn ringbuf_fifo() {
    let mut queue: RingBuf<u8> = RingBuf::new(3);
    queue.push(1).unwrap();
    queue.push(2).unwrap();
    assert_eq!(queue.pop(), Some(1));
    queue.push(3).unwrap();
    queue.push(4).unwrap();

    // Strict first-in-first-out order, across the cursor wrap
    assert_eq!(queue.pop(), Some(2));
    assert_eq!(queue.pop(), Some(3));
    assert_eq!(queue.pop(), Some(4));
    assert_eq!(queue.pop(), None);
}

#[test]
fn ringbuf_zero_capacity() {
    let mut queue: RingBuf<u8> = RingBuf::new(0);
    assert_eq!(queue.push(1), Err(1));
    assert_eq!(queue.pop(), None);
}
