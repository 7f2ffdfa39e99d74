//! A box

use embedded_eventloop::boxes::CopyBox;
use embedded_eventloop::boxes::StackBox;

/// The type tags the tests store values under; each stands for one concrete
/// type, as the embedder's type-registration step would assign them.
const TAG_PAIR: u64 = 1;
const TAG_FN: u64 = 2;
const TAG_RC: u64 = 3;
const TAG_U64: u64 = 4;
const TAG_I64: u64 = 5;

/// Squares a number
fn square(num: usize) -> usize {
    num * num
}

#[test]
fn box_simple() {
    // Box and unbox value
    let value: Vec<u8> = vec![17, 4];
    let boxed = StackBox::new(128, TAG_PAIR, value.clone()).expect("failed to box simple value");
    let unboxed = boxed.into_inner(TAG_PAIR).expect("failed to unbox simple value");

    // Compare values
    assert_eq!(value, unboxed, "invalid unboxed value");
}

#[test]
fn copybox_simple() {
    // Box and unbox value
    let value: Vec<u8> = vec![7];
    let boxed = CopyBox::new(128, TAG_FN, value.clone()).expect("failed to box simple value");
    let unboxed = boxed.inner(TAG_FN).expect("failed to unbox simple value");

    // Compare values
    assert_eq!(value, unboxed, "invalid unboxed value");
    assert_eq!(square(unboxed[0] as usize), 49, "invalid function result");
}

#[test]
fn box_drop() {
    // Box the value holding an owned resource
    let value: Vec<u8> = vec![7];
    let boxed =
        StackBox::new(128, TAG_RC, value.clone()).expect("failed to box reference counted value");

    // Destroying the unconsumed box hands the owned value back exactly once
    let (tag, released) = boxed.drop_impl();
    assert_eq!(tag, TAG_RC, "invalid reference count");
    assert_eq!(released, value, "invalid reference count");
}

#[test]
fn box_metadata() {
    let boxed = StackBox::new(16, TAG_U64, vec![1, 2]).unwrap();
    assert_eq!(boxed.inner_type_id(), TAG_U64);
    assert_eq!(boxed.size(), 16);
    let copy = CopyBox::new(16, TAG_U64, vec![1, 2]).unwrap();
    assert_eq!(copy.inner_type_id(), TAG_U64);
}

#[test]
fn box_constraints_size() {
    // Create a value that is too large
    let value: Vec<u8> = vec![7, 0, 0, 0, 0, 0, 0, 0];
    assert!(StackBox::new(7, TAG_U64, value).is_err(), "unexpected success when boxing too large value");
}

#[test]
fn copybox_constraints_size() {
    // Create a value that is too large
    let value: Vec<u8> = vec![7, 0, 0, 0, 0, 0, 0, 0];
    assert!(CopyBox::new(7, TAG_U64, value).is_none(), "unexpected success when boxing too large value");
}

#[test]
fn box_constraints_type() {
    // Box an u64
    let value: Vec<u8> = vec![7, 0, 0, 0, 0, 0, 0, 0];
    let boxed = StackBox::new(128, TAG_U64, value.clone()).expect("failed to box u64-typed value");

    // Try to unbox it as i64
    let rejected = boxed.into_inner(TAG_I64);
    assert!(rejected.is_err(), "unexpected success when unboxing u64-typed value as i64");

    // The box stays intact, so a retry under the right tag still succeeds
    let boxed = rejected.unwrap_err();
    assert_eq!(boxed.into_inner(TAG_U64).unwrap(), value);
}

#[test]
fn copybox_constraints_type() {
    // Box an u64
    let value: Vec<u8> = vec![7, 0, 0, 0, 0, 0, 0, 0];
    let boxed = CopyBox::new(128, TAG_U64, value.clone()).expect("failed to box u64-typed value");

    // Try to unbox it as i64, repeatedly: the box stays intact
    assert!(boxed.inner(TAG_I64).is_none(), "unexpected success when unboxing u64-typed value as i64");
    assert!(boxed.inner(TAG_I64).is_none(), "unexpected success when unboxing u64-typed value as i64");
    assert_eq!(boxed.inner(TAG_U64).unwrap(), value);
}
