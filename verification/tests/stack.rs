use dvm::stack::Stack;

#[test]
fn i32_round_trip_preserves_value() {
    let mut stack = Stack::new(16);

    stack.push_i32(-123456).unwrap();

    assert_eq!(stack.peek_i32().unwrap(), -123456);
    assert_eq!(stack.pop_i32().unwrap(), -123456);
    assert_eq!(stack.len_bytes(), 0);
}

#[test]
fn byte_round_trip_preserves_order() {
    let mut stack = Stack::new(8);

    stack.push_bytes(&[1, 2, 3, 4]).unwrap();

    let mut peeked = [0; 3];
    stack.peek_bytes(&mut peeked).unwrap();
    assert_eq!(peeked, [2, 3, 4]);
    let mut bytes = [0; 4];
    stack.pop_bytes(&mut bytes).unwrap();
    assert_eq!(bytes, [1, 2, 3, 4]);
}

#[test]
fn push_u8_and_dump_bytes_share_the_same_stack_surface() {
    let mut stack = Stack::new(4);

    stack.push_u8(65).unwrap();
    stack.push_u8(66).unwrap();

    assert_eq!(stack.dump_bytes(), vec![65, 66]);
    assert_eq!(stack.pop_u8().unwrap(), 66);
    assert_eq!(stack.peek_u8().unwrap(), 65);
}

#[test]
fn rejects_push_that_exceeds_fixed_capacity() {
    let mut stack = Stack::new(4);

    assert!(stack.push_bytes(&[1, 2, 3, 4]).is_ok());
    let error = stack.push_u8(5).unwrap_err();

    assert!(error.contains("Stack overflow"));
}

#[test]
fn stack_errors_and_rotation() {
    let mut stack = Stack::new(16);
    assert_eq!(stack.pop_i32().unwrap_err(), "Stack underflow");
    for v in [1, 2, 3] {
        stack.push_i32(v).unwrap();
    }
    stack.rotate_left_once_last_n_i32(3).unwrap();
    assert_eq!(stack.get_i32(0).unwrap(), 2);
    assert_eq!(stack.get_i32(1).unwrap(), 3);
    assert_eq!(stack.get_i32(2).unwrap(), 1);
    // Rotating the same words twice more gives the stack back.
    stack.rotate_left_once_last_n_i32(3).unwrap();
    stack.rotate_left_once_last_n_i32(3).unwrap();
    assert_eq!(stack.dump_bytes(), vec![1, 0, 0, 0, 2, 0, 0, 0, 3, 0, 0, 0]);
    assert_eq!(stack.rotate_left_once_last_n_i32(1).unwrap_err(), "Swap requires n >= 2");
    assert_eq!(stack.rotate_left_once_last_n_i32(4).unwrap_err(), "Stack underflow");
    stack.push_u8(9).unwrap();
    assert_eq!(stack.len_i32s().unwrap_err(), "Stack is not aligned to i32 values");
}
