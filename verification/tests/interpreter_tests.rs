use vm::interpreter::VectorInterpreter;
use vm::VmError;

fn stack_of(values: &[u64]) -> VectorInterpreter {
    let mut interp = VectorInterpreter::new();
    for v in values {
        interp.push_evaluation(*v).unwrap();
    }
    interp
}

#[test]
fn new_and_default_are_empty() {
    let a = VectorInterpreter::new();
    let b = VectorInterpreter::default();
    assert!(a.evaluation_stack.is_empty());
    assert_eq!(a.max_depth, 1024);
    assert_eq!(a.total_ops_processed, 0);
    assert!(b.evaluation_stack.is_empty());
    assert_eq!(b.max_depth, 1024);
    assert_eq!(b.total_ops_processed, 0);
}

#[test]
fn push_then_pop_restores() {
    let mut interp = stack_of(&[1, 2]);
    assert_eq!(interp.push_evaluation(99), Ok(()));
    assert_eq!(interp.total_ops_processed, 3);
    assert_eq!(interp.peek_evaluation(0), Ok(99));
    assert_eq!(interp.pop_evaluation(), Ok(99));
    assert_eq!(interp.evaluation_stack, vec![1, 2]);
}

#[test]
fn push_overflow_at_depth_limit() {
    let mut interp = VectorInterpreter::new();
    interp.max_depth = 2;
    assert_eq!(interp.push_evaluation(1), Ok(()));
    assert_eq!(interp.push_evaluation(2), Ok(()));
    assert_eq!(interp.push_evaluation(3), Err(VmError::StackOverflow { depth: 2 }));
    assert_eq!(interp.evaluation_stack, vec![1, 2]);
    assert_eq!(interp.total_ops_processed, 2);
}

#[test]
fn push_counter_wraps() {
    let mut interp = VectorInterpreter::new();
    interp.total_ops_processed = u64::MAX;
    assert_eq!(interp.push_evaluation(5), Ok(()));
    assert_eq!(interp.total_ops_processed, 0);
}

#[test]
fn pop_empty_underflows() {
    let mut interp = VectorInterpreter::new();
    assert_eq!(interp.pop_evaluation(), Err(VmError::StackUnderflow));
}

#[test]
fn peek_offsets() {
    let interp = stack_of(&[10, 20, 30]);
    assert_eq!(interp.peek_evaluation(0), Ok(30));
    assert_eq!(interp.peek_evaluation(2), Ok(10));
    assert_eq!(interp.peek_evaluation(3), Err(VmError::StackUnderflow));
}

#[test]
fn swap_with_depth() {
    let mut interp = stack_of(&[10, 20, 30]);
    assert_eq!(interp.swap_elements(2), Ok(()));
    assert_eq!(interp.evaluation_stack, vec![30, 20, 10]);
    assert_eq!(interp.swap_elements(2), Ok(()));
    assert_eq!(interp.evaluation_stack, vec![10, 20, 30]);
}

#[test]
fn swap_errors() {
    let mut interp = stack_of(&[10, 20]);
    assert_eq!(interp.swap_elements(0), Err(VmError::StackUnderflow));
    assert_eq!(interp.swap_elements(2), Err(VmError::StackUnderflow));
    assert_eq!(interp.evaluation_stack, vec![10, 20]);
}

#[test]
fn duplicate_copies_value() {
    let mut interp = stack_of(&[7, 8]);
    assert_eq!(interp.duplicate_element(1), Ok(()));
    assert_eq!(interp.evaluation_stack, vec![7, 8, 7]);
    assert_eq!(interp.duplicate_element(3), Err(VmError::StackUnderflow));
}

#[test]
fn duplicate_on_full_stack_overflows() {
    let mut interp = stack_of(&[7]);
    interp.max_depth = 1;
    assert_eq!(interp.duplicate_element(0), Err(VmError::StackOverflow { depth: 1 }));
    assert_eq!(interp.evaluation_stack, vec![7]);
}

#[test]
fn bitwise_operations() {
    let cases: [(u8, u64, u64, u64); 7] = [
        (1, 0b1100, 0b1010, 0b1000),
        (2, 0b1100, 0b1010, 0b1110),
        (3, 0b1100, 0b1010, 0b0110),
        (4, 1, 4, 16),
        (4, 1, 68, 16),
        (5, 256, 4, 16),
        (5, 256, 72, 1),
    ];
    for (op, a, b, expected) in cases {
        let mut interp = stack_of(&[a, b]);
        assert_eq!(interp.process_bitwise_op(op), Ok(()));
        assert_eq!(interp.evaluation_stack, vec![expected]);
    }
}

#[test]
fn bitwise_invalid_selector_keeps_pops() {
    let mut interp = stack_of(&[5, 1, 2]);
    assert_eq!(interp.process_bitwise_op(9), Err(VmError::InvalidOpcode { opcode: 9 }));
    assert_eq!(interp.evaluation_stack, vec![5]);
}

#[test]
fn bitwise_underflow_after_one_pop() {
    let mut interp = stack_of(&[5]);
    assert_eq!(interp.process_bitwise_op(1), Err(VmError::StackUnderflow));
    assert!(interp.evaluation_stack.is_empty());
}

#[test]
fn comparisons() {
    let cases: [(u8, u64, u64, bool); 8] = [
        (1, 3, 3, true),
        (2, 3, 3, false),
        (3, 2, 3, true),
        (4, 3, 3, true),
        (5, 3, 2, true),
        (6, 2, 3, false),
        (3, 3, 2, false),
        (5, 2, 3, false),
    ];
    for (op, a, b, expected) in cases {
        let mut interp = stack_of(&[a, b]);
        assert_eq!(interp.process_logical_comparison(op), Ok(expected));
        assert!(interp.evaluation_stack.is_empty());
    }
}

#[test]
fn comparison_invalid_selector() {
    let mut interp = stack_of(&[1, 2]);
    assert_eq!(interp.process_logical_comparison(0), Err(VmError::InvalidOpcode { opcode: 0 }));
    assert!(interp.evaluation_stack.is_empty());
}

#[test]
fn batch_load_all_or_nothing() {
    let mut interp = stack_of(&[1]);
    interp.max_depth = 4;
    assert_eq!(interp.load_register_batch(&[2, 3]), Ok(()));
    assert_eq!(interp.evaluation_stack, vec![1, 2, 3]);
    assert_eq!(interp.total_ops_processed, 3);
    assert_eq!(interp.load_register_batch(&[4, 5]), Err(VmError::StackOverflow { depth: 4 }));
    assert_eq!(interp.evaluation_stack, vec![1, 2, 3]);
    assert_eq!(interp.load_register_batch(&[]), Ok(()));
    assert_eq!(interp.load_register_batch(&[4]), Ok(()));
    assert_eq!(interp.evaluation_stack, vec![1, 2, 3, 4]);
}

#[test]
fn zeroize_empties_stack() {
    let mut interp = stack_of(&[1, 2, 3]);
    interp.zeroize_stack();
    assert!(interp.evaluation_stack.is_empty());
    assert_eq!(interp.max_depth, 1024);
    assert_eq!(interp.total_ops_processed, 3);
}

#[test]
fn batch_load_equals_pushes_in_order() {
    let mut batched = stack_of(&[9]);
    let mut pushed = stack_of(&[9]);
    batched.total_ops_processed = u64::MAX - 1;
    pushed.total_ops_processed = u64::MAX - 1;
    assert_eq!(batched.load_register_batch(&[4, 5, 6]), Ok(()));
    for v in [4u64, 5, 6] {
        assert_eq!(pushed.push_evaluation(v), Ok(()));
    }
    assert_eq!(batched.evaluation_stack, pushed.evaluation_stack);
    assert_eq!(batched.total_ops_processed, pushed.total_ops_processed);
    assert_eq!(batched.total_ops_processed, 1);
}

#[test]
fn added_weight_sits_beside_defaults() {
    let mut meter = vm::gas::GasMeterEngine::new(100);
    meter.mutate_opcode_tier(0x77, vm::gas::GasTier::High);
    assert_eq!(meter.consume_resource(0x77), Ok(()));
    assert_eq!(meter.spent, 20);
    assert_eq!(meter.consume_resource(0x10), Ok(()));
    assert_eq!(meter.spent, 23);
}
