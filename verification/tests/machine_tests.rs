use vm::{ExecutionStatus, VirtualMachineIsolate, VmError};

fn push(code: &mut Vec<u8>, v: u64) {
    code.push(0x20);
    code.extend_from_slice(&v.to_be_bytes());
}

fn program(values: &[u64], ops: &[u8]) -> Vec<u8> {
    let mut code = Vec::new();
    for v in values {
        push(&mut code, *v);
    }
    code.extend_from_slice(ops);
    code
}

#[test]
fn new_machine_state() {
    let vm = VirtualMachineIsolate::new(500, 1);
    assert!(vm.active);
    assert_eq!(vm.max_call_depth, 512);
    assert!(vm.call_stack.is_empty());
    assert_eq!(vm.gas_meter.max_limit, 500);
    assert_eq!(vm.gas_meter.spent, 0);
    assert_eq!(vm.memory.current_pages, 1);
    assert!(vm.interpreter.evaluation_stack.is_empty());
}

#[test]
fn empty_program_finishes() {
    let mut vm = VirtualMachineIsolate::new(0, 0);
    assert_eq!(vm.execute_program(&[]), Ok(ExecutionStatus::Finished));
}

#[test]
fn add_and_gas_charged() {
    let mut vm = VirtualMachineIsolate::new(1000, 0);
    let code = program(&[40, 2], &[0x10]);
    assert_eq!(vm.execute_program(&code), Ok(ExecutionStatus::Finished));
    assert_eq!(vm.interpreter.evaluation_stack, vec![42]);
    assert_eq!(vm.gas_meter.spent, 3 + 3 + 3);
}

#[test]
fn arithmetic_wraps() {
    let mut vm = VirtualMachineIsolate::new(1000, 0);
    let code = program(&[u64::MAX, 2], &[0x10]);
    assert_eq!(vm.execute_program(&code), Ok(ExecutionStatus::Finished));
    assert_eq!(vm.interpreter.evaluation_stack, vec![1]);

    let mut vm = VirtualMachineIsolate::new(1000, 0);
    let code = program(&[3, 5], &[0x11]);
    assert_eq!(vm.execute_program(&code), Ok(ExecutionStatus::Finished));
    assert_eq!(vm.interpreter.evaluation_stack, vec![u64::MAX - 1]);

    let mut vm = VirtualMachineIsolate::new(1000, 0);
    let code = program(&[1u64 << 63, 6], &[0x12]);
    assert_eq!(vm.execute_program(&code), Ok(ExecutionStatus::Finished));
    assert_eq!(vm.interpreter.evaluation_stack, vec![0]);
    assert_eq!(vm.gas_meter.spent, 3 + 3 + 5);
}

#[test]
fn division_and_division_by_zero() {
    let mut vm = VirtualMachineIsolate::new(1000, 0);
    let code = program(&[17, 5], &[0x13]);
    assert_eq!(vm.execute_program(&code), Ok(ExecutionStatus::Finished));
    assert_eq!(vm.interpreter.evaluation_stack, vec![3]);
    assert_eq!(vm.gas_meter.spent, 3 + 3 + 8);

    let mut vm = VirtualMachineIsolate::new(1000, 0);
    let code = program(&[17, 0], &[0x13]);
    assert_eq!(vm.execute_program(&code), Err(VmError::DivisionByZero));
    assert_eq!(vm.interpreter.evaluation_stack, vec![17]);
}

#[test]
fn push_reads_big_endian_immediate() {
    let mut vm = VirtualMachineIsolate::new(1000, 0);
    let code = [0x20, 1, 2, 3, 4, 5, 6, 7, 8];
    assert_eq!(vm.execute_program(&code), Ok(ExecutionStatus::Finished));
    assert_eq!(vm.interpreter.evaluation_stack, vec![0x0102030405060708]);
}

#[test]
fn truncated_push_is_violation() {
    let mut vm = VirtualMachineIsolate::new(1000, 0);
    let code = [0x20, 1, 2, 3, 4, 5, 6, 7];
    assert_eq!(vm.execute_program(&code), Err(VmError::MemoryAccessViolation { address: 0 }));
    assert_eq!(vm.gas_meter.spent, 3);
}

#[test]
fn store_then_load_round_trips() {
    let mut vm = VirtualMachineIsolate::new(1000, 1);
    let mut code = Vec::new();
    push(&mut code, 0xDEAD_BEEF_0123_4567);
    push(&mut code, 16);
    code.push(0x31);
    push(&mut code, 16);
    code.push(0x30);
    assert_eq!(vm.execute_program(&code), Ok(ExecutionStatus::Finished));
    assert_eq!(vm.interpreter.evaluation_stack, vec![0xDEAD_BEEF_0123_4567]);
    assert_eq!(&vm.memory.raw_buffer[16..24], &[0xDE, 0xAD, 0xBE, 0xEF, 0x01, 0x23, 0x45, 0x67]);
    assert_eq!(vm.gas_meter.spent, 3 + 3 + 20 + 3 + 20);
}

#[test]
fn load_out_of_bounds_is_violation() {
    let mut vm = VirtualMachineIsolate::new(1000, 1);
    let code = program(&[65_530], &[0x30]);
    assert_eq!(vm.execute_program(&code), Err(VmError::MemoryAccessViolation { address: 65_530 }));
    assert!(vm.interpreter.evaluation_stack.is_empty());
}

#[test]
fn store_out_of_bounds_changes_nothing() {
    let mut vm = VirtualMachineIsolate::new(1000, 0);
    let code = program(&[7, 0], &[0x31]);
    assert_eq!(vm.execute_program(&code), Err(VmError::MemoryAccessViolation { address: 0 }));
    assert_eq!(vm.memory.active_byte_capacity(), 0);
    assert!(vm.interpreter.evaluation_stack.is_empty());
}

#[test]
fn halt_stops_execution() {
    let mut vm = VirtualMachineIsolate::new(1000, 0);
    let code = program(&[1], &[0x00, 0x0F]);
    assert_eq!(vm.execute_program(&code), Ok(ExecutionStatus::Finished));
    assert!(!vm.active);
    assert_eq!(vm.gas_meter.spent, 3 + 1);
    assert_eq!(vm.execute_program(&code), Ok(ExecutionStatus::Finished));
    assert_eq!(vm.gas_meter.spent, 4);
}

#[test]
fn trap_aborts() {
    let mut vm = VirtualMachineIsolate::new(1000, 0);
    assert_eq!(vm.execute_program(&[0x0F]), Err(VmError::ExecutionTrap));
    assert_eq!(vm.gas_meter.spent, 1);
}

#[test]
fn invalid_opcode_charged_mid() {
    let mut vm = VirtualMachineIsolate::new(1000, 0);
    assert_eq!(vm.execute_program(&[0x99]), Err(VmError::InvalidOpcode { opcode: 0x99 }));
    assert_eq!(vm.gas_meter.spent, 8);
}

#[test]
fn underflow_on_empty_stack() {
    let mut vm = VirtualMachineIsolate::new(1000, 0);
    assert_eq!(vm.execute_program(&[0x10]), Err(VmError::StackUnderflow));
}

#[test]
fn out_of_gas_stops_before_instruction() {
    let mut vm = VirtualMachineIsolate::new(5, 0);
    let code = program(&[1, 2], &[0x10]);
    assert_eq!(vm.execute_program(&code), Err(VmError::OutOfGas { budget: 2, required: 3 }));
    assert_eq!(vm.interpreter.evaluation_stack, vec![1]);
    assert_eq!(vm.gas_meter.spent, 3);
}

#[test]
fn call_then_return() {
    let mut vm = VirtualMachineIsolate::new(1000, 0);
    // 0: PUSH 12; 9: CALL; 10: HALT; 11: TRAP (never reached); 12: RET
    let mut code = Vec::new();
    push(&mut code, 12);
    code.push(0x40);
    code.push(0x00);
    code.push(0x0F);
    code.push(0x41);
    assert_eq!(vm.execute_program(&code), Ok(ExecutionStatus::Finished));
    assert!(!vm.active);
    assert!(vm.call_stack.is_empty());
    // PUSH 3, CALL 8, RET 8, HALT 1
    assert_eq!(vm.gas_meter.spent, 3 + 8 + 8 + 1);
}

#[test]
fn call_records_frame() {
    let mut vm = VirtualMachineIsolate::new(1000, 0);
    let code = program(&[100], &[0x40]);
    assert_eq!(vm.execute_program(&code), Ok(ExecutionStatus::Finished));
    assert_eq!(vm.call_stack.len(), 1);
    assert_eq!(vm.call_stack[0].return_address, 10);
    assert_eq!(vm.call_stack[0].registers, vec![0u64; 16]);
    assert_eq!(vm.call_stack[0].memory_base, 0);
}

#[test]
fn call_depth_limit() {
    let mut vm = VirtualMachineIsolate::new(1000, 0);
    vm.max_call_depth = 0;
    let code = program(&[5], &[0x40]);
    assert_eq!(vm.execute_program(&code), Err(VmError::CallStackOverflow));
    assert_eq!(vm.interpreter.evaluation_stack, vec![5]);
}

#[test]
fn return_without_call_underflows() {
    let mut vm = VirtualMachineIsolate::new(1000, 0);
    assert_eq!(vm.execute_program(&[0x41]), Err(VmError::CallStackUnderflow));
}

#[test]
fn syscall_is_handed_out_and_resumes() {
    let mut vm = VirtualMachineIsolate::new(1000, 0);
    let code = program(&[0x1_0000_0007], &[0x50, 0x10]);
    assert_eq!(
        vm.execute_program(&code),
        Ok(ExecutionStatus::SyscallPending { call_code: 7, resume_at: 10 })
    );
    assert!(vm.interpreter.evaluation_stack.is_empty());
    assert_eq!(vm.gas_meter.spent, 3 + 150);
    vm.interpreter.push_evaluation(4).unwrap();
    vm.interpreter.push_evaluation(5).unwrap();
    assert_eq!(vm.resume_program(&code, 10), Ok(ExecutionStatus::Finished));
    assert_eq!(vm.interpreter.evaluation_stack, vec![9]);
}

#[test]
fn endless_loop_ends_out_of_gas() {
    let mut vm = VirtualMachineIsolate::new(100, 0);
    vm.max_call_depth = 1_000_000;
    // PUSH 0; CALL -> jumps back to 0 forever
    let code = program(&[0], &[0x40]);
    let r = vm.execute_program(&code);
    assert!(matches!(r, Err(VmError::OutOfGas { .. })));
    assert!(vm.gas_meter.spent <= 100);
}
