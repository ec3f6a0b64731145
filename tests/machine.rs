use nga::semantics::{
    Fault, Policy, Signal, IMAGE_SIZE, OP_ADD, OP_AND, OP_CALL, OP_CCALL, OP_DIVMOD, OP_DROP,
    OP_DUP, OP_EQ, OP_FETCH, OP_GT, OP_HALT, OP_IO_COUNT, OP_IO_INVOKE, OP_IO_QUERY, OP_JUMP,
    OP_LIT, OP_LT, OP_MUL, OP_NEQ, OP_NOP, OP_OR, OP_POP, OP_PUSH, OP_RETURN, OP_SHIFT, OP_STORE,
    OP_SUB, OP_SWAP, OP_XOR, OP_ZRET, STACK_DEPTH,
};
use nga::vm::{bundle_is_valid, opcode, NgaVm};

const FUEL: u64 = 100_000;

fn pack(ops: [u8; 4]) -> i32 {
    i32::from_le_bytes(ops)
}

fn one(op: u8) -> i32 {
    pack([op, OP_NOP, OP_NOP, OP_NOP])
}

fn machine(policy: Policy, cells: &[i32]) -> NgaVm {
    let mut vm = NgaVm::with_policy(policy);
    for (i, c) in cells.iter().enumerate() {
        vm.set_cell(i, *c);
    }
    vm
}

/// Run `op` on a stack holding `stack`, through a small image.
fn run_op(policy: Policy, stack: &[i32], op: u8) -> (NgaVm, Signal) {
    let mut vm = machine(policy, &[pack([op, OP_HALT, OP_NOP, OP_NOP])]);
    for v in stack {
        assert!(vm.push_data(*v));
    }
    let s = vm.execute(0, FUEL);
    (vm, s)
}

fn binary_result(stack: &[i32], op: u8) -> Vec<i32> {
    let (vm, s) = run_op(Policy::Strict, stack, op);
    assert_eq!(s, Signal::Finished);
    vm.data_stack().to_vec()
}

#[test]
fn halt_image_returns_at_once() {
    let mut vm = machine(Policy::Lenient, &[one(OP_HALT)]);
    let s = vm.execute(0, FUEL);
    assert_eq!(s, Signal::Finished);
    assert!(vm.data_stack().is_empty());
    assert_eq!(vm.return_stack(), &[0]);
}

#[test]
fn literal_image_leaves_42() {
    let mut vm = machine(Policy::Lenient, &[one(OP_LIT), 42, one(OP_HALT)]);
    let s = vm.execute(0, FUEL);
    assert_eq!(s, Signal::Finished);
    assert_eq!(vm.data_stack(), &[42]);
}

#[test]
fn device_count_and_output_capability() {
    let (vm, s) = run_op(Policy::Strict, &[], OP_IO_COUNT);
    assert_eq!(s, Signal::Finished);
    assert_eq!(vm.data_stack(), &[2]);
    assert_eq!(binary_result(&[0], OP_IO_QUERY), vec![0, 0]);
    assert_eq!(binary_result(&[1], OP_IO_QUERY), vec![0, 1]);
    let (_, s) = run_op(Policy::Strict, &[5], OP_IO_QUERY);
    assert_eq!(s, Signal::Fault(Fault::UnknownDevice));
}

#[test]
fn opcode_zero_is_a_nop() {
    let (vm, s) = run_op(Policy::Strict, &[3, 4], OP_NOP);
    assert_eq!(s, Signal::Finished);
    assert_eq!(vm.data_stack(), &[3, 4]);
}

#[test]
fn bundle_without_literal_takes_one_cell() {
    let mut vm = machine(Policy::Strict, &[pack([OP_LIT, OP_NOP, OP_NOP, OP_NOP]), 5, pack([OP_DUP, OP_ADD, OP_DUP, OP_SWAP])]);
    vm.execute(0, 4);
    assert_eq!(vm.ip(), 2);
    let s = vm.resume(4);
    assert_eq!(s, Signal::Running);
    assert_eq!(vm.ip(), 3);
    assert_eq!(vm.data_stack(), &[10, 10]);
}

#[test]
fn literal_in_any_slot_takes_two_cells() {
    for k in 0..4 {
        let mut ops = [OP_NOP; 4];
        ops[k] = OP_LIT;
        let mut vm = machine(Policy::Strict, &[pack(ops), 77]);
        let s = vm.execute(0, 4);
        assert_eq!(s, Signal::Running);
        assert_eq!(vm.ip(), 2);
        assert_eq!(vm.data_stack(), &[77]);
    }
}

#[test]
fn slots_after_a_literal_still_run() {
    let mut vm = machine(Policy::Strict, &[pack([OP_LIT, OP_DUP, OP_ADD, OP_NOP]), 21, one(OP_HALT)]);
    assert_eq!(vm.execute(0, FUEL), Signal::Finished);
    assert_eq!(vm.data_stack(), &[42]);
}

#[test]
fn opcode_extraction_is_low_byte_first() {
    let c = pack([1, 2, 3, 29]);
    assert_eq!(opcode(c, 0), 1);
    assert_eq!(opcode(c, 1), 2);
    assert_eq!(opcode(c, 2), 3);
    assert_eq!(opcode(c, 3), 29);
    assert!(bundle_is_valid(c));
    assert!(!bundle_is_valid(pack([0, 0, 30, 0])));
}

#[test]
fn arithmetic_wraps() {
    assert_eq!(binary_result(&[3, 4], OP_ADD), vec![7]);
    assert_eq!(binary_result(&[i32::MAX, 1], OP_ADD), vec![i32::MIN]);
    assert_eq!(binary_result(&[3, 10], OP_SUB), vec![-7]);
    assert_eq!(binary_result(&[i32::MIN, 1], OP_SUB), vec![i32::MAX]);
    assert_eq!(binary_result(&[6, 7], OP_MUL), vec![42]);
    assert_eq!(binary_result(&[0x10000, 0x10000], OP_MUL), vec![0]);
}

#[test]
fn divmod_truncates() {
    assert_eq!(binary_result(&[7, 2], OP_DIVMOD), vec![1, 3]);
    assert_eq!(binary_result(&[-7, 2], OP_DIVMOD), vec![-1, -3]);
    assert_eq!(binary_result(&[7, -2], OP_DIVMOD), vec![1, -3]);
    assert_eq!(binary_result(&[-7, -2], OP_DIVMOD), vec![-1, 3]);
    assert_eq!(binary_result(&[i32::MIN, -1], OP_DIVMOD), vec![0, i32::MIN]);
    for (b, a) in [(100, 7), (-100, 7), (100, -7), (-100, -7), (i32::MIN, 3)] {
        let r = binary_result(&[b, a], OP_DIVMOD);
        assert_eq!(r[1], b / a);
        assert_eq!(r[0], b % a);
        assert_eq!(a * r[1] + r[0], b);
    }
}

#[test]
fn divide_by_zero_faults() {
    let (vm, s) = run_op(Policy::Lenient, &[5, 0], OP_DIVMOD);
    assert_eq!(s, Signal::Fault(Fault::DivideByZero));
    assert_eq!(vm.data_stack(), &[5, 0]);
}

#[test]
fn comparisons_give_forth_flags() {
    assert_eq!(binary_result(&[3, 3], OP_EQ), vec![-1]);
    assert_eq!(binary_result(&[3, 4], OP_EQ), vec![0]);
    assert_eq!(binary_result(&[3, 4], OP_NEQ), vec![-1]);
    assert_eq!(binary_result(&[3, 4], OP_LT), vec![-1]);
    assert_eq!(binary_result(&[4, 3], OP_LT), vec![0]);
    assert_eq!(binary_result(&[4, 3], OP_GT), vec![-1]);
    assert_eq!(binary_result(&[i32::MIN, i32::MAX], OP_GT), vec![0]);
    assert_eq!(binary_result(&[i32::MIN, i32::MAX], OP_LT), vec![-1]);
}

#[test]
fn bitwise_ops() {
    assert_eq!(binary_result(&[0b1100, 0b1010], OP_AND), vec![0b1000]);
    assert_eq!(binary_result(&[0b1100, 0b1010], OP_OR), vec![0b1110]);
    assert_eq!(binary_result(&[0b1100, 0b1010], OP_XOR), vec![0b0110]);
}

#[test]
fn shift_by_sign_of_amount() {
    assert_eq!(binary_result(&[1, -3], OP_SHIFT), vec![8]);
    assert_eq!(binary_result(&[64, 2], OP_SHIFT), vec![16]);
    assert_eq!(binary_result(&[-16, 2], OP_SHIFT), vec![-4]);
    assert_eq!(binary_result(&[-16, 40], OP_SHIFT), vec![-1]);
    assert_eq!(binary_result(&[16, 40], OP_SHIFT), vec![0]);
    assert_eq!(binary_result(&[1, -40], OP_SHIFT), vec![0]);
    assert_eq!(binary_result(&[5, 0], OP_SHIFT), vec![5]);
}

#[test]
fn stack_shuffles() {
    assert_eq!(binary_result(&[1, 2], OP_SWAP), vec![2, 1]);
    assert_eq!(binary_result(&[1, 2], OP_DUP), vec![1, 2, 2]);
    assert_eq!(binary_result(&[1, 2], OP_DROP), vec![1]);
}

#[test]
fn push_and_pop_move_through_return_stack() {
    let mut vm = machine(Policy::Strict, &[pack([OP_PUSH, OP_NOP, OP_NOP, OP_NOP]), pack([OP_POP, OP_HALT, OP_NOP, OP_NOP])]);
    assert!(vm.push_data(9));
    assert_eq!(vm.execute(0, 4), Signal::Running);
    assert_eq!(vm.return_stack(), &[0, 9]);
    assert!(vm.data_stack().is_empty());
    assert_eq!(vm.resume(FUEL), Signal::Finished);
    assert_eq!(vm.data_stack(), &[9]);
    assert_eq!(vm.return_stack(), &[0]);
}

#[test]
fn fetch_answers_negative_addresses() {
    assert_eq!(binary_result(&[7, 8, -1], OP_FETCH), vec![7, 8, 2]);
    assert_eq!(binary_result(&[-2], OP_FETCH), vec![1]);
    assert_eq!(binary_result(&[-3], OP_FETCH), vec![IMAGE_SIZE as i32]);
    assert_eq!(binary_result(&[-4], OP_FETCH), vec![i32::MIN]);
    assert_eq!(binary_result(&[-5], OP_FETCH), vec![i32::MAX]);
    assert_eq!(binary_result(&[0], OP_FETCH), vec![pack([OP_FETCH, OP_HALT, 0, 0])]);
    let (_, s) = run_op(Policy::Strict, &[-6], OP_FETCH);
    assert_eq!(s, Signal::Fault(Fault::AddressOutOfRange));
    let (_, s) = run_op(Policy::Strict, &[IMAGE_SIZE as i32], OP_FETCH);
    assert_eq!(s, Signal::Fault(Fault::AddressOutOfRange));
}

#[test]
fn store_writes_and_checks_bounds() {
    let (vm, s) = run_op(Policy::Strict, &[55, 100], OP_STORE);
    assert_eq!(s, Signal::Finished);
    assert_eq!(vm.cell(100), 55);
    assert!(vm.data_stack().is_empty());
    let (vm, s) = run_op(Policy::Lenient, &[55, IMAGE_SIZE as i32], OP_STORE);
    assert_eq!(s, Signal::Fault(Fault::AddressOutOfRange));
    assert_eq!(vm.data_stack(), &[55, IMAGE_SIZE as i32]);
    let (_, s) = run_op(Policy::Lenient, &[55, -1], OP_STORE);
    assert_eq!(s, Signal::Fault(Fault::AddressOutOfRange));
}

#[test]
fn call_and_return() {
    // 0: lit 10 / 1: 10 / 2: call / 3: halt ... 10: lit 1 / 11: 1 / 12: return
    let mut cells = vec![0i32; 13];
    cells[0] = pack([OP_LIT, OP_CALL, OP_NOP, OP_NOP]);
    cells[1] = 10;
    cells[2] = one(OP_HALT);
    cells[10] = one(OP_LIT);
    cells[11] = 1;
    cells[12] = one(OP_RETURN);
    let mut vm = machine(Policy::Strict, &cells);
    assert_eq!(vm.execute(0, FUEL), Signal::Finished);
    assert_eq!(vm.data_stack(), &[1]);
    assert_eq!(vm.return_stack(), &[0]);
}

#[test]
fn conditional_call_needs_nonzero_flag() {
    let mut cells = vec![0i32; 12];
    cells[0] = pack([OP_LIT, OP_LIT, OP_CCALL, OP_NOP]);
    cells[1] = 0;
    cells[2] = 10;
    cells[3] = one(OP_HALT);
    cells[10] = pack([OP_LIT, OP_RETURN, OP_NOP, OP_NOP]);
    cells[11] = 5;
    let mut vm = machine(Policy::Strict, &cells);
    assert_eq!(vm.execute(0, FUEL), Signal::Finished);
    assert!(vm.data_stack().is_empty());
    cells[1] = -1;
    let mut vm = machine(Policy::Strict, &cells);
    assert_eq!(vm.execute(0, FUEL), Signal::Finished);
    assert_eq!(vm.data_stack(), &[5]);
}

#[test]
fn last_return_ends_the_run() {
    let mut vm = machine(Policy::Strict, &[one(OP_RETURN), one(OP_LIT), 1]);
    assert_eq!(vm.execute(0, FUEL), Signal::Finished);
    assert!(vm.data_stack().is_empty());
    assert!(vm.return_stack().is_empty());
    assert!(vm.ip() >= IMAGE_SIZE as i64);
}

#[test]
fn zero_return_only_on_zero() {
    let mut vm = machine(Policy::Strict, &[pack([OP_ZRET, OP_HALT, OP_NOP, OP_NOP])]);
    assert!(vm.push_data(3));
    assert_eq!(vm.execute(0, FUEL), Signal::Finished);
    assert_eq!(vm.data_stack(), &[3]);
    let mut vm = machine(Policy::Strict, &[pack([OP_ZRET, OP_NOP, OP_NOP, OP_NOP]), one(OP_LIT), 1]);
    assert!(vm.push_data(0));
    assert_eq!(vm.execute(0, FUEL), Signal::Finished);
    assert!(vm.data_stack().is_empty());
}

#[test]
fn jump_goes_to_target() {
    let mut cells = vec![0i32; 8];
    cells[0] = pack([OP_LIT, OP_JUMP, OP_NOP, OP_NOP]);
    cells[1] = 5;
    cells[2] = one(OP_LIT);
    cells[3] = 99;
    cells[5] = one(OP_HALT);
    let mut vm = machine(Policy::Strict, &cells);
    assert_eq!(vm.execute(0, FUEL), Signal::Finished);
    assert!(vm.data_stack().is_empty());
}

#[test]
fn endless_loop_runs_out_of_fuel() {
    let mut vm = machine(Policy::Strict, &[pack([OP_LIT, OP_JUMP, OP_NOP, OP_NOP]), 0]);
    assert_eq!(vm.execute(0, 1000), Signal::Running);
    assert_eq!(vm.resume(1000), Signal::Running);
}

#[test]
fn underflow_depends_on_policy() {
    let (_, s) = run_op(Policy::Lenient, &[], OP_DROP);
    assert_eq!(s, Signal::Finished);
    let (_, s) = run_op(Policy::Strict, &[], OP_DROP);
    assert_eq!(s, Signal::Fault(Fault::StackUnderflow));
    let (_, s) = run_op(Policy::Strict, &[1], OP_ADD);
    assert_eq!(s, Signal::Fault(Fault::StackUnderflow));
    let mut vm = machine(Policy::Strict, &[pack([OP_RETURN, OP_RETURN, OP_NOP, OP_NOP])]);
    assert_eq!(vm.execute(0, FUEL), Signal::Fault(Fault::ReturnUnderflow));
    let mut vm = machine(Policy::Lenient, &[pack([OP_RETURN, OP_RETURN, OP_NOP, OP_NOP])]);
    assert_eq!(vm.execute(0, FUEL), Signal::Finished);
}

#[test]
fn stack_overflow_faults() {
    let mut vm = machine(Policy::Strict, &[one(OP_DUP)]);
    for _ in 0..STACK_DEPTH {
        assert!(vm.push_data(1));
    }
    assert!(!vm.push_data(1));
    assert_eq!(vm.execute(0, FUEL), Signal::Fault(Fault::StackOverflow));
    assert_eq!(vm.data_stack().len(), STACK_DEPTH);
}

#[test]
fn undefined_opcode_depends_on_policy() {
    let cells = [pack([OP_LIT, 200, OP_NOP, OP_NOP]), 4, one(OP_HALT)];
    let mut vm = machine(Policy::Lenient, &cells);
    assert_eq!(vm.execute(0, FUEL), Signal::Finished);
    assert_eq!(vm.data_stack(), &[4]);
    let mut vm = machine(Policy::Strict, &cells);
    assert_eq!(vm.execute(0, FUEL), Signal::Fault(Fault::InvalidOpcode));
    assert!(vm.data_stack().is_empty());
    assert_eq!(vm.ip(), 0);
}

#[test]
fn output_device_hands_over_low_byte() {
    let mut vm = machine(Policy::Strict, &[pack([OP_LIT, OP_LIT, OP_IO_INVOKE, OP_HALT]), 0x141, 0]);
    assert_eq!(vm.execute(0, FUEL), Signal::Output(0x41));
    assert!(vm.data_stack().is_empty());
    assert_eq!(vm.resume(FUEL), Signal::Finished);
}

#[test]
fn input_device_waits_for_a_byte() {
    let cells = [pack([OP_LIT, OP_IO_INVOKE, OP_HALT, OP_NOP]), 1];
    let mut vm = machine(Policy::Strict, &cells);
    assert_eq!(vm.execute(0, FUEL), Signal::Input);
    assert_eq!(vm.supply_input(127), Signal::Running);
    assert_eq!(vm.resume(FUEL), Signal::Finished);
    assert_eq!(vm.data_stack(), &[8]);
    let mut vm = machine(Policy::Lenient, &cells);
    assert_eq!(vm.execute(0, FUEL), Signal::Input);
    assert_eq!(vm.supply_input(127), Signal::Running);
    assert_eq!(vm.data_stack(), &[127]);
    let (_, s) = run_op(Policy::Strict, &[9], OP_IO_INVOKE);
    assert_eq!(s, Signal::Fault(Fault::UnknownDevice));
}

#[test]
fn prepare_clears_everything() {
    let mut vm = machine(Policy::Strict, &[1, 2, 3]);
    assert!(vm.push_data(4));
    vm.prepare_vm();
    assert_eq!(vm.cell(0), 0);
    assert_eq!(vm.cell(2), 0);
    assert!(vm.data_stack().is_empty());
    assert!(vm.return_stack().is_empty());
    assert_eq!(vm.ip(), 0);
    assert_eq!(vm.policy(), Policy::Strict);
    assert_eq!(NgaVm::new().policy(), Policy::Lenient);
}

#[test]
fn lenient_bundle_with_undefined_bytes_takes_one_cell() {
    let mut vm = machine(Policy::Lenient, &[pack([200, OP_DUP, 255, 31])]);
    assert!(vm.push_data(6));
    assert_eq!(vm.execute(0, 4), Signal::Running);
    assert_eq!(vm.ip(), 1);
    assert_eq!(vm.data_stack(), &[6, 6]);
}
