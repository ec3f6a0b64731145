//! The machine's meaning: a model state and what each opcode does to it.
use vstd::prelude::*;

verus! {

/// Number of cells in the memory image.
pub const IMAGE_SIZE: usize = 242000;

/// Most cells the data stack holds.
pub const STACK_DEPTH: usize = 1024;

/// Most cells the return stack holds.
pub const ADDRESS_DEPTH: usize = 1024;

/// Number of I/O devices the machine offers.
pub const NUM_DEVICES: usize = 2;

/// Largest defined opcode.
pub const MAX_OPCODE: u8 = 29;

pub const OP_NOP: u8 = 0;
pub const OP_LIT: u8 = 1;
pub const OP_DUP: u8 = 2;
pub const OP_DROP: u8 = 3;
pub const OP_SWAP: u8 = 4;
pub const OP_PUSH: u8 = 5;
pub const OP_POP: u8 = 6;
pub const OP_JUMP: u8 = 7;
pub const OP_CALL: u8 = 8;
pub const OP_CCALL: u8 = 9;
pub const OP_RETURN: u8 = 10;
pub const OP_EQ: u8 = 11;
pub const OP_NEQ: u8 = 12;
pub const OP_LT: u8 = 13;
pub const OP_GT: u8 = 14;
pub const OP_FETCH: u8 = 15;
pub const OP_STORE: u8 = 16;
pub const OP_ADD: u8 = 17;
pub const OP_SUB: u8 = 18;
pub const OP_MUL: u8 = 19;
pub const OP_DIVMOD: u8 = 20;
pub const OP_AND: u8 = 21;
pub const OP_OR: u8 = 22;
pub const OP_XOR: u8 = 23;
pub const OP_SHIFT: u8 = 24;
pub const OP_ZRET: u8 = 25;
pub const OP_HALT: u8 = 26;
pub const OP_IO_COUNT: u8 = 27;
pub const OP_IO_QUERY: u8 = 28;
pub const OP_IO_INVOKE: u8 = 29;

/// Device 0 writes one character.
pub const DEVICE_OUTPUT: i32 = 0;

/// Device 1 reads one character.
pub const DEVICE_INPUT: i32 = 1;

/// How the machine treats stack underflow, undefined opcodes and typed input.
#[derive(Clone, Copy, Debug, PartialEq, Eq, Structural)]
pub enum Policy {
    /// Underflow ends the run quietly; undefined opcodes do nothing.
    Lenient,
    /// Underflow and undefined opcodes are faults; typed DEL becomes backspace.
    Strict,
}

/// Conditions that stop the machine abnormally.
#[derive(Clone, Copy, Debug, PartialEq, Eq, Structural)]
pub enum Fault {
    StackUnderflow,
    StackOverflow,
    ReturnUnderflow,
    ReturnOverflow,
    AddressOutOfRange,
    DivideByZero,
    InvalidOpcode,
    UnknownDevice,
}

/// What one step, or a run of steps, ends with.
#[derive(Clone, Copy, Debug, PartialEq, Eq, Structural)]
pub enum Signal {
    /// Nothing stopped the machine.
    Running,
    /// The run is over: halt, the last return, or underflow under `Lenient`.
    Finished,
    /// The output device was handed this byte.
    Output(u8),
    /// The input device wants a byte; the machine waits for it.
    Input,
    /// A bundle at the watched address is about to run.
    UnknownWord,
    /// The run stopped on a fault; the faulting instruction changed nothing.
    Fault(Fault),
}

/// Model of the whole machine state.
pub struct Machine {
    /// Instruction pointer: address of the bundle being run.
    pub ip: int,
    /// The bundle fetched at `ip`.
    pub bundle: i32,
    /// Next slot of `bundle` to run, 0 to 3; 0 means a fetch comes first.
    pub slot: nat,
    pub data: Seq<i32>,
    pub rets: Seq<i32>,
    pub memory: Seq<i32>,
    pub policy: Policy,
    /// Address whose bundles are announced with `Signal::UnknownWord`.
    pub watch: int,
    /// The bundle at `watch` was announced and may now run.
    pub announced: bool,
}

impl Machine {
    pub open spec fn wf(self) -> bool {
        &&& self.memory.len() == IMAGE_SIZE
        &&& self.data.len() <= STACK_DEPTH
        &&& self.rets.len() <= ADDRESS_DEPTH
        &&& self.slot < 4
        &&& i32::MIN - 1 <= self.ip <= i32::MAX
    }

    pub open spec fn depth(self) -> int {
        self.data.len() as int
    }

    pub open spec fn tos(self) -> i32 {
        self.data[self.data.len() - 1]
    }

    pub open spec fn nos(self) -> i32 {
        self.data[self.data.len() - 2]
    }

    pub open spec fn with_data(self, data: Seq<i32>) -> Machine {
        Machine { data: data, ..self }
    }

    /// Data stack with its top `n` cells removed.
    pub open spec fn below(self, n: int) -> Seq<i32> {
        self.data.subrange(0, self.data.len() - n)
    }
}

/// Forth truth: -1 for true, 0 for false.
pub open spec fn flag(b: bool) -> i32 {
    if b { -1i32 } else { 0i32 }
}

/// Opcode in slot `k` of a bundle: bits `8k` to `8k + 7`.
pub open spec fn opcode_at(cell: i32, k: nat) -> u8 {
    (((cell as u32) >> ((8 * k) as u32)) & 0xffu32) as u8
}

/// Every slot of the bundle holds a defined opcode.
pub open spec fn valid_bundle(cell: i32) -> bool {
    forall|k: nat| k < 4 ==> #[trigger] opcode_at(cell, k) <= MAX_OPCODE
}

pub open spec fn abs(x: int) -> int {
    if x < 0 { -x } else { x }
}

/// Quotient rounded toward zero.
pub open spec fn trunc_div(b: int, a: int) -> int {
    if (b < 0) == (a < 0) { abs(b) / abs(a) } else { -(abs(b) / abs(a)) }
}

/// Remainder of `trunc_div`: it takes the sign of the dividend.
pub open spec fn trunc_rem(b: int, a: int) -> int {
    if b < 0 { -(abs(b) % abs(a)) } else { abs(b) % abs(a) }
}

/// Quotient as a cell: the one case that does not fit, `i32::MIN / -1`, wraps.
pub open spec fn cell_div(b: i32, a: i32) -> i32 {
    if b == i32::MIN && a == -1 { i32::MIN } else { trunc_div(b as int, a as int) as i32 }
}

pub open spec fn cell_rem(b: i32, a: i32) -> i32 {
    if b == i32::MIN && a == -1 { 0 } else { trunc_rem(b as int, a as int) as i32 }
}

/// Shift `x` by `n`: left by `-n` when `n` is negative, else arithmetic right.
pub open spec fn shift_cell(x: i32, n: i32) -> i32 {
    if n <= -32 {
        0i32
    } else if n < 0 {
        x << ((-n) as u32)
    } else if n >= 31 {
        if x < 0 { -1i32 } else { 0i32 }
    } else {
        x >> (n as u32)
    }
}

/// What running out of stack means under a policy.
pub open spec fn underflow(policy: Policy, f: Fault) -> Signal {
    if policy == Policy::Lenient { Signal::Finished } else { Signal::Fault(f) }
}

/// Result of an instruction that stops with the machine left as it was.
pub open spec fn stop(m: Machine, s: Signal) -> (Machine, Signal) {
    (m, s)
}

pub open spec fn go(m: Machine) -> (Machine, Signal) {
    (m, Signal::Running)
}

/// A binary operation: replaces the top two cells by `r`.
pub open spec fn binary(m: Machine, r: i32) -> (Machine, Signal) {
    if m.depth() < 2 {
        stop(m, underflow(m.policy, Fault::StackUnderflow))
    } else {
        go(m.with_data(m.below(2).push(r)))
    }
}

pub open spec fn lit_spec(m: Machine) -> (Machine, Signal) {
    if !(0 <= m.ip + 1 < IMAGE_SIZE) {
        stop(m, Signal::Fault(Fault::AddressOutOfRange))
    } else if m.depth() >= STACK_DEPTH {
        stop(m, Signal::Fault(Fault::StackOverflow))
    } else {
        go(Machine { ip: m.ip + 1, data: m.data.push(m.memory[m.ip + 1]), ..m })
    }
}

pub open spec fn dup_spec(m: Machine) -> (Machine, Signal) {
    if m.depth() < 1 {
        stop(m, underflow(m.policy, Fault::StackUnderflow))
    } else if m.depth() >= STACK_DEPTH {
        stop(m, Signal::Fault(Fault::StackOverflow))
    } else {
        go(m.with_data(m.data.push(m.tos())))
    }
}

pub open spec fn drop_spec(m: Machine) -> (Machine, Signal) {
    if m.depth() < 1 {
        stop(m, underflow(m.policy, Fault::StackUnderflow))
    } else {
        go(m.with_data(m.below(1)))
    }
}

pub open spec fn swap_spec(m: Machine) -> (Machine, Signal) {
    if m.depth() < 2 {
        stop(m, underflow(m.policy, Fault::StackUnderflow))
    } else {
        go(m.with_data(m.below(2).push(m.tos()).push(m.nos())))
    }
}

pub open spec fn push_spec(m: Machine) -> (Machine, Signal) {
    if m.depth() < 1 {
        stop(m, underflow(m.policy, Fault::StackUnderflow))
    } else if m.rets.len() >= ADDRESS_DEPTH {
        stop(m, Signal::Fault(Fault::ReturnOverflow))
    } else {
        go(Machine { data: m.below(1), rets: m.rets.push(m.tos()), ..m })
    }
}

pub open spec fn pop_spec(m: Machine) -> (Machine, Signal) {
    if m.rets.len() < 1 {
        stop(m, underflow(m.policy, Fault::ReturnUnderflow))
    } else if m.depth() >= STACK_DEPTH {
        stop(m, Signal::Fault(Fault::StackOverflow))
    } else {
        go(
            Machine {
                data: m.data.push(m.rets.last()),
                rets: m.rets.drop_last(),
                ..m
            },
        )
    }
}

pub open spec fn jump_spec(m: Machine) -> (Machine, Signal) {
    if m.depth() < 1 {
        stop(m, underflow(m.policy, Fault::StackUnderflow))
    } else {
        go(Machine { ip: m.tos() - 1, data: m.below(1), ..m })
    }
}

/// Enter the code at `target`, saving `ip` on the return stack; `keep` is the
/// data stack afterwards.
pub open spec fn enter(m: Machine, target: i32, keep: Seq<i32>) -> (Machine, Signal) {
    if m.rets.len() >= ADDRESS_DEPTH {
        stop(m, Signal::Fault(Fault::ReturnOverflow))
    } else if !(i32::MIN <= m.ip <= i32::MAX) {
        stop(m, Signal::Fault(Fault::AddressOutOfRange))
    } else {
        go(Machine { ip: target - 1, data: keep, rets: m.rets.push(m.ip as i32), ..m })
    }
}

pub open spec fn call_spec(m: Machine) -> (Machine, Signal) {
    if m.depth() < 1 {
        stop(m, underflow(m.policy, Fault::StackUnderflow))
    } else {
        enter(m, m.tos(), m.below(1))
    }
}

pub open spec fn ccall_spec(m: Machine) -> (Machine, Signal) {
    if m.depth() < 2 {
        stop(m, underflow(m.policy, Fault::StackUnderflow))
    } else if m.nos() != 0 {
        enter(m, m.tos(), m.below(2))
    } else {
        go(m.with_data(m.below(2)))
    }
}

pub open spec fn return_spec(m: Machine) -> (Machine, Signal) {
    if m.rets.len() < 1 {
        stop(m, underflow(m.policy, Fault::ReturnUnderflow))
    } else {
        go(Machine { ip: m.rets.last() as int, rets: m.rets.drop_last(), ..m })
    }
}

/// Value read by fetch: the negative addresses -1 to -5 answer queries.
pub open spec fn fetch_value(m: Machine, addr: i32) -> Option<i32> {
    if addr == -1 {
        Some((m.depth() - 1) as i32)
    } else if addr == -2 {
        Some(m.rets.len() as i32)
    } else if addr == -3 {
        Some(IMAGE_SIZE as i32)
    } else if addr == -4 {
        Some(i32::MIN)
    } else if addr == -5 {
        Some(i32::MAX)
    } else if 0 <= addr < IMAGE_SIZE {
        Some(m.memory[addr as int])
    } else {
        None
    }
}

pub open spec fn fetch_spec(m: Machine) -> (Machine, Signal) {
    if m.depth() < 1 {
        stop(m, underflow(m.policy, Fault::StackUnderflow))
    } else {
        match fetch_value(m, m.tos()) {
            Some(v) => go(m.with_data(m.below(1).push(v))),
            None => stop(m, Signal::Fault(Fault::AddressOutOfRange)),
        }
    }
}

pub open spec fn store_spec(m: Machine) -> (Machine, Signal) {
    if m.depth() < 2 {
        stop(m, underflow(m.policy, Fault::StackUnderflow))
    } else if !(0 <= m.tos() < IMAGE_SIZE) {
        stop(m, Signal::Fault(Fault::AddressOutOfRange))
    } else {
        go(
            Machine {
                data: m.below(2),
                memory: m.memory.update(m.tos() as int, m.nos()),
                ..m
            },
        )
    }
}

pub open spec fn divmod_spec(m: Machine) -> (Machine, Signal) {
    if m.depth() < 2 {
        stop(m, underflow(m.policy, Fault::StackUnderflow))
    } else if m.tos() == 0 {
        stop(m, Signal::Fault(Fault::DivideByZero))
    } else {
        go(
            m.with_data(
                m.below(2).push(cell_rem(m.nos(), m.tos())).push(cell_div(m.nos(), m.tos())),
            ),
        )
    }
}

pub open spec fn zret_spec(m: Machine) -> (Machine, Signal) {
    if m.depth() < 1 {
        stop(m, underflow(m.policy, Fault::StackUnderflow))
    } else if m.tos() != 0 {
        go(m)
    } else if m.rets.len() < 1 {
        stop(m, underflow(m.policy, Fault::ReturnUnderflow))
    } else {
        go(
            Machine {
                ip: m.rets.last() as int,
                data: m.below(1),
                rets: m.rets.drop_last(),
                ..m
            },
        )
    }
}

pub open spec fn io_count_spec(m: Machine) -> (Machine, Signal) {
    if m.depth() >= STACK_DEPTH {
        stop(m, Signal::Fault(Fault::StackOverflow))
    } else {
        go(m.with_data(m.data.push(NUM_DEVICES as i32)))
    }
}

/// The capability pair each device reports, as (first pushed, second pushed).
pub open spec fn capability(device: i32) -> (i32, i32) {
    if device == DEVICE_OUTPUT { (0, 0) } else { (0, 1) }
}

pub open spec fn io_query_spec(m: Machine) -> (Machine, Signal) {
    if m.depth() < 1 {
        stop(m, underflow(m.policy, Fault::StackUnderflow))
    } else if !(0 <= m.tos() < NUM_DEVICES) {
        stop(m, Signal::Fault(Fault::UnknownDevice))
    } else if m.depth() + 1 > STACK_DEPTH {
        stop(m, Signal::Fault(Fault::StackOverflow))
    } else {
        let (a, b) = capability(m.tos());
        go(m.with_data(m.below(1).push(a).push(b)))
    }
}

pub open spec fn io_invoke_spec(m: Machine) -> (Machine, Signal) {
    if m.depth() < 1 {
        stop(m, underflow(m.policy, Fault::StackUnderflow))
    } else if m.tos() == DEVICE_OUTPUT {
        if m.depth() < 2 {
            stop(m, underflow(m.policy, Fault::StackUnderflow))
        } else {
            (m.with_data(m.below(2)), Signal::Output(m.nos() as u8))
        }
    } else if m.tos() == DEVICE_INPUT {
        (m.with_data(m.below(1)), Signal::Input)
    } else {
        stop(m, Signal::Fault(Fault::UnknownDevice))
    }
}

/// What one opcode does. Undefined opcodes do nothing.
pub open spec fn op_spec(m: Machine, op: u8) -> (Machine, Signal) {
    if op == OP_LIT {
        lit_spec(m)
    } else if op == OP_DUP {
        dup_spec(m)
    } else if op == OP_DROP {
        drop_spec(m)
    } else if op == OP_SWAP {
        swap_spec(m)
    } else if op == OP_PUSH {
        push_spec(m)
    } else if op == OP_POP {
        pop_spec(m)
    } else if op == OP_JUMP {
        jump_spec(m)
    } else if op == OP_CALL {
        call_spec(m)
    } else if op == OP_CCALL {
        ccall_spec(m)
    } else if op == OP_RETURN {
        return_spec(m)
    } else if op == OP_EQ {
        binary(m, flag(m.nos() == m.tos()))
    } else if op == OP_NEQ {
        binary(m, flag(m.nos() != m.tos()))
    } else if op == OP_LT {
        binary(m, flag(m.nos() < m.tos()))
    } else if op == OP_GT {
        binary(m, flag(m.nos() > m.tos()))
    } else if op == OP_FETCH {
        fetch_spec(m)
    } else if op == OP_STORE {
        store_spec(m)
    } else if op == OP_ADD {
        binary(m, m.nos().wrapping_add(m.tos()))
    } else if op == OP_SUB {
        binary(m, m.nos().wrapping_sub(m.tos()))
    } else if op == OP_MUL {
        binary(m, m.nos().wrapping_mul(m.tos()))
    } else if op == OP_DIVMOD {
        divmod_spec(m)
    } else if op == OP_AND {
        binary(m, m.nos() & m.tos())
    } else if op == OP_OR {
        binary(m, m.nos() | m.tos())
    } else if op == OP_XOR {
        binary(m, m.nos() ^ m.tos())
    } else if op == OP_SHIFT {
        binary(m, shift_cell(m.nos(), m.tos()))
    } else if op == OP_ZRET {
        zret_spec(m)
    } else if op == OP_HALT {
        go(Machine { ip: IMAGE_SIZE as int, ..m })
    } else if op == OP_IO_COUNT {
        io_count_spec(m)
    } else if op == OP_IO_QUERY {
        io_query_spec(m)
    } else if op == OP_IO_INVOKE {
        io_invoke_spec(m)
    } else {
        go(m)
    }
}

/// Bookkeeping after a slot ran: move to the next slot, or after the last one
/// to the next bundle; an empty return stack ends the run.
pub open spec fn advance(m: Machine) -> Machine {
    if m.slot < 3 {
        Machine { slot: m.slot + 1, ..m }
    } else if m.rets.len() == 0 || m.ip >= IMAGE_SIZE {
        Machine { slot: 0, ip: IMAGE_SIZE as int, ..m }
    } else {
        Machine { slot: 0, ip: m.ip + 1, ..m }
    }
}

/// Run the slot `m.slot` of `m.bundle`.
pub open spec fn run_slot(m: Machine) -> (Machine, Signal) {
    let (n, s) = op_spec(m, opcode_at(m.bundle, m.slot));
    match s {
        Signal::Finished => (n, s),
        Signal::Fault(_) => (n, s),
        _ => (advance(n), s),
    }
}

/// One step: at a bundle boundary, check for the end, the watched address and
/// the bundle's validity and fetch it; then run one slot.
pub open spec fn step_spec(m: Machine) -> (Machine, Signal) {
    if m.slot != 0 {
        run_slot(m)
    } else if m.ip >= IMAGE_SIZE {
        (m, Signal::Finished)
    } else if m.ip < 0 {
        (m, Signal::Fault(Fault::AddressOutOfRange))
    } else if m.ip == m.watch && !m.announced {
        (Machine { announced: true, ..m }, Signal::UnknownWord)
    } else {
        let cell = m.memory[m.ip];
        let f = Machine { bundle: cell, announced: false, ..m };
        if m.policy == Policy::Strict && !valid_bundle(cell) {
            (f, Signal::Fault(Fault::InvalidOpcode))
        } else {
            run_slot(f)
        }
    }
}

/// Up to `fuel` steps, stopping at the first signal other than `Running`.
pub open spec fn run_spec(m: Machine, fuel: nat) -> (Machine, Signal)
    decreases fuel,
{
    if fuel == 0 {
        (m, Signal::Running)
    } else {
        let (n, s) = step_spec(m);
        if s == Signal::Running {
            run_spec(n, (fuel - 1) as nat)
        } else {
            (n, s)
        }
    }
}

/// The state `execute` starts a run from.
pub open spec fn entered(m: Machine, entry: i32) -> Machine {
    Machine { ip: entry as int, slot: 0, rets: seq![0i32], announced: false, ..m }
}

/// What handing a typed byte to a waiting machine does.
pub open spec fn input_spec(m: Machine, byte: u8) -> (Machine, Signal) {
    if m.depth() >= STACK_DEPTH {
        stop(m, Signal::Fault(Fault::StackOverflow))
    } else {
        go(m.with_data(m.data.push(typed(m.policy, byte))))
    }
}

/// The byte the input device hands over under a policy.
pub open spec fn typed(policy: Policy, byte: u8) -> i32 {
    if policy == Policy::Strict && byte == 127 { 8 } else { byte as i32 }
}

} // verus!
