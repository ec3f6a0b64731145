//! The executable machine: memory image, two stacks and the instruction set.
use vstd::prelude::*;

use crate::semantics::{
    abs, binary, trunc_div, trunc_rem, call_spec, ccall_spec, cell_div, cell_rem, divmod_spec, drop_spec, dup_spec,
    enter, fetch_spec, io_count_spec, io_invoke_spec, io_query_spec, jump_spec, lit_spec, op_spec,
    pop_spec, push_spec, return_spec, shift_cell, store_spec, swap_spec, underflow, zret_spec,
    Fault, Machine, Policy, Signal, ADDRESS_DEPTH, DEVICE_INPUT, DEVICE_OUTPUT, IMAGE_SIZE,
    NUM_DEVICES, OP_HALT, STACK_DEPTH, advance, entered, input_spec, opcode_at, run_slot,
    run_spec, step_spec, valid_bundle, MAX_OPCODE, OP_ADD, OP_AND, OP_CALL, OP_CCALL,
    OP_DIVMOD, OP_DROP, OP_DUP, OP_EQ, OP_FETCH, OP_GT, OP_IO_COUNT, OP_IO_INVOKE, OP_IO_QUERY,
    OP_JUMP, OP_LIT, OP_LT, OP_MUL, OP_NEQ, OP_OR, OP_POP, OP_PUSH, OP_RETURN, OP_SHIFT, OP_STORE,
    OP_SUB, OP_SWAP, OP_XOR, OP_ZRET,
};

verus! {

/// A machine instance. Each one owns its image and stacks.
pub struct NgaVm {
    ip: i64,
    bundle: i32,
    slot: u8,
    data: Vec<i32>,
    address: Vec<i32>,
    memory: Vec<i32>,
    policy: Policy,
    watch: i64,
    announced: bool,
}

impl View for NgaVm {
    type V = Machine;

    closed spec fn view(&self) -> Machine {
        Machine {
            ip: self.ip as int,
            bundle: self.bundle,
            slot: self.slot as nat,
            data: self.data@,
            rets: self.address@,
            memory: self.memory@,
            policy: self.policy,
            watch: self.watch as int,
            announced: self.announced,
        }
    }
}

/// Quotient and remainder of `b / a` as cells.
fn divide(b: i32, a: i32) -> (r: (i32, i32))
    requires
        a != 0,
    ensures
        r == (cell_div(b, a), cell_rem(b, a)),
{
    if b == i32::MIN && a == -1 {
        return (i32::MIN, 0);
    }
    proof {
        let x = b as int;
        let d = a as int;
        let (ax, ad) = (abs(x), abs(d));
        assert(0 <= ax / ad <= ax) by (nonlinear_arith)
            requires
                ad >= 1,
                ax >= 0,
        ;
        assert(0 <= ax % ad < ad) by (nonlinear_arith)
            requires
                ad >= 1,
        ;
        if x == 0 {
            assert(ax / ad == 0 && ax % ad == 0) by (nonlinear_arith)
                requires
                    ax == 0,
                    ad >= 1,
            ;
        }
        if x == i32::MIN && ad >= 2 {
            assert(ax / ad < ax) by (nonlinear_arith)
                requires
                    ad >= 2,
                    ax >= 2,
            ;
        }
        assert(b.checked_div(a) == Some(trunc_div(x, d) as i32));
        assert(b.checked_rem(a) == Some(trunc_rem(x, d) as i32));
    }
    let q = match b.checked_div(a) {
        Some(q) => q,
        None => 0,
    };
    let r = match b.checked_rem(a) {
        Some(r) => r,
        None => 0,
    };
    (q, r)
}

/// Shift `x` by `n` bits, left when `n` is negative, as `shift_cell` states.
fn shift(x: i32, n: i32) -> (r: i32)
    ensures
        r == shift_cell(x, n),
{
    if n <= -32 {
        0
    } else if n < 0 {
        let k: u32 = (0 - n) as u32;
        x.wrapping_shl(k)
    } else if n >= 31 {
        if x < 0 {
            -1
        } else {
            0
        }
    } else {
        x.wrapping_shr(n as u32)
    }
}

impl NgaVm {
    pub open spec fn wf(&self) -> bool {
        self@.wf()
    }

    /// A machine with a zeroed image, empty stacks and the given policy.
    pub fn with_policy(policy: Policy) -> (r: NgaVm)
        ensures
            r.wf(),
            r@.ip == 0,
            r@.slot == 0,
            r@.data.len() == 0,
            r@.rets.len() == 0,
            r@.memory == Seq::new(IMAGE_SIZE as nat, |i: int| 0i32),
            r@.policy == policy,
            r@.watch == -1,
            !r@.announced,
    {
        let memory = vec![0i32; IMAGE_SIZE];
        proof {
            assert(memory@ =~= Seq::new(IMAGE_SIZE as nat, |i: int| 0i32));
        }
        NgaVm {
            ip: 0,
            bundle: 0,
            slot: 0,
            data: Vec::new(),
            address: Vec::new(),
            memory,
            policy,
            watch: -1,
            announced: false,
        }
    }

    /// A lenient machine with a zeroed image and empty stacks.
    pub fn new() -> (r: NgaVm)
        ensures
            r.wf(),
            r@.ip == 0,
            r@.slot == 0,
            r@.data.len() == 0,
            r@.rets.len() == 0,
            r@.memory == Seq::new(IMAGE_SIZE as nat, |i: int| 0i32),
            r@.policy == Policy::Lenient,
            r@.watch == -1,
            !r@.announced,
    {
        NgaVm::with_policy(Policy::Lenient)
    }

    /// Reset the instruction pointer, both stacks and the whole image to zero.
    pub fn prepare_vm(&mut self)
        requires
            old(self).wf(),
        ensures
            final(self).wf(),
            final(self)@.ip == 0,
            final(self)@.slot == 0,
            final(self)@.data.len() == 0,
            final(self)@.rets.len() == 0,
            final(self)@.memory == Seq::new(IMAGE_SIZE as nat, |i: int| 0i32),
            final(self)@.policy == old(self)@.policy,
            final(self)@.watch == old(self)@.watch,
            !final(self)@.announced,
    {
        self.ip = 0;
        self.slot = 0;
        self.announced = false;
        self.data.clear();
        self.address.clear();
        let mut i: usize = 0;
        while i < IMAGE_SIZE
            invariant
                self.memory@.len() == IMAGE_SIZE,
                self.ip == 0,
                self.slot == 0,
                self.data@.len() == 0,
                self.address@.len() == 0,
                self.policy == old(self).policy,
                self.watch == old(self).watch,
                !self.announced,
                i <= IMAGE_SIZE,
                forall|j: int| 0 <= j < i ==> self.memory@[j] == 0,
            decreases IMAGE_SIZE - i,
        {
            self.memory.set(i, 0);
            i = i + 1;
        }
        proof {
            assert(self.memory@ =~= Seq::new(IMAGE_SIZE as nat, |i: int| 0i32));
        }
    }

    fn tos(&self) -> (r: i32)
        requires
            self@.depth() >= 1,
        ensures
            r == self@.tos(),
    {
        self.data[self.data.len() - 1]
    }

    fn nos(&self) -> (r: i32)
        requires
            self@.depth() >= 2,
        ensures
            r == self@.nos(),
    {
        self.data[self.data.len() - 2]
    }

    fn underflow(&self, f: Fault) -> (r: Signal)
        ensures
            r == underflow(self@.policy, f),
    {
        match self.policy {
            Policy::Lenient => Signal::Finished,
            Policy::Strict => Signal::Fault(f),
        }
    }

    /// Drop the top `n` data cells.
    fn drop_n(&mut self, n: usize)
        requires
            old(self).wf(),
            n <= old(self)@.depth(),
        ensures
            final(self).wf(),
            final(self)@ == old(self)@.with_data(old(self)@.below(n as int)),
    {
        let len = self.data.len();
        self.data.truncate(len - n);
    }

    /// Replace the top two data cells by `r`.
    fn binary(&mut self, r: i32) -> (s: Signal)
        requires
            old(self).wf(),
        ensures
            final(self).wf(),
            (final(self)@, s) == binary(old(self)@, r),
    {
        if self.data.len() < 2 {
            return self.underflow(Fault::StackUnderflow);
        }
        self.drop_n(2);
        self.data.push(r);
        Signal::Running
    }

    fn inst_lit(&mut self) -> (s: Signal)
        requires
            old(self).wf(),
        ensures
            final(self).wf(),
            (final(self)@, s) == lit_spec(old(self)@),
    {
        if !(0 <= self.ip + 1 && self.ip + 1 < IMAGE_SIZE as i64) {
            return Signal::Fault(Fault::AddressOutOfRange);
        }
        if self.data.len() >= STACK_DEPTH {
            return Signal::Fault(Fault::StackOverflow);
        }
        self.ip = self.ip + 1;
        let v = self.memory[self.ip as usize];
        self.data.push(v);
        Signal::Running
    }

    fn inst_dup(&mut self) -> (s: Signal)
        requires
            old(self).wf(),
        ensures
            final(self).wf(),
            (final(self)@, s) == dup_spec(old(self)@),
    {
        if self.data.len() < 1 {
            return self.underflow(Fault::StackUnderflow);
        }
        if self.data.len() >= STACK_DEPTH {
            return Signal::Fault(Fault::StackOverflow);
        }
        let v = self.tos();
        self.data.push(v);
        Signal::Running
    }

    fn inst_drop(&mut self) -> (s: Signal)
        requires
            old(self).wf(),
        ensures
            final(self).wf(),
            (final(self)@, s) == drop_spec(old(self)@),
    {
        if self.data.len() < 1 {
            return self.underflow(Fault::StackUnderflow);
        }
        self.drop_n(1);
        Signal::Running
    }

    fn inst_swap(&mut self) -> (s: Signal)
        requires
            old(self).wf(),
        ensures
            final(self).wf(),
            (final(self)@, s) == swap_spec(old(self)@),
    {
        if self.data.len() < 2 {
            return self.underflow(Fault::StackUnderflow);
        }
        let a = self.tos();
        let b = self.nos();
        self.drop_n(2);
        self.data.push(a);
        self.data.push(b);
        Signal::Running
    }

    fn inst_push(&mut self) -> (s: Signal)
        requires
            old(self).wf(),
        ensures
            final(self).wf(),
            (final(self)@, s) == push_spec(old(self)@),
    {
        if self.data.len() < 1 {
            return self.underflow(Fault::StackUnderflow);
        }
        if self.address.len() >= ADDRESS_DEPTH {
            return Signal::Fault(Fault::ReturnOverflow);
        }
        let v = self.tos();
        self.drop_n(1);
        self.address.push(v);
        Signal::Running
    }

    fn inst_pop(&mut self) -> (s: Signal)
        requires
            old(self).wf(),
        ensures
            final(self).wf(),
            (final(self)@, s) == pop_spec(old(self)@),
    {
        if self.address.len() < 1 {
            return self.underflow(Fault::ReturnUnderflow);
        }
        if self.data.len() >= STACK_DEPTH {
            return Signal::Fault(Fault::StackOverflow);
        }
        let v = self.address[self.address.len() - 1];
        self.address.pop();
        self.data.push(v);
        Signal::Running
    }

    fn inst_jump(&mut self) -> (s: Signal)
        requires
            old(self).wf(),
        ensures
            final(self).wf(),
            (final(self)@, s) == jump_spec(old(self)@),
    {
        if self.data.len() < 1 {
            return self.underflow(Fault::StackUnderflow);
        }
        let t = self.tos();
        self.drop_n(1);
        self.ip = t as i64 - 1;
        Signal::Running
    }

    /// Save `ip` on the return stack, leave `keep` cells of data and go to `target`.
    fn enter(&mut self, target: i32, keep: usize) -> (s: Signal)
        requires
            old(self).wf(),
            keep <= old(self)@.depth(),
        ensures
            final(self).wf(),
            (final(self)@, s) == enter(old(self)@, target, old(self)@.data.subrange(0, keep as int)),
    {
        if self.address.len() >= ADDRESS_DEPTH {
            return Signal::Fault(Fault::ReturnOverflow);
        }
        if !(i32::MIN as i64 <= self.ip && self.ip <= i32::MAX as i64) {
            return Signal::Fault(Fault::AddressOutOfRange);
        }
        self.data.truncate(keep);
        self.address.push(self.ip as i32);
        self.ip = target as i64 - 1;
        Signal::Running
    }

    fn inst_call(&mut self) -> (s: Signal)
        requires
            old(self).wf(),
        ensures
            final(self).wf(),
            (final(self)@, s) == call_spec(old(self)@),
    {
        if self.data.len() < 1 {
            return self.underflow(Fault::StackUnderflow);
        }
        let t = self.tos();
        let keep = self.data.len() - 1;
        self.enter(t, keep)
    }

    fn inst_ccall(&mut self) -> (s: Signal)
        requires
            old(self).wf(),
        ensures
            final(self).wf(),
            (final(self)@, s) == ccall_spec(old(self)@),
    {
        if self.data.len() < 2 {
            return self.underflow(Fault::StackUnderflow);
        }
        let t = self.tos();
        let f = self.nos();
        let keep = self.data.len() - 2;
        if f != 0 {
            self.enter(t, keep)
        } else {
            self.drop_n(2);
            Signal::Running
        }
    }

    fn inst_return(&mut self) -> (s: Signal)
        requires
            old(self).wf(),
        ensures
            final(self).wf(),
            (final(self)@, s) == return_spec(old(self)@),
    {
        if self.address.len() < 1 {
            return self.underflow(Fault::ReturnUnderflow);
        }
        let r = self.address[self.address.len() - 1];
        self.address.pop();
        self.ip = r as i64;
        Signal::Running
    }

    fn inst_fetch(&mut self) -> (s: Signal)
        requires
            old(self).wf(),
        ensures
            final(self).wf(),
            (final(self)@, s) == fetch_spec(old(self)@),
    {
        if self.data.len() < 1 {
            return self.underflow(Fault::StackUnderflow);
        }
        let addr = self.tos();
        let v: i32 = if addr == -1 {
            (self.data.len() - 1) as i32
        } else if addr == -2 {
            self.address.len() as i32
        } else if addr == -3 {
            IMAGE_SIZE as i32
        } else if addr == -4 {
            i32::MIN
        } else if addr == -5 {
            i32::MAX
        } else if 0 <= addr && (addr as usize) < IMAGE_SIZE {
            self.memory[addr as usize]
        } else {
            return Signal::Fault(Fault::AddressOutOfRange);
        };
        self.drop_n(1);
        self.data.push(v);
        Signal::Running
    }

    fn inst_store(&mut self) -> (s: Signal)
        requires
            old(self).wf(),
        ensures
            final(self).wf(),
            (final(self)@, s) == store_spec(old(self)@),
    {
        if self.data.len() < 2 {
            return self.underflow(Fault::StackUnderflow);
        }
        let addr = self.tos();
        let v = self.nos();
        if !(0 <= addr && (addr as usize) < IMAGE_SIZE) {
            return Signal::Fault(Fault::AddressOutOfRange);
        }
        self.memory.set(addr as usize, v);
        self.drop_n(2);
        Signal::Running
    }

    fn inst_divmod(&mut self) -> (s: Signal)
        requires
            old(self).wf(),
        ensures
            final(self).wf(),
            (final(self)@, s) == divmod_spec(old(self)@),
    {
        if self.data.len() < 2 {
            return self.underflow(Fault::StackUnderflow);
        }
        let a = self.tos();
        let b = self.nos();
        if a == 0 {
            return Signal::Fault(Fault::DivideByZero);
        }
        let (q, r) = divide(b, a);
        self.drop_n(2);
        self.data.push(r);
        self.data.push(q);
        Signal::Running
    }

    fn inst_zret(&mut self) -> (s: Signal)
        requires
            old(self).wf(),
        ensures
            final(self).wf(),
            (final(self)@, s) == zret_spec(old(self)@),
    {
        if self.data.len() < 1 {
            return self.underflow(Fault::StackUnderflow);
        }
        if self.tos() != 0 {
            return Signal::Running;
        }
        if self.address.len() < 1 {
            return self.underflow(Fault::ReturnUnderflow);
        }
        self.drop_n(1);
        let r = self.address[self.address.len() - 1];
        self.address.pop();
        self.ip = r as i64;
        Signal::Running
    }

    fn inst_halt(&mut self) -> (s: Signal)
        requires
            old(self).wf(),
        ensures
            final(self).wf(),
            (final(self)@, s) == op_spec(old(self)@, OP_HALT),
    {
        self.ip = IMAGE_SIZE as i64;
        Signal::Running
    }

    fn inst_io_count(&mut self) -> (s: Signal)
        requires
            old(self).wf(),
        ensures
            final(self).wf(),
            (final(self)@, s) == io_count_spec(old(self)@),
    {
        if self.data.len() >= STACK_DEPTH {
            return Signal::Fault(Fault::StackOverflow);
        }
        self.data.push(NUM_DEVICES as i32);
        Signal::Running
    }

    fn inst_io_query(&mut self) -> (s: Signal)
        requires
            old(self).wf(),
        ensures
            final(self).wf(),
            (final(self)@, s) == io_query_spec(old(self)@),
    {
        if self.data.len() < 1 {
            return self.underflow(Fault::StackUnderflow);
        }
        let d = self.tos();
        if !(0 <= d && (d as usize) < NUM_DEVICES) {
            return Signal::Fault(Fault::UnknownDevice);
        }
        if self.data.len() + 1 > STACK_DEPTH {
            return Signal::Fault(Fault::StackOverflow);
        }
        let (a, b) = if d == DEVICE_OUTPUT {
            (0i32, 0i32)
        } else {
            (0i32, 1i32)
        };
        self.drop_n(1);
        self.data.push(a);
        self.data.push(b);
        Signal::Running
    }

    fn inst_io_invoke(&mut self) -> (s: Signal)
        requires
            old(self).wf(),
        ensures
            final(self).wf(),
            (final(self)@, s) == io_invoke_spec(old(self)@),
    {
        if self.data.len() < 1 {
            return self.underflow(Fault::StackUnderflow);
        }
        let d = self.tos();
        if d == DEVICE_OUTPUT {
            if self.data.len() < 2 {
                return self.underflow(Fault::StackUnderflow);
            }
            let c = self.nos();
            self.drop_n(2);
            Signal::Output(c as u8)
        } else if d == DEVICE_INPUT {
            self.drop_n(1);
            Signal::Input
        } else {
            Signal::Fault(Fault::UnknownDevice)
        }
    }
}

/// Opcode in slot `k` of a bundle.
pub fn opcode(cell: i32, k: u8) -> (r: u8)
    requires
        k < 4,
    ensures
        r == opcode_at(cell, k as nat),
{
    let sh: u32 = 8 * (k as u32);
    (((cell as u32) >> sh) & 0xffu32) as u8
}

/// Whether every slot of the bundle holds a defined opcode.
pub fn bundle_is_valid(cell: i32) -> (r: bool)
    ensures
        r == valid_bundle(cell),
{
    let r = opcode(cell, 0) <= MAX_OPCODE && opcode(cell, 1) <= MAX_OPCODE && opcode(cell, 2)
        <= MAX_OPCODE && opcode(cell, 3) <= MAX_OPCODE;
    proof {
        if r {
            assert forall|k: nat| k < 4 implies #[trigger] opcode_at(cell, k) <= MAX_OPCODE by {
                assert(k == 0 || k == 1 || k == 2 || k == 3);
            }
        } else {
            assert(!(opcode_at(cell, 0) <= MAX_OPCODE) || !(opcode_at(cell, 1) <= MAX_OPCODE) || !(
            opcode_at(cell, 2) <= MAX_OPCODE) || !(opcode_at(cell, 3) <= MAX_OPCODE));
        }
    }
    r
}

impl NgaVm {
    /// The two top data cells as (next, top), when there are two.
    fn operands(&self) -> (r: Option<(i32, i32)>)
        ensures
            self@.depth() < 2 ==> r is None,
            self@.depth() >= 2 ==> r == Some((self@.nos(), self@.tos())),
    {
        if self.data.len() < 2 {
            None
        } else {
            Some((self.nos(), self.tos()))
        }
    }

    /// Run one opcode.
    pub fn execute_instruction(&mut self, op: u8) -> (s: Signal)
        requires
            old(self).wf(),
        ensures
            final(self).wf(),
            (final(self)@, s) == op_spec(old(self)@, op),
    {
        if op == OP_LIT {
            self.inst_lit()
        } else if op == OP_DUP {
            self.inst_dup()
        } else if op == OP_DROP {
            self.inst_drop()
        } else if op == OP_SWAP {
            self.inst_swap()
        } else if op == OP_PUSH {
            self.inst_push()
        } else if op == OP_POP {
            self.inst_pop()
        } else if op == OP_JUMP {
            self.inst_jump()
        } else if op == OP_CALL {
            self.inst_call()
        } else if op == OP_CCALL {
            self.inst_ccall()
        } else if op == OP_RETURN {
            self.inst_return()
        } else if op == OP_FETCH {
            self.inst_fetch()
        } else if op == OP_STORE {
            self.inst_store()
        } else if op == OP_DIVMOD {
            self.inst_divmod()
        } else if op == OP_ZRET {
            self.inst_zret()
        } else if op == OP_HALT {
            self.inst_halt()
        } else if op == OP_IO_COUNT {
            self.inst_io_count()
        } else if op == OP_IO_QUERY {
            self.inst_io_query()
        } else if op == OP_IO_INVOKE {
            self.inst_io_invoke()
        } else if op == OP_EQ || op == OP_NEQ || op == OP_LT || op == OP_GT || op == OP_ADD || op
            == OP_SUB || op == OP_MUL || op == OP_AND || op == OP_OR || op == OP_XOR || op
            == OP_SHIFT {
            match self.operands() {
                None => self.underflow(Fault::StackUnderflow),
                Some((b, a)) => {
                    let r = if op == OP_EQ {
                        if b == a { -1i32 } else { 0i32 }
                    } else if op == OP_NEQ {
                        if b != a { -1i32 } else { 0i32 }
                    } else if op == OP_LT {
                        if b < a { -1i32 } else { 0i32 }
                    } else if op == OP_GT {
                        if b > a { -1i32 } else { 0i32 }
                    } else if op == OP_ADD {
                        b.wrapping_add(a)
                    } else if op == OP_SUB {
                        b.wrapping_sub(a)
                    } else if op == OP_MUL {
                        b.wrapping_mul(a)
                    } else if op == OP_AND {
                        b & a
                    } else if op == OP_OR {
                        b | a
                    } else if op == OP_XOR {
                        b ^ a
                    } else {
                        shift(b, a)
                    };
                    self.binary(r)
                },
            }
        } else {
            Signal::Running
        }
    }

    /// Move past the slot that just ran.
    fn advance(&mut self)
        requires
            old(self).wf(),
        ensures
            final(self).wf(),
            final(self)@ == advance(old(self)@),
    {
        if self.slot < 3 {
            self.slot = self.slot + 1;
        } else {
            self.slot = 0;
            if self.address.len() == 0 || self.ip >= IMAGE_SIZE as i64 {
                self.ip = IMAGE_SIZE as i64;
            } else {
                self.ip = self.ip + 1;
            }
        }
    }

    /// Run the current slot of the current bundle.
    fn run_slot(&mut self) -> (s: Signal)
        requires
            old(self).wf(),
        ensures
            final(self).wf(),
            (final(self)@, s) == run_slot(old(self)@),
    {
        let op = opcode(self.bundle, self.slot);
        let s = self.execute_instruction(op);
        match s {
            Signal::Finished => s,
            Signal::Fault(_) => s,
            _ => {
                self.advance();
                s
            },
        }
    }

    /// Run one slot, fetching and checking a bundle first at a bundle boundary.
    pub fn step(&mut self) -> (s: Signal)
        requires
            old(self).wf(),
        ensures
            final(self).wf(),
            (final(self)@, s) == step_spec(old(self)@),
    {
        if self.slot == 0 {
            if self.ip >= IMAGE_SIZE as i64 {
                return Signal::Finished;
            }
            if self.ip < 0 {
                return Signal::Fault(Fault::AddressOutOfRange);
            }
            if self.ip == self.watch && !self.announced {
                self.announced = true;
                return Signal::UnknownWord;
            }
            let cell = self.memory[self.ip as usize];
            self.bundle = cell;
            self.announced = false;
            let strict = match self.policy {
                Policy::Strict => true,
                Policy::Lenient => false,
            };
            if strict && !bundle_is_valid(cell) {
                return Signal::Fault(Fault::InvalidOpcode);
            }
        }
        self.run_slot()
    }

    /// Take up to `fuel` steps from where the machine stands, stopping at the
    /// first signal other than `Running`; `Running` means the fuel ran out.
    pub fn resume(&mut self, fuel: u64) -> (s: Signal)
        requires
            old(self).wf(),
        ensures
            final(self).wf(),
            (final(self)@, s) == run_spec(old(self)@, fuel as nat),
    {
        let mut left = fuel;
        while left > 0
            invariant
                self.wf(),
                run_spec(self@, left as nat) == run_spec(old(self)@, fuel as nat),
            decreases left,
        {
            let s = self.step();
            if s != Signal::Running {
                return s;
            }
            left = left - 1;
        }
        Signal::Running
    }

    /// Start a run at `entry` with one frame on the return stack, and take up to
    /// `fuel` steps.
    pub fn execute(&mut self, entry: i32, fuel: u64) -> (s: Signal)
        requires
            old(self).wf(),
        ensures
            final(self).wf(),
            (final(self)@, s) == run_spec(entered(old(self)@, entry), fuel as nat),
    {
        self.ip = entry as i64;
        self.slot = 0;
        self.announced = false;
        self.address.clear();
        self.address.push(0);
        proof {
            assert(self@ == entered(old(self)@, entry));
        }
        self.resume(fuel)
    }

    /// Hand a byte read from the input device to a machine that asked for it.
    pub fn supply_input(&mut self, byte: u8) -> (s: Signal)
        requires
            old(self).wf(),
        ensures
            final(self).wf(),
            (final(self)@, s) == input_spec(old(self)@, byte),
    {
        if self.data.len() >= STACK_DEPTH {
            return Signal::Fault(Fault::StackOverflow);
        }
        let v: i32 = match self.policy {
            Policy::Strict => if byte == 127 { 8 } else { byte as i32 },
            Policy::Lenient => byte as i32,
        };
        self.data.push(v);
        Signal::Running
    }
}

impl NgaVm {
    /// The data stack, bottom first.
    pub fn data_stack(&self) -> (r: &[i32])
        ensures
            r@ == self@.data,
    {
        self.data.as_slice()
    }

    /// The return stack, bottom first.
    pub fn return_stack(&self) -> (r: &[i32])
        ensures
            r@ == self@.rets,
    {
        self.address.as_slice()
    }

    pub fn ip(&self) -> (r: i64)
        ensures
            r == self@.ip,
    {
        self.ip
    }

    pub fn policy(&self) -> (r: Policy)
        ensures
            r == self@.policy,
    {
        self.policy
    }

    /// The cell at `addr`.
    pub fn cell(&self, addr: usize) -> (r: i32)
        requires
            self.wf(),
            addr < IMAGE_SIZE,
        ensures
            r == self@.memory[addr as int],
    {
        self.memory[addr]
    }

    /// Write `value` at `addr`.
    pub fn set_cell(&mut self, addr: usize, value: i32)
        requires
            old(self).wf(),
            addr < IMAGE_SIZE,
        ensures
            final(self).wf(),
            final(self)@ == (Machine {
                memory: old(self)@.memory.update(addr as int, value),
                ..old(self)@
            }),
    {
        self.memory.set(addr, value);
    }

    /// Announce every bundle fetched at `addr` with `Signal::UnknownWord`.
    pub fn set_watch(&mut self, addr: i32)
        requires
            old(self).wf(),
        ensures
            final(self).wf(),
            final(self)@ == (Machine { watch: addr as int, ..old(self)@ }),
    {
        self.watch = addr as i64;
    }

    /// Push `value` on the data stack; false, with nothing changed, when it is full.
    pub fn push_data(&mut self, value: i32) -> (r: bool)
        requires
            old(self).wf(),
        ensures
            final(self).wf(),
            r == (old(self)@.depth() < STACK_DEPTH),
            r ==> final(self)@ == old(self)@.with_data(old(self)@.data.push(value)),
            !r ==> final(self)@ == old(self)@,
    {
        if self.data.len() >= STACK_DEPTH {
            return false;
        }
        self.data.push(value);
        true
    }
}

} // verus!
