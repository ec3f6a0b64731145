//! Properties of the machine that hold for every state, proved from its semantics.
use vstd::prelude::*;

use crate::semantics::{
    abs, advance, run_slot, cell_div, cell_rem, op_spec, opcode_at, step_spec, trunc_div, trunc_rem,
    valid_bundle, Machine, Policy, Signal, IMAGE_SIZE, STACK_DEPTH, MAX_OPCODE, OP_ADD, OP_AND, OP_DIVMOD, OP_DROP,
    OP_DUP, OP_EQ, OP_FETCH, OP_GT, OP_IO_COUNT, OP_IO_INVOKE, OP_IO_QUERY, OP_LIT, OP_LT, OP_MUL,
    OP_NEQ, OP_NOP, OP_OR, OP_POP, OP_PUSH, OP_SHIFT, OP_STORE, OP_SUB, OP_SWAP, OP_XOR,
};

verus! {

/// Opcodes that never move the instruction pointer.
pub open spec fn keeps_ip(op: u8) -> bool {
    op == OP_NOP || op == OP_DUP || op == OP_DROP || op == OP_SWAP || op == OP_PUSH || op == OP_POP
        || op == OP_EQ || op == OP_NEQ || op == OP_LT || op == OP_GT || op == OP_FETCH || op
        == OP_STORE || op == OP_ADD || op == OP_SUB || op == OP_MUL || op == OP_DIVMOD || op
        == OP_AND || op == OP_OR || op == OP_XOR || op == OP_SHIFT || op == OP_IO_COUNT || op
        == OP_IO_QUERY || op == OP_IO_INVOKE
}

/// Opcodes that keep the instruction pointer under a policy: under `Lenient`
/// the undefined bytes do nothing, so they keep it too.
pub open spec fn keeps_ip_under(policy: Policy, op: u8) -> bool {
    keeps_ip(op) || (policy == Policy::Lenient && op > MAX_OPCODE)
}

/// Cells an opcode takes from the instruction stream beyond its bundle.
pub open spec fn extra_cells(op: u8) -> int {
    if op == OP_LIT { 1 } else { 0 }
}

/// A signal that ends a run where it stands.
pub open spec fn stops(s: Signal) -> bool {
    s is Finished || s is Fault
}

/// The state after `n` steps.
pub open spec fn after(m: Machine, n: nat) -> Machine
    decreases n,
{
    if n == 0 { m } else { step_spec(after(m, (n - 1) as nat)).0 }
}

/// Opcode 0 does nothing, in every state.
pub proof fn law_nop(m: Machine)
    ensures
        op_spec(m, OP_NOP) == (m, Signal::Running),
{
}

/// Every opcode byte, defined or not, takes a well-formed state to a
/// well-formed state.
pub proof fn law_opcode_total(m: Machine, op: u8)
    requires
        m.wf(),
    ensures
        op_spec(m, op).0.wf(),
{
}

/// What any opcode leaves of the bundle bookkeeping and the instruction pointer.
proof fn lemma_op_frame(m: Machine, op: u8)
    requires
        m.wf(),
        keeps_ip_under(m.policy, op) || op == OP_LIT,
    ensures
        op_spec(m, op).0.policy == m.policy,
        op_spec(m, op).0.bundle == m.bundle,
        op_spec(m, op).0.slot == m.slot,
        op_spec(m, op).0.watch == m.watch,
        !stops(op_spec(m, op).1) ==> op_spec(m, op).0.ip == m.ip + extra_cells(op),
{
}

/// One slot of a bundle holding only opcodes that keep the instruction pointer
/// or fetch a literal.
proof fn lemma_slot(m: Machine)
    requires
        m.wf(),
        m.slot != 0,
        keeps_ip_under(m.policy, opcode_at(m.bundle, m.slot)) || opcode_at(m.bundle, m.slot)
            == OP_LIT,
        !stops(step_spec(m).1),
    ensures
        op_spec(m, opcode_at(m.bundle, m.slot)).0.policy == m.policy,
        step_spec(m).0 == advance(op_spec(m, opcode_at(m.bundle, m.slot)).0),
        op_spec(m, opcode_at(m.bundle, m.slot)).0.slot == m.slot,
        op_spec(m, opcode_at(m.bundle, m.slot)).0.bundle == m.bundle,
        op_spec(m, opcode_at(m.bundle, m.slot)).0.ip == m.ip + extra_cells(
            opcode_at(m.bundle, m.slot),
        ),
        op_spec(m, opcode_at(m.bundle, m.slot)).0.wf(),
{
    lemma_op_frame(m, opcode_at(m.bundle, m.slot));
    law_opcode_total(m, opcode_at(m.bundle, m.slot));
}

/// A bundle of opcodes that keep the instruction pointer, except for literal
/// fetches, moves the instruction pointer past itself and past one cell for
/// each literal, provided no slot stops the run and the return stack is not
/// empty at its end.
pub proof fn lemma_bundle_ip(m: Machine)
    requires
        m.wf(),
        m.slot == 0,
        0 <= m.ip < IMAGE_SIZE,
        !(m.ip == m.watch && !m.announced),
        forall|k: nat|
            k < 4 ==> keeps_ip_under(m.policy, #[trigger] opcode_at(m.memory[m.ip], k))
                || opcode_at(m.memory[m.ip], k) == OP_LIT,
        forall|k: nat| k < 4 ==> !stops(#[trigger] step_spec(after(m, k)).1),
        after(m, 4).rets.len() > 0,
    ensures
        after(m, 1).slot == 1 && after(m, 1).bundle == m.memory[m.ip],
        after(m, 2).slot == 2 && after(m, 2).bundle == m.memory[m.ip],
        after(m, 3).slot == 3 && after(m, 3).bundle == m.memory[m.ip],
        after(m, 1).ip == m.ip + extra_cells(opcode_at(m.memory[m.ip], 0)),
        after(m, 2).ip == after(m, 1).ip + extra_cells(opcode_at(m.memory[m.ip], 1)),
        after(m, 3).ip == after(m, 2).ip + extra_cells(opcode_at(m.memory[m.ip], 2)),
        after(m, 1).wf() && after(m, 2).wf() && after(m, 3).wf(),
        after(m, 1).policy == m.policy && after(m, 2).policy == m.policy && after(m, 3).policy
            == m.policy,
        after(m, 4).slot == 0,
        after(m, 4).ip == m.ip + 1 + extra_cells(opcode_at(m.memory[m.ip], 0)) + extra_cells(
            opcode_at(m.memory[m.ip], 1),
        ) + extra_cells(opcode_at(m.memory[m.ip], 2)) + extra_cells(opcode_at(m.memory[m.ip], 3)),
{
    let cell = m.memory[m.ip];
    let e0 = extra_cells(opcode_at(cell, 0));
    let e1 = extra_cells(opcode_at(cell, 1));
    let e2 = extra_cells(opcode_at(cell, 2));
    let e3 = extra_cells(opcode_at(cell, 3));
    if m.policy == Policy::Strict {
        assert(valid_bundle(cell)) by {
            assert forall|k: nat| k < 4 implies #[trigger] opcode_at(cell, k) <= MAX_OPCODE by {
                assert(keeps_ip_under(m.policy, opcode_at(cell, k)) || opcode_at(cell, k)
                    == OP_LIT);
            }
        }
    }
    let f = Machine { bundle: cell, announced: false, ..m };
    assert(!stops(step_spec(after(m, 0)).1));
    lemma_op_frame(f, opcode_at(cell, 0));
    law_opcode_total(f, opcode_at(cell, 0));
    let m1 = after(m, 1);
    assert(m1 == step_spec(m).0);
    assert(m1 == advance(op_spec(f, opcode_at(cell, 0)).0));
    assert(m1.slot == 1 && m1.bundle == cell && m1.ip == m.ip + e0 && m1.wf() && m1.policy == m.policy);

    assert(!stops(step_spec(after(m, 1)).1));
    lemma_slot(m1);
    let m2 = after(m, 2);
    assert(m2 == step_spec(m1).0);
    assert(m2.slot == 2 && m2.bundle == cell && m2.ip == m.ip + e0 + e1 && m2.wf() && m2.policy == m.policy);

    assert(!stops(step_spec(after(m, 2)).1));
    lemma_slot(m2);
    let m3 = after(m, 3);
    assert(m3 == step_spec(m2).0);
    assert(m3.slot == 3 && m3.bundle == cell && m3.ip == m.ip + e0 + e1 + e2 && m3.wf() && m3.policy == m.policy);

    assert(!stops(step_spec(after(m, 3)).1));
    lemma_slot(m3);
    let m4 = after(m, 4);
    assert(m4 == step_spec(m3).0);
    let n = op_spec(m3, opcode_at(cell, 3)).0;
    assert(n.ip == m.ip + e0 + e1 + e2 + e3);
    assert(n.rets == m4.rets);
    assert(n.ip < IMAGE_SIZE) by {
        if e0 + e1 + e2 + e3 > 0 {
            assert(0 <= n.ip < IMAGE_SIZE);
        }
    }
}

/// A bundle with no literal fetch and no control transfer takes exactly one
/// cell: after its four slots the next bundle is the next cell. Under
/// `Lenient` its slots may also hold undefined bytes, which do nothing.
pub proof fn law_bundle_is_one_cell(m: Machine)
    requires
        m.wf(),
        m.slot == 0,
        0 <= m.ip < IMAGE_SIZE,
        !(m.ip == m.watch && !m.announced),
        forall|k: nat| k < 4 ==> keeps_ip_under(m.policy, #[trigger] opcode_at(m.memory[m.ip], k)),
        forall|k: nat| k < 4 ==> !stops(#[trigger] step_spec(after(m, k)).1),
        after(m, 4).rets.len() > 0,
    ensures
        after(m, 4).slot == 0,
        after(m, 4).ip == m.ip + 1,
{
    let cell = m.memory[m.ip];
    assert(keeps_ip_under(m.policy, opcode_at(cell, 0)) && keeps_ip_under(m.policy, opcode_at(cell, 1))
        && keeps_ip_under(m.policy, opcode_at(cell, 2)) && keeps_ip_under(m.policy, opcode_at(cell, 3)));
    lemma_bundle_ip(m);
}

/// A bundle with one literal fetch, in any slot `k`, and otherwise no control
/// transfer takes two cells: the bundle and the literal, which slot `k` pushes
/// as memory holds it when that slot runs.
/// Under `Lenient` its other slots may also hold undefined bytes.
pub proof fn law_literal_bundle(m: Machine, k: nat)
    requires
        m.wf(),
        m.slot == 0,
        0 <= m.ip < IMAGE_SIZE,
        !(m.ip == m.watch && !m.announced),
        k < 4,
        opcode_at(m.memory[m.ip], k) == OP_LIT,
        forall|j: nat|
            j < 4 && j != k ==> keeps_ip_under(m.policy, #[trigger] opcode_at(m.memory[m.ip], j)),
        forall|j: nat| j < 4 ==> !stops(#[trigger] step_spec(after(m, j)).1),
        after(m, 4).rets.len() > 0,
    ensures
        after(m, 4).slot == 0,
        after(m, 4).ip == m.ip + 2,
        after(m, k + 1).data == after(m, k).data.push(after(m, k).memory[m.ip + 1]),
{
    let cell = m.memory[m.ip];
    assert forall|j: nat| j < 4 implies keeps_ip_under(m.policy, #[trigger] opcode_at(cell, j))
        || opcode_at(cell, j) == OP_LIT by {
        if j != k {
            assert(keeps_ip_under(m.policy, opcode_at(cell, j)));
        }
    }
    assert(k == 0 || k == 1 || k == 2 || k == 3);
    assert(keeps_ip_under(m.policy, opcode_at(cell, 0)) || 0 == k);
    assert(keeps_ip_under(m.policy, opcode_at(cell, 1)) || 1 == k);
    assert(keeps_ip_under(m.policy, opcode_at(cell, 2)) || 2 == k);
    assert(keeps_ip_under(m.policy, opcode_at(cell, 3)) || 3 == k);
    lemma_bundle_ip(m);
    let cell = m.memory[m.ip];
    let mk = after(m, k);
    assert(opcode_at(cell, 0) != OP_LIT || k == 0);
    assert(opcode_at(cell, 1) != OP_LIT || k == 1);
    assert(opcode_at(cell, 2) != OP_LIT || k == 2);
    assert(mk.ip == m.ip && mk.slot == k && mk.wf() && mk.policy == m.policy);
    assert(k > 0 ==> mk.bundle == cell);
    if k == 0 {
        let f = Machine { bundle: cell, announced: false, ..m };
        if m.policy == Policy::Strict {
            assert(valid_bundle(cell)) by {
                assert forall|j: nat| j < 4 implies #[trigger] opcode_at(cell, j) <= MAX_OPCODE by {
                    assert(keeps_ip_under(m.policy, opcode_at(cell, j)) || opcode_at(cell, j)
                        == OP_LIT);
                }
            }
        }
        assert(!stops(step_spec(after(m, 0)).1));
        assert(step_spec(m) == run_slot(f));
    } else {
        assert(!stops(step_spec(after(m, k)).1));
    }
}

/// Division leaves the quotient, rounded toward zero, on top and the remainder
/// below it, and the two rebuild the dividend: `a * (b / a) + b % a == b`.
/// Holds for every nonzero divisor except `i32::MIN / -1`, whose quotient does
/// not fit in a cell.
pub proof fn law_divmod(m: Machine)
    requires
        m.wf(),
        m.depth() >= 2,
        m.tos() != 0,
        !(m.nos() == i32::MIN && m.tos() == -1),
    ensures
        ({
            let (n, s) = op_spec(m, OP_DIVMOD);
            let (a, b) = (m.tos() as int, m.nos() as int);
            &&& s == Signal::Running
            &&& n.data == m.below(2).push(cell_rem(m.nos(), m.tos())).push(
                cell_div(m.nos(), m.tos()),
            )
            &&& n.tos() as int == trunc_div(b, a)
            &&& n.nos() as int == trunc_rem(b, a)
            &&& a * n.tos() + n.nos() == b
        }),
{
    let (a, b) = (m.tos() as int, m.nos() as int);
    let (aa, ab) = (abs(a), abs(b));
    let (q, r) = (ab / aa, ab % aa);
    assert(ab == aa * q + r && 0 <= r < aa && 0 <= q <= ab) by (nonlinear_arith)
        requires
            aa >= 1,
            ab >= 0,
            q == ab / aa,
            r == ab % aa,
    ;
    if b == i32::MIN && aa >= 2 {
        assert(q < ab) by (nonlinear_arith)
            requires
                aa >= 2,
                ab >= 2,
                q == ab / aa,
        ;
    }
    assert(a * trunc_div(b, a) + trunc_rem(b, a) == b) by (nonlinear_arith)
        requires
            aa == abs(a),
            ab == abs(b),
            ab == aa * q + r,
            trunc_div(b, a) == (if (b < 0) == (a < 0) { q } else { -q }),
            trunc_rem(b, a) == (if b < 0 { -r } else { r }),
            a != 0,
    ;
    let n = op_spec(m, OP_DIVMOD).0;
    assert(n.data.len() == m.data.len());
}

/// Comparisons leave exactly -1 or 0, whatever the operands.
pub proof fn law_comparison_flags(m: Machine, op: u8)
    requires
        m.wf(),
        m.depth() >= 2,
        op == OP_EQ || op == OP_NEQ || op == OP_LT || op == OP_GT,
    ensures
        op_spec(m, op).1 == Signal::Running,
        op_spec(m, op).0.tos() == -1 || op_spec(m, op).0.tos() == 0,
        op_spec(m, op).0.depth() == m.depth() - 1,
{
}

/// Fetching from -1 to -5 gives the data depth (without the address), the
/// return depth, the image capacity and the least and greatest cell, whatever
/// memory holds.
pub proof fn law_fetch_queries(m: Machine, mem: Seq<i32>)
    requires
        m.wf(),
        m.depth() >= 1,
        -5 <= m.tos() <= -1,
        mem.len() == IMAGE_SIZE,
    ensures
        ({
            let (n, s) = op_spec(m, OP_FETCH);
            &&& s == Signal::Running
            &&& n.depth() == m.depth()
            &&& m.tos() == -1 ==> n.tos() == m.depth() - 1
            &&& m.tos() == -2 ==> n.tos() == m.rets.len()
            &&& m.tos() == -3 ==> n.tos() == IMAGE_SIZE
            &&& m.tos() == -4 ==> n.tos() == i32::MIN
            &&& m.tos() == -5 ==> n.tos() == i32::MAX
            &&& n.tos() == op_spec(Machine { memory: mem, ..m }, OP_FETCH).0.tos()
        }),
{
}

/// Querying the output device replaces its index by the device's fixed
/// capability pair (0, 0), when the stack has room for the second cell.
pub proof fn law_output_device_query(m: Machine)
    requires
        m.wf(),
        m.depth() >= 1,
        m.depth() < STACK_DEPTH,
        m.tos() == 0,
    ensures
        op_spec(m, OP_IO_QUERY) == (m.with_data(m.below(1).push(0).push(0)), Signal::Running),
{
}

} // verus!
