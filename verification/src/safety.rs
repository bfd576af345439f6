//! The generators' safety argument.
//!
//! A program is accompanied by a witness: one stack-depth bound per program
//! position, the depth that every path reaching that position is guaranteed
//! to provide.  `program_checked` states the conditions the generators
//! establish while emitting code; `lemma_checked_program_runs_safely` proves
//! that interpreting such a program from an empty stack can neither
//! underflow nor overflow the operand stack, nor hit an unknown opcode.

use vstd::prelude::*;

use crate::game_state::GsView;
use crate::instructions::{
    emittable, is_branch, is_known, spec_pops, spec_pushes, takes_operand, ASSERT_EMPTY_STACK,
    GET_DROP_CARD_OR_HALT, GET_GRAB_CARD_OR_HALT, HALT_UNLESS, LITERAL,
};
use crate::semantics::{spec_run, spec_step};
use crate::vm::STACK_SIZE;

verus! {

/// The witness conditions at one position `p` of the program.
///
/// `est[p]` is a lower bound on the operand-stack depth of every run of the
/// machine that reaches position `p` (starting from an empty stack, so the
/// first position's bound is zero), and every byte of the program is a
/// generated instruction deep enough for that bound:
/// - the byte is one the generators emit, so the interpreter knows it;
/// - the instruction's pops fit under the bound, so it cannot underflow;
/// - each way the machine can move from `p` to a following position keeps
///   the bound of that position below the depth the machine carries there:
///   the plain fall-through, the two-byte advance of a literal push, and
///   both outcomes of a branch, including the jump to the branch's target.
pub open spec fn checked_at(prog: Seq<u8>, est: Seq<int>, p: int) -> bool {
    let op = prog[p];
    let n = prog.len() as int;
    &&& emittable(op)
    &&& 0 <= est[p]
    &&& spec_pops(op) <= est[p]
    &&& (!takes_operand(op) && p + 1 < n ==> est[p + 1] <= est[p] - spec_pops(op) + spec_pushes(
        op,
    ))
    &&& (op == LITERAL && p + 2 < n ==> est[p + 2] <= est[p] + 1)
    &&& (is_branch(op) && p + 2 < n ==> est[p + 2] <= est[p] - spec_pops(op))
    &&& (is_branch(op) && p + 1 < n && p + 2 + prog[p + 1] < n ==> est[p + 2 + prog[p + 1]]
        <= est[p] - spec_pops(op))
}

/// The witness holds at every position of the program.
pub open spec fn program_checked(prog: Seq<u8>, est: Seq<int>) -> bool {
    &&& est.len() == prog.len()
    &&& (prog.len() > 0 ==> est[0] == 0)
    &&& forall|p: int| 0 <= p < prog.len() ==> #[trigger] checked_at(prog, est, p)
}

/// A program for which some witness exists: what the generators guarantee.
pub open spec fn safe_program(prog: Seq<u8>) -> bool {
    exists|est: Seq<int>| program_checked(prog, est)
}

/// Restriction soundness, as it survives in the finished program: wherever a
/// branch at `p` can jump to a target `t` inside the program, the depth
/// bound recorded for `t` lies at or below the depth the branch guarantees
/// after popping its operands; and every instruction respects the bound at
/// its own position (it never pops below it).
pub proof fn lemma_restriction_soundness(prog: Seq<u8>, est: Seq<int>, p: int)
    requires
        program_checked(prog, est),
        0 <= p < prog.len(),
    ensures
        spec_pops(prog[p]) <= est[p],
        is_branch(prog[p]) && p + 1 < prog.len() && p + 2 + prog[p + 1] < prog.len() ==> est[p + 2
            + prog[p + 1]] <= est[p] - spec_pops(prog[p]),
{
    assert(checked_at(prog, est, p));
}

/// One safe step: at a checked position, with the machine's depth at least
/// the position's bound and no deeper than the position index, the step
/// cannot fail, and the machine arrives at the next position with its
/// invariant intact.
proof fn lemma_checked_step(s: GsView, prog: Seq<u8>, est: Seq<int>, ip: int)
    requires
        program_checked(prog, est),
        prog.len() <= STACK_SIZE,
        0 <= ip < prog.len(),
        est[ip] <= s.stack.len(),
        s.stack.len() <= ip,
    ensures
        spec_step(s, prog, ip).err is None,
        ({
            let st = spec_step(s, prog, ip);
            &&& st.ip >= ip + 1
            &&& st.state.stack.len() <= st.ip
            &&& st.ip < prog.len() ==> est[st.ip] <= st.state.stack.len()
        }),
{
    assert(checked_at(prog, est, ip));
    let op = prog[ip];
    let st = spec_step(s, prog, ip);
    assert(is_known(op));
    assert(op != ASSERT_EMPTY_STACK && op != HALT_UNLESS && op != GET_GRAB_CARD_OR_HALT && op
        != GET_DROP_CARD_OR_HALT);
    if takes_operand(op) {
        if op == LITERAL {
            assert(st.err is None);
            if st.ip < prog.len() {
                assert(checked_at(prog, est, st.ip));
            }
        } else {
            assert(is_branch(op));
            if ip + 1 < prog.len() {
                let t = ip + 2 + prog[ip + 1];
                if st.ip == t && t < prog.len() {
                    assert(est[t] <= est[ip] - spec_pops(op));
                }
            }
        }
    }
}

/// Safety of a checked program, from any position already inside the run's
/// invariant: the rest of the run cannot fail.
proof fn lemma_run_safe_from(s: GsView, prog: Seq<u8>, est: Seq<int>, ip: int)
    requires
        program_checked(prog, est),
        prog.len() <= STACK_SIZE,
        0 <= ip <= prog.len(),
        ip < prog.len() ==> est[ip] <= s.stack.len(),
        s.stack.len() <= ip,
    ensures
        spec_run(s, prog, ip).err is None,
    decreases prog.len() - ip,
{
    if ip < prog.len() {
        lemma_checked_step(s, prog, est, ip);
        let st = spec_step(s, prog, ip);
        let next = if st.ip > prog.len() {
            prog.len() as int
        } else {
            st.ip
        };
        lemma_run_safe_from(st.state, prog, est, next);
    }
}

/// Safety: interpreting a program that carries a witness, from an empty
/// stack, runs to completion without stack underflow or overflow and
/// without hitting an unassigned opcode — the run reports no error.  Both
/// generators establish the witness for every program they emit (of length
/// at most the stack capacity).
pub proof fn lemma_checked_program_runs_safely(s: GsView, prog: Seq<u8>)
    requires
        safe_program(prog),
        prog.len() <= STACK_SIZE,
        s.stack.len() == 0,
    ensures
        spec_run(s, prog, 0).err is None,
{
    let est = choose|est: Seq<int>| program_checked(prog, est);
    lemma_run_safe_from(s, prog, est, 0);
}

} // verus!
