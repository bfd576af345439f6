//! The machine's semantics as mathematics: one spec-level transition per
//! instruction, and a run function that chains transitions until the program
//! counter leaves the program.
//!
//! The interpreter in `interpreter` is verified against exactly these
//! functions, and the generator safety proof in `safety` is stated over them.

use vstd::prelude::*;

use crate::cards::{spec_cangrab, spec_getcardnum, spec_getsuit};
use crate::game_state::{
    spec_canmovedragons, spec_movecards, spec_movedragons, GsView, MOVE_TIMER_MAX,
};
use crate::instructions::{
    is_binary_op, is_compare_branch, is_compare_op, is_known,
    ADD, AND, ASSERT_EMPTY_STACK, CAN_GRAB, DIV, DROP, EQ, EQ_BRANCH,
    FILL_MOVE_TIMER, FORGET, GET_CARD_NUM, GET_CARD_SUIT, GET_CELL_LEN, GET_DROP_CARD_NUM_OR_255,
    GET_DROP_CARD_OR_255, GET_DROP_CARD_OR_HALT, GET_DROP_CARD_SUIT_OR_255, GET_GRAB_CARD_NUM_OR_255,
    GET_GRAB_CARD_OR_255, GET_GRAB_CARD_OR_HALT, GET_GRAB_CARD_SUIT_OR_255, GET_GRAB_DEPTH,
    GET_GRAB_POS, GET_SELECT_DEPTH, GET_SELECT_DROP, GET_SELECT_POS, GRAB, GT, GT_BRANCH,
    HALT, HALT_UNLESS, HANDLE_BUTTON_PRESS, IF, JUMP, GE, GE_BRANCH, LE, LE_BRANCH, LITERAL, LT,
    LT_BRANCH, MAX, MIN, MOVE_CARDS, MUL, NE, NE_BRANCH, NO_OP, NOT, OR, SET_GRAB_DEPTH,
    SET_GRAB_POS, SET_SELECT_DEPTH, SET_SELECT_POS, SUB,
};
use crate::vm::{VmError, STACK_SIZE};

verus! {

/// Outcome of one fetch/decode/execute step: either the machine fails with an
/// error and is left as it was, or it moves to a new state with the program
/// counter already advanced past the instruction (and past its operand and
/// jump offset, where there is one).
pub ghost struct Step {
    pub err: Option<VmError>,
    pub state: GsView,
    pub ip: int,
}

/// Outcome of running a program to completion or to its first error.
pub ghost struct RunResult {
    pub err: Option<VmError>,
    pub state: GsView,
}

/// The machine's boolean-as-byte convention: false is 0, true is 255.
pub open spec fn spec_stack_bool(b: bool) -> u8 {
    if b {
        255
    } else {
        0
    }
}

/// Result of a binary arithmetic or bitwise opcode on `a` (popped second)
/// and `b` (popped first).  Add, subtract and multiply wrap modulo 256;
/// dividing by zero yields the sentinel 255.
pub open spec fn spec_binop(op: u8, a: u8, b: u8) -> u8 {
    if op == ADD {
        ((a + b) % 256) as u8
    } else if op == SUB {
        ((a + 256 - b) % 256) as u8
    } else if op == MUL {
        ((a * b) % 256) as u8
    } else if op == DIV {
        if b != 0 {
            (a as int / b as int) as u8
        } else {
            255
        }
    } else if op == MAX {
        if a > b {
            a
        } else {
            b
        }
    } else if op == MIN {
        if a < b {
            a
        } else {
            b
        }
    } else if op == AND {
        a & b
    } else {
        a | b
    }
}

/// The comparison a branching or comparison opcode applies to `a` (popped
/// second) and `b` (popped first).
pub open spec fn spec_relation(op: u8, a: u8, b: u8) -> bool {
    if op == EQ_BRANCH || op == EQ {
        a == b
    } else if op == NE_BRANCH || op == NE {
        a != b
    } else if op == GT_BRANCH || op == GT {
        a > b
    } else if op == GE_BRANCH || op == GE {
        a >= b
    } else if op == LT_BRANCH || op == LT {
        a < b
    } else {
        a <= b
    }
}

/// The card under the grab cursor, or the sentinel 255 when the grab pile
/// holds no card at the grab depth.
pub open spec fn spec_grab_card_or_255(v: GsView) -> u8 {
    let pile = v.cells[(v.grabpos & 15) as int];
    if pile.len() == 0 || pile.len() - 1 < v.grabdepth {
        255
    } else {
        pile[pile.len() - 1 - v.grabdepth]
    }
}

/// The top card of the pile under the select cursor, or the sentinel 255
/// when that pile is empty.
pub open spec fn spec_drop_card_or_255(v: GsView) -> u8 {
    let pile = v.cells[(v.selectpos & 15) as int];
    if pile.len() == 0 {
        255
    } else {
        pile.last()
    }
}

/// A step that fails, leaving the machine unchanged.
pub open spec fn step_fail(s: GsView, ip: int, e: VmError) -> Step {
    Step { err: Some(e), state: s, ip }
}

/// A successful step to `state` with the program counter at `ip`.
pub open spec fn step_next(state: GsView, ip: int) -> Step {
    Step { err: None, state, ip }
}

/// A step that pushes `byte`, or fails when the stack is full.
pub open spec fn step_push(s: GsView, ip: int, byte: u8, next_ip: int) -> Step {
    if s.stack.len() < STACK_SIZE {
        step_next(GsView { stack: s.stack.push(byte), ..s }, next_ip)
    } else {
        step_fail(s, ip, VmError::StackOverflow)
    }
}

/// The branch family's program-counter move: the offset byte follows the
/// opcode; a taken branch adds the unsigned offset on top of the two-byte
/// advance, so every jump is forward.  A branch that is the last byte of the
/// program has no offset to read and degrades to a no-op.
pub open spec fn step_branch(s: GsView, code: Seq<u8>, ip: int, cond: bool) -> Step {
    if ip + 1 < code.len() && cond {
        step_next(s, ip + 2 + code[ip + 1])
    } else {
        step_next(s, ip + 2)
    }
}

/// One fetch/decode/execute step of the machine at `ip` (which must lie
/// inside the program).  Halting is modeled as moving the program counter to
/// `code.len()`.
pub open spec fn spec_step(s: GsView, code: Seq<u8>, ip: int) -> Step {
    let op = code[ip];
    let n = code.len() as int;
    let depth = s.stack.len() as int;
    if !is_known(op) {
        step_fail(s, ip, VmError::UnimplementedInstruction)
    } else if op == NO_OP {
        step_next(s, ip + 1)
    } else if op == GRAB {
        step_next(GsView { selectdrop: true, ..s }, ip + 1)
    } else if op == DROP {
        step_next(GsView { selectdrop: false, ..s }, ip + 1)
    } else if op == FILL_MOVE_TIMER {
        step_next(GsView { movetimer: MOVE_TIMER_MAX, ..s }, ip + 1)
    } else if op == LITERAL {
        if ip + 1 < n {
            step_push(s, ip, code[ip + 1], ip + 2)
        } else {
            step_next(s, ip + 2)
        }
    } else if op == FORGET {
        if depth >= 1 {
            step_next(GsView { stack: s.stack.drop_last(), ..s }, ip + 1)
        } else {
            step_fail(s, ip, VmError::StackUnderflow)
        }
    } else if is_binary_op(op) {
        if depth >= 2 {
            let b = s.stack.last();
            let a = s.stack[depth - 2];
            let popped = s.stack.drop_last().drop_last();
            step_next(GsView { stack: popped.push(spec_binop(op, a, b)), ..s }, ip + 1)
        } else {
            step_fail(s, ip, VmError::StackUnderflow)
        }
    } else if op == NOT {
        if depth >= 1 {
            let a = s.stack.last();
            step_next(
                GsView { stack: s.stack.drop_last().push(spec_stack_bool(a == 0)), ..s },
                ip + 1,
            )
        } else {
            step_fail(s, ip, VmError::StackUnderflow)
        }
    } else if is_compare_op(op) {
        if depth >= 2 {
            let b = s.stack.last();
            let a = s.stack[depth - 2];
            let popped = s.stack.drop_last().drop_last();
            step_next(
                GsView { stack: popped.push(spec_stack_bool(spec_relation(op, a, b))), ..s },
                ip + 1,
            )
        } else {
            step_fail(s, ip, VmError::StackUnderflow)
        }
    } else if op == IF {
        if depth >= 1 {
            let a = s.stack.last();
            step_branch(GsView { stack: s.stack.drop_last(), ..s }, code, ip, a != 0)
        } else {
            step_fail(s, ip, VmError::StackUnderflow)
        }
    } else if is_compare_branch(op) {
        if depth >= 2 {
            let b = s.stack.last();
            let a = s.stack[depth - 2];
            step_branch(
                GsView { stack: s.stack.drop_last().drop_last(), ..s },
                code,
                ip,
                spec_relation(op, a, b),
            )
        } else {
            step_fail(s, ip, VmError::StackUnderflow)
        }
    } else if op == JUMP {
        step_branch(s, code, ip, true)
    } else if op == GET_SELECT_POS {
        step_push(s, ip, s.selectpos, ip + 1)
    } else if op == GET_SELECT_DEPTH {
        step_push(s, ip, s.selectdepth, ip + 1)
    } else if op == GET_GRAB_POS {
        step_push(s, ip, s.grabpos, ip + 1)
    } else if op == GET_GRAB_DEPTH {
        step_push(s, ip, s.grabdepth, ip + 1)
    } else if op == SET_SELECT_POS {
        if depth >= 1 {
            step_next(
                GsView { selectpos: s.stack.last() & 15, stack: s.stack.drop_last(), ..s },
                ip + 1,
            )
        } else {
            step_fail(s, ip, VmError::StackUnderflow)
        }
    } else if op == SET_SELECT_DEPTH {
        if depth >= 1 {
            step_next(
                GsView { selectdepth: s.stack.last(), stack: s.stack.drop_last(), ..s },
                ip + 1,
            )
        } else {
            step_fail(s, ip, VmError::StackUnderflow)
        }
    } else if op == SET_GRAB_POS {
        if depth >= 1 {
            step_next(
                GsView { grabpos: s.stack.last() & 15, stack: s.stack.drop_last(), ..s },
                ip + 1,
            )
        } else {
            step_fail(s, ip, VmError::StackUnderflow)
        }
    } else if op == SET_GRAB_DEPTH {
        if depth >= 1 {
            step_next(
                GsView { grabdepth: s.stack.last(), stack: s.stack.drop_last(), ..s },
                ip + 1,
            )
        } else {
            step_fail(s, ip, VmError::StackUnderflow)
        }
    } else if op == CAN_GRAB {
        step_push(
            s,
            ip,
            spec_stack_bool(spec_cangrab(s.cells, s.selectpos, s.selectdepth)),
            ip + 1,
        )
    } else if op == HANDLE_BUTTON_PRESS {
        if spec_canmovedragons(s.cells, s.selectdepth) {
            let moved = GsView { cells: spec_movedragons(s.cells, s.selectdepth), ..s };
            step_next(
                GsView { selectdrop: false, movetimer: MOVE_TIMER_MAX, ..moved },
                ip + 1,
            )
        } else {
            step_next(s, ip + 1)
        }
    } else if op == ASSERT_EMPTY_STACK {
        if depth == 0 {
            step_next(s, ip + 1)
        } else {
            step_fail(s, ip, VmError::NonEmptyStackAssertion)
        }
    } else if op == HALT_UNLESS {
        if depth >= 1 {
            let a = s.stack.last();
            let popped = GsView { stack: s.stack.drop_last(), ..s };
            if a == 0 {
                step_next(popped, n)
            } else {
                step_next(popped, ip + 1)
            }
        } else {
            step_fail(s, ip, VmError::StackUnderflow)
        }
    } else if op == GET_GRAB_CARD_OR_HALT {
        let card = spec_grab_card_or_255(s);
        if card == 255 {
            step_next(s, n)
        } else {
            step_push(s, ip, card, ip + 1)
        }
    } else if op == GET_DROP_CARD_OR_HALT {
        let card = spec_drop_card_or_255(s);
        if card == 255 {
            step_next(s, n)
        } else {
            step_push(s, ip, card, ip + 1)
        }
    } else if op == GET_GRAB_CARD_NUM_OR_255 {
        let card = spec_grab_card_or_255(s);
        step_push(s, ip, if card == 255 { 255u8 } else { spec_getcardnum(card) }, ip + 1)
    } else if op == GET_DROP_CARD_NUM_OR_255 {
        let card = spec_drop_card_or_255(s);
        step_push(s, ip, if card == 255 { 255u8 } else { spec_getcardnum(card) }, ip + 1)
    } else if op == GET_GRAB_CARD_SUIT_OR_255 {
        let card = spec_grab_card_or_255(s);
        step_push(s, ip, if card == 255 { 255u8 } else { spec_getsuit(card) }, ip + 1)
    } else if op == GET_DROP_CARD_SUIT_OR_255 {
        let card = spec_drop_card_or_255(s);
        step_push(s, ip, if card == 255 { 255u8 } else { spec_getsuit(card) }, ip + 1)
    } else if op == GET_CARD_NUM {
        if depth >= 1 {
            let card = s.stack.last();
            step_next(
                GsView { stack: s.stack.drop_last().push(spec_getcardnum(card)), ..s },
                ip + 1,
            )
        } else {
            step_fail(s, ip, VmError::StackUnderflow)
        }
    } else if op == GET_CARD_SUIT {
        if depth >= 1 {
            let card = s.stack.last();
            step_next(
                GsView { stack: s.stack.drop_last().push(spec_getsuit(card)), ..s },
                ip + 1,
            )
        } else {
            step_fail(s, ip, VmError::StackUnderflow)
        }
    } else if op == GET_GRAB_CARD_OR_255 {
        step_push(s, ip, spec_grab_card_or_255(s), ip + 1)
    } else if op == GET_DROP_CARD_OR_255 {
        step_push(s, ip, spec_drop_card_or_255(s), ip + 1)
    } else if op == MOVE_CARDS {
        // the drop position is popped first (pushed last), then the grab
        // depth, then the grab position
        if depth >= 3 {
            let droppos = s.stack.last();
            let grabdepth = s.stack[depth - 2];
            let grabpos = s.stack[depth - 3];
            let popped = s.stack.drop_last().drop_last().drop_last();
            step_next(
                GsView {
                    cells: spec_movecards(s.cells, grabpos, grabdepth, droppos),
                    stack: popped,
                    ..s
                },
                ip + 1,
            )
        } else {
            step_fail(s, ip, VmError::StackUnderflow)
        }
    } else if op == GET_SELECT_DROP {
        step_push(s, ip, spec_stack_bool(s.selectdrop), ip + 1)
    } else if op == GET_CELL_LEN {
        step_push(s, ip, (s.cells[(s.selectpos & 15) as int].len() % 256) as u8, ip + 1)
    } else {
        // HALT
        step_next(s, n)
    }
}

/// Run the machine from `ip` until the program counter leaves the program or
/// a step fails.  Jumps are strictly forward, so the program counter grows
/// by at least one each step and the run always terminates.
pub open spec fn spec_run(s: GsView, code: Seq<u8>, ip: int) -> RunResult
    decreases (if ip <= code.len() {
        code.len() - ip
    } else {
        0int
    }),
{
    if ip < 0 || ip >= code.len() {
        RunResult { err: None, state: s }
    } else {
        let st = spec_step(s, code, ip);
        if st.err is Some {
            RunResult { err: st.err, state: st.state }
        } else {
            let next = if st.ip < ip + 1 {
                ip + 1
            } else if st.ip > code.len() {
                code.len() as int
            } else {
                st.ip
            };
            spec_run(st.state, code, next)
        }
    }
}

/// The program counters an error-free run visits, as the interpreter records
/// them: for each executed instruction, the counter after the instruction's
/// own advances and before the loop's final increment.
pub open spec fn spec_run_trace(s: GsView, code: Seq<u8>, ip: int) -> Seq<int>
    decreases (if ip <= code.len() {
        code.len() - ip
    } else {
        0int
    }),
{
    if ip < 0 || ip >= code.len() {
        Seq::<int>::empty()
    } else {
        let st = spec_step(s, code, ip);
        if st.err is Some {
            Seq::<int>::empty()
        } else {
            let next = if st.ip < ip + 1 {
                ip + 1
            } else if st.ip > code.len() {
                code.len() as int
            } else {
                st.ip
            };
            seq![st.ip - 1] + spec_run_trace(st.state, code, next)
        }
    }
}

/// Every step moves the program counter forward: at least one byte, and past
/// the operand byte of the two-byte instructions.  This is the forward-only
/// property the termination bound rests on.
pub proof fn lemma_step_advances(s: GsView, code: Seq<u8>, ip: int)
    requires
        0 <= ip < code.len(),
        spec_step(s, code, ip).err is None,
    ensures
        spec_step(s, code, ip).ip >= ip + 1,
{
}

/// An error-free run visits at most one instruction per remaining program
/// byte: interpretation from `ip` performs at most `code.len() - ip` steps.
pub proof fn lemma_run_trace_len(s: GsView, code: Seq<u8>, ip: int)
    requires
        0 <= ip <= code.len(),
    ensures
        spec_run_trace(s, code, ip).len() <= code.len() - ip,
    decreases code.len() - ip,
{
    if ip < code.len() {
        let st = spec_step(s, code, ip);
        if st.err is None {
            lemma_step_advances(s, code, ip);
            let next = if st.ip < ip + 1 {
                ip + 1
            } else if st.ip > code.len() {
                code.len() as int
            } else {
                st.ip
            };
            lemma_run_trace_len(st.state, code, next);
        }
    }
}

/// The operand byte of a two-byte instruction is consumed as data: after
/// executing a literal-push or branch at `ip` with its operand inside the
/// program, the program counter has moved past both bytes, so position
/// `ip + 1` is never decoded as an opcode by that step.
pub proof fn lemma_operand_byte_consumed(s: GsView, code: Seq<u8>, ip: int)
    requires
        0 <= ip < code.len(),
        crate::instructions::takes_operand(code[ip]),
        spec_step(s, code, ip).err is None,
    ensures
        spec_step(s, code, ip).ip >= ip + 2,
{
    let op = code[ip];
    if op == LITERAL {
        assert(spec_step(s, code, ip).ip >= ip + 2);
    } else if op == IF || op == JUMP {
        assert(spec_step(s, code, ip).ip >= ip + 2);
    } else {
        assert(is_compare_branch(op));
        assert(spec_step(s, code, ip).ip >= ip + 2);
    }
}

} // verus!

