//! The fetch/decode/execute loop, verified against the semantics in
//! `semantics`: each instruction's effect equals `spec_step`, and a whole run
//! equals `spec_run`.
//!
//! Stack underflow and overflow, unknown opcodes and a failed empty-stack
//! assertion abort the run with an explicit error instead of touching memory
//! out of bounds.

use vstd::prelude::*;

use crate::cards::cangrab;
use crate::game_state::{canmovedragons, movecards, movedragons, GameState, MOVE_TIMER_MAX};
use crate::instructions::{
    ADD, AND, ASSERT_EMPTY_STACK, CAN_GRAB, DIV, DROP, EQ, EQ_BRANCH, FILL_MOVE_TIMER, FORGET,
    GET_CARD_NUM, GET_CARD_SUIT, GET_CELL_LEN, GET_DROP_CARD_NUM_OR_255, GET_DROP_CARD_OR_255,
    GET_DROP_CARD_OR_HALT, GET_DROP_CARD_SUIT_OR_255, GET_GRAB_CARD_NUM_OR_255,
    GET_GRAB_CARD_OR_255, GET_GRAB_CARD_OR_HALT, GET_GRAB_CARD_SUIT_OR_255, GET_GRAB_DEPTH,
    GET_GRAB_POS, GET_SELECT_DEPTH, GET_SELECT_DROP, GET_SELECT_POS, GRAB, GT, GT_BRANCH, GE,
    GE_BRANCH, HALT, HALT_UNLESS, HANDLE_BUTTON_PRESS, IF, JUMP, LE, LE_BRANCH, LITERAL, LT,
    LT_BRANCH, MAX, MIN, MOVE_CARDS, MUL, NE, NE_BRANCH, NO_OP, NOT, OR, SET_GRAB_DEPTH,
    SET_GRAB_POS, SET_SELECT_DEPTH, SET_SELECT_POS, SUB,
};
use crate::cards::{getcardnum, getsuit};
use crate::semantics::{spec_drop_card_or_255, spec_grab_card_or_255, spec_run, spec_run_trace,
    spec_step};
use crate::vm::{VmError, STACK_SIZE};

verus! {

/// The branch family's program-counter move: advance past the opcode, and if
/// the offset byte exists and the condition holds, add the unsigned offset.
fn jump_if(bytecode: &[u8], instruction_pointer: &mut usize, cond: bool)
    requires
        *old(instruction_pointer) < bytecode@.len(),
        bytecode@.len() + 256 <= usize::MAX,
    ensures
        *final(instruction_pointer) == (if *old(instruction_pointer) + 1 < bytecode@.len()
            && cond {
            *old(instruction_pointer) + 1 + bytecode@[*old(instruction_pointer) + 1]
        } else {
            *old(instruction_pointer) + 1
        }),
{
    *instruction_pointer += 1;
    if *instruction_pointer < bytecode.len() && cond {
        *instruction_pointer += bytecode[*instruction_pointer] as usize;
    }
}

impl GameState {
    /// The card under the grab cursor, or 255 when the grab pile holds no
    /// card at the grab depth.
    pub fn get_grab_card_or_255(&self) -> (card: u8)
        requires
            self.wf(),
        ensures
            card == spec_grab_card_or_255(self@),
    {
        let gp = self.grabpos;
        proof {
            assert((gp & 15) < 16) by (bit_vector);
        }
        let grabpos = (gp & 15) as usize;
        let grabdepth = self.grabdepth as usize;

        let len = self.cells[grabpos].len();
        if len == 0 || len - 1 < grabdepth {
            255
        } else {
            self.cells[grabpos][len - 1 - grabdepth]
        }
    }

    /// The top card of the pile under the select cursor, or 255 when that
    /// pile is empty.
    pub fn get_drop_card_or_255(&self) -> (card: u8)
        requires
            self.wf(),
        ensures
            card == spec_drop_card_or_255(self@),
    {
        let sp = self.selectpos;
        proof {
            assert((sp & 15) < 16) by (bit_vector);
        }
        let droppos = (sp & 15) as usize;

        let len = self.cells[droppos].len();
        if len == 0 {
            255
        } else {
            self.cells[droppos][len - 1]
        }
    }

    /// Execute the single instruction `instruction`, fetched from
    /// `bytecode` at the current instruction pointer.  On success the
    /// pointer is left one byte short of the next fetch position (the
    /// caller's loop adds the final increment); on an error the machine and
    /// the pointer are unchanged.
    pub fn interpret_instruction(
        &mut self,
        bytecode: &[u8],
        instruction_pointer: &mut usize,
        instruction: u8,
    ) -> (r: Result<(), VmError>)
        requires
            old(self).wf(),
            *old(instruction_pointer) < bytecode@.len(),
            instruction == bytecode@[*old(instruction_pointer) as int],
            bytecode@.len() + 256 <= usize::MAX,
        ensures
            final(self).wf(),
            ({
                let st = spec_step(old(self)@, bytecode@, *old(instruction_pointer) as int);
                let ip_after = *final(instruction_pointer);
                match r {
                    Ok(_) => st.err is None && final(self)@ == st.state && ip_after + 1 == st.ip,
                    Err(e) => st.err == Some(e) && final(self)@ == old(self)@ && ip_after == *old(
                        instruction_pointer,
                    ),
                }
            }),
    {
        let ghost s0 = self@;
        let ghost ip0 = *instruction_pointer as int;
        let ghost st = spec_step(s0, bytecode@, ip0);

        match instruction {
            NO_OP => {},
            GRAB => {
                self.selectdrop = true;
            },
            DROP => {
                self.selectdrop = false;
            },
            LITERAL => {
                *instruction_pointer += 1;
                if *instruction_pointer < bytecode.len() {
                    if self.vm.depth() >= STACK_SIZE {
                        *instruction_pointer -= 1;
                        return Err(VmError::StackOverflow);
                    }
                    self.vm.push(bytecode[*instruction_pointer]);
                }
            },
            FORGET => {
                if self.vm.depth() < 1 {
                    return Err(VmError::StackUnderflow);
                }
                self.vm.pop();
            },
            ADD => {
                if self.vm.depth() < 2 {
                    return Err(VmError::StackUnderflow);
                }
                let b = self.vm.pop();
                let a = self.vm.pop();
                self.vm.push(((a as u16 + b as u16) % 256) as u8);
            },
            SUB => {
                if self.vm.depth() < 2 {
                    return Err(VmError::StackUnderflow);
                }
                let b = self.vm.pop();
                let a = self.vm.pop();
                self.vm.push(((a as u16 + 256 - b as u16) % 256) as u8);
            },
            MUL => {
                if self.vm.depth() < 2 {
                    return Err(VmError::StackUnderflow);
                }
                let b = self.vm.pop();
                let a = self.vm.pop();
                proof {
                    assert(a as u32 * b as u32 <= 65025) by (nonlinear_arith)
                        requires
                            a as u32 <= 255,
                            b as u32 <= 255,
                    ;
                }
                self.vm.push(((a as u32 * b as u32) % 256) as u8);
            },
            DIV => {
                if self.vm.depth() < 2 {
                    return Err(VmError::StackUnderflow);
                }
                let b = self.vm.pop();
                let a = self.vm.pop();
                self.vm.push(if b != 0 { a / b } else { 255 });
            },
            MAX => {
                if self.vm.depth() < 2 {
                    return Err(VmError::StackUnderflow);
                }
                let b = self.vm.pop();
                let a = self.vm.pop();
                self.vm.push(if a > b { a } else { b });
            },
            MIN => {
                if self.vm.depth() < 2 {
                    return Err(VmError::StackUnderflow);
                }
                let b = self.vm.pop();
                let a = self.vm.pop();
                self.vm.push(if a < b { a } else { b });
            },
            AND => {
                if self.vm.depth() < 2 {
                    return Err(VmError::StackUnderflow);
                }
                let b = self.vm.pop();
                let a = self.vm.pop();
                self.vm.push(a & b);
            },
            OR => {
                if self.vm.depth() < 2 {
                    return Err(VmError::StackUnderflow);
                }
                let b = self.vm.pop();
                let a = self.vm.pop();
                self.vm.push(a | b);
            },
            NOT => {
                if self.vm.depth() < 1 {
                    return Err(VmError::StackUnderflow);
                }
                let a = self.vm.pop();
                self.vm.push(if a == 0 { 255 } else { 0 });
            },
            IF => {
                if self.vm.depth() < 1 {
                    return Err(VmError::StackUnderflow);
                }
                let a = self.vm.pop();
                jump_if(bytecode, instruction_pointer, a != 0);
            },
            EQ_BRANCH => {
                if self.vm.depth() < 2 {
                    return Err(VmError::StackUnderflow);
                }
                let b = self.vm.pop();
                let a = self.vm.pop();
                jump_if(bytecode, instruction_pointer, a == b);
            },
            NE_BRANCH => {
                if self.vm.depth() < 2 {
                    return Err(VmError::StackUnderflow);
                }
                let b = self.vm.pop();
                let a = self.vm.pop();
                jump_if(bytecode, instruction_pointer, a != b);
            },
            GT_BRANCH => {
                if self.vm.depth() < 2 {
                    return Err(VmError::StackUnderflow);
                }
                let b = self.vm.pop();
                let a = self.vm.pop();
                jump_if(bytecode, instruction_pointer, a > b);
            },
            GE_BRANCH => {
                if self.vm.depth() < 2 {
                    return Err(VmError::StackUnderflow);
                }
                let b = self.vm.pop();
                let a = self.vm.pop();
                jump_if(bytecode, instruction_pointer, a >= b);
            },
            LT_BRANCH => {
                if self.vm.depth() < 2 {
                    return Err(VmError::StackUnderflow);
                }
                let b = self.vm.pop();
                let a = self.vm.pop();
                jump_if(bytecode, instruction_pointer, a < b);
            },
            LE_BRANCH => {
                if self.vm.depth() < 2 {
                    return Err(VmError::StackUnderflow);
                }
                let b = self.vm.pop();
                let a = self.vm.pop();
                jump_if(bytecode, instruction_pointer, a <= b);
            },
            JUMP => {
                jump_if(bytecode, instruction_pointer, true);
            },
            EQ => {
                if self.vm.depth() < 2 {
                    return Err(VmError::StackUnderflow);
                }
                let b = self.vm.pop();
                let a = self.vm.pop();
                self.vm.push(if a == b { 255 } else { 0 });
            },
            NE => {
                if self.vm.depth() < 2 {
                    return Err(VmError::StackUnderflow);
                }
                let b = self.vm.pop();
                let a = self.vm.pop();
                self.vm.push(if a != b { 255 } else { 0 });
            },
            GT => {
                if self.vm.depth() < 2 {
                    return Err(VmError::StackUnderflow);
                }
                let b = self.vm.pop();
                let a = self.vm.pop();
                self.vm.push(if a > b { 255 } else { 0 });
            },
            GE => {
                if self.vm.depth() < 2 {
                    return Err(VmError::StackUnderflow);
                }
                let b = self.vm.pop();
                let a = self.vm.pop();
                self.vm.push(if a >= b { 255 } else { 0 });
            },
            LT => {
                if self.vm.depth() < 2 {
                    return Err(VmError::StackUnderflow);
                }
                let b = self.vm.pop();
                let a = self.vm.pop();
                self.vm.push(if a < b { 255 } else { 0 });
            },
            LE => {
                if self.vm.depth() < 2 {
                    return Err(VmError::StackUnderflow);
                }
                let b = self.vm.pop();
                let a = self.vm.pop();
                self.vm.push(if a <= b { 255 } else { 0 });
            },
            GET_SELECT_POS => {
                if self.vm.depth() >= STACK_SIZE {
                    return Err(VmError::StackOverflow);
                }
                let v = self.selectpos;
                self.vm.push(v);
            },
            SET_SELECT_POS => {
                if self.vm.depth() < 1 {
                    return Err(VmError::StackUnderflow);
                }
                self.selectpos = self.vm.pop() & 15;
            },
            GET_SELECT_DEPTH => {
                if self.vm.depth() >= STACK_SIZE {
                    return Err(VmError::StackOverflow);
                }
                let v = self.selectdepth;
                self.vm.push(v);
            },
            SET_SELECT_DEPTH => {
                if self.vm.depth() < 1 {
                    return Err(VmError::StackUnderflow);
                }
                self.selectdepth = self.vm.pop();
            },
            GET_GRAB_POS => {
                if self.vm.depth() >= STACK_SIZE {
                    return Err(VmError::StackOverflow);
                }
                let v = self.grabpos;
                self.vm.push(v);
            },
            SET_GRAB_POS => {
                if self.vm.depth() < 1 {
                    return Err(VmError::StackUnderflow);
                }
                self.grabpos = self.vm.pop() & 15;
            },
            GET_GRAB_DEPTH => {
                if self.vm.depth() >= STACK_SIZE {
                    return Err(VmError::StackOverflow);
                }
                let v = self.grabdepth;
                self.vm.push(v);
            },
            SET_GRAB_DEPTH => {
                if self.vm.depth() < 1 {
                    return Err(VmError::StackUnderflow);
                }
                self.grabdepth = self.vm.pop();
            },
            FILL_MOVE_TIMER => {
                self.movetimer = MOVE_TIMER_MAX;
            },
            CAN_GRAB => {
                if self.vm.depth() >= STACK_SIZE {
                    return Err(VmError::StackOverflow);
                }
                let output = if cangrab(&self.cells, self.selectpos, self.selectdepth) {
                    255
                } else {
                    0
                };
                self.vm.push(output);
            },
            HANDLE_BUTTON_PRESS => {
                // The auto-resolution helper ends by running the fixed
                // two-instruction program [DROP, FILL_MOVE_TIMER]; that
                // bounded invocation only clears the mode flag and refills
                // the timer, so it is written out directly.
                if canmovedragons(self, self.selectdepth) {
                    movedragons(self);
                    self.selectdrop = false;
                    self.movetimer = MOVE_TIMER_MAX;
                }
            },
            ASSERT_EMPTY_STACK => {
                if !self.vm.is_empty() {
                    return Err(VmError::NonEmptyStackAssertion);
                }
            },
            HALT_UNLESS => {
                if self.vm.depth() < 1 {
                    return Err(VmError::StackUnderflow);
                }
                let a = self.vm.pop();
                if a == 0 {
                    *instruction_pointer = bytecode.len() - 1;
                }
            },
            GET_GRAB_CARD_OR_HALT => {
                let card = self.get_grab_card_or_255();
                if card == 255 {
                    *instruction_pointer = bytecode.len() - 1;
                } else {
                    if self.vm.depth() >= STACK_SIZE {
                        return Err(VmError::StackOverflow);
                    }
                    self.vm.push(card);
                }
            },
            GET_DROP_CARD_OR_HALT => {
                let card = self.get_drop_card_or_255();
                if card == 255 {
                    *instruction_pointer = bytecode.len() - 1;
                } else {
                    if self.vm.depth() >= STACK_SIZE {
                        return Err(VmError::StackOverflow);
                    }
                    self.vm.push(card);
                }
            },
            GET_GRAB_CARD_NUM_OR_255 => {
                if self.vm.depth() >= STACK_SIZE {
                    return Err(VmError::StackOverflow);
                }
                let card = self.get_grab_card_or_255();
                let output = if card == 255 {
                    255
                } else {
                    getcardnum(card)
                };
                self.vm.push(output);
            },
            GET_DROP_CARD_NUM_OR_255 => {
                if self.vm.depth() >= STACK_SIZE {
                    return Err(VmError::StackOverflow);
                }
                let card = self.get_drop_card_or_255();
                let output = if card == 255 {
                    255
                } else {
                    getcardnum(card)
                };
                self.vm.push(output);
            },
            GET_GRAB_CARD_SUIT_OR_255 => {
                if self.vm.depth() >= STACK_SIZE {
                    return Err(VmError::StackOverflow);
                }
                let card = self.get_grab_card_or_255();
                let output = if card == 255 {
                    255
                } else {
                    getsuit(card)
                };
                self.vm.push(output);
            },
            GET_DROP_CARD_SUIT_OR_255 => {
                if self.vm.depth() >= STACK_SIZE {
                    return Err(VmError::StackOverflow);
                }
                let card = self.get_drop_card_or_255();
                let output = if card == 255 {
                    255
                } else {
                    getsuit(card)
                };
                self.vm.push(output);
            },
            GET_CARD_NUM => {
                if self.vm.depth() < 1 {
                    return Err(VmError::StackUnderflow);
                }
                let card = self.vm.pop();
                self.vm.push(getcardnum(card));
            },
            GET_CARD_SUIT => {
                if self.vm.depth() < 1 {
                    return Err(VmError::StackUnderflow);
                }
                let card = self.vm.pop();
                self.vm.push(getsuit(card));
            },
            GET_GRAB_CARD_OR_255 => {
                if self.vm.depth() >= STACK_SIZE {
                    return Err(VmError::StackOverflow);
                }
                let output = self.get_grab_card_or_255();
                self.vm.push(output);
            },
            GET_DROP_CARD_OR_255 => {
                if self.vm.depth() >= STACK_SIZE {
                    return Err(VmError::StackOverflow);
                }
                let output = self.get_drop_card_or_255();
                self.vm.push(output);
            },
            MOVE_CARDS => {
                if self.vm.depth() < 3 {
                    return Err(VmError::StackUnderflow);
                }
                let droppos = self.vm.pop();
                let grabdepth = self.vm.pop();
                let grabpos = self.vm.pop();
                movecards(self, grabpos, grabdepth, droppos);
            },
            GET_SELECT_DROP => {
                if self.vm.depth() >= STACK_SIZE {
                    return Err(VmError::StackOverflow);
                }
                let output = if self.selectdrop {
                    255
                } else {
                    0
                };
                self.vm.push(output);
            },
            GET_CELL_LEN => {
                if self.vm.depth() >= STACK_SIZE {
                    return Err(VmError::StackOverflow);
                }
                let sp = self.selectpos;
                proof {
                    assert((sp & 15) < 16) by (bit_vector);
                }
                let len = self.cells[(sp & 15) as usize].len();
                self.vm.push((len % 256) as u8);
            },
            HALT => {
                *instruction_pointer = bytecode.len() - 1;
            },
            _ => {
                return Err(VmError::UnimplementedInstruction);
            },
        }
        proof {
            assert(self@ =~~= st.state);
        }
        Ok(())
    }

    /// Run `bytecode` from its first byte to completion or to the first
    /// error.  The machine afterwards is exactly what the semantics
    /// prescribe; the stack is not cleared between runs.
    pub fn interpret(&mut self, bytecode: &[u8]) -> (r: Result<(), VmError>)
        requires
            old(self).wf(),
            bytecode@.len() + 256 <= usize::MAX,
        ensures
            final(self).wf(),
            ({
                let res = spec_run(old(self)@, bytecode@, 0);
                final(self)@ == res.state && match r {
                    Ok(_) => res.err is None,
                    Err(e) => res.err == Some(e),
                }
            }),
    {
        let len = bytecode.len();
        let mut i: usize = 0;
        while i < len
            invariant
                self.wf(),
                len == bytecode@.len(),
                bytecode@.len() + 256 <= usize::MAX,
                spec_run(old(self)@, bytecode@, 0) == spec_run(self@, bytecode@, i as int),
            decreases (if i <= len {
                len - i
            } else {
                0int
            }),
        {
            let instruction = bytecode[i];

            let ghost s_before = self@;
            let ghost i_before = i as int;
            match self.interpret_instruction(bytecode, &mut i, instruction) {
                Ok(_) => {},
                Err(e) => {
                    return Err(e);
                },
            }

            i += 1;
            proof {
                crate::semantics::lemma_step_advances(s_before, bytecode@, i_before);
                let st = spec_step(s_before, bytecode@, i_before);
                let next = if st.ip > len {
                    len as int
                } else {
                    st.ip
                };
                assert(spec_run(s_before, bytecode@, i_before) == spec_run(
                    st.state,
                    bytecode@,
                    next,
                ));
                if st.ip > len {
                    assert(spec_run(self@, bytecode@, next) == spec_run(self@, bytecode@, i as int));
                }
            }
        }
        Ok(())
    }

    /// Like [`Self::interpret`], but also return, for each executed
    /// instruction, the instruction pointer as it stood after that
    /// instruction's own advances.  The list is one entry per step, so its
    /// length never exceeds the program's: interpretation performs at most
    /// one step per program byte.
    pub fn interpret_and_return_visited_instruction_pointers(
        &mut self,
        bytecode: &[u8],
    ) -> (r: Result<Vec<usize>, VmError>)
        requires
            old(self).wf(),
            bytecode@.len() + 256 <= usize::MAX,
        ensures
            final(self).wf(),
            ({
                let res = spec_run(old(self)@, bytecode@, 0);
                final(self)@ == res.state && match r {
                    Ok(visited) => res.err is None && visited@.map_values(|u: usize| u as int)
                        == spec_run_trace(old(self)@, bytecode@, 0) && visited@.len()
                        <= bytecode@.len(),
                    Err(e) => res.err == Some(e),
                }
            }),
    {
        let mut output: Vec<usize> = Vec::new();

        let len = bytecode.len();
        let mut i: usize = 0;
        while i < len
            invariant
                self.wf(),
                len == bytecode@.len(),
                bytecode@.len() + 256 <= usize::MAX,
                spec_run(old(self)@, bytecode@, 0) == spec_run(self@, bytecode@, i as int),
                spec_run_trace(old(self)@, bytecode@, 0) == output@.map_values(|u: usize| u as int)
                    + spec_run_trace(self@, bytecode@, i as int),
            decreases (if i <= len {
                len - i
            } else {
                0int
            }),
        {
            let instruction = bytecode[i];

            let ghost s_before = self@;
            let ghost i_before = i as int;
            match self.interpret_instruction(bytecode, &mut i, instruction) {
                Ok(_) => {},
                Err(e) => {
                    return Err(e);
                },
            }

            let ghost out_before = output@;
            output.push(i);

            i += 1;
            proof {
                crate::semantics::lemma_step_advances(s_before, bytecode@, i_before);
                let st = spec_step(s_before, bytecode@, i_before);
                let next = if st.ip > len {
                    len as int
                } else {
                    st.ip
                };
                assert(spec_run(s_before, bytecode@, i_before) == spec_run(
                    st.state,
                    bytecode@,
                    next,
                ));
                assert(spec_run_trace(s_before, bytecode@, i_before) == seq![st.ip - 1]
                    + spec_run_trace(st.state, bytecode@, next));
                if st.ip > len {
                    assert(spec_run(self@, bytecode@, next) == spec_run(self@, bytecode@, i as int));
                    assert(spec_run_trace(self@, bytecode@, next) == spec_run_trace(
                        self@,
                        bytecode@,
                        i as int,
                    ));
                }
                assert(output@.map_values(|u: usize| u as int) =~= out_before.map_values(
                    |u: usize| u as int,
                ).push((i - 1) as int));
                assert(spec_run_trace(old(self)@, bytecode@, 0) =~= output@.map_values(
                    |u: usize| u as int,
                ) + spec_run_trace(self@, bytecode@, i as int));
            }
        }
        proof {
            crate::semantics::lemma_run_trace_len(old(self)@, bytecode@, 0);
            assert(output@.map_values(|u: usize| u as int) =~= output@.map_values(
                |u: usize| u as int,
            ) + spec_run_trace(self@, bytecode@, i as int));
        }
        Ok(output)
    }
}

} // verus!
