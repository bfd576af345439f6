//! A tiny stack-based bytecode machine for card-game transition rules,
//! together with generators that synthesize random programs which are
//! guaranteed never to underflow or overflow the machine's operand stack.
//!
//! The machine's semantics live in [`semantics`] as spec-level mathematics;
//! the interpreter in [`interpreter`] is verified against them.  The
//! generators in [`generator`] build, while emitting code, the per-position
//! depth-bound witness of [`safety`], whose main lemma shows that every
//! generated program runs to completion without a stack fault.

use vstd::prelude::*;

pub mod cards;
pub mod game_state;
pub mod generator;
pub mod input;
pub mod instructions;
pub mod interpreter;
pub mod rng;
pub mod safety;
pub mod semantics;
pub mod vm;

pub use cards::{cangrab, getcardnum, getselection, getsuit, Cells};
pub use game_state::{canmovedragons, movecards, movedragons, GameState, GsView, MOVE_TIMER_MAX};
pub use generator::{
    add_restriction, gen_range_or_0, generate,
    generate_A_button_instruction_compatible_with_stack_depth, generate_containing_instructions,
    generate_grab, generate_instruction_compatible_with_stack_depth, grab_instructions,
    insert_instruction,
};
pub use input::Input;
pub use instructions::{instruction_name, PrettyInstruction};
pub use vm::{VmError, STACK_SIZE, VM};

verus! {

} // verus!
