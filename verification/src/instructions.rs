//! The opcode table: one-byte instruction codes, their symbolic names, and
//! their stack effects.
//!
//! The encoding is bit-packed: a "get" and its paired "set" differ by one bit,
//! "position" and "depth" variants of a register differ by one bit, and the
//! branch family shares a common high-bit pattern whose low bits encode the
//! equal/greater/less condition flags (an unconditional jump is the branch
//! opcode with all three flags set).

use vstd::prelude::*;

verus! {

pub const NO_OP: u8 = 0;

pub const FILL_MOVE_TIMER: u8 = 1;

pub const GRAB: u8 = 0b10;
pub const DROP: u8 = 0b11;

pub const ADD: u8 = 0b100;
pub const SUB: u8 = 0b101;
pub const MUL: u8 = 0b110;
pub const DIV: u8 = 0b111;

pub const MAX: u8 = 0b1001;
pub const MIN: u8 = 0b1011;

pub const AND: u8 = 0b1000;
pub const OR: u8 = 0b1110;
pub const NOT: u8 = 0b1111;

/// Condition flag bits shared by the branch and comparison families.
pub const EQ_FLAG: u8 = 0b001;
pub const GT_FLAG: u8 = 0b010;
pub const LT_FLAG: u8 = 0b100;
/// High-bit pattern shared by the whole branch family.
pub const BRANCH: u8 = 0b1001_0000;

pub const IF: u8 = 0b1001_0000;
pub const EQ_BRANCH: u8 = 0b1001_0001;
pub const NE_BRANCH: u8 = 0b1001_0110;
pub const GT_BRANCH: u8 = 0b1001_0010;
pub const GE_BRANCH: u8 = 0b1001_0011;
pub const LT_BRANCH: u8 = 0b1001_0100;
pub const LE_BRANCH: u8 = 0b1001_0101;
pub const JUMP: u8 = 0b1001_0111;

/// High-bit pattern shared by the comparison-to-boolean family.
pub const BOOLEAN: u8 = 0b1010_0000;

pub const EQ: u8 = 0b1010_0001;
pub const NE: u8 = 0b1010_0110;
pub const GT: u8 = 0b1010_0010;
pub const GE: u8 = 0b1010_0011;
pub const LT: u8 = 0b1010_0100;
pub const LE: u8 = 0b1010_0101;

/// Register opcode bits: "set" against "get", "depth" against "position",
/// "grab" against "select".
pub const SET_BIT: u8 = 0b010;
pub const DEPTH_BIT: u8 = 0b0000_1000;
pub const GRAB_COORDS_BIT: u8 = 0b100;

pub const GET_SELECT_POS: u8 = 0b0100_0000;
pub const SET_SELECT_POS: u8 = 0b0100_0010;
pub const GET_SELECT_DEPTH: u8 = 0b0100_1000;
pub const SET_SELECT_DEPTH: u8 = 0b0100_1010;

pub const GET_GRAB_POS: u8 = 0b0100_0100;
pub const SET_GRAB_POS: u8 = 0b0100_0110;
pub const GET_GRAB_DEPTH: u8 = 0b0100_1100;
pub const SET_GRAB_DEPTH: u8 = 0b0100_1110;

pub const LITERAL: u8 = 0b10_1010;
pub const FORGET: u8 = 0b10_1011;

pub const CAN_GRAB: u8 = 0b1110_0000;
pub const HANDLE_BUTTON_PRESS: u8 = 0b1110_0001;

pub const ASSERT_EMPTY_STACK: u8 = 0b1110_1000;
pub const HALT_UNLESS: u8 = 0b1110_1001;

pub const GET_GRAB_CARD_OR_HALT: u8 = 0b1111_0000;
pub const GET_DROP_CARD_OR_HALT: u8 = 0b1111_0001;

pub const GET_GRAB_CARD_NUM_OR_255: u8 = 0b1111_0010;
pub const GET_DROP_CARD_NUM_OR_255: u8 = 0b1111_0011;

pub const GET_GRAB_CARD_SUIT_OR_255: u8 = 0b1111_0110;
pub const GET_DROP_CARD_SUIT_OR_255: u8 = 0b1111_0111;

pub const GET_CARD_NUM: u8 = 0b1111_1000;
pub const GET_CARD_SUIT: u8 = 0b1111_1001;
pub const GET_GRAB_CARD_OR_255: u8 = 0b1111_1010;
pub const GET_DROP_CARD_OR_255: u8 = 0b1111_1011;
pub const MOVE_CARDS: u8 = 0b1111_1100;
pub const GET_SELECT_DROP: u8 = 0b1111_1101;
pub const GET_CELL_LEN: u8 = 0b1111_1110;
pub const HALT: u8 = 0b1111_1111;

/// The six branches that compare two popped values.
pub open spec fn is_compare_branch(op: u8) -> bool {
    op == EQ_BRANCH || op == NE_BRANCH || op == GT_BRANCH || op == GE_BRANCH || op == LT_BRANCH
        || op == LE_BRANCH
}

/// Every opcode of the branch family, including the unconditional jump.
pub open spec fn is_branch(op: u8) -> bool {
    op == IF || op == JUMP || is_compare_branch(op)
}

/// Opcodes that consume the following byte as an immediate operand.
pub open spec fn takes_operand(op: u8) -> bool {
    op == LITERAL || is_branch(op)
}

/// The binary operators that pop two values and push one result.
pub open spec fn is_binary_op(op: u8) -> bool {
    op == ADD || op == SUB || op == MUL || op == DIV || op == MAX || op == MIN || op == AND
        || op == OR
}

/// The comparison opcodes that pop two values and push a boolean byte.
pub open spec fn is_compare_op(op: u8) -> bool {
    op == EQ || op == NE || op == GT || op == GE || op == LT || op == LE
}

/// The four register-read opcodes.
pub open spec fn is_register_get(op: u8) -> bool {
    op == GET_SELECT_POS || op == GET_SELECT_DEPTH || op == GET_GRAB_POS || op == GET_GRAB_DEPTH
}

/// The four register-write opcodes.
pub open spec fn is_register_set(op: u8) -> bool {
    op == SET_SELECT_POS || op == SET_SELECT_DEPTH || op == SET_GRAB_POS || op == SET_GRAB_DEPTH
}

/// Byte values that are assigned an instruction; every other byte is a fatal
/// decode error.
pub open spec fn is_known(op: u8) -> bool {
    op == NO_OP || op == FILL_MOVE_TIMER || op == GRAB || op == DROP || is_binary_op(op) || op
        == NOT || is_branch(op) || is_compare_op(op) || is_register_get(op) || is_register_set(op)
        || op == LITERAL || op == FORGET || op == CAN_GRAB || op == HANDLE_BUTTON_PRESS || op
        == ASSERT_EMPTY_STACK || op == HALT_UNLESS || op == GET_GRAB_CARD_OR_HALT || op
        == GET_DROP_CARD_OR_HALT || op == GET_GRAB_CARD_NUM_OR_255 || op == GET_DROP_CARD_NUM_OR_255
        || op == GET_GRAB_CARD_SUIT_OR_255 || op == GET_DROP_CARD_SUIT_OR_255 || op == GET_CARD_NUM
        || op == GET_CARD_SUIT || op == GET_GRAB_CARD_OR_255 || op == GET_DROP_CARD_OR_255 || op
        == MOVE_CARDS || op == GET_SELECT_DROP || op == GET_CELL_LEN || op == HALT
}

/// How many values an instruction pops from the stack.
pub open spec fn spec_pops(op: u8) -> nat {
    if op == MOVE_CARDS {
        3
    } else if is_binary_op(op) || is_compare_op(op) || is_compare_branch(op) {
        2
    } else if op == NOT || op == IF || op == FORGET || is_register_set(op) || op == HALT_UNLESS
        || op == GET_CARD_NUM || op == GET_CARD_SUIT {
        1
    } else {
        0
    }
}

/// How many values an instruction pushes onto the stack (for the halting
/// accessors: in the case where a card is found and the step does not halt).
pub open spec fn spec_pushes(op: u8) -> nat {
    if is_binary_op(op) || is_compare_op(op) || op == NOT || op == LITERAL || is_register_get(op)
        || op == CAN_GRAB || op == GET_CARD_NUM || op == GET_CARD_SUIT || op == GET_SELECT_DROP
        || op == GET_CELL_LEN || op == GET_GRAB_CARD_OR_255 || op == GET_DROP_CARD_OR_255 || op
        == GET_GRAB_CARD_NUM_OR_255 || op == GET_DROP_CARD_NUM_OR_255 || op
        == GET_GRAB_CARD_SUIT_OR_255 || op == GET_DROP_CARD_SUIT_OR_255 || op
        == GET_GRAB_CARD_OR_HALT || op == GET_DROP_CARD_OR_HALT {
        1
    } else {
        0
    }
}

/// The bit-packing invariant of the encoding: a "set" differs from its "get"
/// by the set bit, the "depth" variant from the "position" variant by the
/// depth bit, the "grab" registers from the "select" registers by the grab
/// bit; the branch and comparison families are their base patterns plus the
/// equal/greater/less condition flags, with the unconditional jump carrying
/// all three; paired opcodes such as grab/drop and literal/forget differ by
/// the lowest bit.
pub proof fn lemma_opcode_bit_packing()
    ensures
        SET_SELECT_POS == (GET_SELECT_POS | SET_BIT),
        SET_SELECT_DEPTH == (GET_SELECT_DEPTH | SET_BIT),
        SET_GRAB_POS == (GET_GRAB_POS | SET_BIT),
        SET_GRAB_DEPTH == (GET_GRAB_DEPTH | SET_BIT),
        GET_SELECT_DEPTH == (GET_SELECT_POS | DEPTH_BIT),
        GET_GRAB_DEPTH == (GET_GRAB_POS | DEPTH_BIT),
        GET_GRAB_POS == (GET_SELECT_POS | GRAB_COORDS_BIT),
        GET_GRAB_DEPTH == (GET_SELECT_DEPTH | GRAB_COORDS_BIT),
        IF == BRANCH,
        EQ_BRANCH == (BRANCH | EQ_FLAG),
        NE_BRANCH == (BRANCH | GT_FLAG | LT_FLAG),
        GT_BRANCH == (BRANCH | GT_FLAG),
        GE_BRANCH == (GT_BRANCH | EQ_FLAG),
        LT_BRANCH == (BRANCH | LT_FLAG),
        LE_BRANCH == (LT_BRANCH | EQ_FLAG),
        JUMP == (BRANCH | EQ_FLAG | GT_FLAG | LT_FLAG),
        EQ == (BOOLEAN | EQ_FLAG),
        NE == (BOOLEAN | GT_FLAG | LT_FLAG),
        GT == (BOOLEAN | GT_FLAG),
        GE == (GT | EQ_FLAG),
        LT == (BOOLEAN | LT_FLAG),
        LE == (LT | EQ_FLAG),
        DROP == (GRAB | 1),
        FORGET == (LITERAL | 1),
{
    assert((0b0100_0000u8 | 0b010u8) == 0b0100_0010u8 && (0b0100_1000u8 | 0b010u8)
        == 0b0100_1010u8 && (0b0100_0100u8 | 0b010u8) == 0b0100_0110u8 && (0b0100_1100u8
        | 0b010u8) == 0b0100_1110u8 && (0b0100_0000u8 | 0b1000u8) == 0b0100_1000u8 && (
    0b0100_0100u8 | 0b1000u8) == 0b0100_1100u8 && (0b0100_0000u8 | 0b100u8) == 0b0100_0100u8
        && (0b0100_1000u8 | 0b100u8) == 0b0100_1100u8 && (0b1001_0000u8 | 0b001u8)
        == 0b1001_0001u8 && (0b1001_0000u8 | 0b010u8 | 0b100u8) == 0b1001_0110u8 && (
    0b1001_0000u8 | 0b010u8) == 0b1001_0010u8 && (0b1001_0010u8 | 0b001u8) == 0b1001_0011u8
        && (0b1001_0000u8 | 0b100u8) == 0b1001_0100u8 && (0b1001_0100u8 | 0b001u8)
        == 0b1001_0101u8 && (0b1001_0000u8 | 0b001u8 | 0b010u8 | 0b100u8) == 0b1001_0111u8
        && (0b1010_0000u8 | 0b001u8) == 0b1010_0001u8 && (0b1010_0000u8 | 0b010u8 | 0b100u8)
        == 0b1010_0110u8 && (0b1010_0000u8 | 0b010u8) == 0b1010_0010u8 && (0b1010_0010u8
        | 0b001u8) == 0b1010_0011u8 && (0b1010_0000u8 | 0b100u8) == 0b1010_0100u8 && (
    0b1010_0100u8 | 0b001u8) == 0b1010_0101u8 && (0b10u8 | 1u8) == 0b11u8 && (0b10_1010u8
        | 1u8) == 0b10_1011u8) by (bit_vector);
}

/// The byte values that the generators may emit: the full instruction pool.
/// The halting accessor variants and the empty-stack assertion are deliberately
/// never generated.
pub open spec fn emittable(op: u8) -> bool {
    is_known(op) && op != ASSERT_EMPTY_STACK && op != HALT_UNLESS && op != GET_GRAB_CARD_OR_HALT
        && op != GET_DROP_CARD_OR_HALT && op != GET_GRAB_CARD_NUM_OR_255 && op
        != GET_DROP_CARD_NUM_OR_255 && op != GET_GRAB_CARD_SUIT_OR_255 && op
        != GET_DROP_CARD_SUIT_OR_255
}


/// The name `instruction_name` reports for a byte that is no opcode.
pub const NAME_FN_DEFAULT: &'static str = "unknown";

/// The symbolic name of an opcode, for diagnostics.
pub open spec fn spec_instruction_name(op: u8) -> Seq<char> {
    if op == NO_OP { "NO_OP"@ }
    else if op == FILL_MOVE_TIMER { "FILL_MOVE_TIMER"@ }
    else if op == GRAB { "GRAB"@ }
    else if op == DROP { "DROP"@ }
    else if op == ADD { "ADD"@ }
    else if op == SUB { "SUB"@ }
    else if op == MUL { "MUL"@ }
    else if op == DIV { "DIV"@ }
    else if op == MAX { "MAX"@ }
    else if op == MIN { "MIN"@ }
    else if op == AND { "AND"@ }
    else if op == OR { "OR"@ }
    else if op == NOT { "NOT"@ }
    else if op == IF { "IF"@ }
    else if op == EQ_BRANCH { "EQ_BRANCH"@ }
    else if op == NE_BRANCH { "NE_BRANCH"@ }
    else if op == GT_BRANCH { "GT_BRANCH"@ }
    else if op == GE_BRANCH { "GE_BRANCH"@ }
    else if op == LT_BRANCH { "LT_BRANCH"@ }
    else if op == LE_BRANCH { "LE_BRANCH"@ }
    else if op == JUMP { "JUMP"@ }
    else if op == EQ { "EQ"@ }
    else if op == NE { "NE"@ }
    else if op == GT { "GT"@ }
    else if op == GE { "GE"@ }
    else if op == LT { "LT"@ }
    else if op == LE { "LE"@ }
    else if op == GET_SELECT_POS { "GET_SELECT_POS"@ }
    else if op == SET_SELECT_POS { "SET_SELECT_POS"@ }
    else if op == GET_SELECT_DEPTH { "GET_SELECT_DEPTH"@ }
    else if op == SET_SELECT_DEPTH { "SET_SELECT_DEPTH"@ }
    else if op == GET_GRAB_POS { "GET_GRAB_POS"@ }
    else if op == SET_GRAB_POS { "SET_GRAB_POS"@ }
    else if op == GET_GRAB_DEPTH { "GET_GRAB_DEPTH"@ }
    else if op == SET_GRAB_DEPTH { "SET_GRAB_DEPTH"@ }
    else if op == LITERAL { "LITERAL"@ }
    else if op == FORGET { "FORGET"@ }
    else if op == CAN_GRAB { "CAN_GRAB"@ }
    else if op == HANDLE_BUTTON_PRESS { "HANDLE_BUTTON_PRESS"@ }
    else if op == ASSERT_EMPTY_STACK { "ASSERT_EMPTY_STACK"@ }
    else if op == HALT_UNLESS { "HALT_UNLESS"@ }
    else if op == GET_GRAB_CARD_OR_HALT { "GET_GRAB_CARD_OR_HALT"@ }
    else if op == GET_DROP_CARD_OR_HALT { "GET_DROP_CARD_OR_HALT"@ }
    else if op == GET_GRAB_CARD_NUM_OR_255 { "GET_GRAB_CARD_NUM_OR_255"@ }
    else if op == GET_DROP_CARD_NUM_OR_255 { "GET_DROP_CARD_NUM_OR_255"@ }
    else if op == GET_GRAB_CARD_SUIT_OR_255 { "GET_GRAB_CARD_SUIT_OR_255"@ }
    else if op == GET_DROP_CARD_SUIT_OR_255 { "GET_DROP_CARD_SUIT_OR_255"@ }
    else if op == GET_CARD_NUM { "GET_CARD_NUM"@ }
    else if op == GET_CARD_SUIT { "GET_CARD_SUIT"@ }
    else if op == GET_GRAB_CARD_OR_255 { "GET_GRAB_CARD_OR_255"@ }
    else if op == GET_DROP_CARD_OR_255 { "GET_DROP_CARD_OR_255"@ }
    else if op == MOVE_CARDS { "MOVE_CARDS"@ }
    else if op == GET_SELECT_DROP { "GET_SELECT_DROP"@ }
    else if op == GET_CELL_LEN { "GET_CELL_LEN"@ }
    else if op == HALT { "HALT"@ }
    else { "unknown"@ }
}

/// Map an opcode byte to its symbolic name; unassigned bytes map to the
/// default name.
pub fn instruction_name(c: u8) -> (name: &'static str)
    ensures
        name@ == spec_instruction_name(c),
{
    match c {
        NO_OP => "NO_OP",
        FILL_MOVE_TIMER => "FILL_MOVE_TIMER",
        GRAB => "GRAB",
        DROP => "DROP",
        ADD => "ADD",
        SUB => "SUB",
        MUL => "MUL",
        DIV => "DIV",
        MAX => "MAX",
        MIN => "MIN",
        AND => "AND",
        OR => "OR",
        NOT => "NOT",
        IF => "IF",
        EQ_BRANCH => "EQ_BRANCH",
        NE_BRANCH => "NE_BRANCH",
        GT_BRANCH => "GT_BRANCH",
        GE_BRANCH => "GE_BRANCH",
        LT_BRANCH => "LT_BRANCH",
        LE_BRANCH => "LE_BRANCH",
        JUMP => "JUMP",
        EQ => "EQ",
        NE => "NE",
        GT => "GT",
        GE => "GE",
        LT => "LT",
        LE => "LE",
        GET_SELECT_POS => "GET_SELECT_POS",
        SET_SELECT_POS => "SET_SELECT_POS",
        GET_SELECT_DEPTH => "GET_SELECT_DEPTH",
        SET_SELECT_DEPTH => "SET_SELECT_DEPTH",
        GET_GRAB_POS => "GET_GRAB_POS",
        SET_GRAB_POS => "SET_GRAB_POS",
        GET_GRAB_DEPTH => "GET_GRAB_DEPTH",
        SET_GRAB_DEPTH => "SET_GRAB_DEPTH",
        LITERAL => "LITERAL",
        FORGET => "FORGET",
        CAN_GRAB => "CAN_GRAB",
        HANDLE_BUTTON_PRESS => "HANDLE_BUTTON_PRESS",
        ASSERT_EMPTY_STACK => "ASSERT_EMPTY_STACK",
        HALT_UNLESS => "HALT_UNLESS",
        GET_GRAB_CARD_OR_HALT => "GET_GRAB_CARD_OR_HALT",
        GET_DROP_CARD_OR_HALT => "GET_DROP_CARD_OR_HALT",
        GET_GRAB_CARD_NUM_OR_255 => "GET_GRAB_CARD_NUM_OR_255",
        GET_DROP_CARD_NUM_OR_255 => "GET_DROP_CARD_NUM_OR_255",
        GET_GRAB_CARD_SUIT_OR_255 => "GET_GRAB_CARD_SUIT_OR_255",
        GET_DROP_CARD_SUIT_OR_255 => "GET_DROP_CARD_SUIT_OR_255",
        GET_CARD_NUM => "GET_CARD_NUM",
        GET_CARD_SUIT => "GET_CARD_SUIT",
        GET_GRAB_CARD_OR_255 => "GET_GRAB_CARD_OR_255",
        GET_DROP_CARD_OR_255 => "GET_DROP_CARD_OR_255",
        MOVE_CARDS => "MOVE_CARDS",
        GET_SELECT_DROP => "GET_SELECT_DROP",
        GET_CELL_LEN => "GET_CELL_LEN",
        HALT => "HALT",
        _ => NAME_FN_DEFAULT,
    }
}

/// An instruction byte wrapped for readable printing: its name stands for
/// the byte wherever program listings are shown.
#[derive(PartialEq, Eq, Hash, Structural)]
pub struct PrettyInstruction(pub u8);

impl PrettyInstruction {
    /// The wrapped opcode's symbolic name.
    pub fn name(&self) -> (name: &'static str)
        ensures
            name@ == spec_instruction_name(self.0),
    {
        instruction_name(self.0)
    }
}

} // verus!
