//! Depth-aware random program synthesis.
//!
//! The generator keeps a running estimate of the operand-stack depth along
//! the straight-line path and a restriction table that propagates a depth
//! cap to every position a placed jump can reach.  Instructions are drawn
//! from pools tiered by how many values they pop, so the estimate can never
//! be overdrawn; the proofs in this module build the witness of
//! `crate::safety::program_checked` position by position as bytes are
//! emitted.

use vstd::prelude::*;

use crate::instructions::{
    emittable, is_binary_op, is_branch, is_compare_branch, is_compare_op, is_register_get,
    is_register_set, spec_pops, spec_pushes, takes_operand, ADD, AND, CAN_GRAB, DIV, DROP,
    EQ, EQ_BRANCH, FILL_MOVE_TIMER, FORGET, GET_CARD_NUM, GET_CARD_SUIT, GET_CELL_LEN,
    GET_DROP_CARD_OR_255, GET_GRAB_CARD_OR_255, GET_GRAB_DEPTH, GET_GRAB_POS, GET_SELECT_DEPTH,
    GET_SELECT_DROP, GET_SELECT_POS, GRAB, GT, GT_BRANCH, GE, GE_BRANCH, HALT,
    HANDLE_BUTTON_PRESS, IF, JUMP, LE, LE_BRANCH, LITERAL, LT, LT_BRANCH, MAX, MIN, MOVE_CARDS,
    MUL, NE, NE_BRANCH, NO_OP, NOT, OR, SET_GRAB_DEPTH, SET_GRAB_POS, SET_SELECT_DEPTH,
    SET_SELECT_POS, SUB,
};
use crate::rng::{rng_gen_bool, rng_gen_range, rng_uniform_index};
use crate::safety::{program_checked, safe_program};

verus! {

/// The smaller of two mathematical integers.
pub open spec fn imin(a: int, b: int) -> int {
    if a < b {
        a
    } else {
        b
    }
}

/// The opcodes whose generation-time effect is one net push: they pop
/// nothing and push one value.
pub open spec fn gen_push_group(op: u8) -> bool {
    emittable(op) && spec_pops(op) == 0 && spec_pushes(op) == 1
}

/// The change the generator applies to its depth estimate when it emits
/// `op` after `prev`.  A pushing opcode emitted right after a literal-push
/// opcode contributes nothing: the byte will be consumed as the literal's
/// operand on the straight-line path, so counting its push would overstate
/// the depth.  Opcodes that pop two and push one are counted as two pops:
/// the estimate is a lower bound and may undercount.
pub open spec fn gen_depth_delta(op: u8, prev: u8) -> int {
    if gen_push_group(op) {
        if prev == LITERAL {
            0
        } else {
            1
        }
    } else if emittable(op) && spec_pops(op) == 1 && spec_pushes(op) == 0 {
        -1
    } else if emittable(op) && spec_pops(op) == 2 {
        -2
    } else if op == MOVE_CARDS {
        -3
    } else {
        0
    }
}

/// The depth estimate after emitting `op` with previous byte `prev`,
/// saturating at the top of the byte range.
pub open spec fn spec_depth_after(op: u8, prev: u8, d: int) -> int {
    if d + gen_depth_delta(op, prev) > 255 {
        255
    } else {
        d + gen_depth_delta(op, prev)
    }
}

/// Membership in the zero-pop instruction pool.
pub open spec fn in_zero_param_pool(op: u8) -> bool {
    op == NO_OP || op == FILL_MOVE_TIMER || op == GRAB || op == DROP || op == JUMP
        || is_register_get(op) || op == LITERAL || op == CAN_GRAB || op == GET_GRAB_CARD_OR_255
        || op == GET_DROP_CARD_OR_255 || op == GET_SELECT_DROP || op == GET_CELL_LEN || op
        == HANDLE_BUTTON_PRESS
}

/// Membership in the one-pop instruction pool.
pub open spec fn in_one_param_pool(op: u8) -> bool {
    op == NOT || op == IF || op == FORGET || is_register_set(op) || op == GET_CARD_NUM || op
        == GET_CARD_SUIT
}

/// Membership in the two-pop instruction pool.
pub open spec fn in_two_param_pool(op: u8) -> bool {
    is_binary_op(op) || is_compare_branch(op) || is_compare_op(op)
}

/// The zero-pop instruction pool, by index.
fn zero_param_instruction(i: usize) -> (op: u8)
    requires
        i < 16,
    ensures
        emittable(op),
        spec_pops(op) == 0,
        is_branch(op) ==> op == JUMP,
        in_zero_param_pool(op),
{
    match i {
        0 => NO_OP,
        1 => FILL_MOVE_TIMER,
        2 => GRAB,
        3 => DROP,
        4 => JUMP,
        5 => GET_SELECT_POS,
        6 => GET_SELECT_DEPTH,
        7 => GET_GRAB_POS,
        8 => GET_GRAB_DEPTH,
        9 => LITERAL,
        10 => CAN_GRAB,
        11 => GET_GRAB_CARD_OR_255,
        12 => GET_DROP_CARD_OR_255,
        13 => GET_SELECT_DROP,
        14 => GET_CELL_LEN,
        _ => HANDLE_BUTTON_PRESS,
    }
}

/// The one-pop instruction pool, by index.
fn one_param_instruction(i: usize) -> (op: u8)
    requires
        i < 9,
    ensures
        emittable(op),
        spec_pops(op) == 1,
        is_branch(op) ==> op == IF,
        in_one_param_pool(op),
{
    match i {
        0 => NOT,
        1 => IF,
        2 => FORGET,
        3 => SET_SELECT_POS,
        4 => SET_SELECT_DEPTH,
        5 => SET_GRAB_POS,
        6 => SET_GRAB_DEPTH,
        7 => GET_CARD_NUM,
        _ => GET_CARD_SUIT,
    }
}

/// The two-pop instruction pool, by index.
fn two_param_instruction(i: usize) -> (op: u8)
    requires
        i < 20,
    ensures
        emittable(op),
        spec_pops(op) == 2,
        in_two_param_pool(op),
{
    match i {
        0 => ADD,
        1 => SUB,
        2 => MUL,
        3 => DIV,
        4 => MAX,
        5 => MIN,
        6 => AND,
        7 => OR,
        8 => EQ_BRANCH,
        9 => NE_BRANCH,
        10 => GT_BRANCH,
        11 => GE_BRANCH,
        12 => LT_BRANCH,
        13 => LE_BRANCH,
        14 => EQ,
        15 => NE,
        16 => GT,
        17 => GE,
        18 => LT,
        _ => LE,
    }
}

/// The full instruction pool, by index: everything the generator may emit,
/// including the three-pop pile transfer.
fn full_pool_instruction(i: usize) -> (op: u8)
    requires
        i < 47,
    ensures
        emittable(op),
        spec_pops(op) <= 3,
{
    match i {
        0 => NO_OP,
        1 => FILL_MOVE_TIMER,
        2 => GRAB,
        3 => DROP,
        4 => ADD,
        5 => SUB,
        6 => MUL,
        7 => DIV,
        8 => MAX,
        9 => MIN,
        10 => AND,
        11 => OR,
        12 => NOT,
        13 => IF,
        14 => EQ_BRANCH,
        15 => NE_BRANCH,
        16 => GT_BRANCH,
        17 => GE_BRANCH,
        18 => LT_BRANCH,
        19 => LE_BRANCH,
        20 => JUMP,
        21 => EQ,
        22 => NE,
        23 => GT,
        24 => GE,
        25 => LT,
        26 => LE,
        27 => GET_SELECT_POS,
        28 => SET_SELECT_POS,
        29 => GET_SELECT_DEPTH,
        30 => SET_SELECT_DEPTH,
        31 => GET_GRAB_POS,
        32 => SET_GRAB_POS,
        33 => GET_GRAB_DEPTH,
        34 => SET_GRAB_DEPTH,
        35 => LITERAL,
        36 => FORGET,
        37 => CAN_GRAB,
        38 => HANDLE_BUTTON_PRESS,
        39 => GET_CARD_NUM,
        40 => GET_CARD_SUIT,
        41 => GET_GRAB_CARD_OR_255,
        42 => GET_DROP_CARD_OR_255,
        43 => MOVE_CARDS,
        44 => GET_SELECT_DROP,
        45 => GET_CELL_LEN,
        _ => HALT,
    }
}

/// Draw one instruction fit for the current depth estimate: at depth zero
/// only zero-pop opcodes, at one also one-pop opcodes, at two also two-pop
/// opcodes, and from three on the full pool.
pub fn generate_instruction_compatible_with_stack_depth(
    rng: &mut rand::XorShiftRng,
    stack_depth: u8,
) -> (op: u8)
    ensures
        emittable(op),
        spec_pops(op) <= stack_depth,
        stack_depth == 0 ==> in_zero_param_pool(op),
        stack_depth == 1 ==> in_zero_param_pool(op) || in_one_param_pool(op),
        stack_depth == 2 ==> in_zero_param_pool(op) || in_one_param_pool(op) || in_two_param_pool(
            op,
        ),
        stack_depth < 3 ==> op != HALT && op != MOVE_CARDS,
{
    match stack_depth {
        0 => {
            let i = rng_uniform_index(rng, 16);
            zero_param_instruction(i)
        },
        1 => {
            if rng_gen_bool(rng) {
                let i = rng_uniform_index(rng, 9);
                one_param_instruction(i)
            } else {
                let i = rng_uniform_index(rng, 16);
                zero_param_instruction(i)
            }
        },
        2 => {
            let tier = rng_uniform_index(rng, 3);
            match tier {
                0 => {
                    let i = rng_uniform_index(rng, 16);
                    zero_param_instruction(i)
                },
                1 => {
                    let i = rng_uniform_index(rng, 9);
                    one_param_instruction(i)
                },
                _ => {
                    let i = rng_uniform_index(rng, 20);
                    two_param_instruction(i)
                },
            }
        },
        _ => {
            let i = rng_uniform_index(rng, 47);
            full_pool_instruction(i)
        },
    }
}

/// Lower the restriction recorded for `index` to at most `restriction`;
/// indexes beyond the table are ignored.
pub fn add_restriction(restrictions: &mut Vec<u8>, index: usize, restriction: u8)
    ensures
        final(restrictions)@.len() == old(restrictions)@.len(),
        index < old(restrictions)@.len() ==> final(restrictions)@ == old(restrictions)@.update(
            index as int,
            (if old(restrictions)@[index as int] < restriction {
                old(restrictions)@[index as int]
            } else {
                restriction
            }),
        ),
        index >= old(restrictions)@.len() ==> final(restrictions)@ == old(restrictions)@,
{
    if index < restrictions.len() {
        let cur = restrictions[index];
        let low = if cur < restriction {
            cur
        } else {
            restriction
        };
        restrictions[index] = low;
        proof {
            assert(restrictions@ =~= old(restrictions)@.update(index as int, low));
        }
    }
}

/// Emit one chosen instruction: apply its stack effect to the depth
/// estimate, and for a branch choose a forward target, emit the offset
/// byte, and record the depth cap at the absolute target position.  A
/// branch chosen for the final position has no room for an offset byte and
/// degrades to a no-op.
pub fn insert_instruction(
    rng: &mut rand::XorShiftRng,
    output: &mut Vec<u8>,
    stack_depth: &mut u8,
    restrictions: &mut Vec<u8>,
    instruction: u8,
    count: usize,
)
    requires
        emittable(instruction),
        old(output)@.len() < count,
        old(restrictions)@.len() == count,
        spec_pops(instruction) <= *old(stack_depth),
        count + 300 <= usize::MAX,
    ensures
        final(restrictions)@.len() == count,
        ({
            let l = old(output)@.len() as int;
            let prev = if l == 0 {
                NO_OP
            } else {
                old(output)@.last()
            };
            let d0 = *old(stack_depth) as int;
            if !is_branch(instruction) {
                &&& final(output)@ == old(output)@.push(instruction)
                &&& final(restrictions)@ == old(restrictions)@
                &&& *final(stack_depth) == spec_depth_after(instruction, prev, d0)
            } else if l == count - 1 {
                &&& final(output)@ == old(output)@.push(NO_OP)
                &&& final(restrictions)@ == old(restrictions)@
                &&& *final(stack_depth) == d0 - spec_pops(instruction)
            } else {
                let tb = final(output)@[l + 1];
                let dmid = imin(d0 - spec_pops(instruction), old(restrictions)@[l + 1] as int);
                let t = imin(l + 2 + tb, count - 1);
                &&& final(output)@ == old(output)@.push(instruction).push(tb)
                &&& emittable(tb) && spec_pops(tb) == 0 && !is_branch(tb)
                &&& (tb == 0 || l + 2 + tb < count)
                &&& *final(stack_depth) == dmid
                &&& final(restrictions)@ == old(restrictions)@.update(
                    t,
                    (if old(restrictions)@[t] < dmid {
                        old(restrictions)@[t]
                    } else {
                        dmid as u8
                    }),
                )
            }
        }),
{
    let len = output.len();
    let prev: u8 = if len == 0 {
        NO_OP
    } else {
        output[len - 1]
    };

    match instruction {
        GET_SELECT_POS | GET_SELECT_DEPTH | GET_GRAB_POS | GET_GRAB_DEPTH | LITERAL | CAN_GRAB
        | GET_GRAB_CARD_OR_255 | GET_DROP_CARD_OR_255 | GET_SELECT_DROP | GET_CELL_LEN => {
            if prev != LITERAL {
                *stack_depth = stack_depth.saturating_add(1);
            }
        },
        IF | FORGET | SET_SELECT_POS | SET_SELECT_DEPTH | SET_GRAB_POS | SET_GRAB_DEPTH => {
            *stack_depth = *stack_depth - 1;
        },
        ADD | SUB | MUL | DIV | MAX | MIN | AND | OR | EQ_BRANCH | NE_BRANCH | GT_BRANCH
        | GE_BRANCH | LT_BRANCH | LE_BRANCH | EQ | NE | GT | GE | LT | LE => {
            *stack_depth = *stack_depth - 2;
        },
        MOVE_CARDS => {
            *stack_depth = *stack_depth - 3;
        },
        _ => {},
    }

    match instruction {
        IF | EQ_BRANCH | NE_BRANCH | GT_BRANCH | GE_BRANCH | LT_BRANCH | LE_BRANCH | JUMP => {
            if len == count - 1 {
                output.push(NO_OP);
                return ;
            }
            let m = count - 1 - (len + 1);
            let maximum_valid_target: u8 = if m > 255 {
                255
            } else {
                m as u8
            };

            let mut candidates: Vec<u8> = Vec::new();
            let mut i: usize = 0;
            while i < 16
                invariant
                    i <= 16,
                    forall|j: int|
                        0 <= j < candidates@.len() ==> emittable(#[trigger] candidates@[j])
                            && spec_pops(candidates@[j]) == 0 && !is_branch(candidates@[j])
                            && candidates@[j] < maximum_valid_target,
                decreases 16 - i,
            {
                let inst = zero_param_instruction(i);
                if inst < maximum_valid_target && inst != JUMP {
                    candidates.push(inst);
                }
                i = i + 1;
            }

            let target: u8 = if candidates.len() == 0 {
                0
            } else {
                let idx = rng_gen_range(rng, 0, candidates.len());
                candidates[idx]
            };

            output.push(instruction);
            let len2 = output.len();
            if len2 < count {
                let r = restrictions[len2];
                if r < *stack_depth {
                    *stack_depth = r;
                }
            }
            output.push(target);

            let absolute_target = if len + 2 + (target as usize) > count - 1 {
                count - 1
            } else {
                len + 2 + (target as usize)
            };

            add_restriction(restrictions, absolute_target, *stack_depth);
        },
        _ => {
            output.push(instruction);
        },
    }
}

/// Membership in the targeted generator's zero-pop pool.
pub open spec fn in_grab_zero_param_pool(op: u8) -> bool {
    op == GET_GRAB_CARD_OR_255 || op == GET_DROP_CARD_OR_255 || op == GET_SELECT_DROP
}

/// Membership in the targeted generator's one-pop pool.
pub open spec fn in_grab_one_param_pool(op: u8) -> bool {
    op == NOT || op == FORGET || op == GET_CARD_NUM || op == GET_CARD_SUIT
}

/// Membership in the targeted generator's two-pop pool.
pub open spec fn in_grab_two_param_pool(op: u8) -> bool {
    is_binary_op(op) || is_compare_op(op)
}

/// The filler opcodes of the targeted generator: everything its three pools
/// can produce.  No branch or jump, no literal push, no halt, no pile
/// transfer, and nothing popping more than two values is among them.
pub open spec fn is_grab_filler(op: u8) -> bool {
    in_grab_zero_param_pool(op) || in_grab_one_param_pool(op) || in_grab_two_param_pool(op)
}

/// The required sequence stands intact at position `k` of the program, and
/// every byte outside it is a targeted-filler opcode.
pub open spec fn spliced_at(prog: Seq<u8>, req: Seq<u8>, k: int) -> bool {
    &&& 0 <= k
    &&& k + req.len() <= prog.len()
    &&& prog.subrange(k, k + req.len()) == req
    &&& forall|p: int|
        0 <= p < prog.len() && !(k <= p < k + req.len()) ==> is_grab_filler(#[trigger] prog[p])
}

/// The zero-pop pool the targeted generator draws from, by index.
fn grab_zero_param_instruction(i: usize) -> (op: u8)
    requires
        i < 3,
    ensures
        emittable(op),
        spec_pops(op) == 0,
        !takes_operand(op),
        in_grab_zero_param_pool(op),
{
    match i {
        0 => GET_GRAB_CARD_OR_255,
        1 => GET_DROP_CARD_OR_255,
        _ => GET_SELECT_DROP,
    }
}

/// The one-pop pool the targeted generator draws from, by index.
fn grab_one_param_instruction(i: usize) -> (op: u8)
    requires
        i < 4,
    ensures
        emittable(op),
        spec_pops(op) == 1,
        !takes_operand(op),
        in_grab_one_param_pool(op),
{
    match i {
        0 => NOT,
        1 => FORGET,
        2 => GET_CARD_NUM,
        _ => GET_CARD_SUIT,
    }
}

/// The two-pop pool the targeted generator draws from, by index.
fn grab_two_param_instruction(i: usize) -> (op: u8)
    requires
        i < 14,
    ensures
        emittable(op),
        spec_pops(op) == 2,
        !takes_operand(op),
        in_grab_two_param_pool(op),
{
    match i {
        0 => ADD,
        1 => SUB,
        2 => MUL,
        3 => DIV,
        4 => MAX,
        5 => MIN,
        6 => AND,
        7 => OR,
        8 => EQ,
        9 => NE,
        10 => GT,
        11 => GE,
        12 => LT,
        _ => LE,
    }
}

/// Draw one instruction for the targeted generator, fit for the current
/// depth estimate.  These pools leave branches and literal pushes out, so
/// the random filler around a spliced-in sequence never jumps into it.
#[allow(non_snake_case)]
pub fn generate_A_button_instruction_compatible_with_stack_depth(
    rng: &mut rand::XorShiftRng,
    stack_depth: u8,
) -> (op: u8)
    ensures
        emittable(op),
        is_grab_filler(op),
        spec_pops(op) <= stack_depth,
        spec_pops(op) <= 2,
        !takes_operand(op),
        op != HALT && op != MOVE_CARDS,
        stack_depth == 0 ==> in_grab_zero_param_pool(op),
        stack_depth == 1 ==> in_grab_zero_param_pool(op) || in_grab_one_param_pool(op),
{
    match stack_depth {
        0 => {
            let i = rng_uniform_index(rng, 3);
            grab_zero_param_instruction(i)
        },
        1 => {
            if rng_gen_bool(rng) {
                let i = rng_uniform_index(rng, 4);
                grab_one_param_instruction(i)
            } else {
                let i = rng_uniform_index(rng, 3);
                grab_zero_param_instruction(i)
            }
        },
        _ => {
            let tier = rng_uniform_index(rng, 3);
            match tier {
                0 => {
                    let i = rng_uniform_index(rng, 3);
                    grab_zero_param_instruction(i)
                },
                1 => {
                    let i = rng_uniform_index(rng, 4);
                    grab_one_param_instruction(i)
                },
                _ => {
                    let i = rng_uniform_index(rng, 14);
                    grab_two_param_instruction(i)
                },
            }
        },
    }
}

/// The witness conditions at `p` whose referenced positions lie below `l`:
/// the part of `crate::safety::checked_at` that is already settled while
/// the program is still growing.
pub open spec fn prefix_checked_at(prog: Seq<u8>, est: Seq<int>, p: int, l: int) -> bool {
    let op = prog[p];
    &&& emittable(op)
    &&& 0 <= est[p]
    &&& spec_pops(op) <= est[p]
    &&& (!takes_operand(op) && p + 1 < l ==> est[p + 1] <= est[p] - spec_pops(op) + spec_pushes(
        op,
    ))
    &&& (op == LITERAL && p + 2 < l ==> est[p + 2] <= est[p] + 1)
    &&& (is_branch(op) && p + 2 < l ==> est[p + 2] <= est[p] - spec_pops(op))
}

/// The jump-target condition for a branch at `p`: settled through the
/// witness for targets already emitted, and held as a recorded restriction
/// for targets still to come.
pub open spec fn branch_target_ok(
    prog: Seq<u8>,
    est: Seq<int>,
    rest: Seq<u8>,
    p: int,
    l: int,
    count: int,
) -> bool {
    is_branch(prog[p]) && p + 1 < l ==> {
        let t = p + 2 + prog[p + 1];
        &&& (t < l ==> est[t] <= est[p] - spec_pops(prog[p]))
        &&& (l <= t < count ==> rest[t] <= est[p] - spec_pops(prog[p]))
    }
}

/// What the running depth estimate owes the positions about to be emitted:
/// the fall-through obligations of the last one or two bytes.
pub open spec fn pending_ok(prog: Seq<u8>, est: Seq<int>, s: int, l: int) -> bool {
    &&& (l >= 1 ==> !is_branch(prog[l - 1]))
    &&& (l >= 1 && !takes_operand(prog[l - 1]) ==> s <= est[l - 1] - spec_pops(prog[l - 1])
        + spec_pushes(prog[l - 1]))
    &&& (l >= 1 && prog[l - 1] == LITERAL ==> s <= est[l - 1] + 1)
    &&& (l >= 2 && prog[l - 2] == LITERAL ==> s <= est[l - 2] + 1)
    &&& (l >= 2 && is_branch(prog[l - 2]) ==> s <= est[l - 2] - spec_pops(prog[l - 2]))
}

/// The generation loop's whole invariant: the emitted prefix carries its
/// witness, every placed jump is covered, and the running estimate honors
/// the pending fall-through obligations.
pub open spec fn gen_inv(prog: Seq<u8>, est: Seq<int>, rest: Seq<u8>, s: int, count: int) -> bool {
    let l = prog.len() as int;
    &&& est.len() == l
    &&& rest.len() == count
    &&& l <= count
    &&& 0 <= s <= 255
    &&& (l == 0 ==> s == 0)
    &&& (l > 0 ==> est[0] == 0)
    &&& (forall|p: int| 0 <= p < l ==> #[trigger] prefix_checked_at(prog, est, p, l))
    &&& (forall|p: int| 0 <= p < l ==> #[trigger] branch_target_ok(prog, est, rest, p, l, count))
    &&& pending_ok(prog, est, s, l)
}

/// A finished program whose generation invariant closed carries the full
/// witness.
proof fn lemma_gen_inv_complete(prog: Seq<u8>, est: Seq<int>, rest: Seq<u8>, s: int, count: int)
    requires
        gen_inv(prog, est, rest, s, count),
        prog.len() == count,
    ensures
        program_checked(prog, est),
{
    assert forall|p: int| 0 <= p < prog.len() implies #[trigger] crate::safety::checked_at(
        prog,
        est,
        p,
    ) by {
        assert(prefix_checked_at(prog, est, p, count));
        assert(branch_target_ok(prog, est, rest, p, count, count));
    }
}

/// The emission structure of a program the constrained generator built
/// toward target length `count`: `starts[p]` marks the bytes at which an
/// emission began.  Every emitted branch-family opcode is followed by
/// exactly one offset byte (never itself an emission start, never a branch,
/// always a zero-pop opcode), and the branch's jump target `p + 2 + offset`
/// lies within `[p + 2, count - 1]` — except that a branch emitted at
/// `count - 2` when no smaller offset was available carries offset zero,
/// whose target `count` means the run simply ends.
pub open spec fn generated_layout(prog: Seq<u8>, starts: Seq<bool>, count: int) -> bool {
    &&& starts.len() == prog.len()
    &&& (prog.len() > 0 ==> starts[0])
    &&& (forall|p: int|
        #![trigger starts[p + 1]]
        0 <= p < prog.len() - 1 ==> (!starts[p + 1] <==> (starts[p] && is_branch(prog[p]))))
    &&& (forall|p: int|
        #![trigger starts[p]]
        0 <= p < prog.len() && starts[p] && is_branch(prog[p]) ==> {
            &&& p + 2 <= prog.len()
            &&& emittable(prog[p + 1]) && spec_pops(prog[p + 1]) == 0 && !is_branch(prog[p + 1])
            &&& p + 2 + prog[p + 1] <= count
            &&& (prog[p + 1] == 0 || p + 2 + prog[p + 1] < count)
        })
}

/// Appending one non-branch emission keeps the layout.
proof fn lemma_layout_push_single(prog0: Seq<u8>, starts0: Seq<bool>, x: u8, count: int)
    requires
        generated_layout(prog0, starts0, count),
        !is_branch(x),
    ensures
        generated_layout(prog0.push(x), starts0.push(true), count),
{
    let prog1 = prog0.push(x);
    let starts1 = starts0.push(true);
    assert forall|p: int|
        0 <= p < prog1.len() - 1 implies (!starts1[p + 1] <==> (starts1[p] && is_branch(
        prog1[p],
    ))) by {
        if p < prog0.len() - 1 {
            assert(starts1[p] == starts0[p] && starts1[p + 1] == starts0[p + 1] && prog1[p]
                == prog0[p]);
        } else {
            if starts0[p] && is_branch(prog0[p]) {
                assert(p + 2 <= prog0.len());
            }
        }
    }
    assert forall|p: int|
        0 <= p < prog1.len() && starts1[p] && is_branch(prog1[p]) implies {
        &&& p + 2 <= prog1.len()
        &&& emittable(prog1[p + 1]) && spec_pops(prog1[p + 1]) == 0 && !is_branch(prog1[p + 1])
        &&& p + 2 + prog1[p + 1] <= count
        &&& (prog1[p + 1] == 0 || p + 2 + prog1[p + 1] < count)
    } by {
        assert(p < prog0.len());
        assert(starts0[p] && is_branch(prog0[p]));
        assert(p + 2 <= prog0.len());
        assert(prog1[p + 1] == prog0[p + 1]);
    }
}

/// Appending one branch emission — the opcode and its offset byte — keeps
/// the layout.
proof fn lemma_layout_push_branch(prog0: Seq<u8>, starts0: Seq<bool>, b: u8, tb: u8, count: int)
    requires
        generated_layout(prog0, starts0, count),
        is_branch(b),
        emittable(tb) && spec_pops(tb) == 0 && !is_branch(tb),
        prog0.len() + 2 + tb <= count,
        tb == 0 || prog0.len() + 2 + tb < count,
    ensures
        generated_layout(prog0.push(b).push(tb), starts0.push(true).push(false), count),
{
    let prog1 = prog0.push(b).push(tb);
    let starts1 = starts0.push(true).push(false);
    let l = prog0.len() as int;
    assert forall|p: int|
        0 <= p < prog1.len() - 1 implies (!starts1[p + 1] <==> (starts1[p] && is_branch(
        prog1[p],
    ))) by {
        if p < prog0.len() - 1 {
            assert(starts1[p] == starts0[p] && starts1[p + 1] == starts0[p + 1] && prog1[p]
                == prog0[p]);
        } else if p == prog0.len() - 1 {
            if starts0[p] && is_branch(prog0[p]) {
                assert(p + 2 <= prog0.len());
            }
            assert(starts1[p + 1]);
        } else {
            assert(p == l);
            assert(starts1[l] && is_branch(prog1[l]) && !starts1[l + 1]);
        }
    }
    assert forall|p: int|
        0 <= p < prog1.len() && starts1[p] && is_branch(prog1[p]) implies {
        &&& p + 2 <= prog1.len()
        &&& emittable(prog1[p + 1]) && spec_pops(prog1[p + 1]) == 0 && !is_branch(prog1[p + 1])
        &&& p + 2 + prog1[p + 1] <= count
        &&& (prog1[p + 1] == 0 || p + 2 + prog1[p + 1] < count)
    } by {
        if p < l {
            assert(starts0[p] && is_branch(prog0[p]));
            assert(p + 2 <= prog0.len());
            assert(prog1[p] == prog0[p] && prog1[p + 1] == prog0[p + 1]);
        } else {
            assert(p == l);
            assert(prog1[l] == b && prog1[l + 1] == tb);
        }
    }
}

/// Produce a random program of exactly `count` bytes that carries a safety
/// witness: interpreted from an empty stack it can neither underflow nor
/// overflow the operand stack (see
/// `crate::safety::lemma_checked_program_runs_safely`).
pub fn generate(rng: &mut rand::XorShiftRng, count: usize) -> (output: Vec<u8>)
    requires
        count + 300 <= usize::MAX,
    ensures
        output@.len() == count,
        safe_program(output@),
        forall|p: int| 0 <= p < output@.len() ==> emittable(#[trigger] output@[p]),
        exists|starts: Seq<bool>| generated_layout(output@, starts, count as int),
{
    let mut output: Vec<u8> = Vec::new();

    let mut restrictions: Vec<u8> = vec![255u8; count];

    let mut stack_depth: u8 = 0;

    let ghost mut est: Seq<int> = Seq::empty();
    let ghost mut starts: Seq<bool> = Seq::empty();

    while output.len() < count
        invariant
            count + 300 <= usize::MAX,
            restrictions@.len() == count,
            gen_inv(output@, est, restrictions@, stack_depth as int, count as int),
            generated_layout(output@, starts, count as int),
        decreases count - output@.len(),
    {
        let len = output.len();
        let ghost s_old = stack_depth as int;
        let ghost prog0 = output@;
        let ghost est_old = est;
        let ghost rest0 = restrictions@;
        let ghost l = prog0.len() as int;

        {
            let r = restrictions[len];
            if r < stack_depth {
                stack_depth = r;
            }
        }
        let ghost est_l = stack_depth as int;
        proof {
            est = est.push(est_l);
        }
        let instruction = generate_instruction_compatible_with_stack_depth(rng, stack_depth);
        let ghost prev = if l == 0 {
            NO_OP
        } else {
            prog0.last()
        };

        insert_instruction(rng, &mut output, &mut stack_depth, &mut restrictions, instruction,
            count);

        proof {
            let starts0 = starts;
            if is_branch(instruction) && l < count - 1 {
                est = est.push(stack_depth as int);
                starts = starts.push(true).push(false);
            } else {
                starts = starts.push(true);
            }
            let prog1 = output@;
            let est1 = est;
            let rest1 = restrictions@;
            let s1 = stack_depth as int;
            let c = count as int;

            assert(est_l <= s_old && est_l <= rest0[l]);
            assert(pending_ok(prog0, est_old, s_old, l));

            if !is_branch(instruction) || l == c - 1 {
                let x: u8 = if !is_branch(instruction) {
                    instruction
                } else {
                    NO_OP
                };
                lemma_layout_push_single(prog0, starts0, x, c);
                assert(prog1 == prog0.push(x));
                assert(est1 == est_old.push(est_l));
                assert(rest1 == rest0);

                assert forall|p: int| 0 <= p < l + 1 implies #[trigger] prefix_checked_at(
                    prog1,
                    est1,
                    p,
                    l + 1,
                ) by {
                    if p < l {
                        assert(prefix_checked_at(prog0, est_old, p, l));
                        assert(prog1[p] == prog0[p]);
                    }
                }
                assert forall|p: int| 0 <= p < l + 1 implies #[trigger] branch_target_ok(
                    prog1,
                    est1,
                    rest1,
                    p,
                    l + 1,
                    c,
                ) by {
                    if p < l {
                        assert(branch_target_ok(prog0, est_old, rest0, p, l, c));
                        assert(prog1[p] == prog0[p]);
                        if is_branch(prog1[p]) && p + 1 < l + 1 {
                            assert(p + 1 < l);
                            assert(prog1[p + 1] == prog0[p + 1]);
                        }
                    }
                }
                assert(pending_ok(prog1, est1, s1, l + 1));
            } else {
                let tb = prog1[l + 1];
                let dmid = imin(est_l - spec_pops(instruction), rest0[l + 1] as int);
                let t = imin(l + 2 + tb, c - 1);
                lemma_layout_push_branch(prog0, starts0, instruction, tb, c);
                assert(prog1 == prog0.push(instruction).push(tb));
                assert(est1 == est_old.push(est_l).push(dmid));
                assert(s1 == dmid);

                assert forall|p: int| 0 <= p < l + 2 implies #[trigger] prefix_checked_at(
                    prog1,
                    est1,
                    p,
                    l + 2,
                ) by {
                    if p < l {
                        assert(prefix_checked_at(prog0, est_old, p, l));
                        assert(prog1[p] == prog0[p]);
                    }
                }
                assert forall|p: int| 0 <= p < l + 2 implies #[trigger] branch_target_ok(
                    prog1,
                    est1,
                    rest1,
                    p,
                    l + 2,
                    c,
                ) by {
                    if p < l {
                        assert(branch_target_ok(prog0, est_old, rest0, p, l, c));
                        assert(prog1[p] == prog0[p]);
                        if is_branch(prog1[p]) && p + 1 < l + 2 {
                            assert(p + 1 < l);
                            assert(prog1[p + 1] == prog0[p + 1]);
                            let t2 = p + 2 + prog0[p + 1];
                            if l <= t2 < c {
                                assert(rest0[t2] <= est_old[p] - spec_pops(prog0[p]));
                                if t2 == l {
                                    assert(est1[t2] <= rest0[t2]);
                                } else if t2 == l + 1 {
                                    assert(est1[t2] <= rest0[t2]);
                                } else {
                                    assert(rest1[t2] <= rest0[t2]);
                                }
                            }
                        }
                    } else if p == l {
                        assert(is_branch(prog1[l]));
                        let t2 = l + 2 + tb;
                        if t2 < c {
                            assert(t2 == t);
                            assert(rest1[t2] <= dmid);
                        }
                    }
                }
                assert(pending_ok(prog1, est1, s1, l + 2));
            }
        }
    }
    proof {
        lemma_gen_inv_complete(output@, est, restrictions@, stack_depth as int, count as int);
        assert forall|p: int| 0 <= p < output@.len() implies emittable(#[trigger] output@[p]) by {
            assert(crate::safety::checked_at(output@, est, p));
        }
        assert(generated_layout(output@, starts, count as int));
    }
    output
}

/// The restriction table after an insertion capped positions `l + 1`
/// through `l + k` at `d`.
pub open spec fn capped_restrictions(rest0: Seq<u8>, l: int, k: int, d: int) -> Seq<u8> {
    Seq::new(
        rest0.len(),
        |q: int|
            if l + 1 <= q <= l + k {
                if rest0[q] < d {
                    rest0[q]
                } else {
                    d as u8
                }
            } else {
                rest0[q]
            },
    )
}

/// No branch already placed still points at or past the end of the emitted
/// prefix: every jump target of the program so far lies inside it.
pub open spec fn no_pending_targets(prog: Seq<u8>) -> bool {
    forall|p: int|
        #![trigger prog[p]]
        0 <= p < prog.len() && is_branch(prog[p]) && p + 1 < prog.len() ==> p + 2 + prog[p + 1]
            < prog.len()
}

/// The instruction sequence a "grab" is defined as: test the mode flag; in
/// drop mode transfer the grabbed run to the cursor and leave drop mode; in
/// select mode copy the select cursor into the grab registers and enter
/// grab mode.
pub open spec fn spec_grab_instructions() -> Seq<u8> {
    seq![
        IF,
        6u8,
        GET_GRAB_POS,
        GET_GRAB_DEPTH,
        GET_SELECT_POS,
        MOVE_CARDS,
        DROP,
        HALT,
        GET_SELECT_POS,
        SET_GRAB_POS,
        GET_SELECT_DEPTH,
        SET_GRAB_DEPTH,
        GRAB,
    ]
}

/// The grab sequence as a vector, for splicing and for searching output.
pub fn grab_instructions() -> (r: Vec<u8>)
    ensures
        r@ == spec_grab_instructions(),
{
    let mut r: Vec<u8> = Vec::new();
    r.push(IF);
    r.push(6u8);
    r.push(GET_GRAB_POS);
    r.push(GET_GRAB_DEPTH);
    r.push(GET_SELECT_POS);
    r.push(MOVE_CARDS);
    r.push(DROP);
    r.push(HALT);
    r.push(GET_SELECT_POS);
    r.push(SET_GRAB_POS);
    r.push(GET_SELECT_DEPTH);
    r.push(SET_GRAB_DEPTH);
    r.push(GRAB);
    proof {
        assert(r@ =~= spec_grab_instructions());
    }
    r
}

/// The witness entries for the grab sequence spliced in at depth `d`: the
/// straight-line depths through both arms of its conditional, with the
/// offset byte (which decodes as a two-pop opcode if ever jumped at, which
/// nothing does) given a bound deep enough for itself.
pub open spec fn grab_block_est(d: int) -> Seq<int> {
    seq![
        d,
        (if d < 2 {
            2int
        } else {
            d
        }),
        d - 1,
        d,
        d + 1,
        d + 2,
        d - 1,
        d - 1,
        d - 1,
        d,
        d - 1,
        d,
        d - 1,
    ]
}

/// As `generate`, but splice the caller's required instruction sequence
/// into the output at one randomly chosen, depth-compatible position.  When
/// the target length cannot even hold the sequence, the sequence itself is
/// returned.  Otherwise the output either holds the required sequence
/// intact with nothing but targeted-filler opcodes around it, or — when no
/// compatible slot was drawn — consists of filler alone.  The
/// no-underflow/no-overflow witness is established for the grab sequence
/// this generator is used with, spliced under its depth requirement of
/// one.
#[verifier::rlimit(100)]
#[verifier::spinoff_prover]
pub fn generate_containing_instructions(
    rng: &mut rand::XorShiftRng,
    count: usize,
    required_instructions: &[u8],
    instruction_restriction: u8,
) -> (output: Vec<u8>)
    requires
        count + 300 <= usize::MAX,
    ensures
        count <= required_instructions@.len() ==> output@ == required_instructions@,
        count > required_instructions@.len() ==> output@.len() == count,
        count > required_instructions@.len() ==> ((exists|k: int|
            spliced_at(output@, required_instructions@, k)) || (forall|p: int|
            0 <= p < output@.len() ==> is_grab_filler(#[trigger] output@[p]))),
        (count > required_instructions@.len() && required_instructions@
            == spec_grab_instructions() && instruction_restriction == 1) ==> safe_program(output@),
{
    let required_len = required_instructions.len();
    if count <= required_len {
        return vstd::slice::slice_to_vec(required_instructions);
    }

    let ghost hyp = required_instructions@ == spec_grab_instructions() && instruction_restriction
        == 1;

    let mut output: Vec<u8> = Vec::new();

    let mut restrictions: Vec<u8> = vec![255u8; count];

    let mut stack_depth: u8 = 0;

    let mut have_not_inserted = true;

    let ghost mut est: Seq<int> = Seq::empty();
    let ghost mut inserted_at: Option<int> = None;

    while output.len() < count
        invariant
            count + 300 <= usize::MAX,
            count > required_len,
            required_len == required_instructions@.len(),
            restrictions@.len() == count,
            hyp == (required_instructions@ == spec_grab_instructions() && instruction_restriction
                == 1),
            hyp ==> gen_inv(output@, est, restrictions@, stack_depth as int, count as int)
                && no_pending_targets(output@),
            output@.len() <= count,
            match inserted_at {
                None => have_not_inserted && forall|p: int|
                    0 <= p < output@.len() ==> is_grab_filler(#[trigger] output@[p]),
                Some(k) => !have_not_inserted && 0 <= k && k + required_len <= output@.len()
                    && output@.subrange(k, k + required_len as int) == required_instructions@
                    && forall|p: int|
                    0 <= p < output@.len() && !(k <= p < k + required_len) ==> is_grab_filler(
                        #[trigger] output@[p],
                    ),
            },
        decreases
            count - output@.len(),
            (if have_not_inserted {
                1int
            } else {
                0int
            }),
    {
        let len = output.len();
        let ghost s_old = stack_depth as int;
        let ghost prog0 = output@;
        let ghost est_old = est;
        let ghost rest0 = restrictions@;
        let ghost l = prog0.len() as int;

        {
            let r = restrictions[len];
            if r < stack_depth {
                stack_depth = r;
            }
        }
        let ghost est_l = stack_depth as int;

        let last_instruction_was_not_literal = if len == 0 {
            true
        } else {
            output[len - 1] != LITERAL
        };

        let mut should_insert = have_not_inserted && last_instruction_was_not_literal && count
            - len >= required_len;

        if should_insert {
            let mut within = true;
            let mut k: usize = 0;
            while k < required_len
                invariant
                    len + required_len <= count,
                    required_len == required_instructions@.len(),
                    restrictions@.len() == count,
                    k <= required_len,
                    within && k > 0 && instruction_restriction != 255 ==> stack_depth
                        >= instruction_restriction,
                decreases required_len - k,
            {
                let restriction = restrictions[len + k];
                let is_not_within_restrictions = (restriction != 255 && stack_depth < restriction)
                    || (instruction_restriction != 255 && stack_depth < instruction_restriction);
                if is_not_within_restrictions {
                    within = false;
                }
                k = k + 1;
            }
            should_insert = within;
        }

        if should_insert {
            if count - required_len != len {
                let coin = rng_gen_range(rng, 0, count - len);
                should_insert = coin == 0;
            }
        }

        if should_insert {
            let ghost d = stack_depth as int;
            proof {
                assert(restrictions@ =~= capped_restrictions(rest0, l, 0, d));
            }
            let mut bi: usize = 0;
            while bi < required_len
                invariant
                    len + required_len <= count,
                    required_len == required_instructions@.len(),
                    restrictions@.len() == count,
                    bi <= required_len,
                    output@ == prog0 + required_instructions@.subrange(0, bi as int),
                    d == stack_depth as int,
                    l == prog0.len() as int,
                    len == l,
                    rest0.len() == count,
                    restrictions@ == capped_restrictions(rest0, l, bi as int, d),
                decreases required_len - bi,
            {
                output.push(required_instructions[bi]);
                let ghost rest_before = restrictions@;
                let index = len + bi + 1;
                if index < count {
                    add_restriction(&mut restrictions, index, stack_depth);
                }
                proof {
                    assert(output@ =~= prog0 + required_instructions@.subrange(0, bi + 1));
                    assert forall|q: int| 0 <= q < count implies restrictions@[q]
                        == capped_restrictions(rest0, l, bi + 1, d)[q] by {
                        assert(rest_before[q] == capped_restrictions(rest0, l, bi as int, d)[q]);
                        assert(capped_restrictions(rest0, l, bi as int, d)[q] == (if l + 1 <= q
                            <= l + bi {
                            (if rest0[q] < d {
                                rest0[q]
                            } else {
                                d as u8
                            })
                        } else {
                            rest0[q]
                        }));
                        assert(capped_restrictions(rest0, l, bi + 1, d)[q] == (if l + 1 <= q <= l
                            + bi + 1 {
                            (if rest0[q] < d {
                                rest0[q]
                            } else {
                                d as u8
                            })
                        } else {
                            rest0[q]
                        }));
                        assert(stack_depth == d as u8);
                        if index < count {
                            if q == index {
                                assert(rest_before[q] == rest0[q]);
                                assert(restrictions@[q] == (if rest_before[index as int]
                                    < stack_depth {
                                    rest_before[index as int]
                                } else {
                                    stack_depth
                                }));
                            } else {
                                assert(restrictions@[q] == rest_before[q]);
                            }
                        } else {
                            assert(restrictions@[q] == rest_before[q]);
                            assert(q != index);
                        }
                    }
                    assert(restrictions@ =~= capped_restrictions(rest0, l, bi + 1, d));
                }
                bi = bi + 1;
            }

            if instruction_restriction != 255 {
                stack_depth = stack_depth.saturating_sub(instruction_restriction);
            }

            have_not_inserted = false;

            proof {
                inserted_at = Some(l);
                assert(required_instructions@.subrange(0, required_len as int)
                    =~= required_instructions@);
                assert(output@.subrange(l, l + required_len as int) =~= required_instructions@);
                assert forall|p: int|
                    0 <= p < output@.len() && !(l <= p < l + required_len) implies is_grab_filler(
                    #[trigger] output@[p],
                ) by {
                    assert(output@[p] == prog0[p]);
                }
            }

            proof {
                if hyp {
                    est = est + grab_block_est(d);
                    let prog1 = output@;
                    let est1 = est;
                    let rest1 = restrictions@;
                    let s1 = stack_depth as int;
                    let c = count as int;

                    assert(prog1 =~= prog0 + spec_grab_instructions());
                    assert(d >= 1);
                    assert(no_pending_targets(prog0));
                    assert(rest1 == capped_restrictions(rest0, l, 13, d));
                    assert(forall|q: int| 0 <= q < c ==> #[trigger] rest1[q] <= rest0[q]);
                    assert(s1 == d - 1);
                    assert(est_l == d);
                    assert(d <= s_old && d <= rest0[l]);
                    assert(pending_ok(prog0, est_old, s_old, l));
                    assert(l >= 1 ==> prog0[l - 1] != LITERAL);

                    assert forall|p: int| 0 <= p < l + 13 implies #[trigger] prefix_checked_at(
                        prog1,
                        est1,
                        p,
                        l + 13,
                    ) by {
                        if p < l {
                            assert(prefix_checked_at(prog0, est_old, p, l));
                            assert(prog1[p] == prog0[p]);
                        } else {
                            assert(prog1[p] == spec_grab_instructions()[p - l]);
                            assert(est1[p] == grab_block_est(d)[p - l]);
                            if p + 1 < l + 13 {
                                assert(est1[p + 1] == grab_block_est(d)[p + 1 - l]);
                            }
                            if p + 2 < l + 13 {
                                assert(est1[p + 2] == grab_block_est(d)[p + 2 - l]);
                            }
                        }
                    }
                    assert forall|p: int| 0 <= p < l + 13 implies #[trigger] branch_target_ok(
                        prog1,
                        est1,
                        rest1,
                        p,
                        l + 13,
                        c,
                    ) by {
                        if p < l {
                            assert(branch_target_ok(prog0, est_old, rest0, p, l, c));
                            assert(prog1[p] == prog0[p]);
                            if is_branch(prog1[p]) && p + 1 < l + 13 && p + 1 < l {
                                assert(prog1[p + 1] == prog0[p + 1]);
                                let t2 = p + 2 + prog0[p + 1];
                                assert(t2 < l);
                                assert(est1[t2] == est_old[t2]);
                            }
                            if is_branch(prog1[p]) && p + 1 == l {
                                assert(!is_branch(prog0[l - 1]));
                            }
                        } else if p == l {
                            assert(prog1[l] == IF);
                            assert(prog1[l + 1] == 6);
                            let t2 = l + 2 + 6;
                            assert(est1[t2] == grab_block_est(d)[8]);
                        } else {
                            assert(prog1[p] == spec_grab_instructions()[p - l]);
                            assert(!is_branch(prog1[p]));
                        }
                    }
                    assert(pending_ok(prog1, est1, s1, l + 13));
                    assert forall|p: int|
                        0 <= p < prog1.len() && is_branch(#[trigger] prog1[p]) && p + 1
                            < prog1.len() implies p + 2 + prog1[p + 1] < prog1.len() by {
                        if p < l {
                            if p + 1 < l {
                                assert(prog1[p] == prog0[p] && prog1[p + 1] == prog0[p + 1]);
                            } else {
                                assert(!is_branch(prog0[l - 1]));
                            }
                        } else {
                            assert(prog1[p] == spec_grab_instructions()[p - l]);
                            if p == l {
                                assert(prog1[l + 1] == 6);
                            }
                        }
                    }
                }
            }
        } else {
            proof {
                est = est.push(est_l);
            }
            let instruction = generate_A_button_instruction_compatible_with_stack_depth(
                rng,
                stack_depth,
            );
            let ghost prev = if l == 0 {
                NO_OP
            } else {
                prog0.last()
            };

            insert_instruction(rng, &mut output, &mut stack_depth, &mut restrictions, instruction,
                count);

            proof {
                assert(output@ == prog0.push(instruction));
                match inserted_at {
                    None => {},
                    Some(k) => {
                        assert(output@.subrange(k, k + required_len as int) =~= prog0.subrange(
                            k,
                            k + required_len as int,
                        ));
                    },
                }
            }

            proof {
                if hyp {
                    let prog1 = output@;
                    let est1 = est;
                    let rest1 = restrictions@;
                    let s1 = stack_depth as int;
                    let c = count as int;

                    assert(est_l <= s_old && est_l <= rest0[l]);
                    assert(pending_ok(prog0, est_old, s_old, l));

                    assert(prog1 == prog0.push(instruction));
                    assert(est1 == est_old.push(est_l));
                    assert(rest1 == rest0);

                    assert forall|p: int| 0 <= p < l + 1 implies #[trigger] prefix_checked_at(
                        prog1,
                        est1,
                        p,
                        l + 1,
                    ) by {
                        if p < l {
                            assert(prefix_checked_at(prog0, est_old, p, l));
                            assert(prog1[p] == prog0[p]);
                        }
                    }
                    assert forall|p: int| 0 <= p < l + 1 implies #[trigger] branch_target_ok(
                        prog1,
                        est1,
                        rest1,
                        p,
                        l + 1,
                        c,
                    ) by {
                        if p < l {
                            assert(branch_target_ok(prog0, est_old, rest0, p, l, c));
                            assert(prog1[p] == prog0[p]);
                            if is_branch(prog1[p]) && p + 1 < l + 1 {
                                assert(p + 1 < l);
                                assert(prog1[p + 1] == prog0[p + 1]);
                            }
                        }
                    }
                    assert(pending_ok(prog1, est1, s1, l + 1));
                    assert forall|p: int|
                        0 <= p < prog1.len() && is_branch(#[trigger] prog1[p]) && p + 1
                            < prog1.len() implies p + 2 + prog1[p + 1] < prog1.len() by {
                        if p < l {
                            if p + 1 < l {
                                assert(prog1[p] == prog0[p] && prog1[p + 1] == prog0[p + 1]);
                            } else {
                                assert(!is_branch(prog0[l - 1]));
                            }
                        }
                    }
                }
            }
        }
    }
    proof {
        if hyp {
            lemma_gen_inv_complete(output@, est, restrictions@, stack_depth as int, count as int);
        }
        match inserted_at {
            None => {},
            Some(k) => {
                assert(spliced_at(output@, required_instructions@, k));
            },
        }
    }
    output
}

/// Generate a program of length `count` that splices in the grab sequence:
/// besides carrying the safety witness, the output either holds the grab
/// sequence intact somewhere with only targeted-filler opcodes around it,
/// or (when no compatible slot was drawn) consists of filler alone.
pub fn generate_grab(rng: &mut rand::XorShiftRng, count: usize) -> (output: Vec<u8>)
    requires
        count + 300 <= usize::MAX,
    ensures
        count <= spec_grab_instructions().len() ==> output@ == spec_grab_instructions(),
        count > spec_grab_instructions().len() ==> output@.len() == count && safe_program(output@),
        count > spec_grab_instructions().len() ==> ((exists|k: int|
            spliced_at(output@, spec_grab_instructions(), k)) || (forall|p: int|
            0 <= p < output@.len() ==> is_grab_filler(#[trigger] output@[p]))),
{
    let req = grab_instructions();
    generate_containing_instructions(rng, count, req.as_slice(), 1)
}

/// A draw from `[low, high)`, or zero when the range is empty.
pub fn gen_range_or_0(rng: &mut rand::XorShiftRng, low: usize, high: usize) -> (r: usize)
    ensures
        low < high ==> low <= r < high,
        low >= high ==> r == 0,
{
    if low >= high {
        0
    } else {
        rng_gen_range(rng, low, high)
    }
}

} // verus!
