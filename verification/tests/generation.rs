//! The generators, driven end to end through the interpreter.

use std::collections::HashSet;

use rand::SeedableRng;

use cardvm::instructions::{
    ADD, AND, DIV, EQ, FORGET, GE, GET_CARD_NUM, GET_CARD_SUIT, GET_DROP_CARD_OR_255,
    GET_GRAB_CARD_OR_255, GET_SELECT_DEPTH, GET_SELECT_DROP, GT, JUMP, LE, LITERAL, LT, MAX, MIN,
    MUL, NE, NOT, OR, SUB,
};
use cardvm::{generate, generate_grab, grab_instructions, GameState};

const TEST_GENERATION_COUNT: usize = 100;

// https://stackoverflow.com/a/35907071/4496839
// O(mn)
fn find_subsequence<T>(haystack: &[T], needle: &[T]) -> Option<usize>
where
    for<'a> &'a [T]: PartialEq,
{
    haystack
        .windows(needle.len())
        .position(|window| window == needle)
}

#[test]
fn jump_at_the_end_does_not_crash() {
    let mut game_state = GameState::new([0; 16]);

    game_state.interpret(&[JUMP]).unwrap();
}

#[test]
fn jump_past_the_end_does_not_crash() {
    let mut game_state = GameState::new([0; 16]);

    game_state.interpret(&[JUMP, 255]).unwrap();
}

#[test]
fn dissect() {
    let mut game_state = GameState::new([0; 16]);

    game_state.interpret(&[LITERAL, GET_SELECT_DEPTH]).unwrap();
}

#[test]
fn replicate() {
    let mut game_state = GameState::new([0; 16]);

    game_state.cells = vec![
        vec![15, 18, 20, 22, 6],
        vec![20, 4, 12, 11, 27],
        vec![],
        vec![26, 0, 28, 0, 10],
        vec![3, 30, 5, 25, 21],
        vec![],
        vec![19, 23, 20, 10, 24],
        vec![13, 0, 14, 10, 7],
        vec![],
        vec![],
        vec![16, 9, 29, 8, 0],
        vec![],
        vec![17, 10, 2, 1, 20],
        vec![],
        vec![],
        vec![],
    ];

    // the failing quickcheck input was the pair (0, 0), whose bytes are all
    // zero
    let seed = [0u8; 16];

    let mut rng = rand::XorShiftRng::from_seed(seed);

    let insructions = generate_grab(&mut rng, TEST_GENERATION_COUNT);

    let grab = grab_instructions();
    let possible_base = find_subsequence(&insructions, &grab);

    let inserted_instruction_base = if let Some(inserted_instruction_base) = possible_base {
        inserted_instruction_base
    } else {
        assert!(possible_base.is_none());
        0
    };

    let mut visited: HashSet<usize> = HashSet::with_capacity(TEST_GENERATION_COUNT);

    for i in 0..16 {
        game_state.selectpos = i;

        for _ in 0..8 {
            let just_visited = game_state
                .interpret_and_return_visited_instruction_pointers(&insructions)
                .unwrap();

            for &v in just_visited.iter() {
                visited.insert(v);
            }

            game_state.vm.clear();
        }
    }

    let true_side_indices: [usize; 5] = [8, 9, 10, 11, 12];
    let false_side_indices: [usize; 6] = [2, 3, 4, 5, 6, 7];

    let to_absolute = |&i: &usize| i + inserted_instruction_base;

    let was_visited = |i| visited.contains(&i);

    let true_side_executed = true_side_indices.iter().map(to_absolute).all(was_visited);
    let false_side_executed = false_side_indices.iter().map(to_absolute).all(was_visited);

    assert!(true_side_executed && false_side_executed)
}

#[test]
fn generated_programs_have_the_requested_length() {
    let mut rng = rand::XorShiftRng::from_seed([7; 16]);

    for &count in [0usize, 1, 2, 13, 50, 100].iter() {
        let program = generate(&mut rng, count);
        assert_eq!(program.len(), count);
    }
}

#[test]
fn generated_programs_interpret_without_stack_faults() {
    for seed_byte in 0u8..16 {
        let mut rng = rand::XorShiftRng::from_seed([seed_byte; 16]);
        let program = generate(&mut rng, TEST_GENERATION_COUNT);

        let mut game_state = GameState::new([seed_byte; 16]);
        for _ in 0..8 {
            game_state.interpret(&program).unwrap();
            game_state.vm.clear();
        }
    }
}

#[test]
fn generate_grab_programs_interpret_without_stack_faults() {
    for seed_byte in 0u8..16 {
        let mut rng = rand::XorShiftRng::from_seed([seed_byte; 16]);
        let program = generate_grab(&mut rng, TEST_GENERATION_COUNT);

        let mut game_state = GameState::new([seed_byte; 16]);
        for _ in 0..8 {
            game_state.interpret(&program).unwrap();
            game_state.vm.clear();
        }
    }
}

fn is_grab_filler_opcode(op: u8) -> bool {
    [
        GET_GRAB_CARD_OR_255,
        GET_DROP_CARD_OR_255,
        GET_SELECT_DROP,
        NOT,
        FORGET,
        GET_CARD_NUM,
        GET_CARD_SUIT,
        ADD,
        SUB,
        MUL,
        DIV,
        MAX,
        MIN,
        AND,
        OR,
        EQ,
        NE,
        GT,
        GE,
        LT,
        LE,
    ]
    .contains(&op)
}

#[test]
fn grab_output_is_the_spliced_sequence_amid_filler() {
    let mut rng = rand::XorShiftRng::from_seed([0; 16]);

    let program = generate_grab(&mut rng, TEST_GENERATION_COUNT);
    let grab = grab_instructions();

    match find_subsequence(&program, &grab) {
        Some(base) => {
            for (p, &op) in program.iter().enumerate() {
                if !(base <= p && p < base + grab.len()) {
                    assert!(is_grab_filler_opcode(op), "byte {} at {} is no filler", op, p);
                }
            }
        },
        None => {
            for &op in program.iter() {
                assert!(is_grab_filler_opcode(op));
            }
        },
    }
}

#[test]
fn generate_grab_returns_the_sequence_when_it_cannot_fit_more() {
    let mut rng = rand::XorShiftRng::from_seed([3; 16]);

    let grab = grab_instructions();
    let program = generate_grab(&mut rng, 5);
    assert_eq!(program, grab);
}

#[test]
fn instruction_choice_respects_the_depth_tier() {
    let mut rng = rand::XorShiftRng::from_seed([9; 16]);

    for _ in 0..64 {
        let op = cardvm::generate_instruction_compatible_with_stack_depth(&mut rng, 0);
        // every zero-tier opcode pops nothing, so running one from an empty
        // stack cannot underflow
        let mut game_state = GameState::new([0; 16]);
        let code = [op, 0, 0];
        game_state.interpret(&code).unwrap();
    }
}

#[test]
fn gen_range_or_0_bounds() {
    let mut rng = rand::XorShiftRng::from_seed([1; 16]);

    for _ in 0..32 {
        let r = cardvm::gen_range_or_0(&mut rng, 3, 10);
        assert!(3 <= r && r < 10);
    }
    assert_eq!(cardvm::gen_range_or_0(&mut rng, 5, 2), 0);
    assert_eq!(cardvm::gen_range_or_0(&mut rng, 4, 4), 0);
}
