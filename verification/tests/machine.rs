//! The machine itself: instruction semantics, error reporting, and the
//! card-pile operations.

use cardvm::instructions::{
    ADD, ASSERT_EMPTY_STACK, DIV, EQ, EQ_BRANCH, GET_CELL_LEN, GET_GRAB_CARD_OR_255,
    GET_GRAB_CARD_OR_HALT, GET_GRAB_CARD_SUIT_OR_255, GET_SELECT_DEPTH, GET_SELECT_POS, GRAB,
    GT_BRANCH, HALT, HALT_UNLESS, HANDLE_BUTTON_PRESS, IF, LITERAL, MOVE_CARDS, NOT,
    SET_GRAB_DEPTH, SET_GRAB_POS, SET_SELECT_POS, SUB,
};
use cardvm::{
    cangrab, canmovedragons, getcardnum, getselection, getsuit, instruction_name, movecards,
    movedragons, GameState, Input, PrettyInstruction, VmError, VM,
};

fn empty_board() -> GameState {
    let mut state = GameState::new([0; 16]);
    for pile in state.cells.iter_mut() {
        pile.clear();
    }
    state
}

#[test]
fn literal_pushes_its_operand() {
    let mut game_state = GameState::new([0; 16]);

    game_state.interpret(&[LITERAL, 5]).unwrap();

    assert_eq!(game_state.vm.depth(), 1);
    assert_eq!(game_state.vm.pop(), 5);
}

#[test]
fn a_literal_operand_is_data_even_when_it_is_an_opcode_byte() {
    let mut game_state = GameState::new([0; 16]);

    // the byte after LITERAL is the ADD opcode, but it must be pushed as
    // data, not decoded: no underflow error can come from it
    game_state.interpret(&[LITERAL, ADD]).unwrap();

    assert_eq!(game_state.vm.pop(), ADD);
    assert!(game_state.vm.is_empty());
}

#[test]
fn an_empty_program_terminates_at_once() {
    let mut game_state = GameState::new([0; 16]);
    game_state.interpret(&[]).unwrap();
    assert!(game_state.vm.is_empty());
}

#[test]
fn grab_program_copies_select_registers() {
    let mut game_state = GameState::new([0; 16]);
    game_state.selectpos = 9;
    game_state.selectdepth = 2;

    game_state
        .interpret(&[GET_SELECT_POS, SET_GRAB_POS, GET_SELECT_DEPTH, SET_GRAB_DEPTH, GRAB])
        .unwrap();

    assert_eq!(game_state.grabpos, 9);
    assert_eq!(game_state.grabdepth, 2);
    assert!(game_state.selectdrop);
    assert!(game_state.vm.is_empty());
}

#[test]
fn add_on_an_empty_stack_is_rejected() {
    let mut game_state = GameState::new([0; 16]);

    assert_eq!(game_state.interpret(&[ADD]), Err(VmError::StackUnderflow));
    assert!(game_state.vm.is_empty());
}

#[test]
fn pushing_past_the_stack_capacity_is_rejected() {
    let mut game_state = GameState::new([0; 16]);

    let mut program = Vec::new();
    for _ in 0..513 {
        program.push(LITERAL);
        program.push(7);
    }

    assert_eq!(game_state.interpret(&program), Err(VmError::StackOverflow));
    assert_eq!(game_state.vm.depth(), 512);
}

#[test]
fn an_unassigned_byte_is_a_fatal_decode_error() {
    let mut game_state = GameState::new([0; 16]);

    assert_eq!(
        game_state.interpret(&[0b10_0000]),
        Err(VmError::UnimplementedInstruction)
    );
}

#[test]
fn the_empty_stack_assertion_reports_leftover_values() {
    let mut game_state = GameState::new([0; 16]);

    game_state.interpret(&[ASSERT_EMPTY_STACK]).unwrap();
    assert_eq!(
        game_state.interpret(&[LITERAL, 5, ASSERT_EMPTY_STACK]),
        Err(VmError::NonEmptyStackAssertion)
    );
}

#[test]
fn arithmetic_wraps_and_divide_by_zero_is_the_sentinel() {
    let mut game_state = GameState::new([0; 16]);

    game_state.interpret(&[LITERAL, 200, LITERAL, 100, ADD]).unwrap();
    assert_eq!(game_state.vm.pop(), 44);

    game_state.interpret(&[LITERAL, 3, LITERAL, 5, SUB]).unwrap();
    assert_eq!(game_state.vm.pop(), 254);

    game_state.interpret(&[LITERAL, 9, LITERAL, 0, DIV]).unwrap();
    assert_eq!(game_state.vm.pop(), 255);

    game_state.interpret(&[LITERAL, 0, NOT]).unwrap();
    assert_eq!(game_state.vm.pop(), 255);

    game_state.interpret(&[LITERAL, 7, NOT]).unwrap();
    assert_eq!(game_state.vm.pop(), 0);
}

#[test]
fn halt_unless_zero_halts_before_the_rest_runs() {
    let mut game_state = GameState::new([0; 16]);

    game_state
        .interpret(&[LITERAL, 0, HALT_UNLESS, LITERAL, 9])
        .unwrap();
    assert!(game_state.vm.is_empty());

    game_state
        .interpret(&[LITERAL, 1, HALT_UNLESS, LITERAL, 9])
        .unwrap();
    assert_eq!(game_state.vm.pop(), 9);
}

#[test]
fn register_positions_are_masked_to_the_pile_range() {
    let mut game_state = GameState::new([0; 16]);

    game_state.interpret(&[LITERAL, 255, SET_SELECT_POS]).unwrap();
    assert_eq!(game_state.selectpos, 15);
}

#[test]
fn cell_len_reads_the_selected_pile() {
    let mut game_state = GameState::new([0; 16]);
    game_state.selectpos = 8;

    game_state.interpret(&[GET_CELL_LEN]).unwrap();
    assert_eq!(game_state.vm.pop(), 5);
}

#[test]
fn grab_card_reads_under_the_grab_cursor() {
    let mut game_state = empty_board();
    game_state.cells[2] = vec![21, 22, 23];
    game_state.grabpos = 2;
    game_state.grabdepth = 1;

    game_state.interpret(&[GET_GRAB_CARD_OR_255]).unwrap();
    assert_eq!(game_state.vm.pop(), 22);

    game_state.grabdepth = 9;
    game_state.interpret(&[GET_GRAB_CARD_OR_255]).unwrap();
    assert_eq!(game_state.vm.pop(), 255);
}

#[test]
fn suits_and_numbers_decompose_cards() {
    assert_eq!(getsuit(0), 0);
    assert_eq!(getsuit(9), 0);
    assert_eq!(getsuit(10), 1);
    assert_eq!(getsuit(25), 2);
    assert_eq!(getsuit(30), 3);
    assert_eq!(getcardnum(7), 7);
    assert_eq!(getcardnum(17), 7);
    assert_eq!(getcardnum(20), 0);
    assert_eq!(getcardnum(30), 0);
}

#[test]
fn getselection_returns_the_topmost_run() {
    let mut state = empty_board();
    state.cells[8] = vec![5, 17, 6];

    assert_eq!(getselection(&state.cells, 8, 0), vec![6]);
    assert_eq!(getselection(&state.cells, 8, 2), vec![5, 17, 6]);
    assert_eq!(getselection(&state.cells, 8, 3), Vec::<u8>::new());
    assert_eq!(getselection(&state.cells, 9, 0), Vec::<u8>::new());
}

#[test]
fn cangrab_accepts_descending_alternating_runs_only() {
    let mut state = empty_board();

    // 7 of one suit on 18 (8 of another): a valid two-card run
    state.cells[8] = vec![18, 7];
    assert!(cangrab(&state.cells, 8, 1));

    // same suit in a row is not liftable
    state.cells[9] = vec![18, 17];
    assert!(!cangrab(&state.cells, 9, 1));

    // numbers must descend by exactly one
    state.cells[10] = vec![18, 6];
    assert!(!cangrab(&state.cells, 10, 1));

    // a resolved dragon stack is never liftable
    state.cells[11] = vec![31];
    assert!(!cangrab(&state.cells, 11, 0));

    // foundations cannot be grabbed from
    state.cells[5] = vec![7];
    assert!(!cangrab(&state.cells, 5, 0));

    // an out-of-range position is masked before every use, so 21 is the
    // foundation at pile 5 and stays ungrabbable
    assert!(!cangrab(&state.cells, 21, 0));

    // a single card is liftable
    assert!(cangrab(&state.cells, 8, 0));
}

#[test]
fn movecards_moves_a_run_onto_the_tableau() {
    let mut state = empty_board();
    state.cells[8] = vec![1, 18, 7];
    state.cells[9] = vec![19];

    movecards(&mut state, 8, 1, 9);

    assert_eq!(state.cells[8], vec![1]);
    assert_eq!(state.cells[9], vec![19, 18, 7]);
}

#[test]
fn movecards_to_a_foundation_moves_one_card() {
    let mut state = empty_board();
    state.cells[8] = vec![1, 2];
    state.cells[5] = vec![1];

    movecards(&mut state, 8, 0, 5);
    assert_eq!(state.cells[8], vec![1]);
    assert_eq!(state.cells[5], vec![2]);

    movecards(&mut state, 8, 0, 6);
    assert_eq!(state.cells[8], Vec::<u8>::new());
    assert_eq!(state.cells[6], vec![1]);
}

#[test]
fn movecards_with_too_deep_a_grab_moves_nothing() {
    let mut state = empty_board();
    state.cells[8] = vec![1, 2];

    movecards(&mut state, 8, 5, 9);
    assert_eq!(state.cells[8], vec![1, 2]);
    assert_eq!(state.cells[9], Vec::<u8>::new());
}

#[test]
fn dragons_collect_onto_a_free_cell() {
    let mut state = empty_board();
    // all four dragons of the first suit on top, one on a free cell
    state.cells[0] = vec![0];
    state.cells[8] = vec![5, 0];
    state.cells[9] = vec![0];
    state.cells[10] = vec![0];
    state.selectdepth = 0;

    assert!(canmovedragons(&state, 0));
    movedragons(&mut state);

    assert_eq!(state.cells[0], vec![31]);
    assert_eq!(state.cells[8], vec![5]);
    assert_eq!(state.cells[9], Vec::<u8>::new());
    assert_eq!(state.cells[10], Vec::<u8>::new());
}

#[test]
fn dragons_do_not_collect_without_a_destination() {
    let mut state = empty_board();
    state.cells[0] = vec![5];
    state.cells[1] = vec![6];
    state.cells[2] = vec![7];
    state.cells[8] = vec![0];
    state.cells[9] = vec![0];
    state.cells[10] = vec![0];
    state.cells[11] = vec![0];

    assert!(!canmovedragons(&state, 0));
}

#[test]
fn a_fresh_deal_fills_the_tableau() {
    let state = GameState::new([42; 16]);

    for i in 0..8 {
        assert_eq!(state.cells[i].len(), 0);
    }
    for i in 8..16 {
        assert_eq!(state.cells[i].len(), 5);
    }
    assert_eq!(state.selectpos, 8);
    assert_eq!(state.grabpos, 1);
    assert!(state.vm.is_empty());
}

#[test]
fn a_fresh_deal_holds_exactly_the_forty_card_deck() {
    let state = GameState::new([5; 16]);

    let mut dealt: Vec<u8> = Vec::new();
    for pile in state.cells.iter() {
        dealt.extend_from_slice(pile);
    }
    dealt.sort_unstable();

    let mut expected: Vec<u8> = Vec::new();
    for suit in 0..3u8 {
        for _ in 0..4 {
            expected.push(suit * 10);
        }
        for num in 1..10u8 {
            expected.push(suit * 10 + num);
        }
    }
    expected.push(30);
    expected.sort_unstable();

    assert_eq!(dealt, expected);
}

#[test]
fn reset_deals_a_fresh_board() {
    let mut state = GameState::new([42; 16]);
    state.cells[8].clear();
    state.wins = 3;

    state.reset();

    for i in 8..16 {
        assert_eq!(state.cells[i].len(), 5);
    }
    assert_eq!(state.wins, 0);
}

#[test]
fn the_stack_reports_its_contents() {
    let mut vm = VM::new();
    assert!(vm.is_empty());
    vm.push(3);
    vm.push(4);
    assert_eq!(vm.depth(), 2);
    assert_eq!(vm.pop(), 4);
    vm.clear();
    assert!(vm.is_empty());
    let default_vm = VM::default();
    assert!(default_vm.is_empty());
}

#[test]
fn opcodes_have_symbolic_names() {
    assert_eq!(instruction_name(HALT), "HALT");
    assert_eq!(instruction_name(LITERAL), "LITERAL");
    assert_eq!(instruction_name(0b10_0000), "unknown");
    assert_eq!(PrettyInstruction(ADD).name(), "ADD");
}

#[test]
fn pressed_this_frame_detects_edges() {
    let mut input = Input::new();
    input.gamepad = 1;
    assert!(input.pressed_this_frame(1));

    input.previous_gamepad = 1;
    assert!(!input.pressed_this_frame(1));

    assert!(!input.pressed_this_frame(2));
}

#[test]
fn a_taken_branch_skips_forward_by_its_offset() {
    let mut game_state = GameState::new([0; 16]);

    // equal operands: jump over the first literal push to the second
    game_state
        .interpret(&[LITERAL, 4, LITERAL, 4, EQ_BRANCH, 2, LITERAL, 1, LITERAL, 2])
        .unwrap();
    assert_eq!(game_state.vm.pop(), 2);
    assert!(game_state.vm.is_empty());
    game_state.vm.clear();

    // unequal operands for a greater-than branch: fall through, both pushes run
    game_state
        .interpret(&[LITERAL, 3, LITERAL, 4, GT_BRANCH, 2, LITERAL, 1, LITERAL, 2])
        .unwrap();
    assert_eq!(game_state.vm.depth(), 2);
}

#[test]
fn if_pops_its_condition_and_branches_on_nonzero() {
    let mut game_state = GameState::new([0; 16]);

    game_state.interpret(&[LITERAL, 255, IF, 2, LITERAL, 1, LITERAL, 2]).unwrap();
    assert_eq!(game_state.vm.pop(), 2);
    assert!(game_state.vm.is_empty());

    game_state.interpret(&[LITERAL, 0, IF, 2, LITERAL, 1, LITERAL, 2]).unwrap();
    assert_eq!(game_state.vm.depth(), 2);
}

#[test]
fn comparisons_push_the_boolean_byte() {
    let mut game_state = GameState::new([0; 16]);

    game_state.interpret(&[LITERAL, 4, LITERAL, 4, EQ]).unwrap();
    assert_eq!(game_state.vm.pop(), 255);

    game_state.interpret(&[LITERAL, 4, LITERAL, 5, EQ]).unwrap();
    assert_eq!(game_state.vm.pop(), 0);
}

#[test]
fn grab_card_or_halt_halts_on_the_missing_card() {
    let mut game_state = empty_board();
    game_state.grabpos = 2;
    game_state.grabdepth = 0;

    // empty grab pile: halt before the literal push runs
    game_state.interpret(&[GET_GRAB_CARD_OR_HALT, LITERAL, 9]).unwrap();
    assert!(game_state.vm.is_empty());

    game_state.cells[2] = vec![23];
    game_state.interpret(&[GET_GRAB_CARD_OR_HALT, LITERAL, 9]).unwrap();
    assert_eq!(game_state.vm.pop(), 9);
    assert_eq!(game_state.vm.pop(), 23);
}

#[test]
fn suit_accessor_reads_the_grabbed_card() {
    let mut game_state = empty_board();
    game_state.grabpos = 3;
    game_state.cells[3] = vec![23];

    game_state.interpret(&[GET_GRAB_CARD_SUIT_OR_255]).unwrap();
    assert_eq!(game_state.vm.pop(), 2);

    game_state.cells[3].clear();
    game_state.interpret(&[GET_GRAB_CARD_SUIT_OR_255]).unwrap();
    assert_eq!(game_state.vm.pop(), 255);
}

#[test]
fn handle_button_press_resolves_shown_dragons() {
    let mut game_state = empty_board();
    game_state.cells[0] = vec![10];
    game_state.cells[8] = vec![10];
    game_state.cells[9] = vec![10];
    game_state.cells[10] = vec![10];
    game_state.selectdepth = 1;
    game_state.selectdrop = true;

    game_state.interpret(&[HANDLE_BUTTON_PRESS]).unwrap();

    assert_eq!(game_state.cells[0], vec![31]);
    assert!(game_state.cells[8].is_empty());
    assert!(!game_state.selectdrop);
    assert_eq!(game_state.movetimer, cardvm::MOVE_TIMER_MAX);
}

#[test]
fn move_cards_opcode_transfers_with_popped_operands() {
    let mut game_state = empty_board();
    game_state.cells[8] = vec![18, 7];

    // operands are pushed as grab position, grab depth, drop position
    game_state
        .interpret(&[LITERAL, 8, LITERAL, 1, LITERAL, 9, MOVE_CARDS])
        .unwrap();

    assert!(game_state.cells[8].is_empty());
    assert_eq!(game_state.cells[9], vec![18, 7]);
    assert!(game_state.vm.is_empty());
}

#[test]
fn visited_pointers_cover_at_most_one_step_per_byte() {
    let mut game_state = GameState::new([0; 16]);

    let program = [LITERAL, 4, LITERAL, 4, EQ_BRANCH, 2, LITERAL, 1, LITERAL, 2];
    let visited = game_state
        .interpret_and_return_visited_instruction_pointers(&program)
        .unwrap();

    assert!(visited.len() <= program.len());
    // the two-byte instructions each record the operand position
    assert_eq!(visited, vec![1, 3, 7, 9]);
}

#[test]
fn halt_stops_the_run_where_it_stands() {
    let mut game_state = GameState::new([0; 16]);

    game_state.interpret(&[LITERAL, 1, HALT, LITERAL, 2]).unwrap();
    assert_eq!(game_state.vm.depth(), 1);
    assert_eq!(game_state.vm.pop(), 1);
}
