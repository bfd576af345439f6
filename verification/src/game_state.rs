//! The game state the machine operates on: sixteen card piles, the cursor
//! and grab registers, a grab/drop mode flag, and the operand stack.

use vstd::prelude::*;

use crate::cards::{
    cells_wf, Cells, BUTTON_COLUMN, CARD_BACK, CELLS_MAX_INDEX, CELL_COUNT, END_OF_FOUNDATIONS,
    FLOWER_CARD, MAX_SUIT_NUM, START_OF_TABLEAU,
};
use crate::rng::{rng_from_seed, rng_gen_seed, rng_gen_range};
use vstd::multiset::Multiset;
use crate::vm::{VM, STACK_SIZE};

verus! {

/// Number of frames a card move animation runs for.
pub const MOVE_TIMER_MAX: u8 = 8;

/// The full state the interpreter reads and writes.
pub struct GameState {
    pub cells: Cells,
    pub wins: u32,
    pub win_done: bool,
    pub selectdrop: bool,
    pub selectpos: u8,
    pub selectdepth: u8,
    pub grabpos: u8,
    pub grabdepth: u8,
    pub movetimer: u8,
    pub vm: VM,
    pub rng: rand::XorShiftRng,
}

/// The mathematical value of a [`GameState`]: everything the bytecode
/// machine's semantics can observe.  The pseudorandom generator is not part
/// of it; interpretation never touches it.
#[verifier::ext_equal]
pub ghost struct GsView {
    pub cells: Seq<Seq<u8>>,
    pub wins: u32,
    pub win_done: bool,
    pub selectdrop: bool,
    pub selectpos: u8,
    pub selectdepth: u8,
    pub grabpos: u8,
    pub grabdepth: u8,
    pub movetimer: u8,
    pub stack: Seq<u8>,
}

impl View for GameState {
    type V = GsView;

    open spec fn view(&self) -> GsView {
        GsView {
            cells: self.cells.deep_view(),
            wins: self.wins,
            win_done: self.win_done,
            selectdrop: self.selectdrop,
            selectpos: self.selectpos,
            selectdepth: self.selectdepth,
            grabpos: self.grabpos,
            grabdepth: self.grabdepth,
            movetimer: self.movetimer,
            stack: self.vm@,
        }
    }
}

/// The deck's numbered cards up to round `i`: one card of each of the
/// three suits for every number from 1 below `i`.
pub open spec fn deck_suit_prefix(i: int) -> Seq<u8>
    decreases i,
{
    if i <= 1 {
        Seq::<u8>::empty()
    } else {
        deck_suit_prefix(i - 1) + seq![(i - 1) as u8, (i + 9) as u8, (i + 19) as u8]
    }
}

/// `j - 1` rounds of one dragon of each suit.
pub open spec fn deck_dragon_prefix(j: int) -> Seq<u8>
    decreases j,
{
    if j <= 1 {
        Seq::<u8>::empty()
    } else {
        deck_dragon_prefix(j - 1) + seq![0u8, 10u8, 20u8]
    }
}

/// The full forty-card deck, in the order it is built: the nine numbered
/// cards of each of the three suits, four dragons of each suit, and the
/// flower.
pub open spec fn spec_full_deck() -> Seq<u8> {
    deck_suit_prefix(10) + deck_dragon_prefix(5) + seq![FLOWER_CARD]
}

/// All cards held by the board's first `n` piles, as a multiset.
pub open spec fn cells_card_multiset(cells: Seq<Seq<u8>>, n: int) -> Multiset<u8>
    decreases n,
{
    if n <= 0 {
        Multiset::<u8>::empty()
    } else {
        cells_card_multiset(cells, n - 1).add(cells[n - 1].to_multiset())
    }
}

/// Empty piles hold no cards.
proof fn lemma_cells_multiset_empty(cells: Seq<Seq<u8>>, n: int)
    requires
        forall|k: int| 0 <= k < n ==> cells[k].len() == 0,
    ensures
        cells_card_multiset(cells, n) =~= Multiset::<u8>::empty(),
    decreases n,
{
    broadcast use vstd::seq_lib::group_to_multiset_ensures;

    if n > 0 {
        lemma_cells_multiset_empty(cells, n - 1);
        assert(cells[n - 1].to_multiset().len() == 0);
        assert forall|x: u8| cells_card_multiset(cells, n).count(x) == 0 by {
            assert(cells[n - 1].to_multiset().count(x) == 0) by {
                if cells[n - 1].to_multiset().count(x) > 0 {
                    assert(cells[n - 1].contains(x));
                }
            }
        }
    }
}

/// Piles that agree element by element hold the same cards.
proof fn lemma_cells_multiset_frame(c1: Seq<Seq<u8>>, c2: Seq<Seq<u8>>, n: int)
    requires
        forall|k: int| 0 <= k < n ==> c1[k] == c2[k],
    ensures
        cells_card_multiset(c1, n) =~= cells_card_multiset(c2, n),
    decreases n,
{
    if n > 0 {
        lemma_cells_multiset_frame(c1, c2, n - 1);
    }
}

/// Pushing one card onto a pile adds exactly that card to the board's
/// cards.
proof fn lemma_cells_multiset_push(cells: Seq<Seq<u8>>, dp: int, card: u8, n: int)
    requires
        0 <= dp < n <= cells.len(),
    ensures
        cells_card_multiset(cells.update(dp, cells[dp].push(card)), n) =~= cells_card_multiset(
            cells,
            n,
        ).insert(card),
    decreases n,
{
    broadcast use vstd::seq_lib::group_to_multiset_ensures;

    let cells2 = cells.update(dp, cells[dp].push(card));
    if dp == n - 1 {
        lemma_cells_multiset_frame(cells, cells2, n - 1);
        assert(cells2[n - 1] == cells[dp].push(card));
        assert(cells2[n - 1].to_multiset() =~= cells[dp].to_multiset().insert(card));
    } else {
        lemma_cells_multiset_push(cells, dp, card, n - 1);
        assert(cells2[n - 1] == cells[n - 1]);
    }
}

/// Removing the card at `i` the way a swap-removal does takes exactly that
/// card out of the sequence's cards.
proof fn lemma_swap_remove_multiset(s: Seq<u8>, i: int)
    requires
        0 <= i < s.len(),
    ensures
        s.update(i, s.last()).drop_last().to_multiset() =~= s.to_multiset().remove(s[i]),
{
    broadcast use vstd::seq_lib::group_to_multiset_ensures;

    let s2 = s.update(i, s.last());
    assert(s2.drop_last() =~= s2.remove(s2.len() - 1));
    assert(s2.to_multiset() =~= s.to_multiset().remove(s[i]).insert(s.last()));
    assert(s2[s2.len() - 1] == s.last());
    assert(s2.remove(s2.len() - 1).to_multiset() =~= s2.to_multiset().remove(s.last()));
}

/// A well-formed machine state: sixteen piles, and a stack within capacity.
pub open spec fn gs_wf(v: GsView) -> bool {
    cells_wf(v.cells) && v.stack.len() <= STACK_SIZE
}

impl GameState {
    /// Sixteen piles and a stack within capacity.
    pub open spec fn wf(&self) -> bool {
        gs_wf(self@)
    }

    /// The state right after a deal: free cells, button column and
    /// foundations empty, five cards on each tableau pile, registers at their
    /// start values, the stack empty.
    pub open spec fn freshly_dealt(v: GsView) -> bool {
        &&& cells_wf(v.cells)
        &&& forall|i: int| 0 <= i < START_OF_TABLEAU ==> v.cells[i].len() == 0
        &&& forall|i: int| START_OF_TABLEAU <= i < CELL_COUNT ==> v.cells[i].len() == 5
        &&& v.wins == 0
        &&& !v.win_done
        &&& !v.selectdrop
        &&& v.selectpos == START_OF_TABLEAU
        &&& v.selectdepth == 0
        &&& v.grabpos == 1
        &&& v.grabdepth == 0
        &&& v.movetimer == 0
        &&& v.stack.len() == 0
    }

    /// Deal a fresh game from the given seed: the forty-card deck is dealt
    /// in random order, one card at a time, round-robin over the eight
    /// tableau piles.
    pub fn new(seed: [u8; 16]) -> (state: GameState)
        ensures
            state.wf(),
            GameState::freshly_dealt(state@),
            cells_card_multiset(state@.cells, CELL_COUNT as int) == spec_full_deck().to_multiset(),
    {
        let mut deck: Vec<u8> = Vec::new();

        let mut i: u8 = 1;
        while i <= MAX_SUIT_NUM
            invariant
                1 <= i <= MAX_SUIT_NUM + 1,
                deck@.len() == 3 * (i - 1),
                deck@ == deck_suit_prefix(i as int),
            decreases MAX_SUIT_NUM + 1 - i,
        {
            deck.push(i);
            deck.push(i + 10);
            deck.push(i + 20);
            proof {
                assert(deck@ =~= deck_suit_prefix(i + 1));
            }
            i = i + 1;
        }

        let mut j: u8 = 1;
        while j <= 4
            invariant
                1 <= j <= 5,
                deck@.len() == 27 + 3 * (j - 1),
                deck@ == deck_suit_prefix(10) + deck_dragon_prefix(j as int),
            decreases 5 - j,
        {
            deck.push(0);
            deck.push(10);
            deck.push(20);
            proof {
                assert(deck@ =~= deck_suit_prefix(10) + deck_dragon_prefix(j + 1));
            }
            j = j + 1;
        }

        deck.push(FLOWER_CARD);
        proof {
            assert(deck@ =~= spec_full_deck());
        }

        let mut rng = rng_from_seed(seed);

        let mut cells: Cells = Vec::new();
        while cells.len() < CELL_COUNT
            invariant
                cells.deep_view().len() == cells@.len(),
                cells@.len() <= CELL_COUNT,
                forall|k: int| 0 <= k < cells@.len() ==> cells.deep_view()[k].len() == 0,
            decreases CELL_COUNT - cells@.len(),
        {
            let ghost before = cells.deep_view();
            cells.push(Vec::new());
            proof {
                assert(cells.deep_view() =~~= before.push(Seq::<u8>::empty()));
            }
        }

        let mut deckpos: u8 = START_OF_TABLEAU;
        let ghost mut full: int = 0;
        let ghost mut rem: int = 0;
        proof {
            lemma_cells_multiset_empty(cells.deep_view(), CELL_COUNT as int);
            assert(cells_card_multiset(cells.deep_view(), CELL_COUNT as int).add(
                deck@.to_multiset(),
            ) =~= spec_full_deck().to_multiset());
        }
        while deck.len() > 0
            invariant
                cells.deep_view().len() == CELL_COUNT,
                deck@.len() + 8 * full + rem == 40,
                0 <= rem < 8,
                deckpos == START_OF_TABLEAU + rem,
                cells_card_multiset(cells.deep_view(), CELL_COUNT as int).add(deck@.to_multiset())
                    == spec_full_deck().to_multiset(),
                forall|k: int| 0 <= k < START_OF_TABLEAU ==> cells.deep_view()[k].len() == 0,
                forall|k: int|
                    0 <= k < 8 ==> #[trigger] cells.deep_view()[START_OF_TABLEAU + k].len()
                        == full + (if k < rem {
                        1int
                    } else {
                        0int
                    }),
            decreases deck@.len(),
        {
            let ghost deck_before = deck@;
            let index = rng_gen_range(&mut rng, 0, deck.len());
            let card = deck.swap_remove(index);
            let ghost before = cells.deep_view();
            cells[deckpos as usize].push(card);
            proof {
                assert(cells.deep_view() =~~= before.update(
                    deckpos as int,
                    before[deckpos as int].push(card),
                ));
                lemma_swap_remove_multiset(deck_before, index as int);
                lemma_cells_multiset_push(before, deckpos as int, card, CELL_COUNT as int);
                assert(deck_before.to_multiset().count(card) > 0) by {
                    broadcast use vstd::seq_lib::group_to_multiset_ensures;

                    assert(deck_before.contains(card));
                }
                assert(cells_card_multiset(cells.deep_view(), CELL_COUNT as int).add(
                    deck@.to_multiset(),
                ) =~= cells_card_multiset(before, CELL_COUNT as int).add(
                    deck_before.to_multiset(),
                ));
                rem = rem + 1;
                if rem == 8 {
                    full = full + 1;
                    rem = 0;
                }
            }

            deckpos = if deckpos >= CELLS_MAX_INDEX {
                START_OF_TABLEAU
            } else {
                deckpos + 1
            };
        }

        proof {
            assert(full == 5 && rem == 0);
            assert forall|k2: int|
                START_OF_TABLEAU <= k2 < CELL_COUNT implies cells.deep_view()[k2].len() == 5 by {
                assert(cells.deep_view()[START_OF_TABLEAU + (k2 - START_OF_TABLEAU)].len() == 5);
            }
            assert(deck@.to_multiset() =~= Multiset::<u8>::empty()) by {
                broadcast use vstd::seq_lib::group_to_multiset_ensures;

                assert forall|x: u8| deck@.to_multiset().count(x) == 0 by {
                    if deck@.to_multiset().count(x) > 0 {
                        assert(deck@.contains(x));
                    }
                }
            }
            assert(cells_card_multiset(cells.deep_view(), CELL_COUNT as int) =~= cells_card_multiset(
                cells.deep_view(),
                CELL_COUNT as int,
            ).add(deck@.to_multiset()));
        }

        GameState {
            cells,
            wins: 0,
            win_done: false,
            selectdrop: false,
            selectpos: START_OF_TABLEAU,
            selectdepth: 0,
            grabpos: 1,
            grabdepth: 0,
            movetimer: 0,
            vm: VM::new(),
            rng,
        }
    }

    /// Restart with a deal drawn from the current pseudorandom state.
    pub fn reset(&mut self)
        ensures
            final(self).wf(),
            GameState::freshly_dealt(final(self)@),
            cells_card_multiset(final(self)@.cells, CELL_COUNT as int) == spec_full_deck().to_multiset(),
    {
        let new_seed = rng_gen_seed(&mut self.rng);
        *self = GameState::new(new_seed);
    }
}

/// What a pile-to-pile transfer does to the board.  Positions are masked to
/// the valid pile-index range before indexing.  A drop onto a free cell or a
/// foundation (`droppos <= END_OF_FOUNDATIONS`) moves a single card: the top
/// of the grab pile replaces the bottom card of a non-empty target pile, or
/// becomes the sole card of an empty one.  A drop onto the tableau moves the
/// grabbed run (`grabdepth + 1` topmost cards) to the end of the target pile;
/// when the grab pile holds no card at that depth nothing moves.
///
/// Note the operand order at the machine level: the pile-transfer opcode
/// pops the drop position first (it is on top), then the grab depth, then
/// the grab position — a program pushes grab position, grab depth, drop
/// position, in that order.
pub open spec fn spec_movecards(
    cells: Seq<Seq<u8>>,
    grabpos: u8,
    grabdepth: u8,
    droppos: u8,
) -> Seq<Seq<u8>> {
    let g = (grabpos & 15) as int;
    let d = (droppos & 15) as int;
    if droppos <= END_OF_FOUNDATIONS {
        if cells[g].len() > 0 {
            let card = cells[g].last();
            let popped = cells.update(g, cells[g].drop_last());
            if popped[d].len() > 0 {
                popped.update(d, popped[d].update(0, card))
            } else {
                popped.update(d, seq![card])
            }
        } else {
            cells
        }
    } else {
        let len = cells[g].len() as int;
        if grabdepth < len {
            let moved = cells[g].subrange(len - 1 - grabdepth, len);
            let taken = cells.update(g, cells[g].subrange(0, len - 1 - grabdepth));
            taken.update(d, taken[d] + moved)
        } else {
            cells
        }
    }
}

/// Transfer cards from the grab position to the drop position.
pub fn movecards(state: &mut GameState, grabpos: u8, grabdepth: u8, droppos: u8)
    requires
        old(state).wf(),
    ensures
        final(state).wf(),
        final(state)@ == (GsView {
            cells: spec_movecards(old(state)@.cells, grabpos, grabdepth, droppos),
            ..old(state)@
        }),
{
    proof {
        assert((grabpos & 15) < 16 && (droppos & 15) < 16) by (bit_vector);
    }
    let g = (grabpos & 15) as usize;
    let d = (droppos & 15) as usize;
    if droppos <= END_OF_FOUNDATIONS {
        let popped = state.cells[g].pop();
        proof {
            if old(state)@.cells[g as int].len() > 0 {
                assert(state.cells.deep_view() =~~= old(state)@.cells.update(
                    g as int,
                    old(state)@.cells[g as int].drop_last(),
                ));
            } else {
                assert(state.cells.deep_view() =~~= old(state)@.cells);
            }
        }
        if let Some(last) = popped {
            let ghost mid = state.cells.deep_view();
            if state.cells[d].len() > 0 {
                state.cells[d][0] = last;
                proof {
                    assert(state.cells.deep_view() =~~= mid.update(
                        d as int,
                        mid[d as int].update(0, last),
                    ));
                }
            } else {
                state.cells[d].push(last);
                proof {
                    assert(state.cells.deep_view() =~~= mid.update(d as int, seq![last]));
                }
            }
        }
    } else {
        let len = state.cells[g].len();
        if (grabdepth as usize) < len {
            let mut temp = state.cells[g].split_off(len - 1 - grabdepth as usize);
            proof {
                assert(state.cells.deep_view() =~~= old(state)@.cells.update(
                    g as int,
                    old(state)@.cells[g as int].subrange(
                        0,
                        len - 1 - grabdepth,
                    ),
                ));
            }
            let ghost mid = state.cells.deep_view();
            state.cells[d].append(&mut temp);
            proof {
                assert(state.cells.deep_view() =~~= mid.update(
                    d as int,
                    mid[d as int] + old(state)@.cells[g as int].subrange(
                        len - 1 - grabdepth,
                        len as int,
                    ),
                ));
            }
        }
    }
}

/// The card byte that marks a dragon of `suit`: suit times ten, wrapped to a
/// byte as the machine's arithmetic does.
pub open spec fn spec_dragon_target(suit: u8) -> u8 {
    ((suit * 10) % 256) as u8
}

/// How many piles among the first `n` currently show a dragon of the target
/// kind on top.
pub open spec fn count_dragon_tops(cells: Seq<Seq<u8>>, target: u8, n: int) -> int
    decreases n,
{
    if n <= 0 {
        0
    } else {
        count_dragon_tops(cells, target, n - 1) + if cells[n - 1].len() > 0 && cells[n - 1].last()
            == target {
            1int
        } else {
            0int
        }
    }
}

/// All four dragons of the suit are on top of piles, and a free cell can
/// receive the resolved stack (an empty one, or one already showing such a
/// dragon).
pub open spec fn spec_canmovedragons(cells: Seq<Seq<u8>>, suit: u8) -> bool {
    let target = spec_dragon_target(suit);
    count_dragon_tops(cells, target, CELL_COUNT as int) >= 4 && exists|i: int|
        #![trigger cells[i]]
        0 <= i < BUTTON_COLUMN && (cells[i].len() == 0 || cells[i].last() == target)
}

/// Whether the four dragons of `suit` can be collected right now.
pub fn canmovedragons(state: &GameState, suit: u8) -> (can: bool)
    requires
        state.wf(),
    ensures
        can == spec_canmovedragons(state@.cells, suit),
{
    let target = ((suit as u16 * 10) % 256) as u8;
    let mut count: u8 = 0;
    let mut i: usize = 0;
    while i <= CELLS_MAX_INDEX as usize
        invariant
            state.wf(),
            target == spec_dragon_target(suit),
            i <= CELL_COUNT,
            count == count_dragon_tops(state@.cells, target, i as int),
            count <= i,
        decreases CELL_COUNT - i,
    {
        let pile_len = state.cells[i].len();
        if pile_len > 0 && state.cells[i][pile_len - 1] == target {
            count = count + 1;
        }
        i = i + 1;
    }

    if count < 4 {
        return false;
    }

    let mut i: usize = 0;
    while i < BUTTON_COLUMN as usize
        invariant
            state.wf(),
            target == spec_dragon_target(suit),
            i <= BUTTON_COLUMN,
            count >= 4,
            count == count_dragon_tops(state@.cells, target, CELL_COUNT as int),
            forall|j: int|
                #![trigger state@.cells[j]]
                0 <= j < i ==> !(state@.cells[j].len() == 0 || state@.cells[j].last() == target),
        decreases BUTTON_COLUMN - i,
    {
        let pile_len = state.cells[i].len();
        if pile_len == 0 || state.cells[i][pile_len - 1] == target {
            proof {
                assert(state@.cells[i as int].len() == 0 || state@.cells[i as int].last()
                    == target);
            }
            return true;
        }
        i = i + 1;
    }
    false
}

/// The free cell the resolved dragon stack lands on: the first free cell
/// already showing such a dragon, otherwise the first empty free cell.
pub open spec fn spec_dragon_dest(cells: Seq<Seq<u8>>, target: u8) -> Option<int> {
    if cells[0].len() != 0 && cells[0].last() == target {
        Some(0int)
    } else if cells[1].len() != 0 && cells[1].last() == target {
        Some(1int)
    } else if cells[2].len() != 0 && cells[2].last() == target {
        Some(2int)
    } else if cells[0].len() == 0 {
        Some(0int)
    } else if cells[1].len() == 0 {
        Some(1int)
    } else if cells[2].len() == 0 {
        Some(2int)
    } else {
        None
    }
}

/// Every pile whose top is a dragon of the target kind loses that top card.
pub open spec fn spec_pop_dragons(cells: Seq<Seq<u8>>, target: u8) -> Seq<Seq<u8>> {
    Seq::new(
        cells.len(),
        |i: int|
            if cells[i].len() > 0 && cells[i].last() == target {
                cells[i].drop_last()
            } else {
                cells[i]
            },
    )
}

/// What collecting the dragons of `suit` does to the board: all four shown
/// dragons are removed, and a face-down stack marker is placed on the
/// destination free cell, if there is one.
pub open spec fn spec_movedragons(cells: Seq<Seq<u8>>, suit: u8) -> Seq<Seq<u8>> {
    let target = spec_dragon_target(suit);
    let popped = spec_pop_dragons(cells, target);
    match spec_dragon_dest(cells, target) {
        Some(m) => popped.update(m, popped[m].push(CARD_BACK)),
        None => popped,
    }
}

/// Collect the dragons of the suit held in the select-depth register.
pub fn movedragons(state: &mut GameState)
    requires
        old(state).wf(),
    ensures
        final(state).wf(),
        final(state)@ == (GsView {
            cells: spec_movedragons(old(state)@.cells, old(state)@.selectdepth),
            ..old(state)@
        }),
{
    let suit = state.selectdepth;
    let target = ((suit as u16 * 10) % 256) as u8;
    let ghost orig = state@.cells;

    let mut moveto: Option<usize> = None;

    let mut i: usize = 0;
    while i < BUTTON_COLUMN as usize
        invariant
            state.wf(),
            state@.cells == orig,
            target == spec_dragon_target(suit),
            i <= BUTTON_COLUMN,
            match moveto {
                Some(m) => m < i && orig[m as int].len() != 0 && orig[m as int].last() == target
                    && forall|j: int|
                    0 <= j < m ==> !(#[trigger] orig[j].len() != 0 && orig[j].last() == target),
                None => forall|j: int|
                    0 <= j < i ==> !(#[trigger] orig[j].len() != 0 && orig[j].last() == target),
            },
        decreases BUTTON_COLUMN - i,
    {
        let pile_len = state.cells[i].len();
        if pile_len != 0 && state.cells[i][pile_len - 1] == target && moveto.is_none() {
            moveto = Some(i);
        }
        i = i + 1;
    }
    if moveto.is_none() {
        let mut i: usize = 0;
        while i < BUTTON_COLUMN as usize && moveto.is_none()
            invariant
                state.wf(),
                state@.cells == orig,
                i <= BUTTON_COLUMN,
                forall|j: int|
                    0 <= j < BUTTON_COLUMN ==> !(#[trigger] orig[j].len() != 0
                        && orig[j].last() == target),
                match moveto {
                    Some(m) => m < BUTTON_COLUMN && orig[m as int].len() == 0 && forall|j: int|
                        0 <= j < m ==> #[trigger] orig[j].len() != 0,
                    None => forall|j: int| 0 <= j < i ==> #[trigger] orig[j].len() != 0,
                },
            decreases BUTTON_COLUMN - i + (if moveto is None { 1int } else { 0int }),
        {
            if state.cells[i].len() == 0 {
                moveto = Some(i);
            } else {
                i = i + 1;
            }
        }
    }
    proof {
        assert(match moveto {
            Some(m) => spec_dragon_dest(orig, target) == Some(m as int),
            None => spec_dragon_dest(orig, target) is None,
        });
    }

    let mut i: usize = 0;
    while i <= CELLS_MAX_INDEX as usize
        invariant
            state.wf(),
            target == spec_dragon_target(suit),
            i <= CELL_COUNT,
            orig.len() == CELL_COUNT,
            state@.cells.len() == CELL_COUNT,
            forall|j: int|
                0 <= j < i ==> state@.cells[j] == #[trigger] spec_pop_dragons(orig, target)[j],
            forall|j: int| i <= j < CELL_COUNT ==> state@.cells[j] == #[trigger] orig[j],
            state@ == (GsView { cells: state@.cells, ..old(state)@ }),
        decreases CELL_COUNT - i,
    {
        let pile_len = state.cells[i].len();
        if pile_len != 0 && state.cells[i][pile_len - 1] == target {
            let ghost before = state.cells.deep_view();
            let _ = state.cells[i].pop();
            proof {
                assert(state.cells.deep_view() =~~= before.update(
                    i as int,
                    before[i as int].drop_last(),
                ));
            }
        }
        i = i + 1;
    }

    proof {
        assert(state.cells.deep_view() =~~= spec_pop_dragons(orig, target));
    }

    if let Some(m) = moveto {
        let ghost before = state.cells.deep_view();
        state.cells[m].push(CARD_BACK);
        proof {
            assert(state.cells.deep_view() =~~= before.update(
                m as int,
                before[m as int].push(CARD_BACK),
            ));
        }
    }
}

} // verus!
