//! Card encoding: a card is a single byte, split into a suit and a number.

use vstd::prelude::*;

verus! {

/// First card value of the green suit; red cards lie below it.
pub const FIRST_GREEN_CARD: u8 = 10;
/// First card value of the black suit.
pub const FIRST_BLACK_CARD: u8 = 20;
/// The single flower card.
pub const FLOWER_CARD: u8 = 30;
/// Marker for a resolved (face-down) dragon stack.
pub const CARD_BACK: u8 = 31;
/// Highest numbered card within a suit.
pub const MAX_SUIT_NUM: u8 = 9;

/// Number of card piles on the board.
pub const CELL_COUNT: usize = 16;
/// Index of the last pile.
pub const CELLS_MAX_INDEX: u8 = 15;
/// Piles below this index are the free cells; this index is the dragon button
/// column.
pub const BUTTON_COLUMN: u8 = 3;
/// The pile that collects the flower card.
pub const FLOWER_FOUNDATION: u8 = 4;
/// First of the three foundation piles.
pub const START_OF_FOUNDATIONS: u8 = 5;
/// Last of the three foundation piles.
pub const END_OF_FOUNDATIONS: u8 = 7;
/// First tableau pile; the eight tableau piles end the board.
pub const START_OF_TABLEAU: u8 = 8;

/// The board's card piles, always exactly [`CELL_COUNT`] of them.
pub type Cells = Vec<Vec<u8>>;

/// Piles are well formed when the board holds exactly [`CELL_COUNT`] of them.
pub open spec fn cells_wf(cells: Seq<Seq<u8>>) -> bool {
    cells.len() == CELL_COUNT
}

/// The suit a card byte belongs to: 0 = red, 1 = green, 2 = black, 3 = flower.
pub open spec fn spec_getsuit(card: u8) -> u8 {
    if card >= FLOWER_CARD {
        3
    } else if card >= FIRST_BLACK_CARD {
        2
    } else if card >= FIRST_GREEN_CARD {
        1
    } else {
        0
    }
}

pub fn getsuit(card: u8) -> (suit: u8)
    ensures
        suit == spec_getsuit(card),
{
    if card >= FLOWER_CARD {
        3
    } else if card >= FIRST_BLACK_CARD {
        2
    } else if card >= FIRST_GREEN_CARD {
        1
    } else {
        0
    }
}

/// The number of a card within its suit (0 marks a dragon).
pub open spec fn spec_getcardnum(card: u8) -> u8 {
    (card - spec_getsuit(card) * 10) as u8
}

pub fn getcardnum(card: u8) -> (num: u8)
    ensures
        num == spec_getcardnum(card),
{
    card - getsuit(card) * 10
}

/// The run of cards a cursor at (`pos`, `depth`) selects: the `depth + 1`
/// topmost cards of pile `pos & 15`, bottom-most first.  The selection is
/// empty when the pile is empty or holds fewer than `depth + 1` cards.
pub open spec fn spec_getselection(cells: Seq<Seq<u8>>, pos: u8, depth: u8) -> Seq<u8> {
    let pile = cells[(pos & 15) as int];
    if pile.len() == 0 || pile.len() < depth + 1 {
        Seq::<u8>::empty()
    } else {
        pile.subrange(pile.len() - (depth + 1), pile.len() as int)
    }
}

pub fn getselection(cells: &Cells, pos: u8, depth: u8) -> (sel: Vec<u8>)
    requires
        cells_wf(cells.deep_view()),
    ensures
        sel@ == spec_getselection(cells.deep_view(), pos, depth),
{
    proof {
        assert((pos & 15) < 16) by (bit_vector);
    }
    let ghost gpile = cells.deep_view()[(pos & 15) as int];
    let pile = &cells[(pos & 15) as usize];
    proof {
        assert(gpile =~= pile@);
    }
    let len = pile.len();
    if len == 0 || len < depth as usize + 1 {
        return Vec::new();
    }
    let take: usize = depth as usize + 1;
    let mut sel: Vec<u8> = Vec::new();
    proof {
        assert(sel@ =~= gpile.subrange(len - take, len - take));
    }
    let mut i: usize = 0;
    while i < take
        invariant
            take == depth + 1,
            take <= len,
            len == gpile.len(),
            gpile == pile@,
            gpile == cells.deep_view()[(pos & 15) as int],
            (pos & 15) < 16,
            cells_wf(cells.deep_view()),
            i <= take,
            sel@ == gpile.subrange(len - take, len - take + i),
        decreases take - i,
    {
        sel.push(pile[len - take + i]);
        proof {
            assert(sel@ =~= gpile.subrange(len - take, len - take + i + 1));
        }
        i = i + 1;
    }
    sel
}

/// Whether the selection at (`pos`, `depth`) may be grabbed: the selection is
/// non-empty, the position (masked to the pile-index range, like every
/// register read) is not the flower foundation or a foundation, and the
/// selected cards form a descending run of alternating suits with no
/// resolved dragon stack in it.
pub open spec fn spec_cangrab(cells: Seq<Seq<u8>>, pos: u8, depth: u8) -> bool {
    let sel = spec_getselection(cells, pos, depth);
    &&& sel.len() > 0
    &&& !((pos & 15) >= FLOWER_FOUNDATION && (pos & 15) < START_OF_TABLEAU)
    &&& forall|i: int| 0 <= i < sel.len() ==> sel[i] != CARD_BACK
    &&& forall|i: int|
        #![trigger sel[i]]
        1 <= i < sel.len() ==> spec_getsuit(sel[i]) != spec_getsuit(sel[i - 1])
            && spec_getcardnum(sel[i]) != 0 && spec_getcardnum(sel[i]) + 1 == spec_getcardnum(
            sel[i - 1],
        )
}

pub fn cangrab(cells: &Cells, pos: u8, depth: u8) -> (can: bool)
    requires
        cells_wf(cells.deep_view()),
    ensures
        can == spec_cangrab(cells.deep_view(), pos, depth),
{
    let selection = getselection(cells, pos, depth);
    if selection.len() == 0 || ((pos & 15) >= FLOWER_FOUNDATION && (pos & 15)
        < START_OF_TABLEAU) {
        return false;
    }
    let ghost gsel = selection@;
    let mut lastsuit: u8 = 255;
    let mut lastnum: u8 = 255;
    let mut first = true;
    let mut i: usize = 0;
    while i < selection.len()
        invariant
            gsel == selection@,
            gsel == spec_getselection(cells.deep_view(), pos, depth),
            i <= gsel.len(),
            first == (i == 0),
            !first ==> lastsuit == spec_getsuit(gsel[i - 1]) && lastnum == spec_getcardnum(
                gsel[i - 1],
            ),
            forall|j: int| 0 <= j < i ==> gsel[j] != CARD_BACK,
            forall|j: int|
                #![trigger gsel[j]]
                1 <= j < i ==> spec_getsuit(gsel[j]) != spec_getsuit(gsel[j - 1])
                    && spec_getcardnum(gsel[j]) != 0 && spec_getcardnum(gsel[j]) + 1
                    == spec_getcardnum(gsel[j - 1]),
        decreases gsel.len() - i,
    {
        let card = selection[i];
        if card == CARD_BACK {
            return false;
        }
        let suit = getsuit(card);
        let num = getcardnum(card);

        if !first {
            if suit == lastsuit || num == 0 || lastnum == 0 || num != lastnum - 1 {
                return false;
            }
        }
        lastsuit = suit;
        lastnum = num;
        first = false;
        i = i + 1;
    }
    true
}

} // verus!
