//! The states that a game can reach, and what holds of all of them.

use vstd::prelude::*;
use crate::board::Board;
use crate::moves::{lemma_place_food_single_head, lemma_tick_single_head};
use crate::preserved::{lemma_initial_inv, lemma_place_food_inv, lemma_tick_inv};

verus! {

/// What happens to a game: a step with the player's input, or the offer of a
/// position for the new food.
pub enum Event {
    Step(Option<u8>),
    Food(int),
}

/// The state that a new game is in after the given events, in their order.
pub open spec fn after(events: Seq<Event>) -> Board
    decreases events.len(),
{
    if events.len() == 0 {
        Board::initial()
    } else {
        let before = after(events.drop_last());
        match events.last() {
            Event::Step(key_input) => before.tick(key_input),
            Event::Food(k) => before.place_food(k),
        }
    }
}

/// Whether none of the events is a move onto an empty cell by a snake of more
/// than one segment.
pub open spec fn without_long_slide(events: Seq<Event>) -> bool
    decreases events.len(),
{
    if events.len() == 0 {
        true
    } else {
        let before = after(events.drop_last());
        &&& without_long_slide(events.drop_last())
        &&& match events.last() {
            Event::Step(key_input) => before.slides(key_input) ==> before.body.len() == 1,
            Event::Food(_) => true,
        }
    }
}

/// Every state that a game reaches satisfies the invariant: the head lies on
/// a `Head` cell, every segment on a `Head` or `Tail` cell of its own, the
/// snake fills exactly these cells, and at most one cell holds food.
pub proof fn lemma_reached_inv(events: Seq<Event>)
    ensures
        after(events).inv(),
    decreases events.len(),
{
    if events.len() == 0 {
        lemma_initial_inv();
    } else {
        let before = after(events.drop_last());
        lemma_reached_inv(events.drop_last());
        match events.last() {
            Event::Step(key_input) => lemma_tick_inv(before, key_input),
            Event::Food(k) => lemma_place_food_inv(before, k),
        }
    }
}

/// In every state that a game reaches before a snake of more than one segment
/// has moved onto an empty cell, the head's cell is the only `Head` cell.
pub proof fn lemma_reached_single_head(events: Seq<Event>)
    requires
        without_long_slide(events),
    ensures
        after(events).single_head(),
    decreases events.len(),
{
    if events.len() == 0 {
        lemma_initial_inv();
    } else {
        let before = after(events.drop_last());
        lemma_reached_inv(events.drop_last());
        lemma_reached_single_head(events.drop_last());
        match events.last() {
            Event::Step(key_input) => lemma_tick_single_head(before, key_input),
            Event::Food(k) => lemma_place_food_single_head(before, k),
        }
    }
}

} // verus!
