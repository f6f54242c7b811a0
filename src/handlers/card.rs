use vstd::prelude::*;

use crate::handlers::ApiError;
use crate::models::card::Card;
use crate::state::{card_views, State};

verus! {

/// All cards, in ascending id order.
pub fn get_all_cards(state: &State) -> (r: Vec<Card>)
    requires
        state.wf(),
    ensures
        card_views(r@) == state@.cards,
        forall|i: int, j: int| 0 <= i < j < r@.len() ==> r@[i]@.id < r@[j]@.id,
{
    proof {
        state.lemma_view_wf();
    }
    let count = state.card_count();
    let mut all_cards: Vec<Card> = Vec::new();
    let mut n: u64 = 0;
    while n < count
        invariant
            state.wf(),
            count == state@.cards.len(),
            n <= count,
            card_views(all_cards@) == state@.cards.take(n as int),
        decreases count - n,
    {
        let ghost prev = all_cards@;
        match state.card(n + 1) {
            Some(card) => {
                all_cards.push(*card);
                assert(all_cards@ == prev.push(*card));
                assert(card_views(all_cards@) =~= card_views(prev).push(card@));
            },
            None => {
                assert(false);
            },
        }
        n += 1;
        assert(card_views(all_cards@) =~= state@.cards.take(n as int));
    }
    assert(state@.cards.take(count as int) =~= state@.cards);
    assert forall|i: int, j: int| 0 <= i < j < all_cards@.len() implies all_cards@[i]@.id
        < all_cards@[j]@.id by {
        assert(card_views(all_cards@)[i] == all_cards@[i]@);
        assert(card_views(all_cards@)[j] == all_cards@[j]@);
    }
    all_cards
}

/// The card stored under `id`.
pub fn get_card(id: u64, state: &State) -> (r: Result<Card, ApiError>)
    requires
        state.wf(),
    ensures
        match state@.card_at(id) {
            Some(c) => r matches Ok(card) && card@ == c,
            None => r == Err::<Card, ApiError>(ApiError::NotFound),
        },
{
    match state.card(id) {
        Some(card) => Ok(*card),
        None => Err(ApiError::NotFound),
    }
}

} // verus!
