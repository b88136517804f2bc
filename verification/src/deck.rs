//! The draw pile and the discard pile: dealing, and reshuffling the discards
//! into the draw pile when it runs out.

use crate::card::{Card, Suit, Value};
use rand::{Rng, SeedableRng, StdRng};
use vstd::prelude::*;

verus! {

/// `rand::StdRng`, the random stream that a game owns. Nothing of its state
/// is visible to the proofs.
#[verifier::external_type_specification]
#[verifier::external_body]
pub struct ExStdRng(rand::StdRng);

/// `SeedableRng::from_seed` for `StdRng`, on a seed of one word. Nothing is
/// claimed of the stream it starts.
#[verifier::external_body]
pub(crate) fn seeded_rng(seed: usize) -> (rng: StdRng) {
    let words: &[usize] = &[seed];
    SeedableRng::from_seed(words)
}

/// `Rng::shuffle` on the cards of a vector. It only exchanges elements, so
/// the claim is that the same cards are there afterwards, each as often as
/// before; nothing is claimed of their order.
#[verifier::external_body]
pub(crate) fn shuffle(rng: &mut StdRng, cards: &mut Vec<Card>)
    ensures
        final(cards)@.to_multiset() == old(cards)@.to_multiset(),
        final(cards)@.len() == old(cards)@.len(),
{
    rng.shuffle(cards.as_mut_slice());
}

/// `Rng::gen_range` on `i32`. It panics unless `low < high`, and the claim
/// is that the number drawn lies in the half-open range; nothing is claimed
/// of which one it is.
#[verifier::external_body]
pub(crate) fn gen_range(rng: &mut StdRng, low: i32, high: i32) -> (drawn: i32)
    requires
        low < high,
    ensures
        low <= drawn < high,
{
    rng.gen_range(low, high)
}

/// The card that a deal hands out when there is nothing left to deal: the
/// ace of the first suit.
pub open spec fn fallback_card() -> Card {
    Card { suit: Suit::Spades, value: Value::Ace }
}

/// What `deal_parts` leaves behind and returns, given what it found.
///
/// With cards in the deck, the last one leaves it and nothing else moves.
/// With an empty deck and cards in the pile, the pile is emptied into the
/// deck, the deck is permuted, and then its last card leaves: so the deck
/// that is left and the card dealt are, together, the former pile's cards.
/// With both empty, both stay empty and the fallback card is returned.
pub open spec fn dealt(
    deck: Seq<Card>,
    pile: Seq<Card>,
    new_deck: Seq<Card>,
    new_pile: Seq<Card>,
    card: Card,
) -> bool {
    if deck.len() > 0 {
        &&& new_deck == deck.drop_last()
        &&& new_pile == pile
        &&& card == deck.last()
    } else if pile.len() > 0 {
        &&& new_pile.len() == 0
        &&& new_deck.len() == pile.len() - 1
        &&& new_deck.push(card).to_multiset() == pile.to_multiset()
    } else {
        &&& new_deck.len() == 0
        &&& new_pile.len() == 0
        &&& card == fallback_card()
    }
}

/// Deals one card from `deck`, first turning `pile` into a freshly shuffled
/// deck if the deck has run out.
pub fn deal_parts(deck: &mut Vec<Card>, pile: &mut Vec<Card>, rng: &mut StdRng) -> (card: Card)
    ensures
        dealt(old(deck)@, old(pile)@, final(deck)@, final(pile)@, card),
        old(deck)@.len() > 0 ==> *final(rng) == *old(rng),
{
    if deck.len() == 0 {
        deck.append(pile);
        assert(deck@ =~= old(pile)@);
        shuffle(rng, deck);
    }
    let ghost shuffled = deck@;
    match deck.pop() {
        Some(card) => {
            proof {
                if old(deck)@.len() == 0 {
                    assert(deck@.push(card) =~= shuffled);
                }
            }
            card
        },
        None => Card { suit: Suit::Spades, value: Value::Ace },
    }
}

} // verus!
