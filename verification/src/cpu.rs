//! The CPU players: how one decides which card to give back, and how each
//! takes its turn.

use crate::card::{
    lemma_count_in_last, lemma_count_in_push, score_cards, Card, Hand, HandCard,
};
use crate::deck::{deal_parts, dealt};
use crate::state::{
    lemma_conserved_size, lemma_dealt_count, lemma_hands_count_update, Game, Participant, State,
};
use crate::text::{decimal, push_decimal};
use vstd::prelude::*;

verus! {

/// Which card goes back on the pile when a participant holds a hand and one
/// card more.
#[derive(Clone, Copy, Debug, PartialEq, Eq, Structural)]
pub enum ReturnSelection {
    /// The card at this position of the hand goes back, and the extra card
    /// takes its place.
    FromHand(HandCard),
    /// The extra card goes back, and the hand stays as it is.
    SelectedCard,
}

impl ReturnSelection {
    /// The hand after the selection has been carried out.
    pub open spec fn applied(self, hand: Hand, card: Card) -> Hand {
        match self {
            ReturnSelection::FromHand(position) => hand.with(position, card),
            ReturnSelection::SelectedCard => hand,
        }
    }

    /// The card that the selection gives back.
    pub open spec fn returned(self, hand: Hand, card: Card) -> Card {
        match self {
            ReturnSelection::FromHand(position) => hand.at(position),
            ReturnSelection::SelectedCard => card,
        }
    }
}

/// The selection that leaves the hand with the highest score. Of several
/// that do, the first in this order wins: keeping the hand, then replacing
/// its first, its second, its third card.
pub open spec fn best_selection(hand: Hand, card: Card) -> ReturnSelection {
    let keep = hand.score();
    let first = hand.with(HandCard::FirstCard, card).score();
    let second = hand.with(HandCard::SecondCard, card).score();
    let third = hand.with(HandCard::ThirdCard, card).score();
    if keep >= first && keep >= second && keep >= third {
        ReturnSelection::SelectedCard
    } else if first >= second && first >= third {
        ReturnSelection::FromHand(HandCard::FirstCard)
    } else if second >= third {
        ReturnSelection::FromHand(HandCard::SecondCard)
    } else {
        ReturnSelection::FromHand(HandCard::ThirdCard)
    }
}

/// Decides which card a CPU player gives back when it holds `hand` and
/// `card`. The decision depends on nothing but the two.
pub fn cpu_select_returned_card(hand: &Hand, card: &Card) -> (selection: ReturnSelection)
    ensures
        selection == best_selection(*hand, *card),
{
    let keep = score_cards(&hand.0, &hand.1, &hand.2);
    let first = score_cards(card, &hand.1, &hand.2);
    let second = score_cards(&hand.0, card, &hand.2);
    let third = score_cards(&hand.0, &hand.1, card);

    let mut max = keep;
    if first > max {
        max = first;
    }
    if second > max {
        max = second;
    }
    if third > max {
        max = third;
    }

    if max == keep {
        ReturnSelection::SelectedCard
    } else if max == first {
        ReturnSelection::FromHand(HandCard::FirstCard)
    } else if max == second {
        ReturnSelection::FromHand(HandCard::SecondCard)
    } else {
        ReturnSelection::FromHand(HandCard::ThirdCard)
    }
}

/// The best selection leaves a hand that scores at least as high as the hand
/// kept, and as the hand with any one card replaced; and it keeps the hand
/// whenever no replacement scores higher.
pub proof fn lemma_best_selection_is_best(hand: Hand, card: Card, position: HandCard)
    ensures
        best_selection(hand, card).applied(hand, card).score() >= hand.score(),
        best_selection(hand, card).applied(hand, card).score() >= hand.with(
            position,
            card,
        ).score(),
        best_selection(hand, card) == ReturnSelection::SelectedCard <==> (forall|p: HandCard|
            hand.score() >= (#[trigger] hand.with(p, card)).score()),
{
    if best_selection(hand, card) == ReturnSelection::SelectedCard {
        assert forall|p: HandCard| hand.score() >= (#[trigger] hand.with(p, card)).score() by {
            match p {
                HandCard::FirstCard => {},
                HandCard::SecondCard => {},
                HandCard::ThirdCard => {},
            }
        }
    } else {
        assert(hand.score() < hand.with(HandCard::FirstCard, card).score() || hand.score()
            < hand.with(HandCard::SecondCard, card).score() || hand.score() < hand.with(
            HandCard::ThirdCard,
            card,
        ).score());
    }
    match position {
        HandCard::FirstCard => {},
        HandCard::SecondCard => {},
        HandCard::ThirdCard => {},
    }
}

/// What the summary says when a CPU player takes the top of the pile.
pub open spec fn picked_up_text(index: int, card: Card) -> Seq<char> {
    "Cpu "@ + decimal(index as nat) + " picked up the "@ + card.text() + " off the pile\n"@
}

/// What the summary says when a CPU player draws from the deck.
pub open spec fn drew_text(index: int) -> Seq<char> {
    "Cpu "@ + decimal(index as nat) + " drew a card "@
}

/// What the summary says when a CPU player gives a card back.
pub open spec fn put_back_text(card: Card) -> Seq<char> {
    "and put a "@ + card.text() + " back on the pile.\n\n"@
}

/// Whether the CPU player `index` takes the top of the pile rather than draw
/// from the deck: there is a card on the pile, and holding it the CPU player
/// would give back a card of its hand.
pub open spec fn cpu_takes_pile(game: Game, index: int) -> bool {
    game.pile.len() > 0 && best_selection(game.cpu_players[index], game.pile.last())
        != ReturnSelection::SelectedCard
}

/// The game after the CPU player `index`, holding `card` besides its hand,
/// has given a card back: the card that its selection returns lies on top
/// of the pile, its hand is what the selection leaves, and the summary says
/// which card went back.
pub open spec fn cpu_settled(game: Game, index: int, card: Card) -> Game {
    cpu_put_back(game, index, card, best_selection(game.cpu_players[index], card))
}

/// The game after the CPU player `index`, holding `card` besides its hand,
/// has carried out a selection.
pub open spec fn cpu_put_back(
    game: Game,
    index: int,
    card: Card,
    selection: ReturnSelection,
) -> Game {
    let hand = game.cpu_players[index];
    Game {
        pile: game.pile.push(selection.returned(hand, card)),
        cpu_players: game.cpu_players.update(index, selection.applied(hand, card)),
        summary: game.summary + put_back_text(selection.returned(hand, card)),
        ..game
    }
}

/// The game after the CPU player `index` has picked up the top of the pile
/// and before it gives a card back.
pub open spec fn cpu_picked_up(game: Game, index: int) -> Game {
    Game {
        pile: game.pile.drop_last(),
        summary: game.summary + picked_up_text(index, game.pile.last()),
        ..game
    }
}

/// The game after the CPU player `index` has drawn from the deck, which
/// left `deck` and `pile`, and before it gives a card back.
pub open spec fn cpu_drew(game: Game, index: int, deck: Seq<Card>, pile: Seq<Card>) -> Game {
    Game { deck, pile, summary: game.summary + drew_text(index), ..game }
}

/// Whether `post` and `card` are what the CPU player `index` can make of
/// `pre` by getting itself a card: the top of the pile if it would swap that
/// into its hand, a card dealt from the deck if not.
pub open spec fn cpu_got_card(pre: Game, index: int, post: Game, card: Card) -> bool {
    if cpu_takes_pile(pre, index) {
        card == pre.pile.last() && post == cpu_picked_up(pre, index)
    } else {
        dealt(pre.deck, pre.pile, post.deck, post.pile, card) && post == cpu_drew(
            pre,
            index,
            post.deck,
            post.pile,
        )
    }
}

/// Whether `post` and `winner` are what the turn of the CPU player `index`
/// can make of `pre`.
///
/// A CPU player that the game does not have leaves the game as it is and does
/// not win. Otherwise the CPU player picks up the top of the pile if it would
/// swap it in, and is dealt a card if not; then it gives back the card that
/// its selection returns. It is the winner if its hand then wins.
pub open spec fn cpu_turn(pre: Game, index: int, post: Game, winner: Option<Participant>) -> bool {
    if 0 <= index < pre.cpu_players.len() {
        &&& exists|held: Game, card: Card|
            #[trigger] cpu_got_card(pre, index, held, card) && post == cpu_settled(
                held,
                index,
                card,
            )
        &&& winner == (if post.cpu_players[index].is_winning() {
            Some(Participant::Cpu(index as usize))
        } else {
            None
        })
    } else {
        post == pre && winner is None
    }
}

/// Carrying out a selection moves no card out of the game: afterwards the
/// game holds what it held and the card that the CPU player was holding
/// besides its hand.
pub proof fn lemma_cpu_put_back_count(
    game: Game,
    index: int,
    held: Card,
    selection: ReturnSelection,
    card: Card,
)
    requires
        0 <= index < game.cpu_players.len(),
    ensures
        cpu_put_back(game, index, held, selection).count(card) == game.count(card) + (if held
            == card {
            1int
        } else {
            0
        }),
{
    let hand = game.cpu_players[index];
    lemma_count_in_push(game.pile, selection.returned(hand, held), card);
    lemma_hands_count_update(game.cpu_players, index, selection.applied(hand, held), card);
}

/// Adds to the summary that a CPU player took the top of the pile.
fn push_picked_up_text(summary: &mut String, index: usize, card: &Card)
    ensures
        final(summary)@ == old(summary)@ + picked_up_text(index as int, *card),
{
    summary.append("Cpu ");
    push_decimal(summary, index);
    summary.append(" picked up the ");
    summary.append(card.to_string().as_str());
    summary.append(" off the pile\n");
    assert(summary@ =~= old(summary)@ + picked_up_text(index as int, *card));
}

/// Adds to the summary that a CPU player drew from the deck.
fn push_drew_text(summary: &mut String, index: usize)
    ensures
        final(summary)@ == old(summary)@ + drew_text(index as int),
{
    summary.append("Cpu ");
    push_decimal(summary, index);
    summary.append(" drew a card ");
    assert(summary@ =~= old(summary)@ + drew_text(index as int));
}

/// Adds to the summary that a CPU player gave a card back.
fn push_put_back_text(summary: &mut String, card: &Card)
    ensures
        final(summary)@ == old(summary)@ + put_back_text(*card),
{
    summary.append("and put a ");
    summary.append(card.to_string().as_str());
    summary.append(" back on the pile.\n\n");
    assert(summary@ =~= old(summary)@ + put_back_text(*card));
}

/// First half of a CPU player's turn: it picks up the top of the pile if it
/// would swap that into its hand, and is dealt a card from the deck if not.
/// Returns the card, which is then in no hand and neither in the deck nor on
/// the pile.
fn cpu_take_card(state: &mut State, cpu_index: usize) -> (card: Card)
    requires
        cpu_index < old(state)@.cpu_players.len(),
    ensures
        cpu_got_card(old(state)@, cpu_index as int, final(state)@, card),
        old(state)@.deck.len() > 0 || cpu_takes_pile(old(state)@, cpu_index as int)
            ==> final(state).rng == old(state).rng,
        old(state)@.wf() ==> forall|c: Card| #[trigger]
            final(state)@.count(c) + (if card == c {
                1int
            } else {
                0
            }) == 1,
{
    let cpu_hand = state.cpu_players[cpu_index];

    let pile_card_is_worth_taking = if state.pile.len() > 0 {
        let top = state.pile[state.pile.len() - 1];
        match cpu_select_returned_card(&cpu_hand, &top) {
            ReturnSelection::SelectedCard => false,
            _ => true,
        }
    } else {
        false
    };

    if pile_card_is_worth_taking {
        let card = state.pile.pop().unwrap();

        push_picked_up_text(&mut state.summary, cpu_index, &card);
        proof {
            assert(state@ =~= cpu_picked_up(old(state)@, cpu_index as int));
            if old(state)@.wf() {
                assert forall|c: Card| #[trigger]
                    state@.count(c) + (if card == c {
                        1int
                    } else {
                        0
                    }) == 1 by {
                    assert(old(state)@.count(c) == 1);
                    lemma_count_in_last(old(state)@.pile, c);
                }
            }
        }

        card
    } else {
        let card = deal_parts(&mut state.deck, &mut state.pile, &mut state.rng);

        push_drew_text(&mut state.summary, cpu_index);
        proof {
            assert(state@ =~= cpu_drew(old(state)@, cpu_index as int, state.deck@, state.pile@));
            if old(state)@.wf() {
                lemma_conserved_size(old(state)@);
                assert forall|c: Card| #[trigger]
                    state@.count(c) + (if card == c {
                        1int
                    } else {
                        0
                    }) == 1 by {
                    assert(old(state)@.count(c) == 1);
                    lemma_dealt_count(
                        old(state)@.deck,
                        old(state)@.pile,
                        state@.deck,
                        state@.pile,
                        card,
                        c,
                    );
                }
            }
        }

        card
    }
}

/// Second half of a CPU player's turn: holding `card` besides its hand, it
/// gives back the card that its selection returns. Returns the CPU player if
/// its hand now wins.
fn cpu_return_card(state: &mut State, cpu_index: usize, card: Card) -> (winner: Option<
    Participant,
>)
    requires
        cpu_index < old(state)@.cpu_players.len(),
    ensures
        final(state)@ == cpu_settled(old(state)@, cpu_index as int, card),
        winner == (if final(state)@.cpu_players[cpu_index as int].is_winning() {
            Some(Participant::Cpu(cpu_index))
        } else {
            None
        }),
        final(state).rng == old(state).rng,
{
    let mut cpu_hand = state.cpu_players[cpu_index];

    let choice = cpu_select_returned_card(&cpu_hand, &card);

    let returned_card = match choice {
        ReturnSelection::FromHand(card_index) => cpu_hand.swap(card_index, card),
        ReturnSelection::SelectedCard => card,
    };
    state.cpu_players[cpu_index] = cpu_hand;

    push_put_back_text(&mut state.summary, &returned_card);

    state.pile.push(returned_card);

    assert(state@ =~= cpu_settled(old(state)@, cpu_index as int, card));

    if cpu_hand.is_31() {
        Some(Participant::Cpu(cpu_index))
    } else {
        None
    }
}

/// Takes the turn of one CPU player. The CPU player picks up the top of the
/// pile if it would swap it into its hand, and draws from the deck if not;
/// either way it then gives one card back onto the pile, and the summary
/// tells what it did. Returns the CPU player if its hand now wins.
pub fn take_cpu_turn(state: &mut State, cpu_index: usize) -> (winner: Option<Participant>)
    ensures
        cpu_turn(old(state)@, cpu_index as int, final(state)@, winner),
        final(state)@.untouched_by_cpu(old(state)@),
        forall|other: int|
            0 <= other < old(state)@.cpu_players.len() && other != cpu_index
                ==> final(state)@.cpu_players[other] == old(state)@.cpu_players[other],
        cpu_index >= old(state)@.cpu_players.len() || old(state)@.deck.len() > 0
            || cpu_takes_pile(old(state)@, cpu_index as int)
            ==> final(state).rng == old(state).rng,
        final(state)@.deck.len() + 1 >= old(state)@.deck.len(),
        old(state)@.wf() ==> final(state)@.wf(),
{
    if cpu_index < state.cpu_players.len() {
        let card = cpu_take_card(state, cpu_index);
        let ghost held = state@;
        let winner = cpu_return_card(state, cpu_index, card);
        proof {
            if old(state)@.wf() {
                assert forall|c: Card| #[trigger] state@.count(c) == 1 by {
                    assert(held.count(c) + (if card == c {
                        1int
                    } else {
                        0
                    }) == 1);
                    lemma_cpu_put_back_count(
                        held,
                        cpu_index as int,
                        card,
                        best_selection(held.cpu_players[cpu_index as int], card),
                        c,
                    );
                }
            }
            assert(cpu_got_card(old(state)@, cpu_index as int, held, card));
        }
        winner
    } else {
        None
    }
}

/// Whether `post` and `winner` are what the turns of the first `count` CPU
/// players, taken in order, can make of `pre`. Once a CPU player has won, the
/// ones after it do not move.
pub open spec fn cpu_round(pre: Game, count: nat, post: Game, winner: Option<Participant>) -> bool
    decreases count,
{
    if count == 0 {
        post == pre && winner is None
    } else {
        exists|mid: Game, earlier: Option<Participant>|
            {
                &&& cpu_round(pre, (count - 1) as nat, mid, earlier)
                &&& #[trigger] cpu_round_step(mid, earlier, count - 1, post, winner)
            }
    }
}

/// Whether `post` and `winner` are what a round that stands at `mid`, won by
/// `earlier` if by anyone, becomes when it is the turn of the CPU player
/// `index`: the same if the round is won, and what that CPU player's turn
/// makes of it if not.
pub open spec fn cpu_round_step(
    mid: Game,
    earlier: Option<Participant>,
    index: int,
    post: Game,
    winner: Option<Participant>,
) -> bool {
    if earlier is Some {
        post == mid && winner == earlier
    } else {
        cpu_turn(mid, index, post, winner)
    }
}

/// A round grows by one CPU player: by nothing, if an earlier one has won;
/// by that CPU player's turn, if none has.
pub proof fn lemma_cpu_round_step(
    pre: Game,
    count: nat,
    mid: Game,
    earlier: Option<Participant>,
    post: Game,
    winner: Option<Participant>,
)
    requires
        cpu_round(pre, count, mid, earlier),
        cpu_round_step(mid, earlier, count as int, post, winner),
    ensures
        cpu_round(pre, count + 1, post, winner),
{
    assert(cpu_round(pre, ((count + 1) - 1) as nat, mid, earlier));
    assert(cpu_round_step(mid, earlier, (count + 1) - 1, post, winner));
}

/// A round that a CPU player has won stays as it is, however many more CPU
/// players there are.
pub proof fn lemma_cpu_round_stops(
    pre: Game,
    count: nat,
    post: Game,
    winner: Option<Participant>,
    more: nat,
)
    requires
        cpu_round(pre, count, post, winner),
        winner is Some,
        count <= more,
    ensures
        cpu_round(pre, more, post, winner),
    decreases more,
{
    if count < more {
        lemma_cpu_round_stops(pre, count, post, winner, (more - 1) as nat);
        lemma_cpu_round_step(pre, (more - 1) as nat, post, winner, post, winner);
    }
}

/// Whether `winner` is the first CPU player whose hand wins: every CPU player
/// before it, or every CPU player if there is no winner, holds a hand that
/// does not win.
pub open spec fn first_cpu_winner(game: Game, winner: Option<Participant>) -> bool {
    match winner {
        Some(Participant::Cpu(index)) => {
            &&& index < game.cpu_players.len()
            &&& game.cpu_players[index as int].is_winning()
            &&& forall|before: int|
                0 <= before < index ==> !(#[trigger] game.cpu_players[before]).is_winning()
        },
        Some(Participant::Player) => false,
        None => forall|index: int|
            0 <= index < game.cpu_players.len() ==> !(#[trigger] game.cpu_players[
                index
            ]).is_winning(),
    }
}

/// Takes the turns of the CPU players, in order, until one of them wins or
/// all have moved. The summary is started afresh and tells what each of them
/// did. Returns the first CPU player whose hand won, if any did. A deck with
/// a card for every CPU player does not run out, so that nothing is
/// reshuffled and the random stream stays where it stood.
pub fn cpu_turns(state: &mut State) -> (winner: Option<Participant>)
    ensures
        cpu_round(
            Game { summary: Seq::empty(), ..old(state)@ },
            old(state)@.cpu_players.len(),
            final(state)@,
            winner,
        ),
        first_cpu_winner(final(state)@, winner),
        final(state)@.untouched_by_cpu(old(state)@),
        old(state)@.deck.len() >= old(state)@.cpu_players.len()
            ==> final(state).rng == old(state).rng,
        old(state)@.wf() ==> final(state)@.wf(),
{
    state.summary = String::new();
    let ghost start = state@;
    assert(start =~= (Game { summary: Seq::empty(), ..old(state)@ }));
    assert(old(state)@.wf() ==> start.wf()) by {
        assert forall|c: Card| #[trigger] start.count(c) == old(state)@.count(c) by {}
    }
    let count = state.cpu_players.len();

    let mut i: usize = 0;
    while i < count
        invariant
            i <= count,
            count == start.cpu_players.len(),
            start == (Game { summary: Seq::empty(), ..old(state)@ }),
            cpu_round(start, i as nat, state@, None),
            state@.untouched_by_cpu(start),
            state@.deck.len() + i >= start.deck.len(),
            start.deck.len() >= count ==> state.rng == old(state).rng,
            old(state)@.wf() ==> state@.wf(),
            forall|before: int|
                0 <= before < i ==> !(#[trigger] state@.cpu_players[before]).is_winning(),
        decreases count - i,
    {
        let ghost mid = state@;
        let possible_winner = take_cpu_turn(state, i);
        proof {
            lemma_cpu_round_step(start, i as nat, mid, None, state@, possible_winner);
        }

        if possible_winner.is_some() {
            proof {
                lemma_cpu_round_stops(
                    start,
                    (i + 1) as nat,
                    state@,
                    possible_winner,
                    count as nat,
                );
            }
            return possible_winner;
        }
        i = i + 1;
    }

    None
}

/// A CPU player's turn moves no card out of the game.
pub proof fn lemma_cpu_turn_conserves(
    pre: Game,
    index: int,
    post: Game,
    winner: Option<Participant>,
)
    requires
        cpu_turn(pre, index, post, winner),
        pre.wf(),
    ensures
        post.wf(),
        post.untouched_by_cpu(pre),
{
    if 0 <= index < pre.cpu_players.len() {
        let (held, card) = choose|held: Game, card: Card|
            #[trigger] cpu_got_card(pre, index, held, card) && post == cpu_settled(
                held,
                index,
                card,
            );
        lemma_conserved_size(pre);
        assert forall|c: Card| #[trigger] post.count(c) == 1 by {
            assert(pre.count(c) == 1);
            if cpu_takes_pile(pre, index) {
                lemma_count_in_last(pre.pile, c);
            } else {
                lemma_dealt_count(pre.deck, pre.pile, held.deck, held.pile, card, c);
            }
            lemma_cpu_put_back_count(
                held,
                index,
                card,
                best_selection(held.cpu_players[index], card),
                c,
            );
        }
    }
}

/// The CPU players' turns move no card out of the game.
pub proof fn lemma_cpu_round_conserves(
    pre: Game,
    count: nat,
    post: Game,
    winner: Option<Participant>,
)
    requires
        cpu_round(pre, count, post, winner),
        pre.wf(),
    ensures
        post.wf(),
        post.untouched_by_cpu(pre),
    decreases count,
{
    if count > 0 {
        let (mid, earlier) = choose|mid: Game, earlier: Option<Participant>|
            {
                &&& cpu_round(pre, (count - 1) as nat, mid, earlier)
                &&& #[trigger] cpu_round_step(mid, earlier, count - 1, post, winner)
            };
        lemma_cpu_round_conserves(pre, (count - 1) as nat, mid, earlier);
        if earlier is None {
            lemma_cpu_turn_conserves(mid, count - 1, post, winner);
        }
    }
}

} // verus!
