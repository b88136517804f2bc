//! The state of a game, and how a game is set up.

use crate::card::{
    count_in, full_deck, lemma_count_in_empty, lemma_count_in_last, lemma_count_in_push,
    lemma_full_deck_count, Card, Hand,
};
use crate::deck::{deal_parts, dealt, fallback_card, gen_range, seeded_rng, shuffle};
use crate::platform::{Size, Start};
use crate::text::{decimal, push_decimal};
use crate::widgets::UIContext;
use rand::StdRng;
use vstd::multiset::Multiset;
use vstd::prelude::*;

verus! {

/// Someone who takes part in a round: the player, or one of the CPU players
/// by its index.
#[derive(Clone, Copy, Debug, PartialEq, Eq, Structural)]
pub enum Participant {
    Player,
    Cpu(usize),
}

/// Where a round stands. The card that the player has drawn and not yet
/// placed lives here and nowhere else.
#[derive(Clone, Copy, Debug, PartialEq, Eq)]
pub enum Turn {
    /// The player is to draw from the deck or take the top of the pile.
    PlayerTurn,
    /// The player holds a card and is to put one back.
    PlayerSelected(Card),
    /// The CPU players are to move.
    CpuTurn,
    /// The CPU players have moved; what they did is on display.
    CpuSummary(Option<Participant>),
    /// The round is over.
    Resolution(Option<Participant>),
}

/// Everything a game consists of.
#[derive(Debug)]
pub struct State {
    /// The random stream, seeded once when the game was created.
    pub rng: StdRng,
    /// Whether the title screen is showing.
    pub title_screen: bool,
    /// The cards not dealt yet; the last one is dealt next.
    pub deck: Vec<Card>,
    /// The discards; the last one is on top.
    pub pile: Vec<Card>,
    /// The player's hand.
    pub player: Hand,
    /// The CPU players' hands, between one and four.
    pub cpu_players: Vec<Hand>,
    /// Where the round stands.
    pub turn: Turn,
    /// What the CPU players did on their last turn, for display.
    pub summary: String,
    /// Which widget is hot and which is active.
    pub ui_context: UIContext,
}

/// A game as the contracts see it: everything but the random stream.
pub struct Game {
    pub title_screen: bool,
    pub deck: Seq<Card>,
    pub pile: Seq<Card>,
    pub player: Hand,
    pub cpu_players: Seq<Hand>,
    pub turn: Turn,
    pub summary: Seq<char>,
    pub ui_context: UIContext,
}

impl View for State {
    type V = Game;

    open spec fn view(&self) -> Game {
        Game {
            title_screen: self.title_screen,
            deck: self.deck@,
            pile: self.pile@,
            player: self.player,
            cpu_players: self.cpu_players@,
            turn: self.turn,
            summary: self.summary@,
            ui_context: self.ui_context,
        }
    }
}

/// Fewest CPU players in a game.
pub const MIN_CPU_PLAYERS: i32 = 1;

/// Most CPU players in a game.
pub const MAX_CPU_PLAYERS: i32 = 4;

/// The seed of a game that replays alike every time.
pub const FIXED_SEED: usize = 42;

/// All the cards that the hands hold.
pub open spec fn hands_cards(hands: Seq<Hand>) -> Multiset<Card>
    decreases hands.len(),
{
    if hands.len() == 0 {
        Multiset::empty()
    } else {
        hands_cards(hands.drop_last()).add(hands.last().cards())
    }
}

/// How often the hands hold `card`.
pub open spec fn hands_count(hands: Seq<Hand>, card: Card) -> int
    decreases hands.len(),
{
    if hands.len() == 0 {
        0
    } else {
        hands_count(hands.drop_last(), card) + hands.last().count(card)
    }
}

impl Participant {
    /// The participant's name.
    pub open spec fn name(self) -> Seq<char> {
        match self {
            Participant::Player => "The player"@,
            Participant::Cpu(index) => "Cpu "@ + decimal(index as nat),
        }
    }

    /// The participant's name.
    pub fn to_string(&self) -> (name: String)
        ensures
            name@ == self.name(),
    {
        match self {
            Participant::Player => String::from_str("The player"),
            Participant::Cpu(index) => {
                let mut name = String::from_str("Cpu ");
                push_decimal(&mut name, *index);
                name
            },
        }
    }
}

impl Turn {
    /// The card that the turn holds, if it holds one.
    pub open spec fn held(self) -> Multiset<Card> {
        match self {
            Turn::PlayerSelected(card) => Multiset::singleton(card),
            _ => Multiset::empty(),
        }
    }

    /// How often the turn holds `card`: once if it is the card that the
    /// player has drawn and not yet placed.
    pub open spec fn count(self, card: Card) -> int {
        match self {
            Turn::PlayerSelected(held) if held == card => 1,
            _ => 0,
        }
    }
}

impl Game {
    /// Every card of the game, wherever it is: in the deck, on the pile, in
    /// a hand, or held by the turn.
    pub open spec fn cards(self) -> Multiset<Card> {
        self.deck.to_multiset().add(self.pile.to_multiset()).add(self.player.cards()).add(
            hands_cards(self.cpu_players),
        ).add(self.turn.held())
    }

    /// How often the game holds `card`, counting the deck, the pile, every
    /// hand, and the turn.
    pub open spec fn count(self, card: Card) -> int {
        count_in(self.deck, card) + count_in(self.pile, card) + self.player.count(card)
            + hands_count(self.cpu_players, card) + self.turn.count(card)
    }

    /// Whether the game holds exactly the full card set: every card is there
    /// once, in one place.
    pub open spec fn conserved(self) -> bool {
        forall|card: Card| #[trigger] self.count(card) == 1
    }

    /// Whether the game is one that play can reach: it holds exactly the
    /// full card set, and has between one and four CPU players.
    pub open spec fn wf(self) -> bool {
        &&& self.conserved()
        &&& MIN_CPU_PLAYERS <= self.cpu_players.len() <= MAX_CPU_PLAYERS
    }

    /// Whether the game has just been dealt: the player and every CPU player
    /// hold three cards each, one card lies on the pile and the rest is in the
    /// deck; the player is to move, nothing has been said of the CPU players
    /// and no widget is hot or active.
    pub open spec fn just_dealt(self, title_screen: bool) -> bool {
        &&& self.wf()
        &&& self.title_screen == title_screen
        &&& self.deck.len() == 52 - 3 - 3 * self.cpu_players.len() - 1
        &&& self.pile.len() == 1
        &&& self.turn == Turn::PlayerTurn
        &&& self.summary.len() == 0
        &&& self.ui_context == UIContext::fresh()
    }

    /// Whether this game has everything that the CPU players do not touch
    /// as `before` had it: the title screen, the player's hand, the turn and
    /// the widgets' context; and as many CPU players.
    pub open spec fn untouched_by_cpu(self, before: Game) -> bool {
        &&& self.title_screen == before.title_screen
        &&& self.player == before.player
        &&& self.turn == before.turn
        &&& self.ui_context == before.ui_context
        &&& self.cpu_players.len() == before.cpu_players.len()
    }
}

/// Deals one card from the game's deck, reshuffling the pile into it first
/// if the deck has run out.
pub fn deal(state: &mut State) -> (card: Card)
    ensures
        dealt(old(state)@.deck, old(state)@.pile, final(state)@.deck, final(state)@.pile, card),
        final(state)@ == (Game {
            deck: final(state)@.deck,
            pile: final(state)@.pile,
            ..old(state)@
        }),
        old(state)@.deck.len() > 0 ==> final(state).rng == old(state).rng,
{
    deal_parts(&mut state.deck, &mut state.pile, &mut state.rng)
}

/// The hands with one more hold what they held and the new hand's cards.
pub proof fn lemma_hands_count_push(hands: Seq<Hand>, hand: Hand, card: Card)
    ensures
        hands_count(hands.push(hand), card) == hands_count(hands, card) + hand.count(card),
{
    assert(hands.push(hand).drop_last() =~= hands);
}

/// The hands hold no card less than no times.
pub proof fn lemma_hands_count_not_negative(hands: Seq<Hand>, card: Card)
    ensures
        hands_count(hands, card) >= 0,
    decreases hands.len(),
{
    if hands.len() > 0 {
        lemma_hands_count_not_negative(hands.drop_last(), card);
    }
}

/// Replacing one hand changes what the hands hold by that hand's cards.
pub proof fn lemma_hands_count_update(hands: Seq<Hand>, index: int, hand: Hand, card: Card)
    requires
        0 <= index < hands.len(),
    ensures
        hands_count(hands.update(index, hand), card) == hands_count(hands, card)
            - hands[index].count(card) + hand.count(card),
    decreases hands.len(),
{
    let updated = hands.update(index, hand);
    if index == hands.len() - 1 {
        assert(updated.drop_last() =~= hands.drop_last());
    } else {
        lemma_hands_count_update(hands.drop_last(), index, hand, card);
        assert(updated.drop_last() =~= hands.drop_last().update(index, hand));
    }
}

/// A deal that found a card to deal moves that card out of the deck and the
/// pile, and keeps every other card in one of the two.
pub proof fn lemma_dealt_count(
    deck: Seq<Card>,
    pile: Seq<Card>,
    new_deck: Seq<Card>,
    new_pile: Seq<Card>,
    dealt_card: Card,
    card: Card,
)
    requires
        dealt(deck, pile, new_deck, new_pile, dealt_card),
        deck.len() + pile.len() > 0,
    ensures
        count_in(new_deck, card) + count_in(new_pile, card) + (if dealt_card == card {
            1int
        } else {
            0
        }) == count_in(deck, card) + count_in(pile, card),
{
    if deck.len() > 0 {
        lemma_count_in_last(deck, card);
    } else {
        lemma_count_in_push(new_deck, dealt_card, card);
        assert(deck =~= Seq::<Card>::empty());
        assert(new_pile =~= Seq::<Card>::empty());
        lemma_count_in_empty(card);
    }
}

/// A hand's three cards, as a multiset, hold each card as often as the hand
/// does.
pub proof fn lemma_hand_cards_count(hand: Hand, card: Card)
    ensures
        hand.cards().count(card) == hand.count(card),
        hand.cards().len() == 3,
{
    broadcast use vstd::multiset::group_multiset_axioms;

}

/// The hands' cards, as a multiset, hold each card as often as the hands do.
pub proof fn lemma_hands_cards_count(hands: Seq<Hand>, card: Card)
    ensures
        hands_cards(hands).count(card) == hands_count(hands, card),
        hands_cards(hands).len() == 3 * hands.len(),
    decreases hands.len(),
{
    broadcast use vstd::multiset::group_multiset_axioms;

    if hands.len() > 0 {
        lemma_hands_cards_count(hands.drop_last(), card);
        lemma_hand_cards_count(hands.last(), card);
    }
}

/// The game's cards, as a multiset, hold each card as often as the game
/// does.
pub proof fn lemma_cards_count(game: Game, card: Card)
    ensures
        game.cards().count(card) == game.count(card),
{
    broadcast use vstd::multiset::group_multiset_axioms;

    lemma_hand_cards_count(game.player, card);
    lemma_hands_cards_count(game.cpu_players, card);
}

/// A game holds the full card set exactly if the multiset union of its deck,
/// its pile, every hand's cards and the card that the turn holds is the
/// multiset of the full card set; and then no card is in it twice.
pub proof fn lemma_conserved_is_full_deck(game: Game)
    ensures
        game.conserved() <==> game.cards() =~= full_deck().to_multiset(),
        game.conserved() ==> forall|card: Card| #[trigger] game.cards().count(card) == 1,
{
    assert forall|card: Card|
        #[trigger] game.cards().count(card) == game.count(card) && full_deck().to_multiset().count(
            card,
        ) == 1 by {
        lemma_cards_count(game, card);
        lemma_full_deck_count(card);
    }
    if game.cards() =~= full_deck().to_multiset() {
        assert forall|card: Card| #[trigger] game.count(card) == 1 by {
            assert(game.cards().count(card) == game.count(card));
        }
    }
    if game.conserved() {
        assert forall|card: Card| #[trigger]
            game.cards().count(card) == full_deck().to_multiset().count(card) by {
            assert(game.count(card) == 1);
        }
    }
}

/// A game that holds the full card set holds 52 cards: so many are in the
/// deck, on the pile, in the hands and held by the turn, taken together.
pub proof fn lemma_conserved_size(game: Game)
    requires
        game.conserved(),
    ensures
        game.deck.len() + game.pile.len() + 3 + 3 * game.cpu_players.len() + game.turn.held().len()
            == 52,
        game.turn.held().len() == (if game.turn is PlayerSelected {
            1int
        } else {
            0
        }),
{
    broadcast use vstd::multiset::group_multiset_axioms;

    lemma_conserved_is_full_deck(game);
    lemma_hand_cards_count(game.player, arbitrary());
    lemma_hands_cards_count(game.cpu_players, arbitrary());
    vstd::seq_lib::to_multiset_len(game.deck);
    vstd::seq_lib::to_multiset_len(game.pile);
    vstd::seq_lib::to_multiset_len(full_deck());
}

/// The card that deal number `k`, counting from 0, takes from a deck when
/// there is no pile to fall back on: the deck's cards from the last one
/// backwards, and the fallback card once the deck is out.
pub open spec fn nth_dealt(deck: Seq<Card>, k: int) -> Card {
    if 0 <= k < deck.len() {
        deck[deck.len() - 1 - k]
    } else {
        fallback_card()
    }
}

/// What `k` deals leave of a deck.
pub open spec fn left_after(deck: Seq<Card>, k: int) -> Seq<Card> {
    if k < deck.len() {
        deck.take(deck.len() - k)
    } else {
        Seq::empty()
    }
}

/// The hand made of three deals in a row, the first of them deal number
/// `first`.
pub open spec fn hand_dealt(deck: Seq<Card>, first: int) -> Hand {
    Hand(nth_dealt(deck, first), nth_dealt(deck, first + 1), nth_dealt(deck, first + 2))
}

/// The game that is dealt from a deck to the player and so many CPU players.
///
/// The first three cards dealt are the player's, the next three those of
/// the first CPU player, and so on in the CPU players' order; the card dealt
/// after the last hand starts the pile. The player is to move, nothing has
/// been said of the CPU players and no widget is hot or active. Fewer than
/// no CPU players is no CPU players.
pub open spec fn game_dealt(deck: Seq<Card>, cpu_players: int, title_screen: bool) -> Game {
    let count = if cpu_players > 0 {
        cpu_players
    } else {
        0
    };
    Game {
        title_screen,
        deck: left_after(deck, 4 + 3 * count),
        pile: seq![nth_dealt(deck, 3 + 3 * count)],
        player: hand_dealt(deck, 0),
        cpu_players: Seq::new(count as nat, |i: int| hand_dealt(deck, 3 + 3 * i)),
        turn: Turn::PlayerTurn,
        summary: Seq::empty(),
        ui_context: UIContext::fresh(),
    }
}

/// The seed that a game starts from: the fixed one, or the time stamp cut
/// to a machine word.
pub open spec fn seed_of(start: Start) -> usize {
    match start {
        Start::Fixed => FIXED_SEED,
        Start::Timed(timestamp) => timestamp as usize,
    }
}

/// One deal without a pile takes the deck's next card.
pub proof fn lemma_deal_next(
    input: Seq<Card>,
    k: int,
    deck: Seq<Card>,
    pile: Seq<Card>,
    new_deck: Seq<Card>,
    new_pile: Seq<Card>,
    dealt_card: Card,
    card: Card,
)
    requires
        0 <= k,
        deck == left_after(input, k),
        pile.len() == 0,
        dealt(deck, pile, new_deck, new_pile, dealt_card),
    ensures
        new_deck == left_after(input, k + 1),
        new_pile.len() == 0,
        dealt_card == nth_dealt(input, k),
        k < input.len() ==> count_in(deck, card) == count_in(new_deck, card) + (if dealt_card
            == card {
            1int
        } else {
            0
        }),
{
    if k < input.len() {
        assert(deck.drop_last() =~= input.take(input.len() - k - 1));
        assert(new_deck =~= left_after(input, k + 1));
        lemma_count_in_last(deck, card);
    } else {
        assert(new_deck =~= left_after(input, k + 1));
    }
}

/// Deals a game from a deck: three cards to the player, three to each of
/// `cpu_players_count` CPU players in turn, and one more to start the pile.
/// Every deal takes the deck's last card, or the fallback card when the deck
/// is out. Where the deck holds a card for every deal, each of its cards is
/// in the game as often as it was in the deck, and the random stream is
/// handed on untouched.
pub fn deal_game(deck: Vec<Card>, cpu_players_count: i32, title_screen: bool, rng: StdRng) -> (state:
    State)
    ensures
        state@ == game_dealt(deck@, cpu_players_count as int, title_screen),
        deck@.len() >= 4 + 3 * state@.cpu_players.len() ==> state.rng == rng,
        deck@.len() >= 4 + 3 * state@.cpu_players.len() ==> forall|card: Card| #[trigger]
            state@.count(card) == count_in(deck@, card),
{
    let ghost input = deck@;
    let ghost stream = rng;
    let mut rng = rng;
    let mut deck = deck;
    let mut pile: Vec<Card> = Vec::new();
    assert(deck@ =~= left_after(input, 0));

    let ghost before_first = deck@;
    let c1 = deal_parts(&mut deck, &mut pile, &mut rng);
    let ghost before_second = deck@;
    let c2 = deal_parts(&mut deck, &mut pile, &mut rng);
    let ghost before_third = deck@;
    let c3 = deal_parts(&mut deck, &mut pile, &mut rng);
    let player = Hand(c1, c2, c3);
    proof {
        let none = Seq::<Card>::empty();
        lemma_deal_next(input, 0, before_first, none, before_second, none, c1, c1);
        lemma_deal_next(input, 1, before_second, none, before_third, none, c2, c2);
        lemma_deal_next(input, 2, before_third, none, deck@, none, c3, c3);
        assert forall|card: Card| input.len() >= 3 implies count_in(deck@, card) + player.count(
            card,
        ) == count_in(input, card) by {
            lemma_deal_next(input, 0, before_first, none, before_second, none, c1, card);
            lemma_deal_next(input, 1, before_second, none, before_third, none, c2, card);
            lemma_deal_next(input, 2, before_third, none, deck@, none, c3, card);
        }
    }

    let mut cpu_players: Vec<Hand> = Vec::new();

    let mut dealt_to: i32 = 0;
    while dealt_to < cpu_players_count
        invariant
            0 <= dealt_to,
            dealt_to <= cpu_players_count || dealt_to == 0,
            pile@.len() == 0,
            player == hand_dealt(input, 0),
            deck@ == left_after(input, 3 + 3 * dealt_to),
            cpu_players@ =~= Seq::new(dealt_to as nat, |i: int| hand_dealt(input, 3 + 3 * i)),
            input.len() >= 3 + 3 * dealt_to ==> rng == stream,
            input.len() >= 3 + 3 * dealt_to ==> forall|card: Card|
                count_in(deck@, card) + player.count(card) + #[trigger] hands_count(
                    cpu_players@,
                    card,
                ) == count_in(input, card),
        decreases cpu_players_count - dealt_to,
    {
        let ghost hands = cpu_players@;
        let ghost k = 3 + 3 * dealt_to;
        let ghost before_first = deck@;
        let c1 = deal_parts(&mut deck, &mut pile, &mut rng);
        let ghost before_second = deck@;
        let c2 = deal_parts(&mut deck, &mut pile, &mut rng);
        let ghost before_third = deck@;
        let c3 = deal_parts(&mut deck, &mut pile, &mut rng);
        cpu_players.push(Hand(c1, c2, c3));
        dealt_to = dealt_to + 1;
        proof {
            let none = Seq::<Card>::empty();
            lemma_deal_next(input, k, before_first, none, before_second, none, c1, c1);
            lemma_deal_next(input, k + 1, before_second, none, before_third, none, c2, c2);
            lemma_deal_next(input, k + 2, before_third, none, deck@, none, c3, c3);
            assert forall|card: Card| input.len() >= 3 + 3 * dealt_to implies count_in(
                deck@,
                card,
            ) + player.count(card) + #[trigger] hands_count(cpu_players@, card) == count_in(
                input,
                card,
            ) by {
                assert(count_in(before_first, card) + player.count(card) + hands_count(
                    hands,
                    card,
                ) == count_in(input, card));
                lemma_deal_next(input, k, before_first, none, before_second, none, c1, card);
                lemma_deal_next(input, k + 1, before_second, none, before_third, none, c2, card);
                lemma_deal_next(input, k + 2, before_third, none, deck@, none, c3, card);
                lemma_hands_count_push(hands, Hand(c1, c2, c3), card);
            }
        }
    }

    let ghost before = deck@;
    let pile_card = deal_parts(&mut deck, &mut pile, &mut rng);

    pile.push(pile_card);

    let state = State {
        rng,
        title_screen,
        deck,
        pile,
        player,
        cpu_players,
        turn: Turn::PlayerTurn,
        summary: String::new(),
        ui_context: UIContext::new(),
    };
    proof {
        let none = Seq::<Card>::empty();
        let k = 3 + 3 * dealt_to;
        lemma_deal_next(input, k, before, none, state@.deck, none, pile_card, pile_card);
        assert(state@.pile =~= seq![pile_card]);
        assert(state@.summary =~= Seq::<char>::empty());
        assert(state@ =~= game_dealt(input, cpu_players_count as int, title_screen));
        assert forall|card: Card| input.len() >= 4 + 3 * dealt_to implies #[trigger] state@.count(
            card,
        ) == count_in(input, card) by {
            assert(count_in(before, card) + player.count(card) + hands_count(
                state@.cpu_players,
                card,
            ) == count_in(input, card));
            lemma_deal_next(input, k, before, none, state@.deck, none, pile_card, card);
            lemma_count_in_empty(card);
            lemma_count_in_push(none, pile_card, card);
            assert(state@.pile =~= none.push(pile_card));
        }
    }
    state
}

/// Deals a new game from a random stream: shuffles the full card set, picks
/// between one and four CPU players, and deals the shuffled cards out as
/// `deal_game` does. The size of the display has no part in the deal.
pub fn make_state(size: Size, title_screen: bool, rng: StdRng) -> (state: State)
    ensures
        state@.just_dealt(title_screen),
        exists|shuffled: Seq<Card>, cpu_players: int|
            {
                &&& state@ == #[trigger] game_dealt(shuffled, cpu_players, title_screen)
                &&& shuffled.to_multiset() == full_deck().to_multiset()
                &&& MIN_CPU_PLAYERS <= cpu_players <= MAX_CPU_PLAYERS
            },
{
    let mut rng = rng;
    let mut deck = Card::all_values();

    shuffle(&mut rng, &mut deck);

    let cpu_players_count = gen_range(&mut rng, MIN_CPU_PLAYERS, MAX_CPU_PLAYERS + 1);
    let ghost shuffled = deck@;

    let state = deal_game(deck, cpu_players_count, title_screen, rng);
    proof {
        assert forall|card: Card| #[trigger] state@.count(card) == 1 by {
            lemma_full_deck_count(card);
        }
        assert(state@ == game_dealt(shuffled, cpu_players_count as int, title_screen));
    }
    state
}

/// The seed that a game starts from.
pub fn seed_for(start: Start) -> (seed: usize)
    ensures
        seed == seed_of(start),
{
    match start {
        Start::Fixed => FIXED_SEED,
        Start::Timed(timestamp) => #[verifier::truncate] (timestamp as usize),
    }
}

/// Creates a new game for a display of the given size, from the seed that
/// `seed_for` gives.
///
/// A game with the fixed seed skips the title screen; a game seeded from a
/// time stamp opens on it.
pub fn new_state(size: Size, start: Start) -> (state: State)
    ensures
        state@.just_dealt(start.shows_title()),
{
    let rng = seeded_rng(seed_for(start));
    match start {
        Start::Fixed => make_state(size, false, rng),
        Start::Timed(_) => make_state(size, true, rng),
    }
}

} // verus!
