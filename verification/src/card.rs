//! Cards, the full card set, and three-card hands with their score.

use vstd::multiset::Multiset;
use vstd::prelude::*;

verus! {

/// One of the four suits. `Spades` is the first.
#[derive(Clone, Copy, Debug, PartialEq, Eq, Hash, Structural)]
pub enum Suit {
    Spades,
    Hearts,
    Diamonds,
    Clubs,
}

/// One of the thirteen ranks.
#[derive(Clone, Copy, Debug, PartialEq, Eq, Hash, Structural)]
pub enum Value {
    Ace,
    Two,
    Three,
    Four,
    Five,
    Six,
    Seven,
    Eight,
    Nine,
    Ten,
    Jack,
    Queen,
    King,
}

/// A playing card: a value type with no identity beyond its two fields.
#[derive(Clone, Copy, Debug, PartialEq, Eq, Hash, Structural)]
pub struct Card {
    pub suit: Suit,
    pub value: Value,
}

/// A position in a hand.
#[derive(Clone, Copy, Debug, PartialEq, Eq, Hash, Structural)]
pub enum HandCard {
    FirstCard,
    SecondCard,
    ThirdCard,
}

/// A participant's holding: exactly three cards.
#[derive(Clone, Copy, Debug, PartialEq, Eq, Hash, Structural)]
pub struct Hand(pub Card, pub Card, pub Card);

/// The score at which a hand wins the round.
pub const WINNING_SCORE: u8 = 31;

/// The suit with the given number, counting from `Spades` at 0.
pub open spec fn suit_at(i: int) -> Suit {
    if i == 0 {
        Suit::Spades
    } else if i == 1 {
        Suit::Hearts
    } else if i == 2 {
        Suit::Diamonds
    } else {
        Suit::Clubs
    }
}

/// The rank with the given number, counting from `Ace` at 0.
pub open spec fn value_at(i: int) -> Value {
    if i == 0 {
        Value::Ace
    } else if i == 1 {
        Value::Two
    } else if i == 2 {
        Value::Three
    } else if i == 3 {
        Value::Four
    } else if i == 4 {
        Value::Five
    } else if i == 5 {
        Value::Six
    } else if i == 6 {
        Value::Seven
    } else if i == 7 {
        Value::Eight
    } else if i == 8 {
        Value::Nine
    } else if i == 9 {
        Value::Ten
    } else if i == 10 {
        Value::Jack
    } else if i == 11 {
        Value::Queen
    } else {
        Value::King
    }
}

/// The card at position `i` of the full set: suits in order, and within a
/// suit the ranks in order.
pub open spec fn card_at(i: int) -> Card {
    Card { suit: suit_at(i / 13), value: value_at(i % 13) }
}

/// The full card set in its fixed order.
pub open spec fn full_deck() -> Seq<Card> {
    Seq::new(52, |i: int| card_at(i))
}

/// How often `card` occurs in a sequence of cards.
pub open spec fn count_in(cards: Seq<Card>, card: Card) -> int {
    cards.to_multiset().count(card) as int
}

/// Points that the three cards hold in one suit.
pub open spec fn suit_total(suit: Suit, c1: Card, c2: Card, c3: Card) -> int {
    c1.points_in(suit) + c2.points_in(suit) + c3.points_in(suit)
}

/// The larger of two integers.
pub open spec fn max2(a: int, b: int) -> int {
    if a >= b {
        a
    } else {
        b
    }
}

/// Score of three cards: the most points they hold in any single suit.
#[verifier::opaque]
pub open spec fn hand_score(c1: Card, c2: Card, c3: Card) -> int {
    max2(
        max2(suit_total(Suit::Spades, c1, c2, c3), suit_total(Suit::Hearts, c1, c2, c3)),
        max2(suit_total(Suit::Diamonds, c1, c2, c3), suit_total(Suit::Clubs, c1, c2, c3)),
    )
}

impl Suit {
    /// Position of the suit in the fixed order.
    pub open spec fn index(self) -> int {
        match self {
            Suit::Spades => 0,
            Suit::Hearts => 1,
            Suit::Diamonds => 2,
            Suit::Clubs => 3,
        }
    }

    /// The suit's display token.
    pub open spec fn name(self) -> Seq<char> {
        match self {
            Suit::Spades => "Spades"@,
            Suit::Hearts => "Hearts"@,
            Suit::Diamonds => "Diamonds"@,
            Suit::Clubs => "Clubs"@,
        }
    }

    /// The suit at position `i` of the fixed order.
    fn from_index(i: u8) -> (suit: Suit)
        requires
            i < 4,
        ensures
            suit == suit_at(i as int),
    {
        if i == 0 {
            Suit::Spades
        } else if i == 1 {
            Suit::Hearts
        } else if i == 2 {
            Suit::Diamonds
        } else {
            Suit::Clubs
        }
    }

    /// The suit's display token as a string slice.
    pub fn as_str(self) -> (token: &'static str)
        ensures
            token@ == self.name(),
    {
        match self {
            Suit::Spades => "Spades",
            Suit::Hearts => "Hearts",
            Suit::Diamonds => "Diamonds",
            Suit::Clubs => "Clubs",
        }
    }

    /// The suit's display token.
    pub fn to_string(&self) -> (token: String)
        ensures
            token@ == self.name(),
    {
        String::from_str(self.as_str())
    }
}

impl Value {
    /// Position of the rank in the fixed order.
    pub open spec fn index(self) -> int {
        match self {
            Value::Ace => 0,
            Value::Two => 1,
            Value::Three => 2,
            Value::Four => 3,
            Value::Five => 4,
            Value::Six => 5,
            Value::Seven => 6,
            Value::Eight => 7,
            Value::Nine => 8,
            Value::Ten => 9,
            Value::Jack => 10,
            Value::Queen => 11,
            Value::King => 12,
        }
    }

    /// The rank's display token.
    pub open spec fn name(self) -> Seq<char> {
        match self {
            Value::Ace => "Ace"@,
            Value::Two => "Two"@,
            Value::Three => "Three"@,
            Value::Four => "Four"@,
            Value::Five => "Five"@,
            Value::Six => "Six"@,
            Value::Seven => "Seven"@,
            Value::Eight => "Eight"@,
            Value::Nine => "Nine"@,
            Value::Ten => "Ten"@,
            Value::Jack => "Jack"@,
            Value::Queen => "Queen"@,
            Value::King => "King"@,
        }
    }

    /// What a card of this rank counts towards a hand: 11 for an ace, 10 for
    /// a ten or a face card, the number of pips otherwise.
    pub open spec fn points(self) -> int {
        match self {
            Value::Ace => 11,
            Value::Jack | Value::Queen | Value::King => 10,
            _ => self.index() + 1,
        }
    }

    /// The rank at position `i` of the fixed order.
    fn from_index(i: u8) -> (value: Value)
        requires
            i < 13,
        ensures
            value == value_at(i as int),
    {
        match i {
            0 => Value::Ace,
            1 => Value::Two,
            2 => Value::Three,
            3 => Value::Four,
            4 => Value::Five,
            5 => Value::Six,
            6 => Value::Seven,
            7 => Value::Eight,
            8 => Value::Nine,
            9 => Value::Ten,
            10 => Value::Jack,
            11 => Value::Queen,
            _ => Value::King,
        }
    }

    /// The rank's display token as a string slice.
    pub fn as_str(self) -> (token: &'static str)
        ensures
            token@ == self.name(),
    {
        match self {
            Value::Ace => "Ace",
            Value::Two => "Two",
            Value::Three => "Three",
            Value::Four => "Four",
            Value::Five => "Five",
            Value::Six => "Six",
            Value::Seven => "Seven",
            Value::Eight => "Eight",
            Value::Nine => "Nine",
            Value::Ten => "Ten",
            Value::Jack => "Jack",
            Value::Queen => "Queen",
            Value::King => "King",
        }
    }

    /// The rank's display token.
    pub fn to_string(&self) -> (token: String)
        ensures
            token@ == self.name(),
    {
        String::from_str(self.as_str())
    }

    /// What a card of this rank counts towards a hand.
    pub fn point_count(self) -> (points: u8)
        ensures
            points == self.points(),
    {
        match self {
            Value::Ace => 11,
            Value::Two => 2,
            Value::Three => 3,
            Value::Four => 4,
            Value::Five => 5,
            Value::Six => 6,
            Value::Seven => 7,
            Value::Eight => 8,
            Value::Nine => 9,
            Value::Ten | Value::Jack | Value::Queen | Value::King => 10,
        }
    }
}

impl Card {
    /// Position of the card in the full set.
    pub open spec fn index(self) -> int {
        self.suit.index() * 13 + self.value.index()
    }

    /// The card named in running text: rank, " of ", suit.
    pub open spec fn text(self) -> Seq<char> {
        self.value.name() + " of "@ + self.suit.name()
    }

    /// The points this card adds to the total of `suit`: its rank's points if
    /// it is of that suit, nothing otherwise.
    pub open spec fn points_in(self, suit: Suit) -> int {
        if self.suit == suit {
            self.value.points()
        } else {
            0
        }
    }

    /// Every card of the full set, once each, in the fixed order.
    pub fn all_values() -> (deck: Vec<Card>)
        ensures
            deck@ == full_deck(),
    {
        let mut deck: Vec<Card> = Vec::new();
        let mut i: u8 = 0;
        while i < 52
            invariant
                i <= 52,
                deck@.len() == i,
                forall|j: int| 0 <= j < i ==> deck@[j] == card_at(j),
            decreases 52 - i,
        {
            let suit = Suit::from_index(i / 13);
            let value = Value::from_index(i % 13);
            deck.push(Card { suit, value });
            i = i + 1;
        }
        assert(deck@ =~= full_deck());
        deck
    }

    /// The card named in running text.
    pub fn to_string(&self) -> (text: String)
        ensures
            text@ == self.text(),
    {
        let mut text = String::from_str(self.value.as_str());
        text.append(" of ");
        text.append(self.suit.as_str());
        text
    }
}

/// Points that the three cards hold in one suit.
fn total_in(suit: Suit, c1: &Card, c2: &Card, c3: &Card) -> (total: u8)
    ensures
        total == suit_total(suit, *c1, *c2, *c3),
{
    let first: u8 = if c1.suit == suit { c1.value.point_count() } else { 0 };
    let second: u8 = if c2.suit == suit { c2.value.point_count() } else { 0 };
    let third: u8 = if c3.suit == suit { c3.value.point_count() } else { 0 };
    first + second + third
}

/// Score of three cards: the most points they hold in any single suit.
pub fn score_cards(c1: &Card, c2: &Card, c3: &Card) -> (score: u8)
    ensures
        score == hand_score(*c1, *c2, *c3),
{
    let spades = total_in(Suit::Spades, c1, c2, c3);
    let hearts = total_in(Suit::Hearts, c1, c2, c3);
    let diamonds = total_in(Suit::Diamonds, c1, c2, c3);
    let clubs = total_in(Suit::Clubs, c1, c2, c3);
    proof {
        reveal(hand_score);
    }
    let upper = if spades >= hearts { spades } else { hearts };
    let lower = if diamonds >= clubs { diamonds } else { clubs };
    if upper >= lower { upper } else { lower }
}

impl Hand {
    /// The card at a position.
    pub open spec fn at(self, position: HandCard) -> Card {
        match position {
            HandCard::FirstCard => self.0,
            HandCard::SecondCard => self.1,
            HandCard::ThirdCard => self.2,
        }
    }

    /// The hand with the card at one position replaced.
    pub open spec fn with(self, position: HandCard, card: Card) -> Hand {
        match position {
            HandCard::FirstCard => Hand(card, self.1, self.2),
            HandCard::SecondCard => Hand(self.0, card, self.2),
            HandCard::ThirdCard => Hand(self.0, self.1, card),
        }
    }

    /// The hand's score.
    pub open spec fn score(self) -> int {
        hand_score(self.0, self.1, self.2)
    }

    /// Whether the hand ends the round: its score is 31.
    pub open spec fn is_winning(self) -> bool {
        self.score() == WINNING_SCORE
    }

    /// The three cards as a multiset.
    pub open spec fn cards(self) -> Multiset<Card> {
        Multiset::empty().insert(self.0).insert(self.1).insert(self.2)
    }

    /// How many of the three cards are `card`.
    pub open spec fn count(self, card: Card) -> int {
        (if self.0 == card {
            1int
        } else {
            0
        }) + (if self.1 == card {
            1int
        } else {
            0
        }) + (if self.2 == card {
            1int
        } else {
            0
        })
    }

    /// Puts `card` at `position` and hands back the card that was there; the
    /// other two positions keep their cards.
    pub fn swap(&mut self, position: HandCard, card: Card) -> (replaced: Card)
        ensures
            replaced == old(self).at(position),
            *final(self) == old(self).with(position, card),
    {
        match position {
            HandCard::FirstCard => {
                let replaced = self.0;
                self.0 = card;
                replaced
            },
            HandCard::SecondCard => {
                let replaced = self.1;
                self.1 = card;
                replaced
            },
            HandCard::ThirdCard => {
                let replaced = self.2;
                self.2 = card;
                replaced
            },
        }
    }

    /// Whether the hand ends the round.
    pub fn is_31(&self) -> (winning: bool)
        ensures
            winning == self.is_winning(),
    {
        score_cards(&self.0, &self.1, &self.2) == WINNING_SCORE
    }
}

/// After a swap the position holds the new card, the card that was there
/// has come back, and the other two positions hold what they held.
pub proof fn lemma_swap_exchanges(hand: Hand, position: HandCard, card: Card, other: HandCard)
    ensures
        hand.with(position, card).at(position) == card,
        other != position ==> hand.with(position, card).at(other) == hand.at(other),
        hand.with(position, card).cards().insert(hand.at(position)) =~= hand.cards().insert(card),
{
    broadcast use vstd::multiset::group_multiset_axioms;

}

/// An empty sequence holds no card.
pub proof fn lemma_count_in_empty(card: Card)
    ensures
        count_in(Seq::empty(), card) == 0,
{
    vstd::seq_lib::to_multiset_len(Seq::<Card>::empty());
    vstd::multiset::lemma_multiset_empty_len(Seq::<Card>::empty().to_multiset());
    vstd::multiset::axiom_multiset_empty(card);
}

/// A sequence with one more card at its end holds that card once more, and
/// every other card as often as before.
pub proof fn lemma_count_in_push(cards: Seq<Card>, last: Card, card: Card)
    ensures
        count_in(cards.push(last), card) == count_in(cards, card) + (if last == card {
            1int
        } else {
            0
        }),
{
    vstd::seq_lib::to_multiset_build(cards, last);
    vstd::multiset::lemma_insert_increases_count_by_1(cards.to_multiset(), last);
    vstd::multiset::lemma_insert_other_elements_unchanged(cards.to_multiset(), last, card);
}

/// A sequence holds its last card once more than the sequence without it,
/// and every other card as often.
pub proof fn lemma_count_in_last(cards: Seq<Card>, card: Card)
    requires
        cards.len() > 0,
    ensures
        count_in(cards, card) == count_in(cards.drop_last(), card) + (if cards.last() == card {
            1int
        } else {
            0
        }),
{
    assert(cards =~= cards.drop_last().push(cards.last()));
    lemma_count_in_push(cards.drop_last(), cards.last(), card);
}

/// Every card is in the full set, at the position that its suit and rank
/// give.
pub proof fn lemma_card_at_index(card: Card)
    ensures
        0 <= card.index() < 52,
        card_at(card.index()) == card,
{
}

/// No two positions of the full set hold the same card.
pub proof fn lemma_full_deck_no_duplicates()
    ensures
        full_deck().no_duplicates(),
{
    assert forall|i: int, j: int| 0 <= i < 52 && 0 <= j < 52 && i != j implies card_at(i)
        != card_at(j) by {
        if i / 13 == j / 13 {
            assert(i % 13 != j % 13);
        }
    }
}

/// The full set holds every card exactly once.
pub proof fn lemma_full_deck_count(card: Card)
    ensures
        count_in(full_deck(), card) == 1,
{
    lemma_card_at_index(card);
    lemma_full_deck_no_duplicates();
    assert(full_deck()[card.index()] == card);
    assert(full_deck().contains(card));
    vstd::seq_lib::to_multiset_contains(full_deck(), card);
    full_deck().lemma_multiset_has_no_duplicates();
}

} // verus!
