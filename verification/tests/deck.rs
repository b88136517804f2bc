use rand::{SeedableRng, StdRng};
use state_manipulation::card::{Card, Suit, Value};
use state_manipulation::deck::deal_parts;

fn seeded(seed: usize) -> StdRng {
    let words: &[usize] = &[seed];
    SeedableRng::from_seed(words)
}

fn sorted(cards: &[Card]) -> Vec<(u8, u8)> {
    let all = Card::all_values();
    let mut keys: Vec<(u8, u8)> = cards
        .iter()
        .map(|card| {
            let index = all.iter().position(|other| other == card).unwrap();
            ((index / 13) as u8, (index % 13) as u8)
        })
        .collect();
    keys.sort();
    keys
}

#[test]
fn deal_takes_the_last_card_of_the_deck() {
    let mut rng = seeded(7);
    let first = Card { suit: Suit::Hearts, value: Value::Two };
    let second = Card { suit: Suit::Clubs, value: Value::Nine };
    let discard = Card { suit: Suit::Spades, value: Value::Jack };
    let mut deck = vec![first, second];
    let mut pile = vec![discard];

    assert_eq!(deal_parts(&mut deck, &mut pile, &mut rng), second);
    assert_eq!(deck, vec![first]);
    assert_eq!(pile, vec![discard]);

    assert_eq!(deal_parts(&mut deck, &mut pile, &mut rng), first);
    assert!(deck.is_empty());
    assert_eq!(pile, vec![discard]);
}

#[test]
fn deal_reshuffles_the_pile_into_an_empty_deck() {
    let mut rng = seeded(42);
    let former_pile: Vec<Card> = Card::all_values().into_iter().take(40).collect();
    let mut deck: Vec<Card> = Vec::new();
    let mut pile = former_pile.clone();

    let card = deal_parts(&mut deck, &mut pile, &mut rng);

    assert!(pile.is_empty());
    assert_eq!(deck.len(), former_pile.len() - 1);
    assert!(former_pile.contains(&card));
    let mut together = deck.clone();
    together.push(card);
    assert_eq!(sorted(&together), sorted(&former_pile));
}

#[test]
fn reshuffle_changes_the_order() {
    let mut rng = seeded(42);
    let former_pile: Vec<Card> = Card::all_values().into_iter().take(40).collect();
    let mut deck: Vec<Card> = Vec::new();
    let mut pile = former_pile.clone();

    let card = deal_parts(&mut deck, &mut pile, &mut rng);

    let mut together = deck.clone();
    together.push(card);
    assert_ne!(together, former_pile);
}

#[test]
fn reshuffle_of_a_single_card_deals_it() {
    let mut rng = seeded(3);
    let only = Card { suit: Suit::Diamonds, value: Value::Six };
    let mut deck: Vec<Card> = Vec::new();
    let mut pile = vec![only];

    assert_eq!(deal_parts(&mut deck, &mut pile, &mut rng), only);
    assert!(deck.is_empty());
    assert!(pile.is_empty());
}

#[test]
fn deal_from_nothing_gives_the_ace_of_spades() {
    let mut rng = seeded(1);
    let mut deck: Vec<Card> = Vec::new();
    let mut pile: Vec<Card> = Vec::new();

    assert_eq!(
        deal_parts(&mut deck, &mut pile, &mut rng),
        Card { suit: Suit::Spades, value: Value::Ace }
    );
    assert!(deck.is_empty());
    assert!(pile.is_empty());
}
