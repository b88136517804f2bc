use rand::{SeedableRng, StdRng};
use state_manipulation::card::{Card, Hand, HandCard, Suit, Value};
use state_manipulation::cpu::{
    cpu_select_returned_card, cpu_turns, take_cpu_turn, ReturnSelection,
};
use state_manipulation::state::{Participant, State, Turn};
use state_manipulation::text::push_decimal;
use state_manipulation::widgets::UIContext;

fn seeded(seed: usize) -> StdRng {
    let words: &[usize] = &[seed];
    SeedableRng::from_seed(words)
}

fn card(suit: Suit, value: Value) -> Card {
    Card { suit, value }
}

fn table(deck: Vec<Card>, pile: Vec<Card>, cpu_players: Vec<Hand>) -> State {
    State {
        rng: seeded(42),
        title_screen: false,
        deck,
        pile,
        player: Hand(
            card(Suit::Clubs, Value::Five),
            card(Suit::Clubs, Value::Six),
            card(Suit::Clubs, Value::Seven),
        ),
        cpu_players,
        turn: Turn::CpuTurn,
        summary: String::new(),
        ui_context: UIContext::new(),
    }
}

#[test]
fn cpu_takes_the_replacement_that_scores_most() {
    let hand = Hand(
        card(Suit::Hearts, Value::Two),
        card(Suit::Spades, Value::King),
        card(Suit::Spades, Value::Queen),
    );
    let ace = card(Suit::Spades, Value::Ace);
    assert_eq!(
        cpu_select_returned_card(&hand, &ace),
        ReturnSelection::FromHand(HandCard::FirstCard)
    );

    let hand = Hand(
        card(Suit::Spades, Value::King),
        card(Suit::Hearts, Value::Two),
        card(Suit::Spades, Value::Queen),
    );
    assert_eq!(
        cpu_select_returned_card(&hand, &ace),
        ReturnSelection::FromHand(HandCard::SecondCard)
    );

    let hand = Hand(
        card(Suit::Spades, Value::King),
        card(Suit::Spades, Value::Queen),
        card(Suit::Hearts, Value::Two),
    );
    assert_eq!(
        cpu_select_returned_card(&hand, &ace),
        ReturnSelection::FromHand(HandCard::ThirdCard)
    );
}

#[test]
fn cpu_keeps_its_hand_on_a_tie() {
    let hand = Hand(
        card(Suit::Spades, Value::Ten),
        card(Suit::Hearts, Value::Ten),
        card(Suit::Diamonds, Value::Ten),
    );
    assert_eq!(
        cpu_select_returned_card(&hand, &card(Suit::Clubs, Value::Ten)),
        ReturnSelection::SelectedCard
    );

    let winning = Hand(
        card(Suit::Spades, Value::Ace),
        card(Suit::Spades, Value::King),
        card(Suit::Spades, Value::Queen),
    );
    assert_eq!(
        cpu_select_returned_card(&winning, &card(Suit::Spades, Value::Jack)),
        ReturnSelection::SelectedCard
    );
}

#[test]
fn cpu_replaces_the_first_position_that_scores_most() {
    // Kept: 4. First replaced: 11. Second or third replaced: 13.
    let hand = Hand(
        card(Suit::Spades, Value::Two),
        card(Suit::Hearts, Value::Three),
        card(Suit::Diamonds, Value::Four),
    );
    assert_eq!(
        cpu_select_returned_card(&hand, &card(Suit::Spades, Value::Ace)),
        ReturnSelection::FromHand(HandCard::SecondCard)
    );

    // Kept: 10. First or third replaced: 21. Second replaced: 11.
    let hand = Hand(
        card(Suit::Hearts, Value::Two),
        card(Suit::Spades, Value::King),
        card(Suit::Diamonds, Value::Two),
    );
    assert_eq!(
        cpu_select_returned_card(&hand, &card(Suit::Spades, Value::Ace)),
        ReturnSelection::FromHand(HandCard::FirstCard)
    );
}

#[test]
fn cpu_choice_is_the_same_every_time() {
    let all = Card::all_values();
    let hand = Hand(all[3], all[17], all[40]);
    for candidate in all.iter() {
        let first = cpu_select_returned_card(&hand, candidate);
        let second = cpu_select_returned_card(&hand, candidate);
        assert_eq!(first, second);
    }
}

#[test]
fn cpu_picks_up_a_card_that_it_would_swap_in() {
    let two = card(Suit::Hearts, Value::Two);
    let king = card(Suit::Spades, Value::King);
    let queen = card(Suit::Spades, Value::Queen);
    let ace = card(Suit::Spades, Value::Ace);
    let bottom = card(Suit::Diamonds, Value::Nine);
    let undealt = card(Suit::Diamonds, Value::Three);
    let mut state = table(vec![undealt], vec![bottom, ace], vec![Hand(two, king, queen)]);

    let winner = take_cpu_turn(&mut state, 0);

    assert_eq!(winner, Some(Participant::Cpu(0)));
    assert_eq!(state.cpu_players, vec![Hand(ace, king, queen)]);
    assert_eq!(state.pile, vec![bottom, two]);
    assert_eq!(state.deck, vec![undealt]);
    assert_eq!(
        state.summary,
        "Cpu 0 picked up the Ace of Spades off the pile\nand put a Two of Hearts back on the pile.\n\n"
    );
    assert_eq!(state.turn, Turn::CpuTurn);
}

#[test]
fn cpu_draws_when_the_pile_does_not_help() {
    let ten = card(Suit::Spades, Value::Ten);
    let king = card(Suit::Spades, Value::King);
    let queen = card(Suit::Spades, Value::Queen);
    let top = card(Suit::Clubs, Value::Two);
    let undealt = card(Suit::Diamonds, Value::Three);
    let next = card(Suit::Diamonds, Value::Four);
    let mut state = table(vec![undealt, next], vec![top], vec![Hand(ten, king, queen)]);

    let winner = take_cpu_turn(&mut state, 0);

    assert_eq!(winner, None);
    assert_eq!(state.cpu_players, vec![Hand(ten, king, queen)]);
    assert_eq!(state.pile, vec![top, next]);
    assert_eq!(state.deck, vec![undealt]);
    assert_eq!(
        state.summary,
        "Cpu 0 drew a card and put a Four of Diamonds back on the pile.\n\n"
    );
}

#[test]
fn cpu_swaps_in_a_drawn_card() {
    let two = card(Suit::Hearts, Value::Two);
    let king = card(Suit::Spades, Value::King);
    let queen = card(Suit::Spades, Value::Queen);
    let jack = card(Suit::Spades, Value::Jack);
    let mut state = table(vec![jack], vec![], vec![Hand(king, two, queen)]);

    let winner = take_cpu_turn(&mut state, 0);

    assert_eq!(winner, None);
    assert_eq!(state.cpu_players, vec![Hand(king, jack, queen)]);
    assert_eq!(state.pile, vec![two]);
    assert!(state.deck.is_empty());
    assert_eq!(
        state.summary,
        "Cpu 0 drew a card and put a Two of Hearts back on the pile.\n\n"
    );
}

#[test]
fn cpu_turn_reshuffles_when_the_deck_is_out() {
    let ten = card(Suit::Spades, Value::Ten);
    let king = card(Suit::Spades, Value::King);
    let queen = card(Suit::Spades, Value::Queen);
    let pile = vec![
        card(Suit::Clubs, Value::Two),
        card(Suit::Clubs, Value::Three),
        card(Suit::Clubs, Value::Four),
    ];
    let mut state = table(vec![], pile.clone(), vec![Hand(ten, king, queen)]);

    let winner = take_cpu_turn(&mut state, 0);

    assert_eq!(winner, None);
    assert_eq!(state.cpu_players, vec![Hand(ten, king, queen)]);
    assert_eq!(state.deck.len(), 2);
    assert_eq!(state.pile.len(), 1);
    let mut left: Vec<Card> = state.deck.clone();
    left.extend(state.pile.iter().cloned());
    for discard in pile.iter() {
        assert_eq!(left.iter().filter(|other| *other == discard).count(), 1);
    }
}

#[test]
fn cpu_that_is_not_there_does_nothing() {
    let hand = Hand(
        card(Suit::Hearts, Value::Two),
        card(Suit::Spades, Value::King),
        card(Suit::Spades, Value::Queen),
    );
    let ace = card(Suit::Spades, Value::Ace);
    let mut state = table(vec![], vec![ace], vec![hand]);
    state.summary = "before".to_string();

    assert_eq!(take_cpu_turn(&mut state, 1), None);

    assert_eq!(state.cpu_players, vec![hand]);
    assert_eq!(state.pile, vec![ace]);
    assert_eq!(state.summary, "before");
}

#[test]
fn cpu_round_stops_at_the_first_winner() {
    let two = card(Suit::Hearts, Value::Two);
    let king = card(Suit::Spades, Value::King);
    let queen = card(Suit::Spades, Value::Queen);
    let ace = card(Suit::Spades, Value::Ace);
    let second = Hand(
        card(Suit::Diamonds, Value::Two),
        card(Suit::Diamonds, Value::Three),
        card(Suit::Clubs, Value::Four),
    );
    let undealt = card(Suit::Diamonds, Value::Ten);
    let mut state = table(vec![undealt], vec![ace], vec![Hand(two, king, queen), second]);
    state.summary = "what happened last time".to_string();

    let winner = cpu_turns(&mut state);

    assert_eq!(winner, Some(Participant::Cpu(0)));
    assert_eq!(state.cpu_players, vec![Hand(ace, king, queen), second]);
    assert_eq!(state.deck, vec![undealt]);
    assert_eq!(state.pile, vec![two]);
    assert_eq!(
        state.summary,
        "Cpu 0 picked up the Ace of Spades off the pile\nand put a Two of Hearts back on the pile.\n\n"
    );
}

#[test]
fn cpu_round_moves_every_cpu_in_order() {
    let first = Hand(
        card(Suit::Spades, Value::Ten),
        card(Suit::Spades, Value::King),
        card(Suit::Spades, Value::Queen),
    );
    let second = Hand(
        card(Suit::Hearts, Value::Ten),
        card(Suit::Hearts, Value::King),
        card(Suit::Hearts, Value::Queen),
    );
    let top = card(Suit::Clubs, Value::Two);
    let low = card(Suit::Diamonds, Value::Three);
    let lower = card(Suit::Diamonds, Value::Two);
    let mut state = table(vec![lower, low], vec![top], vec![first, second]);

    let winner = cpu_turns(&mut state);

    assert_eq!(winner, None);
    assert_eq!(state.cpu_players, vec![first, second]);
    assert!(state.deck.is_empty());
    assert_eq!(state.pile, vec![top, low, lower]);
    assert_eq!(
        state.summary,
        "Cpu 0 drew a card and put a Three of Diamonds back on the pile.\n\n\
         Cpu 1 drew a card and put a Two of Diamonds back on the pile.\n\n"
    );
}

#[test]
fn participants_have_names() {
    assert_eq!(Participant::Player.to_string(), "The player");
    assert_eq!(Participant::Cpu(0).to_string(), "Cpu 0");
    assert_eq!(Participant::Cpu(3).to_string(), "Cpu 3");
    assert_eq!(Participant::Cpu(12).to_string(), "Cpu 12");
}

#[test]
fn numbers_are_written_in_decimal() {
    for n in [0usize, 7, 9, 10, 11, 99, 100, 12345, 1_000_000, usize::MAX] {
        let mut text = "n = ".to_string();
        push_decimal(&mut text, n);
        assert_eq!(text, format!("n = {}", n));
    }
}
