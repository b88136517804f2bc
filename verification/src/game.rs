//! The turn engine: what one frame makes of a game, given the platform's
//! readings and the input events of the frame.

use crate::card::{
    count_in, lemma_count_in_last, lemma_count_in_push, lemma_swap_exchanges, Card, Hand, HandCard,
};
use crate::cpu::{
    cpu_round, cpu_turns, first_cpu_winner, lemma_cpu_round_conserves, ReturnSelection,
};
use crate::platform::{Event, KeyCode, Platform, Size};
use crate::screen::{
    card_back_ops, card_ops, draw_card, draw_card_back, fits, lemma_ops_assoc, lemma_ops_nothing,
    print_op, DrawOp, Screen, CARD_HEIGHT,
};
use crate::deck::dealt;
use crate::state::{
    deal, lemma_conserved_is_full_deck, lemma_conserved_size, lemma_dealt_count,
    lemma_hands_count_not_negative, make_state, new_state, Game, Participant, State, Turn,
};
use crate::widgets::{
    button_evaluation, card_back_button_evaluation, card_button_evaluation, click, do_button,
    do_card_back_button, do_card_button, do_raised_card_button, lemma_one_click_a_frame, on_card,
    on_raised_card, raised_card_button_evaluation, ButtonSpec, Evaluation, UIContext, UiId, CARD_RAISE_OFFSET,
};
use vstd::prelude::*;

verus! {

/// Column of the pile.
pub const PILE_X: i32 = 40;

/// Column of the deck: to the right of the pile, four cells apart.
pub const DECK_X: i32 = 60;

/// Row of the pile.
pub const PILE_Y: i32 = 10;

/// Row of the deck.
pub const DECK_Y: i32 = 10;

/// Column of the first card of the player's hand.
pub const CARD_OFFSET: i32 = 5;

/// How far right of a card of the hand the next one starts. The cards
/// overlap.
pub const CARD_OFFSET_DELTA: i32 = 6;

/// How far above the bottom of the display the player's hand starts.
pub const HAND_HEIGHT_OFFSET: i32 = 8;

/// Column of the card that the player has drawn and not yet placed.
pub const SELECTED_CARD_X: i32 = 50;

/// Identifier of the button that deals anew.
pub const REDEAL_ID: UiId = 1;

/// Identifier of the button that closes the summary of the CPU players'
/// turns.
pub const OKAY_ID: UiId = 4;

/// Identifier of the deck.
pub const DECK_ID: UiId = 88;

/// Identifier of the top of the pile.
pub const PILE_ID: UiId = 100;

/// Identifier of the first card of the player's hand; the second and the
/// third follow it.
pub const HAND_ID: UiId = 110;

/// Identifier of the card that the player has drawn and not yet placed.
pub const SELECTED_CARD_ID: UiId = 113;

/// Row of the player's hand on a display of the given size.
pub open spec fn hand_row(size: Size) -> int {
    size.height - HAND_HEIGHT_OFFSET
}

/// Whether the player's hand can be drawn with its top on the given row:
/// its cards, at rest and raised, lie at coordinates.
pub open spec fn hand_fits(hand_height: int) -> bool {
    fits(hand_height - CARD_RAISE_OFFSET) && fits(hand_height + CARD_HEIGHT)
}

/// The player's hand face up: its three cards from left to right, each
/// partly covering the one before.
pub open spec fn hand_ops(player: Hand, hand_height: int) -> Seq<DrawOp> {
    card_ops(CARD_OFFSET as int, hand_height, player.0) + card_ops(
        CARD_OFFSET + CARD_OFFSET_DELTA,
        hand_height,
        player.1,
    ) + card_ops(CARD_OFFSET + 2 * CARD_OFFSET_DELTA, hand_height, player.2)
}

/// What asking the player for the card to give back comes to: the player's
/// choice if one was made this frame, the context that the widgets leave,
/// and what they draw.
pub struct Asked {
    pub choice: Option<ReturnSelection>,
    pub context: UIContext,
    pub ops: Seq<DrawOp>,
}

/// What `select_returned_card` comes to.
///
/// The three cards of the hand are evaluated from left to right, as cards
/// that rise under the pointer, and then the card that the player holds, as
/// a button. The first of them that is clicked decides, and what comes
/// after it is neither evaluated nor drawn in this frame.
pub open spec fn asked(
    platform: Platform,
    context: UIContext,
    player: Hand,
    held: Card,
    hand_height: int,
    pressed: bool,
    released: bool,
) -> Asked {
    let first = raised_card_button_evaluation(
        platform,
        context,
        CARD_OFFSET as int,
        hand_height,
        player.0,
        HAND_ID,
        pressed,
        released,
    );
    let second = raised_card_button_evaluation(
        platform,
        first.context,
        CARD_OFFSET + CARD_OFFSET_DELTA,
        hand_height,
        player.1,
        (HAND_ID + 1) as UiId,
        pressed,
        released,
    );
    let third = raised_card_button_evaluation(
        platform,
        second.context,
        CARD_OFFSET + 2 * CARD_OFFSET_DELTA,
        hand_height,
        player.2,
        (HAND_ID + 2) as UiId,
        pressed,
        released,
    );
    let last = card_button_evaluation(
        platform,
        third.context,
        SELECTED_CARD_X as int,
        hand_height,
        held,
        SELECTED_CARD_ID,
        pressed,
        released,
    );
    if first.clicked {
        Asked {
            choice: Some(ReturnSelection::FromHand(HandCard::FirstCard)),
            context: first.context,
            ops: first.ops,
        }
    } else if second.clicked {
        Asked {
            choice: Some(ReturnSelection::FromHand(HandCard::SecondCard)),
            context: second.context,
            ops: first.ops + second.ops,
        }
    } else if third.clicked {
        Asked {
            choice: Some(ReturnSelection::FromHand(HandCard::ThirdCard)),
            context: third.context,
            ops: first.ops + second.ops + third.ops,
        }
    } else {
        Asked {
            choice: if last.clicked {
                Some(ReturnSelection::SelectedCard)
            } else {
                None
            },
            context: last.context,
            ops: first.ops + second.ops + third.ops + last.ops,
        }
    }
}

/// Asks the player which card to give back: one of the hand, by a click on
/// it, or the card just drawn, by a click on that. Returns the choice, or
/// `None` if no click was completed this frame.
pub fn select_returned_card(
    platform: &Platform,
    screen: &mut Screen,
    state: &mut State,
    selected_card: &Card,
    hand_height: i32,
    left_mouse_pressed: bool,
    left_mouse_released: bool,
) -> (selection: Option<ReturnSelection>)
    requires
        hand_fits(hand_height as int),
    ensures
        ({
            let expected = asked(
                *platform,
                old(state)@.ui_context,
                old(state)@.player,
                *selected_card,
                hand_height as int,
                left_mouse_pressed,
                left_mouse_released,
            );
            &&& selection == expected.choice
            &&& final(state).rng == old(state).rng
            &&& final(state)@ == (Game { ui_context: expected.context, ..old(state)@ })
            &&& final(screen)@ == old(screen)@ + expected.ops
        }),
{
    let c1 = state.player.0;
    let c2 = state.player.1;
    let c3 = state.player.2;
    let ghost before = old(screen)@;

    let mut id = HAND_ID;
    let mut x = CARD_OFFSET;

    let ghost first = raised_card_button_evaluation(
        *platform,
        state.ui_context,
        x as int,
        hand_height as int,
        c1,
        id,
        left_mouse_pressed,
        left_mouse_released,
    );
    if do_raised_card_button(
        platform,
        screen,
        &mut state.ui_context,
        x,
        hand_height,
        &c1,
        left_mouse_pressed,
        left_mouse_released,
        id,
    ) {
        return Some(ReturnSelection::FromHand(HandCard::FirstCard));
    }
    x += CARD_OFFSET_DELTA;
    id += 1;

    let ghost second = raised_card_button_evaluation(
        *platform,
        state.ui_context,
        x as int,
        hand_height as int,
        c2,
        id,
        left_mouse_pressed,
        left_mouse_released,
    );
    let clicked = do_raised_card_button(
        platform,
        screen,
        &mut state.ui_context,
        x,
        hand_height,
        &c2,
        left_mouse_pressed,
        left_mouse_released,
        id,
    );
    proof {
        lemma_ops_assoc(before, first.ops, second.ops);
    }
    if clicked {
        return Some(ReturnSelection::FromHand(HandCard::SecondCard));
    }
    x += CARD_OFFSET_DELTA;
    id += 1;

    let ghost third = raised_card_button_evaluation(
        *platform,
        state.ui_context,
        x as int,
        hand_height as int,
        c3,
        id,
        left_mouse_pressed,
        left_mouse_released,
    );
    let clicked = do_raised_card_button(
        platform,
        screen,
        &mut state.ui_context,
        x,
        hand_height,
        &c3,
        left_mouse_pressed,
        left_mouse_released,
        id,
    );
    proof {
        lemma_ops_assoc(before, first.ops + second.ops, third.ops);
    }
    if clicked {
        return Some(ReturnSelection::FromHand(HandCard::ThirdCard));
    }
    id += 1;

    let ghost last = card_button_evaluation(
        *platform,
        state.ui_context,
        SELECTED_CARD_X as int,
        hand_height as int,
        *selected_card,
        id,
        left_mouse_pressed,
        left_mouse_released,
    );
    let clicked = do_card_button(
        platform,
        screen,
        &mut state.ui_context,
        SELECTED_CARD_X,
        hand_height,
        selected_card,
        left_mouse_pressed,
        left_mouse_released,
        id,
    );
    proof {
        lemma_ops_assoc(before, first.ops + second.ops + third.ops, last.ops);
    }
    if clicked {
        Some(ReturnSelection::SelectedCard)
    } else {
        None
    }
}

/// What a step makes of a game, and what it draws.
pub struct Stepped {
    pub game: Game,
    pub ops: Seq<DrawOp>,
}

/// What evaluating the deck's button comes to.
pub open spec fn deck_button(
    platform: Platform,
    context: UIContext,
    pressed: bool,
    released: bool,
) -> Evaluation {
    card_back_button_evaluation(
        platform,
        context,
        DECK_X as int,
        DECK_Y as int,
        DECK_ID,
        pressed,
        released,
    )
}

/// Whether `drawn` is how a game in which the player is to draw can stand
/// once the deck's button has been dealt with.
///
/// The deck is a button that shows a card's back, in every such frame and
/// whether or not the deck has cards. A click on it deals one card, out of
/// the pile reshuffled if the deck is out, and the turn then holds that
/// card. Without a click the game stands as it stood.
pub open spec fn drew(
    platform: Platform,
    pre: Game,
    pressed: bool,
    released: bool,
    drawn: Game,
) -> bool {
    if deck_button(platform, pre.ui_context, pressed, released).clicked {
        &&& drawn.turn matches Turn::PlayerSelected(card) && dealt(
            pre.deck,
            pre.pile,
            drawn.deck,
            drawn.pile,
            card,
        )
        &&& drawn == (Game { deck: drawn.deck, pile: drawn.pile, turn: drawn.turn, ..pre })
    } else {
        drawn == pre
    }
}

/// What a frame makes of a game in which the player is to draw, where the
/// game stands at `drawn` once the deck's button has been dealt with.
///
/// After the deck's button the top of the pile, if the pile then has cards,
/// is a button that shows that card; a click on it hands the player that
/// card, which the turn then holds.
pub open spec fn player_turn_step(
    platform: Platform,
    pre: Game,
    drawn: Game,
    pressed: bool,
    released: bool,
) -> Stepped {
    let deck = deck_button(platform, pre.ui_context, pressed, released);
    let pile = if drawn.pile.len() > 0 {
        card_button_evaluation(
            platform,
            deck.context,
            PILE_X as int,
            PILE_Y as int,
            drawn.pile.last(),
            PILE_ID,
            pressed,
            released,
        )
    } else {
        Evaluation::skipped(deck.context)
    };
    let taken = if pile.clicked {
        Game {
            pile: drawn.pile.drop_last(),
            turn: Turn::PlayerSelected(drawn.pile.last()),
            ..drawn
        }
    } else {
        drawn
    };
    Stepped { game: Game { ui_context: pile.context, ..taken }, ops: deck.ops + pile.ops }
}

/// Whether `post` and `after` are what a frame can make of a game in which
/// the player is to draw, and of what was drawn `before`.
pub open spec fn player_turn_stepped(
    platform: Platform,
    pre: Game,
    pressed: bool,
    released: bool,
    post: Game,
    before: Seq<DrawOp>,
    after: Seq<DrawOp>,
) -> bool {
    exists|drawn: Game|
        {
            &&& #[trigger] drew(platform, pre, pressed, released, drawn)
            &&& post == player_turn_step(platform, pre, drawn, pressed, released).game
            &&& after == before + player_turn_step(platform, pre, drawn, pressed, released).ops
        }
}

/// A click on the deck rules out a click on the pile in the same frame.
pub proof fn lemma_deck_or_pile(
    platform: Platform,
    context: UIContext,
    top: Card,
    pressed: bool,
    released: bool,
)
    ensures
        deck_button(platform, context, pressed, released).clicked ==> !card_button_evaluation(
            platform,
            deck_button(platform, context, pressed, released).context,
            PILE_X as int,
            PILE_Y as int,
            top,
            PILE_ID,
            pressed,
            released,
        ).clicked,
{
    reveal(card_back_button_evaluation);
    reveal(card_button_evaluation);
    if click(context, DECK_ID, on_card(platform, DECK_X as int, DECK_Y as int), released) {
        lemma_one_click_a_frame(
            context,
            DECK_ID,
            on_card(platform, DECK_X as int, DECK_Y as int),
            PILE_ID,
            on_card(platform, PILE_X as int, PILE_Y as int),
            pressed,
            released,
        );
    }
}

/// The player's draw moves no card out of the game.
pub proof fn lemma_player_turn_conserves(
    platform: Platform,
    pre: Game,
    drawn: Game,
    pressed: bool,
    released: bool,
)
    requires
        pre.turn == Turn::PlayerTurn,
        pre.wf(),
        drew(platform, pre, pressed, released, drawn),
    ensures
        player_turn_step(platform, pre, drawn, pressed, released).game.wf(),
{
    let post = player_turn_step(platform, pre, drawn, pressed, released).game;
    lemma_deck_or_pile(platform, pre.ui_context, drawn.pile.last(), pressed, released);
    lemma_conserved_size(pre);
    assert forall|c: Card| #[trigger] post.count(c) == 1 by {
        assert(pre.count(c) == 1);
        if deck_button(platform, pre.ui_context, pressed, released).clicked {
            lemma_dealt_count(
                pre.deck,
                pre.pile,
                drawn.deck,
                drawn.pile,
                drawn.turn->PlayerSelected_0,
                c,
            );
        } else if pre.pile.len() > 0 {
            lemma_count_in_last(pre.pile, c);
        }
    }
}

/// The frame of a game in which the player is to draw: evaluates the deck,
/// whether or not it has cards, and then the top of the pile as the deal
/// has left it, and hands the player the card that was clicked. The random
/// stream is drawn on only where a click on an empty deck reshuffles the
/// pile.
pub fn player_turn(
    platform: &Platform,
    screen: &mut Screen,
    state: &mut State,
    left_mouse_pressed: bool,
    left_mouse_released: bool,
)
    ensures
        player_turn_stepped(
            *platform,
            old(state)@,
            left_mouse_pressed,
            left_mouse_released,
            final(state)@,
            old(screen)@,
            final(screen)@,
        ),
        old(state)@.deck.len() > 0 || !deck_button(
            *platform,
            old(state)@.ui_context,
            left_mouse_pressed,
            left_mouse_released,
        ).clicked ==> final(state).rng == old(state).rng,
        old(state)@.turn == Turn::PlayerTurn && old(state)@.wf() ==> final(state)@.wf(),
{
    let ghost before = old(screen)@;
    let ghost deck = deck_button(
        *platform,
        state@.ui_context,
        left_mouse_pressed,
        left_mouse_released,
    );
    if do_card_back_button(
        platform,
        screen,
        &mut state.ui_context,
        DECK_X,
        DECK_Y,
        left_mouse_pressed,
        left_mouse_released,
        DECK_ID,
    ) {
        let card = deal(state);
        state.turn = Turn::PlayerSelected(card);
    }
    let ghost drawn = Game { ui_context: old(state)@.ui_context, ..state@ };
    proof {
        if deck.clicked {
            assert(drawn =~= (Game {
                deck: drawn.deck,
                pile: drawn.pile,
                turn: drawn.turn,
                ..old(state)@
            }));
        } else {
            assert(drawn =~= old(state)@);
        }
        assert(drew(*platform, old(state)@, left_mouse_pressed, left_mouse_released, drawn));
    }

    let ghost pile_ops = Seq::<DrawOp>::empty();
    let selected_top_card = if state.pile.len() > 0 {
        let top_card = state.pile[state.pile.len() - 1];
        proof {
            pile_ops = card_button_evaluation(
                *platform,
                state.ui_context,
                PILE_X as int,
                PILE_Y as int,
                top_card,
                PILE_ID,
                left_mouse_pressed,
                left_mouse_released,
            ).ops;
        }
        do_card_button(
            platform,
            screen,
            &mut state.ui_context,
            PILE_X,
            PILE_Y,
            &top_card,
            left_mouse_pressed,
            left_mouse_released,
            PILE_ID,
        )
    } else {
        proof {
            lemma_ops_nothing(before + deck.ops);
        }
        false
    };
    proof {
        lemma_ops_assoc(before, deck.ops, pile_ops);
    }

    if selected_top_card {
        let card = state.pile.pop().unwrap();
        state.turn = Turn::PlayerSelected(card);
    }

    proof {
        let step = player_turn_step(
            *platform,
            old(state)@,
            drawn,
            left_mouse_pressed,
            left_mouse_released,
        );
        assert(state@.pile =~= step.game.pile);
        assert(state@ =~= step.game);
        if old(state)@.turn == Turn::PlayerTurn && old(state)@.wf() {
            lemma_player_turn_conserves(
                *platform,
                old(state)@,
                drawn,
                left_mouse_pressed,
                left_mouse_released,
            );
        }
    }
}

/// The game after the player, holding `held`, has made a choice: the card
/// given back lies on top of the pile, and it is the CPU players' turn,
/// unless the player swapped the card in and now holds a winning hand, which
/// ends the round. Without a choice the game stays as it is.
pub open spec fn placed(pre: Game, held: Card, choice: Option<ReturnSelection>) -> Game {
    match choice {
        Some(ReturnSelection::FromHand(position)) => Game {
            pile: pre.pile.push(pre.player.at(position)),
            player: pre.player.with(position, held),
            turn: if pre.player.with(position, held).is_winning() {
                Turn::Resolution(Some(Participant::Player))
            } else {
                Turn::CpuTurn
            },
            ..pre
        },
        Some(ReturnSelection::SelectedCard) => Game {
            pile: pre.pile.push(held),
            turn: Turn::CpuTurn,
            ..pre
        },
        None => pre,
    }
}

/// The top of the pile face up, if the pile has cards, and then the deck
/// face down, if it has cards.
pub open spec fn table_ops(game: Game) -> Seq<DrawOp> {
    (if game.pile.len() > 0 {
        card_ops(PILE_X as int, PILE_Y as int, game.pile.last())
    } else {
        Seq::empty()
    }) + (if game.deck.len() > 0 {
        card_back_ops(DECK_X as int, DECK_Y as int)
    } else {
        Seq::empty()
    })
}

/// What a frame makes of a game in which the player holds the card `held`.
///
/// The player is asked for the card to give back; the choice, if one is
/// made, is carried out. The pile and the deck are drawn as they then are.
/// The hand is drawn only as part of the asking.
pub open spec fn player_selected_step(
    platform: Platform,
    pre: Game,
    held: Card,
    pressed: bool,
    released: bool,
) -> Stepped {
    let ask = asked(
        platform,
        pre.ui_context,
        pre.player,
        held,
        hand_row(platform.size),
        pressed,
        released,
    );
    let after = placed(pre, held, ask.choice);
    Stepped { game: Game { ui_context: ask.context, ..after }, ops: ask.ops + table_ops(after) }
}

/// Placing the held card moves no card out of the game.
pub proof fn lemma_placed_conserves(pre: Game, held: Card, choice: Option<ReturnSelection>)
    requires
        pre.turn == Turn::PlayerSelected(held),
        pre.wf(),
    ensures
        placed(pre, held, choice).wf(),
{
    let post = placed(pre, held, choice);
    assert forall|c: Card| #[trigger] post.count(c) == 1 by {
        assert(pre.count(c) == 1);
        match choice {
            Some(ReturnSelection::FromHand(position)) => {
                lemma_count_in_push(pre.pile, pre.player.at(position), c);
            },
            Some(ReturnSelection::SelectedCard) => {
                lemma_count_in_push(pre.pile, held, c);
            },
            None => {},
        }
    }
}

/// Draws the top of the pile and the deck, as far as they have cards.
fn draw_table(screen: &mut Screen, state: &State)
    ensures
        final(screen)@ == old(screen)@ + table_ops(state@),
{
    let ghost before = screen@;
    let ghost pile_ops = Seq::<DrawOp>::empty();
    if state.pile.len() > 0 {
        let top_card = state.pile[state.pile.len() - 1];
        proof {
            pile_ops = card_ops(PILE_X as int, PILE_Y as int, top_card);
        }
        draw_card(screen, PILE_X, PILE_Y, &top_card);
    } else {
        proof {
            lemma_ops_nothing(before);
        }
    }

    if state.deck.len() > 0 {
        draw_card_back(screen, DECK_X, DECK_Y);
    } else {
        proof {
            lemma_ops_nothing(before + pile_ops);
        }
    }
    proof {
        lemma_ops_assoc(before, pile_ops, screen@.skip((before + pile_ops).len() as int));
        assert(screen@.skip((before + pile_ops).len() as int) =~= (if state@.deck.len() > 0 {
            card_back_ops(DECK_X as int, DECK_Y as int)
        } else {
            Seq::empty()
        }));
    }
}

/// The frame of a game in which the player holds `selected_card`: asks for
/// the card to give back and, once the player has chosen, puts it on the
/// pile.
pub fn player_selected(
    platform: &Platform,
    screen: &mut Screen,
    state: &mut State,
    selected_card: Card,
    left_mouse_pressed: bool,
    left_mouse_released: bool,
)
    requires
        hand_fits(hand_row(platform.size)),
    ensures
        final(state)@ == player_selected_step(
            *platform,
            old(state)@,
            selected_card,
            left_mouse_pressed,
            left_mouse_released,
        ).game,
        final(screen)@ == old(screen)@ + player_selected_step(
            *platform,
            old(state)@,
            selected_card,
            left_mouse_pressed,
            left_mouse_released,
        ).ops,
        final(state).rng == old(state).rng,
        old(state)@.turn == Turn::PlayerSelected(selected_card) && old(state)@.wf()
            ==> final(state)@.wf(),
{
    let hand_height = platform.size.height - HAND_HEIGHT_OFFSET;
    let ghost before = screen@;
    let ghost ask = asked(
        *platform,
        state@.ui_context,
        state@.player,
        selected_card,
        hand_height as int,
        left_mouse_pressed,
        left_mouse_released,
    );
    let selection = select_returned_card(
        platform,
        screen,
        state,
        &selected_card,
        hand_height,
        left_mouse_pressed,
        left_mouse_released,
    );

    match selection {
        Some(ReturnSelection::FromHand(index)) => {
            let returned = state.player.swap(index, selected_card);
            state.pile.push(returned);
            state.turn = if state.player.is_31() {
                Turn::Resolution(Some(Participant::Player))
            } else {
                Turn::CpuTurn
            };
        },
        Some(ReturnSelection::SelectedCard) => {
            state.pile.push(selected_card);
            state.turn = Turn::CpuTurn;
        },
        None => {},
    }
    let ghost after = placed(old(state)@, selected_card, selection);
    assert(state@.pile =~= after.pile);

    draw_table(screen, state);

    proof {
        assert(table_ops(state@) == table_ops(after));
        lemma_ops_assoc(before, ask.ops, table_ops(after));
        if old(state)@.turn == Turn::PlayerSelected(selected_card) && old(state)@.wf() {
            lemma_placed_conserves(old(state)@, selected_card, selection);
            assert forall|c: Card| #[trigger] state@.count(c) == after.count(c) by {}
        }
    }
}

/// What a frame makes of a game that shows what the CPU players did: the
/// summary, and a button to go on. A click on the button ends the round if a
/// CPU player has won, and gives the turn back to the player if none has.
pub open spec fn cpu_summary_step(
    platform: Platform,
    pre: Game,
    possible_winner: Option<Participant>,
    pressed: bool,
    released: bool,
) -> Stepped {
    let okay = button_evaluation(
        platform,
        pre.ui_context,
        30,
        18,
        11,
        3,
        "Okay"@,
        OKAY_ID,
        pressed,
        released,
    );
    Stepped {
        game: Game {
            ui_context: okay.context,
            turn: if !okay.clicked {
                pre.turn
            } else if possible_winner is Some {
                Turn::Resolution(possible_winner)
            } else {
                Turn::PlayerTurn
            },
            ..pre
        },
        ops: seq![print_op(12, 2, pre.summary)] + okay.ops,
    }
}

/// The frame of a game that shows what the CPU players did.
pub fn cpu_summary(
    platform: &Platform,
    screen: &mut Screen,
    state: &mut State,
    possible_winner: Option<Participant>,
    left_mouse_pressed: bool,
    left_mouse_released: bool,
)
    ensures
        final(state)@ == cpu_summary_step(
            *platform,
            old(state)@,
            possible_winner,
            left_mouse_pressed,
            left_mouse_released,
        ).game,
        final(screen)@ == old(screen)@ + cpu_summary_step(
            *platform,
            old(state)@,
            possible_winner,
            left_mouse_pressed,
            left_mouse_released,
        ).ops,
        final(state).rng == old(state).rng,
        old(state)@.turn == Turn::CpuSummary(possible_winner) && old(state)@.wf()
            ==> final(state)@.wf(),
{
    let ghost before = screen@;
    screen.print_xy(12, 2, state.summary.as_str());

    proof {
        reveal_strlit("Okay");
    }
    let ok_spec = ButtonSpec { x: 30, y: 18, w: 11, h: 3, text: String::from_str("Okay"), id: OKAY_ID };
    let ghost okay = ok_spec.evaluation(
        *platform,
        state@.ui_context,
        left_mouse_pressed,
        left_mouse_released,
    );

    if do_button(
        platform,
        screen,
        &mut state.ui_context,
        &ok_spec,
        left_mouse_pressed,
        left_mouse_released,
    ) {
        state.turn = if possible_winner.is_some() {
            Turn::Resolution(possible_winner)
        } else {
            Turn::PlayerTurn
        };
    }
    proof {
        assert(before.push(print_op(12, 2, old(state)@.summary)) =~= before + seq![
            print_op(12, 2, old(state)@.summary),
        ]);
        lemma_ops_assoc(before, seq![print_op(12, 2, old(state)@.summary)], okay.ops);
        if old(state)@.turn == Turn::CpuSummary(possible_winner) && old(state)@.wf() {
            assert forall|c: Card| #[trigger] state@.count(c) == old(state)@.count(c) by {}
        }
    }
}

/// The name shown as the winner of a finished round: the participant
/// recorded, and the player if none is.
pub open spec fn winner_name(possible_winner: Option<Participant>) -> Seq<char> {
    match possible_winner {
        Some(winner) => winner.name(),
        None => Participant::Player.name(),
    }
}

/// What the frame of a finished round draws: who won.
pub open spec fn resolution_ops(possible_winner: Option<Participant>) -> Seq<DrawOp> {
    seq![print_op(10, 20, winner_name(possible_winner) + " won!"@)]
}

/// The frame of a finished round: says who won. Where no winner is
/// recorded, the player is named.
pub fn resolution(screen: &mut Screen, possible_winner: Option<Participant>)
    ensures
        final(screen)@ == old(screen)@ + resolution_ops(possible_winner),
{
    let winner = match possible_winner {
        Some(winner) => winner,
        None => Participant::Player,
    };

    let mut text = winner.to_string();
    text.append(" won!");
    screen.print_xy(10, 20, text.as_str());
    assert(screen@ =~= old(screen)@ + resolution_ops(possible_winner));
}

/// Draws the player's hand face up.
fn draw_hand(screen: &mut Screen, player: &Hand, hand_height: i32)
    requires
        hand_fits(hand_height as int),
    ensures
        final(screen)@ == old(screen)@ + hand_ops(*player, hand_height as int),
{
    let ghost before = screen@;
    let mut x = CARD_OFFSET;

    draw_card(screen, x, hand_height, &player.0);
    x += CARD_OFFSET_DELTA;

    draw_card(screen, x, hand_height, &player.1);
    x += CARD_OFFSET_DELTA;

    draw_card(screen, x, hand_height, &player.2);
    proof {
        let first = card_ops(CARD_OFFSET as int, hand_height as int, player.0);
        let second = card_ops(CARD_OFFSET + CARD_OFFSET_DELTA, hand_height as int, player.1);
        let third = card_ops(CARD_OFFSET + 2 * CARD_OFFSET_DELTA, hand_height as int, player.2);
        lemma_ops_assoc(before, first, second);
        lemma_ops_assoc(before, first + second, third);
    }
}

/// Whether `post` and `after` are what the part of a frame that goes by the
/// turn can make of the game `pre` and of what was drawn `before`.
///
/// In every turn but the CPU players' the step is the one that the turn's
/// own function describes. The CPU players' turn is not gated on input: all
/// of them move at once, and the turn becomes the summary of what they did,
/// with the winner if there is one. The player's hand is drawn face up at
/// the end, except while the player is choosing a card to give back.
pub open spec fn turn_stepped(
    platform: Platform,
    pre: Game,
    pressed: bool,
    released: bool,
    post: Game,
    before: Seq<DrawOp>,
    after: Seq<DrawOp>,
) -> bool {
    let hand = hand_ops(post.player, hand_row(platform.size));
    match pre.turn {
        Turn::PlayerTurn => exists|drawn: Game|
            {
                &&& #[trigger] drew(platform, pre, pressed, released, drawn)
                &&& post == player_turn_step(platform, pre, drawn, pressed, released).game
                &&& after == before + player_turn_step(
                    platform,
                    pre,
                    drawn,
                    pressed,
                    released,
                ).ops + hand
            },
        Turn::PlayerSelected(held) => {
            let step = player_selected_step(platform, pre, held, pressed, released);
            post == step.game && after == before + step.ops
        },
        Turn::CpuTurn => {
            &&& post.turn matches Turn::CpuSummary(winner) && cpu_round(
                Game { summary: Seq::empty(), ..pre },
                pre.cpu_players.len(),
                Game { turn: Turn::CpuTurn, ..post },
                winner,
            ) && first_cpu_winner(post, winner)
            &&& after == before + hand
        },
        Turn::CpuSummary(possible_winner) => {
            let step = cpu_summary_step(platform, pre, possible_winner, pressed, released);
            post == step.game && after == before + step.ops + hand
        },
        Turn::Resolution(possible_winner) => {
            post == pre && after == before + resolution_ops(possible_winner) + hand
        },
    }
}

/// Whether a round that stood at `before` can stand at `after` one frame
/// later, if the game was not dealt anew in between.
///
/// The player's turn lasts until the player holds a card. The player holds
/// it until it is placed, which ends the round if the player's hand then
/// wins, and hands over to the CPU players if not. The CPU players move
/// within one frame, and what they did is then on display until the player
/// goes on: to the end of the round if a CPU player has won, to the
/// player's next turn if none has. The end of the round is final.
pub open spec fn follows(before: Turn, after: Turn) -> bool {
    match before {
        Turn::PlayerTurn => after == before || after is PlayerSelected,
        Turn::PlayerSelected(_) => after == before || after == Turn::CpuTurn || after
            == Turn::Resolution(Some(Participant::Player)),
        Turn::CpuTurn => after is CpuSummary,
        Turn::CpuSummary(possible_winner) => after == before || after == (if possible_winner
            is Some {
            Turn::Resolution(possible_winner)
        } else {
            Turn::PlayerTurn
        }),
        Turn::Resolution(_) => after == before,
    }
}

/// The part of a frame that goes by the turn moves the round on in order,
/// by one step at most.
pub proof fn lemma_turns_in_order(
    platform: Platform,
    pre: Game,
    pressed: bool,
    released: bool,
    post: Game,
    before: Seq<DrawOp>,
    after: Seq<DrawOp>,
)
    requires
        turn_stepped(platform, pre, pressed, released, post, before, after),
    ensures
        follows(pre.turn, post.turn),
{
}

/// Whether the part of a frame that goes by the turn is sure to leave the
/// random stream where it stood: it deals out of an empty deck in no case.
///
/// The player's draw deals only on a click on the deck. The CPU players
/// draw one card each at most, so a deck with a card for each of them does
/// not run out. No other turn deals.
pub open spec fn turn_keeps_stream(
    platform: Platform,
    pre: Game,
    pressed: bool,
    released: bool,
) -> bool {
    match pre.turn {
        Turn::PlayerTurn => pre.deck.len() > 0 || !deck_button(
            platform,
            pre.ui_context,
            pressed,
            released,
        ).clicked,
        Turn::CpuTurn => pre.deck.len() >= pre.cpu_players.len(),
        _ => true,
    }
}

/// The part of a frame that goes by the turn.
pub fn take_turn(
    platform: &Platform,
    screen: &mut Screen,
    state: &mut State,
    left_mouse_pressed: bool,
    left_mouse_released: bool,
)
    requires
        hand_fits(hand_row(platform.size)),
    ensures
        turn_stepped(
            *platform,
            old(state)@,
            left_mouse_pressed,
            left_mouse_released,
            final(state)@,
            old(screen)@,
            final(screen)@,
        ),
        turn_keeps_stream(*platform, old(state)@, left_mouse_pressed, left_mouse_released)
            ==> final(state).rng == old(state).rng,
        old(state)@.wf() ==> final(state)@.wf(),
{
    let hand_height = platform.size.height - HAND_HEIGHT_OFFSET;
    let ghost before = screen@;

    let mut should_draw_hand = true;

    match state.turn {
        Turn::PlayerTurn => {
            player_turn(platform, screen, state, left_mouse_pressed, left_mouse_released);
        },
        Turn::PlayerSelected(selected_card) => {
            player_selected(
                platform,
                screen,
                state,
                selected_card,
                left_mouse_pressed,
                left_mouse_released,
            );
            should_draw_hand = false;
        },
        Turn::CpuTurn => {
            let winner = cpu_turns(state);
            let ghost cpu_state = state@;
            state.turn = Turn::CpuSummary(winner);
            proof {
                assert((Game { turn: Turn::CpuTurn, ..state@ }) == cpu_state);
                lemma_ops_nothing(before);
                if old(state)@.wf() {
                    assert forall|c: Card| #[trigger] state@.count(c) == cpu_state.count(c) by {}
                }
            }
        },
        Turn::CpuSummary(possible_winner) => {
            cpu_summary(
                platform,
                screen,
                state,
                possible_winner,
                left_mouse_pressed,
                left_mouse_released,
            );
        },
        Turn::Resolution(possible_winner) => {
            resolution(screen, possible_winner);
        },
    }

    if should_draw_hand {
        let player = state.player;
        draw_hand(screen, &player, hand_height);
    }
}

/// Whether `post` and `after` are what a frame can make of the game `pre`
/// and of what was drawn `before`, once the frame's events have come down
/// to whether the mouse button went down and whether it came up.
///
/// The frame begins for the widgets. The button that deals anew is
/// evaluated first: a click on it replaces the game by one just dealt, which
/// does not open on the title screen. Then the frame goes by the turn, of
/// the new game if one was dealt.
pub open spec fn frame_stepped(
    platform: Platform,
    pre: Game,
    pressed: bool,
    released: bool,
    post: Game,
    before: Seq<DrawOp>,
    after: Seq<DrawOp>,
) -> bool {
    let redeal = button_evaluation(
        platform,
        pre.ui_context.begun(),
        0,
        0,
        11,
        3,
        "Redeal"@,
        REDEAL_ID,
        pressed,
        released,
    );
    let entered = if redeal.clicked {
        Game { ui_context: UIContext::fresh(), ..post }
    } else {
        Game { ui_context: redeal.context, ..pre }
    };
    &&& redeal.clicked ==> entered.just_dealt(false)
    &&& turn_stepped(platform, entered, pressed, released, post, before + redeal.ops, after)
}

/// Whether a frame is sure to leave the random stream where it stood: the
/// game is not dealt anew, and the turn deals out of an empty deck in no
/// case.
pub open spec fn frame_keeps_stream(
    platform: Platform,
    pre: Game,
    pressed: bool,
    released: bool,
) -> bool {
    let redeal = button_evaluation(
        platform,
        pre.ui_context.begun(),
        0,
        0,
        11,
        3,
        "Redeal"@,
        REDEAL_ID,
        pressed,
        released,
    );
    !redeal.clicked && turn_keeps_stream(
        platform,
        Game { ui_context: redeal.context, ..pre },
        pressed,
        released,
    )
}

/// While no widget is active, the player's draw changes nothing but the
/// widgets' context: no click can be completed.
pub proof fn lemma_player_turn_without_click(
    platform: Platform,
    pre: Game,
    drawn: Game,
    pressed: bool,
    released: bool,
)
    requires
        pre.ui_context.active == 0,
        drew(platform, pre, pressed, released, drawn),
    ensures
        drawn == pre,
        player_turn_step(platform, pre, drawn, pressed, released).game == (Game {
            ui_context: player_turn_step(platform, pre, drawn, pressed, released).game.ui_context,
            ..pre
        }),
{
    reveal(card_back_button_evaluation);
    reveal(card_button_evaluation);
}

/// While no widget is active, the frame of a game in which the player is to
/// draw changes nothing of it but the widgets' context.
pub proof fn lemma_turn_without_click(
    platform: Platform,
    pre: Game,
    pressed: bool,
    released: bool,
    post: Game,
    before: Seq<DrawOp>,
    after: Seq<DrawOp>,
)
    requires
        pre.turn == Turn::PlayerTurn,
        pre.ui_context.active == 0,
        turn_stepped(platform, pre, pressed, released, post, before, after),
    ensures
        post == (Game { ui_context: post.ui_context, ..pre }),
{
    let drawn = choose|drawn: Game|
        {
            &&& #[trigger] drew(platform, pre, pressed, released, drawn)
            &&& post == player_turn_step(platform, pre, drawn, pressed, released).game
            &&& after == before + player_turn_step(
                platform,
                pre,
                drawn,
                pressed,
                released,
            ).ops + hand_ops(post.player, hand_row(platform.size))
        };
    lemma_player_turn_without_click(platform, pre, drawn, pressed, released);
}

/// A frame moves the round on in order, by one step at most, or else deals
/// anew, after which the player is to draw.
pub proof fn lemma_frames_in_order(
    platform: Platform,
    pre: Game,
    pressed: bool,
    released: bool,
    post: Game,
    before: Seq<DrawOp>,
    after: Seq<DrawOp>,
)
    requires
        frame_stepped(platform, pre, pressed, released, post, before, after),
    ensures
        follows(pre.turn, post.turn) || post.turn == Turn::PlayerTurn,
{
    let redeal = button_evaluation(
        platform,
        pre.ui_context.begun(),
        0,
        0,
        11,
        3,
        "Redeal"@,
        REDEAL_ID,
        pressed,
        released,
    );
    if !redeal.clicked {
        lemma_turns_in_order(
            platform,
            Game { ui_context: redeal.context, ..pre },
            pressed,
            released,
            post,
            before + redeal.ops,
            after,
        );
    }
}

/// The frame of a game just dealt changes nothing of it but the widgets'
/// context.
pub proof fn lemma_frame_of_new_game(
    platform: Platform,
    pre: Game,
    pressed: bool,
    released: bool,
    post: Game,
    before: Seq<DrawOp>,
    after: Seq<DrawOp>,
)
    requires
        pre.turn == Turn::PlayerTurn,
        pre.ui_context == UIContext::fresh(),
        frame_stepped(platform, pre, pressed, released, post, before, after),
    ensures
        pre == (Game { ui_context: UIContext::fresh(), ..post }),
{
    reveal(button_evaluation);
    let redeal = button_evaluation(
        platform,
        pre.ui_context.begun(),
        0,
        0,
        11,
        3,
        "Redeal"@,
        REDEAL_ID,
        pressed,
        released,
    );
    assert(!redeal.clicked);
    lemma_turn_without_click(
        platform,
        Game { ui_context: redeal.context, ..pre },
        pressed,
        released,
        post,
        before + redeal.ops,
        after,
    );
}

/// Computes a frame from whether the mouse button went down and whether it
/// came up since the last one.
pub fn advance_frame(
    platform: &Platform,
    screen: &mut Screen,
    state: &mut State,
    left_mouse_pressed: bool,
    left_mouse_released: bool,
)
    requires
        hand_fits(hand_row(platform.size)),
    ensures
        frame_stepped(
            *platform,
            old(state)@,
            left_mouse_pressed,
            left_mouse_released,
            final(state)@,
            old(screen)@,
            final(screen)@,
        ),
        frame_keeps_stream(*platform, old(state)@, left_mouse_pressed, left_mouse_released)
            ==> final(state).rng == old(state).rng,
        old(state)@.wf() ==> final(state)@.wf(),
{
    state.ui_context.frame_init();

    proof {
        reveal_strlit("Redeal");
    }
    let redeal_spec = ButtonSpec {
        x: 0,
        y: 0,
        w: 11,
        h: 3,
        text: String::from_str("Redeal"),
        id: REDEAL_ID,
    };

    let redealt = do_button(
        platform,
        screen,
        &mut state.ui_context,
        &redeal_spec,
        left_mouse_pressed,
        left_mouse_released,
    );
    if redealt {
        *state = make_state(platform.size, false, state.rng);
    } else {
        assert(state@ == (Game { ui_context: state@.ui_context, ..old(state)@ }));
        assert(old(state)@.wf() ==> state@.wf()) by {
            assert forall|c: Card| #[trigger] state@.count(c) == old(state)@.count(c) by {}
        }
    }
    let ghost entered = state@;
    let ghost mid = screen@;

    take_turn(platform, screen, state, left_mouse_pressed, left_mouse_released);

    proof {
        if redealt {
            lemma_turn_without_click(
                *platform,
                entered,
                left_mouse_pressed,
                left_mouse_released,
                state@,
                mid,
                screen@,
            );
        }
    }
}

/// What the events of a frame come to.
pub struct Scan {
    /// The program is to end.
    pub quit: bool,
    /// A new game was asked for.
    pub reset: bool,
    /// The left mouse button went down.
    pub pressed: bool,
    /// The left mouse button came up.
    pub released: bool,
    /// A key went down, other than to end the program.
    pub key: bool,
}

/// What a frame's events come to. They are taken in order, and none is
/// looked at after the first that ends the program.
pub open spec fn scan(events: Seq<Event>) -> Scan
    decreases events.len(),
{
    if events.len() == 0 {
        Scan { quit: false, reset: false, pressed: false, released: false, key: false }
    } else {
        let before = scan(events.drop_last());
        let event = events.last();
        if before.quit {
            before
        } else {
            Scan {
                quit: event.is_quit(),
                reset: before.reset || event.is_reset(),
                pressed: before.pressed || event.is_mouse_press(),
                released: before.released || event.is_mouse_release(),
                key: before.key || (event.is_key_press() && !event.is_quit()),
            }
        }
    }
}

/// Events after the one that ends the program change nothing.
pub proof fn lemma_scan_stops(events: Seq<Event>, handled: int)
    requires
        0 <= handled <= events.len(),
        scan(events.take(handled)).quit,
    ensures
        scan(events) == scan(events.take(handled)),
    decreases events.len(),
{
    if handled == events.len() {
        assert(events.take(handled) =~= events);
    } else {
        assert(events.drop_last().take(handled) =~= events.take(handled));
        lemma_scan_stops(events.drop_last(), handled);
    }
}

/// Handles what an event asks for in whichever state the game is: the reset
/// chord replaces the game by a new one, seeded as the platform says.
pub fn cross_mode_event_handling(platform: &Platform, state: &mut State, event: &Event)
    ensures
        event.is_reset() ==> final(state)@.just_dealt(platform.start.shows_title()),
        !event.is_reset() ==> final(state)@ == old(state)@ && final(state).rng == old(state).rng,
{
    match *event {
        Event::KeyPressed { key: KeyCode::R, ctrl: true, shift: _ } => {
            *state = new_state(platform.size, platform.start);
        },
        _ => (),
    }
}

/// Whether `post`, `after` and `quit` are what a frame of the game proper
/// can make of the game `pre`, of what was drawn `before`, and of the
/// frame's events.
///
/// The reset chord replaces the game by one just dealt, whatever the turn
/// was. If the events end the program, nothing else happens and nothing is
/// drawn. Otherwise the frame is computed, of the new game if there is one.
pub open spec fn game_stepped(
    platform: Platform,
    pre: Game,
    events: Seq<Event>,
    post: Game,
    before: Seq<DrawOp>,
    after: Seq<DrawOp>,
    quit: bool,
) -> bool {
    let seen = scan(events);
    let entered = if seen.reset {
        Game { ui_context: UIContext::fresh(), ..post }
    } else {
        pre
    };
    &&& quit == seen.quit
    &&& seen.reset ==> entered.just_dealt(platform.start.shows_title())
    &&& if seen.quit {
        post == entered && after == before
    } else {
        frame_stepped(platform, entered, seen.pressed, seen.released, post, before, after)
    }
}

/// Whether a frame of the game proper is sure to leave the random stream
/// where it stood: no new game is asked for, and either the events end the
/// program or the frame they lead to leaves the stream alone.
pub open spec fn game_keeps_stream(platform: Platform, pre: Game, events: Seq<Event>) -> bool {
    let seen = scan(events);
    !seen.reset && (seen.quit || frame_keeps_stream(platform, pre, seen.pressed, seen.released))
}

/// Advances the game proper by one frame: takes in the frame's events and,
/// unless they end the program, computes the frame. Returns whether the
/// program is to end. A frame that is computed needs a display on which the
/// player's hand can be drawn.
pub fn game_update_and_render(
    platform: &Platform,
    screen: &mut Screen,
    state: &mut State,
    events: &Vec<Event>,
) -> (quit: bool)
    requires
        scan(events@).quit || hand_fits(hand_row(platform.size)),
    ensures
        game_stepped(
            *platform,
            old(state)@,
            events@,
            final(state)@,
            old(screen)@,
            final(screen)@,
            quit,
        ),
        game_keeps_stream(*platform, old(state)@, events@) ==> final(state).rng == old(state).rng,
        old(state)@.wf() ==> final(state)@.wf(),
{
    let mut left_mouse_pressed = false;
    let mut left_mouse_released = false;

    let mut i: usize = 0;
    while i < events.len()
        invariant
            i <= events.len(),
            screen@ == old(screen)@,
            scan(events@).quit || hand_fits(hand_row(platform.size)),
            !scan(events@.take(i as int)).quit,
            left_mouse_pressed == scan(events@.take(i as int)).pressed,
            left_mouse_released == scan(events@.take(i as int)).released,
            scan(events@.take(i as int)).reset ==> state@.just_dealt(platform.start.shows_title()),
            !scan(events@.take(i as int)).reset ==> state@ == old(state)@,
            !scan(events@.take(i as int)).reset ==> state.rng == old(state).rng,
            old(state)@.wf() ==> state@.wf(),
        decreases events.len() - i,
    {
        let event = events[i];
        assert(events@.take(i + 1).drop_last() =~= events@.take(i as int));
        cross_mode_event_handling(platform, state, &event);

        match event {
            Event::KeyPressed { key: KeyCode::MouseLeft, ctrl: _, shift: _ } => {
                left_mouse_pressed = true;
            },
            Event::KeyReleased { key: KeyCode::MouseLeft, ctrl: _, shift: _ } => {
                left_mouse_released = true;
            },
            Event::Close | Event::KeyPressed { key: KeyCode::Escape, ctrl: _, shift: _ } => {
                proof {
                    lemma_scan_stops(events@, i + 1);
                }
                return true;
            },
            _ => (),
        }
        i = i + 1;
    }
    assert(events@.take(i as int) =~= events@);
    let ghost entered = state@;

    advance_frame(platform, screen, state, left_mouse_pressed, left_mouse_released);

    proof {
        if scan(events@).reset {
            lemma_frame_of_new_game(
                *platform,
                entered,
                left_mouse_pressed,
                left_mouse_released,
                state@,
                old(screen)@,
                screen@,
            );
        }
    }

    false
}

/// Whether `post`, `after` and `quit` are what a frame of the title screen
/// can make of the game `pre`, of what was drawn `before`, and of the
/// frame's events.
///
/// The reset chord replaces the game by one just dealt. Any key that goes
/// down, the reset chord and the mouse button too, closes the title screen.
/// Unless the events end the program, the frame draws the invitation to
/// start.
pub open spec fn title_stepped(
    pre: Game,
    events: Seq<Event>,
    post: Game,
    before: Seq<DrawOp>,
    after: Seq<DrawOp>,
    quit: bool,
) -> bool {
    let seen = scan(events);
    &&& quit == seen.quit
    &&& if seen.reset {
        post.just_dealt(false)
    } else {
        post == (Game { title_screen: pre.title_screen && !seen.key, ..pre })
    }
    &&& after == (if seen.quit {
        before
    } else {
        before.push(print_op(5, 10, "Click to start."@))
    })
}

/// Advances the game by one frame: the title screen while it is showing,
/// the game proper otherwise. What the frame draws is added to `screen`.
/// Returns whether the program is to end.
pub fn update_and_render(
    platform: &Platform,
    screen: &mut Screen,
    state: &mut State,
    events: &Vec<Event>,
) -> (quit: bool)
    requires
        old(state)@.title_screen || scan(events@).quit || hand_fits(hand_row(platform.size)),
    ensures
        if old(state)@.title_screen {
            title_stepped(
                old(state)@,
                events@,
                final(state)@,
                old(screen)@,
                final(screen)@,
                quit,
            )
        } else {
            game_stepped(
                *platform,
                old(state)@,
                events@,
                final(state)@,
                old(screen)@,
                final(screen)@,
                quit,
            )
        },
        (if old(state)@.title_screen {
            !scan(events@).reset
        } else {
            game_keeps_stream(*platform, old(state)@, events@)
        }) ==> final(state).rng == old(state).rng,
        old(state)@.wf() ==> final(state)@.wf(),
{
    if state.title_screen {
        let mut i: usize = 0;
        while i < events.len()
            invariant
                i <= events.len(),
                screen@ == old(screen)@,
                old(state)@.title_screen,
                !scan(events@.take(i as int)).quit,
                scan(events@.take(i as int)).reset ==> state@.just_dealt(false),
                !scan(events@.take(i as int)).reset ==> state@ == (Game {
                    title_screen: !scan(events@.take(i as int)).key,
                    ..old(state)@
                }) && state.rng == old(state).rng,
                old(state)@.wf() ==> state@.wf(),
            decreases events.len() - i,
        {
            let event = events[i];
            assert(events@.take(i + 1).drop_last() =~= events@.take(i as int));
            cross_mode_event_handling(platform, state, &event);
            let ghost reset = state@;
            match event {
                Event::Close | Event::KeyPressed { key: KeyCode::Escape, ctrl: _, shift: _ } => {
                    proof {
                        lemma_scan_stops(events@, i + 1);
                    }
                    return true;
                },
                Event::KeyPressed { key: _, ctrl: _, shift: _ } => {
                    state.title_screen = false;
                },
                _ => (),
            }
            proof {
                assert forall|c: Card| #[trigger] state@.count(c) == reset.count(c) by {}
            }
            i = i + 1;
        }
        assert(events@.take(i as int) =~= events@);

        screen.print_xy(5, 10, "Click to start.");

        false
    } else {
        game_update_and_render(platform, screen, state, events)
    }
}

/// The part of a frame that goes by the turn moves no card out of the game.
pub proof fn lemma_turn_conserves(
    platform: Platform,
    pre: Game,
    pressed: bool,
    released: bool,
    post: Game,
    before: Seq<DrawOp>,
    after: Seq<DrawOp>,
)
    requires
        turn_stepped(platform, pre, pressed, released, post, before, after),
        pre.wf(),
    ensures
        post.wf(),
{
    match pre.turn {
        Turn::PlayerTurn => {
            let drawn = choose|drawn: Game|
                {
                    &&& #[trigger] drew(platform, pre, pressed, released, drawn)
                    &&& post == player_turn_step(platform, pre, drawn, pressed, released).game
                    &&& after == before + player_turn_step(
                        platform,
                        pre,
                        drawn,
                        pressed,
                        released,
                    ).ops + hand_ops(post.player, hand_row(platform.size))
                };
            lemma_player_turn_conserves(platform, pre, drawn, pressed, released);
        },
        Turn::PlayerSelected(held) => {
            let ask = asked(
                platform,
                pre.ui_context,
                pre.player,
                held,
                hand_row(platform.size),
                pressed,
                released,
            );
            lemma_placed_conserves(pre, held, ask.choice);
            assert forall|c: Card| #[trigger]
                post.count(c) == placed(pre, held, ask.choice).count(c) by {}
        },
        Turn::CpuTurn => {
            let start = Game { summary: Seq::empty(), ..pre };
            let moved = Game { turn: Turn::CpuTurn, ..post };
            assert forall|c: Card| #[trigger] start.count(c) == pre.count(c) by {}
            lemma_cpu_round_conserves(
                start,
                pre.cpu_players.len(),
                moved,
                post.turn->CpuSummary_0,
            );
            assert forall|c: Card| #[trigger] post.count(c) == 1 by {
                assert(moved.count(c) == 1);
            }
        },
        Turn::CpuSummary(_) => {
            assert forall|c: Card| #[trigger] post.count(c) == pre.count(c) by {}
        },
        Turn::Resolution(_) => {},
    }
}

/// A frame moves no card out of the game.
pub proof fn lemma_frame_conserves(
    platform: Platform,
    pre: Game,
    pressed: bool,
    released: bool,
    post: Game,
    before: Seq<DrawOp>,
    after: Seq<DrawOp>,
)
    requires
        frame_stepped(platform, pre, pressed, released, post, before, after),
        pre.wf(),
    ensures
        post.wf(),
{
    let redeal = button_evaluation(
        platform,
        pre.ui_context.begun(),
        0,
        0,
        11,
        3,
        "Redeal"@,
        REDEAL_ID,
        pressed,
        released,
    );
    let entered = if redeal.clicked {
        Game { ui_context: UIContext::fresh(), ..post }
    } else {
        Game { ui_context: redeal.context, ..pre }
    };
    if !redeal.clicked {
        assert forall|c: Card| #[trigger] entered.count(c) == pre.count(c) by {}
    }
    lemma_turn_conserves(platform, entered, pressed, released, post, before + redeal.ops, after);
}

/// Whatever the events of a frame are, a click, the reset chord, a redeal
/// or the end of the program, a game that holds the full card set before
/// the frame holds it after the frame: every card once, in the deck, on the
/// pile, in a hand or held by the turn, 52 in all.
pub proof fn lemma_game_conserves(
    platform: Platform,
    pre: Game,
    events: Seq<Event>,
    post: Game,
    before: Seq<DrawOp>,
    after: Seq<DrawOp>,
    quit: bool,
)
    requires
        if pre.title_screen {
            title_stepped(pre, events, post, before, after, quit)
        } else {
            game_stepped(platform, pre, events, post, before, after, quit)
        },
        pre.wf(),
    ensures
        post.wf(),
        forall|card: Card| #[trigger] post.cards().count(card) == 1,
        post.deck.len() + post.pile.len() + 3 * (1 + post.cpu_players.len()) + (if post.turn
            is PlayerSelected {
            1int
        } else {
            0
        }) == 52,
{
    let seen = scan(events);
    if pre.title_screen {
        if !seen.reset {
            assert forall|c: Card| #[trigger] post.count(c) == pre.count(c) by {}
        }
    } else {
        let entered = if seen.reset {
            Game { ui_context: UIContext::fresh(), ..post }
        } else {
            pre
        };
        if !seen.quit {
            lemma_frame_conserves(
                platform,
                entered,
                seen.pressed,
                seen.released,
                post,
                before,
                after,
            );
        }
    }
    lemma_conserved_is_full_deck(post);
    lemma_conserved_size(post);
}

/// The reset chord, from whichever turn, leaves a game just dealt with the
/// player to draw: nothing of the turn that was, the card it held or the
/// winner it named, and nothing of the summary is left.
pub proof fn lemma_reset_deals_anew(
    platform: Platform,
    pre: Game,
    events: Seq<Event>,
    post: Game,
    before: Seq<DrawOp>,
    after: Seq<DrawOp>,
    quit: bool,
)
    requires
        if pre.title_screen {
            title_stepped(pre, events, post, before, after, quit)
        } else {
            game_stepped(platform, pre, events, post, before, after, quit)
        },
        scan(events).reset,
    ensures
        post.turn == Turn::PlayerTurn,
        post.pile.len() == 1,
        1 <= post.cpu_players.len() <= 4,
        post.deck.len() == 52 - 4 - 3 * post.cpu_players.len(),
        post.summary.len() == 0,
        post.ui_context.hot == 0 && post.ui_context.active == 0,
        post.wf(),
{
    if !pre.title_screen {
        let entered = Game { ui_context: UIContext::fresh(), ..post };
        assert forall|c: Card| #[trigger] post.count(c) == entered.count(c) by {}
        if !scan(events).quit {
            reveal(button_evaluation);
            reveal(card_back_button_evaluation);
            reveal(card_button_evaluation);
            let redeal = button_evaluation(
                platform,
                entered.ui_context.begun(),
                0,
                0,
                11,
                3,
                "Redeal"@,
                REDEAL_ID,
                scan(events).pressed,
                scan(events).released,
            );
            lemma_turn_without_click(
                platform,
                Game { ui_context: redeal.context, ..entered },
                scan(events).pressed,
                scan(events).released,
                post,
                before + redeal.ops,
                after,
            );
            let drawn = Game { ui_context: redeal.context, ..entered };
            assert(post.ui_context == player_turn_step(
                platform,
                drawn,
                drawn,
                scan(events).pressed,
                scan(events).released,
            ).game.ui_context) by {
                let chosen = choose|chosen: Game|
                    {
                        &&& #[trigger] drew(
                            platform,
                            drawn,
                            scan(events).pressed,
                            scan(events).released,
                            chosen,
                        )
                        &&& post == player_turn_step(
                            platform,
                            drawn,
                            chosen,
                            scan(events).pressed,
                            scan(events).released,
                        ).game
                        &&& after == before + redeal.ops + player_turn_step(
                            platform,
                            drawn,
                            chosen,
                            scan(events).pressed,
                            scan(events).released,
                        ).ops + hand_ops(post.player, hand_row(platform.size))
                    };
                lemma_player_turn_without_click(
                    platform,
                    drawn,
                    chosen,
                    scan(events).pressed,
                    scan(events).released,
                );
            }
        }
    }
}

/// A click completed on the deck, in a frame of the player's turn that
/// neither ends the program nor deals anew, deals one card to the turn: the
/// deck's last card if the deck has cards, and a card of the pile
/// reshuffled if it has none. The pile's button has no part in that frame's
/// outcome, and the hands stay as they are.
///
/// The click is completed when the deck is the active widget, the pointer
/// rested on it when the last frame was computed and is on it now, and the
/// mouse button has come up.
pub proof fn lemma_click_on_deck(
    platform: Platform,
    pre: Game,
    events: Seq<Event>,
    post: Game,
    before: Seq<DrawOp>,
    after: Seq<DrawOp>,
    quit: bool,
)
    requires
        game_stepped(platform, pre, events, post, before, after, quit),
        pre.turn == Turn::PlayerTurn,
        !scan(events).quit,
        !scan(events).reset,
        scan(events).released,
        pre.ui_context.active == DECK_ID,
        pre.ui_context.next_hot == DECK_ID,
        on_card(platform, DECK_X as int, DECK_Y as int),
    ensures
        !quit,
        post.turn matches Turn::PlayerSelected(card) && dealt(
            pre.deck,
            pre.pile,
            post.deck,
            post.pile,
            card,
        ),
        pre.deck.len() > 0 ==> post.turn == Turn::PlayerSelected(pre.deck.last()) && post.deck
            == pre.deck.drop_last() && post.pile == pre.pile,
        post.player == pre.player,
        post.cpu_players == pre.cpu_players,
        pre.wf() ==> post.wf(),
{
    reveal(button_evaluation);
    reveal(card_back_button_evaluation);
    reveal(card_button_evaluation);
    let pressed = scan(events).pressed;
    let redeal = button_evaluation(
        platform,
        pre.ui_context.begun(),
        0,
        0,
        11,
        3,
        "Redeal"@,
        REDEAL_ID,
        pressed,
        true,
    );
    let entered = Game { ui_context: redeal.context, ..pre };
    let drawn = choose|drawn: Game|
        {
            &&& #[trigger] drew(platform, entered, pressed, true, drawn)
            &&& post == player_turn_step(platform, entered, drawn, pressed, true).game
            &&& after == before + redeal.ops + player_turn_step(
                platform,
                entered,
                drawn,
                pressed,
                true,
            ).ops + hand_ops(post.player, hand_row(platform.size))
        };
    lemma_deck_or_pile(platform, entered.ui_context, drawn.pile.last(), pressed, true);
    if pre.wf() {
        lemma_frame_conserves(platform, pre, pressed, true, post, before, after);
    }
}

/// Identifier of the card at a position of the player's hand.
pub open spec fn hand_card_id(position: HandCard) -> UiId {
    match position {
        HandCard::FirstCard => HAND_ID,
        HandCard::SecondCard => (HAND_ID + 1) as UiId,
        HandCard::ThirdCard => (HAND_ID + 2) as UiId,
    }
}

/// Column of the card at a position of the player's hand.
pub open spec fn hand_card_x(position: HandCard) -> int {
    match position {
        HandCard::FirstCard => CARD_OFFSET as int,
        HandCard::SecondCard => CARD_OFFSET + CARD_OFFSET_DELTA,
        HandCard::ThirdCard => CARD_OFFSET + 2 * CARD_OFFSET_DELTA,
    }
}

/// A click completed on a card of the hand is the player's choice of that
/// card, whichever of the three it is and whatever the cards before it
/// made of the pointer.
pub proof fn lemma_click_on_hand_card(
    platform: Platform,
    context: UIContext,
    player: Hand,
    held: Card,
    hand_height: int,
    pressed: bool,
    position: HandCard,
)
    requires
        context.active == hand_card_id(position),
        context.hot == hand_card_id(position),
        on_raised_card(platform, true, hand_card_x(position), hand_height),
    ensures
        asked(platform, context, player, held, hand_height, pressed, true).choice == Some(
            ReturnSelection::FromHand(position),
        ),
        asked(platform, context, player, held, hand_height, pressed, true).context.active == 0,
{
    reveal(raised_card_button_evaluation);
    reveal(card_button_evaluation);
}

/// A click completed on a card of the player's hand, in a frame that neither
/// ends the program nor deals anew, while the player holds a card: the card
/// that was at that position goes on top of the pile, the held card takes
/// its place, and the other two positions, the deck and the CPU players'
/// hands stay as they are. Whether the round ends is decided on the hand
/// after the exchange.
pub proof fn lemma_click_places_card(
    platform: Platform,
    pre: Game,
    events: Seq<Event>,
    post: Game,
    before: Seq<DrawOp>,
    after: Seq<DrawOp>,
    quit: bool,
    held: Card,
    position: HandCard,
)
    requires
        game_stepped(platform, pre, events, post, before, after, quit),
        pre.turn == Turn::PlayerSelected(held),
        !scan(events).quit,
        !scan(events).reset,
        scan(events).released,
        pre.ui_context.active == hand_card_id(position),
        pre.ui_context.next_hot == hand_card_id(position),
        on_raised_card(platform, true, hand_card_x(position), hand_row(platform.size)),
    ensures
        !quit,
        post.pile == pre.pile.push(pre.player.at(position)),
        post.player == pre.player.with(position, held),
        post.player.at(position) == held,
        forall|other: HandCard|
            other != position ==> post.player.at(other) == pre.player.at(other),
        post.deck == pre.deck,
        post.cpu_players == pre.cpu_players,
        post.turn == (if pre.player.with(position, held).is_winning() {
            Turn::Resolution(Some(Participant::Player))
        } else {
            Turn::CpuTurn
        }),
        pre.wf() ==> post.wf() && count_in(post.pile, held) == 0,
{
    reveal(button_evaluation);
    let pressed = scan(events).pressed;
    let redeal = button_evaluation(
        platform,
        pre.ui_context.begun(),
        0,
        0,
        11,
        3,
        "Redeal"@,
        REDEAL_ID,
        pressed,
        true,
    );
    lemma_click_on_hand_card(
        platform,
        redeal.context,
        pre.player,
        held,
        hand_row(platform.size),
        pressed,
        position,
    );
    assert forall|other: HandCard| other != position implies pre.player.with(position, held).at(
        other,
    ) == pre.player.at(other) by {
        lemma_swap_exchanges(pre.player, position, held, other);
    }
    if pre.wf() {
        lemma_frame_conserves(platform, pre, pressed, true, post, before, after);
        assert(post.count(held) == 1);
        assert(post.player.count(held) >= 1);
        lemma_hands_count_not_negative(post.cpu_players, held);
    }
}

/// A press on the first card of the hand and a release while the held card
/// is the hot widget is no choice, and leaves no widget active.
pub proof fn lemma_release_on_another_card(
    platform: Platform,
    context: UIContext,
    player: Hand,
    held: Card,
    hand_height: int,
)
    requires
        context.active == HAND_ID,
        context.hot == SELECTED_CARD_ID,
    ensures
        asked(platform, context, player, held, hand_height, false, true).choice is None,
        asked(platform, context, player, held, hand_height, false, true).context.active == 0,
{
    reveal(raised_card_button_evaluation);
    reveal(card_button_evaluation);
}

} // verus!
