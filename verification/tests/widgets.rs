use state_manipulation::card::{Card, Suit, Value};
use state_manipulation::platform::{Platform, Point, Size, Start};
use state_manipulation::screen::{DrawCommand, Rect, Screen};
use state_manipulation::widgets::{
    do_button, do_card_back_button, do_card_button, do_raised_card_button, inside_rect,
    ButtonSpec, UIContext,
};

fn platform(x: i32, y: i32, mouse_left_down: bool) -> Platform {
    Platform {
        size: Size { width: 80, height: 50 },
        mouse_position: Point { x, y },
        mouse_left_down,
        start: Start::Fixed,
    }
}

fn button(id: i32, x: i32, y: i32, text: &str) -> ButtonSpec {
    ButtonSpec { x, y, w: 11, h: 3, text: text.to_string(), id }
}

fn print(x: i32, y: i32, text: &str) -> DrawCommand {
    DrawCommand::Print { x, y, text: text.to_string() }
}

fn corners(screen: &Screen) -> (String, String) {
    let prints: Vec<(i32, String)> = screen
        .commands
        .iter()
        .filter_map(|command| match command {
            DrawCommand::Print { y, text, .. } => Some((*y, text.clone())),
            DrawCommand::Clear(_) => None,
        })
        .collect();
    let top = prints[0].0;
    let row: Vec<&(i32, String)> = prints.iter().take_while(|(y, _)| *y == top).collect();
    (row[0].1.clone(), row[row.len() - 1].1.clone())
}

fn idle() -> (String, String) {
    ("┌".to_string(), "┐".to_string())
}

fn hover() -> (String, String) {
    ("┌".to_string(), "╖".to_string())
}

fn pressed() -> (String, String) {
    ("╔".to_string(), "╕".to_string())
}

#[test]
fn inside_rect_takes_the_near_edges_and_leaves_the_far_ones() {
    assert!(inside_rect(Point { x: 0, y: 0 }, 0, 0, 11, 3));
    assert!(inside_rect(Point { x: 10, y: 2 }, 0, 0, 11, 3));
    assert!(!inside_rect(Point { x: 11, y: 2 }, 0, 0, 11, 3));
    assert!(!inside_rect(Point { x: 10, y: 3 }, 0, 0, 11, 3));
    assert!(!inside_rect(Point { x: -1, y: 0 }, 0, 0, 11, 3));
    assert!(!inside_rect(Point { x: 0, y: -1 }, 0, 0, 11, 3));
}

#[test]
fn inside_rect_of_an_empty_rectangle_is_false() {
    assert!(!inside_rect(Point { x: 5, y: 5 }, 5, 5, 0, 3));
    assert!(!inside_rect(Point { x: 5, y: 5 }, 5, 5, 3, 0));
    assert!(!inside_rect(Point { x: 4, y: 5 }, 5, 5, -2, 3));
}

#[test]
fn inside_rect_at_the_limits() {
    assert!(inside_rect(Point { x: i32::MAX, y: i32::MAX }, i32::MAX, i32::MAX, 1, 1));
    assert!(inside_rect(Point { x: i32::MAX, y: 0 }, 0, 0, i32::MAX, 1) == false);
    assert!(inside_rect(Point { x: i32::MAX, y: 0 }, 1, 0, i32::MAX, 1));
    assert!(!inside_rect(Point { x: i32::MIN, y: 0 }, i32::MIN, 0, -1, 1));
}

#[test]
fn new_context_has_nothing_hot_or_active() {
    assert_eq!(UIContext::new(), UIContext { hot: 0, active: 0, next_hot: 0 });
}

#[test]
fn context_setters_change_one_field() {
    let mut context = UIContext { hot: 1, active: 2, next_hot: 3 };
    context.set_active(7);
    assert_eq!(context, UIContext { hot: 1, active: 7, next_hot: 3 });
    context.set_next_hot(9);
    assert_eq!(context, UIContext { hot: 1, active: 7, next_hot: 9 });
    context.set_not_active();
    assert_eq!(context, UIContext { hot: 1, active: 0, next_hot: 9 });
    context.frame_init();
    assert_eq!(context, UIContext { hot: 9, active: 0, next_hot: 0 });
    context.frame_init();
    assert_eq!(context, UIContext { hot: 0, active: 0, next_hot: 0 });
}

#[test]
fn frame_init_carries_the_active_widget_over() {
    let mut context = UIContext { hot: 4, active: 4, next_hot: 5 };
    context.frame_init();
    assert_eq!(context, UIContext { hot: 5, active: 4, next_hot: 0 });
}

#[test]
fn click_takes_hover_press_and_release() {
    let spec = button(1, 0, 0, "Redeal");
    let mut context = UIContext::new();

    context.frame_init();
    let mut screen = Screen::new();
    assert!(!do_button(&platform(5, 1, false), &mut screen, &mut context, &spec, false, false));
    assert_eq!(context, UIContext { hot: 0, active: 0, next_hot: 1 });
    assert_eq!(corners(&screen), idle());

    context.frame_init();
    let mut screen = Screen::new();
    assert!(!do_button(&platform(5, 1, true), &mut screen, &mut context, &spec, true, false));
    assert_eq!(context, UIContext { hot: 1, active: 1, next_hot: 1 });
    assert_eq!(corners(&screen), pressed());

    context.frame_init();
    let mut screen = Screen::new();
    assert!(do_button(&platform(5, 1, false), &mut screen, &mut context, &spec, false, true));
    assert_eq!(context, UIContext { hot: 1, active: 0, next_hot: 1 });
    assert_eq!(corners(&screen), hover());
}

#[test]
fn press_without_hover_does_nothing() {
    let spec = button(1, 0, 0, "Redeal");
    let mut context = UIContext::new();
    context.frame_init();
    let mut screen = Screen::new();
    assert!(!do_button(&platform(5, 1, true), &mut screen, &mut context, &spec, true, false));
    assert_eq!(context, UIContext { hot: 0, active: 0, next_hot: 1 });
    context.frame_init();
    let mut screen = Screen::new();
    assert!(!do_button(&platform(5, 1, false), &mut screen, &mut context, &spec, false, true));
    assert_eq!(context.active, 0);
}

#[test]
fn release_off_the_widget_is_no_click_and_clears_active() {
    let spec = button(1, 0, 0, "Redeal");
    let mut context = UIContext { hot: 1, active: 1, next_hot: 0 };
    let mut screen = Screen::new();
    assert!(!do_button(&platform(40, 20, false), &mut screen, &mut context, &spec, false, true));
    assert_eq!(context, UIContext { hot: 1, active: 0, next_hot: 0 });
}

#[test]
fn press_on_one_widget_and_release_on_another_clicks_neither() {
    let a = button(1, 0, 0, "A");
    let b = button(2, 20, 0, "B");
    let mut context = UIContext::new();

    // The pointer comes to rest on A.
    context.frame_init();
    let mut screen = Screen::new();
    assert!(!do_button(&platform(5, 1, false), &mut screen, &mut context, &a, false, false));
    assert!(!do_button(&platform(5, 1, false), &mut screen, &mut context, &b, false, false));

    // The mouse button goes down on A.
    context.frame_init();
    assert!(!do_button(&platform(5, 1, true), &mut screen, &mut context, &a, true, false));
    assert!(!do_button(&platform(5, 1, true), &mut screen, &mut context, &b, true, false));
    assert_eq!(context.active, 1);

    // The pointer moves over to B, the mouse button still down.
    context.frame_init();
    assert!(!do_button(&platform(25, 1, true), &mut screen, &mut context, &a, false, false));
    assert!(!do_button(&platform(25, 1, true), &mut screen, &mut context, &b, false, false));
    assert_eq!(context.active, 1);

    // The mouse button comes up on B.
    context.frame_init();
    assert_eq!(context.hot, 2);
    assert!(!do_button(&platform(25, 1, false), &mut screen, &mut context, &a, false, true));
    assert!(!do_button(&platform(25, 1, false), &mut screen, &mut context, &b, false, true));
    assert_eq!(context.active, 0);
}

#[test]
fn idle_frames_leave_hot_and_active_alone() {
    let a = button(1, 0, 0, "A");
    let b = button(2, 20, 0, "B");
    let mut context = UIContext::new();
    let at = platform(25, 1, false);
    let mut seen = Vec::new();
    for _ in 0..4 {
        context.frame_init();
        let mut screen = Screen::new();
        assert!(!do_button(&at, &mut screen, &mut context, &a, false, false));
        let first = corners(&screen);
        let mut screen = Screen::new();
        assert!(!do_button(&at, &mut screen, &mut context, &b, false, false));
        seen.push((context.hot, context.active, first, corners(&screen)));
    }
    // The pointer arrived on B before the first frame, so that frame does
    // not know of it yet; every later frame is like the one before.
    assert_eq!(seen[0], (0, 0, idle(), idle()));
    assert_eq!(seen[1], (2, 0, idle(), hover()));
    assert_eq!(seen[2], seen[1]);
    assert_eq!(seen[3], seen[1]);
}

#[test]
fn the_last_widget_under_the_pointer_is_hot_next() {
    let below = ButtonSpec { x: 0, y: 0, w: 10, h: 10, text: String::new(), id: 5 };
    let above = ButtonSpec { x: 5, y: 5, w: 10, h: 10, text: String::new(), id: 6 };
    let at = platform(7, 7, false);
    let mut context = UIContext::new();
    let mut screen = Screen::new();
    context.frame_init();
    do_button(&at, &mut screen, &mut context, &below, false, false);
    do_button(&at, &mut screen, &mut context, &above, false, false);
    assert_eq!(context.next_hot, 6);

    let mut context = UIContext::new();
    context.frame_init();
    do_button(&at, &mut screen, &mut context, &above, false, false);
    do_button(&at, &mut screen, &mut context, &below, false, false);
    assert_eq!(context.next_hot, 5);
}

#[test]
fn button_draws_its_frame_and_its_text() {
    let spec = button(1, 0, 0, "Redeal");
    let mut context = UIContext::new();
    let mut screen = Screen::new();
    do_button(&platform(40, 20, false), &mut screen, &mut context, &spec, false, false);
    let commands = &screen.commands;
    assert_eq!(commands.len(), 1 + 2 * 11 + 2 * 1 + 1);
    assert_eq!(commands[0], DrawCommand::Clear(Rect { x: 0, y: 0, w: 11, h: 3 }));
    assert_eq!(commands[1], print(0, 0, "┌"));
    assert_eq!(commands[11], print(10, 0, "┐"));
    assert_eq!(commands[12], print(0, 1, "│"));
    assert_eq!(commands[13], print(10, 1, "│"));
    assert_eq!(commands[14], print(0, 2, "└"));
    assert_eq!(commands[24], print(10, 2, "┘"));
    assert_eq!(commands[25], print(2, 1, "Redeal"));
}

#[test]
fn pressed_style_needs_the_mouse_button_down() {
    let spec = button(1, 0, 0, "");
    let mut context = UIContext { hot: 1, active: 1, next_hot: 0 };
    let mut screen = Screen::new();
    do_button(&platform(5, 1, false), &mut screen, &mut context, &spec, false, false);
    assert_eq!(corners(&screen), hover());

    let mut context = UIContext { hot: 0, active: 1, next_hot: 0 };
    let mut screen = Screen::new();
    do_button(&platform(5, 1, false), &mut screen, &mut context, &spec, false, false);
    assert_eq!(corners(&screen), idle());

    let mut context = UIContext { hot: 0, active: 1, next_hot: 0 };
    let mut screen = Screen::new();
    do_button(&platform(5, 1, true), &mut screen, &mut context, &spec, false, false);
    assert_eq!(corners(&screen), pressed());
}

#[test]
fn card_button_shows_the_card() {
    let card = Card { suit: Suit::Hearts, value: Value::Nine };
    let mut context = UIContext { hot: 100, active: 100, next_hot: 0 };
    let mut screen = Screen::new();
    let clicked = do_card_button(
        &platform(41, 11, false),
        &mut screen,
        &mut context,
        40,
        10,
        &card,
        false,
        true,
        100,
    );
    assert!(clicked);
    assert_eq!(context, UIContext { hot: 100, active: 0, next_hot: 100 });
    let commands = &screen.commands;
    assert_eq!(commands.len(), 1 + 2 * 16 + 2 * 10 + 2);
    assert_eq!(commands[0], DrawCommand::Clear(Rect { x: 40, y: 10, w: 16, h: 12 }));
    assert_eq!(commands[53], print(41, 11, "Nine"));
    assert_eq!(commands[54], print(41, 12, "Hearts"));
    assert_eq!(corners(&screen), hover());
}

#[test]
fn card_back_button_shows_the_pattern() {
    let mut context = UIContext { hot: 88, active: 0, next_hot: 0 };
    let mut screen = Screen::new();
    let clicked = do_card_back_button(
        &platform(61, 11, true),
        &mut screen,
        &mut context,
        60,
        10,
        true,
        false,
        88,
    );
    assert!(!clicked);
    assert_eq!(context, UIContext { hot: 88, active: 88, next_hot: 88 });
    let commands = &screen.commands;
    assert_eq!(commands.len(), (1 + 2 * 16 + 2 * 10) + (1 + 2 * 12 + 2 * 8));
    assert_eq!(commands[0], DrawCommand::Clear(Rect { x: 60, y: 10, w: 16, h: 12 }));
    assert_eq!(commands[53], DrawCommand::Clear(Rect { x: 62, y: 11, w: 12, h: 10 }));
    assert_eq!(corners(&screen), pressed());
}

#[test]
fn raised_card_rests_until_it_is_hot() {
    let card = Card { suit: Suit::Spades, value: Value::Four };
    let mut context = UIContext::new();
    let mut screen = Screen::new();
    // The pointer is where the raised card would be, which does not count
    // while the card is at rest.
    let clicked = do_raised_card_button(
        &platform(6, 37, false),
        &mut screen,
        &mut context,
        5,
        42,
        &card,
        false,
        false,
        110,
    );
    assert!(!clicked);
    assert_eq!(context, UIContext { hot: 0, active: 0, next_hot: 0 });
    assert_eq!(screen.commands[0], DrawCommand::Clear(Rect { x: 5, y: 42, w: 16, h: 12 }));
    assert_eq!(screen.commands[53], print(6, 43, "Four"));
    assert_eq!(corners(&screen), idle());
}

#[test]
fn raised_card_is_drawn_raised_and_takes_the_pointer_there() {
    let card = Card { suit: Suit::Spades, value: Value::Four };
    let mut context = UIContext { hot: 110, active: 0, next_hot: 0 };
    let mut screen = Screen::new();
    let clicked = do_raised_card_button(
        &platform(6, 37, false),
        &mut screen,
        &mut context,
        5,
        42,
        &card,
        false,
        false,
        110,
    );
    assert!(!clicked);
    assert_eq!(context, UIContext { hot: 110, active: 0, next_hot: 110 });
    assert_eq!(screen.commands[0], DrawCommand::Clear(Rect { x: 5, y: 36, w: 16, h: 12 }));
    assert_eq!(screen.commands[53], print(6, 37, "Four"));
    assert_eq!(screen.commands[54], print(6, 38, "Spades"));
    assert_eq!(corners(&screen), hover());
}

#[test]
fn raised_card_click() {
    let card = Card { suit: Suit::Spades, value: Value::Four };
    let mut context = UIContext { hot: 110, active: 0, next_hot: 0 };
    let mut screen = Screen::new();
    assert!(!do_raised_card_button(
        &platform(6, 37, true),
        &mut screen,
        &mut context,
        5,
        42,
        &card,
        true,
        false,
        110,
    ));
    assert_eq!(context, UIContext { hot: 110, active: 110, next_hot: 110 });
    // In the frame of the press the card was not active before it was
    // evaluated, so it is drawn as under the pointer.
    assert_eq!(corners(&screen), hover());

    context.frame_init();
    let mut screen = Screen::new();
    assert!(do_raised_card_button(
        &platform(6, 37, true),
        &mut screen,
        &mut context,
        5,
        42,
        &card,
        false,
        true,
        110,
    ));
    assert_eq!(context, UIContext { hot: 110, active: 0, next_hot: 110 });
    // In the frame of the release it was, so it is still drawn as pressed.
    assert_eq!(corners(&screen), pressed());
}
