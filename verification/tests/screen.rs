use state_manipulation::card::{Card, Suit, Value};
use state_manipulation::screen::{
    draw_card, draw_card_back, draw_card_back_design, draw_card_value, draw_rect, draw_rect_with,
    half_of, print_centered_line, DrawCommand, Rect, Screen,
};

fn print(x: i32, y: i32, text: &str) -> DrawCommand {
    DrawCommand::Print { x, y, text: text.to_string() }
}

fn clear(x: i32, y: i32, w: i32, h: i32) -> DrawCommand {
    DrawCommand::Clear(Rect { x, y, w, h })
}

#[test]
fn new_screen_is_empty() {
    assert!(Screen::new().commands.is_empty());
}

#[test]
fn print_and_clear_add_commands_in_order() {
    let mut screen = Screen::new();
    screen.print_xy(3, 4, "abc");
    screen.clear(Rect { x: 1, y: 2, w: 3, h: 4 });
    screen.print_xy(-1, 0, "");
    assert_eq!(screen.commands, vec![print(3, 4, "abc"), clear(1, 2, 3, 4), print(-1, 0, "")]);
}

#[test]
fn rect_of_three_by_three() {
    let mut screen = Screen::new();
    draw_rect(&mut screen, 2, 3, 3, 3);
    assert_eq!(
        screen.commands,
        vec![
            clear(2, 3, 3, 3),
            print(2, 3, "┌"),
            print(3, 3, "─"),
            print(4, 3, "┐"),
            print(2, 4, "│"),
            print(4, 4, "│"),
            print(2, 5, "└"),
            print(3, 5, "─"),
            print(4, 5, "┘"),
        ]
    );
}

#[test]
fn rect_with_its_own_edges() {
    let mut screen = Screen::new();
    draw_rect_with(&mut screen, 0, 0, 4, 4, ["a", "b", "c", "d", "e", "f", "g", "h"]);
    assert_eq!(
        screen.commands,
        vec![
            clear(0, 0, 4, 4),
            print(0, 0, "a"),
            print(1, 0, "b"),
            print(2, 0, "b"),
            print(3, 0, "c"),
            print(0, 1, "d"),
            print(3, 1, "e"),
            print(0, 2, "d"),
            print(3, 2, "e"),
            print(0, 3, "f"),
            print(1, 3, "g"),
            print(2, 3, "g"),
            print(3, 3, "h"),
        ]
    );
}

#[test]
fn rect_without_room_draws_its_corners_only() {
    let mut screen = Screen::new();
    draw_rect(&mut screen, 5, 5, 1, 1);
    assert_eq!(
        screen.commands,
        vec![
            clear(5, 5, 1, 1),
            print(5, 5, "┌"),
            print(5, 5, "┐"),
            print(5, 5, "└"),
            print(5, 5, "┘"),
        ]
    );
}

#[test]
fn rect_of_no_width() {
    let mut screen = Screen::new();
    draw_rect(&mut screen, 5, 5, 0, 2);
    assert_eq!(
        screen.commands,
        vec![
            clear(5, 5, 0, 2),
            print(5, 5, "┌"),
            print(4, 5, "┐"),
            print(5, 6, "└"),
            print(4, 6, "┘"),
        ]
    );
}

#[test]
fn centered_line_starts_half_its_length_left_of_the_middle() {
    let mut screen = Screen::new();
    print_centered_line(&mut screen, 0, 0, 11, 3, "Redeal");
    assert_eq!(screen.commands, vec![print(2, 1, "Redeal")]);

    let mut screen = Screen::new();
    print_centered_line(&mut screen, 30, 18, 11, 3, "Okay");
    assert_eq!(screen.commands, vec![print(33, 19, "Okay")]);

    let mut screen = Screen::new();
    print_centered_line(&mut screen, 10, 20, 8, 6, "seven77");
    assert_eq!(screen.commands, vec![print(10, 23, "seven77")]);

    let mut screen = Screen::new();
    print_centered_line(&mut screen, 0, 0, 11, 3, "x");
    assert_eq!(screen.commands, vec![print(4, 1, "x")]);
}

#[test]
fn centered_line_counts_characters_not_bytes() {
    let mut screen = Screen::new();
    print_centered_line(&mut screen, 0, 0, 10, 1, "┌──┐");
    assert_eq!(screen.commands, vec![print(3, 0, "┌──┐")]);
}

#[test]
fn centered_line_rounds_the_halves_of_the_rectangle_down() {
    let mut screen = Screen::new();
    print_centered_line(&mut screen, 10, 10, -3, -3, "ab");
    assert_eq!(screen.commands, vec![print(7, 8, "ab")]);
}

#[test]
fn centered_line_rounds_the_half_of_the_length_up() {
    let mut screen = Screen::new();
    print_centered_line(&mut screen, 10, 10, 9, 9, "abc");
    assert_eq!(screen.commands, vec![print(12, 14, "abc")]);

    let mut screen = Screen::new();
    print_centered_line(&mut screen, 10, 10, 9, 9, "abcd");
    assert_eq!(screen.commands, vec![print(12, 14, "abcd")]);

    let mut screen = Screen::new();
    print_centered_line(&mut screen, 10, 10, 9, 9, "abcde");
    assert_eq!(screen.commands, vec![print(11, 14, "abcde")]);
}

#[test]
fn centered_line_of_no_text_draws_nothing() {
    let mut screen = Screen::new();
    print_centered_line(&mut screen, 0, 0, 11, 3, "");
    assert!(screen.commands.is_empty());
}

#[test]
fn half_rounds_down() {
    assert_eq!(half_of(0), 0);
    assert_eq!(half_of(1), 0);
    assert_eq!(half_of(11), 5);
    assert_eq!(half_of(12), 6);
    assert_eq!(half_of(-1), -1);
    assert_eq!(half_of(-2), -1);
    assert_eq!(half_of(-3), -2);
    assert_eq!(half_of(i32::MIN), -1073741824);
    assert_eq!(half_of(i32::MAX), 1073741823);
}

#[test]
fn card_value_is_two_lines() {
    let mut screen = Screen::new();
    draw_card_value(&mut screen, 6, 43, &Card { suit: Suit::Hearts, value: Value::Seven });
    assert_eq!(screen.commands, vec![print(6, 43, "Seven"), print(6, 44, "Hearts")]);
}

#[test]
fn card_is_a_frame_and_its_face() {
    let mut screen = Screen::new();
    draw_card(&mut screen, 40, 10, &Card { suit: Suit::Clubs, value: Value::Ace });
    let commands = &screen.commands;
    // The blank, two corners and fourteen cells of fill on each of two
    // rows, two sides on each of ten rows, and the two lines of the face.
    assert_eq!(commands.len(), 1 + 2 * 16 + 2 * 10 + 2);
    assert_eq!(commands[0], clear(40, 10, 16, 12));
    assert_eq!(commands[1], print(40, 10, "┌"));
    assert_eq!(commands[16], print(55, 10, "┐"));
    assert_eq!(commands[17], print(40, 11, "│"));
    assert_eq!(commands[18], print(55, 11, "│"));
    assert_eq!(commands[37], print(40, 21, "└"));
    assert_eq!(commands[52], print(55, 21, "┘"));
    assert_eq!(commands[53], print(41, 11, "Ace"));
    assert_eq!(commands[54], print(41, 12, "Clubs"));
}

#[test]
fn card_back_has_a_frame_within_its_frame() {
    let mut screen = Screen::new();
    draw_card_back(&mut screen, 60, 10);
    let mut design = Screen::new();
    draw_card_back_design(&mut design, 60, 10);
    let mut frame = Screen::new();
    draw_rect(&mut frame, 60, 10, 16, 12);
    let mut inner = Screen::new();
    draw_rect(&mut inner, 62, 11, 12, 10);

    assert_eq!(design.commands, inner.commands);
    let mut expected = frame.commands.clone();
    expected.extend(design.commands.iter().cloned());
    assert_eq!(screen.commands, expected);
}
