//! What a frame draws: a list of drawing commands for the character grid,
//! and the shapes that the game draws with them.

use crate::card::Card;
use vstd::prelude::*;

verus! {

/// A rectangle of cells: its top left corner, its width and its height.
#[derive(Clone, Copy, Debug, PartialEq, Eq, Structural)]
pub struct Rect {
    pub x: i32,
    pub y: i32,
    pub w: i32,
    pub h: i32,
}

/// One drawing command for the platform to carry out.
#[derive(Clone, Debug, PartialEq, Eq)]
pub enum DrawCommand {
    /// Blank every cell of the rectangle.
    Clear(Rect),
    /// Write the text from the cell at column `x`, row `y` rightwards.
    Print { x: i32, y: i32, text: String },
}

/// A drawing command as the contracts see it.
pub enum DrawOp {
    Clear { x: int, y: int, w: int, h: int },
    Print { x: int, y: int, text: Seq<char> },
}

impl View for DrawCommand {
    type V = DrawOp;

    open spec fn view(&self) -> DrawOp {
        match *self {
            DrawCommand::Clear(rect) => DrawOp::Clear {
                x: rect.x as int,
                y: rect.y as int,
                w: rect.w as int,
                h: rect.h as int,
            },
            DrawCommand::Print { x, y, text } => DrawOp::Print {
                x: x as int,
                y: y as int,
                text: text@,
            },
        }
    }
}

/// The drawing commands of a frame, in the order in which they are to be
/// carried out.
#[derive(Clone, Debug, PartialEq, Eq)]
pub struct Screen {
    pub commands: Vec<DrawCommand>,
}

impl View for Screen {
    type V = Seq<DrawOp>;

    open spec fn view(&self) -> Seq<DrawOp> {
        self.commands@.map_values(|command: DrawCommand| command@)
    }
}

impl Screen {
    /// A screen with nothing drawn yet.
    pub fn new() -> (screen: Screen)
        ensures
            screen@ == Seq::<DrawOp>::empty(),
    {
        let screen = Screen { commands: Vec::new() };
        assert(screen@ =~= Seq::<DrawOp>::empty());
        screen
    }

    /// Adds the command that writes `text` from the cell at (`x`, `y`).
    pub fn print_xy(&mut self, x: i32, y: i32, text: &str)
        ensures
            final(self)@ == old(self)@.push(print_op(x as int, y as int, text@)),
    {
        let command = DrawCommand::Print { x, y, text: String::from_str(text) };
        self.commands.push(command);
        assert(self@ =~= old(self)@.push(print_op(x as int, y as int, text@)));
    }

    /// Adds the command that blanks a rectangle.
    pub fn clear(&mut self, rect: Rect)
        ensures
            final(self)@ == old(self)@.push(
                clear_op(rect.x as int, rect.y as int, rect.w as int, rect.h as int),
            ),
    {
        self.commands.push(DrawCommand::Clear(rect));
        assert(self@ =~= old(self)@.push(
            clear_op(rect.x as int, rect.y as int, rect.w as int, rect.h as int),
        ));
    }
}

/// Width of a card, in cells.
pub const CARD_WIDTH: i32 = 16;

/// Height of a card, in cells.
pub const CARD_HEIGHT: i32 = 12;

/// Whether `n` is a coordinate that a drawing command can carry.
pub open spec fn fits(n: int) -> bool {
    i32::MIN <= n <= i32::MAX
}

/// The command that writes `text` from the cell at (`x`, `y`).
pub open spec fn print_op(x: int, y: int, text: Seq<char>) -> DrawOp {
    DrawOp::Print { x, y, text }
}

/// The command that blanks a rectangle.
pub open spec fn clear_op(x: int, y: int, w: int, h: int) -> DrawOp {
    DrawOp::Clear { x, y, w, h }
}

/// Half of `n`, rounded down.
pub open spec fn half(n: int) -> int {
    n / 2
}

/// Number of cells strictly between two coordinates.
pub open spec fn between(low: int, high: int) -> nat {
    if high - low > 1 {
        (high - low - 1) as nat
    } else {
        0
    }
}

/// One horizontal edge of a frame on row `y`: a corner at `x`, the fill in
/// every cell strictly between `x` and `right`, from left to right, and a
/// corner at `right`.
pub open spec fn row_ops(
    x: int,
    right: int,
    y: int,
    left: Seq<char>,
    fill: Seq<char>,
    end: Seq<char>,
) -> Seq<DrawOp> {
    seq![print_op(x, y, left)] + Seq::new(
        between(x, right),
        |i: int| print_op(x + 1 + i, y, fill),
    ) + seq![print_op(right, y, end)]
}

/// The two vertical edges of a frame: for every row strictly between `y` and
/// `bottom`, from the top down, the left edge at `x` and then the right edge
/// at `right`.
pub open spec fn side_ops(
    x: int,
    right: int,
    y: int,
    bottom: int,
    left: Seq<char>,
    end: Seq<char>,
) -> Seq<DrawOp> {
    Seq::new(
        2 * between(y, bottom),
        |i: int|
            if i % 2 == 0 {
                print_op(x, y + 1 + i / 2, left)
            } else {
                print_op(right, y + 1 + i / 2, end)
            },
    )
}

/// A framed rectangle: the rectangle is blanked, then the top edge, the
/// sides and the bottom edge are drawn. The eight edge texts are, in order:
/// top left corner, top fill, top right corner, left side, right side,
/// bottom left corner, bottom fill, bottom right corner.
pub open spec fn rect_ops(x: int, y: int, w: int, h: int, edges: Seq<Seq<char>>) -> Seq<DrawOp> {
    let right = x + w - 1;
    let bottom = y + h - 1;
    seq![clear_op(x, y, w, h)] + row_ops(x, right, y, edges[0], edges[1], edges[2]) + side_ops(
        x,
        right,
        y,
        bottom,
        edges[3],
        edges[4],
    ) + row_ops(x, right, bottom, edges[5], edges[6], edges[7])
}

/// The texts of eight edges.
pub open spec fn texts(edges: [&'static str; 8]) -> Seq<Seq<char>> {
    Seq::new(8, |i: int| edges@[i]@)
}

/// The edges of a frame at rest.
pub open spec fn plain_edges() -> Seq<Seq<char>> {
    seq!["┌"@, "─"@, "┐"@, "│"@, "│"@, "└"@, "─"@, "┘"@]
}

/// Half of a count, with a half rounded up.
pub open spec fn rounded_half(count: int) -> int {
    (count + 1) / 2
}

/// A text centred in a rectangle: nothing for an empty text; otherwise the
/// text, starting half its length left of the rectangle's middle column, on
/// the rectangle's middle row. The halves of the rectangle's width and
/// height are rounded down, the half of the text's length is rounded up.
pub open spec fn centered_line_ops(x: int, y: int, w: int, h: int, text: Seq<char>) -> Seq<
    DrawOp,
> {
    if text.len() == 0 {
        Seq::empty()
    } else {
        seq![print_op(x + half(w) - rounded_half(text.len() as int), y + half(h), text)]
    }
}

/// The two lines of a card's face: its rank at (`x`, `y`) and its suit on
/// the row below.
pub open spec fn card_value_ops(x: int, y: int, card: Card) -> Seq<DrawOp> {
    seq![print_op(x, y, card.value.name()), print_op(x, y + 1, card.suit.name())]
}

/// A card lying face up with its top left corner at (`x`, `y`).
pub open spec fn card_ops(x: int, y: int, card: Card) -> Seq<DrawOp> {
    rect_ops(x, y, CARD_WIDTH as int, CARD_HEIGHT as int, plain_edges()) + card_value_ops(
        x + 1,
        y + 1,
        card,
    )
}

/// The pattern on a card's back: a smaller frame inside the card's own.
pub open spec fn card_back_design_ops(x: int, y: int) -> Seq<DrawOp> {
    rect_ops(x + 2, y + 1, CARD_WIDTH - 4, CARD_HEIGHT - 2, plain_edges())
}

/// A card lying face down with its top left corner at (`x`, `y`).
pub open spec fn card_back_ops(x: int, y: int) -> Seq<DrawOp> {
    rect_ops(x, y, CARD_WIDTH as int, CARD_HEIGHT as int, plain_edges()) + card_back_design_ops(
        x,
        y,
    )
}

/// Whether a card with its top left corner at (`x`, `y`) can be drawn: its
/// right and bottom edges are coordinates.
pub open spec fn card_fits(x: int, y: int) -> bool {
    fits(x + CARD_WIDTH) && fits(y + CARD_HEIGHT)
}

/// Drawing one thing after two others is drawing two things after one.
pub proof fn lemma_ops_assoc(first: Seq<DrawOp>, second: Seq<DrawOp>, third: Seq<DrawOp>)
    ensures
        (first + second) + third == first + (second + third),
{
    assert((first + second) + third =~= first + (second + third));
}

/// Drawing nothing more leaves what was drawn.
pub proof fn lemma_ops_nothing(drawn: Seq<DrawOp>)
    ensures
        drawn + Seq::<DrawOp>::empty() == drawn,
{
    assert(drawn + Seq::<DrawOp>::empty() =~= drawn);
}

/// Half of `n`, rounded down.
pub fn half_of(n: i32) -> (r: i32)
    ensures
        r == half(n as int),
{
    if n >= 0 || n % 2 == 0 {
        n / 2
    } else {
        n / 2 - 1
    }
}

/// Draws one horizontal edge of a frame.
fn draw_row(screen: &mut Screen, x: i32, right: i32, y: i32, left: &str, fill: &str, end: &str)
    ensures
        final(screen)@ == old(screen)@ + row_ops(
            x as int,
            right as int,
            y as int,
            left@,
            fill@,
            end@,
        ),
{
    screen.print_xy(x, y, left);
    let ghost start = screen@;
    let mut i: i64 = x as i64 + 1;
    while i < right as i64
        invariant
            x + 1 <= i,
            i <= right || i == x + 1,
            screen@ == start + Seq::new(
                (i - (x + 1)) as nat,
                |k: int| print_op(x + 1 + k, y as int, fill@),
            ),
        decreases right - i,
    {
        screen.print_xy(i as i32, y, fill);
        i = i + 1;
        assert(screen@ =~= start + Seq::new(
            (i - (x + 1)) as nat,
            |k: int| print_op(x + 1 + k, y as int, fill@),
        ));
    }
    screen.print_xy(right, y, end);
    assert(screen@ =~= old(screen)@ + row_ops(
        x as int,
        right as int,
        y as int,
        left@,
        fill@,
        end@,
    ));
}

/// Draws a framed rectangle with the given edges.
pub fn draw_rect_with(
    screen: &mut Screen,
    x: i32,
    y: i32,
    w: i32,
    h: i32,
    edges: [&'static str; 8],
)
    requires
        fits(x + w - 1),
        fits(y + h - 1),
    ensures
        final(screen)@ == old(screen)@ + rect_ops(
            x as int,
            y as int,
            w as int,
            h as int,
            texts(edges),
        ),
{
    screen.clear(Rect { x, y, w, h });
    let right: i32 = (x as i64 + w as i64 - 1) as i32;
    let bottom: i32 = (y as i64 + h as i64 - 1) as i32;
    draw_row(screen, x, right, y, edges[0], edges[1], edges[2]);
    let ghost start = screen@;
    let ghost sides = side_ops(
        x as int,
        right as int,
        y as int,
        bottom as int,
        edges[3]@,
        edges[4]@,
    );
    let mut i: i64 = y as i64 + 1;
    while i < bottom as i64
        invariant
            y + 1 <= i,
            i <= bottom || i == y + 1,
            sides == side_ops(
                x as int,
                right as int,
                y as int,
                bottom as int,
                edges[3]@,
                edges[4]@,
            ),
            screen@ == start + sides.take(2 * (i - (y + 1))),
        decreases bottom - i,
    {
        screen.print_xy(x, i as i32, edges[3]);
        screen.print_xy(right, i as i32, edges[4]);
        i = i + 1;
        assert(screen@ =~= start + sides.take(2 * (i - (y + 1))));
    }
    assert(sides.take(2 * (i - (y + 1))) =~= sides);
    draw_row(screen, x, right, bottom, edges[5], edges[6], edges[7]);
    assert(screen@ =~= old(screen)@ + rect_ops(
        x as int,
        y as int,
        w as int,
        h as int,
        texts(edges),
    ));
}

/// Draws a framed rectangle with the edges of a frame at rest.
pub fn draw_rect(screen: &mut Screen, x: i32, y: i32, w: i32, h: i32)
    requires
        fits(x + w - 1),
        fits(y + h - 1),
    ensures
        final(screen)@ == old(screen)@ + rect_ops(
            x as int,
            y as int,
            w as int,
            h as int,
            plain_edges(),
        ),
{
    let edges = ["┌", "─", "┐", "│", "│", "└", "─", "┘"];
    assert(texts(edges) =~= plain_edges());
    draw_rect_with(screen, x, y, w, h, edges);
}

/// Writes a text centred in a rectangle. An empty text draws nothing.
pub fn print_centered_line(screen: &mut Screen, x: i32, y: i32, w: i32, h: i32, text: &str)
    requires
        text@.len() > 0 ==> fits(x + half(w as int) - rounded_half(text@.len() as int)) && fits(
            y + half(h as int),
        ),
    ensures
        final(screen)@ == old(screen)@ + centered_line_ops(
            x as int,
            y as int,
            w as int,
            h as int,
            text@,
        ),
{
    let char_count = text.unicode_len();
    if char_count == 0 {
        assert(screen@ =~= old(screen)@ + centered_line_ops(
            x as int,
            y as int,
            w as int,
            h as int,
            text@,
        ));
        return ;
    }
    let half_count: usize = char_count / 2 + char_count % 2;
    let column: i64 = x as i64 + half_of(w) as i64 - half_count as i64;
    let row: i64 = y as i64 + half_of(h) as i64;
    screen.print_xy(column as i32, row as i32, text);
    assert(screen@ =~= old(screen)@ + centered_line_ops(
        x as int,
        y as int,
        w as int,
        h as int,
        text@,
    ));
}

/// Writes the two lines of a card's face.
pub fn draw_card_value(screen: &mut Screen, x: i32, y: i32, card: &Card)
    requires
        fits(y + 1),
    ensures
        final(screen)@ == old(screen)@ + card_value_ops(x as int, y as int, *card),
{
    screen.print_xy(x, y, card.value.as_str());
    screen.print_xy(x, y + 1, card.suit.as_str());
    assert(screen@ =~= old(screen)@ + card_value_ops(x as int, y as int, *card));
}

/// Draws the pattern on a card's back.
pub fn draw_card_back_design(screen: &mut Screen, x: i32, y: i32)
    requires
        card_fits(x as int, y as int),
    ensures
        final(screen)@ == old(screen)@ + card_back_design_ops(x as int, y as int),
{
    draw_rect(screen, x + 2, y + 1, CARD_WIDTH - 4, CARD_HEIGHT - 2);
}

/// Draws a card lying face up.
pub fn draw_card(screen: &mut Screen, x: i32, y: i32, card: &Card)
    requires
        card_fits(x as int, y as int),
    ensures
        final(screen)@ == old(screen)@ + card_ops(x as int, y as int, *card),
{
    draw_rect(screen, x, y, CARD_WIDTH, CARD_HEIGHT);
    draw_card_value(screen, x + 1, y + 1, card);
    assert(screen@ =~= old(screen)@ + card_ops(x as int, y as int, *card));
}

/// Draws a card lying face down.
pub fn draw_card_back(screen: &mut Screen, x: i32, y: i32)
    requires
        card_fits(x as int, y as int),
    ensures
        final(screen)@ == old(screen)@ + card_back_ops(x as int, y as int),
{
    draw_rect(screen, x, y, CARD_WIDTH, CARD_HEIGHT);
    draw_card_back_design(screen, x, y);
    assert(screen@ =~= old(screen)@ + card_back_ops(x as int, y as int));
}

} // verus!
