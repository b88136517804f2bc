//! Immediate-mode widgets: buttons that keep no state of their own. Which
//! widget is under the pointer and which one is being pressed is tracked in
//! a small context that is handed to every widget, every frame.

use crate::card::Card;
use crate::platform::{Platform, Point};
use crate::screen::{
    card_back_design_ops, card_fits, card_ops, card_value_ops, centered_line_ops, draw_card,
    draw_card_back_design, draw_card_value, draw_rect, draw_rect_with, fits, half, plain_edges,
    print_centered_line, rect_ops, rounded_half, texts, DrawOp, Screen, CARD_HEIGHT, CARD_WIDTH,
};
use vstd::prelude::*;

verus! {

/// A widget's identifier. Zero stands for no widget, so a widget's own
/// identifier is not zero.
pub type UiId = i32;

/// Which widget is hot and which is active.
///
/// The hot widget is the one that the pointer was over when the last frame
/// was computed; the active widget is the one on which the mouse button went
/// down and has not come up yet. While a frame is computed the widgets under
/// the pointer claim `next_hot`; the claim becomes `hot` when the next frame
/// begins.
#[derive(Clone, Copy, Debug, PartialEq, Eq, Structural)]
pub struct UIContext {
    pub hot: UiId,
    pub active: UiId,
    pub next_hot: UiId,
}

impl UIContext {
    /// The context in which no widget is hot or active and none has claimed
    /// to be hot next.
    pub open spec fn fresh() -> UIContext {
        UIContext { hot: 0, active: 0, next_hot: 0 }
    }

    /// The context as a new frame finds it: the claim of the last frame is
    /// now the hot widget, and nothing has claimed the next frame yet. The
    /// active widget is carried over.
    pub open spec fn begun(self) -> UIContext {
        UIContext { hot: self.next_hot, active: self.active, next_hot: 0 }
    }

    /// The context with no widget hot or active.
    pub fn new() -> (context: UIContext)
        ensures
            context == UIContext::fresh(),
    {
        UIContext { hot: 0, active: 0, next_hot: 0 }
    }

    /// Makes no widget the active one.
    pub fn set_not_active(&mut self)
        ensures
            *final(self) == (UIContext { active: 0, ..*old(self) }),
    {
        self.active = 0;
    }

    /// Makes `id` the active widget.
    pub fn set_active(&mut self, id: UiId)
        ensures
            *final(self) == (UIContext { active: id, ..*old(self) }),
    {
        self.active = id;
    }

    /// Claims the next frame's hot widget for `id`. A later claim in the
    /// same frame replaces this one.
    pub fn set_next_hot(&mut self, id: UiId)
        ensures
            *final(self) == (UIContext { next_hot: id, ..*old(self) }),
    {
        self.next_hot = id;
    }

    /// Begins a frame: what was claimed while the last frame was computed
    /// becomes the hot widget, and the claim is reset to none.
    pub fn frame_init(&mut self)
        ensures
            *final(self) == old(self).begun(),
    {
        self.hot = self.next_hot;
        self.next_hot = 0;
    }
}

/// Where a button is, what it says and which widget it is.
#[derive(Clone, Debug, PartialEq, Eq)]
pub struct ButtonSpec {
    pub x: i32,
    pub y: i32,
    pub w: i32,
    pub h: i32,
    pub text: String,
    pub id: UiId,
}

/// How a widget is drawn.
pub enum Style {
    /// The mouse button is down on the widget.
    Pressed,
    /// The pointer is over the widget.
    Hover,
    /// Neither.
    Idle,
}

/// Whether the point lies in the rectangle with its top left corner at
/// (`x`, `y`), `w` cells wide and `h` cells high. A rectangle without width
/// or height holds no point.
pub open spec fn inside(point: Point, x: int, y: int, w: int, h: int) -> bool {
    x <= point.x < x + w && y <= point.y < y + h
}

/// Whether the widget `id` reports a click: the mouse button came up this
/// frame, the widget was the active one, it is the hot one, and the pointer
/// is on it.
pub open spec fn click(context: UIContext, id: UiId, inside: bool, released: bool) -> bool {
    released && context.active == id && context.hot == id && inside
}

/// The context after the widget `id` has been evaluated.
///
/// If the widget was active and the mouse button came up, no widget is active
/// any more, whether or not that made a click. If it was not active but hot
/// and the mouse button went down, it becomes the active one. If the pointer
/// is on it, it claims the next frame's hot widget. The hot widget of this
/// frame stays as it is.
pub open spec fn after_widget(
    context: UIContext,
    id: UiId,
    inside: bool,
    pressed: bool,
    released: bool,
) -> UIContext {
    UIContext {
        hot: context.hot,
        active: if context.active == id {
            if released {
                0
            } else {
                id
            }
        } else if context.hot == id && pressed {
            id
        } else {
            context.active
        },
        next_hot: if inside {
            id
        } else {
            context.next_hot
        },
    }
}

/// How a widget is drawn, given whether it is active, whether it is hot and
/// whether the mouse button is held down right now.
pub open spec fn style_of(active: bool, hot: bool, mouse_down: bool) -> Style {
    if active && mouse_down {
        Style::Pressed
    } else if hot {
        Style::Hover
    } else {
        Style::Idle
    }
}

/// The edges of a pressed widget's frame.
pub open spec fn pressed_edges() -> Seq<Seq<char>> {
    seq!["╔"@, "═"@, "╕"@, "║"@, "│"@, "╙"@, "─"@, "┘"@]
}

/// The edges of a frame under the pointer.
pub open spec fn hover_edges() -> Seq<Seq<char>> {
    seq!["┌"@, "─"@, "╖"@, "│"@, "║"@, "╘"@, "═"@, "╝"@]
}

/// The edges of a frame in a style.
pub open spec fn style_edges(style: Style) -> Seq<Seq<char>> {
    match style {
        Style::Pressed => pressed_edges(),
        Style::Hover => hover_edges(),
        Style::Idle => plain_edges(),
    }
}

/// Whether a button can be drawn: the far edges of its frame, and the place
/// of its text if it has one, are coordinates.
pub open spec fn button_fits(x: int, y: int, w: int, h: int, text: Seq<char>) -> bool {
    &&& fits(x + w - 1)
    &&& fits(y + h - 1)
    &&& text.len() > 0 ==> fits(x + half(w) - rounded_half(text.len() as int)) && fits(
        y + half(h),
    )
}

/// The style in which a button is drawn. It goes by the context as the
/// button's own evaluation has left it.
pub open spec fn button_style(after: UIContext, id: UiId, mouse_down: bool) -> Style {
    style_of(after.active == id, after.hot == id, mouse_down)
}

/// What a button draws: its frame in the given style, and its text centred
/// in it.
pub open spec fn button_ops(style: Style, x: int, y: int, w: int, h: int, text: Seq<char>) -> Seq<
    DrawOp,
> {
    rect_ops(x, y, w, h, style_edges(style)) + centered_line_ops(x, y, w, h, text)
}

/// How far above its resting place a raised card is drawn: half a card's
/// height.
pub const CARD_RAISE_OFFSET: i32 = 6;

/// Whether the pointer is on a card with its top left corner at (`x`, `y`).
pub open spec fn on_card(platform: Platform, x: int, y: int) -> bool {
    inside(platform.mouse_position, x, y, CARD_WIDTH as int, CARD_HEIGHT as int)
}

/// Whether the pointer is on a card that can rise: on the card where it
/// rests, or, if the card is the hot widget, on the card where it is raised.
pub open spec fn on_raised_card(platform: Platform, hot: bool, x: int, y: int) -> bool {
    on_card(platform, x, y) || (hot && on_card(platform, x, y - CARD_RAISE_OFFSET))
}

/// What a card button draws: a button without text, and the card's face in
/// it.
pub open spec fn card_button_ops(style: Style, x: int, y: int, card: Card) -> Seq<DrawOp> {
    button_ops(style, x, y, CARD_WIDTH as int, CARD_HEIGHT as int, Seq::empty()) + card_value_ops(
        x + 1,
        y + 1,
        card,
    )
}

/// What a card-back button draws: a button without text, and the pattern of
/// a card's back in it.
pub open spec fn card_back_button_ops(style: Style, x: int, y: int) -> Seq<DrawOp> {
    button_ops(style, x, y, CARD_WIDTH as int, CARD_HEIGHT as int, Seq::empty())
        + card_back_design_ops(x, y)
}

/// What a card that can rise draws: at rest, the card face up in its place;
/// pressed or under the pointer, the card in that style's frame, raised.
pub open spec fn raised_card_ops(style: Style, x: int, y: int, card: Card) -> Seq<DrawOp> {
    match style {
        Style::Idle => card_ops(x, y, card),
        _ => rect_ops(
            x,
            y - CARD_RAISE_OFFSET,
            CARD_WIDTH as int,
            CARD_HEIGHT as int,
            style_edges(style),
        ) + card_value_ops(x + 1, y - CARD_RAISE_OFFSET + 1, card),
    }
}

/// The style in which a card that can rise is drawn. Unlike a button's, it
/// goes by whether the card was the active widget before this evaluation, so
/// in the frame of the release the card is still drawn as pressed while the
/// mouse button reads as down.
pub open spec fn raised_card_style(before: UIContext, id: UiId, mouse_down: bool) -> Style {
    style_of(before.active == id, before.hot == id, mouse_down)
}

/// What evaluating a widget comes to: whether it was clicked, the context
/// that it leaves, and what it draws.
pub struct Evaluation {
    pub clicked: bool,
    pub context: UIContext,
    pub ops: Seq<DrawOp>,
}

impl Evaluation {
    /// A widget that is not evaluated: no click, the context as it was,
    /// nothing drawn.
    pub open spec fn skipped(context: UIContext) -> Evaluation {
        Evaluation { clicked: false, context, ops: Seq::empty() }
    }
}

/// What `do_button` comes to.
#[verifier::opaque]
pub open spec fn button_evaluation(
    platform: Platform,
    context: UIContext,
    x: int,
    y: int,
    w: int,
    h: int,
    text: Seq<char>,
    id: UiId,
    pressed: bool,
    released: bool,
) -> Evaluation {
    let over = inside(platform.mouse_position, x, y, w, h);
    let after = after_widget(context, id, over, pressed, released);
    Evaluation {
        clicked: click(context, id, over, released),
        context: after,
        ops: button_ops(button_style(after, id, platform.mouse_left_down), x, y, w, h, text),
    }
}

/// What `do_card_button` comes to.
#[verifier::opaque]
pub open spec fn card_button_evaluation(
    platform: Platform,
    context: UIContext,
    x: int,
    y: int,
    card: Card,
    id: UiId,
    pressed: bool,
    released: bool,
) -> Evaluation {
    let over = on_card(platform, x, y);
    let after = after_widget(context, id, over, pressed, released);
    Evaluation {
        clicked: click(context, id, over, released),
        context: after,
        ops: card_button_ops(button_style(after, id, platform.mouse_left_down), x, y, card),
    }
}

/// What `do_card_back_button` comes to.
#[verifier::opaque]
pub open spec fn card_back_button_evaluation(
    platform: Platform,
    context: UIContext,
    x: int,
    y: int,
    id: UiId,
    pressed: bool,
    released: bool,
) -> Evaluation {
    let over = on_card(platform, x, y);
    let after = after_widget(context, id, over, pressed, released);
    Evaluation {
        clicked: click(context, id, over, released),
        context: after,
        ops: card_back_button_ops(button_style(after, id, platform.mouse_left_down), x, y),
    }
}

/// What `do_raised_card_button` comes to.
#[verifier::opaque]
pub open spec fn raised_card_button_evaluation(
    platform: Platform,
    context: UIContext,
    x: int,
    y: int,
    card: Card,
    id: UiId,
    pressed: bool,
    released: bool,
) -> Evaluation {
    let over = on_raised_card(platform, context.hot == id, x, y);
    Evaluation {
        clicked: click(context, id, over, released),
        context: after_widget(context, id, over, pressed, released),
        ops: raised_card_ops(
            raised_card_style(context, id, platform.mouse_left_down),
            x,
            y,
            card,
        ),
    }
}

impl ButtonSpec {
    /// What evaluating this button comes to.
    pub open spec fn evaluation(
        self,
        platform: Platform,
        context: UIContext,
        pressed: bool,
        released: bool,
    ) -> Evaluation {
        button_evaluation(
            platform,
            context,
            self.x as int,
            self.y as int,
            self.w as int,
            self.h as int,
            self.text@,
            self.id,
            pressed,
            released,
        )
    }
}

/// Whether the point lies in the given rectangle.
pub fn inside_rect(point: Point, x: i32, y: i32, w: i32, h: i32) -> (within: bool)
    ensures
        within == inside(point, x as int, y as int, w as int, h as int),
{
    x <= point.x && y <= point.y && (point.x as i64) < x as i64 + w as i64 && (point.y as i64)
        < y as i64 + h as i64
}

/// Draws a frame in the style that fits a widget's state.
fn draw_styled_rect(
    screen: &mut Screen,
    x: i32,
    y: i32,
    w: i32,
    h: i32,
    active: bool,
    hot: bool,
    mouse_down: bool,
)
    requires
        fits(x + w - 1),
        fits(y + h - 1),
    ensures
        final(screen)@ == old(screen)@ + rect_ops(
            x as int,
            y as int,
            w as int,
            h as int,
            style_edges(style_of(active, hot, mouse_down)),
        ),
{
    if active && mouse_down {
        let edges = ["╔", "═", "╕", "║", "│", "╙", "─", "┘"];
        assert(texts(edges) =~= pressed_edges());
        draw_rect_with(screen, x, y, w, h, edges);
    } else if hot {
        let edges = ["┌", "─", "╖", "│", "║", "╘", "═", "╝"];
        assert(texts(edges) =~= hover_edges());
        draw_rect_with(screen, x, y, w, h, edges);
    } else {
        draw_rect(screen, x, y, w, h);
    }
}

/// Evaluates a button for this frame: updates the context, draws the button
/// and says whether it was clicked.
///
/// One call takes in at most one click, however many times the mouse button
/// went down and up during the frame.
pub fn do_button(
    platform: &Platform,
    screen: &mut Screen,
    context: &mut UIContext,
    spec: &ButtonSpec,
    left_mouse_pressed: bool,
    left_mouse_released: bool,
) -> (clicked: bool)
    requires
        button_fits(spec.x as int, spec.y as int, spec.w as int, spec.h as int, spec.text@),
    ensures
        clicked == spec.evaluation(
            *platform,
            *old(context),
            left_mouse_pressed,
            left_mouse_released,
        ).clicked,
        *final(context) == spec.evaluation(
            *platform,
            *old(context),
            left_mouse_pressed,
            left_mouse_released,
        ).context,
        final(screen)@ == old(screen)@ + spec.evaluation(
            *platform,
            *old(context),
            left_mouse_pressed,
            left_mouse_released,
        ).ops,
{
    proof {
        reveal(button_evaluation);
    }
    let mut result = false;

    let mouse_pos = platform.mouse_position;
    let inside = inside_rect(mouse_pos, spec.x, spec.y, spec.w, spec.h);
    let id = spec.id;

    if context.active == id {
        if left_mouse_released {
            result = context.hot == id && inside;

            context.set_not_active();
        }
    } else if context.hot == id {
        if left_mouse_pressed {
            context.set_active(id);
        }
    }

    if inside {
        context.set_next_hot(id);
    }

    draw_styled_rect(
        screen,
        spec.x,
        spec.y,
        spec.w,
        spec.h,
        context.active == id,
        context.hot == id,
        platform.mouse_left_down,
    );

    print_centered_line(screen, spec.x, spec.y, spec.w, spec.h, spec.text.as_str());

    assert(screen@ =~= old(screen)@ + button_ops(
        button_style(*context, spec.id, platform.mouse_left_down),
        spec.x as int,
        spec.y as int,
        spec.w as int,
        spec.h as int,
        spec.text@,
    ));

    result
}

/// Evaluates a card of the player's hand that rises under the pointer, so
/// that choosing it looks different from seeing it.
pub fn do_raised_card_button(
    platform: &Platform,
    screen: &mut Screen,
    context: &mut UIContext,
    x: i32,
    y: i32,
    card: &Card,
    left_mouse_pressed: bool,
    left_mouse_released: bool,
    id: UiId,
) -> (clicked: bool)
    requires
        card_fits(x as int, y as int),
        fits(y - CARD_RAISE_OFFSET),
    ensures
        clicked == raised_card_button_evaluation(
            *platform,
            *old(context),
            x as int,
            y as int,
            *card,
            id,
            left_mouse_pressed,
            left_mouse_released,
        ).clicked,
        *final(context) == raised_card_button_evaluation(
            *platform,
            *old(context),
            x as int,
            y as int,
            *card,
            id,
            left_mouse_pressed,
            left_mouse_released,
        ).context,
        final(screen)@ == old(screen)@ + raised_card_button_evaluation(
            *platform,
            *old(context),
            x as int,
            y as int,
            *card,
            id,
            left_mouse_pressed,
            left_mouse_released,
        ).ops,
{
    proof {
        reveal(raised_card_button_evaluation);
    }
    let mut result = false;

    let mouse_pos = platform.mouse_position;
    let active = context.active == id;
    let hot = context.hot == id;
    let raised_y = y - CARD_RAISE_OFFSET;
    let inside = inside_rect(mouse_pos, x, y, CARD_WIDTH, CARD_HEIGHT) || (hot && inside_rect(
        mouse_pos,
        x,
        raised_y,
        CARD_WIDTH,
        CARD_HEIGHT,
    ));

    if active {
        if left_mouse_released {
            result = hot && inside;

            context.set_not_active();
        }
    } else if hot {
        if left_mouse_pressed {
            context.set_active(id);
        }
    }

    if inside {
        context.set_next_hot(id);
    }

    if (active && platform.mouse_left_down) || context.hot == id {
        draw_styled_rect(
            screen,
            x,
            raised_y,
            CARD_WIDTH,
            CARD_HEIGHT,
            active,
            context.hot == id,
            platform.mouse_left_down,
        );
        draw_card_value(screen, x + 1, raised_y + 1, card);
    } else {
        draw_card(screen, x, y, card);
    }

    assert(screen@ =~= old(screen)@ + raised_card_ops(
        raised_card_style(*old(context), id, platform.mouse_left_down),
        x as int,
        y as int,
        *card,
    ));

    result
}

/// Evaluates a button that shows a card's face.
pub fn do_card_button(
    platform: &Platform,
    screen: &mut Screen,
    context: &mut UIContext,
    x: i32,
    y: i32,
    card: &Card,
    left_mouse_pressed: bool,
    left_mouse_released: bool,
    id: UiId,
) -> (clicked: bool)
    requires
        card_fits(x as int, y as int),
    ensures
        clicked == card_button_evaluation(
            *platform,
            *old(context),
            x as int,
            y as int,
            *card,
            id,
            left_mouse_pressed,
            left_mouse_released,
        ).clicked,
        *final(context) == card_button_evaluation(
            *platform,
            *old(context),
            x as int,
            y as int,
            *card,
            id,
            left_mouse_pressed,
            left_mouse_released,
        ).context,
        final(screen)@ == old(screen)@ + card_button_evaluation(
            *platform,
            *old(context),
            x as int,
            y as int,
            *card,
            id,
            left_mouse_pressed,
            left_mouse_released,
        ).ops,
{
    proof {
        reveal(button_evaluation);
        reveal(card_button_evaluation);
    }
    let spec = ButtonSpec { x, y, w: CARD_WIDTH, h: CARD_HEIGHT, text: String::new(), id };

    let result = do_button(
        platform,
        screen,
        context,
        &spec,
        left_mouse_pressed,
        left_mouse_released,
    );

    draw_card_value(screen, x + 1, y + 1, card);

    assert(screen@ =~= old(screen)@ + card_button_ops(
        button_style(*context, id, platform.mouse_left_down),
        x as int,
        y as int,
        *card,
    ));

    result
}

/// Evaluates a button that shows a card's back.
pub fn do_card_back_button(
    platform: &Platform,
    screen: &mut Screen,
    context: &mut UIContext,
    x: i32,
    y: i32,
    left_mouse_pressed: bool,
    left_mouse_released: bool,
    id: UiId,
) -> (clicked: bool)
    requires
        card_fits(x as int, y as int),
    ensures
        clicked == card_back_button_evaluation(
            *platform,
            *old(context),
            x as int,
            y as int,
            id,
            left_mouse_pressed,
            left_mouse_released,
        ).clicked,
        *final(context) == card_back_button_evaluation(
            *platform,
            *old(context),
            x as int,
            y as int,
            id,
            left_mouse_pressed,
            left_mouse_released,
        ).context,
        final(screen)@ == old(screen)@ + card_back_button_evaluation(
            *platform,
            *old(context),
            x as int,
            y as int,
            id,
            left_mouse_pressed,
            left_mouse_released,
        ).ops,
{
    proof {
        reveal(button_evaluation);
        reveal(card_back_button_evaluation);
    }
    let spec = ButtonSpec { x, y, w: CARD_WIDTH, h: CARD_HEIGHT, text: String::new(), id };

    let result = do_button(
        platform,
        screen,
        context,
        &spec,
        left_mouse_pressed,
        left_mouse_released,
    );

    draw_card_back_design(screen, x, y);

    assert(screen@ =~= old(screen)@ + card_back_button_ops(
        button_style(*context, id, platform.mouse_left_down),
        x as int,
        y as int,
    ));

    result
}

/// A widget is clicked only if it is the active one, and evaluating the
/// active widget in a frame in which the mouse button came up leaves no
/// widget active. So of the widgets evaluated in one frame, each with an
/// identifier of its own, at most one is clicked.
pub proof fn lemma_one_click_a_frame(
    context: UIContext,
    first: UiId,
    over_first: bool,
    second: UiId,
    over_second: bool,
    pressed: bool,
    released: bool,
)
    requires
        second != 0,
        click(context, first, over_first, released),
    ensures
        after_widget(context, first, over_first, pressed, released).active == 0,
        !click(
            after_widget(context, first, over_first, pressed, released),
            second,
            over_second,
            released,
        ),
{
}

/// A press on widget `a` while it is hot makes it the active one. If the
/// mouse button then comes up, in a frame without a new press, while another
/// widget `b` is the hot one, neither reports a click, in whichever order
/// the two are evaluated, and once `a` has been evaluated no widget is
/// active.
pub proof fn lemma_click_needs_same_widget(
    before: UIContext,
    at_release: UIContext,
    a: UiId,
    b: UiId,
    over_a: bool,
    over_b: bool,
)
    requires
        a != 0,
        b != 0,
        a != b,
        before.hot == a,
        before.active != a,
        at_release.active == after_widget(before, a, over_a, true, false).active,
        at_release.hot == b,
    ensures
        after_widget(before, a, over_a, true, false).active == a,
        !click(at_release, a, over_a, true),
        !click(at_release, b, over_b, true),
        after_widget(at_release, a, over_a, false, true).active == 0,
        !click(after_widget(at_release, a, over_a, false, true), b, over_b, true),
        after_widget(
            after_widget(at_release, a, over_a, false, true),
            b,
            over_b,
            false,
            true,
        ).active == 0,
        !click(after_widget(at_release, b, over_b, false, true), a, over_a, true),
        after_widget(
            after_widget(at_release, b, over_b, false, true),
            a,
            over_a,
            false,
            true,
        ).active == 0,
{
}

/// A widget as a frame meets it: its identifier, and whether the pointer is
/// on it.
pub struct Met {
    pub id: UiId,
    pub over: bool,
}

/// The context after the widgets of a list have been evaluated in order.
pub open spec fn after_widgets(
    context: UIContext,
    widgets: Seq<Met>,
    pressed: bool,
    released: bool,
) -> UIContext
    decreases widgets.len(),
{
    if widgets.len() == 0 {
        context
    } else {
        after_widget(
            after_widgets(context, widgets.drop_last(), pressed, released),
            widgets.last().id,
            widgets.last().over,
            pressed,
            released,
        )
    }
}

/// The widget that claims the next frame's hot widget: the last of the list
/// that the pointer is on, and `claim` if it is on none.
pub open spec fn claimed(claim: UiId, widgets: Seq<Met>) -> UiId
    decreases widgets.len(),
{
    if widgets.len() == 0 {
        claim
    } else if widgets.last().over {
        widgets.last().id
    } else {
        claimed(claim, widgets.drop_last())
    }
}

/// With no press and no release, evaluating any widgets leaves the hot and
/// the active widget as they were, and the claim on the next frame with the
/// last widget that the pointer is on.
pub proof fn lemma_idle_widgets(context: UIContext, widgets: Seq<Met>)
    ensures
        after_widgets(context, widgets, false, false) == (UIContext {
            next_hot: claimed(context.next_hot, widgets),
            ..context
        }),
    decreases widgets.len(),
{
    if widgets.len() > 0 {
        lemma_idle_widgets(context, widgets.drop_last());
    }
}

/// Two frames in a row, both without a press or a release, in which the same
/// widgets are evaluated and the pointer is on the same ones.
///
/// The active widget is the same in both. The hot widget of the second
/// frame is the one that the pointer was on in the first, and from then on
/// it stays. It is the hot widget of the first frame too if the pointer was
/// on it before that frame already: if the claim that the context came with
/// is the one that these widgets make.
pub proof fn lemma_idle_frames_alike(context: UIContext, widgets: Seq<Met>)
    ensures
        ({
            let first = after_widgets(context.begun(), widgets, false, false);
            let second = after_widgets(first.begun(), widgets, false, false);
            let third = after_widgets(second.begun(), widgets, false, false);
            &&& first.active == context.active
            &&& second.active == context.active
            &&& second.hot == claimed(0, widgets)
            &&& third.hot == second.hot
            &&& context.next_hot == claimed(0, widgets) ==> second.hot == first.hot
        }),
{
    let first = after_widgets(context.begun(), widgets, false, false);
    let second = after_widgets(first.begun(), widgets, false, false);
    lemma_idle_widgets(context.begun(), widgets);
    lemma_idle_widgets(first.begun(), widgets);
    lemma_idle_widgets(second.begun(), widgets);
}

/// A card that can rise, evaluated twice without a press or a release, with
/// the pointer where it was and the same widget hot: neither evaluation
/// reports a click or changes the hot or the active widget, the card claims
/// the next frame in both or in neither, and it is drawn alike if the same
/// widget is active.
pub proof fn lemma_idle_raised_card(
    platform: Platform,
    first: UIContext,
    second: UIContext,
    x: int,
    y: int,
    card: Card,
    id: UiId,
)
    requires
        first.hot == second.hot,
    ensures
        ({
            let over = on_raised_card(platform, first.hot == id, x, y);
            let one = raised_card_button_evaluation(platform, first, x, y, card, id, false, false);
            let two = raised_card_button_evaluation(
                platform,
                second,
                x,
                y,
                card,
                id,
                false,
                false,
            );
            &&& !one.clicked && !two.clicked
            &&& one.context.hot == first.hot && one.context.active == first.active
            &&& two.context.hot == second.hot && two.context.active == second.active
            &&& over ==> one.context.next_hot == id && two.context.next_hot == id
            &&& !over ==> one.context.next_hot == first.next_hot && two.context.next_hot
                == second.next_hot
            &&& first.active == second.active ==> one.ops == two.ops
        }),
{
    reveal(raised_card_button_evaluation);
}

} // verus!
