//! What the dashboard puts on the grid of terminal cells, pane by pane.
use crate::style::{Color, Style};
use crate::throughput::Throughput;
use crate::time::Duration;
use crate::tui::layout::{Borders, Rect};
use vstd::prelude::*;

verus! {

/// The line that separates columns.
pub const VERTICAL_LINE: &'static str = "\u{2502}";

/// A line of the information pane.
#[derive(Clone, PartialEq, Eq, Debug)]
pub enum Line {
    /// A title with the given text.
    Title(String),
    /// A line of text with the given content.
    Text(String),
}

/// How the dashboard answers a request to quit, and whether one is
/// waiting.
#[derive(Copy, Clone, PartialEq, Eq, Structural, Debug)]
pub enum InterruptDrawInfo {
    /// A request to quit ends the dashboard at once.
    Instantly,
    /// A request to quit waits until it is allowed again; the flag says
    /// whether one is waiting.
    Deferred(bool),
}

/// What the dashboard keeps from frame to frame.
#[derive(Debug)]
pub struct State {
    /// The title of the window.
    pub title: String,
    /// How many tasks are scrolled out at the top.
    pub task_offset: u16,
    /// How many messages are scrolled out.
    pub message_offset: u16,
    /// The width of the widest origin of a message that was on display.
    pub widest_origin: u16,
    /// Whether the messages are hidden.
    pub hide_messages: bool,
    /// Whether the messages take the whole window.
    pub messages_fullscreen: bool,
    /// The size of the window that an event has set.
    pub user_provided_window_size: Option<Rect>,
    /// The time from one frame to the next.
    pub duration_per_frame: Duration,
    /// The lines of the information pane.
    pub information: Vec<Line>,
    /// Whether the information pane is hidden.
    pub hide_info: bool,
    /// Whether the information pane takes as much room as it can.
    pub maximize_info: bool,
    /// The width that the tree took in the last frame.
    pub last_tree_column_width: Option<u16>,
    /// The width that the tree gets in the next frame.
    pub next_tree_column_width: Option<u16>,
    /// The estimates of speed, if they are wanted.
    pub throughput: Option<Throughput>,
}

impl Default for State {
    fn default() -> (r: Self)
        ensures
            r.title@ == Seq::<char>::empty(),
            r.task_offset == 0,
            r.message_offset == 0,
            r.widest_origin == 0,
            !r.hide_messages,
            !r.messages_fullscreen,
            r.user_provided_window_size.is_none(),
            r.duration_per_frame@ == 0,
            r.information@.len() == 0,
            !r.hide_info,
            !r.maximize_info,
            r.last_tree_column_width.is_none(),
            r.next_tree_column_width.is_none(),
            r.throughput.is_none(),
    {
        State {
            title: String::new(),
            task_offset: 0,
            message_offset: 0,
            widest_origin: 0,
            hide_messages: false,
            messages_fullscreen: false,
            user_provided_window_size: None,
            duration_per_frame: Duration::default(),
            information: Vec::new(),
            hide_info: false,
            maximize_info: false,
            last_tree_column_width: None,
            next_tree_column_width: None,
            throughput: None,
        }
    }
}

/// Something to put on the grid of cells.
#[derive(Clone, PartialEq, Eq, Debug)]
pub enum Draw {
    /// The text on the row of `bound`, cut off at its right end, in `style`
    /// or in the style that the cells have.
    Text { bound: Rect, text: String, style: Option<Style> },
    /// The text on the row of `bound`, cut off at its right end: in `style`
    /// in the columns before `until`, and in `other` from there on.
    TextUntil { bound: Rect, text: String, until: u16, style: Style, other: Style },
    /// The color behind all cells of `bound`.
    Fill { bound: Rect, color: Color },
    /// A block with a title in its top border and the other borders that
    /// `borders` names.
    Block { bound: Rect, title: String, borders: Borders },
    /// The text on the row of `bound` and, one column behind it, a
    /// horizontal rule up to the right end.
    Title { bound: Rect, text: String },
}

/// Something to put on the grid of cells, as a mathematical value.
pub enum DrawView {
    Text { bound: Rect, text: Seq<char>, style: Option<Style> },
    TextUntil { bound: Rect, text: Seq<char>, until: u16, style: Style, other: Style },
    Fill { bound: Rect, color: Color },
    Block { bound: Rect, title: Seq<char>, borders: Borders },
    Title { bound: Rect, text: Seq<char> },
}

impl View for Draw {
    type V = DrawView;

    open spec fn view(&self) -> DrawView {
        match self {
            Draw::Text { bound, text, style } => DrawView::Text {
                bound: *bound,
                text: text@,
                style: *style,
            },
            Draw::TextUntil { bound, text, until, style, other } => DrawView::TextUntil {
                bound: *bound,
                text: text@,
                until: *until,
                style: *style,
                other: *other,
            },
            Draw::Fill { bound, color } => DrawView::Fill { bound: *bound, color: *color },
            Draw::Block { bound, title, borders } => DrawView::Block {
                bound: *bound,
                title: title@,
                borders: *borders,
            },
            Draw::Title { bound, text } => DrawView::Title { bound: *bound, text: text@ },
        }
    }
}

/// The commands of `s` as mathematical values.
pub open spec fn draw_views(s: Seq<Draw>) -> Seq<DrawView> {
    Seq::new(s.len(), |i: int| s[i]@)
}

/// Appends `text` on the row of `bound`.
pub fn draw_text_nowrap(out: &mut Vec<Draw>, bound: Rect, text: String, style: Option<Style>)
    ensures
        draw_views(final(out)@) == draw_views(old(out)@).push(
            DrawView::Text { bound, text: text@, style },
        ),
{
    out.push(Draw::Text { bound, text, style });
    assert(draw_views(out@) =~= draw_views(old(out)@).push(
        DrawView::Text { bound, text: text@, style },
    ));
}

/// Appends `text` on the row of `bound`, in `style` before the column
/// `until` and in `other` from there on.
pub fn draw_text_nowrap_until(
    out: &mut Vec<Draw>,
    bound: Rect,
    text: String,
    until: u16,
    style: Style,
    other: Style,
)
    ensures
        draw_views(final(out)@) == draw_views(old(out)@).push(
            DrawView::TextUntil { bound, text: text@, until, style, other },
        ),
{
    out.push(Draw::TextUntil { bound, text, until, style, other });
    assert(draw_views(out@) =~= draw_views(old(out)@).push(
        DrawView::TextUntil { bound, text: text@, until, style, other },
    ));
}

/// Appends the color behind all cells of `bound`.
pub fn fill_background(out: &mut Vec<Draw>, bound: Rect, color: Color)
    ensures
        draw_views(final(out)@) == draw_views(old(out)@).push(DrawView::Fill { bound, color }),
{
    out.push(Draw::Fill { bound, color });
    assert(draw_views(out@) =~= draw_views(old(out)@).push(DrawView::Fill { bound, color }));
}

/// Appends a block with `title` in its top border.
pub fn draw_block(out: &mut Vec<Draw>, bound: Rect, title: String, borders: Borders)
    ensures
        draw_views(final(out)@) == draw_views(old(out)@).push(
            DrawView::Block { bound, title: title@, borders },
        ),
{
    out.push(Draw::Block { bound, title, borders });
    assert(draw_views(out@) =~= draw_views(old(out)@).push(
        DrawView::Block { bound, title: title@, borders },
    ));
}

/// Appends `text` followed by a horizontal rule.
pub fn draw_title(out: &mut Vec<Draw>, bound: Rect, text: String)
    ensures
        draw_views(final(out)@) == draw_views(old(out)@).push(
            DrawView::Title { bound, text: text@ },
        ),
{
    out.push(Draw::Title { bound, text });
    assert(draw_views(out@) =~= draw_views(old(out)@).push(DrawView::Title { bound, text: text@ }));
}

} // verus!

pub mod progress;
pub mod messages;
pub mod information;
pub mod all;

pub use all::all;
