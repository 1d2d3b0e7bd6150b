//! The pane of messages: the newest on top, each with its time, its level,
//! its origin and its text.
use crate::messages::{views, Message, MessageLevel, MessageView};
use crate::style::{Color, Style};
use crate::text::{block_width, block_width_of, decimal, push_decimal, push_str};
use crate::time::{time_column, time_of_day_text, Time};
use crate::tui::draw::{
    draw_block, draw_text_nowrap, draw_views, Draw, DrawView, VERTICAL_LINE,
};
use crate::tui::layout::{
    capped_sum, inner, inside, intersect, intersected, larger, left_of, line_bound, line_of,
    moved_right, offset_x, sanitize_offset, sanitized_offset, smaller, snap_to_right,
    snapped_to_right, visible, visible_count, Borders, Rect,
};
use vstd::prelude::*;

verus! {

/// The number of columns of a time of day, as in `00:51:45`.
pub const TIME_COLUMN_SUFFIX: u16 = 8;

/// The number of columns of a level.
pub const LEVEL_TEXT_WIDTH: u16 = 4;

/// The fewest columns that a message needs beside time, level and origin.
pub const MIN_MESSAGE_WIDTH: u16 = 30;

/// The name of a level, in four letters.
pub open spec fn level_text(level: MessageLevel) -> Seq<char> {
    match level {
        MessageLevel::Info => "info"@,
        MessageLevel::Failure => "fail"@,
        MessageLevel::Success => "done"@,
    }
}

/// The name of a level, in four letters.
pub fn format_level_column(level: MessageLevel) -> (r: &'static str)
    ensures
        r@ == level_text(level),
{
    match level {
        MessageLevel::Info => "info",
        MessageLevel::Failure => "fail",
        MessageLevel::Success => "done",
    }
}

/// The style of the badge of a level: bold black on white for information,
/// on red for a failure and on green for a success.
pub open spec fn level_style(level: MessageLevel) -> Style {
    Style {
        foreground: Some(Color::Black),
        bold: true,
        background: Some(
            match level {
                MessageLevel::Info => Color::White,
                MessageLevel::Failure => Color::Red,
                MessageLevel::Success => Color::Green,
            },
        ),
        ..Style::plain()
    }
}

/// The style of the badge of a level.
pub fn level_to_style(level: MessageLevel) -> (r: Style)
    ensures
        r == level_style(level),
{
    Style::default().fg(Color::Black).bold().bg(
        match level {
            MessageLevel::Info => Color::White,
            MessageLevel::Failure => Color::Red,
            MessageLevel::Success => Color::Green,
        },
    )
}

/// The time of day of a message, followed by the line between columns.
pub fn format_time_column(time: &Time) -> (r: String)
    ensures
        r@ == time_of_day_text(*time) + VERTICAL_LINE@,
{
    let mut text = time_column(*time);
    push_str(&mut text, VERTICAL_LINE);
    text
}

/// Where the parts of a message stand on a line.
#[derive(Copy, Clone, PartialEq, Eq, Structural, Debug)]
pub struct Bounds {
    /// Where the time stands, if there is room for the columns.
    pub time: Option<Rect>,
    /// Where the level stands, if there is room for the columns.
    pub level: Option<Rect>,
    /// Where the origin stands, if there is room for the columns.
    pub origin: Option<Rect>,
    /// Where the text of the message stands.
    pub message: Rect,
}

/// The width of the line between columns.
pub open spec fn line_width() -> u16 {
    block_width_of(VERTICAL_LINE@)
}

/// Where the parts of a message stand on `line` when the widest origin
/// takes `max_origin_width` columns: time, level and origin side by side
/// from the left, each followed by a line, and the text in what is left.
/// If fewer than thirty columns are left, the text takes the whole line.
pub open spec fn message_bounds(line: Rect, max_origin_width: u16) -> Bounds {
    let time = Rect { width: capped_sum(TIME_COLUMN_SUFFIX, line_width()), ..line };
    let level_at = capped_sum(time.width, 1);
    let level = Rect { x: level_at, width: capped_sum(LEVEL_TEXT_WIDTH, line_width()), ..line };
    let origin_at = capped_sum(level_at, level.width);
    let origin = Rect { x: origin_at, width: capped_sum(max_origin_width, line_width()), ..line };
    let message_at = capped_sum(origin_at, origin.width);
    let message = intersected(moved_right(line, message_at), line);
    if message.width < MIN_MESSAGE_WIDTH {
        Bounds { time: None, level: None, origin: None, message: line }
    } else {
        Bounds { time: Some(time), level: Some(level), origin: Some(origin), message }
    }
}

/// Where the parts of a message stand on `line`.
pub fn compute_bounds(line: Rect, max_origin_width: u16) -> (r: Bounds)
    ensures
        r == message_bounds(line, max_origin_width),
{
    let vertical_line_width = block_width(VERTICAL_LINE);
    let mythical_offset_we_should_not_need: u16 = 1;
    let time_bound = Rect { width: TIME_COLUMN_SUFFIX.saturating_add(vertical_line_width), ..line };
    let mut cursor = time_bound.width.saturating_add(mythical_offset_we_should_not_need);
    let level_bound = Rect {
        x: cursor,
        width: LEVEL_TEXT_WIDTH.saturating_add(vertical_line_width),
        ..line
    };
    cursor = cursor.saturating_add(level_bound.width);
    let origin_bound = Rect {
        x: cursor,
        width: max_origin_width.saturating_add(vertical_line_width),
        ..line
    };
    cursor = cursor.saturating_add(origin_bound.width);
    let message_bound = intersect(offset_x(line, cursor), line);
    if message_bound.width < MIN_MESSAGE_WIDTH {
        return Bounds { time: None, level: None, origin: None, message: line };
    }
    Bounds {
        time: Some(time_bound),
        level: Some(level_bound),
        origin: Some(origin_bound),
        message: message_bound,
    }
}

/// The message on line `line` of the pane: the newest message is on the
/// first line, and `offset` messages are scrolled out before it.
pub open spec fn message_at(messages: Seq<MessageView>, offset: u16, line: int) -> MessageView {
    messages[messages.len() - 1 - offset - line]
}

/// The width of the column of origins: that of the widest origin among the
/// messages on the first `lines` lines, and no less than `so_far`, the width
/// of the frames before.
pub open spec fn origin_width(messages: Seq<MessageView>, offset: u16, lines: int, so_far: u16)
    -> u16
    decreases lines,
{
    if lines <= 0 {
        so_far
    } else {
        larger(
            origin_width(messages, offset, lines - 1, so_far),
            block_width_of(message_at(messages, offset, lines - 1).origin),
        )
    }
}

/// The width of the column of origins once the pane is drawn into `bound`.
pub open spec fn pane_origin_width(
    messages: Seq<MessageView>,
    bound: Rect,
    offset: u16,
    so_far: u16,
) -> u16 {
    let len = messages.len() as int;
    let within = inside(bound, Borders::Top);
    let at = sanitized_offset(offset, len, within.height);
    origin_width(messages, at, visible(len, at, within.height), so_far)
}

/// The column of origins never gets narrower from one frame to the next.
pub proof fn law_origin_width_only_grows(
    messages: Seq<MessageView>,
    offset: u16,
    lines: int,
    so_far: u16,
)
    ensures
        origin_width(messages, offset, lines, so_far) >= so_far,
    decreases lines,
{
    if lines > 0 {
        law_origin_width_only_grows(messages, offset, lines - 1, so_far);
    }
}

/// What the pane draws for the message on line `line`: time, level and
/// origin in their columns if there is room for them, and the text.
pub open spec fn message_line(
    messages: Seq<MessageView>,
    bound: Rect,
    offset: u16,
    max_origin_width: u16,
    line: int,
) -> Seq<DrawView> {
    let m = message_at(messages, offset, line);
    let bounds = message_bounds(line_of(bound, line), max_origin_width);
    (match bounds.time {
        Some(at) => seq![
            DrawView::Text {
                bound: at,
                text: time_of_day_text(m.time) + VERTICAL_LINE@,
                style: None,
            },
        ],
        None => Seq::empty(),
    }) + (match bounds.level {
        Some(at) => seq![
            DrawView::Text {
                bound: at,
                text: level_text(m.level),
                style: Some(level_style(m.level)),
            },
            DrawView::Text {
                bound: moved_right(at, LEVEL_TEXT_WIDTH),
                text: VERTICAL_LINE@,
                style: None,
            },
        ],
        None => Seq::empty(),
    }) + (match bounds.origin {
        Some(at) => seq![
            DrawView::Text { bound: at, text: m.origin, style: None },
            DrawView::Text {
                bound: moved_right(at, max_origin_width),
                text: "\u{2192}"@,
                style: None,
            },
        ],
        None => Seq::empty(),
    }) + seq![DrawView::Text { bound: bounds.message, text: m.message, style: None }]
}

/// What the pane draws for the messages on its first `lines` lines.
pub open spec fn message_lines(
    messages: Seq<MessageView>,
    bound: Rect,
    offset: u16,
    max_origin_width: u16,
    lines: int,
) -> Seq<DrawView>
    decreases lines,
{
    if lines <= 0 {
        Seq::empty()
    } else {
        message_lines(messages, bound, offset, max_origin_width, lines - 1) + message_line(
            messages,
            bound,
            offset,
            max_origin_width,
            lines - 1,
        )
    }
}

/// The keys that hide and enlarge the pane of messages.
pub open spec fn pane_help() -> Seq<char> {
    " \u{2a2f} = `| \u{25a2} = ~ "@
}

/// The keys that scroll the messages.
pub open spec fn scroll_help() -> Seq<char> {
    " \u{21ca} = D|\u{2193} = J|\u{21c8} = U|\u{2191} = K \u{2518}"@
}

/// True if a line below the messages tells of messages that are not on
/// display.
pub open spec fn overflows(len: int, height: u16, offset: u16) -> bool {
    height < (if len > offset {
        len - offset
    } else {
        0
    }) || (offset > 0 && len % 0x1_0000 > 0)
}

/// What the line below the messages says: how many are scrolled out and
/// how many follow.
pub open spec fn overflow_label(len: int, height: u16, offset: u16) -> Seq<char> {
    "\u{2026} "@ + decimal(
        (if offset < len % 0x1_0000 {
            offset as int
        } else {
            len % 0x1_0000
        }) as nat,
    ) + " skipped and "@ + decimal(
        (if len > capped_sum(height, offset) {
            len - capped_sum(height, offset)
        } else {
            0
        }) as nat,
    ) + " more"@
}

/// What the pane of messages draws: its block and the keys that change it,
/// a line per message that is on display, and below them a line that tells
/// of the messages which are not.
#[verifier::opaque]
pub open spec fn pane_draws(
    messages: Seq<MessageView>,
    bound: Rect,
    overflow_bound: Rect,
    offset: u16,
    widest_origin: u16,
) -> Seq<DrawView> {
    let len = messages.len() as int;
    let within = inside(bound, Borders::Top);
    let at = sanitized_offset(offset, len, within.height);
    let lines = visible(len, at, within.height);
    seq![
        DrawView::Block { bound, title: "Messages"@, borders: Borders::Top },
        DrawView::Text {
            bound: snapped_to_right(bound, block_width_of(pane_help())),
            text: pane_help(),
            style: None,
        },
    ] + message_lines(
        messages,
        within,
        at,
        origin_width(messages, at, lines, widest_origin),
        lines,
    ) + (if overflows(len, within.height, at) {
        seq![
            DrawView::Text {
                bound: moved_right(overflow_bound, 2),
                text: overflow_label(len, within.height, at),
                style: None,
            },
            DrawView::Text {
                bound: snapped_to_right(overflow_bound, block_width_of(scroll_help())),
                text: scroll_help(),
                style: None,
            },
        ]
    } else {
        Seq::empty()
    })
}

/// Draws the message on line `line`.
fn draw_message_line(
    out: &mut Vec<Draw>,
    messages: &[Message],
    bound: Rect,
    offset: u16,
    max_origin_width: u16,
    line: usize,
)
    requires
        offset + line < messages@.len(),
    ensures
        draw_views(final(out)@) == draw_views(old(out)@) + message_line(
            views(messages@),
            bound,
            offset,
            max_origin_width,
            line as int,
        ),
{
    let len = messages.len();
    let message = &messages[len - 1 - offset as usize - line];
    assert(message@ == message_at(views(messages@), offset, line as int));
    let on = line_bound(bound, line);
    let bounds = compute_bounds(on, max_origin_width);
    match bounds.time {
        Some(time_bound) => {
            draw_text_nowrap(out, time_bound, format_time_column(&message.time), None);
        },
        None => {},
    }
    match bounds.level {
        Some(level_bound) => {
            draw_text_nowrap(
                out,
                level_bound,
                format_level_column(message.level).to_owned(),
                Some(level_to_style(message.level)),
            );
            draw_text_nowrap(
                out,
                offset_x(level_bound, LEVEL_TEXT_WIDTH),
                VERTICAL_LINE.to_owned(),
                None,
            );
        },
        None => {},
    }
    match bounds.origin {
        Some(origin_bound) => {
            draw_text_nowrap(out, origin_bound, message.origin.clone(), None);
            draw_text_nowrap(
                out,
                offset_x(origin_bound, max_origin_width),
                "\u{2192}".to_owned(),
                None,
            );
        },
        None => {},
    }
    draw_text_nowrap(out, bounds.message, message.message.clone(), None);
    assert(draw_views(out@) =~= draw_views(old(out)@) + message_line(
        views(messages@),
        bound,
        offset,
        max_origin_width,
        line as int,
    ));
}

/// Draws the pane of messages into `bound`, with the line for the messages
/// that are not on display in `overflow_bound`, and keeps `offset` within
/// what can be shown. The origins stand in a column as wide as the widest
/// origin that was on display so far, which `widest_origin` holds from frame
/// to frame.
pub fn pane(
    out: &mut Vec<Draw>,
    messages: &[Message],
    bound: Rect,
    overflow_bound: Rect,
    offset: &mut u16,
    widest_origin: &mut u16,
)
    ensures
        draw_views(final(out)@) == draw_views(old(out)@) + pane_draws(
            views(messages@),
            bound,
            overflow_bound,
            *old(offset),
            *old(widest_origin),
        ),
        *final(offset) == sanitized_offset(
            *old(offset),
            messages@.len() as int,
            inside(bound, Borders::Top).height,
        ),
        *final(widest_origin) == pane_origin_width(
            views(messages@),
            bound,
            *old(offset),
            *old(widest_origin),
        ),
{
    reveal(pane_draws);
    let ghost start = draw_views(out@);
    let ghost all = views(messages@);
    draw_block(out, bound, "Messages".to_owned(), Borders::Top);
    let help_text = " \u{2a2f} = `| \u{25a2} = ~ ";
    draw_text_nowrap(out, snap_to_right(bound, block_width(help_text)), help_text.to_owned(), None);
    let within = inner(bound, Borders::Top);
    *offset = sanitize_offset(*offset, messages.len(), within.height);
    let at = *offset;
    let len = messages.len();
    let lines = visible_count(len, at, within.height);
    let mut max_origin_width: u16 = *widest_origin;
    let mut line: usize = 0;
    while line < lines
        invariant
            line <= lines,
            len == messages@.len(),
            lines == 0 || at + lines <= len,
            all == views(messages@),
            max_origin_width == origin_width(all, at, line as int, *old(widest_origin)),
        decreases lines - line,
    {
        let message = &messages[len - 1 - at as usize - line];
        assert(message@ == message_at(all, at, line as int));
        let width = block_width(message.origin.as_str());
        if width > max_origin_width {
            max_origin_width = width;
        }
        line = line + 1;
    }
    *widest_origin = max_origin_width;
    let ghost head = draw_views(out@);
    line = 0;
    assert(draw_views(out@) =~= head + message_lines(all, within, at, max_origin_width, 0));
    while line < lines
        invariant
            line <= lines,
            len == messages@.len(),
            lines == 0 || at + lines <= len,
            all == views(messages@),
            draw_views(out@) == head + message_lines(
                all,
                within,
                at,
                max_origin_width,
                line as int,
            ),
        decreases lines - line,
    {
        draw_message_line(out, messages, within, at, max_origin_width, line);
        assert(draw_views(out@) =~= head + (message_lines(
            all,
            within,
            at,
            max_origin_width,
            line as int,
        ) + message_line(all, within, at, max_origin_width, line as int)));
        line = line + 1;
    }
    let ghost body = draw_views(out@);
    let scrolled = if at < (messages.len() % 0x1_0000) as u16 {
        at
    } else {
        (messages.len() % 0x1_0000) as u16
    };
    if (within.height as usize) < messages.len().saturating_sub(at as usize) || scrolled > 0 {
        let messages_below = messages.len().saturating_sub(
            within.height.saturating_add(at) as usize,
        );
        let mut label = String::new();
        push_str(&mut label, "\u{2026} ");
        push_decimal(&mut label, scrolled as u128);
        push_str(&mut label, " skipped and ");
        push_decimal(&mut label, messages_below as u128);
        push_str(&mut label, " more");
        assert(label@ =~= overflow_label(messages@.len() as int, within.height, at));
        draw_text_nowrap(out, offset_x(overflow_bound, 2), label, None);
        let help_text = " \u{21ca} = D|\u{2193} = J|\u{21c8} = U|\u{2191} = K \u{2518}";
        draw_text_nowrap(
            out,
            snap_to_right(overflow_bound, block_width(help_text)),
            help_text.to_owned(),
            None,
        );
    } else {
        assert(draw_views(out@) =~= body + Seq::<DrawView>::empty());
    }
    assert(draw_views(out@) =~= start + pane_draws(
        all,
        bound,
        overflow_bound,
        *old(offset),
        *old(widest_origin),
    ));
}

} // verus!
