//! One frame of the dashboard: the window with its headline, and in it the
//! panes of tasks, messages and information.
use crate::key::Key;
use crate::messages::{views, Message, MessageView};
use crate::progress::TaskSnapshot;
use crate::text::{block_width, block_width_of};
use crate::time::Time;
use crate::tui::draw::information::{line_views, LineView};
use crate::tui::draw::progress::MIN_TREE_WIDTH;
use crate::tui::draw::{
    draw_block, draw_views, information, messages, progress, Draw, DrawView, InterruptDrawInfo,
    Line, State,
};
use crate::tui::layout::{
    capped_sum, inner, inside, larger, left_of, line_bound, line_of, moved_right, offset_x,
    sanitized_offset, smaller, snap_to_right, snapped_to_right, Borders, Rect,
};
use crate::unit::display;
use vstd::prelude::*;

verus! {

/// The narrowest window into which panes are drawn.
pub const MIN_WINDOW: u16 = 4;

/// The text of a line of information.
pub open spec fn line_text(line: LineView) -> Seq<char> {
    match line {
        LineView::Title(text) => text,
        LineView::Text(text) => text,
    }
}

/// The width of the widest among the first `n` lines.
pub open spec fn widest_line(lines: Seq<LineView>, n: int) -> u16
    decreases n,
{
    if n <= 0 {
        0
    } else {
        larger(widest_line(lines, n - 1), block_width_of(line_text(lines[n - 1])))
    }
}

/// The width of the pane of information in a window of `width` columns:
/// a third of the window, or all but half a tree if it is enlarged, but no
/// more than the widest line and a margin on both sides take.
pub open spec fn info_width(width: u16, widest: u16, maximize: bool) -> u16 {
    smaller(
        if maximize {
            left_of(width, (MIN_TREE_WIDTH / 2) as u16)
        } else {
            (width / 3) as u16
        },
        capped_sum(widest, 2),
    )
}

/// What is left of `bound` for the window, and where the pane of
/// information stands: at the right, unless there is no information or the
/// pane would show less than a third of its widest line.
pub open spec fn info_bounds(bound: Rect, info: Seq<LineView>, maximize: bool) -> (
    Rect,
    Option<Rect>,
) {
    let widest = widest_line(info, info.len() as int);
    let pane_width = info_width(bound.width, widest, maximize);
    if info.len() == 0 || pane_width < widest / 3 {
        (bound, None)
    } else {
        (
            Rect { width: left_of(bound.width, pane_width), ..bound },
            Some(snapped_to_right(bound, pane_width)),
        )
    }
}

/// What is left of `bound` for the window, and where the pane of
/// information stands.
pub fn compute_info_bound(bound: Rect, info: &[Line], maximize: bool) -> (r: (Rect, Option<Rect>))
    ensures
        r == info_bounds(bound, line_views(info@), maximize),
{
    if info.len() == 0 {
        return (bound, None);
    }
    let margin: u16 = 1;
    let mut max_line_width: u16 = 0;
    let mut i: usize = 0;
    while i < info.len()
        invariant
            i <= info.len(),
            max_line_width == widest_line(line_views(info@), i as int),
        decreases info.len() - i,
    {
        let width = match &info[i] {
            Line::Text(s) => block_width(s.as_str()),
            Line::Title(s) => block_width(s.as_str()),
        };
        if width > max_line_width {
            max_line_width = width;
        }
        i = i + 1;
    }
    let room = if maximize {
        bound.width.saturating_sub(MIN_TREE_WIDTH / 2)
    } else {
        bound.width / 3
    };
    let wanted = max_line_width.saturating_add(margin * 2);
    let pane_width = if room < wanted {
        room
    } else {
        wanted
    };
    if pane_width < max_line_width / 3 {
        return (bound, None);
    }
    (
        Rect { width: bound.width.saturating_sub(pane_width), ..bound },
        Some(snap_to_right(bound, pane_width)),
    )
}

/// The rows of the tasks in a window whose inside has `height` rows:
/// three quarters, or none while the messages take the whole window.
pub open spec fn task_share(height: u16, messages_fullscreen: bool) -> u16 {
    if messages_fullscreen {
        0
    } else {
        (height * 3 / 4) as u16
    }
}

/// Where the panes of tasks and of messages stand inside the window: the
/// tasks on top and the messages below, or the tasks alone if no message
/// is shown.
pub open spec fn pane_bounds(no_messages: bool, within: Rect, messages_fullscreen: bool) -> (
    Rect,
    Option<Rect>,
) {
    if no_messages {
        (within, None)
    } else {
        let rows = task_share(within.height, messages_fullscreen);
        (
            Rect { height: rows, ..within },
            Some(
                Rect {
                    y: capped_sum(within.y, rows),
                    height: left_of(within.height, rows),
                    ..within
                },
            ),
        )
    }
}

/// Where the panes of tasks and of messages stand inside the window.
pub fn compute_pane_bounds(no_messages: bool, within: Rect, messages_fullscreen: bool) -> (r: (
    Rect,
    Option<Rect>,
))
    ensures
        r == pane_bounds(no_messages, within, messages_fullscreen),
{
    if no_messages {
        return (within, None);
    }
    let rows: u16 = if messages_fullscreen {
        0
    } else {
        ((within.height as u32) * 3 / 4) as u16
    };
    (
        Rect { height: rows, ..within },
        Some(
            Rect {
                y: within.y.saturating_add(rows),
                height: within.height.saturating_sub(rows),
                ..within
            },
        ),
    )
}

/// The information that is shown: none while the pane is hidden.
pub open spec fn shown_info(information: Seq<Line>, hide_info: bool) -> Seq<LineView> {
    if hide_info {
        Seq::empty()
    } else {
        line_views(information)
    }
}

/// Where the headline stands in the top border of the window: behind the
/// title.
pub open spec fn headline_bound(window: Rect, title: Seq<char>) -> Rect {
    moved_right(
        Rect { height: 1, width: left_of(window.width, 1), ..window },
        capped_sum(block_width_of(title), 2),
    )
}

/// Where the line stands that tells of messages which are not on display:
/// in the bottom border of the window.
pub open spec fn message_overflow_bound(window: Rect, messages_pane: Rect) -> Rect {
    Rect {
        width: capped_sum(messages_pane.width, 2),
        ..line_of(window, left_of(window.height, 1) as int)
    }
}

/// What a frame draws inside a window that is large enough: the headline,
/// the pane of tasks, the pane of messages unless it is hidden or empty,
/// and the pane of information if it has a place.
#[verifier::opaque]
pub open spec fn window_draws(
    state: State,
    interrupt_mode: InterruptDrawInfo,
    entries: Seq<(Key, TaskSnapshot)>,
    rates: Seq<Option<display::Throughput>>,
    messages: Seq<MessageView>,
    window: Rect,
    info_pane: Option<Rect>,
    now: Time,
) -> Seq<DrawView> {
    let within = inside(window, Borders::All);
    let (progress_pane, messages_pane) = pane_bounds(
        state.hide_messages || messages.len() == 0,
        within,
        state.messages_fullscreen,
    );
    seq![
        progress::headline_draw(
            entries,
            interrupt_mode,
            state.duration_per_frame,
            now,
            headline_bound(window, state.title@),
        ),
    ] + progress::pane_draws(
        entries,
        rates,
        progress_pane,
        state.task_offset,
        state.next_tree_column_width,
        now,
    ) + (match messages_pane {
        Some(pane) => messages::pane_draws(
            messages,
            pane,
            message_overflow_bound(window, pane),
            state.message_offset,
            state.widest_origin,
        ),
        None => Seq::empty(),
    }) + (match info_pane {
        Some(pane) => information::pane_draws(line_views(state.information@), pane),
        None => Seq::empty(),
    })
}

/// The panes of tasks and of messages in a frame of `message_count`
/// messages, if the window is large enough for panes.
pub open spec fn frame_panes(state: State, message_count: int, bound: Rect) -> Option<
    (Rect, Option<Rect>),
> {
    let window = info_bounds(
        bound,
        shown_info(state.information@, state.hide_info),
        state.maximize_info,
    ).0;
    if window.width < MIN_WINDOW || window.height < MIN_WINDOW {
        None
    } else {
        Some(
            pane_bounds(
                state.hide_messages || message_count == 0,
                inside(window, Borders::All),
                state.messages_fullscreen,
            ),
        )
    }
}

/// How many tasks are scrolled out once a frame is drawn: as many as before,
/// but no more than leave the pane of tasks full.
pub open spec fn task_offset_after(
    state: State,
    task_count: int,
    message_count: int,
    bound: Rect,
) -> u16 {
    match frame_panes(state, message_count, bound) {
        Some((tasks, _)) => progress::pane_offset(task_count, tasks.height, state.task_offset),
        None => state.task_offset,
    }
}

/// How many messages are scrolled out once a frame is drawn: as many as
/// before, but no more than leave the pane of messages full, where messages
/// are on display.
pub open spec fn message_offset_after(state: State, message_count: int, bound: Rect) -> u16 {
    match frame_panes(state, message_count, bound) {
        Some((_, Some(pane))) => sanitized_offset(
            state.message_offset,
            message_count,
            inside(pane, Borders::Top).height,
        ),
        _ => state.message_offset,
    }
}

/// The width of the column of origins once a frame is drawn: that of the
/// widest origin that was on display so far.
pub open spec fn widest_origin_after(state: State, messages: Seq<MessageView>, bound: Rect) -> u16 {
    match frame_panes(state, messages.len() as int, bound) {
        Some((_, Some(pane))) => messages::pane_origin_width(
            messages,
            pane,
            state.message_offset,
            state.widest_origin,
        ),
        _ => state.widest_origin,
    }
}

/// The width that the tree is noted to have taken once a frame is drawn.
pub open spec fn tree_width_after(
    state: State,
    entries: Seq<(Key, TaskSnapshot)>,
    message_count: int,
    bound: Rect,
) -> Option<u16> {
    match frame_panes(state, message_count, bound) {
        Some((tasks, _)) => progress::pane_tree_width(
            entries,
            tasks,
            state.task_offset,
            state.next_tree_column_width,
            state.last_tree_column_width,
        ),
        None => state.last_tree_column_width,
    }
}

/// What a frame draws: the window, and if it has four columns and rows or
/// more, what goes into it.
pub open spec fn frame_draws(
    state: State,
    interrupt_mode: InterruptDrawInfo,
    entries: Seq<(Key, TaskSnapshot)>,
    rates: Seq<Option<display::Throughput>>,
    messages: Seq<MessageView>,
    bound: Rect,
    now: Time,
) -> Seq<DrawView> {
    let (window, info_pane) = info_bounds(
        bound,
        shown_info(state.information@, state.hide_info),
        state.maximize_info,
    );
    seq![DrawView::Block { bound: window, title: state.title@, borders: Borders::All }] + (
    if window.width < MIN_WINDOW || window.height < MIN_WINDOW {
        Seq::empty()
    } else {
        window_draws(state, interrupt_mode, entries, rates, messages, window, info_pane, now)
    })
}

/// Draws what goes into the window.
fn draw_window(
    out: &mut Vec<Draw>,
    state: &mut State,
    interrupt_mode: InterruptDrawInfo,
    entries: &[(Key, TaskSnapshot)],
    rates: &Vec<Option<display::Throughput>>,
    messages: &[Message],
    window: Rect,
    info_pane: Option<Rect>,
    now: Time,
)
    ensures
        draw_views(final(out)@) == draw_views(old(out)@) + window_draws(
            *old(state),
            interrupt_mode,
            entries@,
            rates@,
            views(messages@),
            window,
            info_pane,
            now,
        ),
        final(state).title == old(state).title,
        final(state).hide_messages == old(state).hide_messages,
        final(state).messages_fullscreen == old(state).messages_fullscreen,
        final(state).user_provided_window_size == old(state).user_provided_window_size,
        final(state).duration_per_frame == old(state).duration_per_frame,
        final(state).information == old(state).information,
        final(state).hide_info == old(state).hide_info,
        final(state).maximize_info == old(state).maximize_info,
        final(state).next_tree_column_width == old(state).next_tree_column_width,
        final(state).throughput == old(state).throughput,
        final(state).task_offset == progress::pane_offset(
            entries@.len() as int,
            pane_bounds(
                old(state).hide_messages || messages@.len() == 0,
                inside(window, Borders::All),
                old(state).messages_fullscreen,
            ).0.height,
            old(state).task_offset,
        ),
        final(state).message_offset == (match pane_bounds(
            old(state).hide_messages || messages@.len() == 0,
            inside(window, Borders::All),
            old(state).messages_fullscreen,
        ).1 {
            Some(pane) => sanitized_offset(
                old(state).message_offset,
                messages@.len() as int,
                inside(pane, Borders::Top).height,
            ),
            None => old(state).message_offset,
        }),
        final(state).widest_origin == (match pane_bounds(
            old(state).hide_messages || messages@.len() == 0,
            inside(window, Borders::All),
            old(state).messages_fullscreen,
        ).1 {
            Some(pane) => messages::pane_origin_width(
                views(messages@),
                pane,
                old(state).message_offset,
                old(state).widest_origin,
            ),
            None => old(state).widest_origin,
        }),
        final(state).last_tree_column_width == progress::pane_tree_width(
            entries@,
            pane_bounds(
                old(state).hide_messages || messages@.len() == 0,
                inside(window, Borders::All),
                old(state).messages_fullscreen,
            ).0,
            old(state).task_offset,
            old(state).next_tree_column_width,
            old(state).last_tree_column_width,
        ),
{
    reveal(window_draws);
    let ghost start = draw_views(out@);
    let within = inner(window, Borders::All);
    let border_width: u16 = 1;
    let headline_at = offset_x(
        Rect { height: 1, width: window.width.saturating_sub(border_width), ..window },
        block_width(state.title.as_str()).saturating_add(border_width * 2),
    );
    assert(headline_at == headline_bound(window, state.title@));
    progress::headline(
        out,
        entries,
        interrupt_mode,
        state.duration_per_frame,
        now,
        headline_at,
    );
    let (progress_pane, messages_pane) = compute_pane_bounds(
        state.hide_messages || messages.len() == 0,
        within,
        state.messages_fullscreen,
    );
    progress::pane(out, entries, rates, progress_pane, state, now);
    let ghost tasks = draw_views(out@);
    match messages_pane {
        Some(pane) => {
            let overflow = Rect {
                width: pane.width.saturating_add(2),
                ..line_bound(window, window.height.saturating_sub(1) as usize)
            };
            assert(overflow == message_overflow_bound(window, pane));
            messages::pane(
                out,
                messages,
                pane,
                overflow,
                &mut state.message_offset,
                &mut state.widest_origin,
            );
        },
        None => {
            assert(draw_views(out@) =~= tasks + Seq::<DrawView>::empty());
        },
    }
    let ghost said = draw_views(out@);
    match info_pane {
        Some(pane) => {
            information::pane(out, state.information.as_slice(), pane);
        },
        None => {
            assert(draw_views(out@) =~= said + Seq::<DrawView>::empty());
        },
    }
    assert(draw_views(out@) =~= start + window_draws(
        *old(state),
        interrupt_mode,
        entries@,
        rates@,
        views(messages@),
        window,
        info_pane,
        now,
    ));
}

/// What is left of `bound` for the window, and where the pane of
/// information stands, as `state` asks for it.
fn window_bounds(state: &State, bound: Rect) -> (r: (Rect, Option<Rect>))
    ensures
        r == info_bounds(
            bound,
            shown_info(state.information@, state.hide_info),
            state.maximize_info,
        ),
{
    if state.hide_info {
        let none: Vec<Line> = Vec::new();
        assert(line_views(none@) =~= Seq::<LineView>::empty());
        compute_info_bound(bound, none.as_slice(), state.maximize_info)
    } else {
        compute_info_bound(bound, state.information.as_slice(), state.maximize_info)
    }
}

/// Draws a frame of `entries` and `messages` into `bound` at the time
/// `now`, and keeps the offsets of `state` within what can be shown.
/// `rates` holds the throughput of each task, in the order of the tasks.
pub fn all(
    state: &mut State,
    interrupt_mode: InterruptDrawInfo,
    entries: &[(Key, TaskSnapshot)],
    rates: &Vec<Option<display::Throughput>>,
    messages: &[Message],
    bound: Rect,
    now: Time,
) -> (r: Vec<Draw>)
    ensures
        draw_views(r@) == frame_draws(
            *old(state),
            interrupt_mode,
            entries@,
            rates@,
            views(messages@),
            bound,
            now,
        ),
        final(state).title == old(state).title,
        final(state).hide_messages == old(state).hide_messages,
        final(state).messages_fullscreen == old(state).messages_fullscreen,
        final(state).user_provided_window_size == old(state).user_provided_window_size,
        final(state).duration_per_frame == old(state).duration_per_frame,
        final(state).information == old(state).information,
        final(state).hide_info == old(state).hide_info,
        final(state).maximize_info == old(state).maximize_info,
        final(state).next_tree_column_width == old(state).next_tree_column_width,
        final(state).throughput == old(state).throughput,
        final(state).task_offset == task_offset_after(
            *old(state),
            entries@.len() as int,
            messages@.len() as int,
            bound,
        ),
        final(state).message_offset == message_offset_after(
            *old(state),
            messages@.len() as int,
            bound,
        ),
        final(state).widest_origin == widest_origin_after(*old(state), views(messages@), bound),
        final(state).last_tree_column_width == tree_width_after(
            *old(state),
            entries@,
            messages@.len() as int,
            bound,
        ),
{
    let mut out: Vec<Draw> = Vec::new();
    let (window, info_pane) = window_bounds(state, bound);
    assert(draw_views(out@) =~= Seq::<DrawView>::empty());
    draw_block(&mut out, window, state.title.clone(), Borders::All);
    let ghost framed = draw_views(out@);
    if window.width < MIN_WINDOW || window.height < MIN_WINDOW {
        assert(draw_views(out@) =~= framed + Seq::<DrawView>::empty());
        return out;
    }
    draw_window(
        &mut out,
        state,
        interrupt_mode,
        entries,
        rates,
        messages,
        window,
        info_pane,
        now,
    );
    out
}

} // verus!
