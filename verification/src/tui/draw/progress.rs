//! The pane of tasks: the tree of names on the left, and on the right a bar
//! for each progress, a spinner for each unbounded one and the name of each
//! group.
use crate::key::{adjacency_of, keys_of, Key, SiblingLocation};
use crate::progress::{share_of_rounded_up, Progress, State as ProgressState, TaskSnapshot};
use crate::style::{Color, Style};
use crate::text::{
    block_width, block_width_of, decimal, grapheme_count, graphemes_in, push_char, push_decimal,
    push_repeated, push_str, repeated,
};
use crate::time::{date_time_column, date_time_text, duration_text, format_duration, Duration, Time};
use crate::tui::draw::{
    draw_text_nowrap, draw_text_nowrap_until, draw_views, fill_background, Draw, DrawView,
    InterruptDrawInfo, State, VERTICAL_LINE,
};
use crate::tui::layout::{
    capped_sum, intersect, intersected, larger, left_of, line_bound, line_of, moved_right,
    offset_x, sanitize_offset, sanitized_offset, smaller, snap_to_right, snapped_to_right,
    visible, visible_count, Rect,
};
use crate::unit::traits::Fraction;
use crate::unit::display;
use crate::unit::display::What;
use vstd::prelude::*;

verus! {

/// The narrowest tree column that is drawn.
pub const MIN_TREE_WIDTH: u16 = 20;

/// The columns around the name of a group: two on the left, one on the
/// right.
pub const TITLE_SPACING: u16 = 3;

/// The throughput of the task `i`, if `rates` holds one for it.
pub open spec fn rate_at(rates: Seq<Option<display::Throughput>>, i: int) -> Option<
    display::Throughput,
> {
    if 0 <= i < rates.len() {
        rates[i]
    } else {
        None
    }
}

/// The throughput of the task `i`, if `rates` holds one for it.
pub fn rate_of(rates: &Vec<Option<display::Throughput>>, i: usize) -> (r: Option<
    display::Throughput,
>)
    ensures
        r == rate_at(rates@, i as int),
{
    if i < rates.len() {
        rates[i]
    } else {
        None
    }
}

/// The glyph in front of a task in the tree: a dot on the first level, an
/// ellipsis for a group and a corner for a task with progress.
pub open spec fn tree_glyph(level: int, has_progress: bool) -> char {
    if level == 1 {
        '\u{2027}'
    } else if !has_progress {
        '\u{2026}'
    } else {
        '\u{2514}'
    }
}

/// The glyph in the column of a level above the task's own: a line where
/// tasks of that level stand both above and below, and nothing otherwise.
pub open spec fn ancestor_glyph(location: SiblingLocation) -> char {
    if location == SiblingLocation::AboveAndBelow {
        '\u{2502}'
    } else {
        ' '
    }
}

/// The glyphs in the columns of the levels above the own level of the task
/// `index`, as its adjacency has them.
pub open spec fn ancestor_glyphs(entries: Seq<(Key, TaskSnapshot)>, index: int) -> Seq<char> {
    let adjacency = adjacency_of(keys_of(entries), index);
    Seq::new(
        left_of(entries[index].0@.len() as u16, 1) as nat,
        |i: int| ancestor_glyph(adjacency.at(i + 1)),
    )
}

/// The text of the task `index` in the tree: a glyph for each level above
/// its own, its own glyph, and its name if it has progress.
pub open spec fn tree_prefix(entries: Seq<(Key, TaskSnapshot)>, index: int) -> Seq<char> {
    let (key, task) = entries[index];
    ancestor_glyphs(entries, index) + seq![
        tree_glyph(key@.len() as int, task.progress is Some),
    ] + seq![' '] + (if task.progress is Some {
        task.name@
    } else {
        Seq::empty()
    }) + seq![' ']
}

/// The text of the task `index` in the tree.
pub fn format_tree_prefix(entries: &[(Key, TaskSnapshot)], index: usize) -> (r: String)
    requires
        index < entries@.len(),
    ensures
        r@ == tree_prefix(entries@, index as int),
{
    let key = &entries[index].0;
    let task = &entries[index].1;
    let adjacency = Key::adjacency(entries, index);
    let level = key.level();
    let mut text = String::new();
    let mut at: u8 = 1;
    assert(text@ =~= ancestor_glyphs(entries@, index as int).subrange(0, 0));
    while at < level
        invariant
            1 <= at,
            level <= 6,
            at == 1 || at <= level,
            level == key@.len(),
            *key == entries@[index as int].0,
            adjacency == adjacency_of(keys_of(entries@), index as int),
            text@ == ancestor_glyphs(entries@, index as int).subrange(0, at - 1),
        decreases level - at,
    {
        let glyph = match adjacency.get(at) {
            Some(SiblingLocation::AboveAndBelow) => '\u{2502}',
            _ => ' ',
        };
        push_char(&mut text, glyph);
        assert(text@ =~= ancestor_glyphs(entries@, index as int).subrange(0, at as int));
        at = at + 1;
    }
    proof {
        let glyphs = ancestor_glyphs(entries@, index as int);
        assert(glyphs.len() == left_of(level as u16, 1));
        assert(glyphs.subrange(0, glyphs.len() as int) =~= glyphs);

    }
    assert(text@ =~= ancestor_glyphs(entries@, index as int));
    let glyph = if level == 1 {
        '\u{2027}'
    } else if task.progress.is_none() {
        '\u{2026}'
    } else {
        '\u{2514}'
    };
    push_char(&mut text, glyph);
    push_char(&mut text, ' ');
    if task.progress.is_some() {
        push_str(&mut text, task.name.as_str());
    }
    push_char(&mut text, ' ');
    assert(text@ =~= tree_prefix(entries@, index as int));
    text
}

/// What the tree draws on line `line`: the text of the task that is
/// `offset` tasks further down.
pub open spec fn tree_line(
    entries: Seq<(Key, TaskSnapshot)>,
    bound: Rect,
    offset: u16,
    line: int,
) -> Seq<DrawView> {
    seq![
        DrawView::Text {
            bound: line_of(bound, line),
            text: tree_prefix(entries, offset + line),
            style: None,
        },
    ]
}

/// What the tree draws on its first `lines` lines.
pub open spec fn tree_lines(
    entries: Seq<(Key, TaskSnapshot)>,
    bound: Rect,
    offset: u16,
    lines: int,
) -> Seq<DrawView>
    decreases lines,
{
    if lines <= 0 {
        Seq::empty()
    } else {
        tree_lines(entries, bound, offset, lines - 1) + tree_line(
            entries,
            bound,
            offset,
            lines - 1,
        )
    }
}

/// The width of the widest text among the first `lines` lines of the tree.
pub open spec fn tree_width(entries: Seq<(Key, TaskSnapshot)>, offset: u16, lines: int) -> u16
    decreases lines,
{
    if lines <= 0 {
        0
    } else {
        larger(
            tree_width(entries, offset, lines - 1),
            block_width_of(tree_prefix(entries, offset + lines - 1)),
        )
    }
}

/// Draws the tree of the tasks that are on display from `offset` on, one
/// per row of `bound`, and returns the width of the widest text.
pub fn draw_tree(
    out: &mut Vec<Draw>,
    entries: &[(Key, TaskSnapshot)],
    bound: Rect,
    offset: u16,
) -> (r: u16)
    ensures
        draw_views(final(out)@) == draw_views(old(out)@) + tree_lines(
            entries@,
            bound,
            offset,
            visible(entries@.len() as int, offset, bound.height),
        ),
        r == tree_width(entries@, offset, visible(entries@.len() as int, offset, bound.height)),
{
    let len = entries.len();
    let lines = visible_count(len, offset, bound.height);
    let mut max_prefix_len: u16 = 0;
    let mut line: usize = 0;
    assert(draw_views(out@) =~= draw_views(old(out)@) + tree_lines(entries@, bound, offset, 0));
    while line < lines
        invariant
            line <= lines,
            len == entries@.len(),
            lines == 0 || offset + lines <= len,
            draw_views(out@) == draw_views(old(out)@) + tree_lines(
                entries@,
                bound,
                offset,
                line as int,
            ),
            max_prefix_len == tree_width(entries@, offset, line as int),
        decreases lines - line,
    {
        let prefix = format_tree_prefix(entries, offset as usize + line);
        let width = block_width(prefix.as_str());
        if width > max_prefix_len {
            max_prefix_len = width;
        }
        draw_text_nowrap(out, line_bound(bound, line), prefix, None);
        assert(draw_views(out@) =~= draw_views(old(out)@) + (tree_lines(
            entries@,
            bound,
            offset,
            line as int,
        ) + tree_line(entries@, bound, offset, line as int)));
        line = line + 1;
    }
    max_prefix_len
}

/// The steps of a progress without a unit, as in `5 / 10`.
pub open spec fn steps_text(p: Progress) -> Seq<char> {
    match p.done_at {
        Some(done_at) => decimal(p.step as nat) + " / "@ + decimal(done_at as nat),
        None => decimal(p.step as nat),
    }
}

/// The text on a line of progress: the values in their unit, or a rule of
/// `width` columns, and at least one, for a task that only groups others.
pub open spec fn progress_text(
    progress: Option<Progress>,
    width: u16,
    throughput: Option<display::Throughput>,
) -> Seq<char> {
    match progress {
        Some(p) => match p.unit {
            Some(unit) => display::display_text(
                &unit.kind(),
                unit.mode(),
                What::ValuesAndUnit,
                p.step,
                p.done_at,
                throughput,
            ),
            None => steps_text(p),
        },
        None => repeated('\u{2500}', larger(width, 1) as nat),
    }
}

/// Appends the text on a line of progress to `w`.
pub fn format_progress(
    w: &mut String,
    progress: &Option<Progress>,
    width: u16,
    throughput: Option<display::Throughput>,
)
    ensures
        final(w)@ == old(w)@ + progress_text(*progress, width, throughput),
{
    match progress {
        Some(p) => match &p.unit {
            Some(unit) => {
                unit.display(p.step, p.done_at, throughput).write_to(w);
            },
            None => {
                push_decimal(w, p.step as u128);
                match p.done_at {
                    Some(done_at) => {
                        push_str(w, " / ");
                        push_decimal(w, done_at as u128);
                    },
                    None => {},
                }
                assert(w@ =~= old(w)@ + steps_text(*p));
            },
        },
        None => {
            let n = if width > 1 {
                width
            } else {
                1
            };
            push_repeated(w, '\u{2500}', n as usize);
        },
    }
}

/// What is said of a task that makes no progress: the reason in brackets,
/// and how long it takes until it goes on if that is known and lies ahead.
pub open spec fn block_eta_text(state: ProgressState, now: Time) -> Seq<char> {
    match state {
        ProgressState::Blocked(reason, maybe_eta) | ProgressState::Halted(reason, maybe_eta) => {
            " ["@ + reason@ + "]"@ + (match maybe_eta {
                Some(eta) => if eta@ > now@ {
                    " \u{2192} "@ + duration_text((eta@ - now@) as nat) + " to unblock"@
                } else {
                    Seq::empty()
                },
                None => Seq::empty(),
            })
        },
        ProgressState::Running => Seq::empty(),
    }
}

/// Appends what is said of a task that makes no progress.
pub fn add_block_eta(state: ProgressState, now: Time, progress_text: &mut String)
    ensures
        final(progress_text)@ == old(progress_text)@ + block_eta_text(state, now),
{
    match state {
        ProgressState::Blocked(reason, maybe_eta) | ProgressState::Halted(reason, maybe_eta) => {
            push_str(progress_text, " [");
            push_str(progress_text, reason);
            push_str(progress_text, "]");
            match maybe_eta {
                Some(eta) => {
                    match eta.duration_since(&now) {
                        Some(span) => {
                            if !span.is_zero() {
                                push_str(progress_text, " \u{2192} ");
                                let text = format_duration(span);
                                push_str(progress_text, text.as_str());
                                push_str(progress_text, " to unblock");
                            }
                        },
                        None => {},
                    }
                },
                None => {},
            }
            assert(progress_text@ =~= old(progress_text)@ + block_eta_text(state, now));
        },
        ProgressState::Running => {
            assert(progress_text@ =~= old(progress_text)@ + block_eta_text(state, now));
        },
    }
}

/// True if the task in `state` makes no progress.
pub open spec fn is_stuck(state: ProgressState) -> bool {
    state !is Running
}

/// True if the task in `state` makes no progress.
pub fn stuck(state: &ProgressState) -> (r: bool)
    ensures
        r == is_stuck(*state),
{
    match state {
        ProgressState::Running => false,
        _ => true,
    }
}

/// Where the spinner of an unbounded progress stands in `bound` at `step`
/// on line `seed`: five columns wide as far as `bound` goes, and one column
/// further with each step.
pub open spec fn spinner_rect(bound: Rect, step: usize, seed: int) -> Rect {
    intersected(
        Rect {
            x: capped_sum(bound.x, ((step + seed) % (bound.width as int)) as u16),
            width: 5,
            ..bound
        },
        bound,
    )
}

/// What the spinner draws.
pub open spec fn spinner_draws(bound: Rect, step: usize, seed: int, color: Color) -> Seq<
    DrawView,
> {
    if bound.width == 0 {
        Seq::empty()
    } else {
        seq![DrawView::Fill { bound: spinner_rect(bound, step, seed), color }]
    }
}

/// Draws the spinner of an unbounded progress.
pub fn draw_spinner(out: &mut Vec<Draw>, bound: Rect, step: usize, seed: usize, color: Color)
    ensures
        draw_views(final(out)@) == draw_views(old(out)@) + spinner_draws(
            bound,
            step,
            seed as int,
            color,
        ),
{
    if bound.width == 0 {
        assert(draw_views(out@) =~= draw_views(old(out)@) + spinner_draws(
            bound,
            step,
            seed as int,
            color,
        ));
        return ;
    }
    let at = ((step as u128 + seed as u128) % (bound.width as u128)) as u16;
    let x = bound.x.saturating_add(at);
    let width: u16 = 5;
    let place = intersect(Rect { x, width, ..bound }, bound);
    fill_background(out, place, color);
    assert(draw_views(out@) =~= draw_views(old(out)@) + spinner_draws(
        bound,
        step,
        seed as int,
        color,
    ));
}

/// The part of `bound` that a bar covers of which `step` of `done_at` steps
/// are done: as many columns as that takes, rounded up.
pub open spec fn bar_rect(bound: Rect, step: int, done_at: int) -> Rect {
    if bound.width == 0 {
        Rect { x: 0, y: 0, width: 0, height: 0 }
    } else {
        Rect { width: share_of_rounded_up(bound.width as int, step, done_at) as u16, ..bound }
    }
}

/// The style of text on a bar of `color`, or plain text where there is no
/// room for a bar.
pub open spec fn bar_style(bound: Rect, color: Color) -> Style {
    if bound.width == 0 {
        Style::plain()
    } else {
        Style { background: Some(color), foreground: Some(Color::Black), ..Style::plain() }
    }
}

/// What a bar draws.
pub open spec fn bar_draws(bound: Rect, step: int, done_at: int, color: Color) -> Seq<DrawView> {
    if bound.width == 0 {
        Seq::empty()
    } else {
        seq![DrawView::Fill { bound: bar_rect(bound, step, done_at), color }]
    }
}

/// Draws a bar in `color` over the part of `bound` that the quotient
/// `fraction` takes, and returns that part and the style of text on it.
pub fn draw_progress_bar_fn(
    out: &mut Vec<Draw>,
    bound: Rect,
    fraction: crate::unit::traits::Fraction,
    color: Color,
) -> (r: (Rect, Style))
    ensures
        draw_views(final(out)@) == draw_views(old(out)@) + bar_draws(
            bound,
            fraction.numerator as int,
            fraction.denominator as int,
            color,
        ),
        r.0 == bar_rect(bound, fraction.numerator as int, fraction.denominator as int),
        r.1 == bar_style(bound, color),
{
    if bound.width == 0 {
        assert(draw_views(out@) =~= draw_views(old(out)@) + Seq::<DrawView>::empty());
        return (Rect::default(), Style::default());
    }
    let fractional_progress_rect = Rect { width: fraction.of_rounded_up(bound.width), ..bound };
    fill_background(out, fractional_progress_rect, color);
    assert(draw_views(out@) =~= draw_views(old(out)@) + bar_draws(
        bound,
        fraction.numerator as int,
        fraction.denominator as int,
        color,
    ));
    (fractional_progress_rect, Style::default().bg(color).fg(Color::Black))
}

/// The widest text of a progress among the first `lines` lines, in
/// grapheme clusters.
pub open spec fn label_width(
    entries: Seq<(Key, TaskSnapshot)>,
    rates: Seq<Option<display::Throughput>>,
    offset: u16,
    lines: int,
) -> usize
    decreases lines,
{
    if lines <= 0 {
        0
    } else {
        let before = label_width(entries, rates, offset, lines - 1);
        let i = offset + lines - 1;
        match entries[i].1.progress {
            Some(p) => {
                let width = graphemes_in(progress_text(Some(p), 0, rate_at(rates, i)));
                if width > before {
                    width as usize
                } else {
                    before
                }
            },
            None => before,
        }
    }
}

/// The columns that the name of the group `task` takes: its width, a column
/// per level and the spacing around it.
pub open spec fn title_columns(key: Key, task: TaskSnapshot) -> u16 {
    capped_sum(
        capped_sum(block_width_of(task.name@), key@.len() as u16),
        TITLE_SPACING,
    )
}

/// The widest name of a group among the first `lines` lines, with its
/// spacing.
pub open spec fn title_width(entries: Seq<(Key, TaskSnapshot)>, offset: u16, lines: int) -> u16
    decreases lines,
{
    if lines <= 0 {
        0
    } else {
        let before = title_width(entries, offset, lines - 1);
        let i = offset + lines - 1;
        if entries[i].1.progress is None {
            larger(before, title_columns(entries[i].0, entries[i].1))
        } else {
            before
        }
    }
}

/// The color of a bar: red for a task that makes no progress, green for
/// one that has four fifths or more done, and yellow below that.
pub open spec fn bar_color(p: Progress, done_at: usize) -> Color {
    if is_stuck(p.state) {
        Color::Red
    } else if done_at == 0 || p.step * 100 >= done_at * 80 {
        Color::Green
    } else {
        Color::Yellow
    }
}

/// The name of a group as it stands in the middle of its line: a dot per
/// level in front of it.
pub open spec fn title_text(key: Key, task: TaskSnapshot) -> Seq<char> {
    seq![' '] + repeated('\u{2027}', key@.len()) + seq![' '] + task.name@ + seq![' ']
}

/// Where the name of a group stands on the line `line`: in the middle of
/// what is left beside the widest name.
pub open spec fn center_rect(line: Rect, column_line_width: u16, max_title_width: u16) -> Rect {
    intersected(
        Rect {
            x: capped_sum(
                capped_sum(line.x, column_line_width),
                (left_of(line.width, max_title_width) / 2) as u16,
            ),
            width: max_title_width,
            ..line
        },
        line,
    )
}

/// What the pane draws for a progress with a bound: its bar, and on it the
/// text and what is said of a task that makes no progress.
pub open spec fn bounded_draws(rect: Rect, text: Seq<char>, p: Progress, done_at: usize, now: Time)
    -> Seq<DrawView> {
    let color = bar_color(p, done_at);
    bar_draws(rect, p.step as int, done_at as int, color) + seq![
        DrawView::TextUntil {
            bound: rect,
            text: text + block_eta_text(p.state, now),
            until: bar_rect(rect, p.step as int, done_at as int).right_edge(),
            style: bar_style(rect, color),
            other: Style::plain(),
        },
    ]
}

/// What the pane draws for a progress without a bound: the text and what is
/// said of a task that makes no progress, and a spinner behind the widest
/// text.
pub open spec fn unbounded_draws(
    on: Rect,
    rect: Rect,
    text: Seq<char>,
    p: Progress,
    max_label_width: usize,
    now: Time,
    line: int,
) -> Seq<DrawView> {
    seq![DrawView::Text { bound: rect, text: text + block_eta_text(p.state, now), style: None }]
        + spinner_draws(
        moved_right(on, (max_label_width % 0x1_0000) as u16),
        p.step,
        line,
        if is_stuck(p.state) {
            Color::Red
        } else {
            Color::White
        },
    )
}

/// What the pane draws for a task that only groups others: a rule, and its
/// name in the middle.
pub open spec fn group_draws(
    on: Rect,
    rect: Rect,
    text: Seq<char>,
    key: Key,
    task: TaskSnapshot,
    column_line_width: u16,
    max_title_width: u16,
) -> Seq<DrawView> {
    seq![
        DrawView::Text { bound: rect, text, style: None },
        DrawView::Text {
            bound: center_rect(on, column_line_width, max_title_width),
            text: title_text(key, task),
            style: None,
        },
    ]
}

/// What the pane draws for the task on line `line`: the column line, and
/// then for a bounded progress its bar with the text on it, for an
/// unbounded one its text and a spinner behind the widest text, and for a
/// group a rule with its name in the middle.
pub open spec fn progress_line(
    entries: Seq<(Key, TaskSnapshot)>,
    rates: Seq<Option<display::Throughput>>,
    bound: Rect,
    column_line_width: u16,
    offset: u16,
    max_label_width: usize,
    max_title_width: u16,
    now: Time,
    line: int,
) -> Seq<DrawView> {
    let (key, task) = entries[offset + line];
    let on = line_of(bound, line);
    let text = seq![' '] + progress_text(
        task.progress,
        left_of(bound.width, TITLE_SPACING),
        rate_at(rates, offset + line),
    );
    let rect = moved_right(on, column_line_width);
    seq![DrawView::Text { bound: on, text: VERTICAL_LINE@, style: None }] + (
    match task.progress {
        Some(p) => match p.done_at {
            Some(done_at) => bounded_draws(rect, text, p, done_at, now),
            None => unbounded_draws(on, rect, text, p, max_label_width, now, line),
        },
        None => group_draws(on, rect, text, key, task, column_line_width, max_title_width),
    })
}

/// What the pane draws for the tasks on its first `lines` lines.
pub open spec fn progress_lines(
    entries: Seq<(Key, TaskSnapshot)>,
    rates: Seq<Option<display::Throughput>>,
    bound: Rect,
    column_line_width: u16,
    offset: u16,
    max_label_width: usize,
    max_title_width: u16,
    now: Time,
    lines: int,
) -> Seq<DrawView>
    decreases lines,
{
    if lines <= 0 {
        Seq::empty()
    } else {
        progress_lines(
            entries,
            rates,
            bound,
            column_line_width,
            offset,
            max_label_width,
            max_title_width,
            now,
            lines - 1,
        ) + progress_line(
            entries,
            rates,
            bound,
            column_line_width,
            offset,
            max_label_width,
            max_title_width,
            now,
            lines - 1,
        )
    }
}

/// What the pane draws for all tasks that are on display from `offset` on.
pub open spec fn progress_draws(
    entries: Seq<(Key, TaskSnapshot)>,
    rates: Seq<Option<display::Throughput>>,
    bound: Rect,
    draw_column_line: bool,
    offset: u16,
    now: Time,
) -> Seq<DrawView> {
    let lines = visible(entries.len() as int, offset, bound.height);
    progress_lines(
        entries,
        rates,
        bound,
        column_line(draw_column_line),
        offset,
        label_width(entries, rates, offset, lines),
        title_width(entries, offset, lines),
        now,
        lines,
    )
}

/// The widest text of a progress and the widest name of a group among the
/// tasks on display.
fn widths(
    entries: &[(Key, TaskSnapshot)],
    rates: &Vec<Option<display::Throughput>>,
    offset: u16,
    lines: usize,
) -> (r: (usize, u16))
    requires
        lines == 0 || offset + lines <= entries@.len(),
    ensures
        r.0 == label_width(entries@, rates@, offset, lines as int),
        r.1 == title_width(entries@, offset, lines as int),
{
    let len = entries.len();
    let mut max_label: usize = 0;
    let mut max_title: u16 = 0;
    let mut line: usize = 0;
    while line < lines
        invariant
            line <= lines,
            len == entries@.len(),
            lines == 0 || offset + lines <= len,
            max_label == label_width(entries@, rates@, offset, line as int),
            max_title == title_width(entries@, offset, line as int),
        decreases lines - line,
    {
        let i = offset as usize + line;
        let entry = &entries[i];
        match &entry.1.progress {
            Some(_) => {
                let mut text = String::new();
                format_progress(&mut text, &entry.1.progress, 0, rate_of(rates, i));
                assert(text@ =~= progress_text(entry.1.progress, 0, rate_at(rates@, i as int)));
                let width = grapheme_count(text.as_str());
                if width > max_label {
                    max_label = width;
                }
            },
            None => {
                let width = block_width(entry.1.name.as_str()).saturating_add(
                    entry.0.level() as u16,
                ).saturating_add(TITLE_SPACING);
                if width > max_title {
                    max_title = width;
                }
            },
        }
        line = line + 1;
    }
    (max_label, max_title)
}

/// Draws a progress with a bound.
fn draw_bounded(
    out: &mut Vec<Draw>,
    rect: Rect,
    progress_text: String,
    p: &Progress,
    fraction: Fraction,
    now: Time,
)
    requires
        p.done_at is Some,
        fraction == (Fraction {
            numerator: p.step as u64,
            denominator: p.done_at.unwrap() as u64,
        }),
    ensures
        draw_views(final(out)@) == draw_views(old(out)@) + bounded_draws(
            rect,
            progress_text@,
            *p,
            p.done_at.unwrap(),
            now,
        ),
{
    let mut text = progress_text;
    add_block_eta(p.state, now, &mut text);
    let color = if stuck(&p.state) {
        Color::Red
    } else if fraction.is_at_least(80) {
        Color::Green
    } else {
        Color::Yellow
    };
    let (bar, style) = draw_progress_bar_fn(out, rect, fraction, color);
    draw_text_nowrap_until(out, rect, text, bar.right(), style, Style::default());
    assert(draw_views(out@) =~= draw_views(old(out)@) + bounded_draws(
        rect,
        progress_text@,
        *p,
        p.done_at.unwrap(),
        now,
    ));
}

/// Draws a progress without a bound.
fn draw_unbounded(
    out: &mut Vec<Draw>,
    on: Rect,
    rect: Rect,
    progress_text: String,
    p: &Progress,
    max_label_width: usize,
    now: Time,
    line: usize,
)
    ensures
        draw_views(final(out)@) == draw_views(old(out)@) + unbounded_draws(
            on,
            rect,
            progress_text@,
            *p,
            max_label_width,
            now,
            line as int,
        ),
{
    let mut text = progress_text;
    add_block_eta(p.state, now, &mut text);
    draw_text_nowrap(out, rect, text, None);
    let bar_rect = offset_x(on, (max_label_width % 0x1_0000) as u16);
    draw_spinner(
        out,
        bar_rect,
        p.step,
        line,
        if stuck(&p.state) {
            Color::Red
        } else {
            Color::White
        },
    );
    assert(draw_views(out@) =~= draw_views(old(out)@) + unbounded_draws(
        on,
        rect,
        progress_text@,
        *p,
        max_label_width,
        now,
        line as int,
    ));
}

/// Draws a task that only groups others.
fn draw_group(
    out: &mut Vec<Draw>,
    on: Rect,
    rect: Rect,
    progress_text: String,
    key: &Key,
    task: &TaskSnapshot,
    column_line_width: u16,
    max_title_width: u16,
)
    ensures
        draw_views(final(out)@) == draw_views(old(out)@) + group_draws(
            on,
            rect,
            progress_text@,
            *key,
            *task,
            column_line_width,
            max_title_width,
        ),
{
    let center = intersect(
        Rect {
            x: on.x.saturating_add(column_line_width).saturating_add(
                on.width.saturating_sub(max_title_width) / 2,
            ),
            width: max_title_width,
            ..on
        },
        on,
    );
    let mut title = String::new();
    push_char(&mut title, ' ');
    push_repeated(&mut title, '\u{2027}', key.level() as usize);
    push_char(&mut title, ' ');
    push_str(&mut title, task.name.as_str());
    push_char(&mut title, ' ');
    assert(title@ =~= title_text(*key, *task));
    draw_text_nowrap(out, rect, progress_text, None);
    draw_text_nowrap(out, center, title, None);
    assert(draw_views(out@) =~= draw_views(old(out)@) + group_draws(
        on,
        rect,
        progress_text@,
        *key,
        *task,
        column_line_width,
        max_title_width,
    ));
}

/// Draws the progress of the task on line `line`.
fn draw_progress_line(
    out: &mut Vec<Draw>,
    entries: &[(Key, TaskSnapshot)],
    rates: &Vec<Option<display::Throughput>>,
    bound: Rect,
    column_line_width: u16,
    offset: u16,
    max_label_width: usize,
    max_title_width: u16,
    now: Time,
    line: usize,
)
    requires
        offset + line < entries@.len(),
    ensures
        draw_views(final(out)@) == draw_views(old(out)@) + progress_line(
            entries@,
            rates@,
            bound,
            column_line_width,
            offset,
            max_label_width,
            max_title_width,
            now,
            line as int,
        ),
{
    let len = entries.len();
    let i = offset as usize + line;
    let entry = &entries[i];
    let key = &entry.0;
    let task = &entry.1;
    let on = line_bound(bound, line);
    let mut progress_text = String::new();
    push_char(&mut progress_text, ' ');
    format_progress(
        &mut progress_text,
        &task.progress,
        bound.width.saturating_sub(TITLE_SPACING),
        rate_of(rates, i),
    );
    draw_text_nowrap(out, on, VERTICAL_LINE.to_owned(), None);
    let progress_rect = offset_x(on, column_line_width);
    match &task.progress {
        Some(p) => match p.fraction() {
            Some(fraction) => {
                draw_bounded(out, progress_rect, progress_text, p, fraction, now);
            },
            None => {
                draw_unbounded(
                    out,
                    on,
                    progress_rect,
                    progress_text,
                    p,
                    max_label_width,
                    now,
                    line,
                );
            },
        },
        None => {
            draw_group(
                out,
                on,
                progress_rect,
                progress_text,
                key,
                task,
                column_line_width,
                max_title_width,
            );
        },
    }
    assert(draw_views(out@) =~= draw_views(old(out)@) + progress_line(
        entries@,
        rates@,
        bound,
        column_line_width,
        offset,
        max_label_width,
        max_title_width,
        now,
        line as int,
    ));
}

/// The width of the line between the tree and the progress.
pub open spec fn column_line(draw_column_line: bool) -> u16 {
    if draw_column_line {
        1
    } else {
        0
    }
}

/// Draws the progress of the tasks that are on display from `offset` on,
/// one per row of `bound`, at the time `now`. `rates` holds the throughput
/// of each task, in the order of the tasks.
pub fn draw_progress(
    out: &mut Vec<Draw>,
    entries: &[(Key, TaskSnapshot)],
    rates: &Vec<Option<display::Throughput>>,
    bound: Rect,
    draw_column_line: bool,
    offset: u16,
    now: Time,
)
    ensures
        draw_views(final(out)@) == draw_views(old(out)@) + progress_draws(
            entries@,
            rates@,
            bound,
            draw_column_line,
            offset,
            now,
        ),
{
    let column_line_width: u16 = if draw_column_line {
        1
    } else {
        0
    };
    let len = entries.len();
    let lines = visible_count(len, offset, bound.height);
    let (max_label, max_title) = widths(entries, rates, offset, lines);
    let mut line: usize = 0;
    assert(draw_views(out@) =~= draw_views(old(out)@) + progress_lines(
        entries@,
        rates@,
        bound,
        column_line_width,
        offset,
        max_label,
        max_title,
        now,
        0,
    ));
    while line < lines
        invariant
            line <= lines,
            len == entries@.len(),
            lines == 0 || offset + lines <= len,
            draw_views(out@) == draw_views(old(out)@) + progress_lines(
                entries@,
                rates@,
                bound,
                column_line_width,
                offset,
                max_label,
                max_title,
                now,
                line as int,
            ),
        decreases lines - line,
    {
        draw_progress_line(
            out,
            entries,
            rates,
            bound,
            column_line_width,
            offset,
            max_label,
            max_title,
            now,
            line,
        );
        assert(draw_views(out@) =~= draw_views(old(out)@) + (progress_lines(
            entries@,
            rates@,
            bound,
            column_line_width,
            offset,
            max_label,
            max_title,
            now,
            line as int,
        ) + progress_line(
            entries@,
            rates@,
            bound,
            column_line_width,
            offset,
            max_label,
            max_title,
            now,
            line as int,
        )));
        line = line + 1;
    }
}

/// The number of parts into which the progress of a task is divided when
/// the progress of several tasks is averaged.
pub const PARTS: u64 = 1_000_000;

/// The millionths of its work that a task has done: none for a group or an
/// unbounded progress, all for one that is done at zero or beyond its
/// bound.
pub open spec fn parts_done(task: TaskSnapshot) -> int {
    match task.progress {
        Some(p) => match p.done_at {
            Some(done_at) => if done_at == 0 || p.step >= done_at {
                PARTS as int
            } else {
                p.step * PARTS / (done_at as int)
            },
            None => 0,
        },
        None => 0,
    }
}

/// True if the task `i` is not on display when `shown` tasks are shown
/// from `offset` on.
pub open spec fn is_hidden(i: int, offset: u16, shown: u16) -> bool {
    i < offset || i >= offset + shown
}

/// How many of the first `n` tasks are not on display, and the millionths
/// that they have done together.
pub open spec fn hidden(entries: Seq<(Key, TaskSnapshot)>, offset: u16, shown: u16, n: int) -> (
    int,
    int,
)
    decreases n,
{
    if n <= 0 {
        (0, 0)
    } else {
        let (count, parts) = hidden(entries, offset, shown, n - 1);
        if is_hidden(n - 1, offset, shown) {
            (count + 1, parts + parts_done(entries[n - 1].1))
        } else {
            (count, parts)
        }
    }
}

/// The millionths that the tasks which are not on display have done on
/// average.
pub open spec fn hidden_average(entries: Seq<(Key, TaskSnapshot)>, offset: u16, shown: u16) -> int {
    let (count, parts) = hidden(entries, offset, shown, entries.len() as int);
    if count == 0 {
        0
    } else {
        parts / count
    }
}

/// What the line below the tasks says: how many tasks are scrolled out at
/// the top and how many follow.
pub open spec fn overflow_label(len: int, label_offset: u16, shown: u16, offset: u16) -> Seq<
    char,
> {
    (if label_offset == 0 {
        Seq::empty()
    } else {
        VERTICAL_LINE@
    }) + " \u{2026}"@ + decimal(offset as nat) + " skipped and "@ + decimal(
        (if len > offset + shown + 1 {
            len - (offset + shown + 1)
        } else {
            0
        }) as nat,
    ) + " more"@
}

/// The keys that scroll the tasks.
pub open spec fn scroll_help() -> Seq<char> {
    "\u{21ca} = d|\u{2193} = j|\u{21c8} = u|\u{2191} = k "@
}

/// What the line below the tasks draws: a bar of the average progress of
/// the tasks that are not on display in green on red, the count of these
/// tasks on the left and the keys that scroll on the right.
pub open spec fn overflow_draws(
    entries: Seq<(Key, TaskSnapshot)>,
    bound: Rect,
    label_offset: u16,
    shown: u16,
    offset: u16,
) -> Seq<DrawView> {
    let average = hidden_average(entries, offset, shown);
    let bar = bar_rect(bound, average, PARTS as int);
    let style = bar_style(bound, Color::Green);
    let other = Style { background: Some(Color::Red), ..style };
    bar_draws(bound, average, PARTS as int, Color::Green) + seq![
        DrawView::Fill {
            bound: moved_right(bound, left_of(bar.right_edge(), 1)),
            color: Color::Red,
        },
        DrawView::TextUntil {
            bound: moved_right(bound, label_offset),
            text: overflow_label(entries.len() as int, label_offset, shown, offset),
            until: bar.right_edge(),
            style,
            other,
        },
        DrawView::TextUntil {
            bound: snapped_to_right(bound, block_width_of(scroll_help())),
            text: scroll_help(),
            until: bar.right_edge(),
            style,
            other,
        },
    ]
}

/// The millionths of its work that `task` has done.
fn parts_of(task: &TaskSnapshot) -> (r: u64)
    ensures
        r == parts_done(*task),
        r <= PARTS,
{
    match &task.progress {
        Some(p) => match p.done_at {
            Some(done_at) => if done_at == 0 || p.step >= done_at {
                PARTS
            } else {
                assert(p.step * PARTS <= 0xFFFF_FFFF_FFFF_FFFF * 1_000_000) by (nonlinear_arith)
                    requires
                        0 <= p.step <= 0xFFFF_FFFF_FFFF_FFFF,
                        PARTS == 1_000_000,
                ;
                let scaled: u128 = (p.step as u128) * (PARTS as u128) / (done_at as u128);
                assert(scaled <= PARTS) by (nonlinear_arith)
                    requires
                        scaled as int == (p.step as int) * (PARTS as int) / (done_at as int),
                        0 <= p.step < done_at,
                        PARTS == 1_000_000,
                ;
                scaled as u64
            },
            None => 0,
        },
        None => 0,
    }
}

/// Draws the line below the tasks, which stands for the tasks that are not
/// among the `num_entries_on_display` tasks shown from `offset` on.
pub fn draw_overflow(
    out: &mut Vec<Draw>,
    entries: &[(Key, TaskSnapshot)],
    bound: Rect,
    label_offset: u16,
    num_entries_on_display: u16,
    offset: u16,
)
    ensures
        draw_views(final(out)@) == draw_views(old(out)@) + overflow_draws(
            entries@,
            bound,
            label_offset,
            num_entries_on_display,
            offset,
        ),
{
    let mut count: usize = 0;
    let mut parts: u128 = 0;
    let mut i: usize = 0;
    while i < entries.len()
        invariant
            i <= entries.len(),
            count <= i,
            parts <= count * PARTS,
            (count as int, parts as int) == hidden(
                entries@,
                offset,
                num_entries_on_display,
                i as int,
            ),
        decreases entries.len() - i,
    {
        assert((count + 1) * PARTS == count * PARTS + PARTS) by (nonlinear_arith);
        assert(count * PARTS <= 0xFFFF_FFFF_FFFF_FFFF * 1_000_000) by (nonlinear_arith)
            requires
                0 <= count <= 0xFFFF_FFFF_FFFF_FFFF,
                PARTS == 1_000_000,
        ;
        if i < offset as usize || i >= offset as usize + num_entries_on_display as usize {
            count = count + 1;
            parts = parts + parts_of(&entries[i].1) as u128;
        }
        i = i + 1;
    }
    let average: u64 = if count == 0 {
        0
    } else {
        let mean = parts / (count as u128);
        assert(mean <= PARTS) by (nonlinear_arith)
            requires
                mean as int == (parts as int) / (count as int),
                parts <= count * PARTS,
                count > 0,
                PARTS == 1_000_000,
        ;
        mean as u64
    };
    let ghost start = draw_views(out@);
    let mut label = String::new();
    if label_offset != 0 {
        push_str(&mut label, VERTICAL_LINE);
    }
    push_str(&mut label, " \u{2026}");
    push_decimal(&mut label, offset as u128);
    push_str(&mut label, " skipped and ");
    let after = offset as usize + num_entries_on_display as usize + 1;
    push_decimal(&mut label, entries.len().saturating_sub(after) as u128);
    push_str(&mut label, " more");
    assert(label@ =~= overflow_label(
        entries@.len() as int,
        label_offset,
        num_entries_on_display,
        offset,
    ));
    let (progress_rect, style) = draw_progress_bar_fn(
        out,
        bound,
        Fraction { numerator: average, denominator: PARTS },
        Color::Green,
    );
    let bg_color = Color::Red;
    fill_background(out, offset_x(bound, progress_rect.right().saturating_sub(1)), bg_color);
    draw_text_nowrap_until(
        out,
        offset_x(bound, label_offset),
        label,
        progress_rect.right(),
        style,
        style.bg(bg_color),
    );
    let help_text = "\u{21ca} = d|\u{2193} = j|\u{21c8} = u|\u{2191} = k ";
    draw_text_nowrap_until(
        out,
        snap_to_right(bound, block_width(help_text)),
        help_text.to_owned(),
        progress_rect.right(),
        style,
        style.bg(bg_color),
    );
    assert(draw_views(out@) =~= start + overflow_draws(
        entries@,
        bound,
        label_offset,
        num_entries_on_display,
        offset,
    ));
}

/// How many of the first `n` tasks run, how many make no progress, and how
/// many only group others.
pub open spec fn counted(entries: Seq<(Key, TaskSnapshot)>, n: int) -> (int, int, int)
    decreases n,
{
    if n <= 0 {
        (0, 0, 0)
    } else {
        let (running, blocked, groups) = counted(entries, n - 1);
        match entries[n - 1].1.progress {
            Some(p) => if is_stuck(p.state) {
                (running, blocked + 1, groups)
            } else {
                (running + 1, blocked, groups)
            },
            None => (running, blocked, groups + 1),
        }
    }
}

/// `n` in decimal, after spaces if it has fewer than three digits.
pub open spec fn three_wide(n: nat) -> Seq<char> {
    if n < 10 {
        seq![' ', ' '] + decimal(n)
    } else if n < 100 {
        seq![' '] + decimal(n)
    } else {
        decimal(n)
    }
}

/// Appends `n` in decimal, after spaces if it has fewer than three digits.
fn push_three_wide(w: &mut String, n: usize)
    ensures
        final(w)@ == old(w)@ + three_wide(n as nat),
{
    if n < 10 {
        push_str(w, "  ");
        proof {
            reveal_strlit("  ");
        }
        assert("  "@ =~= seq![' ', ' ']);
    } else if n < 100 {
        push_char(w, ' ');
    }
    push_decimal(w, n as u128);
    assert(w@ =~= old(w)@ + three_wide(n as nat));
}

/// What the headline says of quitting.
pub open spec fn interrupt_hint(interrupt_mode: InterruptDrawInfo) -> Seq<char> {
    match interrupt_mode {
        InterruptDrawInfo::Instantly => "'q' or CTRL+c to quit"@,
        InterruptDrawInfo::Deferred(interrupt_requested) => if interrupt_requested {
            "interrupt requested - please wait"@
        } else {
            "cannot interrupt current operation"@
        },
    }
}

/// What the headline says: how to quit, how often a frame is drawn and the
/// time of this one if frames are more than a second apart, and how many
/// tasks run, make no progress or group others.
#[verifier::opaque]
pub open spec fn headline_text(
    entries: Seq<(Key, TaskSnapshot)>,
    interrupt_mode: InterruptDrawInfo,
    duration_per_frame: Duration,
    now: Time,
) -> Seq<char> {
    let (running, blocked, groups) = counted(entries, entries.len() as int);
    seq![' '] + interrupt_hint(interrupt_mode) + seq![' '] + (if duration_per_frame@
        > 1_000_000_000 {
        " Every "@ + decimal(duration_per_frame@ / 1_000_000_000) + "s \u{2192} "@
            + date_time_text(now)
    } else {
        Seq::empty()
    }) + seq![' '] + three_wide(running as nat) + " running + "@ + three_wide(blocked as nat)
        + " blocked + "@ + three_wide(groups as nat) + " groups = "@ + decimal(entries.len())
        + seq![' ']
}

/// Where the headline stands and what it says.
pub open spec fn headline_draw(
    entries: Seq<(Key, TaskSnapshot)>,
    interrupt_mode: InterruptDrawInfo,
    duration_per_frame: Duration,
    now: Time,
    bound: Rect,
) -> DrawView {
    let text = headline_text(entries, interrupt_mode, duration_per_frame, now);
    DrawView::Text {
        bound: snapped_to_right(bound, capped_sum(block_width_of(text), 1)),
        text,
        style: None,
    }
}

/// Draws the headline at the right end of `bound`, at the time `now`.
pub fn headline(
    out: &mut Vec<Draw>,
    entries: &[(Key, TaskSnapshot)],
    interrupt_mode: InterruptDrawInfo,
    duration_per_frame: Duration,
    now: Time,
    bound: Rect,
)
    ensures
        draw_views(final(out)@) == draw_views(old(out)@).push(
            headline_draw(entries@, interrupt_mode, duration_per_frame, now, bound),
        ),
{
    let mut running: usize = 0;
    let mut blocked: usize = 0;
    let mut groups: usize = 0;
    let mut i: usize = 0;
    while i < entries.len()
        invariant
            i <= entries.len(),
            running + blocked + groups == i,
            (running as int, blocked as int, groups as int) == counted(entries@, i as int),
        decreases entries.len() - i,
    {
        match &entries[i].1.progress {
            Some(p) => {
                if stuck(&p.state) {
                    blocked = blocked + 1;
                } else {
                    running = running + 1;
                }
            },
            None => {
                groups = groups + 1;
            },
        }
        i = i + 1;
    }
    let mut text = String::new();
    push_char(&mut text, ' ');
    push_str(
        &mut text,
        match interrupt_mode {
            InterruptDrawInfo::Instantly => "'q' or CTRL+c to quit",
            InterruptDrawInfo::Deferred(interrupt_requested) => if interrupt_requested {
                "interrupt requested - please wait"
            } else {
                "cannot interrupt current operation"
            },
        },
    );
    push_char(&mut text, ' ');
    if crate::time::Duration::from_secs(1).shorter_than(&duration_per_frame) {
        push_str(&mut text, " Every ");
        push_decimal(&mut text, duration_per_frame.as_secs() as u128);
        push_str(&mut text, "s \u{2192} ");
        let clock = date_time_column(now);
        push_str(&mut text, clock.as_str());
    }
    push_char(&mut text, ' ');
    push_three_wide(&mut text, running);
    push_str(&mut text, " running + ");
    push_three_wide(&mut text, blocked);
    push_str(&mut text, " blocked + ");
    push_three_wide(&mut text, groups);
    push_str(&mut text, " groups = ");
    push_decimal(&mut text, entries.len() as u128);
    push_char(&mut text, ' ');
    assert(text@ =~= headline_text(entries@, interrupt_mode, duration_per_frame, now)) by {
        reveal(headline_text);
    }
    let place = snap_to_right(bound, block_width(text.as_str()).saturating_add(1));
    draw_text_nowrap(out, place, text, None);
}

/// True if a line below the tasks tells of tasks that are not on display:
/// there are more tasks than rows, or tasks are scrolled out at the top.
pub open spec fn overflows(len: int, height: u16, offset: u16) -> bool {
    len > height || (offset > 0 && len % 0x1_0000 > 0)
}

/// The rows for tasks in a pane of `height` rows.
pub open spec fn task_rows(len: int, height: u16, offset: u16) -> u16 {
    if overflows(len, height, sanitized_offset(offset, len, height)) {
        left_of(height, 1)
    } else {
        height
    }
}

/// The offset of the tasks after the pane has made sure that no row stays
/// empty.
pub open spec fn pane_offset(len: int, height: u16, offset: u16) -> u16 {
    sanitized_offset(sanitized_offset(offset, len, height), len, task_rows(len, height, offset))
}

/// The width that the tree gets: what the frame before found, or half of
/// the pane.
pub open spec fn desired_tree_width(next: Option<u16>, bound: Rect) -> u16 {
    match next {
        Some(width) => width,
        None => bound.width / 2,
    }
}

/// What the pane of tasks draws into `area` when it shows the tasks from
/// `offset` on: the tree in `desired` columns if these are enough for it,
/// the progress beside it, and, if `with_overflow` is set, a line for the
/// tasks that are not on display.
pub open spec fn content_draws(
    entries: Seq<(Key, TaskSnapshot)>,
    rates: Seq<Option<display::Throughput>>,
    area: Rect,
    offset: u16,
    desired: u16,
    with_overflow: bool,
    now: Time,
) -> Seq<DrawView> {
    (if desired >= MIN_TREE_WIDTH {
        tree_lines(
            entries,
            Rect { width: desired, ..area },
            offset,
            visible(entries.len() as int, offset, area.height),
        )
    } else {
        Seq::empty()
    }) + progress_draws(entries, rates, moved_right(area, desired), desired != 0, offset, now) + (
    if with_overflow {
        overflow_draws(
            entries,
            Rect { y: capped_sum(area.height, 1), height: 1, ..area },
            desired,
            area.height,
            offset,
        )
    } else {
        Seq::empty()
    })
}

/// What the pane of tasks draws into `bound`: nothing without tasks, and
/// else the tasks from the offset at which no row stays empty, in the rows
/// that a line for tasks which are not on display leaves.
#[verifier::opaque]
pub open spec fn pane_draws(
    entries: Seq<(Key, TaskSnapshot)>,
    rates: Seq<Option<display::Throughput>>,
    bound: Rect,
    task_offset: u16,
    next_tree_column_width: Option<u16>,
    now: Time,
) -> Seq<DrawView> {
    let len = entries.len() as int;
    if len == 0 {
        Seq::empty()
    } else {
        content_draws(
            entries,
            rates,
            Rect { height: task_rows(len, bound.height, task_offset), ..bound },
            pane_offset(len, bound.height, task_offset),
            desired_tree_width(next_tree_column_width, bound),
            overflows(len, bound.height, sanitized_offset(task_offset, len, bound.height)),
            now,
        )
    }
}

/// Draws the tasks from `offset` on into `area`, and returns the width of
/// the widest text of the tree if the tree is drawn.
fn draw_content(
    out: &mut Vec<Draw>,
    entries: &[(Key, TaskSnapshot)],
    rates: &Vec<Option<display::Throughput>>,
    area: Rect,
    offset: u16,
    desired: u16,
    with_overflow: bool,
    now: Time,
) -> (r: Option<u16>)
    ensures
        draw_views(final(out)@) == draw_views(old(out)@) + content_draws(
            entries@,
            rates@,
            area,
            offset,
            desired,
            with_overflow,
            now,
        ),
        r == if desired >= MIN_TREE_WIDTH {
            Some(
                tree_width(
                    entries@,
                    offset,
                    visible(entries@.len() as int, offset, area.height),
                ),
            )
        } else {
            None
        },
{
    let ghost start = draw_views(out@);
    let computed = if desired >= MIN_TREE_WIDTH {
        let tree_bound = Rect { width: desired, ..area };
        Some(draw_tree(out, entries, tree_bound, offset))
    } else {
        assert(draw_views(out@) =~= start + Seq::<DrawView>::empty());
        None
    };
    draw_progress(out, entries, rates, offset_x(area, desired), desired != 0, offset, now);
    let ghost drawn = draw_views(out@);
    if with_overflow {
        let overflow_rect = Rect { y: area.height.saturating_add(1), height: 1, ..area };
        draw_overflow(out, entries, overflow_rect, desired, area.height, offset);
    } else {
        assert(draw_views(out@) =~= drawn + Seq::<DrawView>::empty());
    }
    assert(draw_views(out@) =~= start + content_draws(
        entries@,
        rates@,
        area,
        offset,
        desired,
        with_overflow,
        now,
    ));
    computed
}

/// The width that the tree is noted to have taken once the pane of tasks is
/// drawn into `bound`: that of the widest tree prefix on display, half the
/// pane where the tree is not drawn for want of room, and the width noted
/// before, `last`, where there is no task.
pub open spec fn pane_tree_width(
    entries: Seq<(Key, TaskSnapshot)>,
    bound: Rect,
    task_offset: u16,
    next: Option<u16>,
    last: Option<u16>,
) -> Option<u16> {
    let offset = pane_offset(entries.len() as int, bound.height, task_offset);
    if entries.len() == 0 {
        last
    } else if desired_tree_width(next, bound) >= MIN_TREE_WIDTH {
        Some(
            tree_width(
                entries,
                offset,
                visible(
                    entries.len() as int,
                    offset,
                    task_rows(entries.len() as int, bound.height, task_offset),
                ),
            ),
        )
    } else {
        Some((bound.width / 2) as u16)
    }
}

/// Draws the pane of tasks into `bound` at the time `now`, and keeps the
/// offset of the tasks within what can be shown. `rates` holds the
/// throughput of each task, in the order of the tasks.
pub fn pane(
    out: &mut Vec<Draw>,
    entries: &[(Key, TaskSnapshot)],
    rates: &Vec<Option<display::Throughput>>,
    bound: Rect,
    state: &mut State,
    now: Time,
)
    ensures
        draw_views(final(out)@) == draw_views(old(out)@) + pane_draws(
            entries@,
            rates@,
            bound,
            old(state).task_offset,
            old(state).next_tree_column_width,
            now,
        ),
        final(state).task_offset == pane_offset(
            entries@.len() as int,
            bound.height,
            old(state).task_offset,
        ),
        final(state).last_tree_column_width == pane_tree_width(
            entries@,
            bound,
            old(state).task_offset,
            old(state).next_tree_column_width,
            old(state).last_tree_column_width,
        ),
        final(state).title == old(state).title,
        final(state).message_offset == old(state).message_offset,
        final(state).widest_origin == old(state).widest_origin,
        final(state).hide_messages == old(state).hide_messages,
        final(state).messages_fullscreen == old(state).messages_fullscreen,
        final(state).user_provided_window_size == old(state).user_provided_window_size,
        final(state).duration_per_frame == old(state).duration_per_frame,
        final(state).information == old(state).information,
        final(state).hide_info == old(state).hide_info,
        final(state).maximize_info == old(state).maximize_info,
        final(state).next_tree_column_width == old(state).next_tree_column_width,
        final(state).throughput == old(state).throughput,
{
    reveal(pane_draws);
    let (rows, offset, needs_overflow_line) = arrange(
        entries.len(),
        bound.height,
        state.task_offset,
    );
    state.task_offset = offset;
    if entries.len() == 0 {
        assert(draw_views(out@) =~= draw_views(old(out)@) + Seq::<DrawView>::empty());
        return ;
    }
    let initial_column_width = bound.width / 2;
    let desired_max_tree_draw_width = match state.next_tree_column_width {
        Some(width) => width,
        None => initial_column_width,
    };
    let computed = draw_content(
        out,
        entries,
        rates,
        Rect { height: rows, ..bound },
        offset,
        desired_max_tree_draw_width,
        needs_overflow_line,
        now,
    );
    state.last_tree_column_width = match computed {
        Some(width) => Some(width),
        None => Some(initial_column_width),
    };
}

/// The rows for tasks in a pane of `height` rows, the offset at which no row
/// stays empty, and whether a line tells of tasks that are not on display.
fn arrange(len: usize, height: u16, task_offset: u16) -> (r: (u16, u16, bool))
    ensures
        r.0 == task_rows(len as int, height, task_offset),
        r.1 == pane_offset(len as int, height, task_offset),
        r.2 == overflows(
            len as int,
            height,
            sanitized_offset(task_offset, len as int, height),
        ),
{
    let first = sanitize_offset(task_offset, len, height);
    let scrolled = if first < (len % 0x1_0000) as u16 {
        first
    } else {
        (len % 0x1_0000) as u16
    };
    let needs_overflow_line = len > height as usize || scrolled > 0;
    let rows = if needs_overflow_line {
        height.saturating_sub(1)
    } else {
        height
    };
    (rows, sanitize_offset(first, len, rows), needs_overflow_line)
}

} // verus!
