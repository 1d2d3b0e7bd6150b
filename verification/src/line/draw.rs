//! What the line renderer prints in one frame.
use crate::key::{Key, Level};
use crate::messages::{views, Message, MessageCopyState, MessageLevel, MessageView};
use crate::progress::{Progress, State as ProgressState, TaskSnapshot};
use crate::style::{
    block_count_sans_ansi_codes, blocks_of, plain, token_views, Brush, Color, Style, Token,
    TokenView,
};
use crate::text::{
    decimal, display_width, push_decimal, push_repeated, push_str, repeated, unicode_width,
};
use crate::throughput::Throughput;
use crate::time::{time_column, time_of_day_text, Time};
use crate::tree::{is_sorted_snapshot, Root};
use crate::unit::display;
use crate::unit::display::What;
use std::collections::VecDeque;
use vstd::prelude::*;

verus! {

/// What the renderer keeps from frame to frame.
#[derive(Debug)]
pub struct State {
    /// The tasks of the last snapshot.
    pub tree: Vec<(Key, TaskSnapshot)>,
    /// The messages that the last frame printed.
    pub messages: Vec<Message>,
    /// Where the next read of messages goes on.
    pub for_next_copy: Option<MessageCopyState>,
    /// The widest origin of a message so far.
    pub max_message_origin_size: usize,
    /// The amount of blocks per line we have written last time.
    pub blocks_per_line: VecDeque<u16>,
    /// Amount of times we drew so far.
    pub ticks: usize,
    /// The estimates of speed, if they are wanted.
    pub throughput: Option<Throughput>,
}

impl Default for State {
    fn default() -> (r: Self)
        ensures
            r.tree@.len() == 0,
            r.messages@.len() == 0,
            r.for_next_copy.is_none(),
            r.max_message_origin_size == 0,
            r.blocks_per_line@.len() == 0,
            r.ticks == 0,
            r.throughput.is_none(),
    {
        State {
            tree: Vec::new(),
            messages: Vec::new(),
            for_next_copy: None,
            max_message_origin_size: 0,
            blocks_per_line: VecDeque::new(),
            ticks: 0,
            throughput: None,
        }
    }
}

/// How the renderer draws.
#[derive(Copy, Clone, Debug)]
pub struct Options {
    /// The first and the last level whose tasks are shown; all levels if
    /// unset.
    pub level_filter: Option<(Level, Level)>,
    /// The number of columns of the terminal.
    pub column_count: u16,
    /// Whether a frame without tasks is drawn rather than refused.
    pub keep_running_if_progress_is_empty: bool,
    /// Whether the output is a terminal, on which progress is drawn.
    pub output_is_terminal: bool,
    /// Whether colors are used.
    pub colored: bool,
    /// Whether a message starts with its time.
    pub timestamp: bool,
    /// Whether the cursor is hidden while the renderer runs.
    pub hide_cursor: bool,
}

/// Something to put on the output.
#[derive(Clone, PartialEq, Eq, Debug)]
pub enum Command {
    /// The tokens, then `pad` spaces, then the end of the line.
    Line { tokens: Vec<Token>, pad: u16 },
    /// The cursor moves up by so many lines.
    MoveUp(u16),
}

/// Something to put on the output, as a mathematical value.
pub enum CommandView {
    Line { tokens: Seq<TokenView>, pad: u16 },
    MoveUp(u16),
}

impl View for Command {
    type V = CommandView;

    open spec fn view(&self) -> CommandView {
        match self {
            Command::Line { tokens, pad } => CommandView::Line {
                tokens: token_views(tokens@),
                pad: *pad,
            },
            Command::MoveUp(lines) => CommandView::MoveUp(*lines),
        }
    }
}

/// The commands of `s` as mathematical values.
pub open spec fn command_views(s: Seq<Command>) -> Seq<CommandView> {
    Seq::new(s.len(), |i: int| s[i]@)
}

/// The color in which a message of `level` is written.
pub open spec fn color_of(level: MessageLevel) -> Color {
    match level {
        MessageLevel::Info => Color::White,
        MessageLevel::Success => Color::Green,
        MessageLevel::Failure => Color::Red,
    }
}

/// The color in which a message of `level` is written.
pub fn to_color(level: MessageLevel) -> (r: Color)
    ensures
        r == color_of(level),
{
    match level {
        MessageLevel::Info => Color::White,
        MessageLevel::Success => Color::Green,
        MessageLevel::Failure => Color::Red,
    }
}

/// `text` in `style` if colors are used, else plain.
pub open spec fn painted(colored: bool, style: Style, text: Seq<char>) -> TokenView {
    TokenView {
        style: if colored {
            style
        } else {
            Style::plain()
        },
        text,
    }
}

/// The tokens of a message: a space, the time of day where it is wanted,
/// the origin after `fill` spaces, and the message in the color of its
/// level.
pub open spec fn message_line(m: MessageView, colored: bool, timestamp: bool, fill: nat) -> Seq<
    TokenView,
> {
    let color = color_of(m.level);
    (if timestamp {
        seq![
            plain(" "@),
            painted(
                colored,
                Style {
                    foreground: Some(color),
                    background: Some(Color::Yellow),
                    dimmed: true,
                    ..Style::plain()
                },
                time_of_day_text(m.time),
            ),
            plain(" "@),
        ]
    } else {
        seq![plain(" "@), plain(""@)]
    }) + seq![
        painted(
            colored,
            Style { dimmed: true, ..Style::plain() },
            repeated(' ', fill) + m.origin,
        ),
        plain(" "@),
        painted(
            colored,
            Style { foreground: Some(color), bold: true, ..Style::plain() },
            m.message,
        ),
    ]
}

/// The tokens of `message` with the origin after `fill` spaces.
pub fn message_tokens(message: &Message, colored: bool, timestamp: bool, fill: usize) -> (r: Vec<
    Token,
>)
    ensures
        token_views(r@) == message_line(message@, colored, timestamp, fill as nat),
{
    let mut brush = Brush::new(colored);
    let color = to_color(message.level);
    let mut tokens: Vec<Token> = Vec::with_capacity(6);
    tokens.push(Token::from_str(" "));
    if timestamp {
        brush.style(color.dimmed().on(Color::Yellow));
        tokens.push(brush.paint(time_column(message.time)));
        tokens.push(Token::from_str(" "));
    } else {
        tokens.push(Token::from_str(""));
    }
    let mut origin = String::new();
    push_repeated(&mut origin, ' ', fill);
    push_str(&mut origin, message.origin.as_str());
    assert(origin@ =~= repeated(' ', fill as nat) + message.origin@);
    brush.style(Style::new().dimmed());
    tokens.push(brush.paint(origin));
    tokens.push(Token::from_str(" "));
    brush.style(color.bold());
    tokens.push(brush.paint(message.message.clone()));
    assert(token_views(tokens@) =~= message_line(message@, colored, timestamp, fill as nat));
    tokens
}

/// The spaces that cover what the frame before left behind a line that is
/// now `current` columns wide and was `before` columns wide.
pub open spec fn overdraw(before: u16, current: u16) -> u16 {
    if before > current {
        (before - current) as u16
    } else {
        0
    }
}

/// Ends the line of `tokens` and covers what the frame before left behind
/// it. Returns the width of the tokens, which together with the padding is
/// no less than the width of the line before.
pub fn newline_with_overdraw(
    out: &mut Vec<Command>,
    tokens: Vec<Token>,
    blocks_in_last_iteration: u16,
) -> (r: u16)
    ensures
        r == blocks_of(token_views(tokens@)),
        command_views(final(out)@) == command_views(old(out)@).push(
            CommandView::Line {
                tokens: token_views(tokens@),
                pad: overdraw(blocks_in_last_iteration, r),
            },
        ),
        r + overdraw(blocks_in_last_iteration, r) >= blocks_in_last_iteration,
{
    let current_block_count = block_count_sans_ansi_codes(&tokens);
    let pad = if blocks_in_last_iteration > current_block_count {
        blocks_in_last_iteration - current_block_count
    } else {
        0
    };
    out.push(Command::Line { tokens, pad });
    assert(command_views(out@) =~= command_views(old(out)@).push(
        CommandView::Line {
            tokens: token_views(tokens@),
            pad: overdraw(blocks_in_last_iteration, current_block_count),
        },
    ));
    current_block_count
}

/// The widest origin among `messages` and `so_far`, in terminal columns.
pub open spec fn widest_origin(messages: Seq<MessageView>, so_far: usize) -> usize
    decreases messages.len(),
{
    if messages.len() == 0 {
        so_far
    } else {
        let before = widest_origin(messages.drop_last(), so_far);
        let width = display_width(messages.last().origin);
        if width > before {
            width as usize
        } else {
            before
        }
    }
}

/// The width that the frame before drew on line `i`, or nothing.
pub open spec fn drawn_before(blocks: Seq<u16>, i: int) -> u16 {
    if 0 <= i < blocks.len() {
        blocks[i]
    } else {
        0
    }
}

/// The line of the message `i`: its origin is aligned with the widest
/// origin up to it, and the line covers what the frame before drew there.
pub open spec fn message_command(
    messages: Seq<MessageView>,
    blocks: Seq<u16>,
    so_far: usize,
    colored: bool,
    timestamp: bool,
    i: int,
) -> CommandView {
    let widest = widest_origin(messages.subrange(0, i + 1), so_far);
    let tokens = message_line(
        messages[i],
        colored,
        timestamp,
        (widest - display_width(messages[i].origin)) as nat,
    );
    CommandView::Line { tokens, pad: overdraw(drawn_before(blocks, i), blocks_of(tokens)) }
}

/// The lines of all messages.
pub open spec fn message_lines(
    messages: Seq<MessageView>,
    blocks: Seq<u16>,
    so_far: usize,
    colored: bool,
    timestamp: bool,
) -> Seq<CommandView> {
    Seq::new(
        messages.len(),
        |i: int| message_command(messages, blocks, so_far, colored, timestamp, i),
    )
}

/// What is left of the widths of the frame before when the first `lines`
/// of them are used up.
pub open spec fn left_over(blocks: Seq<u16>, lines: nat) -> Seq<u16> {
    if lines >= blocks.len() {
        Seq::empty()
    } else {
        blocks.skip(lines as int)
    }
}

/// Prints the messages of `state`, one line each, over the first lines of
/// the frame before.
pub fn messages(out: &mut Vec<Command>, state: &mut State, colored: bool, timestamp: bool)
    ensures
        command_views(final(out)@) == command_views(old(out)@) + message_lines(
            views(old(state).messages@),
            old(state).blocks_per_line@,
            old(state).max_message_origin_size,
            colored,
            timestamp,
        ),
        final(state).max_message_origin_size == widest_origin(
            views(old(state).messages@),
            old(state).max_message_origin_size,
        ),
        final(state).blocks_per_line@ == left_over(
            old(state).blocks_per_line@,
            old(state).messages@.len(),
        ),
        final(state).tree == old(state).tree,
        final(state).messages == old(state).messages,
        final(state).for_next_copy == old(state).for_next_copy,
        final(state).ticks == old(state).ticks,
        final(state).throughput == old(state).throughput,
{
    let ghost all = views(state.messages@);
    let ghost blocks = state.blocks_per_line@;
    let ghost so_far = state.max_message_origin_size;
    let mut i: usize = 0;
    assert(all.subrange(0, 0) =~= Seq::empty());
    assert(command_views(out@) =~= command_views(old(out)@) + message_lines(
        all,
        blocks,
        so_far,
        colored,
        timestamp,
    ).subrange(0, 0));
    assert(left_over(blocks, 0) =~= blocks);
    while i < state.messages.len()
        invariant
            i <= state.messages.len(),
            all == views(state.messages@),
            state.messages == old(state).messages,
            state.tree == old(state).tree,
            state.for_next_copy == old(state).for_next_copy,
            state.ticks == old(state).ticks,
            state.throughput == old(state).throughput,
            blocks == old(state).blocks_per_line@,
            so_far == old(state).max_message_origin_size,
            state.max_message_origin_size == widest_origin(all.subrange(0, i as int), so_far),
            state.blocks_per_line@ == left_over(blocks, i as nat),
            command_views(out@) == command_views(old(out)@) + message_lines(
                all,
                blocks,
                so_far,
                colored,
                timestamp,
            ).subrange(0, i as int),
        decreases state.messages.len() - i,
    {
        let previous = match state.blocks_per_line.pop_front() {
            Some(blocks_drawn) => blocks_drawn,
            None => 0,
        };
        assert(previous == drawn_before(blocks, i as int));
        assert(state.blocks_per_line@ =~= left_over(blocks, (i + 1) as nat));
        let message = &state.messages[i];
        let message_block_len = unicode_width(message.origin.as_str());
        let ghost upto = all.subrange(0, i + 1);
        assert(upto.drop_last() =~= all.subrange(0, i as int));
        assert(upto.last() == message@);
        if message_block_len > state.max_message_origin_size {
            state.max_message_origin_size = message_block_len;
        }
        let tokens = message_tokens(
            message,
            colored,
            timestamp,
            state.max_message_origin_size - message_block_len,
        );
        newline_with_overdraw(out, tokens, previous);
        i = i + 1;
        assert(command_views(out@) =~= command_views(old(out)@) + message_lines(
            all,
            blocks,
            so_far,
            colored,
            timestamp,
        ).subrange(0, i as int));
    }
    assert(all.subrange(0, i as int) =~= all);
    assert(message_lines(all, blocks, so_far, colored, timestamp).subrange(0, i as int)
        =~= message_lines(all, blocks, so_far, colored, timestamp));
}

/// The number of shapes that the spinner of an unbounded progress goes
/// through.
pub const SPINNER_SHAPES: usize = 29;

/// The shape of the spinner at position `index` of its cycle.
pub open spec fn spinner_shape(index: int) -> char {
    let i = index % 29;
    if i == 0 || i == 1 {
        '\u{2801}'
    } else if i == 2 || i == 26 {
        '\u{2809}'
    } else if i == 3 {
        '\u{2819}'
    } else if i == 4 {
        '\u{281a}'
    } else if i == 5 || i == 8 || i == 20 || i == 23 {
        '\u{2812}'
    } else if i == 6 || i == 7 {
        '\u{2802}'
    } else if i == 9 {
        '\u{2832}'
    } else if i == 10 {
        '\u{2834}'
    } else if i == 11 || i == 14 || i == 17 {
        '\u{2824}'
    } else if i == 12 || i == 13 {
        '\u{2804}'
    } else if i == 15 || i == 16 {
        '\u{2820}'
    } else if i == 18 {
        '\u{2826}'
    } else if i == 19 {
        '\u{2816}'
    } else if i == 21 || i == 22 {
        '\u{2810}'
    } else if i == 24 {
        '\u{2813}'
    } else if i == 25 {
        '\u{280b}'
    } else {
        '\u{2808}'
    }
}

/// The shape of the spinner at position `index` of its cycle.
pub fn spinner_char(index: usize) -> (r: char)
    ensures
        r == spinner_shape(index as int),
{
    let i = index % 29;
    if i == 0 || i == 1 {
        '\u{2801}'
    } else if i == 2 || i == 26 {
        '\u{2809}'
    } else if i == 3 {
        '\u{2819}'
    } else if i == 4 {
        '\u{281a}'
    } else if i == 5 || i == 8 || i == 20 || i == 23 {
        '\u{2812}'
    } else if i == 6 || i == 7 {
        '\u{2802}'
    } else if i == 9 {
        '\u{2832}'
    } else if i == 10 {
        '\u{2834}'
    } else if i == 11 || i == 14 || i == 17 {
        '\u{2824}'
    } else if i == 12 || i == 13 {
        '\u{2804}'
    } else if i == 15 || i == 16 {
        '\u{2820}'
    } else if i == 18 {
        '\u{2826}'
    } else if i == 19 {
        '\u{2816}'
    } else if i == 21 || i == 22 {
        '\u{2810}'
    } else if i == 24 {
        '\u{2813}'
    } else if i == 25 {
        '\u{280b}'
    } else {
        '\u{2808}'
    }
}

/// How many shapes a spinner of `width` columns shows at tick `ticks`: one
/// per column, as long as ticks can be counted.
pub open spec fn spinner_len(ticks: usize, width: u16) -> nat {
    if width <= usize::MAX - ticks {
        width as nat
    } else {
        (usize::MAX - ticks) as nat
    }
}

/// The spinner of an unbounded progress at tick `ticks`: the shapes of its
/// cycle from `ticks` on, the latest first.
pub open spec fn spinner(ticks: usize, width: u16) -> Seq<char> {
    let n = spinner_len(ticks, width);
    Seq::new(n, |i: int| spinner_shape(ticks + (n - 1 - i)))
}

/// The style of the bar of a progress: green for a running task that has
/// more than four fifths done, yellow below that, white if it is unbounded,
/// and red for a task that is halted or blocked.
pub open spec fn style_of(p: Progress) -> Style {
    match p.state {
        ProgressState::Running => match p.done_at {
            Some(done_at) => if done_at == 0 || p.step * 100 > done_at * 80 {
                Style { foreground: Some(Color::Green), ..Style::plain() }
            } else {
                Style { foreground: Some(Color::Yellow), ..Style::plain() }
            },
            None => Style { foreground: Some(Color::White), ..Style::plain() },
        },
        ProgressState::Halted(_, _) => Style {
            foreground: Some(Color::Red),
            dimmed: true,
            ..Style::plain()
        },
        ProgressState::Blocked(_, _) => Style { foreground: Some(Color::Red), ..Style::plain() },
    }
}

/// The style of the bar of a progress.
pub fn progress_style(p: &Progress) -> (r: Style)
    ensures
        r == style_of(*p),
{
    match p.state {
        ProgressState::Running => match p.fraction() {
            Some(fraction) => if fraction.is_more_than(80) {
                Color::Green.normal()
            } else {
                Color::Yellow.normal()
            },
            None => Color::White.normal(),
        },
        ProgressState::Halted(_, _) => Color::Red.dimmed(),
        ProgressState::Blocked(_, _) => Color::Red.normal(),
    }
}

/// The width of the inside of a bar that has `blocks_available` columns
/// for itself and its brackets.
pub open spec fn bar_width(blocks_available: u16) -> u16 {
    if blocks_available >= 4 {
        (blocks_available - 4) as u16
    } else {
        0
    }
}

/// The tokens of a progress bar: between brackets, either the part that is
/// done as `=`, a `>` and the rest as spaces, or a spinner if the progress
/// is unbounded.
pub open spec fn progress_bar(
    p: Progress,
    style: Style,
    colored: bool,
    ticks: usize,
    blocks_available: u16,
) -> Seq<TokenView> {
    let width = bar_width(blocks_available);
    seq![plain(" ["@)] + (match p.done_at {
        Some(done_at) => {
            let done = crate::progress::share_of(width as int, p.step as int, done_at as int);
            seq![
                painted(colored, style, repeated('=', done as nat)),
                plain(">"@),
                painted(colored, style, repeated(' ', (width - done) as nat)),
            ]
        },
        None => seq![painted(colored, style, spinner(ticks, width))],
    }) + seq![plain("]"@)]
}

/// Appends a progress bar of `blocks_available` columns to `buf`.
pub fn draw_progress_bar(
    p: &Progress,
    style: Style,
    colored: bool,
    ticks: usize,
    blocks_available: u16,
    buf: &mut Vec<Token>,
)
    ensures
        token_views(final(buf)@) == token_views(old(buf)@) + progress_bar(
            *p,
            style,
            colored,
            ticks,
            blocks_available,
        ),
{
    let mut brush = Brush::new(colored);
    brush.style(style);
    let width = blocks_available.saturating_sub(4);
    let ghost start = token_views(buf@);
    buf.push(Token::from_str(" ["));
    match p.fraction() {
        Some(fraction) => {
            let progress_blocks = fraction.of(width);
            let mut done = String::new();
            push_repeated(&mut done, '=', progress_blocks as usize);
            let mut rest = String::new();
            push_repeated(&mut rest, ' ', (width - progress_blocks) as usize);
            buf.push(brush.paint(done));
            buf.push(Token::from_str(">"));
            buf.push(brush.paint(rest));
        },
        None => {
            let n: usize = if (width as usize) <= usize::MAX - ticks {
                width as usize
            } else {
                usize::MAX - ticks
            };
            let mut bar = String::new();
            let mut i: usize = 0;
            assert(bar@ =~= spinner(ticks, width).subrange(0, 0));
            while i < n
                invariant
                    i <= n,
                    n == spinner_len(ticks, width),
                    n <= usize::MAX - ticks,
                    bar@ == spinner(ticks, width).subrange(0, i as int),
                decreases n - i,
            {
                crate::text::push_char(&mut bar, spinner_char(ticks + (n - 1 - i)));
                i = i + 1;
                assert(bar@ =~= spinner(ticks, width).subrange(0, i as int));
            }
            assert(bar@ =~= spinner(ticks, width));
            buf.push(brush.paint(bar));
        },
    }
    buf.push(Token::from_str("]"));
    assert(token_views(buf@) =~= start + progress_bar(*p, style, colored, ticks, blocks_available));
}

/// The step of a progress and the step at which it is done, as plain
/// numbers.
pub open spec fn steps_text(p: Progress) -> Seq<char> {
    match p.done_at {
        Some(done_at) => decimal(p.step as nat) + " / "@ + decimal(done_at as nat),
        None => decimal(p.step as nat),
    }
}

/// What a line of progress begins with: the name after one space per level,
/// the steps, and the unit if there is one.
pub open spec fn progress_front(
    key: Key,
    name: Seq<char>,
    p: Progress,
    colored: bool,
    throughput: Option<display::Throughput>,
) -> Seq<TokenView> {
    seq![
        plain(repeated(' ', key@.len())),
        painted(
            colored,
            Style { foreground: Some(Color::Cyan), bold: true, ..Style::plain() },
            name,
        ),
        plain(" "@),
        painted(colored, Style { dimmed: true, ..Style::plain() }, steps_text(p)),
    ] + (match p.unit {
        Some(unit) => seq![
            plain(" "@),
            plain(
                display::display_text(
                    &unit.kind(),
                    unit.mode(),
                    What::Unit,
                    p.step,
                    p.done_at,
                    throughput,
                ),
            ),
        ],
        None => Seq::empty(),
    })
}

/// The columns that are left of `column_count` after `front`.
pub open spec fn blocks_left(column_count: u16, front: Seq<TokenView>) -> u16 {
    if column_count > blocks_of(front) {
        (column_count - blocks_of(front)) as u16
    } else {
        0
    }
}

/// The tokens of the line of a task: a task with progress shows its name,
/// its steps, its unit and, where columns are left, a bar; a task that only
/// groups others shows its name.
pub open spec fn progress_line(
    key: Key,
    value: TaskSnapshot,
    ticks: usize,
    column_count: u16,
    colored: bool,
    throughput: Option<display::Throughput>,
) -> Seq<TokenView> {
    match value.progress {
        Some(p) => {
            let front = progress_front(key, value.name@, p, colored, throughput);
            let left = blocks_left(column_count, front);
            if left > 0 {
                front + progress_bar(p, style_of(p), colored, ticks, left)
            } else {
                front
            }
        },
        None => seq![
            plain(repeated(' ', key@.len())),
            painted(
                colored,
                Style { foreground: Some(Color::White), bold: true, ..Style::plain() },
                value.name@,
            ),
        ],
    }
}

/// Replaces the content of `buf` by the tokens of the line of a task.
pub fn format_progress(
    key: &Key,
    value: &TaskSnapshot,
    ticks: usize,
    column_count: u16,
    colored: bool,
    throughput: Option<display::Throughput>,
    buf: &mut Vec<Token>,
)
    ensures
        token_views(final(buf)@) == progress_line(
            *key,
            *value,
            ticks,
            column_count,
            colored,
            throughput,
        ),
{
    let mut brush = Brush::new(colored);
    buf.clear();
    let mut indent = String::new();
    push_repeated(&mut indent, ' ', key.level() as usize);
    assert(indent@ =~= repeated(' ', key@.len()));
    buf.push(Token::plain(indent));
    match &value.progress {
        Some(progress) => {
            let style = progress_style(progress);
            brush.style(Color::Cyan.bold());
            buf.push(brush.paint(value.name.clone()));
            buf.push(Token::from_str(" "));
            let mut steps = String::new();
            push_decimal(&mut steps, progress.step as u128);
            match progress.done_at {
                Some(done_at) => {
                    push_str(&mut steps, " / ");
                    push_decimal(&mut steps, done_at as u128);
                },
                None => {},
            }
            assert(steps@ =~= steps_text(*progress));
            brush.style(Style::new().dimmed());
            buf.push(brush.paint(steps));
            match &progress.unit {
                Some(unit) => {
                    buf.push(Token::from_str(" "));
                    let shown = unit.display(progress.step, progress.done_at, throughput).unit();
                    buf.push(Token::plain(shown.to_text()));
                },
                None => {},
            }
            assert(token_views(buf@) =~= progress_front(
                *key,
                value.name@,
                *progress,
                colored,
                throughput,
            ));
            let left = column_count.saturating_sub(block_count_sans_ansi_codes(buf));
            if left > 0 {
                draw_progress_bar(progress, style, colored, ticks, left, buf);
            }
        },
        None => {
            brush.style(Color::White.bold());
            buf.push(brush.paint(value.name.clone()));
            assert(token_views(buf@) =~= progress_line(
                *key,
                *value,
                ticks,
                column_count,
                colored,
                throughput,
            ));
        },
    }
}

/// True if tasks of `level` are shown under the filter `range`.
pub open spec fn in_range(range: Option<(Level, Level)>, level: int) -> bool {
    match range {
        Some((first, last)) => first <= level <= last,
        None => true,
    }
}

/// True if tasks of `level` are shown under the filter `range`.
pub fn is_in_range(range: &Option<(Level, Level)>, level: Level) -> (r: bool)
    ensures
        r == in_range(*range, level as int),
{
    match range {
        Some((first, last)) => *first <= level && level <= *last,
        None => true,
    }
}

/// The throughput of the task `i`, if `rates` holds one for it.
pub open spec fn rate_at(rates: Seq<Option<display::Throughput>>, i: int) -> Option<
    display::Throughput,
> {
    if 0 <= i < rates.len() {
        rates[i]
    } else {
        None
    }
}

/// What the frame before drew where the first `n` tasks are drawn now, and
/// what they take now: line by line, the commands and the widths.
pub open spec fn progress_lines(
    tree: Seq<(Key, TaskSnapshot)>,
    rates: Seq<Option<display::Throughput>>,
    config: Options,
    blocks: Seq<u16>,
    ticks: usize,
    n: int,
) -> (Seq<CommandView>, Seq<u16>)
    decreases n,
{
    if n <= 0 {
        (Seq::empty(), Seq::empty())
    } else {
        let (lines, widths) = progress_lines(tree, rates, config, blocks, ticks, n - 1);
        let (key, value) = tree[n - 1];
        if in_range(config.level_filter, key@.len() as int) {
            let tokens = progress_line(
                key,
                value,
                ticks,
                config.column_count,
                config.colored,
                rate_at(rates, n - 1),
            );
            (
                lines.push(
                    CommandView::Line {
                        tokens,
                        pad: overdraw(drawn_before(blocks, widths.len() as int), blocks_of(tokens)),
                    },
                ),
                widths.push(blocks_of(tokens)),
            )
        } else {
            (lines, widths)
        }
    }
}

/// Lines of nothing but spaces over the lines `from` and on of the frame
/// before.
pub open spec fn wipes(blocks: Seq<u16>, from: int) -> Seq<CommandView> {
    if 0 <= from < blocks.len() {
        Seq::new(
            (blocks.len() - from) as nat,
            |i: int| CommandView::Line { tokens: Seq::empty(), pad: blocks[from + i] },
        )
    } else {
        Seq::empty()
    }
}

/// The number of lines to go back up after `lines` lines of progress on
/// top of a frame of `before` lines: the larger of both, as far as sixteen
/// bits hold it.
pub open spec fn way_up(before: int, lines: int) -> u16 {
    (if before > lines {
        before % 0x1_0000
    } else {
        lines % 0x1_0000
    }) as u16
}

/// What one frame prints: the messages, and on a terminal the lines of the
/// tasks that pass the filter, spaces over the lines that the frame before
/// drew further down, and the way back up.
pub open spec fn frame_commands(
    tree: Seq<(Key, TaskSnapshot)>,
    messages: Seq<MessageView>,
    blocks: Seq<u16>,
    widest: usize,
    ticks: usize,
    config: Options,
    rates: Seq<Option<display::Throughput>>,
) -> Seq<CommandView> {
    let rest = left_over(blocks, messages.len());
    let (lines, widths) = progress_lines(tree, rates, config, rest, ticks, tree.len() as int);
    message_lines(messages, blocks, widest, config.colored, config.timestamp) + (
    if config.output_is_terminal {
        lines + wipes(rest, lines.len() as int) + seq![
            CommandView::MoveUp(way_up(rest.len() as int, lines.len() as int)),
        ]
    } else {
        Seq::empty()
    })
}

/// The widths that a frame leaves for the next one.
pub open spec fn frame_widths(
    tree: Seq<(Key, TaskSnapshot)>,
    messages: Seq<MessageView>,
    blocks: Seq<u16>,
    ticks: usize,
    config: Options,
    rates: Seq<Option<display::Throughput>>,
) -> Seq<u16> {
    let rest = left_over(blocks, messages.len());
    if config.output_is_terminal {
        progress_lines(tree, rates, config, rest, ticks, tree.len() as int).1
    } else {
        rest
    }
}

/// The count of frames after one more frame; it starts over after the
/// largest number.
pub open spec fn next_tick(ticks: usize) -> usize {
    if ticks == usize::MAX {
        0
    } else {
        (ticks + 1) as usize
    }
}

/// Draws one frame of what `state` holds: tasks, messages and the widths of
/// the frame before. `rates` holds the throughput of each task, in the order
/// of the tasks.
pub fn frame(state: &mut State, config: &Options, rates: &Vec<Option<display::Throughput>>) -> (r:
    Vec<Command>)
    ensures
        command_views(r@) == frame_commands(
            old(state).tree@,
            views(old(state).messages@),
            old(state).blocks_per_line@,
            old(state).max_message_origin_size,
            old(state).ticks,
            *config,
            rates@,
        ),
        final(state).blocks_per_line@ == frame_widths(
            old(state).tree@,
            views(old(state).messages@),
            old(state).blocks_per_line@,
            old(state).ticks,
            *config,
            rates@,
        ),
        final(state).max_message_origin_size == widest_origin(
            views(old(state).messages@),
            old(state).max_message_origin_size,
        ),
        final(state).ticks == next_tick(old(state).ticks),
        final(state).tree == old(state).tree,
        final(state).messages == old(state).messages,
        final(state).for_next_copy == old(state).for_next_copy,
        final(state).throughput == old(state).throughput,
{
    let mut out: Vec<Command> = Vec::new();
    assert(command_views(out@) =~= Seq::empty());
    messages(&mut out, state, config.colored, config.timestamp);
    let ghost said = command_views(out@);
    let ghost rest = state.blocks_per_line@;
    let ghost tree = state.tree@;
    let ticks = state.ticks;
    if config.output_is_terminal {
        let mut next: VecDeque<u16> = VecDeque::new();
        let mut i: usize = 0;
        assert(command_views(out@) =~= said + Seq::<CommandView>::empty());
        while i < state.tree.len()
            invariant
                i <= state.tree.len(),
                state.tree@ == tree,
                state.blocks_per_line@ == rest,
                state.ticks == ticks,
                state.messages == old(state).messages,
                state.for_next_copy == old(state).for_next_copy,
                state.throughput == old(state).throughput,
                state.tree == old(state).tree,
                state.max_message_origin_size == widest_origin(
                    views(old(state).messages@),
                    old(state).max_message_origin_size,
                ),
                command_views(out@) == said + progress_lines(
                    tree,
                    rates@,
                    *config,
                    rest,
                    ticks,
                    i as int,
                ).0,
                next@ == progress_lines(tree, rates@, *config, rest, ticks, i as int).1,
                progress_lines(tree, rates@, *config, rest, ticks, i as int).0.len() == next@.len(),
                next@.len() <= i,
            decreases state.tree.len() - i,
        {
            let entry = &state.tree[i];
            if is_in_range(&config.level_filter, entry.0.level()) {
                let rate = if i < rates.len() {
                    rates[i]
                } else {
                    None
                };
                let mut tokens: Vec<Token> = Vec::new();
                format_progress(
                    &entry.0,
                    &entry.1,
                    ticks,
                    config.column_count,
                    config.colored,
                    rate,
                    &mut tokens,
                );
                let at = next.len();
                let previous = if at < state.blocks_per_line.len() {
                    state.blocks_per_line[at]
                } else {
                    0
                };
                let width = newline_with_overdraw(&mut out, tokens, previous);
                next.push_back(width);
            }
            i = i + 1;
            assert(command_views(out@) =~= said + progress_lines(
                tree,
                rates@,
                *config,
                rest,
                ticks,
                i as int,
            ).0);
        }
        let ghost lines = progress_lines(tree, rates@, *config, rest, ticks, tree.len() as int).0;
        let drawn = next.len();
        let ghost wiped = wipes(rest, drawn as int);
        assert(lines.len() == drawn);
        assert(command_views(out@) =~= said + lines + wiped.subrange(0, 0));
        let mut k: usize = drawn;
        if drawn < state.blocks_per_line.len() {
            while k < state.blocks_per_line.len()
                invariant
                    drawn <= k <= state.blocks_per_line.len(),
                    state.blocks_per_line@ == rest,
                    wiped == wipes(rest, drawn as int),
                    wiped.len() == rest.len() - drawn,
                    command_views(out@) == said + lines + wiped.subrange(0, k - drawn),
                decreases state.blocks_per_line.len() - k,
            {
                let ghost shown = command_views(out@);
                let tokens: Vec<Token> = Vec::new();
                assert(token_views(tokens@) =~= Seq::<TokenView>::empty());
                let pad = state.blocks_per_line[k];
                assert(wiped[k - drawn] == CommandView::Line { tokens: Seq::empty(), pad });
                out.push(Command::Line { tokens, pad });
                assert(command_views(out@) =~= shown.push(wiped[k - drawn]));
                assert(wiped.subrange(0, k + 1 - drawn) =~= wiped.subrange(0, k - drawn).push(
                    wiped[k - drawn],
                ));
                k = k + 1;
            }
            assert(wiped.subrange(0, k - drawn) =~= wiped);
        } else {
            assert(wiped =~= Seq::<CommandView>::empty());
            assert(wiped.subrange(0, 0) =~= wiped);
        }
        assert(command_views(out@) == said + lines + wiped);
        let before = state.blocks_per_line.len();
        let up = if before > drawn {
            before % 0x1_0000
        } else {
            drawn % 0x1_0000
        };
        out.push(Command::MoveUp(up as u16));
        state.blocks_per_line = next;
        assert(command_views(out@) =~= (said + lines + wiped).push(
            CommandView::MoveUp(way_up(rest.len() as int, lines.len() as int)),
        ));
        assert(command_views(out@) =~= said + (lines + wiped + seq![
            CommandView::MoveUp(way_up(rest.len() as int, lines.len() as int)),
        ]));
    } else {
        assert(command_views(out@) =~= said + Seq::<CommandView>::empty());
    }
    state.ticks = state.ticks.wrapping_add(1);
    out
}

/// The sign that a frame was refused because there is no task to show.
#[derive(Copy, Clone, PartialEq, Eq, Structural, Debug)]
pub struct ProgressEmpty;

/// The speed of each task of the snapshot in `state`, in the order of the
/// tasks, after the estimates took note of this frame at the time `now`.
/// Without estimates there is no speed.
pub fn rates(state: &mut State, now: Time) -> (r: Vec<Option<display::Throughput>>)
    requires
        crate::key::ascending(old(state).tree@),
    ensures
        r@ == crate::throughput::observed_speeds(old(state).throughput, old(state).tree@, now),
        r@.len() == old(state).tree@.len(),
        match old(state).throughput {
            Some(tp) => final(state).throughput is Some && final(state).throughput.unwrap()@
                == tp@.observed(old(state).tree@, now),
            None => final(state).throughput is None,
        },
        final(state).tree == old(state).tree,
        final(state).messages == old(state).messages,
        final(state).for_next_copy == old(state).for_next_copy,
        final(state).blocks_per_line == old(state).blocks_per_line,
        final(state).max_message_origin_size == old(state).max_message_origin_size,
        final(state).ticks == old(state).ticks,
{
    crate::throughput::observe(&mut state.throughput, state.tree.as_slice(), now)
}

/// True if the root holds no task.
pub open spec fn is_empty(root: Root) -> bool {
    forall|k: Key| !root.tasks().dom().contains(k)
}

/// The options under which a frame is drawn while progress is shown or
/// held back: progress that is held back is drawn as on an output that is
/// no terminal.
pub open spec fn effective(config: Options, show_progress: bool) -> Options {
    Options { output_is_terminal: config.output_is_terminal && show_progress, ..config }
}

/// Takes a snapshot of the tree and of its new messages into `state` and
/// draws a frame of them at the time `now`: always the messages, and the
/// progress if `show_progress` is set and the output is a terminal. A frame
/// of a tree without tasks is refused unless the options ask to keep
/// running.
pub fn all_at(
    root: &Root,
    show_progress: bool,
    state: &mut State,
    config: &Options,
    now: Time,
) -> (r: Result<Vec<Command>, ProgressEmpty>)
    ensures
        r is Err <==> !config.keep_running_if_progress_is_empty && is_empty(*root),
        is_sorted_snapshot(root.tasks(), final(state).tree@),
        r is Ok ==> command_views(r.unwrap()@) == frame_commands(
            final(state).tree@,
            views(final(state).messages@),
            old(state).blocks_per_line@,
            old(state).max_message_origin_size,
            old(state).ticks,
            effective(*config, show_progress),
            crate::throughput::observed_speeds(old(state).throughput, final(state).tree@, now),
        ),
        r is Ok ==> final(state).ticks == next_tick(old(state).ticks),
        r is Ok ==> final(state).blocks_per_line@ == frame_widths(
            final(state).tree@,
            views(final(state).messages@),
            old(state).blocks_per_line@,
            old(state).ticks,
            effective(*config, show_progress),
            crate::throughput::observed_speeds(old(state).throughput, final(state).tree@, now),
        ),
        r is Ok ==> final(state).max_message_origin_size == widest_origin(
            views(final(state).messages@),
            old(state).max_message_origin_size,
        ),
        r is Ok ==> match old(state).throughput {
            Some(tp) => final(state).throughput is Some && final(state).throughput.unwrap()@
                == tp@.observed(final(state).tree@, now),
            None => final(state).throughput is None,
        },
        r is Ok ==> views(final(state).messages@) == root.news_for(old(state).for_next_copy),
        r is Ok ==> final(state).for_next_copy is Some && final(state).for_next_copy.unwrap()@
            == root.messages().state(),
        r is Err ==> final(state).ticks == old(state).ticks && final(state).blocks_per_line
            == old(state).blocks_per_line && final(state).throughput == old(state).throughput,
        r is Err ==> final(state).for_next_copy == old(state).for_next_copy && final(state).messages
            == old(state).messages && final(state).max_message_origin_size == old(
            state,
        ).max_message_origin_size,
{
    root.sorted_snapshot(&mut state.tree);
    if !config.keep_running_if_progress_is_empty && state.tree.is_empty() {
        assert(is_empty(*root)) by {
            assert forall|k: Key| !root.tasks().dom().contains(k) by {
                if root.tasks().dom().contains(k) {
                    let i = choose|i: int|
                        0 <= i < state.tree@.len() && (#[trigger] state.tree@[i]).0 == k;
                }
            }
        }
        return Err(ProgressEmpty);
    }
    proof {
        if is_empty(*root) && state.tree@.len() > 0 {
            assert(root.tasks().dom().contains(state.tree@[0].0));
        }
    }
    let mut prev: Option<MessageCopyState> = None;
    core::mem::swap(&mut state.for_next_copy, &mut prev);
    let next = root.copy_new_messages_since(&mut state.messages, prev);
    state.for_next_copy = Some(next);
    let found = rates(state, now);
    let options = Options {
        level_filter: config.level_filter,
        column_count: config.column_count,
        keep_running_if_progress_is_empty: config.keep_running_if_progress_is_empty,
        output_is_terminal: config.output_is_terminal && show_progress,
        colored: config.colored,
        timestamp: config.timestamp,
        hide_cursor: config.hide_cursor,
    };
    let commands = frame(state, &options, &found);
    Ok(commands)
}

/// Takes a snapshot of the tree and of its new messages into `state` and
/// draws a frame of them at the time of the call.
pub fn all(root: &Root, show_progress: bool, state: &mut State, config: &Options) -> (r: Result<
    Vec<Command>,
    ProgressEmpty,
>)
    ensures
        r is Err <==> !config.keep_running_if_progress_is_empty && is_empty(*root),
        is_sorted_snapshot(root.tasks(), final(state).tree@),
        r is Ok ==> exists|now: Time| #[trigger]
            frame_commands(
                final(state).tree@,
                views(final(state).messages@),
                old(state).blocks_per_line@,
                old(state).max_message_origin_size,
                old(state).ticks,
                effective(*config, show_progress),
                crate::throughput::observed_speeds(old(state).throughput, final(state).tree@, now),
            ) == command_views(r.unwrap()@) && final(state).blocks_per_line@ == frame_widths(
                final(state).tree@,
                views(final(state).messages@),
                old(state).blocks_per_line@,
                old(state).ticks,
                effective(*config, show_progress),
                crate::throughput::observed_speeds(old(state).throughput, final(state).tree@, now),
            ) && match old(state).throughput {
                Some(tp) => final(state).throughput is Some && final(state).throughput.unwrap()@
                    == tp@.observed(final(state).tree@, now),
                None => final(state).throughput is None,
            },
        r is Ok ==> final(state).ticks == next_tick(old(state).ticks),
        r is Ok ==> final(state).max_message_origin_size == widest_origin(
            views(final(state).messages@),
            old(state).max_message_origin_size,
        ),
        r is Ok ==> views(final(state).messages@) == root.news_for(old(state).for_next_copy),
        r is Ok ==> final(state).for_next_copy is Some && final(state).for_next_copy.unwrap()@
            == root.messages().state(),
        r is Err ==> final(state).ticks == old(state).ticks && final(state).blocks_per_line
            == old(state).blocks_per_line && final(state).throughput == old(state).throughput,
        r is Err ==> final(state).for_next_copy == old(state).for_next_copy && final(state).messages
            == old(state).messages && final(state).max_message_origin_size == old(
            state,
        ).max_message_origin_size,
{
    all_at(root, show_progress, state, config, Time::now())
}

} // verus!
