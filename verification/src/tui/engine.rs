//! The decisions of the dashboard between frames: what an event changes,
//! when the dashboard ends, and what a frame takes in.
use crate::input::Key;
use crate::key::Key as TaskKey;
use crate::messages::{views, Message};
use crate::progress::TaskSnapshot;
use crate::throughput::{observe, Throughput};
use crate::time::{Duration, Time};
use crate::tree::{is_sorted_snapshot, Root};
use crate::tui::draw;
use crate::tui::draw::{Draw, InterruptDrawInfo, Line, State};
use crate::tui::layout::Rect;
use crate::unit::display;
use vstd::prelude::*;

verus! {

/// How the dashboard is set up.
#[derive(Clone, Debug)]
pub struct Options {
    /// The initial title to show for the whole window.
    pub title: String,
    /// The time from one frame to the next. The default is a tenth of a
    /// second.
    pub frame_interval: Duration,
    /// If true, (default false), the speed of tasks is estimated and shown
    /// by units that ask for it.
    pub throughput: bool,
    /// If set, recompute the column width of the task tree only every given
    /// frame. Otherwise the width will be recomputed every frame.
    pub recompute_column_width_every_nth_frame: Option<usize>,
    /// The initial window size. If unset, it will be retrieved from the
    /// current terminal.
    pub window_size: Option<Rect>,
    /// If true (default: true), we will stop running the dashboard once the
    /// progress isn't available anymore.
    pub stop_if_progress_missing: bool,
}

impl Default for Options {
    fn default() -> (r: Self)
        ensures
            r.title@ == "Progress Dashboard"@,
            r.frame_interval@ == 100_000_000,
            !r.throughput,
            r.recompute_column_width_every_nth_frame.is_none(),
            r.window_size.is_none(),
            r.stop_if_progress_missing,
    {
        Options {
            title: "Progress Dashboard".to_owned(),
            frame_interval: Duration::from_millis(100),
            throughput: false,
            recompute_column_width_every_nth_frame: None,
            window_size: None,
            stop_if_progress_missing: true,
        }
    }
}

/// How the dashboard answers a request to quit.
#[derive(Copy, Clone, PartialEq, Eq, Structural, Debug)]
pub enum Interrupt {
    /// Immediately exit the event loop when there is an interrupt request.
    ///
    /// This is how the event loop starts.
    Instantly,
    /// Instead of exiting the event loop instantly, wait until the next
    /// `Interrupt::Instantly` comes in.
    Deferred,
}

/// Something that the dashboard reacts to.
#[derive(Clone, Debug)]
pub enum Event {
    /// Draw a frame.
    Tick,
    /// A key was pressed, by the user or on the user's behalf.
    Input(Key),
    /// Change the size of the window to the given rectangle.
    SetWindowSize(Rect),
    /// Set the title of the progress dashboard.
    SetTitle(String),
    /// Provide a list of titles and lines to populate the side bar on the
    /// right.
    SetInformation(Vec<Line>),
    /// The way the dashboard will respond to interrupt requests.
    SetInterruptMode(Interrupt),
}

/// What the dashboard does after an event.
#[derive(Copy, Clone, PartialEq, Eq, Structural, Debug)]
pub enum Next {
    /// The dashboard ends.
    Quit,
    /// Nothing has changed and no frame is drawn.
    Skip,
    /// A frame is drawn.
    Redraw,
}

/// True if `key` asks to quit: escape, `q`, and `c` or `[` with control.
pub open spec fn is_quit_key(key: Key) -> bool {
    key == Key::Esc || key == Key::Char('q') || key == Key::Ctrl('c') || key == Key::Ctrl('[')
}

/// True if `key` asks to quit.
pub fn quits(key: &Key) -> (r: bool)
    ensures
        r == is_quit_key(*key),
{
    match key {
        Key::Esc => true,
        Key::Char(c) => *c == 'q',
        Key::Ctrl(c) => *c == 'c' || *c == '[',
        _ => false,
    }
}

/// `offset` moved by `by` lines, down if `down` is set and up otherwise,
/// as far as offsets go.
pub open spec fn scrolled(offset: u16, by: u16, down: bool) -> u16 {
    if down {
        if offset + by > u16::MAX {
            u16::MAX
        } else {
            (offset + by) as u16
        }
    } else if offset >= by {
        (offset - by) as u16
    } else {
        0
    }
}

/// The state of the dashboard after the key `c` was pressed, if the key
/// means something: keys toggle the panes and scroll tasks and messages.
pub open spec fn after_char(state: State, c: char) -> Option<State> {
    if c == '`' {
        Some(State { hide_messages: !state.hide_messages, ..state })
    } else if c == '~' {
        Some(State { messages_fullscreen: !state.messages_fullscreen, ..state })
    } else if c == 'J' {
        Some(State { message_offset: scrolled(state.message_offset, 1, true), ..state })
    } else if c == 'D' {
        Some(State { message_offset: scrolled(state.message_offset, 10, true), ..state })
    } else if c == 'j' {
        Some(State { task_offset: scrolled(state.task_offset, 1, true), ..state })
    } else if c == 'd' {
        Some(State { task_offset: scrolled(state.task_offset, 10, true), ..state })
    } else if c == 'K' {
        Some(State { message_offset: scrolled(state.message_offset, 1, false), ..state })
    } else if c == 'U' {
        Some(State { message_offset: scrolled(state.message_offset, 10, false), ..state })
    } else if c == 'k' {
        Some(State { task_offset: scrolled(state.task_offset, 1, false), ..state })
    } else if c == 'u' {
        Some(State { task_offset: scrolled(state.task_offset, 10, false), ..state })
    } else if c == '[' {
        Some(State { hide_info: !state.hide_info, ..state })
    } else if c == '{' {
        Some(State { maximize_info: !state.maximize_info, ..state })
    } else {
        None
    }
}

/// Applies the key `c` to `state` and tells whether it meant something.
fn apply_char(state: &mut State, c: char) -> (r: bool)
    ensures
        match after_char(*old(state), c) {
            Some(next) => r && *final(state) == next,
            None => !r && *final(state) == *old(state),
        },
{
    if c == '`' {
        state.hide_messages = !state.hide_messages;
    } else if c == '~' {
        state.messages_fullscreen = !state.messages_fullscreen;
    } else if c == 'J' {
        state.message_offset = state.message_offset.saturating_add(1);
    } else if c == 'D' {
        state.message_offset = state.message_offset.saturating_add(10);
    } else if c == 'j' {
        state.task_offset = state.task_offset.saturating_add(1);
    } else if c == 'd' {
        state.task_offset = state.task_offset.saturating_add(10);
    } else if c == 'K' {
        state.message_offset = state.message_offset.saturating_sub(1);
    } else if c == 'U' {
        state.message_offset = state.message_offset.saturating_sub(10);
    } else if c == 'k' {
        state.task_offset = state.task_offset.saturating_sub(1);
    } else if c == 'u' {
        state.task_offset = state.task_offset.saturating_sub(10);
    } else if c == '[' {
        state.hide_info = !state.hide_info;
    } else if c == '{' {
        state.maximize_info = !state.maximize_info;
    } else {
        return false;
    }
    true
}

/// What a request to quit leads to under `mode`: the end at once, or a
/// request that waits.
pub open spec fn after_quit_key(mode: InterruptDrawInfo) -> (InterruptDrawInfo, Next) {
    match mode {
        InterruptDrawInfo::Instantly => (mode, Next::Quit),
        InterruptDrawInfo::Deferred(_) => (InterruptDrawInfo::Deferred(true), Next::Redraw),
    }
}

/// What a change of the answer to requests leads to: to answer at once
/// ends the dashboard if a request is waiting; to defer keeps a request
/// that is waiting.
pub open spec fn after_interrupt_mode(mode: InterruptDrawInfo, wanted: Interrupt) -> (
    InterruptDrawInfo,
    Next,
) {
    match wanted {
        Interrupt::Instantly => if mode == InterruptDrawInfo::Deferred(true) {
            (mode, Next::Quit)
        } else {
            (InterruptDrawInfo::Instantly, Next::Redraw)
        },
        Interrupt::Deferred => (
            InterruptDrawInfo::Deferred(
                match mode {
                    InterruptDrawInfo::Deferred(interrupt_requested) => interrupt_requested,
                    InterruptDrawInfo::Instantly => false,
                },
            ),
            Next::Redraw,
        ),
    }
}

/// What `event` makes of the state of the dashboard and of the way it
/// answers a request to quit, and what the dashboard does next.
pub open spec fn after_event(state: State, mode: InterruptDrawInfo, event: Event) -> (
    State,
    InterruptDrawInfo,
    Next,
) {
    match event {
        Event::Tick => (state, mode, Next::Redraw),
        Event::Input(key) => if is_quit_key(key) {
            (state, after_quit_key(mode).0, after_quit_key(mode).1)
        } else {
            match key {
                Key::Char(c) => match after_char(state, c) {
                    Some(next) => (next, mode, Next::Redraw),
                    None => (state, mode, Next::Skip),
                },
                _ => (state, mode, Next::Skip),
            }
        },
        Event::SetWindowSize(bound) => (
            State { user_provided_window_size: Some(bound), ..state },
            mode,
            Next::Redraw,
        ),
        Event::SetTitle(title) => (State { title, ..state }, mode, Next::Redraw),
        Event::SetInformation(info) => (State { information: info, ..state }, mode, Next::Redraw),
        Event::SetInterruptMode(wanted) => (
            state,
            after_interrupt_mode(mode, wanted).0,
            after_interrupt_mode(mode, wanted).1,
        ),
    }
}

/// Applies `event` to the state of the dashboard and to the way it answers
/// a request to quit, and tells what the dashboard does next: it ends, it
/// draws a frame, or, after a key that means nothing, it does neither.
pub fn handle_event(state: &mut State, interrupt_mode: &mut InterruptDrawInfo, event: Event) -> (r:
    Next)
    ensures
        (*final(state), *final(interrupt_mode), r) == after_event(
            *old(state),
            *old(interrupt_mode),
            event,
        ),
{
    match event {
        Event::Tick => Next::Redraw,
        Event::Input(key) => {
            if quits(&key) {
                match *interrupt_mode {
                    InterruptDrawInfo::Instantly => Next::Quit,
                    InterruptDrawInfo::Deferred(_) => {
                        *interrupt_mode = InterruptDrawInfo::Deferred(true);
                        Next::Redraw
                    },
                }
            } else {
                match key {
                    Key::Char(c) => if apply_char(state, c) {
                        Next::Redraw
                    } else {
                        Next::Skip
                    },
                    _ => Next::Skip,
                }
            }
        },
        Event::SetWindowSize(bound) => {
            state.user_provided_window_size = Some(bound);
            Next::Redraw
        },
        Event::SetTitle(title) => {
            state.title = title;
            Next::Redraw
        },
        Event::SetInformation(info) => {
            state.information = info;
            Next::Redraw
        },
        Event::SetInterruptMode(mode) => {
            match mode {
                Interrupt::Instantly => {
                    match *interrupt_mode {
                        InterruptDrawInfo::Deferred(true) => {
                            return Next::Quit;
                        },
                        _ => {},
                    }
                    *interrupt_mode = InterruptDrawInfo::Instantly;
                },
                Interrupt::Deferred => {
                    *interrupt_mode = InterruptDrawInfo::Deferred(
                        match *interrupt_mode {
                            InterruptDrawInfo::Deferred(interrupt_requested) => interrupt_requested,
                            InterruptDrawInfo::Instantly => false,
                        },
                    );
                },
            }
            Next::Redraw
        },
    }
}

/// The size of the window: what an event has set, else what the options
/// ask for, else what the terminal has.
pub open spec fn effective_size(
    user_provided: Option<Rect>,
    configured: Option<Rect>,
    terminal: Rect,
) -> Rect {
    match user_provided {
        Some(size) => size,
        None => match configured {
            Some(size) => size,
            None => terminal,
        },
    }
}

/// The size of the window: what an event has set, else what the options
/// ask for, else what the terminal has.
pub fn window_size(user_provided: Option<Rect>, configured: Option<Rect>, terminal: Rect) -> (r:
    Rect)
    ensures
        r == effective_size(user_provided, configured, terminal),
{
    match user_provided {
        Some(size) => size,
        None => match configured {
            Some(size) => size,
            None => terminal,
        },
    }
}

/// After how many frames the width of the tree is taken over for the next
/// frames: after each one, unless the options name a larger number.
pub open spec fn store_every(recompute_column_width_every_nth_frame: Option<usize>) -> usize {
    match recompute_column_width_every_nth_frame {
        Some(n) => if n >= 1 {
            n
        } else {
            1
        },
        None => 1,
    }
}

/// After how many frames the width of the tree is taken over.
pub fn store_task_size_every(recompute_column_width_every_nth_frame: Option<usize>) -> (r: usize)
    ensures
        r == store_every(recompute_column_width_every_nth_frame),
        r >= 1,
{
    match recompute_column_width_every_nth_frame {
        Some(n) => if n >= 1 {
            n
        } else {
            1
        },
        None => 1,
    }
}

/// True if the width that the tree took in frame `tick` is the width it
/// gets from now on: in the first frame, in every frame that the options
/// name, and whenever the tree has no width.
pub open spec fn stores_width(tick: usize, every: usize, last: Option<u16>) -> bool {
    tick == 1 || (every > 0 && tick % every == 0) || last.is_none() || last == Some(0u16)
}

/// True if `after` has the settings of `before` that only an event changes:
/// the title, what is hidden or enlarged, the size of the window, the time
/// per frame and the lines of information.
pub open spec fn kept_settings(before: State, after: State) -> bool {
    &&& after.title == before.title
    &&& after.hide_messages == before.hide_messages
    &&& after.messages_fullscreen == before.messages_fullscreen
    &&& after.user_provided_window_size == before.user_provided_window_size
    &&& after.duration_per_frame == before.duration_per_frame
    &&& after.information == before.information
    &&& after.hide_info == before.hide_info
    &&& after.maximize_info == before.maximize_info
}

/// What the frames of the dashboard work on.
#[derive(Debug)]
pub struct Engine {
    /// What is kept from frame to frame for drawing.
    pub state: State,
    /// How the dashboard answers a request to quit.
    pub interrupt_mode: InterruptDrawInfo,
    /// The number of frames so far.
    pub tick: usize,
    /// The tasks of the last snapshot.
    pub entries: Vec<(TaskKey, TaskSnapshot)>,
    /// The messages of the last frame.
    pub messages: Vec<Message>,
}

/// What a frame has come to.
#[derive(Clone, PartialEq, Eq, Debug)]
pub enum Frame {
    /// The dashboard ends, because there is no progress to show any more.
    Stop,
    /// There is nothing to draw now.
    Nothing,
    /// This is put on the grid of cells.
    Draw(Vec<Draw>),
}

/// The count of frames after one more frame; it starts over after the
/// largest number.
pub open spec fn next_tick(tick: usize) -> usize {
    if tick == usize::MAX {
        0
    } else {
        (tick + 1) as usize
    }
}

impl Engine {
    /// The engine with which a dashboard under `options` starts.
    pub fn new(options: &Options) -> (r: Engine)
        ensures
            r.state.title@ == options.title@,
            r.state.duration_per_frame == options.frame_interval,
            r.state.throughput is Some == options.throughput,
            r.state.task_offset == 0,
            r.state.message_offset == 0,
            r.state.widest_origin == 0,
            !r.state.hide_messages,
            !r.state.messages_fullscreen,
            !r.state.hide_info,
            !r.state.maximize_info,
            r.state.information@.len() == 0,
            r.interrupt_mode == InterruptDrawInfo::Instantly,
            r.tick == 0,
            r.entries@.len() == 0,
            r.messages@.len() == 0,
    {
        let mut state = State::default();
        state.title = options.title.clone();
        state.duration_per_frame = options.frame_interval;
        if options.throughput {
            state.throughput = Some(Throughput::default());
        }
        Engine {
            state,
            interrupt_mode: InterruptDrawInfo::Instantly,
            tick: 0,
            entries: Vec::new(),
            messages: Vec::new(),
        }
    }

    /// Draws a frame of `root`, the tree if it still exists, on a terminal
    /// of the size `terminal_window_size` at the time `now`.
    ///
    /// Without a tree, or with an empty one, the dashboard ends if
    /// the options say so; without a tree it draws nothing otherwise. A
    /// frame takes a snapshot of the tasks and, unless they are hidden,
    /// of the messages.
    pub fn render_frame(
        &mut self,
        root: Option<&Root>,
        options: &Options,
        terminal_window_size: Rect,
        now: Time,
    ) -> (r: Frame)
        ensures
            final(self).tick == next_tick(old(self).tick),
            final(self).interrupt_mode == old(self).interrupt_mode,
            match root {
                None => r == (if options.stop_if_progress_missing {
                    Frame::Stop
                } else {
                    Frame::Nothing
                }) && final(self).state == old(self).state && final(self).entries == old(
                    self,
                ).entries && final(self).messages == old(self).messages,
                Some(root) => {
                    &&& is_sorted_snapshot(root.tasks(), final(self).entries@)
                    &&& r is Stop <==> options.stop_if_progress_missing
                        && final(self).entries@.len() == 0
                    &&& r !is Nothing
                    &&& r is Stop ==> final(self).state == old(self).state && final(self).messages
                        == old(self).messages
                    &&& old(self).state.hide_messages ==> final(self).messages == old(
                        self,
                    ).messages
                    &&& r is Draw ==> kept_settings(old(self).state, final(self).state)
                    &&& r is Draw ==> final(self).state.task_offset
                        == draw::all::task_offset_after(
                        old(self).state,
                        final(self).entries@.len() as int,
                        final(self).messages@.len() as int,
                        effective_size(
                            old(self).state.user_provided_window_size,
                            options.window_size,
                            terminal_window_size,
                        ),
                    )
                    &&& r is Draw ==> final(self).state.message_offset
                        == draw::all::message_offset_after(
                        old(self).state,
                        final(self).messages@.len() as int,
                        effective_size(
                            old(self).state.user_provided_window_size,
                            options.window_size,
                            terminal_window_size,
                        ),
                    )
                    &&& r is Draw ==> final(self).state.widest_origin
                        == draw::all::widest_origin_after(
                        old(self).state,
                        views(final(self).messages@),
                        effective_size(
                            old(self).state.user_provided_window_size,
                            options.window_size,
                            terminal_window_size,
                        ),
                    )
                    &&& r is Draw ==> final(self).state.last_tree_column_width
                        == draw::all::tree_width_after(
                        old(self).state,
                        final(self).entries@,
                        final(self).messages@.len() as int,
                        effective_size(
                            old(self).state.user_provided_window_size,
                            options.window_size,
                            terminal_window_size,
                        ),
                    )
                    &&& r is Draw ==> match old(self).state.throughput {
                        Some(tp) => final(self).state.throughput is Some
                            && final(self).state.throughput.unwrap()@ == tp@.observed(
                            final(self).entries@,
                            now,
                        ),
                        None => final(self).state.throughput is None,
                    }
                    &&& !old(self).state.hide_messages && r is Draw ==> views(
                        final(self).messages@,
                    ) == root.messages().retained()
                    &&& r matches Frame::Draw(draws) ==> draw::draw_views(draws@)
                        == draw::all::frame_draws(
                        State { throughput: final(self).state.throughput, ..old(self).state },
                        old(self).interrupt_mode,
                        final(self).entries@,
                        crate::throughput::observed_speeds(
                            old(self).state.throughput,
                            final(self).entries@,
                            now,
                        ),
                        views(final(self).messages@),
                        effective_size(
                            old(self).state.user_provided_window_size,
                            options.window_size,
                            terminal_window_size,
                        ),
                        now,
                    )
                    &&& r is Draw ==> final(self).state.next_tree_column_width == if stores_width(
                        final(self).tick,
                        store_every(options.recompute_column_width_every_nth_frame),
                        final(self).state.last_tree_column_width,
                    ) {
                        final(self).state.last_tree_column_width
                    } else {
                        old(self).state.next_tree_column_width
                    }
                },
            },
    {
        self.tick = self.tick.wrapping_add(1);
        let progress = match root {
            Some(progress) => progress,
            None => {
                if options.stop_if_progress_missing {
                    return Frame::Stop;
                }
                return Frame::Nothing;
            },
        };
        progress.sorted_snapshot(&mut self.entries);
        if options.stop_if_progress_missing && self.entries.len() == 0 {
            return Frame::Stop;
        }
        let size = window_size(
            self.state.user_provided_window_size,
            options.window_size,
            terminal_window_size,
        );
        if !self.state.hide_messages {
            progress.copy_messages(&mut self.messages);
        }
        let rates = observe(&mut self.state.throughput, self.entries.as_slice(), now);
        let ghost seen = self.state;
        let draws = draw::all(
            &mut self.state,
            self.interrupt_mode,
            self.entries.as_slice(),
            &rates,
            self.messages.as_slice(),
            size,
            now,
        );
        let every = store_task_size_every(options.recompute_column_width_every_nth_frame);
        let last = match self.state.last_tree_column_width {
            Some(width) => width,
            None => 0,
        };
        if self.tick == 1 || self.tick % every == 0 || last == 0 {
            self.state.next_tree_column_width = self.state.last_tree_column_width;
        }
        proof {
            assert(seen == (State { throughput: self.state.throughput, ..old(self).state }));
        }
        Frame::Draw(draws)
    }
}

} // verus!
