//! The decisions of the line renderer between frames: when progress is
//! shown, what an event leads to, and how the renderer is told to stop.
use crate::key::Level;
use crate::line::draw;
use crate::time::Duration;
use crate::tree::Root;
use vstd::prelude::*;

verus! {

/// How the line renderer is set up.
#[derive(Copy, Clone, Debug)]
pub struct Options {
    /// If true, _(default true)_, we assume the output stream belongs to a
    /// terminal. If false, no live progress is printed, only messages.
    pub output_is_terminal: bool,
    /// If true, _(default: true)_ we will display color.
    pub colored: bool,
    /// If true, _(default: false)_, a timestamp will be shown before each
    /// message.
    pub timestamp: bool,
    /// The amount of columns and rows to use for drawing. Defaults to
    /// (80, 20).
    pub terminal_dimensions: (u16, u16),
    /// If true, _(default: false)_, the cursor will be hidden for a more
    /// visually appealing display.
    pub hide_cursor: bool,
    /// If true, (default false), the speed of tasks is estimated and shown
    /// by units that ask for it.
    pub throughput: bool,
    /// The first and the last level whose tasks are shown; all levels if
    /// unset.
    pub level_filter: Option<(Level, Level)>,
    /// If set, progress will only actually be shown after the given
    /// duration. Messages are always shown without delay.
    pub initial_delay: Option<Duration>,
    /// The time from one frame to the next. The default is a sixth of a
    /// second.
    pub frame_interval: Duration,
    /// If true (default: true), we will keep waiting for progress even
    /// after we encountered an empty list of drawable progress items.
    pub keep_running_if_progress_is_empty: bool,
}

impl Default for Options {
    fn default() -> (r: Self)
        ensures
            r.output_is_terminal,
            r.colored,
            !r.timestamp,
            r.terminal_dimensions == (80u16, 20u16),
            !r.hide_cursor,
            !r.throughput,
            r.level_filter.is_none(),
            r.initial_delay.is_none(),
            r.frame_interval@ == 166_000_000,
            r.keep_running_if_progress_is_empty,
    {
        Options {
            output_is_terminal: true,
            colored: true,
            timestamp: false,
            terminal_dimensions: (80, 20),
            hide_cursor: false,
            throughput: false,
            level_filter: None,
            initial_delay: None,
            frame_interval: Duration::from_millis(166),
            keep_running_if_progress_is_empty: true,
        }
    }
}

impl Options {
    /// The options of the drawing that these options ask for.
    pub fn draw_options(&self) -> (r: draw::Options)
        ensures
            r == (draw::Options {
                level_filter: self.level_filter,
                column_count: self.terminal_dimensions.0,
                keep_running_if_progress_is_empty: self.keep_running_if_progress_is_empty,
                output_is_terminal: self.output_is_terminal,
                colored: self.colored,
                timestamp: self.timestamp,
                hide_cursor: self.hide_cursor,
            }),
    {
        draw::Options {
            level_filter: self.level_filter,
            column_count: self.terminal_dimensions.0,
            keep_running_if_progress_is_empty: self.keep_running_if_progress_is_empty,
            output_is_terminal: self.output_is_terminal,
            colored: self.colored,
            timestamp: self.timestamp,
            hide_cursor: self.hide_cursor,
        }
    }

    /// The state with which the renderer starts: nothing drawn yet, and
    /// estimates of speed if they are wanted.
    pub fn initial_state(&self) -> (r: draw::State)
        ensures
            r.tree@.len() == 0,
            r.messages@.len() == 0,
            r.for_next_copy.is_none(),
            r.max_message_origin_size == 0,
            r.blocks_per_line@.len() == 0,
            r.ticks == 0,
            r.throughput is Some == self.throughput,
    {
        let mut state = draw::State::default();
        if self.throughput {
            state.throughput = Some(crate::throughput::Throughput::default());
        }
        state
    }
}

/// What the renderer is woken up by.
#[derive(Copy, Clone, PartialEq, Eq, Structural, Debug)]
pub enum Event {
    /// It is time for a frame.
    Tick,
    /// The renderer is to stop.
    Quit,
}

/// What the renderer does next.
#[derive(Clone, PartialEq, Eq, Debug)]
pub enum Action {
    /// Put these commands on the output and wait for the next event.
    Draw(Vec<draw::Command>),
    /// Stop without an error, and show the cursor again if it was hidden.
    Stop { show_cursor: bool },
}

/// True if progress is shown `since_start` after the renderer started: at
/// once without an initial delay, else from the end of the delay on.
pub open spec fn progress_is_due(initial_delay: Option<Duration>, since_start: Duration) -> bool {
    match initial_delay {
        Some(delay) => since_start@ >= delay@,
        None => true,
    }
}

/// True if progress is shown `since_start` after the renderer started.
pub fn shows_progress(initial_delay: &Option<Duration>, since_start: &Duration) -> (r: bool)
    ensures
        r == progress_is_due(*initial_delay, *since_start),
{
    match initial_delay {
        Some(delay) => !since_start.shorter_than(delay),
        None => true,
    }
}

/// True if the cursor is hidden: it is wanted, the handler that restores
/// it on an interrupt is in place, and the terminal took the request.
pub fn hides_cursor(hide_cursor: bool, handler_installed: bool, hidden: bool) -> (r: bool)
    ensures
        r == (hide_cursor && handler_installed && hidden),
{
    hide_cursor && handler_installed && hidden
}

/// What `event` leads to: a tick draws a frame of the tree, unless the tree
/// is empty and the options do not ask to keep running, which stops the
/// renderer as a quit does.
pub fn handle(
    event: Event,
    root: &Root,
    show_progress: bool,
    cursor_hidden: bool,
    state: &mut draw::State,
    config: &draw::Options,
) -> (r: Action)
    ensures
        r is Stop <==> event == Event::Quit || (!config.keep_running_if_progress_is_empty
            && draw::is_empty(*root)),
        r matches Action::Stop { show_cursor } ==> show_cursor == cursor_hidden,
        event == Event::Quit ==> *final(state) == *old(state),
        r matches Action::Draw(commands) ==> {
            &&& crate::tree::is_sorted_snapshot(root.tasks(), final(state).tree@)
            &&& final(state).ticks == draw::next_tick(old(state).ticks)
            &&& exists|now: crate::time::Time| #[trigger]
                draw::frame_commands(
                    final(state).tree@,
                    crate::messages::views(final(state).messages@),
                    old(state).blocks_per_line@,
                    old(state).max_message_origin_size,
                    old(state).ticks,
                    draw::effective(*config, show_progress),
                    crate::throughput::observed_speeds(
                        old(state).throughput,
                        final(state).tree@,
                        now,
                    ),
                ) == draw::command_views(commands@)
        },
{
    match event {
        Event::Tick => match draw::all(root, show_progress, state, config) {
            Ok(commands) => Action::Draw(commands),
            Err(_) => Action::Stop { show_cursor: cursor_hidden },
        },
        Event::Quit => Action::Stop { show_cursor: cursor_hidden },
    }
}

/// A handle to the renderer, through which it is told to stop.
#[derive(Debug)]
pub struct JoinHandle {
    disconnected: bool,
}

impl JoinHandle {
    /// True once the handle has given up telling the renderer to stop.
    pub closed spec fn is_disconnected(self) -> bool {
        self.disconnected
    }

    /// A handle that is connected to its renderer.
    pub fn new() -> (r: JoinHandle)
        ensures
            !r.is_disconnected(),
    {
        JoinHandle { disconnected: false }
    }

    /// Gives up the ability to tell the renderer to stop.
    pub fn disconnect(&mut self)
        ensures
            final(self).is_disconnected(),
    {
        self.disconnected = true;
    }

    /// What is sent to the renderer to shut it down: a last tick and then
    /// the request to quit, or nothing from a handle that is disconnected.
    pub fn shutdown(&self) -> (r: Vec<Event>)
        ensures
            r@ == if self.is_disconnected() {
                Seq::<Event>::empty()
            } else {
                seq![Event::Tick, Event::Quit]
            },
    {
        let mut events = Vec::new();
        if !self.disconnected {
            events.push(Event::Tick);
            events.push(Event::Quit);
        }
        events
    }
}

} // verus!
