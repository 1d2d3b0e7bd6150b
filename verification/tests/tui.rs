use prodash::input::{Key as Pressed, Modifiers};
use prodash::key::Key;
use prodash::messages::{Message, MessageLevel};
use prodash::progress::{Progress, State as ProgressState, TaskSnapshot};
use prodash::style::{Color, Style};
use prodash::time::{Duration, Time};
use prodash::tree::Root;
use prodash::tui::draw::{self, Draw, InterruptDrawInfo, Line, State};
use prodash::tui::engine::{self, Engine, Event, Frame, Interrupt, Next, Options};
use prodash::tui::layout::{self, Borders, Rect};
use prodash::unit;

fn rect(x: u16, y: u16, width: u16, height: u16) -> Rect {
    Rect { x, y, width, height }
}

fn now() -> Time {
    Time::from_epoch(Duration::from_secs(100))
}

fn task(name: &str, progress: Option<Progress>) -> TaskSnapshot {
    TaskSnapshot { name: name.into(), id: [0; 4], progress }
}

fn progress(step: usize, done_at: Option<usize>) -> Progress {
    Progress { step, done_at, unit: None, state: ProgressState::Running }
}

fn texts(draws: &[Draw]) -> Vec<String> {
    draws
        .iter()
        .filter_map(|d| match d {
            Draw::Text { text, .. } | Draw::TextUntil { text, .. } | Draw::Title { text, .. } => {
                Some(text.clone())
            }
            _ => None,
        })
        .collect()
}

#[test]
fn key_bindings() {
    let mut state = State::default();
    let mut mode = InterruptDrawInfo::Instantly;
    let mut press = |state: &mut State, mode: &mut InterruptDrawInfo, c: char| {
        engine::handle_event(state, mode, Event::Input(Pressed::Char(c)))
    };
    assert_eq!(press(&mut state, &mut mode, '`'), Next::Redraw);
    assert!(state.hide_messages);
    assert_eq!(press(&mut state, &mut mode, '~'), Next::Redraw);
    assert!(state.messages_fullscreen);
    assert_eq!(press(&mut state, &mut mode, 'j'), Next::Redraw);
    assert_eq!(press(&mut state, &mut mode, 'd'), Next::Redraw);
    assert_eq!(state.task_offset, 11);
    assert_eq!(press(&mut state, &mut mode, 'k'), Next::Redraw);
    assert_eq!(state.task_offset, 10);
    assert_eq!(press(&mut state, &mut mode, 'u'), Next::Redraw);
    assert_eq!(press(&mut state, &mut mode, 'u'), Next::Redraw);
    assert_eq!(state.task_offset, 0);
    assert_eq!(press(&mut state, &mut mode, 'J'), Next::Redraw);
    assert_eq!(press(&mut state, &mut mode, 'D'), Next::Redraw);
    assert_eq!(state.message_offset, 11);
    assert_eq!(press(&mut state, &mut mode, 'U'), Next::Redraw);
    assert_eq!(press(&mut state, &mut mode, 'K'), Next::Redraw);
    assert_eq!(state.message_offset, 0);
    assert_eq!(press(&mut state, &mut mode, '['), Next::Redraw);
    assert!(state.hide_info);
    assert_eq!(press(&mut state, &mut mode, '{'), Next::Redraw);
    assert!(state.maximize_info);
    assert_eq!(press(&mut state, &mut mode, 'x'), Next::Skip);
    assert_eq!(engine::handle_event(&mut state, &mut mode, Event::Input(Pressed::Left)), Next::Skip);
    assert_eq!(engine::handle_event(&mut state, &mut mode, Event::Input(Pressed::Ctrl('x'))), Next::Skip);
    assert_eq!(engine::handle_event(&mut state, &mut mode, Event::Tick), Next::Redraw);
    for key in [Pressed::Esc, Pressed::Char('q'), Pressed::Ctrl('c'), Pressed::Ctrl('[')] {
        assert!(engine::quits(&key));
        assert_eq!(engine::handle_event(&mut state, &mut mode, Event::Input(key)), Next::Quit);
    }
    assert!(!engine::quits(&Pressed::Char('c')));
}

#[test]
fn interrupts_can_be_deferred() {
    let mut state = State::default();
    let mut mode = InterruptDrawInfo::Instantly;
    let set = |mode: Interrupt| Event::SetInterruptMode(mode);
    assert_eq!(engine::handle_event(&mut state, &mut mode, set(Interrupt::Deferred)), Next::Redraw);
    assert_eq!(mode, InterruptDrawInfo::Deferred(false));
    assert_eq!(engine::handle_event(&mut state, &mut mode, set(Interrupt::Instantly)), Next::Redraw);
    assert_eq!(mode, InterruptDrawInfo::Instantly);
    assert_eq!(engine::handle_event(&mut state, &mut mode, set(Interrupt::Deferred)), Next::Redraw);
    assert_eq!(engine::handle_event(&mut state, &mut mode, Event::Input(Pressed::Esc)), Next::Redraw);
    assert_eq!(mode, InterruptDrawInfo::Deferred(true));
    assert_eq!(engine::handle_event(&mut state, &mut mode, set(Interrupt::Deferred)), Next::Redraw);
    assert_eq!(mode, InterruptDrawInfo::Deferred(true));
    assert_eq!(engine::handle_event(&mut state, &mut mode, set(Interrupt::Instantly)), Next::Quit);
}

#[test]
fn events_set_what_they_carry() {
    let mut state = State::default();
    let mut mode = InterruptDrawInfo::Instantly;
    assert_eq!(engine::handle_event(&mut state, &mut mode, Event::SetTitle("t".into())), Next::Redraw);
    assert_eq!(state.title, "t");
    let info = vec![Line::Title("a".into()), Line::Text("b".into())];
    assert_eq!(engine::handle_event(&mut state, &mut mode, Event::SetInformation(info.clone())), Next::Redraw);
    assert_eq!(state.information, info);
    assert_eq!(
        engine::handle_event(&mut state, &mut mode, Event::SetWindowSize(rect(1, 2, 3, 4))),
        Next::Redraw
    );
    assert_eq!(state.user_provided_window_size, Some(rect(1, 2, 3, 4)));
    assert_eq!(engine::window_size(Some(rect(1, 1, 1, 1)), Some(rect(2, 2, 2, 2)), rect(3, 3, 3, 3)), rect(1, 1, 1, 1));
    assert_eq!(engine::window_size(None, Some(rect(2, 2, 2, 2)), rect(3, 3, 3, 3)), rect(2, 2, 2, 2));
    assert_eq!(engine::window_size(None, None, rect(3, 3, 3, 3)), rect(3, 3, 3, 3));
    assert_eq!(engine::store_task_size_every(None), 1);
    assert_eq!(engine::store_task_size_every(Some(0)), 1);
    assert_eq!(engine::store_task_size_every(Some(40)), 40);
}

#[test]
fn keys_come_from_characters() {
    assert_eq!(Pressed::from_char('a', Modifiers::Plain), Some(Pressed::Char('a')));
    assert_eq!(Pressed::from_char('A', Modifiers::Shift), Some(Pressed::Char('A')));
    assert_eq!(Pressed::from_char('c', Modifiers::Control), Some(Pressed::Ctrl('c')));
    assert_eq!(Pressed::from_char('x', Modifiers::Alt), Some(Pressed::Alt('x')));
    assert_eq!(Pressed::from_char('x', Modifiers::Other), None);
    assert_eq!(Pressed::enter(), Pressed::Char('\n'));
    assert_eq!(Pressed::tab(), Pressed::Char('\t'));
}

#[test]
fn rectangles() {
    let r = rect(2, 3, 10, 4);
    assert_eq!((r.left(), r.top(), r.right(), r.bottom()), (2, 3, 12, 7));
    assert_eq!(layout::offset_x(r, 4), rect(6, 3, 6, 4));
    assert_eq!(layout::offset_x(r, 20), rect(22, 3, 0, 4));
    assert_eq!(layout::snap_to_right(r, 3), rect(9, 3, 3, 4));
    assert_eq!(layout::snap_to_right(r, 30), r);
    assert_eq!(layout::line_bound(r, 2), rect(2, 5, 10, 1));
    assert_eq!(layout::intersect(r, rect(5, 0, 20, 5)), rect(5, 3, 7, 2));
    assert_eq!(layout::intersect(r, rect(50, 50, 1, 1)), rect(50, 50, 0, 0));
    assert_eq!(layout::inner(r, Borders::Top), rect(2, 4, 10, 3));
    assert_eq!(layout::inner(r, Borders::TopAndBottom), rect(2, 4, 10, 2));
    assert_eq!(layout::inner(r, Borders::All), rect(3, 4, 8, 2));
    assert_eq!(layout::sanitize_offset(5, 10, 3), 5);
    assert_eq!(layout::sanitize_offset(9, 10, 3), 7);
    assert_eq!(layout::sanitize_offset(9, 2, 3), 0);
    assert_eq!(layout::visible_count(10, 2, 3), 3);
    assert_eq!(layout::visible_count(10, 8, 3), 2);
    assert_eq!(layout::visible_count(10, 12, 3), 0);
    assert_eq!(rect(65530, 65530, 10, 10).right(), u16::MAX);
    assert_eq!(Rect::default(), rect(0, 0, 0, 0));
}

#[test]
fn the_tree_shows_names_and_glyphs() {
    let a = Key::default().add_child(0);
    let entries = vec![
        (a, task("a", None)),
        (a.add_child(0), task("a0", Some(progress(1, None)))),
        (a.add_child(0).add_child(0), task("a00", None)),
        (a.add_child(1), task("a1", Some(progress(1, Some(2))))),
    ];
    let mut out = Vec::new();
    let width = draw::progress::draw_tree(&mut out, &entries, rect(0, 0, 30, 10), 0);
    assert_eq!(
        texts(&out),
        vec!["\u{2027}  ", " \u{2514} a0 ", " \u{2502}\u{2026}  ", " \u{2514} a1 "]
    );
    assert_eq!(width, 6);
    out.clear();
    draw::progress::draw_tree(&mut out, &entries, rect(0, 5, 30, 2), 1);
    assert_eq!(
        out,
        vec![
            Draw::Text { bound: rect(0, 5, 30, 1), text: " \u{2514} a0 ".into(), style: None },
            Draw::Text { bound: rect(0, 6, 30, 1), text: " \u{2502}\u{2026}  ".into(), style: None },
        ]
    );
}

#[test]
fn a_line_of_progress_for_each_kind_of_task() {
    let a = Key::default().add_child(0);
    let blocked = Progress {
        state: ProgressState::Blocked("wait", Some(Time::from_epoch(Duration::from_secs(160)))),
        ..progress(9, Some(10))
    };
    let entries = vec![
        (a, task("group", None)),
        (a.add_child(0), task("bounded", Some(Progress { unit: Some(unit::label("items")), ..progress(5, Some(10)) }))),
        (a.add_child(1), task("unbounded", Some(progress(7, None)))),
        (a.add_child(2), task("stuck", Some(blocked))),
    ];
    let mut out = Vec::new();
    let bound = rect(10, 0, 20, 10);
    draw::progress::draw_progress(&mut out, &entries, &vec![None; 4], bound, true, 0, now());
    assert_eq!(out.len(), 3 + 3 + 3 + 3);
    let line = |y| rect(10, y, 20, 1);
    let rest = |y| rect(11, y, 19, 1);
    assert_eq!(out[0], Draw::Text { bound: line(0), text: "\u{2502}".into(), style: None });
    assert_eq!(out[1], Draw::Text { bound: rest(0), text: format!(" {}", "\u{2500}".repeat(17)), style: None });
    assert_eq!(out[2], Draw::Text { bound: rect(16, 0, 9, 1), text: " \u{2027} group ".into(), style: None });
    assert_eq!(out[4], Draw::Fill { bound: rect(11, 1, 10, 1), color: Color::Yellow });
    assert_eq!(
        out[5],
        Draw::TextUntil {
            bound: rest(1),
            text: " 5/10 items".into(),
            until: 21,
            style: Style::new().bg(Color::Yellow).fg(Color::Black),
            other: Style::new(),
        }
    );
    assert_eq!(out[7], Draw::Text { bound: rest(2), text: " 7".into(), style: None });
    assert_eq!(out[8], Draw::Fill { bound: rect(29, 2, 1, 1), color: Color::White });
    assert_eq!(out[10], Draw::Fill { bound: rect(11, 3, 18, 1), color: Color::Red });
    match &out[11] {
        Draw::TextUntil { text, .. } => assert_eq!(text, " 9 / 10 [wait] \u{2192} 1m to unblock"),
        other => assert!(matches!(other, Draw::TextUntil { .. })),
    }
}

#[test]
fn the_pane_of_tasks_scrolls_and_tells_of_what_is_hidden() {
    let entries: Vec<(Key, TaskSnapshot)> = (0..10u16)
        .map(|i| (Key::default().add_child(i), task(&format!("t{}", i), Some(progress(i as usize, Some(10))))))
        .collect();
    let mut state = State::default();
    state.task_offset = 100;
    let mut out = Vec::new();
    draw::progress::pane(&mut out, &entries, &vec![None; 10], rect(0, 0, 60, 5), &mut state, now());
    assert_eq!(state.task_offset, 5);
    assert_eq!(state.last_tree_column_width, Some(5));
    let shown = texts(&out);
    assert!(shown.contains(&"\u{2027} t5 ".to_string()));
    assert!(shown.contains(&"\u{2027} t8 ".to_string()));
    assert!(!shown.contains(&"\u{2027} t4 ".to_string()));
    assert!(!shown.contains(&"\u{2027} t9 ".to_string()));
    assert!(shown.contains(&"\u{2502} \u{2026}5 skipped and 0 more".to_string()));

    let mut none = Vec::new();
    draw::progress::pane(&mut none, &[], &vec![], rect(0, 0, 60, 5), &mut state, now());
    assert!(none.is_empty());
    assert_eq!(state.task_offset, 0);
}

#[test]
fn the_headline_counts() {
    let entries = vec![
        (Key::default().add_child(0), task("g", None)),
        (Key::default().add_child(1), task("r", Some(progress(1, None)))),
        (
            Key::default().add_child(2),
            task("b", Some(Progress { state: ProgressState::Halted("h", None), ..progress(1, None) })),
        ),
    ];
    let mut out = Vec::new();
    draw::progress::headline(
        &mut out,
        &entries,
        InterruptDrawInfo::Deferred(true),
        Duration::from_secs(2),
        now(),
        rect(0, 0, 200, 1),
    );
    let text = " interrupt requested - please wait  Every 2s \u{2192} 1970-01-01T00:01:40   1 running +   1 blocked +   1 groups = 3 ";
    assert_eq!(texts(&out), vec![text.to_string()]);
    out.clear();
    draw::progress::headline(
        &mut out,
        &entries[..1],
        InterruptDrawInfo::Instantly,
        Duration::from_millis(100),
        now(),
        rect(0, 0, 20, 1),
    );
    assert_eq!(
        out,
        vec![Draw::Text {
            bound: rect(0, 0, 20, 1),
            text: " 'q' or CTRL+c to quit    0 running +   0 blocked +   1 groups = 1 ".into(),
            style: None
        }]
    );
}

#[test]
fn the_pane_of_messages_shows_the_newest_first() {
    let message = |origin: &str, text: &str, level| Message {
        time: Time::from_epoch(Duration::from_millis(1_581_555_105_250)),
        level,
        origin: origin.into(),
        message: text.into(),
    };
    let messages = vec![
        message("one", "first", MessageLevel::Info),
        message("three", "second", MessageLevel::Failure),
        message("two", "third", MessageLevel::Success),
    ];
    let mut offset = 7;
    let mut widest = 0;
    let mut out = Vec::new();
    draw::messages::pane(
        &mut out,
        &messages,
        rect(0, 10, 80, 3),
        rect(0, 13, 82, 1),
        &mut offset,
        &mut widest,
    );
    assert_eq!(offset, 1);
    assert_eq!(widest, 5);
    assert_eq!(out[0], Draw::Block { bound: rect(0, 10, 80, 3), title: "Messages".into(), borders: Borders::Top });
    let shown = texts(&out);
    assert_eq!(
        shown,
        vec![
            " \u{2a2f} = `| \u{25a2} = ~ ",
            "00:51:45\u{2502}",
            "fail",
            "\u{2502}",
            "three",
            "\u{2192}",
            "second",
            "00:51:45\u{2502}",
            "info",
            "\u{2502}",
            "one",
            "\u{2192}",
            "first",
            "\u{2026} 1 skipped and 0 more",
            " \u{21ca} = D|\u{2193} = J|\u{21c8} = U|\u{2191} = K \u{2518}",
        ]
    );
    let bounds = draw::messages::compute_bounds(rect(0, 0, 80, 1), 5);
    assert_eq!(bounds.time, Some(rect(0, 0, 9, 1)));
    assert_eq!(bounds.level, Some(rect(10, 0, 5, 1)));
    assert_eq!(bounds.origin, Some(rect(15, 0, 6, 1)));
    assert_eq!(bounds.message, rect(21, 0, 59, 1));
    let narrow = draw::messages::compute_bounds(rect(0, 0, 50, 1), 5);
    assert_eq!((narrow.time, narrow.message), (None, rect(0, 0, 50, 1)));
    assert_eq!(draw::messages::format_level_column(MessageLevel::Success), "done");
    assert_eq!(draw::messages::level_to_style(MessageLevel::Failure), Style::new().fg(Color::Black).bold().bg(Color::Red));
}

#[test]
fn the_pane_of_information_leaves_room_around_titles() {
    let lines = vec![
        Line::Title("T1".into()),
        Line::Text("a".into()),
        Line::Text("b".into()),
        Line::Title("T2".into()),
        Line::Text("c".into()),
    ];
    let mut out = Vec::new();
    draw::information::pane(&mut out, &lines, rect(40, 0, 20, 12));
    assert_eq!(
        out[2..],
        [
            Draw::Title { bound: rect(40, 1, 19, 1), text: "T1".into() },
            Draw::Text { bound: rect(41, 3, 18, 1), text: "a".into(), style: None },
            Draw::Text { bound: rect(41, 4, 18, 1), text: "b".into(), style: None },
            Draw::Title { bound: rect(40, 6, 19, 1), text: "T2".into() },
            Draw::Text { bound: rect(41, 8, 18, 1), text: "c".into(), style: None },
        ]
    );
    let mut short = Vec::new();
    draw::information::pane(&mut short, &lines, rect(40, 0, 20, 5));
    assert_eq!(short.len(), 2 + 2);
}

#[test]
fn frames_come_to_an_end_when_progress_is_gone() {
    let options = Options { throughput: true, recompute_column_width_every_nth_frame: Some(3), ..Options::default() };
    let mut engine = Engine::new(&options);
    assert_eq!(engine.state.title, "Progress Dashboard");
    let terminal = rect(0, 0, 120, 30);
    assert_eq!(engine.render_frame(None, &options, terminal, now()), Frame::Stop);
    let patient = Options { stop_if_progress_missing: false, ..options.clone() };
    assert_eq!(engine.render_frame(None, &patient, terminal, now()), Frame::Nothing);
    let mut root = Root::new(10, 10);
    assert_eq!(engine.render_frame(Some(&root), &options, terminal, now()), Frame::Stop);
    let mut item = root.add_child("a task with a name".into());
    item.init(&mut root, Some(10), None);
    item.info(&mut root, "said".into());
    let draws = match engine.render_frame(Some(&root), &options, terminal, now()) {
        Frame::Draw(draws) => draws,
        other => {
            assert!(matches!(other, Frame::Draw(_)));
            return;
        }
    };
    assert_eq!(engine.tick, 4);
    assert_eq!(
        draws[0],
        Draw::Block { bound: terminal, title: "Progress Dashboard".into(), borders: Borders::All }
    );
    let shown = texts(&draws);
    assert!(shown.iter().any(|t| t.contains("1 running")));
    assert!(shown.contains(&"\u{2027} a task with a name ".to_string()));
    assert!(shown.contains(&"said".to_string()));
    assert_eq!(engine.messages.len(), 1);
    assert_eq!(engine.state.last_tree_column_width, Some(21));
    assert_eq!(engine.state.next_tree_column_width, None, "the width is taken over every third frame only");
    engine.render_frame(Some(&root), &options, terminal, now());
    engine.render_frame(Some(&root), &options, terminal, now());
    assert_eq!(engine.tick, 6);
    assert_eq!(engine.state.next_tree_column_width, Some(21));

    let tiny = draw::all(&mut engine.state, InterruptDrawInfo::Instantly, &engine.entries, &vec![None], &[], rect(0, 0, 3, 3), now());
    assert_eq!(tiny.len(), 1);
}

#[test]
fn the_column_of_origins_never_gets_narrower() {
    let message = |origin: &str, text: &str| Message {
        time: Time::from_epoch(Duration::from_millis(1_581_555_105_250)),
        level: MessageLevel::Info,
        origin: origin.into(),
        message: text.into(),
    };
    let arrow_at = |draws: &[Draw]| {
        draws
            .iter()
            .filter_map(|d| match d {
                Draw::Text { text, bound, .. } if text == "\u{2192}" => Some(bound.x),
                _ => None,
            })
            .collect::<Vec<_>>()
    };
    let mut offset = 0;
    let mut widest = 0;
    let mut out = Vec::new();
    let wide = vec![message("a-long-origin", "first")];
    draw::messages::pane(&mut out, &wide, rect(0, 0, 80, 3), rect(0, 3, 82, 1), &mut offset, &mut widest);
    assert_eq!(widest, 13);
    let first = arrow_at(&out);
    assert_eq!(first.len(), 1);

    let mut out = Vec::new();
    let narrow = vec![message("b", "second")];
    draw::messages::pane(&mut out, &narrow, rect(0, 0, 80, 3), rect(0, 3, 82, 1), &mut offset, &mut widest);
    assert_eq!(widest, 13);
    assert_eq!(arrow_at(&out), first);

    let mut state = State::default();
    assert_eq!(state.widest_origin, 0);
    draw::all(&mut state, InterruptDrawInfo::Instantly, &[], &vec![], &wide, rect(0, 0, 80, 20), now());
    assert_eq!(state.widest_origin, 13);
    draw::all(&mut state, InterruptDrawInfo::Instantly, &[], &vec![], &narrow, rect(0, 0, 80, 20), now());
    assert_eq!(state.widest_origin, 13);
}

#[test]
fn a_frame_keeps_the_offsets_within_what_can_be_shown() {
    let entries: Vec<(Key, TaskSnapshot)> = (0..3u16)
        .map(|id| (Key::default().add_child(id), task("t", Some(progress(1, Some(2))))))
        .collect();
    let mut state = State::default();
    state.task_offset = 1;
    state.message_offset = 9;
    let messages = vec![Message {
        time: now(),
        level: MessageLevel::Info,
        origin: "o".into(),
        message: "m".into(),
    }];
    draw::all(&mut state, InterruptDrawInfo::Instantly, &entries, &vec![None; 3], &messages, rect(0, 0, 80, 20), now());
    let after_first = (state.task_offset, state.message_offset);
    draw::all(&mut state, InterruptDrawInfo::Instantly, &entries, &vec![None; 3], &messages, rect(0, 0, 80, 20), now());
    assert_eq!((state.task_offset, state.message_offset), after_first);
    assert_eq!(state.task_offset, 0);
    assert_eq!(state.message_offset, 0);
    assert!(state.last_tree_column_width.is_some());
}
