use prodash::key::Key;
use prodash::line::draw::{self, Command, Options, State};
use prodash::line::engine;
use prodash::line::{Event, JoinHandle};
use prodash::messages::{Message, MessageLevel};
use prodash::progress::{Progress, State as ProgressState, TaskSnapshot};
use prodash::style::{block_count_sans_ansi_codes, Brush, Color, Style, Token};
use prodash::time::{Duration, Time};
use prodash::tree::Root;
use prodash::unit;
use unicode_width::UnicodeWidthStr;

fn options() -> Options {
    Options {
        level_filter: None,
        column_count: 40,
        keep_running_if_progress_is_empty: true,
        output_is_terminal: true,
        colored: true,
        timestamp: false,
        hide_cursor: false,
    }
}

fn message(origin: &str, text: &str, level: MessageLevel) -> Message {
    Message {
        time: Time::from_epoch(Duration::from_millis(1_581_555_105_250)),
        level,
        origin: origin.into(),
        message: text.into(),
    }
}

fn text_of(tokens: &[Token]) -> String {
    tokens.iter().map(|t| t.text.as_str()).collect()
}

fn lines_of(commands: &[Command]) -> Vec<(String, u16)> {
    commands
        .iter()
        .filter_map(|c| match c {
            Command::Line { tokens, pad } => Some((text_of(tokens), *pad)),
            Command::MoveUp(_) => None,
        })
        .collect()
}

fn task(name: &str, progress: Option<Progress>) -> TaskSnapshot {
    TaskSnapshot { name: name.into(), id: [0; 4], progress }
}

fn bounded(step: usize, done_at: usize) -> Progress {
    Progress { step, done_at: Some(done_at), unit: None, state: ProgressState::Running }
}

#[test]
fn overdraw_covers_what_the_frame_before_left_behind() {
    let mut state = State::default();
    let key = Key::default().add_child(0);
    state.tree = vec![(key, task("a long name that takes many columns", None))];
    let first = draw::frame(&mut state, &options(), &vec![None]);
    let long = lines_of(&first);
    assert_eq!(long, vec![(" a long name that takes many columns".to_string(), 0)]);
    let long_width = long[0].0.width() as u16;
    assert_eq!(state.blocks_per_line, vec![long_width]);
    assert_eq!(first.last(), Some(&Command::MoveUp(1)));

    state.tree = vec![(key, task("short", None))];
    let second = draw::frame(&mut state, &options(), &vec![None]);
    let short = lines_of(&second);
    assert_eq!(short.len(), 1);
    assert_eq!(short[0].0, " short");
    assert_eq!(short[0].0.width() as u16 + short[0].1, long_width);
    assert_eq!(state.blocks_per_line, vec![6]);

    state.tree.clear();
    state.messages = vec![message("o", "m", MessageLevel::Info)];
    let third = draw::frame(&mut state, &options(), &vec![]);
    assert_eq!(lines_of(&third), vec![(" o m".to_string(), 2)]);
    assert_eq!(third.last(), Some(&Command::MoveUp(0)));
    assert!(state.blocks_per_line.is_empty());
    assert_eq!(state.ticks, 3);
}

#[test]
fn lines_that_are_gone_are_wiped() {
    let mut state = State::default();
    let keys: Vec<Key> = (0..3).map(|i| Key::default().add_child(i)).collect();
    state.tree = keys.iter().map(|k| (*k, task("name", None))).collect();
    let first = draw::frame(&mut state, &options(), &vec![None; 3]);
    assert_eq!(lines_of(&first).len(), 3);
    assert_eq!(first.last(), Some(&Command::MoveUp(3)));
    state.tree.truncate(1);
    let second = draw::frame(&mut state, &options(), &vec![None]);
    assert_eq!(
        lines_of(&second),
        vec![(" name".to_string(), 0), ("".to_string(), 5), ("".to_string(), 5)]
    );
    assert_eq!(second.last(), Some(&Command::MoveUp(3)));
    assert_eq!(state.blocks_per_line.len(), 1);
}

#[test]
fn messages_align_their_origins_and_show_their_level() {
    let mut state = State::default();
    state.messages = vec![
        message("ab", "first", MessageLevel::Info),
        message("abcd", "second", MessageLevel::Failure),
        message("a", "third", MessageLevel::Success),
    ];
    let mut out = Vec::new();
    draw::messages(&mut out, &mut state, true, true);
    assert_eq!(
        lines_of(&out),
        vec![
            (" 00:51:45 ab first".to_string(), 0),
            (" 00:51:45 abcd second".to_string(), 0),
            (" 00:51:45    a third".to_string(), 0),
        ]
    );
    assert_eq!(state.max_message_origin_size, 4);
    match &out[1] {
        Command::Line { tokens, .. } => {
            assert_eq!(tokens.len(), 6);
            assert_eq!(tokens[1].style, Color::Red.dimmed().on(Color::Yellow));
            assert_eq!(tokens[3].style, Style::new().dimmed());
            assert_eq!(tokens[5].style, Color::Red.bold());
        }
        Command::MoveUp(_) => unreachable!("messages are lines"),
    }
    let plain = draw::message_tokens(&state.messages[2], false, false, 3);
    assert_eq!(plain.len(), 5);
    assert!(plain.iter().all(|t| t.style == Style::new()));
    assert_eq!(text_of(&plain), "    a third");
    assert_eq!(draw::to_color(MessageLevel::Success), Color::Green);
    assert_eq!(draw::to_color(MessageLevel::Info), Color::White);
}

#[test]
fn progress_lines_show_steps_units_and_a_bar() {
    let key = Key::default().add_child(1).add_child(2);
    let mut tokens = Vec::new();
    draw::format_progress(&key, &task("name", Some(bounded(5, 10))), 0, 30, true, None, &mut tokens);
    assert_eq!(text_of(&tokens), "  name 5 / 10 [======>       ]");
    assert_eq!(block_count_sans_ansi_codes(&tokens), 30);
    assert_eq!(tokens[1].style, Color::Cyan.bold());
    assert_eq!(tokens[5].style, Color::Yellow.normal());

    let with_unit = Progress { unit: Some(unit::label("items")), ..bounded(9, 10) };
    draw::format_progress(&key, &task("n", Some(with_unit)), 0, 0, false, None, &mut tokens);
    assert_eq!(text_of(&tokens), "  n 9 / 10 items");
    assert_eq!(draw::progress_style(&with_unit), Color::Green.normal());
    assert_eq!(draw::progress_style(&bounded(8, 10)), Color::Yellow.normal());
    assert_eq!(draw::progress_style(&bounded(1, 0)), Color::Green.normal());

    let unbounded = Progress { step: 3, done_at: None, unit: None, state: ProgressState::Halted("h", None) };
    assert_eq!(draw::progress_style(&unbounded), Color::Red.dimmed());
    let blocked = Progress { state: ProgressState::Blocked("b", None), ..unbounded };
    assert_eq!(draw::progress_style(&blocked), Color::Red.normal());
    let running = Progress { state: ProgressState::Running, ..unbounded };
    assert_eq!(draw::progress_style(&running), Color::White.normal());

    draw::format_progress(&key, &task("group", None), 0, 30, true, None, &mut tokens);
    assert_eq!(text_of(&tokens), "  group");
    assert_eq!(tokens[1].style, Color::White.bold());
}

#[test]
fn bars_clamp_and_spin() {
    let mut buf = Vec::new();
    draw::draw_progress_bar(&bounded(20, 10), Style::new(), false, 0, 10, &mut buf);
    assert_eq!(text_of(&buf), " [======>]");
    buf.clear();
    draw::draw_progress_bar(&bounded(0, 10), Style::new(), false, 0, 3, &mut buf);
    assert_eq!(text_of(&buf), " [>]");
    buf.clear();
    let unbounded = Progress { step: 0, done_at: None, unit: None, state: ProgressState::Running };
    draw::draw_progress_bar(&unbounded, Style::new(), false, 1, 7, &mut buf);
    assert_eq!(text_of(&buf), " [\u{2819}\u{2809}\u{2801}]");
    buf.clear();
    draw::draw_progress_bar(&unbounded, Style::new(), false, usize::MAX - 1, 7, &mut buf);
    assert_eq!(text_of(&buf).chars().count(), 4);
    assert_eq!(draw::spinner_char(28), '\u{2808}');
    assert_eq!(draw::spinner_char(29), '\u{2801}');
}

#[test]
fn the_level_filter_picks_lines() {
    let mut state = State::default();
    let one = Key::default().add_child(0);
    let two = one.add_child(0);
    let three = two.add_child(0);
    state.tree = vec![(one, task("1", None)), (two, task("2", None)), (three, task("3", None))];
    let config = Options { level_filter: Some((2, 3)), ..options() };
    let drawn = draw::frame(&mut state, &config, &vec![None; 3]);
    assert_eq!(lines_of(&drawn), vec![("  2".to_string(), 0), ("   3".to_string(), 0)]);
    assert!(draw::is_in_range(&None, 200));
    assert!(!draw::is_in_range(&Some((2, 3)), 1));

    let not_a_terminal = Options { output_is_terminal: false, ..options() };
    let quiet = draw::frame(&mut state, &not_a_terminal, &vec![None; 3]);
    assert!(quiet.is_empty());
    assert_eq!(state.blocks_per_line.len(), 2);
}

#[test]
fn frames_of_a_tree() {
    let mut root = Root::new(10, 10);
    let mut state = engine::Options { throughput: true, ..Default::default() }.initial_state();
    assert!(state.throughput.is_some());
    let config = Options { keep_running_if_progress_is_empty: false, ..options() };
    assert_eq!(draw::all(&root, true, &mut state, &config), Err(draw::ProgressEmpty));
    assert_eq!(
        engine::handle(Event::Tick, &root, true, true, &mut state, &config),
        engine::Action::Stop { show_cursor: true }
    );
    let mut item = root.add_child("task".into());
    item.init(&mut root, Some(4), Some(unit::label("steps")));
    item.set(1);
    item.info(&mut root, "hello".into());
    let commands = draw::all(&root, true, &mut state, &config).expect("a task to show");
    assert_eq!(
        lines_of(&commands),
        vec![(" task hello".to_string(), 0), (" task 1 / 4 steps [====>               ]".to_string(), 0)]
    );
    assert_eq!(state.ticks, 1);
    let held_back = draw::all(&root, false, &mut state, &config).expect("a task to show");
    assert_eq!(lines_of(&held_back), vec![]);
    assert_eq!(held_back, vec![]);
    match engine::handle(Event::Tick, &root, true, false, &mut state, &config) {
        engine::Action::Draw(commands) => assert_eq!(lines_of(&commands).len(), 1),
        engine::Action::Stop { .. } => unreachable!("there is a task"),
    }
    assert_eq!(
        engine::handle(Event::Quit, &root, true, false, &mut state, &config),
        engine::Action::Stop { show_cursor: false }
    );
}

#[test]
fn the_engine_decides() {
    let delay = Some(Duration::from_secs(2));
    assert!(engine::shows_progress(&None, &Duration::default()));
    assert!(!engine::shows_progress(&delay, &Duration::from_millis(1999)));
    assert!(engine::shows_progress(&delay, &Duration::from_secs(2)));
    assert!(engine::hides_cursor(true, true, true));
    assert!(!engine::hides_cursor(true, false, true));
    assert!(!engine::hides_cursor(false, true, true));
    let mut handle = JoinHandle::new();
    assert_eq!(handle.shutdown(), vec![Event::Tick, Event::Quit]);
    handle.disconnect();
    assert_eq!(handle.shutdown(), vec![]);
    let defaults = engine::Options::default();
    assert_eq!(defaults.terminal_dimensions, (80, 20));
    assert_eq!(defaults.draw_options().column_count, 80);
    assert!(defaults.keep_running_if_progress_is_empty);
}

#[test]
fn brushes_paint_only_when_allowed() {
    let mut brush = Brush::new(true);
    assert_eq!(brush.paint("x".into()).style, Style::new());
    brush.style(Color::Red.bold());
    assert_eq!(brush.paint("x".into()), Token { style: Color::Red.bold(), text: "x".into() });
    let mut dry = Brush::new(false);
    dry.style(Color::Red.bold());
    assert_eq!(dry.paint("x".into()), Token::plain("x".into()));
    assert_eq!(Token::from_str("x").duplicate(), Token::plain("x".into()));
    assert_eq!(Style::default().fg(Color::Black).bg(Color::White).bold().dimmed().on(Color::Green).background, Some(Color::Green));
    let mut out = Vec::new();
    let width = draw::newline_with_overdraw(&mut out, vec![Token::from_str("ab"), Token::from_str("c")], 10);
    assert_eq!(width, 3);
    assert_eq!(out, vec![Command::Line { tokens: vec![Token::from_str("ab"), Token::from_str("c")], pad: 7 }]);
}

#[test]
fn a_refused_frame_takes_no_message() {
    let mut root = Root::new(10, 10);
    let mut state = State::default();
    let config = Options { keep_running_if_progress_is_empty: false, ..options() };
    let mut item = root.add_child("task".into());
    item.init(&mut root, None, None);
    item.info(&mut root, "a-long-origin-is-not-this".into());
    draw::all_at(&root, true, &mut state, &config, Time::from_epoch(Duration::from_secs(5)))
        .expect("a task to show");
    assert_eq!(state.messages.len(), 1);
    assert_eq!(state.max_message_origin_size, 4);
    assert!(state.for_next_copy.is_some());
    let ticks = state.ticks;
    item.info(&mut root, "more".into());
    item.release(&mut root);
    let refused = draw::all_at(&root, true, &mut state, &config, Time::from_epoch(Duration::from_secs(6)));
    assert_eq!(refused, Err(draw::ProgressEmpty));
    assert_eq!(state.ticks, ticks);
    assert_eq!(state.messages.len(), 1);
    assert_eq!(state.messages[0].message, "a-long-origin-is-not-this");
    assert_eq!(state.max_message_origin_size, 4);
    let keep = Options { keep_running_if_progress_is_empty: true, ..options() };
    draw::all_at(&root, true, &mut state, &keep, Time::from_epoch(Duration::from_secs(7)))
        .expect("an empty tree is shown");
    assert_eq!(state.messages.len(), 1);
    assert_eq!(state.messages[0].message, "more");
}
