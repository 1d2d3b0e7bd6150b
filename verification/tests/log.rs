use prodash::log::{Log, Severity};
use prodash::messages::MessageLevel;
use prodash::progress::{Discard, DoOrDiscard};
use prodash::time::Duration;
use prodash::throughput::show_throughput_text;
use prodash::tree::Root;
use prodash::unit::{self, Bytes};
use std::sync::atomic::{AtomicBool, Ordering};
use std::sync::Arc;

#[test]
fn names_are_joined_and_split() {
    let trigger = Arc::new(AtomicBool::new(true));
    let mut root = Log::new("root".into(), Some(1), Arc::clone(&trigger));
    assert_eq!(root.name(), None);
    let mut child = root.add_child("child".into());
    assert_eq!(child.name().as_deref(), Some("child"));
    let mut grandchild = child.add_child("grand:child".into());
    assert_eq!(grandchild.name().as_deref(), Some("child"));
    child.set_name("renamed".into());
    assert_eq!(child.name().as_deref(), Some("renamed"));
    root.set_name("x".into());
    assert_eq!(root.name().as_deref(), Some("x"));

    assert_eq!(child.set(3).as_deref(), Some("root::renamed \u{2192} 3"));
    assert_eq!(child.set(4), None, "the trigger is taken back");
    trigger.store(true, Ordering::Relaxed);
    child.init(Some(10), None);
    assert_eq!(child.inc_by(2).as_deref(), Some("root::renamed \u{2192} 6 / 10"));
    assert_eq!((child.step(), child.max(), child.unit()), (6, Some(10), None));
    trigger.store(true, Ordering::Relaxed);
    assert_eq!(grandchild.set(1), None, "too deep");
    assert!(trigger.load(Ordering::Relaxed), "the trigger is left alone");
    child.init(Some(2000), Some(unit::dynamic(Bytes)));
    assert_eq!(child.line_to_log(true).as_deref(), Some("root::renamed \u{2192} 6B/2.0KB"));
    assert_eq!(child.line_to_log(false), None);
    assert_eq!(
        child.message(MessageLevel::Failure, "no".into()),
        (Severity::Error, "\u{10102}root::renamed \u{2192} no".to_string())
    );
    assert_eq!(child.message(MessageLevel::Success, "ok".into()).1, "\u{2713}root::renamed \u{2192} ok");
    assert_eq!(child.message(MessageLevel::Info, "i".into()), (Severity::Info, "\u{2139}root::renamed \u{2192} i".to_string()));
}

#[test]
fn work_that_is_done_is_summed_up() {
    assert_eq!(
        show_throughput_text(500, None, Duration::from_millis(2000)),
        "done 500 items in 2.00s (250 items/s)"
    );
    assert_eq!(
        show_throughput_text(3, Some(&unit::label("files")), Duration::from_millis(1234)),
        "done 3 files in 1.23s (2 files/s)"
    );
    assert_eq!(
        show_throughput_text(3_000_000, Some(&unit::dynamic(Bytes)), Duration::from_millis(1995)),
        "done 3.0MB in 2.00s (1.5MB/s)"
    );
    assert_eq!(show_throughput_text(1, None, Duration::default()), format!("done 1 items in 0.00s ({} items/s)", usize::MAX));
    let mut root = Root::new(1, 2);
    let mut item = root.add_child("work".into());
    item.set(10);
    item.show_throughput(&mut root, Duration::from_secs(5));
    item.show_throughput_with(&mut root, Duration::from_secs(1), 4, unit::label("x"), MessageLevel::Success);
    let mut out = Vec::new();
    root.copy_messages(&mut out);
    assert_eq!(out[0].message, "done 10 items in 5.00s (2 items/s)");
    assert_eq!((out[1].level, out[1].message.as_str()), (MessageLevel::Success, "done 4 x in 1.00s (4 x/s)"));
}

#[test]
fn progress_that_may_not_be_there() {
    let mut there = DoOrDiscard::from(Some(5u8));
    assert_eq!(there.take(), Some(5));
    assert_eq!(there.take(), None);
    assert_eq!(there.into_inner(), None);
    assert_eq!(DoOrDiscard::new(Some("p")).into_inner(), Some("p"));
    assert_eq!(DoOrDiscard::<Discard>::from(None).into_inner(), None);
}

#[test]
fn deep_clones_have_counters_of_their_own() {
    let mut root = Root::new(1, 2);
    let mut item = root.add_child("a".into());
    item.init(&mut root, Some(3), None);
    item.set(2);
    item.info(&mut root, "m".into());
    let copy = root.deep_clone();
    item.set(3);
    let mut mine = Vec::new();
    let mut theirs = Vec::new();
    root.sorted_snapshot(&mut mine);
    copy.sorted_snapshot(&mut theirs);
    assert_eq!(mine[0].1.progress.unwrap().step, 3);
    assert_eq!(theirs[0].1.progress.unwrap().step, 2);
    assert_eq!(mine[0].1.name, theirs[0].1.name);
    let mut messages = Vec::new();
    copy.copy_messages(&mut messages);
    assert_eq!(messages.len(), 1);
}

#[test]
fn a_progress_made_of_an_option_gives_it_back() {
    assert_eq!(DoOrDiscard::from(Some(7u8)).into_inner(), Some(7));
    assert_eq!(DoOrDiscard::<u8>::from(None).into_inner(), None);
    let mut there = DoOrDiscard::from(Some(7u8));
    assert_eq!(there.take(), Some(7));
    assert_eq!(there.take(), None);
    assert_eq!(there.into_inner(), None);
}
