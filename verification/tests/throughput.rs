use prodash::key::Key;
use prodash::progress::{Progress, State as ProgressState, TaskSnapshot};
use prodash::throughput::{observe, State, Throughput};
use prodash::time::{Duration, Time};
use prodash::unit::display;

fn progress(step: usize) -> Progress {
    Progress { step, done_at: None, unit: None, state: ProgressState::Running }
}

fn at(millis: u64) -> Time {
    Time::from_epoch(Duration::from_millis(millis))
}

#[test]
fn steady_increments_are_estimated_after_more_than_a_second() {
    for (k, fps) in [(7usize, 4u64), (1, 10), (250, 2), (3, 1)] {
        let frame = Duration::from_millis(1000 / fps);
        let mut state = State::new(100, frame);
        let mut seen = None;
        let mut frames = 0u64;
        for i in 1..=(fps * 3) {
            let tp = state.update(100 + (i as usize) * k, frame);
            if seen.is_none() && tp.is_some() {
                seen = tp;
                frames = i;
            }
        }
        let tp = seen.expect("an estimate within three seconds");
        assert_eq!(tp.timespan, Duration::from_secs(1));
        assert_eq!(tp.value_change_in_timespan, k * fps as usize);
        assert_eq!(frames, fps + 1, "the first frame that lies more than a second after the start");
    }
}

#[test]
fn estimates_exist_only_after_the_first_interval() {
    let mut state = State::new(0, Duration::from_millis(500));
    assert_eq!(state.throughput(), None);
    assert_eq!(state.update(10, Duration::from_millis(500)), None);
    assert_eq!(state.update(20, Duration::from_millis(500)), None);
    assert_eq!(
        state.update(30, Duration::from_millis(500)),
        Some(display::Throughput::new(20, Duration::from_secs(1)))
    );
    assert_eq!(
        state.update(30, Duration::from_millis(500)),
        Some(display::Throughput::new(20, Duration::from_secs(1)))
    );
}

#[test]
fn a_value_that_goes_back_counts_as_no_change() {
    let mut state = State::new(100, Duration::from_secs(1));
    let tp = state.update(50, Duration::from_secs(2)).expect("more than a second has passed");
    assert_eq!(tp.value_change_in_timespan, 0);
}

#[test]
fn no_time_at_all_gives_no_speed_or_the_highest() {
    let mut still = State::new(0, Duration::from_secs(0));
    assert_eq!(still.compute_throughput(), 0);
    let mut jump = State::new(5, Duration::from_secs(0));
    assert_eq!(jump.compute_throughput(), usize::MAX);
}

#[test]
fn throughput_follows_keys_and_forgets_those_that_are_gone() {
    let a = Key::default().add_child(1);
    let b = Key::default().add_child(2);
    let mut tp = Throughput::default();
    assert_eq!(tp.update_and_get(&a, Some(&progress(1))), None, "no frame before this one");
    tp.update_elapsed_at(at(0));
    assert_eq!(tp.update_and_get(&a, Some(&progress(1))), None, "still no time between frames");
    tp.update_elapsed_at(at(600));
    assert_eq!(tp.update_and_get(&a, Some(&progress(1))), None, "first observation");
    assert_eq!(tp.update_and_get(&b, None), None, "no progress");
    tp.update_elapsed_at(at(1200));
    assert_eq!(tp.update_and_get(&a, Some(&progress(7))), None);
    assert_eq!(tp.update_and_get(&b, Some(&progress(0))), None);
    tp.update_elapsed_at(at(1800));
    assert_eq!(
        tp.update_and_get(&a, Some(&progress(13))),
        Some(display::Throughput::new(10, Duration::from_secs(1)))
    );
    let only_b: Vec<(Key, TaskSnapshot)> = vec![(b, TaskSnapshot::default())];
    tp.reconcile(&only_b);
    tp.update_elapsed_at(at(2400));
    assert_eq!(tp.update_and_get(&a, Some(&progress(19))), None, "a starts over");
    tp.update_elapsed_at(at(2000));
    assert_eq!(tp.update_and_get(&a, Some(&progress(19))), None, "the clock went back");
}

#[test]
fn observe_yields_a_rate_per_task() {
    let a = Key::default().add_child(1);
    let b = Key::default().add_child(2);
    let task = |step| TaskSnapshot { name: "t".into(), id: [0; 4], progress: Some(progress(step)) };
    let mut none = None;
    let tree = vec![(a, task(1)), (b, TaskSnapshot::default())];
    assert_eq!(observe(&mut none, &tree, at(0)), vec![None, None]);
    assert!(none.is_none());
    let mut some = Some(Throughput::default());
    for (i, step) in [(0u64, 0usize), (1, 10), (2, 20), (3, 30)] {
        let rates = observe(&mut some, &[(a, task(step)), (b, TaskSnapshot::default())], at(i * 600));
        assert_eq!(rates.len(), 2);
        assert_eq!(rates[1], None);
        if i == 3 {
            assert_eq!(rates[0], Some(display::Throughput::new(16, Duration::from_secs(1))));
        } else {
            assert_eq!(rates[0], None);
        }
    }
    some.as_mut().unwrap().update_elapsed();
}
