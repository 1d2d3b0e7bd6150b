use prodash::key::Key;
use prodash::messages::MessageLevel;
use prodash::progress::{State, Task, TaskSnapshot, UNKNOWN};
use prodash::tree::{Options, Root, TaskMap};
use prodash::unit;

fn snapshot(root: &Root) -> Vec<(Key, TaskSnapshot)> {
    let mut out = Vec::new();
    root.sorted_snapshot(&mut out);
    out
}

#[test]
fn basic_tree() {
    let mut root = Root::new(100, 20);
    let mut a = root.add_child("a".into());
    a.init(&mut root, Some(10), Some(unit::label("elem")));
    a.set(5);
    let entries = snapshot(&root);
    assert_eq!(entries.len(), 1);
    let (key, task) = &entries[0];
    assert_eq!(key.level(), 1);
    assert_eq!(task.name, "a");
    let progress = task.progress.expect("initialized");
    assert_eq!(progress.step, 5);
    assert_eq!(progress.done_at, Some(10));
    assert_eq!(progress.state, State::Running);
    let fraction = progress.fraction().expect("bounded");
    let value = fraction.numerator as f32 / fraction.denominator as f32;
    assert!((value - 0.5).abs() < f32::EPSILON);
    assert_eq!(root.num_tasks(), 1);
}

#[test]
fn drop_cleanup() {
    let mut root = Root::new(100, 20);
    let mut a = root.add_child("a".into());
    let b = a.add_child(&mut root, "b".into());
    let a_key = a.key_of();
    a.release(&mut root);
    let entries = snapshot(&root);
    assert_eq!(entries.len(), 1);
    assert_eq!(entries[0].0, b.key_of());
    assert_eq!(entries[0].1.name, "b");
    assert!(entries.iter().all(|(k, _)| *k != a_key));
    assert_eq!(b.key_of(), a_key.add_child(0));
}

#[test]
fn children_get_consecutive_ids_and_snapshots_are_sorted() {
    let mut root = Root::new(1, 1);
    let mut first = root.add_child("first".into());
    let mut second = root.add_child_with_id("second".into(), *b"SCND");
    let inner = second.add_child(&mut root, "inner".into());
    let other = first.add_child(&mut root, "other".into());
    let another = first.add_child(&mut root, "another".into());
    let entries = snapshot(&root);
    let names: Vec<&str> = entries.iter().map(|(_, t)| t.name.as_str()).collect();
    assert_eq!(names, vec!["first", "other", "another", "second", "inner"]);
    let mut sorted = entries.clone();
    sorted.sort_by_key(|e| e.0);
    assert_eq!(sorted, entries);
    assert_eq!(second.id(&root), *b"SCND");
    assert_eq!(first.id(&root), UNKNOWN);
    assert_eq!(other.key_of(), first.key_of().add_child(0));
    assert_eq!(another.key_of(), first.key_of().add_child(1));
    assert_eq!(inner.key_of(), Key::default().add_child(1).add_child(0));
}

#[test]
fn items_alias_their_parent_row_at_the_deepest_level() {
    let mut root = Root::new(1, 1);
    let mut item = root.add_child("1".into());
    for level in 2..=6 {
        item = item.add_child(&mut root, format!("{}", level));
    }
    assert_eq!(item.key_of().level(), 6);
    let before = root.num_tasks();
    let deeper = item.add_child(&mut root, "7".into());
    assert_eq!(deeper.key_of().level(), 6);
    assert_eq!(deeper.key_of(), item.key_of());
    assert_eq!(root.num_tasks(), before);
    assert_eq!(item.name(&root).as_deref(), Some("7"));
    deeper.release(&mut root);
    assert_eq!(item.name(&root), None);
    item.release(&mut root);
    assert_eq!(root.num_tasks(), before - 1);
}

#[test]
fn init_set_max_and_states() {
    let mut root = Options::default().create();
    let mut item = root.add_child("task".into());
    assert_eq!(item.max(&root), None);
    assert_eq!(item.set_max(&mut root, Some(3)), None);
    assert!(snapshot(&root)[0].1.progress.is_none());

    item.init(&mut root, Some(10), None);
    assert_eq!(item.max(&root), Some(10));
    assert_eq!(item.set_max(&mut root, Some(20)), Some(10));
    assert_eq!(item.set_max(&mut root, None), Some(20));
    assert_eq!(item.max(&root), None);
    assert!(item.unit(&root).is_none());

    item.inc();
    item.inc_by(4);
    assert_eq!(item.step(), Some(5));
    assert_eq!(snapshot(&root)[0].1.progress.unwrap().step, 5);

    item.blocked(&mut root, "waiting", None);
    assert_eq!(snapshot(&root)[0].1.progress.unwrap().state, State::Blocked("waiting", None));
    item.halted(&mut root, "paused", None);
    assert_eq!(snapshot(&root)[0].1.progress.unwrap().state, State::Halted("paused", None));
    item.running(&mut root);
    assert_eq!(snapshot(&root)[0].1.progress.unwrap().state, State::Running);

    item.init(&mut root, None, Some(unit::label("items")));
    assert_eq!(item.step(), Some(0));
    assert_eq!(item.unit(&root), Some(unit::label("items")));
    item.init(&mut root, None, None);
    assert!(snapshot(&root)[0].1.progress.is_none());
    item.blocked(&mut root, "nothing to block", None);
    assert!(snapshot(&root)[0].1.progress.is_none());

    item.set_name(&mut root, "renamed".into());
    assert_eq!(item.name(&root).as_deref(), Some("renamed"));
}

#[test]
fn counter_is_shared_and_never_goes_back_by_inc() {
    let mut root = Root::new(1, 1);
    let mut item = root.add_child("count".into());
    item.init(&mut root, None, Some(unit::label("items")));
    let counter = item.counter().expect("always there");
    let mut last = 0;
    for _ in 0..100 {
        item.inc();
        let step = snapshot(&root)[0].1.progress.unwrap().step;
        assert!(step >= last);
        last = step;
    }
    assert_eq!(last, 100);
    counter.fetch_add(5, std::sync::atomic::Ordering::SeqCst);
    assert_eq!(item.step(), Some(105));
}

#[test]
fn operations_on_a_removed_row_do_nothing() {
    let mut root = Root::new(1, 2);
    let mut item = root.add_child("gone".into());
    let key = item.key_of();
    let mut handle_on_same_row = Root::new(1, 1).add_child("other tree".into());
    assert_eq!(handle_on_same_row.key_of(), key);
    handle_on_same_row.release(&mut root);
    assert_eq!(root.num_tasks(), 0);
    item.init(&mut root, Some(1), None);
    item.set_name(&mut root, "x".into());
    item.running(&mut root);
    assert_eq!(item.set_max(&mut root, Some(2)), None);
    assert_eq!(item.name(&root), None);
    assert_eq!(item.id(&root), UNKNOWN);
    assert_eq!(root.num_tasks(), 0);
    item.info(&mut root, "still talks".into());
    let mut out = Vec::new();
    root.copy_messages(&mut out);
    assert_eq!(out.len(), 1);
    assert_eq!(out[0].origin, "");
    item.release(&mut root);
}

#[test]
fn messages_carry_level_and_origin() {
    let mut root = Root::new(1, 2);
    assert_eq!(root.messages_capacity(), 2);
    let item = root.add_child("origin".into());
    item.info(&mut root, "one".into());
    item.done(&mut root, "two".into());
    item.fail(&mut root, "three".into());
    let mut out = Vec::new();
    root.copy_messages(&mut out);
    let seen: Vec<(MessageLevel, &str, &str)> =
        out.iter().map(|m| (m.level, m.origin.as_str(), m.message.as_str())).collect();
    assert_eq!(
        seen,
        vec![(MessageLevel::Success, "origin", "two"), (MessageLevel::Failure, "origin", "three")]
    );
    let state = root.copy_new_messages(&mut out, None);
    assert_eq!(out.len(), 2);
    item.message(&mut root, MessageLevel::Info, "four".into());
    root.copy_new_messages_since(&mut out, Some(state));
    assert_eq!(out.iter().map(|m| m.message.as_str()).collect::<Vec<_>>(), vec!["four"]);
}

#[test]
fn task_map_inserts_replaces_and_removes() {
    let mut map = TaskMap::with_capacity(0);
    let key = |ids: &[u16]| ids.iter().fold(Key::default(), |k, id| k.add_child(*id));
    let task = |name: &str| Task { name: name.into(), id: UNKNOWN, progress: None };
    assert_eq!(map.len(), 0);
    assert!(map.insert(key(&[2]), task("b")).is_none());
    assert!(map.insert(key(&[1]), task("a")).is_none());
    assert!(map.insert(key(&[1, 5]), task("a5")).is_none());
    assert_eq!(map.insert(key(&[2]), task("b2")).map(|t| t.name), Some("b".to_string()));
    assert_eq!(map.len(), 3);
    assert!(map.contains_key(&key(&[1, 5])));
    assert!(!map.contains_key(&key(&[1, 6])));
    assert_eq!(map.get(&key(&[2])).map(|t| t.name), Some("b2".to_string()));
    assert!(map.get(&key(&[])).is_none());
    let mut out = Vec::new();
    map.sorted_snapshot(&mut out);
    assert_eq!(out.iter().map(|e| e.1.name.as_str()).collect::<Vec<_>>(), vec!["a", "a5", "b2"]);
    assert_eq!(map.remove(&key(&[1])).map(|t| t.name), Some("a".to_string()));
    assert!(map.remove(&key(&[1])).is_none());
    assert_eq!(map.len(), 2);
}

#[test]
fn default_tasks_are_groups_without_a_name() {
    let task = Task::default();
    assert_eq!(task.name, "");
    assert_eq!(task.id, UNKNOWN);
    assert!(task.progress.is_none());
    assert_eq!(task.snapshot(), TaskSnapshot::default());
    assert_eq!(TaskSnapshot::default().duplicate(), TaskSnapshot::default());
    assert_eq!(State::default(), State::Running);
    let root = Root::default();
    assert_eq!(root.messages_capacity(), 20);
    assert_eq!(root.num_tasks(), 0);
}

#[test]
fn mod_thread_safe() {
    fn needs_send_sync<'a, T: Sync + Send + 'a>(_p: T) {}
    let mut root = Root::new(100, 20);
    let mut child = root.add_child("hello".into());
    needs_send_sync(&child);
    let child_of_child = child.add_child(&mut root, "there".into());
    needs_send_sync(&child_of_child);
    needs_send_sync(child_of_child);
    needs_send_sync(child);
    needs_send_sync(root);
}

#[test]
fn a_tree_without_room_for_messages_takes_them_and_keeps_none() {
    let mut root = Root::new(10, 0);
    let item = root.add_child("task".into());
    item.info(&mut root, "hello".into());
    item.done(&mut root, "done".into());
    item.fail(&mut root, "failed".into());
    item.show_throughput(&mut root, prodash::time::Duration::from_secs(1));
    let mut out = Vec::new();
    root.copy_messages(&mut out);
    assert!(out.is_empty());
    assert_eq!(root.messages_capacity(), 0);
    assert_eq!(root.num_tasks(), 1);
}

#[test]
fn new_trees_number_their_children_from_zero() {
    for mut root in [Root::default(), Options::default().create(), Root::new(1, 1)] {
        let first = root.add_child("a".into());
        let second = root.add_child("b".into());
        assert_eq!(first.key_of(), Key::default().add_child(0));
        assert_eq!(second.key_of(), Key::default().add_child(1));
    }
}
