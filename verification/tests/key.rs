use prodash::key::SiblingLocation::{Above, AboveAndBelow, Below, NotFound};
use prodash::key::{Adjacency, Key, SiblingLocation};
use prodash::progress::Task;

#[test]
fn size_in_memory() {
    assert_eq!(std::mem::size_of::<Key>(), 24);
}

fn to_kv(keys: &[Key]) -> Vec<(Key, Task)> {
    let mut v: Vec<_> = keys.iter().map(|k| (k.to_owned(), Task::default())).collect();
    v.sort_by_key(|v| v.0);
    v
}

fn root_with_two_children() -> Vec<(Key, Task)> {
    let r = Key::default();
    to_kv(&[r.add_child(1), r.add_child(2)][..])
}

fn root_with_two_children_with_two_children() -> Vec<(Key, Task)> {
    let r = Key::default();
    let p1 = r.add_child(1);
    let p2 = r.add_child(2);
    to_kv(&[p1, p1.add_child(1), p1.add_child(2), p2, p2.add_child(1), p2.add_child(2)][..])
}

fn root_with_three_levels() -> Vec<(Key, Task)> {
    let r = Key::default();
    let p1 = r.add_child(1);
    let p2 = p1.add_child(2);
    to_kv(&[p1, p2, p2.add_child(1)][..])
}

fn root_with_three_levels_two_siblings_on_level_2() -> Vec<(Key, Task)> {
    let r = Key::default();
    let p1 = r.add_child(1);
    let p11 = p1.add_child(1);
    let p12 = p1.add_child(2);
    to_kv(&[p1, p11, p11.add_child(1), p12, p12.add_child(1)][..])
}

#[test]
fn key_root_level() {
    let entries = root_with_two_children();
    assert_eq!(
        Key::adjacency(&entries, 0),
        Adjacency(AboveAndBelow, NotFound, NotFound, NotFound, NotFound, NotFound)
    );
    assert_eq!(
        Key::adjacency(&entries, 1),
        Adjacency(Above, NotFound, NotFound, NotFound, NotFound, NotFound)
    );
}

#[test]
fn key_level_2_two_siblings() {
    let entries = root_with_two_children_with_two_children();
    assert_eq!(
        Key::adjacency(&entries, 0),
        Adjacency(AboveAndBelow, NotFound, NotFound, NotFound, NotFound, NotFound)
    );
    assert_eq!(
        Key::adjacency(&entries, 1),
        Adjacency(AboveAndBelow, AboveAndBelow, NotFound, NotFound, NotFound, NotFound)
    );
    assert_eq!(
        Key::adjacency(&entries, 2),
        Adjacency(AboveAndBelow, Above, NotFound, NotFound, NotFound, NotFound)
    );
    assert_eq!(
        Key::adjacency(&entries, 3),
        Adjacency(Above, NotFound, NotFound, NotFound, NotFound, NotFound)
    );
    assert_eq!(
        Key::adjacency(&entries, 4),
        Adjacency(NotFound, AboveAndBelow, NotFound, NotFound, NotFound, NotFound)
    );
    assert_eq!(
        Key::adjacency(&entries, 5),
        Adjacency(NotFound, Above, NotFound, NotFound, NotFound, NotFound)
    );
}

#[test]
fn key_level_3_single_sibling() {
    let entries = root_with_three_levels();
    assert_eq!(
        Key::adjacency(&entries, 0),
        Adjacency(Above, NotFound, NotFound, NotFound, NotFound, NotFound)
    );
    assert_eq!(
        Key::adjacency(&entries, 1),
        Adjacency(NotFound, Above, NotFound, NotFound, NotFound, NotFound)
    );
    assert_eq!(
        Key::adjacency(&entries, 2),
        Adjacency(NotFound, NotFound, Above, NotFound, NotFound, NotFound)
    );
}

#[test]
fn key_level_3_two_siblings() {
    let entries = root_with_three_levels_two_siblings_on_level_2();
    assert_eq!(
        Key::adjacency(&entries, 0),
        Adjacency(Above, NotFound, NotFound, NotFound, NotFound, NotFound)
    );
    assert_eq!(
        Key::adjacency(&entries, 1),
        Adjacency(NotFound, AboveAndBelow, NotFound, NotFound, NotFound, NotFound)
    );
    assert_eq!(
        Key::adjacency(&entries, 2),
        Adjacency(NotFound, AboveAndBelow, Above, NotFound, NotFound, NotFound)
    );
    assert_eq!(
        Key::adjacency(&entries, 3),
        Adjacency(NotFound, Above, NotFound, NotFound, NotFound, NotFound)
    );
    assert_eq!(
        Key::adjacency(&entries, 4),
        Adjacency(NotFound, NotFound, Above, NotFound, NotFound, NotFound)
    );
}

#[test]
fn key_orphaned_child_node() {
    let mut entries = root_with_two_children();
    entries.insert(1, (Key::default().add_child(0).add_child(0).add_child(1), Task::default()));
    entries.sort_by_key(|v| v.0);
    assert_eq!(
        Key::adjacency(&entries, 0),
        Adjacency(AboveAndBelow, NotFound, NotFound, NotFound, NotFound, NotFound),
    );
    assert_eq!(
        Key::adjacency(&entries, 1),
        Adjacency(AboveAndBelow, NotFound, NotFound, NotFound, NotFound, NotFound)
    );
    assert_eq!(
        Key::adjacency(&entries, 2),
        Adjacency(Above, NotFound, NotFound, NotFound, NotFound, NotFound)
    );
}

#[test]
fn tests_root_level() {
    let entries = root_with_two_children();
    assert_eq!(
        Key::adjacency(&entries, 0),
        Adjacency(AboveAndBelow, NotFound, NotFound, NotFound, NotFound, NotFound)
    );
    assert_eq!(
        Key::adjacency(&entries, 1),
        Adjacency(Above, NotFound, NotFound, NotFound, NotFound, NotFound)
    );
}

#[test]
fn tests_level_2_two_siblings() {
    let entries = root_with_two_children_with_two_children();
    assert_eq!(
        Key::adjacency(&entries, 0),
        Adjacency(AboveAndBelow, NotFound, NotFound, NotFound, NotFound, NotFound)
    );
    assert_eq!(
        Key::adjacency(&entries, 1),
        Adjacency(AboveAndBelow, AboveAndBelow, NotFound, NotFound, NotFound, NotFound)
    );
    assert_eq!(
        Key::adjacency(&entries, 2),
        Adjacency(AboveAndBelow, Above, NotFound, NotFound, NotFound, NotFound)
    );
    assert_eq!(
        Key::adjacency(&entries, 3),
        Adjacency(Above, NotFound, NotFound, NotFound, NotFound, NotFound)
    );
    assert_eq!(
        Key::adjacency(&entries, 4),
        Adjacency(NotFound, AboveAndBelow, NotFound, NotFound, NotFound, NotFound)
    );
    assert_eq!(
        Key::adjacency(&entries, 5),
        Adjacency(NotFound, Above, NotFound, NotFound, NotFound, NotFound)
    );
}

#[test]
fn tests_level_3_single_sibling() {
    let entries = root_with_three_levels();
    assert_eq!(
        Key::adjacency(&entries, 0),
        Adjacency(Above, NotFound, NotFound, NotFound, NotFound, NotFound)
    );
    assert_eq!(
        Key::adjacency(&entries, 1),
        Adjacency(NotFound, Above, NotFound, NotFound, NotFound, NotFound)
    );
    assert_eq!(
        Key::adjacency(&entries, 2),
        Adjacency(NotFound, NotFound, Above, NotFound, NotFound, NotFound)
    );
}

#[test]
fn tests_level_3_two_siblings() {
    let entries = root_with_three_levels_two_siblings_on_level_2();
    assert_eq!(
        Key::adjacency(&entries, 0),
        Adjacency(Above, NotFound, NotFound, NotFound, NotFound, NotFound)
    );
    assert_eq!(
        Key::adjacency(&entries, 1),
        Adjacency(NotFound, AboveAndBelow, NotFound, NotFound, NotFound, NotFound)
    );
    assert_eq!(
        Key::adjacency(&entries, 2),
        Adjacency(NotFound, AboveAndBelow, Above, NotFound, NotFound, NotFound)
    );
    assert_eq!(
        Key::adjacency(&entries, 3),
        Adjacency(NotFound, Above, NotFound, NotFound, NotFound, NotFound)
    );
    assert_eq!(
        Key::adjacency(&entries, 4),
        Adjacency(NotFound, NotFound, Above, NotFound, NotFound, NotFound)
    );
}

#[test]
fn tests_orphaned_child_node() {
    let mut entries = root_with_two_children();
    entries.insert(1, (Key::default().add_child(0).add_child(0).add_child(1), Task::default()));
    entries.sort_by_key(|v| v.0);
    assert_eq!(
        Key::adjacency(&entries, 0),
        Adjacency(AboveAndBelow, NotFound, NotFound, NotFound, NotFound, NotFound),
    );
    assert_eq!(
        Key::adjacency(&entries, 1),
        Adjacency(AboveAndBelow, NotFound, NotFound, NotFound, NotFound, NotFound)
    );
    assert_eq!(
        Key::adjacency(&entries, 2),
        Adjacency(Above, NotFound, NotFound, NotFound, NotFound, NotFound)
    );
}

#[test]
fn depth_is_capped_and_the_deepest_slot_is_replaced() {
    let mut key = Key::default();
    assert_eq!(key.level(), 0);
    for id in 0..10u16 {
        key = key.add_child(id);
        assert!(key.level() <= Key::max_level());
        assert_eq!(key.level(), (id + 1).min(6) as u8);
    }
    assert_eq!(Key::max_level(), 6);
    assert_eq!(key.get(6), Some(&9));
    assert_eq!(key.get(5), Some(&4));
    assert_eq!(key.get(0), None);
    assert_eq!(key.get(7), None);
    let sibling = Key::default().add_child(0).add_child(1).add_child(2).add_child(3).add_child(4).add_child(9);
    assert_eq!(key, sibling);
}

#[test]
fn derived_order_is_the_stated_order() {
    let r = Key::default();
    let keys = [
        r,
        r.add_child(0),
        r.add_child(0).add_child(0),
        r.add_child(0).add_child(7),
        r.add_child(0).add_child(7).add_child(1),
        r.add_child(1),
        r.add_child(1).add_child(65535),
        r.add_child(2),
        r.add_child(65535),
    ];
    for (i, a) in keys.iter().enumerate() {
        for (j, b) in keys.iter().enumerate() {
            assert_eq!(a.precedes(b), i < j);
            assert_eq!(a < b, i < j);
            assert_eq!(a == b, i == j);
        }
    }
}

#[test]
fn shares_parent_with_compares_prefixes() {
    let r = Key::default();
    let a = r.add_child(1).add_child(2).add_child(3);
    let b = r.add_child(1).add_child(2).add_child(4);
    let c = r.add_child(1);
    assert!(a.shares_parent_with(&b, 0));
    assert!(a.shares_parent_with(&b, 1));
    assert!(a.shares_parent_with(&b, 2));
    assert!(!a.shares_parent_with(&b, 3));
    assert!(a.shares_parent_with(&c, 1));
    assert!(!a.shares_parent_with(&c, 2));
    assert!(!a.shares_parent_with(&b, 7));
}

#[test]
fn sibling_locations_merge() {
    let all = [Above, Below, AboveAndBelow, NotFound];
    for a in all {
        for b in all {
            let mut m = a;
            m.merge(b);
            let expected = match (a, b) {
                (x, NotFound) => x,
                (NotFound, x) => x,
                (Above, Above) => Above,
                (Below, Below) => Below,
                _ => AboveAndBelow,
            };
            assert_eq!(m, expected);
        }
    }
    assert_eq!(SiblingLocation::default(), NotFound);
}

#[test]
fn adjacency_levels() {
    let mut a = Adjacency::default();
    assert_eq!(a.level(), 0);
    assert_eq!(a.get(0), None);
    assert_eq!(a.get(7), None);
    *a.get_mut(3).unwrap() = Below;
    assert_eq!(a, Adjacency(NotFound, NotFound, Below, NotFound, NotFound, NotFound));
    assert_eq!(a.level(), 3);
    a.merge_at(3, Above);
    a.merge_at(9, Above);
    assert_eq!(a.get(3), Some(&AboveAndBelow));
    assert!(a.get_mut(0).is_none());
}

#[test]
fn adjacency_ignores_what_happens_under_other_parents() {
    let r = Key::default();
    let left = r.add_child(1);
    let middle = r.add_child(2);
    let right = r.add_child(3);
    let small = to_kv(&[left, left.add_child(1), left.add_child(2), middle, right][..]);
    let large = to_kv(
        &[
            left,
            left.add_child(1),
            left.add_child(2),
            middle,
            middle.add_child(1),
            middle.add_child(1).add_child(7),
            middle.add_child(2),
            right,
            right.add_child(9),
        ][..],
    );
    for index in 0..3 {
        assert_eq!(Key::adjacency(&small, index), Key::adjacency(&large, index));
    }
    assert_eq!(
        Key::adjacency(&large, 1),
        Adjacency(AboveAndBelow, AboveAndBelow, NotFound, NotFound, NotFound, NotFound)
    );
    assert_eq!(
        Key::adjacency(&large, 2),
        Adjacency(AboveAndBelow, Above, NotFound, NotFound, NotFound, NotFound)
    );
}

#[test]
fn only_a_key_of_six_components_is_deepest() {
    let mut key = Key::default();
    for id in 0..6 {
        assert!(!key.is_deepest());
        key = key.add_child(id);
    }
    assert!(key.is_deepest());
    assert!(key.add_child(9).is_deepest());
}
