//! The progress tree: a map from keys to tasks, the handles through which
//! producers change their own task, and the root that owns tasks and messages.
use crate::key::{ascending, find, Key, Ranks};
use dashmap::DashMap;
use crate::messages::{views, Message, MessageCopyState, MessageLevel, MessageRingBuffer, Ring};
use crate::progress::{
    is_snapshot_of, new_counter, read, share, Id, State, Step, StepShared, Task, TaskSnapshot,
    Value, UNKNOWN,
};
use crate::time::Time;
use crate::unit::Unit;
use std::sync::atomic::Ordering;
use vstd::prelude::*;

verus! {

/// The map that rows with distinct keys stand for.
pub open spec fn rows_map<T>(rows: Seq<(Key, T)>) -> Map<Key, T> {
    Map::new(
        |k: Key| exists|i: int| 0 <= i < rows.len() && (#[trigger] rows[i]).0 == k,
        |k: Key| rows[choose|i: int| 0 <= i < rows.len() && (#[trigger] rows[i]).0 == k].1,
    )
}

/// Among rows that ascend by key, each row is what the map holds for its key.
pub proof fn lemma_row_is_entry<T>(rows: Seq<(Key, T)>, i: int)
    requires
        ascending(rows),
        0 <= i < rows.len(),
    ensures
        rows_map(rows).dom().contains(rows[i].0),
        rows_map(rows)[rows[i].0] == rows[i].1,
{
    let k = rows[i].0;
    let j = choose|j: int| 0 <= j < rows.len() && (#[trigger] rows[j]).0 == k;
    Key::law_order_irreflexive(k);
    if j < i {
        assert(rows[j].0.before(rows[i].0));
    } else if i < j {
        assert(rows[i].0.before(rows[j].0));
    }
}

/// Rows that ascend by key stand for a map with as many entries as there
/// are rows.
pub proof fn lemma_rows_count<T>(rows: Seq<(Key, T)>)
    requires
        ascending(rows),
    ensures
        rows_map(rows).dom().finite(),
        rows_map(rows).dom().len() == rows.len(),
    decreases rows.len(),
{
    if rows.len() == 0 {
        assert(rows_map(rows).dom() =~= Set::<Key>::empty());
    } else {
        let front = rows.drop_last();
        let last = rows.last();
        assert forall|i: int, j: int| 0 <= i < j < front.len() implies (#[trigger] front[i]).0.before(
            (#[trigger] front[j]).0,
        ) by {
            assert(front[i] == rows[i] && front[j] == rows[j]);
        }
        lemma_rows_count(front);
        assert forall|j: int| 0 <= j < front.len() implies (#[trigger] front[j]).0.before(
            last.0,
        ) by {
            assert(front[j] == rows[j]);
            assert(rows[j].0.before(rows[rows.len() - 1].0));
        }
        lemma_insert_row(front, front.len() as int, last.0, last.1);
        assert(front.insert(front.len() as int, (last.0, last.1)) =~= rows);
        assert(!rows_map(front).dom().contains(last.0)) by {
            if rows_map(front).dom().contains(last.0) {
                let j = choose|j: int| 0 <= j < front.len() && (#[trigger] front[j]).0 == last.0;
                Key::law_order_irreflexive(last.0);
            }
        }
        assert(rows_map(rows).dom() =~= rows_map(front).dom().insert(last.0));
    }
}

/// A row put where it keeps the order adds its key to the map.
pub proof fn lemma_insert_row<T>(rows: Seq<(Key, T)>, i: int, key: Key, value: T)
    requires
        ascending(rows),
        0 <= i <= rows.len(),
        forall|j: int| 0 <= j < i ==> (#[trigger] rows[j]).0.before(key),
        forall|j: int| i <= j < rows.len() ==> key.before((#[trigger] rows[j]).0),
    ensures
        ascending(rows.insert(i, (key, value))),
        rows_map(rows.insert(i, (key, value))) == rows_map(rows).insert(key, value),
{
    let next = rows.insert(i, (key, value));
    assert forall|a: int, b: int| 0 <= a < b < next.len() implies (#[trigger] next[a]).0.before(
        (#[trigger] next[b]).0,
    ) by {
        if a < i && b > i {
            Key::law_order_transitive(next[a].0, key, next[b].0);
        }
        if a < i && b < i {
            assert(next[a] == rows[a] && next[b] == rows[b]);
        }
        if a > i {
            assert(next[a] == rows[a - 1] && next[b] == rows[b - 1]);
        }
    }
    assert forall|k: Key| #[trigger]
        rows_map(next).dom().contains(k) == rows_map(rows).insert(key, value).dom().contains(
            k,
        ) by {
        if rows_map(next).dom().contains(k) {
            let j = choose|j: int| 0 <= j < next.len() && (#[trigger] next[j]).0 == k;
            if j < i {
                assert(rows[j].0 == k);
            } else if j > i {
                assert(rows[j - 1].0 == k);
            }
        }
        if rows_map(rows).dom().contains(k) {
            let j = choose|j: int| 0 <= j < rows.len() && (#[trigger] rows[j]).0 == k;
            if j < i {
                assert(next[j].0 == k);
            } else {
                assert(next[j + 1].0 == k);
            }
        }
        if k == key {
            assert(next[i].0 == k);
        }
    }
    assert forall|k: Key| #[trigger] rows_map(next).dom().contains(k) implies rows_map(next)[k]
        == rows_map(rows).insert(key, value)[k] by {
        let j = choose|j: int| 0 <= j < next.len() && (#[trigger] next[j]).0 == k;
        lemma_row_is_entry(next, j);
        if j < i {
            lemma_row_is_entry(rows, j);
            Key::law_order_irreflexive(key);
        } else if j > i {
            lemma_row_is_entry(rows, j - 1);
            Key::law_order_irreflexive(key);
        }
    }
    assert(rows_map(next) =~= rows_map(rows).insert(key, value));
}

/// A row put in the place of the row with the same key changes what the map
/// holds for that key.
pub proof fn lemma_replace_row<T>(rows: Seq<(Key, T)>, i: int, value: T)
    requires
        ascending(rows),
        0 <= i < rows.len(),
    ensures
        ascending(rows.update(i, (rows[i].0, value))),
        rows_map(rows.update(i, (rows[i].0, value))) == rows_map(rows).insert(rows[i].0, value),
{
    let key = rows[i].0;
    let next = rows.update(i, (key, value));
    assert forall|a: int, b: int| 0 <= a < b < next.len() implies (#[trigger] next[a]).0.before(
        (#[trigger] next[b]).0,
    ) by {
        assert(next[a].0 == rows[a].0 && next[b].0 == rows[b].0);
    }
    assert forall|k: Key| #[trigger]
        rows_map(next).dom().contains(k) == rows_map(rows).insert(key, value).dom().contains(
            k,
        ) by {
        if rows_map(next).dom().contains(k) {
            let j = choose|j: int| 0 <= j < next.len() && (#[trigger] next[j]).0 == k;
            assert(rows[j].0 == k);
        }
        if rows_map(rows).dom().contains(k) {
            let j = choose|j: int| 0 <= j < rows.len() && (#[trigger] rows[j]).0 == k;
            assert(next[j].0 == k);
        }
        if k == key {
            assert(next[i].0 == k);
        }
    }
    assert forall|k: Key| #[trigger] rows_map(next).dom().contains(k) implies rows_map(next)[k]
        == rows_map(rows).insert(key, value)[k] by {
        let j = choose|j: int| 0 <= j < next.len() && (#[trigger] next[j]).0 == k;
        lemma_row_is_entry(next, j);
        if j != i {
            lemma_row_is_entry(rows, j);
            Key::law_order_irreflexive(key);
            if j < i {
                assert(rows[j].0.before(rows[i].0));
            } else {
                assert(rows[i].0.before(rows[j].0));
            }
        }
    }
    assert(rows_map(next) =~= rows_map(rows).insert(key, value));
}

/// A row taken out takes its key out of the map.
pub proof fn lemma_remove_row<T>(rows: Seq<(Key, T)>, i: int)
    requires
        ascending(rows),
        0 <= i < rows.len(),
    ensures
        ascending(rows.remove(i)),
        rows_map(rows.remove(i)) == rows_map(rows).remove(rows[i].0),
{
    let key = rows[i].0;
    let next = rows.remove(i);
    assert forall|a: int, b: int| 0 <= a < b < next.len() implies (#[trigger] next[a]).0.before(
        (#[trigger] next[b]).0,
    ) by {
        let a0 = if a < i {
            a
        } else {
            a + 1
        };
        let b0 = if b < i {
            b
        } else {
            b + 1
        };
        assert(next[a] == rows[a0] && next[b] == rows[b0]);
    }
    assert forall|k: Key| #[trigger]
        rows_map(next).dom().contains(k) == rows_map(rows).remove(key).dom().contains(k) by {
        if rows_map(next).dom().contains(k) {
            let j = choose|j: int| 0 <= j < next.len() && (#[trigger] next[j]).0 == k;
            let j0 = if j < i {
                j
            } else {
                j + 1
            };
            assert(rows[j0].0 == k);
            Key::law_order_irreflexive(key);
            if j0 < i {
                assert(rows[j0].0.before(rows[i].0));
            } else {
                assert(rows[i].0.before(rows[j0].0));
            }
        }
        if rows_map(rows).dom().contains(k) && k != key {
            let j = choose|j: int| 0 <= j < rows.len() && (#[trigger] rows[j]).0 == k;
            if j < i {
                assert(next[j].0 == k);
            } else {
                assert(next[j - 1].0 == k);
            }
        }
    }
    assert forall|k: Key| #[trigger] rows_map(next).dom().contains(k) implies rows_map(next)[k]
        == rows_map(rows).remove(key)[k] by {
        let j = choose|j: int| 0 <= j < next.len() && (#[trigger] next[j]).0 == k;
        lemma_row_is_entry(next, j);
        if j < i {
            lemma_row_is_entry(rows, j);
        } else {
            lemma_row_is_entry(rows, j + 1);
        }
    }
    assert(rows_map(next) =~= rows_map(rows).remove(key));
}

/// True if `copy` holds what `task` holds, but for the counter.
pub open spec fn is_copy_of(copy: Task, task: Task) -> bool {
    &&& copy.name@ == task.name@
    &&& copy.id == task.id
    &&& match (copy.progress, task.progress) {
        (None, None) => true,
        (Some(mine), Some(theirs)) => mine.done_at == theirs.done_at && mine.unit == theirs.unit
            && mine.state == theirs.state,
        _ => false,
    }
}

/// True if `snapshot` lists the tasks of `tasks` in the order of their keys:
/// each key once, with what its task held at the moment of the snapshot.
pub open spec fn is_sorted_snapshot(
    tasks: Map<Key, Task>,
    snapshot: Seq<(Key, TaskSnapshot)>,
) -> bool {
    &&& ascending(snapshot)
    &&& forall|i: int|
        0 <= i < snapshot.len() ==> tasks.dom().contains((#[trigger] snapshot[i]).0)
            && is_snapshot_of(snapshot[i].1, tasks[snapshot[i].0])
    &&& forall|k: Key| #[trigger]
        tasks.dom().contains(k) ==> exists|i: int|
            0 <= i < snapshot.len() && (#[trigger] snapshot[i]).0 == k
}

/// A snapshot that is taken after a task was removed holds no entry with
/// the key of that task.
pub proof fn law_removed_task_is_gone(
    tasks: Map<Key, Task>,
    key: Key,
    snapshot: Seq<(Key, TaskSnapshot)>,
)
    requires
        is_sorted_snapshot(tasks.remove(key), snapshot),
    ensures
        forall|i: int| 0 <= i < snapshot.len() ==> (#[trigger] snapshot[i]).0 != key,
{
    assert forall|i: int| 0 <= i < snapshot.len() implies (#[trigger] snapshot[i]).0 != key by {
        assert(tasks.remove(key).dom().contains(snapshot[i].0));
    }
}

/// Removing a task leaves every task with another key in the tree, and a
/// snapshot taken afterwards shows it as it is.
pub proof fn law_other_tasks_survive(
    tasks: Map<Key, Task>,
    key: Key,
    other: Key,
    snapshot: Seq<(Key, TaskSnapshot)>,
)
    requires
        tasks.dom().contains(other),
        other != key,
        is_sorted_snapshot(tasks.remove(key), snapshot),
    ensures
        tasks.remove(key).dom().contains(other),
        tasks.remove(key)[other] == tasks[other],
        exists|i: int|
            0 <= i < snapshot.len() && (#[trigger] snapshot[i]).0 == other && is_snapshot_of(
                snapshot[i].1,
                tasks[other],
            ),
{
    assert(tasks.remove(key).dom().contains(other));
    let i = choose|i: int| 0 <= i < snapshot.len() && (#[trigger] snapshot[i]).0 == other;
    assert(is_snapshot_of(snapshot[i].1, tasks.remove(key)[snapshot[i].0]));
}

/// The largest room for tasks that is set aside ahead of time.
pub const MAX_INITIAL_CAPACITY: usize = 0xFFFF;

#[verifier::external_type_specification]
#[verifier::external_body]
#[verifier::reject_recursive_types(K)]
#[verifier::reject_recursive_types(V)]
#[verifier::reject_recursive_types(S)]
pub struct ExDashMap<K, V, S>(DashMap<K, V, S>);

/// What a map of the crate `dashmap` holds: a task for each of its keys.
pub uninterp spec fn rows_in(map: DashMap<Ranks, Task>) -> Map<Ranks, Task>;

/// An empty map with room for `capacity` entries, by
/// `DashMap::with_capacity`. Rounding the room up to a multiple of the
/// number of shards must not go beyond the largest number.
#[verifier::external_body]
fn new_rows(capacity: usize) -> (r: DashMap<Ranks, Task>)
    requires
        capacity <= MAX_INITIAL_CAPACITY,
    ensures
        rows_in(r).dom() == Set::<Ranks>::empty(),
{
    DashMap::with_capacity(capacity)
}

/// Puts `task` under `key` by `DashMap::insert`, which returns the value
/// that the key had before and leaves every other entry alone.
#[verifier::external_body]
fn put_row(map: &mut DashMap<Ranks, Task>, key: Ranks, task: Task) -> (r: Option<Task>)
    ensures
        rows_in(*final(map)) == rows_in(*old(map)).insert(key, task),
        r == if rows_in(*old(map)).dom().contains(key) {
            Some(rows_in(*old(map))[key])
        } else {
            None
        },
{
    map.insert(key, task)
}

/// Takes the entry of `key` out by `DashMap::remove`, which returns the
/// value that the key had and leaves every other entry alone.
#[verifier::external_body]
fn take_row(map: &mut DashMap<Ranks, Task>, key: Ranks) -> (r: Option<Task>)
    ensures
        rows_in(*final(map)) == rows_in(*old(map)).remove(key),
        r == if rows_in(*old(map)).dom().contains(key) {
            Some(rows_in(*old(map))[key])
        } else {
            None
        },
{
    map.remove(&key).map(|(_, task)| task)
}

/// A copy of the task under `key`, by `DashMap::get`. The copy shares the
/// counter of the task.
#[verifier::external_body]
fn row_at(map: &DashMap<Ranks, Task>, key: Ranks) -> (r: Option<Task>)
    ensures
        r == if rows_in(*map).dom().contains(key) {
            Some(rows_in(*map)[key])
        } else {
            None
        },
{
    map.get(&key).map(|row| row.value().duplicate())
}

/// The number of entries, by `DashMap::len`.
#[verifier::external_body]
fn row_count(map: &DashMap<Ranks, Task>) -> (r: usize)
    ensures
        r == rows_in(*map).dom().len(),
{
    map.len()
}

/// A copy of every entry, by `DashMap::iter`: each key once with a copy of
/// its task, in an order that nothing is known of.
#[verifier::external_body]
fn all_rows(map: &DashMap<Ranks, Task>) -> (r: Vec<(Ranks, Task)>)
    ensures
        forall|i: int|
            0 <= i < r@.len() ==> rows_in(*map).dom().contains((#[trigger] r@[i]).0)
                && rows_in(*map)[r@[i].0] == r@[i].1,
        forall|i: int, j: int|
            0 <= i < j < r@.len() ==> (#[trigger] r@[i]).0 != (#[trigger] r@[j]).0,
        forall|k: Ranks| #[trigger]
            rows_in(*map).dom().contains(k) ==> exists|i: int|
                0 <= i < r@.len() && (#[trigger] r@[i]).0 == k,
{
    map.iter().map(|row| (*row.key(), row.value().duplicate())).collect()
}

/// The tasks by key that a map of tasks by six numbers stands for.
pub open spec fn by_key(rows: Map<Ranks, Task>) -> Map<Key, Task> {
    Map::new(|k: Key| k.wf() && rows.dom().contains(k.ranks()), |k: Key| rows[k.ranks()])
}

/// A map from keys to tasks.
#[derive(Debug)]
pub struct TaskMap {
    rows: Option<DashMap<Ranks, Task>>,
}

impl View for TaskMap {
    type V = Map<Key, Task>;

    closed spec fn view(&self) -> Map<Key, Task> {
        match self.rows {
            Some(rows) => by_key(rows_in(rows)),
            None => Map::empty(),
        }
    }
}

/// A task under a key adds the key to the tasks by key.
proof fn lemma_by_key_insert(rows: Map<Ranks, Task>, key: Key, task: Task)
    requires
        key.wf(),
    ensures
        by_key(rows.insert(key.ranks(), task)) == by_key(rows).insert(key, task),
{
    assert forall|k: Key| #[trigger]
        by_key(rows.insert(key.ranks(), task)).dom().contains(k) == by_key(rows).insert(
            key,
            task,
        ).dom().contains(k) by {
        if k.ranks() == key.ranks() {
            Key::law_ranks_are_one_to_one(k, key);
        }
    }
    assert forall|k: Key| #[trigger]
        by_key(rows.insert(key.ranks(), task)).dom().contains(k) implies by_key(
        rows.insert(key.ranks(), task),
    )[k] == by_key(rows).insert(key, task)[k] by {
        if k.ranks() == key.ranks() {
            Key::law_ranks_are_one_to_one(k, key);
        }
    }
    assert(by_key(rows.insert(key.ranks(), task)) =~= by_key(rows).insert(key, task));
}

/// A key taken out leaves the tasks by key without it.
proof fn lemma_by_key_remove(rows: Map<Ranks, Task>, key: Key)
    ensures
        by_key(rows.remove(key.ranks())) == by_key(rows).remove(key),
{
    assert forall|k: Key| #[trigger]
        by_key(rows.remove(key.ranks())).dom().contains(k) == by_key(rows).remove(
            key,
        ).dom().contains(k) by {
        if k.ranks() == key.ranks() {
            Key::law_ranks_are_one_to_one(k, key);
        }
    }
    assert(by_key(rows.remove(key.ranks())) =~= by_key(rows).remove(key));
}

/// The keys of the tasks by key are as many as the keys by six numbers, if
/// each of these stands for a key.
proof fn lemma_by_key_count(rows: Map<Ranks, Task>)
    requires
        rows.dom().finite(),
        forall|r: Ranks| #[trigger] rows.dom().contains(r) ==> Key::are_ranks(r),
    ensures
        by_key(rows).dom().finite(),
        by_key(rows).dom().len() == rows.dom().len(),
    decreases rows.dom().len(),
{
    if rows.dom().len() == 0 {
        assert(rows.dom() =~= Set::<Ranks>::empty());
        assert(by_key(rows).dom() =~= Set::<Key>::empty());
    } else {
        let r = rows.dom().choose();
        let rest = rows.remove(r);
        assert(rest.dom() =~= rows.dom().remove(r));
        assert forall|q: Ranks| #[trigger] rest.dom().contains(q) implies Key::are_ranks(q) by {
            assert(rows.dom().contains(q));
        }
        lemma_by_key_count(rest);
        let key = Key::lemma_key_of_ranks(r);
        lemma_by_key_remove(rows, key);
        assert(by_key(rows).dom().contains(key));
        assert(by_key(rows).dom() =~= by_key(rest).dom().insert(key));
    }
}

impl TaskMap {
    #[verifier::type_invariant]
    closed spec fn inv(self) -> bool {
        match self.rows {
            Some(rows) => rows_in(rows).dom().finite() && forall|r: Ranks| #[trigger]
                rows_in(rows).dom().contains(r) ==> Key::are_ranks(r),
            None => true,
        }
    }

    /// The tasks by six numbers.
    closed spec fn held(self) -> Map<Ranks, Task> {
        match self.rows {
            Some(rows) => rows_in(rows),
            None => Map::empty(),
        }
    }

    /// Takes the rows out of the map, which is empty until they are put
    /// back.
    fn take_rows(&mut self) -> (r: DashMap<Ranks, Task>)
        ensures
            by_key(rows_in(r)) == old(self)@,
            rows_in(r).dom().finite(),
            forall|k: Ranks| #[trigger] rows_in(r).dom().contains(k) ==> Key::are_ranks(k),
    {
        proof {
            use_type_invariant(&*self);
        }
        let mut taken: Option<DashMap<Ranks, Task>> = None;
        core::mem::swap(&mut self.rows, &mut taken);
        match taken {
            Some(rows) => rows,
            None => {
                let rows = new_rows(0);
                assert(by_key(rows_in(rows)) =~= Map::<Key, Task>::empty());
                rows
            },
        }
    }

    /// An empty map with room for `capacity` tasks, or for as many as are
    /// set aside ahead of time at most.
    pub fn with_capacity(capacity: usize) -> (r: TaskMap)
        ensures
            r@ == Map::<Key, Task>::empty(),
    {
        let room = if capacity > MAX_INITIAL_CAPACITY {
            MAX_INITIAL_CAPACITY
        } else {
            capacity
        };
        let rows = new_rows(room);
        assert(by_key(rows_in(rows)) =~= Map::<Key, Task>::empty());
        TaskMap { rows: Some(rows) }
    }

    /// The number of tasks in the map.
    pub fn len(&self) -> (r: usize)
        ensures
            self@.dom().finite(),
            r == self@.dom().len(),
    {
        proof {
            use_type_invariant(self);
        }
        match &self.rows {
            Some(rows) => {
                let count = row_count(rows);
                proof {
                    lemma_by_key_count(rows_in(*rows));
                }
                count
            },
            None => 0,
        }
    }

    /// True if the map holds a task for `key`.
    pub fn contains_key(&self, key: &Key) -> (r: bool)
        ensures
            r == self@.dom().contains(*key),
    {
        self.get(key).is_some()
    }

    /// A copy of the task for `key`, if there is one. The copy shares the
    /// counter of the task.
    pub fn get(&self, key: &Key) -> (r: Option<Task>)
        ensures
            r == if self@.dom().contains(*key) {
                Some(self@[*key])
            } else {
                None
            },
    {
        proof {
            use_type_invariant(self);
        }
        let ranks = key.to_ranks();
        match &self.rows {
            Some(rows) => row_at(rows, ranks),
            None => None,
        }
    }

    /// Puts `task` under `key` and returns the task that was there before.
    pub fn insert(&mut self, key: Key, task: Task) -> (r: Option<Task>)
        ensures
            final(self)@ == old(self)@.insert(key, task),
            r == if old(self)@.dom().contains(key) {
                Some(old(self)@[key])
            } else {
                None
            },
    {
        let ranks = key.to_ranks();
        let mut rows = self.take_rows();
        proof {
            lemma_by_key_insert(rows_in(rows), key, task);
        }
        let r = put_row(&mut rows, ranks, task);
        self.rows = Some(rows);
        r
    }

    /// Takes the task for `key` out of the map.
    pub fn remove(&mut self, key: &Key) -> (r: Option<Task>)
        ensures
            final(self)@ == old(self)@.remove(*key),
            r == if old(self)@.dom().contains(*key) {
                Some(old(self)@[*key])
            } else {
                None
            },
    {
        let ranks = key.to_ranks();
        let mut rows = self.take_rows();
        proof {
            lemma_by_key_remove(rows_in(rows), *key);
        }
        let r = take_row(&mut rows, ranks);
        self.rows = Some(rows);
        r
    }

    /// A map with a copy of each task. Each copy has a counter of its own,
    /// which starts at what the counter of the task holds at this moment.
    pub fn deep_clone(&self) -> (r: TaskMap)
        ensures
            r@.dom() == self@.dom(),
            forall|k: Key| #[trigger]
                self@.dom().contains(k) ==> is_copy_of(r@[k], self@[k]),
    {
        proof {
            use_type_invariant(self);
        }
        let rows = match &self.rows {
            Some(rows) => all_rows(rows),
            None => Vec::new(),
        };
        let ghost mine = self.held();
        assert(self@ =~= by_key(mine));
        let mut copy = new_rows(0);
        let mut i: usize = 0;
        while i < rows.len()
            invariant
                i <= rows.len(),
                rows_in(copy).dom().finite(),
                forall|j: int|
                    0 <= j < rows@.len() ==> mine.dom().contains((#[trigger] rows@[j]).0)
                        && mine[rows@[j].0] == rows@[j].1,
                forall|k: Ranks| #[trigger] mine.dom().contains(k) ==> Key::are_ranks(k),
                forall|k: Ranks| #[trigger]
                    rows_in(copy).dom().contains(k) <==> exists|j: int|
                        0 <= j < i && (#[trigger] rows@[j]).0 == k,
                forall|k: Ranks| #[trigger]
                    rows_in(copy).dom().contains(k) ==> mine.dom().contains(k) && is_copy_of(
                        rows_in(copy)[k],
                        mine[k],
                    ),
            decreases rows.len() - i,
        {
            let row = &rows[i];
            let progress = match &row.1.progress {
                Some(value) => Some(
                    Value {
                        step: new_counter(read(&value.step)),
                        done_at: value.done_at,
                        unit: value.unit,
                        state: value.state,
                    },
                ),
                None => None,
            };
            let ghost before = rows_in(copy);
            put_row(&mut copy, row.0, Task { name: row.1.name.clone(), id: row.1.id, progress });
            proof {
                assert forall|k: Ranks| #[trigger]
                    rows_in(copy).dom().contains(k) <==> exists|j: int|
                        0 <= j < i + 1 && (#[trigger] rows@[j]).0 == k by {
                    if rows_in(copy).dom().contains(k) {
                        if k == row.0 {
                            assert(rows@[i as int].0 == k);
                        } else {
                            assert(before.dom().contains(k));
                            let j = choose|j: int| 0 <= j < i && (#[trigger] rows@[j]).0 == k;
                            assert(rows@[j].0 == k);
                        }
                    }
                    if exists|j: int| 0 <= j < i + 1 && (#[trigger] rows@[j]).0 == k {
                        let j = choose|j: int| 0 <= j < i + 1 && (#[trigger] rows@[j]).0 == k;
                        if j < i {
                            assert(before.dom().contains(k));
                        }
                    }
                }
            }
            i = i + 1;
        }
        proof {
            assert forall|k: Ranks| #[trigger] rows_in(copy).dom().contains(k) implies Key::are_ranks(
                k,
            ) by {}
            assert forall|k: Key| #[trigger]
                by_key(rows_in(copy)).dom().contains(k) == self@.dom().contains(k) by {
                if self@.dom().contains(k) {
                    let j = choose|j: int| 0 <= j < rows@.len() && (#[trigger] rows@[j]).0 == k.ranks();
                    assert(rows@[j].0 == k.ranks());
                }
            }
            assert(by_key(rows_in(copy)).dom() =~= self@.dom());
        }
        TaskMap { rows: Some(copy) }
    }

    /// Replaces the content of `out` by the tasks in the order of their
    /// keys, each with a fresh reading of its counter.
    pub fn sorted_snapshot(&self, out: &mut Vec<(Key, TaskSnapshot)>)
        ensures
            is_sorted_snapshot(self@, final(out)@),
            final(out)@.len() == self@.dom().len(),
    {
        proof {
            use_type_invariant(self);
        }
        out.clear();
        let rows = match &self.rows {
            Some(rows) => all_rows(rows),
            None => Vec::new(),
        };
        let ghost mine = self.held();
        assert(self@ =~= by_key(mine));
        let mut i: usize = 0;
        while i < rows.len()
            invariant
                i <= rows.len(),
                out@.len() == i,
                self@ == by_key(mine),
                ascending(out@),
                forall|j: int|
                    0 <= j < rows@.len() ==> mine.dom().contains((#[trigger] rows@[j]).0)
                        && mine[rows@[j].0] == rows@[j].1,
                forall|a: int, b: int|
                    0 <= a < b < rows@.len() ==> (#[trigger] rows@[a]).0 != (#[trigger] rows@[b]).0,
                forall|k: Ranks| #[trigger] mine.dom().contains(k) ==> Key::are_ranks(k),
                forall|j: int| 0 <= j < out@.len() ==> (#[trigger] out@[j]).0.wf(),
                forall|j: int| 0 <= j < out@.len() ==> taken_from(rows@, i as int, #[trigger] out@[j]),
                forall|a: int| 0 <= a < i ==> listed_in(out@, (#[trigger] rows@[a]).0),
            decreases rows.len() - i,
        {
            let row = &rows[i];
            assert(mine.dom().contains(rows@[i as int].0));
            let key = Key::from_ranks(row.0);
            let snapshot = row.1.snapshot();
            let ghost before = out@;
            match find(out.as_slice(), &key) {
                Ok(at) => {
                    proof {
                        assert(taken_from(rows@, i as int, before[at as int]));
                        let a = choose|a: int|
                            0 <= a < i && (#[trigger] rows@[a]).0 == before[at as int].0.ranks()
                                && is_snapshot_of(before[at as int].1, rows@[a].1);
                        assert(rows@[a].0 != rows@[i as int].0);
                    }
                    assert(false);
                },
                Err(at) => {
                    proof {
                        lemma_insert_row(before, at as int, key, snapshot);
                    }
                    out.insert(at, (key, snapshot));
                    proof {
                        let next = out@;
                        assert forall|j: int| 0 <= j < next.len() implies taken_from(
                            rows@,
                            i + 1,
                            #[trigger] next[j],
                        ) by {
                            if j < at {
                                assert(next[j] == before[j]);
                                assert(taken_from(rows@, i as int, before[j]));
                                let a = choose|a: int|
                                    0 <= a < i && (#[trigger] rows@[a]).0 == before[j].0.ranks()
                                        && is_snapshot_of(before[j].1, rows@[a].1);
                                assert(rows@[a].0 == next[j].0.ranks());
                            } else if j == at {
                                assert(rows@[i as int].0 == next[j].0.ranks());
                            } else {
                                assert(next[j] == before[j - 1]);
                                assert(taken_from(rows@, i as int, before[j - 1]));
                                let a = choose|a: int|
                                    0 <= a < i && (#[trigger] rows@[a]).0 == before[j - 1].0.ranks()
                                        && is_snapshot_of(before[j - 1].1, rows@[a].1);
                                assert(rows@[a].0 == next[j].0.ranks());
                            }
                        }
                        assert forall|a: int| 0 <= a < i + 1 implies listed_in(
                            next,
                            (#[trigger] rows@[a]).0,
                        ) by {
                            if a < i {
                                assert(listed_in(before, rows@[a].0));
                                let j = choose|j: int|
                                    0 <= j < before.len() && (#[trigger] before[j]).0.ranks()
                                        == rows@[a].0;
                                if j < at {
                                    assert(next[j] == before[j]);
                                } else {
                                    assert(next[j + 1] == before[j]);
                                }
                            } else {
                                assert(next[at as int].0.ranks() == rows@[a].0);
                            }
                        }
                        assert forall|j: int| 0 <= j < next.len() implies (#[trigger] next[j]).0.wf() by {
                            if j < at {
                                assert(next[j] == before[j]);
                            } else if j > at {
                                assert(next[j] == before[j - 1]);
                            }
                        }
                    }
                },
            }
            i = i + 1;
        }
        proof {
            let snapshot = out@;
            if self.rows is Some {
                lemma_by_key_count(mine);
            } else {
                assert(self@.dom() =~= Set::<Key>::empty());
            }
            assert forall|j: int| 0 <= j < snapshot.len() implies self@.dom().contains(
                (#[trigger] snapshot[j]).0,
            ) && is_snapshot_of(snapshot[j].1, self@[snapshot[j].0]) by {
                assert(taken_from(rows@, rows@.len() as int, snapshot[j]));
                let a = choose|a: int|
                    0 <= a < rows@.len() && (#[trigger] rows@[a]).0 == snapshot[j].0.ranks()
                        && is_snapshot_of(snapshot[j].1, rows@[a].1);
                assert(mine.dom().contains(rows@[a].0));
            }
            assert forall|k: Key| #[trigger] self@.dom().contains(k) implies exists|j: int|
                0 <= j < snapshot.len() && (#[trigger] snapshot[j]).0 == k by {
                let a = choose|a: int| 0 <= a < rows@.len() && (#[trigger] rows@[a]).0 == k.ranks();
                assert(listed_in(snapshot, rows@[a].0));
                let j = choose|j: int|
                    0 <= j < snapshot.len() && (#[trigger] snapshot[j]).0.ranks() == rows@[a].0;
                Key::law_ranks_are_one_to_one(snapshot[j].0, k);
            }
            lemma_rows_count(snapshot);
            assert(rows_map(snapshot).dom() =~= self@.dom()) by {
                assert forall|k: Key| #[trigger]
                    rows_map(snapshot).dom().contains(k) == self@.dom().contains(k) by {
                    if rows_map(snapshot).dom().contains(k) {
                        let j = choose|j: int|
                            0 <= j < snapshot.len() && (#[trigger] snapshot[j]).0 == k;
                        assert(self@.dom().contains(snapshot[j].0));
                    }
                    if self@.dom().contains(k) {
                        let j = choose|j: int|
                            0 <= j < snapshot.len() && (#[trigger] snapshot[j]).0 == k;
                        lemma_row_is_entry(snapshot, j);
                    }
                }
            }
        }
    }
}

/// True if `entry` is a snapshot of one of the first `n` rows.
spec fn taken_from(rows: Seq<(Ranks, Task)>, n: int, entry: (Key, TaskSnapshot)) -> bool {
    exists|a: int|
        0 <= a < n && (#[trigger] rows[a]).0 == entry.0.ranks() && is_snapshot_of(
            entry.1,
            rows[a].1,
        )
}

/// True if the snapshot lists the key that the six numbers `r` stand for.
spec fn listed_in(snapshot: Seq<(Key, TaskSnapshot)>, r: Ranks) -> bool {
    exists|j: int| 0 <= j < snapshot.len() && (#[trigger] snapshot[j]).0.ranks() == r
}

/// How a new tree is set up.
#[derive(Clone, Debug)]
pub struct Options {
    /// The amount of items the tree can hold without being forced to allocate.
    pub initial_capacity: usize,
    /// The amount of messages we can hold before we start overwriting old ones.
    pub message_buffer_capacity: usize,
}

impl Default for Options {
    fn default() -> (r: Self)
        ensures
            r.initial_capacity == 100,
            r.message_buffer_capacity == 20,
    {
        Options { initial_capacity: 100, message_buffer_capacity: 20 }
    }
}

impl Options {
    /// A new tree as these options describe it.
    pub fn create(self) -> (r: Root)
        ensures
            r.tasks() == Map::<Key, Task>::empty(),
            r.messages() == Ring::empty(self.message_buffer_capacity as int),
            r.next_child() == 0,
    {
        Root::new(self.initial_capacity, self.message_buffer_capacity)
    }
}

/// The top level of the progress tree: it owns the tasks and the messages.
#[derive(Debug)]
pub struct Root {
    highest_child_id: crate::key::Id,
    tree: TaskMap,
    messages: MessageRingBuffer,
}

/// A handle to one task of a tree, through which its producer reports
/// progress. The methods that read or change the task take the root of the
/// tree.
#[derive(Debug)]
pub struct Item {
    key: Key,
    value: StepShared,
    highest_child_id: crate::key::Id,
}

/// The identifier that follows `id`; after the largest comes zero.
pub open spec fn next_child_id(id: crate::key::Id) -> crate::key::Id {
    if id == 0xFFFF {
        0
    } else {
        (id + 1) as u16
    }
}

impl Root {
    /// The tasks of the tree.
    pub closed spec fn tasks(self) -> Map<Key, Task> {
        self.tree@
    }

    /// The messages of the tree.
    pub closed spec fn messages(self) -> Ring {
        self.messages@
    }

    /// The identifier that the next child of the root gets.
    pub closed spec fn next_child(self) -> crate::key::Id {
        self.highest_child_id
    }

    /// An empty tree with room for `initial_capacity` tasks that keeps up
    /// to `message_buffer_capacity` messages.
    pub fn new(initial_capacity: usize, message_buffer_capacity: usize) -> (r: Root)
        ensures
            r.tasks() == Map::<Key, Task>::empty(),
            r.messages() == Ring::empty(message_buffer_capacity as int),
            r.next_child() == 0,
    {
        Root {
            highest_child_id: 0,
            tree: TaskMap::with_capacity(initial_capacity),
            messages: MessageRingBuffer::with_capacity(message_buffer_capacity),
        }
    }

    /// The number of messages the tree keeps before it overwrites older ones.
    pub fn messages_capacity(&self) -> (r: usize)
        ensures
            r == self.messages().capacity,
    {
        self.messages.capacity()
    }

    /// The number of tasks in the tree.
    pub fn num_tasks(&self) -> (r: usize)
        ensures
            self.tasks().dom().finite(),
            r == self.tasks().dom().len(),
    {
        self.tree.len()
    }

    /// Adds a task called `name` on the first level and returns its handle.
    pub fn add_child(&mut self, name: String) -> (r: Item)
        ensures
            r.key()@ == seq![old(self).next_child()],
            final(self).tasks() == old(self).tasks().insert(
                r.key(),
                Task { name, id: UNKNOWN, progress: None },
            ),
            final(self).messages() == old(self).messages(),
            final(self).next_child() == next_child_id(old(self).next_child()),
            r.next_child() == 0,
    {
        self.add_child_with_id(name, UNKNOWN)
    }

    /// Adds a task called `name` with the identifier `id` on the first level
    /// and returns its handle.
    pub fn add_child_with_id(&mut self, name: String, id: Id) -> (r: Item)
        ensures
            r.key()@ == seq![old(self).next_child()],
            final(self).tasks() == old(self).tasks().insert(
                r.key(),
                Task { name, id, progress: None },
            ),
            final(self).messages() == old(self).messages(),
            final(self).next_child() == next_child_id(old(self).next_child()),
            r.next_child() == 0,
    {
        let child_key = Key::default().add_child(self.highest_child_id);
        assert(child_key@ =~= seq![self.highest_child_id]);
        self.tree.insert(child_key, Task { name, id, progress: None });
        self.highest_child_id = self.highest_child_id.wrapping_add(1);
        Item { highest_child_id: 0, value: new_counter(0), key: child_key }
    }

    /// Replaces the content of `out` by all tasks in the order of their
    /// keys, so that a task comes before the tasks below it.
    pub fn sorted_snapshot(&self, out: &mut Vec<(Key, TaskSnapshot)>)
        ensures
            is_sorted_snapshot(self.tasks(), final(out)@),
            final(out)@.len() == self.tasks().dom().len(),
    {
        self.tree.sorted_snapshot(out);
    }

    /// Replaces the content of `out` by all messages, the oldest first.
    pub fn copy_messages(&self, out: &mut Vec<Message>)
        ensures
            views(final(out)@) == self.messages().retained(),
    {
        self.messages.copy_all(out);
    }

    /// Replaces the content of `out` by the messages that are new since the
    /// read that returned `prev`, the oldest first, and returns the state
    /// for the next read.
    pub fn copy_new_messages(&self, out: &mut Vec<Message>, prev: Option<MessageCopyState>) -> (r:
        MessageCopyState)
        requires
            prev is Some && self.messages().slots.len() == 0 ==> prev.unwrap()@.cursor == 0,
        ensures
            views(final(out)@) == self.messages().news_since(
                match prev {
                    Some(p) => Some(p@),
                    None => None,
                },
            ),
            r@ == self.messages().state(),
    {
        self.messages.copy_new(out, prev)
    }
}

impl Root {
    /// What a reader whose last read left `prev` gets: as `copy_new_messages`
    /// has it, but a state that cannot belong to these messages counts as
    /// none.
    pub open spec fn news_for(self, prev: Option<MessageCopyState>) -> Seq<
        crate::messages::MessageView,
    > {
        match prev {
            Some(p) => if self.messages().slots.len() == 0 && p@.cursor != 0 {
                self.messages().news_since(None)
            } else {
                self.messages().news_since(Some(p@))
            },
            None => self.messages().news_since(None),
        }
    }

    /// Replaces the content of `out` by the messages that are new since the
    /// read that returned `prev`, the oldest first, and returns the state
    /// for the next read. A state that cannot belong to these messages
    /// counts as none, so that all messages are read.
    pub fn copy_new_messages_since(
        &self,
        out: &mut Vec<Message>,
        prev: Option<MessageCopyState>,
    ) -> (r: MessageCopyState)
        ensures
            views(final(out)@) == self.news_for(prev),
            r@ == self.messages().state(),
    {
        if self.messages.accepts(&prev) {
            self.messages.copy_new(out, prev)
        } else {
            self.messages.copy_new(out, None)
        }
    }
}

impl Root {
    /// A tree with a copy of each task and of each message. The copy of a
    /// task has a counter of its own.
    pub fn deep_clone(&self) -> (r: Root)
        ensures
            r.messages() == self.messages(),
            r.next_child() == self.next_child(),
            r.tasks().dom() == self.tasks().dom(),
            forall|k: Key| #[trigger]
                self.tasks().dom().contains(k) ==> is_copy_of(r.tasks()[k], self.tasks()[k]),
    {
        Root {
            highest_child_id: self.highest_child_id,
            tree: self.tree.deep_clone(),
            messages: self.messages.duplicate(),
        }
    }
}

impl Default for Root {
    fn default() -> (r: Self)
        ensures
            r.tasks() == Map::<Key, Task>::empty(),
            r.messages() == Ring::empty(20),
            r.next_child() == 0,
    {
        Root::new(100, 20)
    }
}

impl Item {
    /// The key of the task.
    pub closed spec fn key(self) -> Key {
        self.key
    }

    /// The counter of the task.
    pub closed spec fn shared_counter(self) -> StepShared {
        self.value
    }

    /// The identifier that the next child of the task gets.
    pub closed spec fn next_child(self) -> crate::key::Id {
        self.highest_child_id
    }

    /// The key of the task.
    pub fn key_of(&self) -> (r: Key)
        ensures
            r == self.key(),
    {
        self.key
    }

    /// The task as `init` leaves it: with a running progress on the counter
    /// `step` if a bound or a unit is given, else without progress.
    pub open spec fn initialized(
        task: Task,
        step: StepShared,
        max: Option<Step>,
        unit: Option<Unit>,
    ) -> Task {
        Task {
            progress: if max is Some || unit is Some {
                Some(Value { step, done_at: max, unit, state: State::Running })
            } else {
                None
            },
            ..task
        }
    }

    /// The task with `f` applied to its progress, if it has one.
    pub open spec fn with_state(task: Task, state: State) -> Task {
        Task {
            progress: match task.progress {
                Some(value) => Some(Value { state, ..value }),
                None => None,
            },
            ..task
        }
    }

    /// The task with the bound of its progress replaced, if it has one.
    pub open spec fn with_max(task: Task, max: Option<Step>) -> Task {
        Task {
            progress: match task.progress {
                Some(value) => Some(Value { done_at: max, ..value }),
                None => None,
            },
            ..task
        }
    }

    /// Sets the counter to zero and gives the task a progress with the
    /// upper bound `max` and the unit `unit`. Without either, the task loses
    /// its progress and only groups others. Nothing happens if the task is
    /// no longer in the tree.
    pub fn init(&mut self, root: &mut Root, max: Option<Step>, unit: Option<Unit>)
        ensures
            *final(self) == *old(self),
            final(root).messages() == old(root).messages(),
            final(root).next_child() == old(root).next_child(),
            final(root).tasks() == if old(root).tasks().dom().contains(old(self).key()) {
                old(root).tasks().insert(
                    old(self).key(),
                    Item::initialized(
                        old(root).tasks()[old(self).key()],
                        old(self).shared_counter(),
                        max,
                        unit,
                    ),
                )
            } else {
                old(root).tasks()
            },
    {
        match root.tree.remove(&self.key) {
            Some(task) => {
                self.value.store(0, Ordering::SeqCst);
                let progress = if max.is_some() || unit.is_some() {
                    Some(Value::new(share(&self.value), max, unit))
                } else {
                    None
                };
                root.tree.insert(self.key, Task { name: task.name, id: task.id, progress });
                assert(root.tasks() =~= old(root).tasks().insert(
                    old(self).key(),
                    Item::initialized(
                        old(root).tasks()[old(self).key()],
                        old(self).shared_counter(),
                        max,
                        unit,
                    ),
                ));
            },
            None => {
                assert(root.tasks() =~= old(root).tasks());
            },
        }
    }

    /// Replaces the state of the progress, if the task has one.
    fn alter_state(&self, root: &mut Root, state: State)
        ensures
            final(root).messages() == old(root).messages(),
            final(root).next_child() == old(root).next_child(),
            final(root).tasks() == if old(root).tasks().dom().contains(self.key()) {
                old(root).tasks().insert(
                    self.key(),
                    Item::with_state(old(root).tasks()[self.key()], state),
                )
            } else {
                old(root).tasks()
            },
    {
        match root.tree.remove(&self.key) {
            Some(task) => {
                let progress = match task.progress {
                    Some(value) => Some(
                        Value { step: value.step, done_at: value.done_at, unit: value.unit, state },
                    ),
                    None => None,
                };
                root.tree.insert(self.key, Task { name: task.name, id: task.id, progress });
                assert(root.tasks() =~= old(root).tasks().insert(
                    self.key(),
                    Item::with_state(old(root).tasks()[self.key()], state),
                ));
            },
            None => {
                assert(root.tasks() =~= old(root).tasks());
            },
        }
    }

    /// Sets the name of the task. Nothing happens if the task is no longer
    /// in the tree.
    pub fn set_name(&mut self, root: &mut Root, name: String)
        ensures
            *final(self) == *old(self),
            final(root).messages() == old(root).messages(),
            final(root).next_child() == old(root).next_child(),
            final(root).tasks() == if old(root).tasks().dom().contains(old(self).key()) {
                old(root).tasks().insert(
                    old(self).key(),
                    Task { name, ..old(root).tasks()[old(self).key()] },
                )
            } else {
                old(root).tasks()
            },
    {
        match root.tree.remove(&self.key) {
            Some(task) => {
                root.tree.insert(self.key, Task { name, id: task.id, progress: task.progress });
                assert(root.tasks() =~= old(root).tasks().insert(
                    old(self).key(),
                    Task { name, ..old(root).tasks()[old(self).key()] },
                ));
            },
            None => {
                assert(root.tasks() =~= old(root).tasks());
            },
        }
    }

    /// The name of the task, or `None` if the task is no longer in the tree.
    pub fn name(&self, root: &Root) -> (r: Option<String>)
        ensures
            root.tasks().dom().contains(self.key()) ==> r.is_some() && r.unwrap()@
                == root.tasks()[self.key()].name@,
            !root.tasks().dom().contains(self.key()) ==> r.is_none(),
    {
        match root.tree.get(&self.key) {
            Some(task) => Some(task.name.clone()),
            None => None,
        }
    }

    /// The stable identifier of the task, or the unknown one if the task is
    /// no longer in the tree.
    pub fn id(&self, root: &Root) -> (r: Id)
        ensures
            r == if root.tasks().dom().contains(self.key()) {
                root.tasks()[self.key()].id
            } else {
                UNKNOWN
            },
    {
        match root.tree.get(&self.key) {
            Some(task) => task.id,
            None => UNKNOWN,
        }
    }

    /// The current step, as `set` and `inc` have left it.
    pub fn step(&self) -> (r: Option<Step>)
        ensures
            r.is_some(),
    {
        Some(read(&self.value))
    }

    /// The upper bound of the progress, as given to `init` or `set_max`.
    pub fn max(&self, root: &Root) -> (r: Option<Step>)
        ensures
            r == if root.tasks().dom().contains(self.key()) {
                match root.tasks()[self.key()].progress {
                    Some(value) => value.done_at,
                    None => None,
                }
            } else {
                None
            },
    {
        match root.tree.get(&self.key) {
            Some(task) => match &task.progress {
                Some(value) => value.done_at,
                None => None,
            },
            None => None,
        }
    }

    /// Sets the upper bound of the progress to `max` and returns the bound
    /// it had before. Nothing happens if the task has no progress.
    pub fn set_max(&mut self, root: &mut Root, max: Option<Step>) -> (r: Option<Step>)
        ensures
            *final(self) == *old(self),
            final(root).messages() == old(root).messages(),
            final(root).next_child() == old(root).next_child(),
            final(root).tasks() == if old(root).tasks().dom().contains(old(self).key()) {
                old(root).tasks().insert(
                    old(self).key(),
                    Item::with_max(old(root).tasks()[old(self).key()], max),
                )
            } else {
                old(root).tasks()
            },
            r == if old(root).tasks().dom().contains(old(self).key()) {
                match old(root).tasks()[old(self).key()].progress {
                    Some(value) => value.done_at,
                    None => None,
                }
            } else {
                None
            },
    {
        match root.tree.remove(&self.key) {
            Some(task) => {
                let (progress, prev) = match task.progress {
                    Some(value) => (
                        Some(
                            Value {
                                step: value.step,
                                done_at: max,
                                unit: value.unit,
                                state: value.state,
                            },
                        ),
                        value.done_at,
                    ),
                    None => (None, None),
                };
                root.tree.insert(self.key, Task { name: task.name, id: task.id, progress });
                assert(root.tasks() =~= old(root).tasks().insert(
                    old(self).key(),
                    Item::with_max(old(root).tasks()[old(self).key()], max),
                ));
                prev
            },
            None => {
                assert(root.tasks() =~= old(root).tasks());
                None
            },
        }
    }

    /// The unit of the progress.
    pub fn unit(&self, root: &Root) -> (r: Option<Unit>)
        ensures
            r == if root.tasks().dom().contains(self.key()) {
                match root.tasks()[self.key()].progress {
                    Some(value) => value.unit,
                    None => None,
                }
            } else {
                None
            },
    {
        match root.tree.get(&self.key) {
            Some(task) => match &task.progress {
                Some(value) => value.unit,
                None => None,
            },
            None => None,
        }
    }

    /// Sets the current step to `step`.
    pub fn set(&mut self, step: Step)
        ensures
            *final(self) == *old(self),
    {
        self.value.store(step, Ordering::SeqCst);
    }

    /// Adds `step` to the current step.
    pub fn inc_by(&mut self, step: Step)
        ensures
            *final(self) == *old(self),
    {
        self.value.fetch_add(step, Ordering::SeqCst);
    }

    /// Adds one to the current step.
    pub fn inc(&mut self)
        ensures
            *final(self) == *old(self),
    {
        self.value.fetch_add(1, Ordering::SeqCst);
    }

    /// Marks the progress as blocked for `reason`, optionally until `eta`:
    /// the task makes no progress and cannot be interrupted. Nothing happens
    /// if the task has no progress.
    pub fn blocked(&mut self, root: &mut Root, reason: &'static str, eta: Option<Time>)
        ensures
            *final(self) == *old(self),
            final(root).messages() == old(root).messages(),
            final(root).next_child() == old(root).next_child(),
            final(root).tasks() == if old(root).tasks().dom().contains(old(self).key()) {
                old(root).tasks().insert(
                    old(self).key(),
                    Item::with_state(old(root).tasks()[old(self).key()], State::Blocked(reason, eta)),
                )
            } else {
                old(root).tasks()
            },
    {
        self.alter_state(root, State::Blocked(reason, eta));
    }

    /// Marks the progress as halted for `reason`, optionally until `eta`:
    /// the task makes no progress but can be interrupted. Nothing happens if
    /// the task has no progress.
    pub fn halted(&mut self, root: &mut Root, reason: &'static str, eta: Option<Time>)
        ensures
            *final(self) == *old(self),
            final(root).messages() == old(root).messages(),
            final(root).next_child() == old(root).next_child(),
            final(root).tasks() == if old(root).tasks().dom().contains(old(self).key()) {
                old(root).tasks().insert(
                    old(self).key(),
                    Item::with_state(old(root).tasks()[old(self).key()], State::Halted(reason, eta)),
                )
            } else {
                old(root).tasks()
            },
    {
        self.alter_state(root, State::Halted(reason, eta));
    }

    /// Marks the progress as running again. Nothing happens if the task has
    /// no progress.
    pub fn running(&mut self, root: &mut Root)
        ensures
            *final(self) == *old(self),
            final(root).messages() == old(root).messages(),
            final(root).next_child() == old(root).next_child(),
            final(root).tasks() == if old(root).tasks().dom().contains(old(self).key()) {
                old(root).tasks().insert(
                    old(self).key(),
                    Item::with_state(old(root).tasks()[old(self).key()], State::Running),
                )
            } else {
                old(root).tasks()
            },
    {
        self.alter_state(root, State::Running);
    }

    /// Adds a task called `name` one level below this one and returns its
    /// handle. At the deepest level the new task takes the place of the
    /// last component of the key, so that it shares its row with its
    /// siblings there.
    pub fn add_child(&mut self, root: &mut Root, name: String) -> (r: Item)
        ensures
            r.key()@ == Key::child(old(self).key()@, old(self).next_child()),
            r.next_child() == 0,
            final(self).key() == old(self).key(),
            final(self).shared_counter() == old(self).shared_counter(),
            final(self).next_child() == next_child_id(old(self).next_child()),
            final(root).tasks() == old(root).tasks().insert(
                r.key(),
                Task { name, id: UNKNOWN, progress: None },
            ),
            final(root).messages() == old(root).messages(),
            final(root).next_child() == old(root).next_child(),
    {
        self.add_child_with_id(root, name, UNKNOWN)
    }

    /// Adds a task called `name` with the identifier `id` one level below
    /// this one and returns its handle.
    pub fn add_child_with_id(&mut self, root: &mut Root, name: String, id: Id) -> (r: Item)
        ensures
            r.key()@ == Key::child(old(self).key()@, old(self).next_child()),
            r.next_child() == 0,
            final(self).key() == old(self).key(),
            final(self).shared_counter() == old(self).shared_counter(),
            final(self).next_child() == next_child_id(old(self).next_child()),
            final(root).tasks() == old(root).tasks().insert(
                r.key(),
                Task { name, id, progress: None },
            ),
            final(root).messages() == old(root).messages(),
            final(root).next_child() == old(root).next_child(),
    {
        let child_key = self.key.add_child(self.highest_child_id);
        root.tree.insert(child_key, Task { name, id, progress: None });
        self.highest_child_id = self.highest_child_id.wrapping_add(1);
        Item { highest_child_id: 0, value: new_counter(0), key: child_key }
    }

    /// The name under which the task sends a message: its name in the tree,
    /// or nothing if it is no longer there.
    pub open spec fn origin(self, tasks: Map<Key, Task>) -> Seq<char> {
        if tasks.dom().contains(self.key()) {
            tasks[self.key()].name@
        } else {
            Seq::empty()
        }
    }

    /// The unit in which the task counts, or nothing if it has no progress
    /// or is no longer in the tree.
    pub open spec fn unit_in(self, tasks: Map<Key, Task>) -> Option<Unit> {
        if tasks.dom().contains(self.key()) {
            match tasks[self.key()].progress {
                Some(value) => value.unit,
                None => None,
            }
        } else {
            None
        }
    }

    /// Stores a message of the given `level` with the tree, stamped with the
    /// time of the call and the name of the task. A tree that keeps no
    /// messages only counts it.
    pub fn message(&self, root: &mut Root, level: MessageLevel, message: String)
        ensures
            final(root).tasks() == old(root).tasks(),
            final(root).next_child() == old(root).next_child(),
            old(root).messages().was_told(
                final(root).messages(),
                level,
                self.origin(old(root).tasks()),
                message@,
            ),
    {
        let name = match root.tree.get(&self.key) {
            Some(task) => task.name.clone(),
            None => String::new(),
        };
        root.messages.push_overwrite(level, name, message);
    }

    /// Stores a message that says that the task is done.
    pub fn done(&self, root: &mut Root, message: String)
        ensures
            final(root).tasks() == old(root).tasks(),
            final(root).next_child() == old(root).next_child(),
            old(root).messages().was_told(
                final(root).messages(),
                MessageLevel::Success,
                self.origin(old(root).tasks()),
                message@,
            ),
    {
        self.message(root, MessageLevel::Success, message)
    }

    /// Stores a message that says that the task failed.
    pub fn fail(&self, root: &mut Root, message: String)
        ensures
            final(root).tasks() == old(root).tasks(),
            final(root).next_child() == old(root).next_child(),
            old(root).messages().was_told(
                final(root).messages(),
                MessageLevel::Failure,
                self.origin(old(root).tasks()),
                message@,
            ),
    {
        self.message(root, MessageLevel::Failure, message)
    }

    /// Stores a message with more information about the progress so far.
    pub fn info(&self, root: &mut Root, message: String)
        ensures
            final(root).tasks() == old(root).tasks(),
            final(root).next_child() == old(root).next_child(),
            old(root).messages().was_told(
                final(root).messages(),
                MessageLevel::Info,
                self.origin(old(root).tasks()),
                message@,
            ),
    {
        self.message(root, MessageLevel::Info, message)
    }

    /// Stores a message of `level` that tells of `step` steps in `unit`
    /// which took `elapsed`, and of the steps per second.
    pub fn show_throughput_with(
        &self,
        root: &mut Root,
        elapsed: crate::time::Duration,
        step: Step,
        unit: Unit,
        level: MessageLevel,
    )
        ensures
            final(root).tasks() == old(root).tasks(),
            final(root).next_child() == old(root).next_child(),
            old(root).messages().was_told(
                final(root).messages(),
                level,
                self.origin(old(root).tasks()),
                crate::throughput::throughput_report(step, Some(unit), elapsed),
            ),
    {
        let text = crate::throughput::show_throughput_text(step, Some(&unit), elapsed);
        self.message(root, level, text);
    }

    /// Stores a message that tells of the steps of the task so far, which
    /// took `elapsed`, and of the steps per second: in the unit of the
    /// task, or as items if it has none.
    pub fn show_throughput(&self, root: &mut Root, elapsed: crate::time::Duration)
        ensures
            final(root).tasks() == old(root).tasks(),
            final(root).next_child() == old(root).next_child(),
            exists|step: Step|
                old(root).messages().was_told(
                    final(root).messages(),
                    MessageLevel::Info,
                    self.origin(old(root).tasks()),
                    #[trigger] crate::throughput::throughput_report(
                        step,
                        self.unit_in(old(root).tasks()),
                        elapsed,
                    ),
                ),
    {
        let step = read(&self.value);
        let unit = self.unit(root);
        let text = crate::throughput::show_throughput_text(step, unit.as_ref(), elapsed);
        let ghost report = text@;
        self.message(root, MessageLevel::Info, text);
        assert(report == crate::throughput::throughput_report(
            step,
            self.unit_in(old(root).tasks()),
            elapsed,
        ));
    }

    /// A handle to the counter of the task, for producers that count
    /// without going through the tree.
    pub fn counter(&self) -> (r: Option<StepShared>)
        ensures
            r == Some(self.shared_counter()),
    {
        Some(share(&self.value))
    }

    /// Gives up the handle and takes the row of the task out of the tree.
    /// The tasks below it have rows of their own and stay.
    pub fn release(self, root: &mut Root)
        ensures
            final(root).tasks() == old(root).tasks().remove(self.key()),
            final(root).messages() == old(root).messages(),
            final(root).next_child() == old(root).next_child(),
    {
        root.tree.remove(&self.key);
    }
}

} // verus!
