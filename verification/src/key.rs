//! Hierarchical identifiers of tasks, their total order, and the adjacency
//! classification that drives tree glyphs.
use vstd::prelude::*;

verus! {

/// A level in the hierarchy of key components.
pub type Level = u8;

/// The identifier of a child below its parent.
///
/// With more than 2^16 live tasks below one parent, identifiers repeat and
/// several handles address the same row.
pub type Id = u16;

/// The largest number of components a key can hold.
pub const MAX_DEPTH: Level = 6;

/// A key as six numbers, one per slot: zero for an absent slot, and one
/// more than the identifier for a present one.
pub type Ranks = (u32, u32, u32, u32, u32, u32);

/// A spot in the hierarchy: up to six child identifiers, the root first.
///
/// Present slots are contiguous from the first one. Keys are ordered slot by
/// slot with an absent slot before every present one: [`Key::before`] states
/// this order and [`Key::precedes`] computes it. The derived `Ord` is there
/// for callers that sort; no proof relies on it.
#[derive(Copy, Clone, Hash, PartialEq, Eq, Structural, PartialOrd, Ord, Debug)]
pub struct Key(Option<Id>, Option<Id>, Option<Id>, Option<Id>, Option<Id>, Option<Id>);

/// Whether a sibling is above or below at one level of the hierarchy.
#[derive(Copy, Clone, Hash, PartialEq, Eq, Structural, PartialOrd, Ord, Debug)]
pub enum SiblingLocation {
    Above,
    Below,
    AboveAndBelow,
    NotFound,
}

/// What is above and below a task, one entry per level.
#[derive(Copy, Clone, Hash, PartialEq, Eq, Structural, PartialOrd, Ord, Debug)]
pub struct Adjacency(
    pub SiblingLocation,
    pub SiblingLocation,
    pub SiblingLocation,
    pub SiblingLocation,
    pub SiblingLocation,
    pub SiblingLocation,
);

/// The number that stands for a slot when keys are compared: an absent slot
/// comes before every identifier.
pub open spec fn slot_rank(slot: Option<Id>) -> int {
    match slot {
        None => 0,
        Some(id) => id + 1,
    }
}

/// Lexicographic order on component vectors: the first differing component
/// decides, and a proper prefix comes first.
pub open spec fn lex_lt(a: Seq<Id>, b: Seq<Id>) -> bool
    decreases a.len(),
{
    if b.len() == 0 {
        false
    } else if a.len() == 0 {
        true
    } else if a[0] != b[0] {
        a[0] < b[0]
    } else {
        lex_lt(a.drop_first(), b.drop_first())
    }
}

/// The location that results from learning `other` about a level that was
/// classified as `this` so far.
pub open spec fn merged(this: SiblingLocation, other: SiblingLocation) -> SiblingLocation {
    match (this, other) {
        (any, SiblingLocation::NotFound) => any,
        (SiblingLocation::NotFound, any) => any,
        (SiblingLocation::Above, SiblingLocation::Above) => SiblingLocation::Above,
        (SiblingLocation::Below, SiblingLocation::Below) => SiblingLocation::Below,
        _ => SiblingLocation::AboveAndBelow,
    }
}

impl SiblingLocation {
    /// Combines what is known about a level with `other`.
    pub fn merge(&mut self, other: SiblingLocation)
        ensures
            *final(self) == merged(*old(self), other),
    {
        *self = match (*self, other) {
            (any, SiblingLocation::NotFound) => any,
            (SiblingLocation::NotFound, any) => any,
            (SiblingLocation::Above, SiblingLocation::Below) => SiblingLocation::AboveAndBelow,
            (SiblingLocation::Below, SiblingLocation::Above) => SiblingLocation::AboveAndBelow,
            (SiblingLocation::AboveAndBelow, _) => SiblingLocation::AboveAndBelow,
            (_, SiblingLocation::AboveAndBelow) => SiblingLocation::AboveAndBelow,
            (SiblingLocation::Above, SiblingLocation::Above) => SiblingLocation::Above,
            (SiblingLocation::Below, SiblingLocation::Below) => SiblingLocation::Below,
        };
    }
}

impl Default for SiblingLocation {
    fn default() -> (r: Self)
        ensures
            r == SiblingLocation::NotFound,
    {
        SiblingLocation::NotFound
    }
}

impl Adjacency {
    /// The entry for `level`, counted from one; `NotFound` outside `1..=6`.
    pub open spec fn at(self, level: int) -> SiblingLocation {
        if level == 1 {
            self.0
        } else if level == 2 {
            self.1
        } else if level == 3 {
            self.2
        } else if level == 4 {
            self.3
        } else if level == 5 {
            self.4
        } else if level == 6 {
            self.5
        } else {
            SiblingLocation::NotFound
        }
    }

    /// The adjacency that differs from `self` at `level` only, where it is `location`.
    pub open spec fn with(self, level: int, location: SiblingLocation) -> Adjacency {
        Adjacency(
            if level == 1 { location } else { self.0 },
            if level == 2 { location } else { self.1 },
            if level == 3 { location } else { self.2 },
            if level == 4 { location } else { self.3 },
            if level == 5 { location } else { self.4 },
            if level == 6 { location } else { self.5 },
        )
    }

    /// The deepest level that has a location other than `NotFound`.
    pub open spec fn depth(self) -> int {
        if self.5 != SiblingLocation::NotFound {
            6
        } else if self.4 != SiblingLocation::NotFound {
            5
        } else if self.3 != SiblingLocation::NotFound {
            4
        } else if self.2 != SiblingLocation::NotFound {
            3
        } else if self.1 != SiblingLocation::NotFound {
            2
        } else if self.0 != SiblingLocation::NotFound {
            1
        } else {
            0
        }
    }

    /// The deepest level at which a sibling or parent was found, or zero.
    pub fn level(&self) -> (r: Level)
        ensures
            r == self.depth(),
    {
        if self.5 != SiblingLocation::NotFound {
            6
        } else if self.4 != SiblingLocation::NotFound {
            5
        } else if self.3 != SiblingLocation::NotFound {
            4
        } else if self.2 != SiblingLocation::NotFound {
            3
        } else if self.1 != SiblingLocation::NotFound {
            2
        } else if self.0 != SiblingLocation::NotFound {
            1
        } else {
            0
        }
    }

    /// The location at `level`, which counts from one.
    pub fn get(&self, level: Level) -> (r: Option<&SiblingLocation>)
        ensures
            1 <= level <= MAX_DEPTH ==> r == Some(&self.at(level as int)),
            !(1 <= level <= MAX_DEPTH) ==> r.is_none(),
    {
        match level {
            1 => Some(&self.0),
            2 => Some(&self.1),
            3 => Some(&self.2),
            4 => Some(&self.3),
            5 => Some(&self.4),
            6 => Some(&self.5),
            _ => None,
        }
    }

    /// A mutable reference to the location at `level`, which counts from one.
    /// Writing through it changes that level and no other.
    pub fn get_mut(&mut self, level: Level) -> (r: Option<&mut SiblingLocation>)
        ensures
            match r {
                Some(location) => {
                    &&& 1 <= level <= MAX_DEPTH
                    &&& *location == old(self).at(level as int)
                    &&& *final(self) == old(self).with(level as int, *final(location))
                },
                None => !(1 <= level <= MAX_DEPTH) && *final(self) == *old(self),
            },
    {
        match level {
            1 => Some(&mut self.0),
            2 => Some(&mut self.1),
            3 => Some(&mut self.2),
            4 => Some(&mut self.3),
            5 => Some(&mut self.4),
            6 => Some(&mut self.5),
            _ => None,
        }
    }

    /// Replaces the location at `level` by its merge with `location`.
    /// Levels outside `1..=6` are left alone.
    pub fn merge_at(&mut self, level: Level, location: SiblingLocation)
        ensures
            *final(self) == if 1 <= level <= MAX_DEPTH {
                old(self).with(level as int, merged(old(self).at(level as int), location))
            } else {
                *old(self)
            },
    {
        match self.get_mut(level) {
            Some(slot) => slot.merge(location),
            None => {},
        }
    }
}

impl Default for Adjacency {
    fn default() -> (r: Self)
        ensures
            r == Adjacency(
                SiblingLocation::NotFound,
                SiblingLocation::NotFound,
                SiblingLocation::NotFound,
                SiblingLocation::NotFound,
                SiblingLocation::NotFound,
                SiblingLocation::NotFound,
            ),
    {
        Adjacency(
            SiblingLocation::NotFound,
            SiblingLocation::NotFound,
            SiblingLocation::NotFound,
            SiblingLocation::NotFound,
            SiblingLocation::NotFound,
            SiblingLocation::NotFound,
        )
    }
}

impl View for Key {
    type V = Seq<Id>;

    /// The components of the key, the one nearest to the root first.
    closed spec fn view(&self) -> Seq<Id> {
        Seq::new(self.depth() as nat, |i: int| self.slot(i).unwrap())
    }
}

impl Default for Key {
    /// The key of the root, which has no components.
    fn default() -> (r: Self)
        ensures
            r@ == Seq::<Id>::empty(),
            r.wf(),
    {
        Key(None, None, None, None, None, None)
    }
}

impl Key {
    #[verifier::type_invariant]
    closed spec fn contiguous(self) -> bool {
        &&& self.1 is Some ==> self.0 is Some
        &&& self.2 is Some ==> self.1 is Some
        &&& self.3 is Some ==> self.2 is Some
        &&& self.4 is Some ==> self.3 is Some
        &&& self.5 is Some ==> self.4 is Some
    }

    /// Present slots are contiguous from the first one. Every key that
    /// executable code can hold is well-formed.
    pub closed spec fn wf(self) -> bool {
        self.contiguous()
    }

    closed spec fn slot(self, i: int) -> Option<Id> {
        if i == 0 {
            self.0
        } else if i == 1 {
            self.1
        } else if i == 2 {
            self.2
        } else if i == 3 {
            self.3
        } else if i == 4 {
            self.4
        } else if i == 5 {
            self.5
        } else {
            None
        }
    }

    closed spec fn depth(self) -> int {
        if self.0 is None {
            0
        } else if self.1 is None {
            1
        } else if self.2 is None {
            2
        } else if self.3 is None {
            3
        } else if self.4 is None {
            4
        } else if self.5 is None {
            5
        } else {
            6
        }
    }

    /// The order in which the derived comparison puts two keys: slot by slot,
    /// an absent slot before every present one.
    pub closed spec fn before(self, other: Key) -> bool {
        let a0 = slot_rank(self.0);
        let a1 = slot_rank(self.1);
        let a2 = slot_rank(self.2);
        let a3 = slot_rank(self.3);
        let a4 = slot_rank(self.4);
        let a5 = slot_rank(self.5);
        let b0 = slot_rank(other.0);
        let b1 = slot_rank(other.1);
        let b2 = slot_rank(other.2);
        let b3 = slot_rank(other.3);
        let b4 = slot_rank(other.4);
        let b5 = slot_rank(other.5);
        a0 < b0 || (a0 == b0 && (a1 < b1 || (a1 == b1 && (a2 < b2 || (a2 == b2 && (a3 < b3 || (a3
            == b3 && (a4 < b4 || (a4 == b4 && a5 < b5)))))))))
    }

    /// The key as six numbers, one per slot.
    pub closed spec fn ranks(self) -> Ranks {
        (
            slot_rank(self.0) as u32,
            slot_rank(self.1) as u32,
            slot_rank(self.2) as u32,
            slot_rank(self.3) as u32,
            slot_rank(self.4) as u32,
            slot_rank(self.5) as u32,
        )
    }

    /// True if the six numbers stand for a key: none is beyond what stands
    /// for the largest identifier, and no number follows a zero.
    pub open spec fn are_ranks(r: Ranks) -> bool {
        &&& r.0 <= 0x1_0000 && r.1 <= 0x1_0000 && r.2 <= 0x1_0000
        &&& r.3 <= 0x1_0000 && r.4 <= 0x1_0000 && r.5 <= 0x1_0000
        &&& r.1 != 0 ==> r.0 != 0
        &&& r.2 != 0 ==> r.1 != 0
        &&& r.3 != 0 ==> r.2 != 0
        &&& r.4 != 0 ==> r.3 != 0
        &&& r.5 != 0 ==> r.4 != 0
    }

    /// The key as six numbers, one per slot.
    pub fn to_ranks(&self) -> (r: Ranks)
        ensures
            r == self.ranks(),
            Key::are_ranks(r),
            self.wf(),
    {
        proof {
            use_type_invariant(self);
        }
        (rank(self.0), rank(self.1), rank(self.2), rank(self.3), rank(self.4), rank(self.5))
    }

    /// The key that the six numbers stand for.
    pub fn from_ranks(r: Ranks) -> (k: Key)
        requires
            Key::are_ranks(r),
        ensures
            k.ranks() == r,
            k.wf(),
    {
        Key(slot_of(r.0), slot_of(r.1), slot_of(r.2), slot_of(r.3), slot_of(r.4), slot_of(r.5))
    }

    /// Keys that stand for the same six numbers are the same key.
    pub proof fn law_ranks_are_one_to_one(a: Key, b: Key)
        requires
            a.ranks() == b.ranks(),
        ensures
            a == b,
    {
    }

    /// Six numbers that stand for a key are those of a well-formed key.
    pub proof fn lemma_key_of_ranks(r: Ranks) -> (k: Key)
        requires
            Key::are_ranks(r),
        ensures
            k.wf(),
            k.ranks() == r,
    {
        Key(
            slot_with(r.0),
            slot_with(r.1),
            slot_with(r.2),
            slot_with(r.3),
            slot_with(r.4),
            slot_with(r.5),
        )
    }

    /// The key of the child `child_id` below `self`. At the deepest level the
    /// last component is replaced, so the tree never grows deeper.
    pub open spec fn child(path: Seq<Id>, child_id: Id) -> Seq<Id> {
        if path.len() < MAX_DEPTH {
            path.push(child_id)
        } else {
            path.update(MAX_DEPTH - 1, child_id)
        }
    }

    /// Whether the first `parent_level` components of both paths exist and agree.
    pub open spec fn shares_parent(a: Seq<Id>, b: Seq<Id>, parent_level: int) -> bool {
        parent_level <= 0 || (parent_level <= a.len() && parent_level <= b.len() && a.subrange(
            0,
            parent_level,
        ) == b.subrange(0, parent_level))
    }

    /// The key of the child identified by `child_id` one level below `self`.
    pub fn add_child(self, child_id: Id) -> (r: Key)
        ensures
            r@ == Key::child(self@, child_id),
            r@.len() <= MAX_DEPTH,
            r.wf(),
    {
        proof {
            use_type_invariant(&self);
        }
        let r = match self {
            Key(None, _, _, _, _, _) => Key(Some(child_id), None, None, None, None, None),
            Key(a, None, _, _, _, _) => Key(a, Some(child_id), None, None, None, None),
            Key(a, b, None, _, _, _) => Key(a, b, Some(child_id), None, None, None),
            Key(a, b, c, None, _, _) => Key(a, b, c, Some(child_id), None, None),
            Key(a, b, c, d, None, _) => Key(a, b, c, d, Some(child_id), None),
            Key(a, b, c, d, e, _) => Key(a, b, c, d, e, Some(child_id)),
        };
        assert(r@ =~= Key::child(self@, child_id));
        r
    }

    /// The number of components, which is the level in the hierarchy.
    pub fn level(&self) -> (r: Level)
        ensures
            r == self@.len(),
            r <= MAX_DEPTH,
    {
        if self.0.is_none() {
            0
        } else if self.1.is_none() {
            1
        } else if self.2.is_none() {
            2
        } else if self.3.is_none() {
            3
        } else if self.4.is_none() {
            4
        } else if self.5.is_none() {
            5
        } else {
            6
        }
    }

    /// The identifier at `level`, which counts from one.
    pub fn get(&self, level: Level) -> (r: Option<&Id>)
        ensures
            1 <= level <= self@.len() ==> r == Some(&self@[level - 1]),
            !(1 <= level <= self@.len()) ==> r.is_none(),
    {
        proof {
            use_type_invariant(self);
        }
        match level {
            1 => self.0.as_ref(),
            2 => self.1.as_ref(),
            3 => self.2.as_ref(),
            4 => self.3.as_ref(),
            5 => self.4.as_ref(),
            6 => self.5.as_ref(),
            _ => None,
        }
    }

    /// True if the key is as deep as a key can be, so that a child of it
    /// takes the place of its last component.
    pub fn is_deepest(&self) -> (r: bool)
        ensures
            r == (self@.len() == MAX_DEPTH),
    {
        self.level() == MAX_DEPTH
    }

    /// The largest number of components a key can hold.
    pub fn max_level() -> (r: Level)
        ensures
            r == MAX_DEPTH,
    {
        MAX_DEPTH
    }

    /// True if both keys have `parent_level` components or more and agree on
    /// the first `parent_level` of them. Every two keys share level zero.
    pub fn shares_parent_with(&self, other: &Key, parent_level: Level) -> (r: bool)
        ensures
            r == Key::shares_parent(self@, other@, parent_level as int),
    {
        if parent_level < 1 {
            return true;
        }
        let mut level: Level = 1;
        while level <= parent_level
            invariant
                1 <= level <= parent_level + 1,
                level <= self@.len() + 1,
                level <= other@.len() + 1,
                forall|i: int| 0 <= i < level - 1 ==> self@[i] == other@[i],
            decreases parent_level + 1 - level,
        {
            match (self.get(level), other.get(level)) {
                (Some(lhs), Some(rhs)) => {
                    if *lhs != *rhs {
                        proof {
                            if parent_level <= self@.len() && parent_level <= other@.len() {
                                let sa = self@.subrange(0, parent_level as int);
                                let sb = other@.subrange(0, parent_level as int);
                                assert(sa[level - 1] == self@[level - 1]);
                                assert(sb[level - 1] == other@[level - 1]);
                            }
                        }
                        return false;
                    }
                },
                _ => {
                    return false;
                },
            }
            if level == 255 {
                return false;
            }
            level = level + 1;
        }
        assert(self@.subrange(0, parent_level as int) =~= other@.subrange(0, parent_level as int));
        true
    }

    /// True if `self` comes before `other` in the order of keys.
    pub fn precedes(&self, other: &Key) -> (r: bool)
        ensures
            r == self.before(*other),
    {
        let a = (
            rank(self.0),
            rank(self.1),
            rank(self.2),
            rank(self.3),
            rank(self.4),
            rank(self.5),
        );
        let b = (
            rank(other.0),
            rank(other.1),
            rank(other.2),
            rank(other.3),
            rank(other.4),
            rank(other.5),
        );
        a.0 < b.0 || (a.0 == b.0 && (a.1 < b.1 || (a.1 == b.1 && (a.2 < b.2 || (a.2 == b.2 && (a.3
            < b.3 || (a.3 == b.3 && (a.4 < b.4 || (a.4 == b.4 && a.5 < b.5)))))))))
    }

    /// The order of keys is the lexicographic order of their component
    /// vectors.
    pub proof fn law_order_is_lexicographic(a: Key, b: Key)
        requires
            a.wf(),
            b.wf(),
        ensures
            a.before(b) <==> lex_lt(a@, b@),
    {
        Self::lemma_slots(a);
        Self::lemma_slots(b);
        Self::lemma_lex_by_slots(a@, b@, 0);
        assert(a@.skip(0) =~= a@);
        assert(b@.skip(0) =~= b@);
        reveal_with_fuel(Key::tail_lt, 8);
    }

    /// Lexicographic order of the tails from `from` on, stated slot by slot.
    proof fn lemma_lex_by_slots(a: Seq<Id>, b: Seq<Id>, from: int)
        requires
            0 <= from <= a.len(),
            from <= b.len(),
        ensures
            lex_lt(a.skip(from), b.skip(from)) <==> Self::tail_lt(a, b, from),
        decreases a.len() - from,
    {
        let sa = a.skip(from);
        let sb = b.skip(from);
        if from < a.len() && from < b.len() {
            assert(sa.drop_first() =~= a.skip(from + 1));
            assert(sb.drop_first() =~= b.skip(from + 1));
            Self::lemma_lex_by_slots(a, b, from + 1);
        }
    }

    /// The order of two component vectors from position `from` on, given that
    /// they agree before it.
    pub open spec fn tail_lt(a: Seq<Id>, b: Seq<Id>, from: int) -> bool
        decreases a.len() - from,
    {
        if from >= b.len() {
            false
        } else if from >= a.len() {
            true
        } else if a[from] != b[from] {
            a[from] < b[from]
        } else {
            Self::tail_lt(a, b, from + 1)
        }
    }

    /// No key comes before itself.
    pub proof fn law_order_irreflexive(a: Key)
        ensures
            !a.before(a),
    {
    }

    /// The order of keys is transitive.
    pub proof fn law_order_transitive(a: Key, b: Key, c: Key)
        requires
            a.before(b),
            b.before(c),
        ensures
            a.before(c),
    {
    }

    /// Of two keys, one comes before the other unless they are the same key.
    pub proof fn law_order_total(a: Key, b: Key)
        ensures
            a.before(b) || b.before(a) || a == b,
            !(a.before(b) && b.before(a)),
    {
    }

    /// Two well-formed keys with the same components are the same key.
    pub proof fn law_view_injective(a: Key, b: Key)
        requires
            a.wf(),
            b.wf(),
            a@ == b@,
        ensures
            a == b,
    {
        Self::lemma_slots(a);
        Self::lemma_slots(b);
        assert(forall|i: int| 0 <= i < a@.len() ==> a@[i] == b@[i]);
    }

    /// Each slot holds the component of its level, and the slots past the
    /// last component are empty.
    proof fn lemma_slots(a: Key)
        requires
            a.wf(),
        ensures
            a@.len() == a.depth(),
            a.0 == (if a@.len() > 0 { Some(a@[0]) } else { None }),
            a.1 == (if a@.len() > 1 { Some(a@[1]) } else { None }),
            a.2 == (if a@.len() > 2 { Some(a@[2]) } else { None }),
            a.3 == (if a@.len() > 3 { Some(a@[3]) } else { None }),
            a.4 == (if a@.len() > 4 { Some(a@[4]) } else { None }),
            a.5 == (if a@.len() > 5 { Some(a@[5]) } else { None }),
    {
        assert(a.slot(0) == a.0);
        assert(a.slot(1) == a.1);
        assert(a.slot(2) == a.2);
        assert(a.slot(3) == a.3);
        assert(a.slot(4) == a.4);
        assert(a.slot(5) == a.5);
        if a@.len() > 0 {
            assert(a@[0] == a.slot(0).unwrap());
        }
        if a@.len() > 1 {
            assert(a@[1] == a.slot(1).unwrap());
        }
        if a@.len() > 2 {
            assert(a@[2] == a.slot(2).unwrap());
        }
        if a@.len() > 3 {
            assert(a@[3] == a.slot(3).unwrap());
        }
        if a@.len() > 4 {
            assert(a@[4] == a.slot(4).unwrap());
        }
        if a@.len() > 5 {
            assert(a@[5] == a.slot(5).unwrap());
        }
    }

    /// No sequence of `add_child` calls makes a key deeper than `MAX_DEPTH`.
    pub proof fn law_depth_is_capped(a: Key)
        ensures
            a@.len() <= MAX_DEPTH,
    {
    }
}

/// True if the keys of `rows` ascend strictly.
pub open spec fn ascending<T>(rows: Seq<(Key, T)>) -> bool {
    forall|i: int, j: int| 0 <= i < j < rows.len() ==> (#[trigger] rows[i]).0.before(
        (#[trigger] rows[j]).0,
    )
}

/// The place of `key` among rows that ascend by key: `Ok` with the index of
/// the row that has the key, or `Err` with the index at which a row with the
/// key keeps the order.
pub fn find<T>(rows: &[(Key, T)], key: &Key) -> (r: Result<usize, usize>)
    requires
        ascending(rows@),
    ensures
        match r {
            Ok(i) => i < rows.len() && rows[i as int].0 == *key,
            Err(i) => {
                &&& i <= rows.len()
                &&& forall|j: int| 0 <= j < i ==> (#[trigger] rows[j]).0.before(*key)
                &&& forall|j: int| i <= j < rows.len() ==> key.before((#[trigger] rows[j]).0)
            },
        },
{
    let mut low: usize = 0;
    let mut high: usize = rows.len();
    while low < high
        invariant
            low <= high <= rows.len(),
            ascending(rows@),
            forall|j: int| 0 <= j < low ==> (#[trigger] rows[j]).0.before(*key),
            forall|j: int| high <= j < rows.len() ==> key.before((#[trigger] rows[j]).0),
        decreases high - low,
    {
        let mid = low + (high - low) / 2;
        let other = &rows[mid].0;
        if other.precedes(key) {
            proof {
                assert forall|j: int| 0 <= j < mid + 1 implies (#[trigger] rows[j]).0.before(
                    *key,
                ) by {
                    if j < mid {
                        Key::law_order_transitive(rows[j].0, rows[mid as int].0, *key);
                    }
                }
            }
            low = mid + 1;
        } else if key.precedes(other) {
            proof {
                assert forall|j: int| mid <= j < rows.len() implies key.before(
                    (#[trigger] rows[j]).0,
                ) by {
                    if j > mid {
                        Key::law_order_transitive(*key, rows[mid as int].0, rows[j].0);
                    }
                }
            }
            high = mid;
        } else {
            proof {
                Key::law_order_total(*other, *key);
            }
            return Ok(mid);
        }
    }
    Err(low)
}

/// The keys of a snapshot, in its order.
pub open spec fn keys_of<T>(entries: Seq<(Key, T)>) -> Seq<Key> {
    Seq::new(entries.len(), |i: int| entries[i].0)
}

/// Whether a neighbour at `other_level` counts for `current_level` of a key
/// at `key_level`: at the key's own level a sibling or the parent does, at
/// the levels above it only an entry of that level.
pub open spec fn counts_for(other_level: int, key_level: int, current_level: int) -> bool {
    if current_level == key_level {
        other_level == key_level || other_level + 1 == key_level
    } else {
        other_level == current_level
    }
}

/// The level of the parent of `level`, where the root is its own parent.
pub open spec fn parent_level(level: int) -> int {
    if level >= 1 {
        level - 1
    } else {
        0
    }
}

/// Looks upward from the entry before `from`, starting `at` entries further
/// up, while the entries share the parent of `level` with `key`: how far up
/// the first entry is that counts for `level`.
pub open spec fn found_above(
    keys: Seq<Key>,
    from: int,
    key: Key,
    key_level: int,
    level: int,
    at: int,
) -> Option<int>
    decreases from - at,
{
    if at < 0 || at >= from || from > keys.len() {
        None
    } else {
        let other = keys[from - 1 - at];
        if !Key::shares_parent(key@, other@, parent_level(level)) {
            None
        } else if counts_for(other@.len() as int, key_level, level) {
            Some(at)
        } else {
            found_above(keys, from, key, key_level, level, at + 1)
        }
    }
}

/// Looks downward from the entry after `from`, starting `at` entries further
/// down, while the entries share the parent of `level` with `key`: how far
/// down the first entry is that counts for `level`.
pub open spec fn found_below(
    keys: Seq<Key>,
    from: int,
    key: Key,
    key_level: int,
    level: int,
    at: int,
) -> Option<int>
    decreases keys.len() - from - at,
{
    if at < 0 || from < 0 || from + 1 + at >= keys.len() {
        None
    } else {
        let other = keys[from + 1 + at];
        if !Key::shares_parent(key@, other@, parent_level(level)) {
            None
        } else if counts_for(other@.len() as int, key_level, level) {
            Some(at)
        } else {
            found_below(keys, from, key, key_level, level, at + 1)
        }
    }
}

/// What is found above the entry at `index`, level by level from `level`
/// up to the first: the first level always has the root above it, and a
/// find at a deeper level moves the place from which the next level looks.
pub open spec fn marked_above(
    keys: Seq<Key>,
    index: int,
    level: int,
    cursor: int,
    so_far: Adjacency,
) -> Adjacency
    decreases level,
{
    if level < 1 {
        so_far
    } else if level == 1 {
        so_far.with(1, merged(so_far.at(1), SiblingLocation::Above))
    } else {
        match found_above(keys, cursor, keys[index], keys[index]@.len() as int, level, 0) {
            Some(offset) => marked_above(
                keys,
                index,
                level - 1,
                index - offset,
                so_far.with(level, merged(so_far.at(level), SiblingLocation::Above)),
            ),
            None => marked_above(keys, index, level - 1, cursor, so_far),
        }
    }
}

/// What is found below the entry at `index`, level by level from `level`
/// up to the first.
pub open spec fn marked_below(
    keys: Seq<Key>,
    index: int,
    level: int,
    cursor: int,
    so_far: Adjacency,
) -> Adjacency
    decreases level,
{
    if level < 1 {
        so_far
    } else {
        match found_below(keys, cursor, keys[index], keys[index]@.len() as int, level, 0) {
            Some(offset) => marked_below(
                keys,
                index,
                level - 1,
                index + offset,
                so_far.with(level, merged(so_far.at(level), SiblingLocation::Below)),
            ),
            None => marked_below(keys, index, level - 1, cursor, so_far),
        }
    }
}

/// A location as it is kept at a level above the key's own: a line is drawn
/// there only if it goes on both above and below.
pub open spec fn kept_between(location: SiblingLocation) -> SiblingLocation {
    if location == SiblingLocation::AboveAndBelow {
        SiblingLocation::AboveAndBelow
    } else {
        SiblingLocation::NotFound
    }
}

/// `adjacency` with the levels from `level` up to the one above `key_level`
/// reduced to what is kept between.
pub open spec fn reduced(adjacency: Adjacency, level: int, key_level: int) -> Adjacency
    decreases key_level - level,
{
    if level >= key_level {
        adjacency
    } else {
        reduced(adjacency.with(level, kept_between(adjacency.at(level))), level + 1, key_level)
    }
}

/// The adjacency of the entry at `index` among `keys`.
pub open spec fn adjacency_of(keys: Seq<Key>, index: int) -> Adjacency {
    let none = Adjacency(
        SiblingLocation::NotFound,
        SiblingLocation::NotFound,
        SiblingLocation::NotFound,
        SiblingLocation::NotFound,
        SiblingLocation::NotFound,
        SiblingLocation::NotFound,
    );
    let key_level = keys[index]@.len() as int;
    if key_level == 0 {
        none
    } else {
        reduced(
            marked_below(
                keys,
                index,
                key_level,
                index,
                marked_above(keys, index, key_level, index, none),
            ),
            1,
            key_level,
        )
    }
}

/// Every entry that a look upward passes, up to and with the one it finds,
/// shares the parent of the level with the key.
pub proof fn law_look_above_is_local(
    keys: Seq<Key>,
    from: int,
    key: Key,
    key_level: int,
    level: int,
    at: int,
)
    requires
        0 <= at,
        found_above(keys, from, key, key_level, level, at) is Some,
    ensures
        at <= found_above(keys, from, key, key_level, level, at).unwrap() < from <= keys.len(),
        forall|j: int|
            at <= j <= found_above(keys, from, key, key_level, level, at).unwrap()
                ==> Key::shares_parent(key@, #[trigger] keys[from - 1 - j]@, parent_level(level)),
        counts_for(
            keys[from - 1 - found_above(keys, from, key, key_level, level, at).unwrap()]@.len() as int,
            key_level,
            level,
        ),
    decreases from - at,
{
    let other = keys[from - 1 - at];
    if !counts_for(other@.len() as int, key_level, level) {
        law_look_above_is_local(keys, from, key, key_level, level, at + 1);
    }
}

/// Every entry that a look downward passes, up to and with the one it
/// finds, shares the parent of the level with the key.
pub proof fn law_look_below_is_local(
    keys: Seq<Key>,
    from: int,
    key: Key,
    key_level: int,
    level: int,
    at: int,
)
    requires
        0 <= at,
        found_below(keys, from, key, key_level, level, at) is Some,
    ensures
        0 <= from,
        at <= found_below(keys, from, key, key_level, level, at).unwrap(),
        from + 1 + found_below(keys, from, key, key_level, level, at).unwrap() < keys.len(),
        forall|j: int|
            at <= j <= found_below(keys, from, key, key_level, level, at).unwrap()
                ==> Key::shares_parent(key@, #[trigger] keys[from + 1 + j]@, parent_level(level)),
        counts_for(
            keys[from + 1 + found_below(keys, from, key, key_level, level, at).unwrap()]@.len() as int,
            key_level,
            level,
        ),
    decreases keys.len() - from - at,
{
    let other = keys[from + 1 + at];
    if !counts_for(other@.len() as int, key_level, level) {
        law_look_below_is_local(keys, from, key, key_level, level, at + 1);
    }
}

/// A vector that stands between two vectors which agree on their first
/// `count` components agrees with them on these.
proof fn lemma_between_shares(x: Seq<Id>, y: Seq<Id>, z: Seq<Id>, count: int)
    requires
        lex_lt(x, y) || x == y,
        lex_lt(y, z) || y == z,
        Key::shares_parent(x, z, count),
    ensures
        Key::shares_parent(x, y, count),
    decreases count,
{
    if count > 0 {
        assert(x.subrange(0, count)[0] == z.subrange(0, count)[0]);
        if x == y {
        } else if y == z {
        } else {
            let shorter = count - 1;
            assert(y.len() > 0);
            assert(y[0] == x[0]);
            if shorter > 0 {
                assert(x.drop_first().subrange(0, shorter) =~= x.subrange(0, count).drop_first());
                assert(z.drop_first().subrange(0, shorter) =~= z.subrange(0, count).drop_first());
            }
            lemma_between_shares(x.drop_first(), y.drop_first(), z.drop_first(), shorter);
            assert forall|t: int| 0 <= t < count implies y[t] == x[t] by {
                if t > 0 {
                    assert(y.drop_first().subrange(0, shorter)[t - 1] == x.drop_first().subrange(
                        0,
                        shorter,
                    )[t - 1]);
                }
            }
            assert(y.subrange(0, count) =~= x.subrange(0, count));
        }
    }
}

/// Among keys that ascend, the entries that share their first `count`
/// components with a key stand together: an entry between two of them is
/// one of them.
pub proof fn law_sharing_entries_stand_together(
    keys: Seq<Key>,
    key: Key,
    count: int,
    first: int,
    between: int,
    last: int,
)
    requires
        forall|i: int| 0 <= i < keys.len() ==> (#[trigger] keys[i]).wf(),
        forall|i: int, j: int|
            0 <= i < j < keys.len() ==> (#[trigger] keys[i]).before(#[trigger] keys[j]),
        0 <= first <= between <= last < keys.len(),
        Key::shares_parent(key@, keys[first]@, count),
        Key::shares_parent(key@, keys[last]@, count),
    ensures
        Key::shares_parent(key@, keys[between]@, count),
{
    if count > 0 {
        Key::law_order_is_lexicographic(keys[first], keys[between]);
        Key::law_order_is_lexicographic(keys[between], keys[last]);
        lemma_between_shares(keys[first]@, keys[between]@, keys[last]@, count);
    }
}

/// True if `a` around `i` and `b` around `j` hold the same key at the same
/// distance, from `above` entries before the index to `below` entries after
/// it, and the entry just before and the one just after this stretch, where
/// there is one, does not share its first `shared` components with the key
/// at the index.
pub open spec fn same_stretch(
    a: Seq<Key>,
    i: int,
    b: Seq<Key>,
    j: int,
    shared: int,
    above: int,
    below: int,
) -> bool {
    &&& 0 <= above <= i && above <= j
    &&& 0 <= below && i + below < a.len() && j + below < b.len()
    &&& forall|d: int| -above <= d <= below ==> a[i + d] == #[trigger] b[j + d]
    &&& i - above == 0 || !Key::shares_parent(a[i]@, a[i - above - 1]@, shared)
    &&& j - above == 0 || !Key::shares_parent(a[i]@, b[j - above - 1]@, shared)
    &&& i + below + 1 == a.len() || !Key::shares_parent(a[i]@, a[i + below + 1]@, shared)
    &&& j + below + 1 == b.len() || !Key::shares_parent(a[i]@, b[j + below + 1]@, shared)
}

/// Keys that agree on their first components agree on fewer of them.
proof fn lemma_shares_fewer(x: Seq<Id>, y: Seq<Id>, more: int, fewer: int)
    requires
        Key::shares_parent(x, y, more),
        fewer <= more,
    ensures
        Key::shares_parent(x, y, fewer),
{
    if fewer > 0 {
        assert(x.subrange(0, fewer) =~= x.subrange(0, more).subrange(0, fewer));
        assert(y.subrange(0, fewer) =~= y.subrange(0, more).subrange(0, fewer));
    }
}

/// A look upward finds the same in both sequences as long as it starts
/// within the stretch that they have in common.
proof fn lemma_same_above(
    a: Seq<Key>,
    i: int,
    b: Seq<Key>,
    j: int,
    shared: int,
    above: int,
    below: int,
    from: int,
    level: int,
    at: int,
)
    requires
        same_stretch(a, i, b, j, shared, above, below),
        shared <= parent_level(level),
        0 <= at,
        from <= i,
        i - above - 1 <= from - 1 - at,
    ensures
        found_above(a, from, a[i], a[i]@.len() as int, level, at) == found_above(
            b,
            from - i + j,
            a[i],
            a[i]@.len() as int,
            level,
            at,
        ),
        found_above(a, from, a[i], a[i]@.len() as int, level, at) matches Some(offset) ==> at
            <= offset && i - above <= from - 1 - offset,
    decreases from - at,
{
    let place = from - 1 - at;
    if place == i - above - 1 {
        if place >= 0 {
            if Key::shares_parent(a[i]@, a[place]@, parent_level(level)) {
                lemma_shares_fewer(a[i]@, a[place]@, parent_level(level), shared);
            }
        }
        let other = place - i + j;
        if other >= 0 {
            if Key::shares_parent(a[i]@, b[other]@, parent_level(level)) {
                lemma_shares_fewer(a[i]@, b[other]@, parent_level(level), shared);
            }
        }
    } else {
        assert(a[i + (place - i)] == b[j + (place - i)]);
        let other = a[place];
        if Key::shares_parent(a[i]@, other@, parent_level(level)) && !counts_for(
            other@.len() as int,
            a[i]@.len() as int,
            level,
        ) {
            lemma_same_above(a, i, b, j, shared, above, below, from, level, at + 1);
        }
    }
}

/// A look downward finds the same in both sequences as long as it starts
/// within the stretch that they have in common.
proof fn lemma_same_below(
    a: Seq<Key>,
    i: int,
    b: Seq<Key>,
    j: int,
    shared: int,
    above: int,
    below: int,
    from: int,
    level: int,
    at: int,
)
    requires
        same_stretch(a, i, b, j, shared, above, below),
        shared <= parent_level(level),
        0 <= at,
        i <= from,
        from + 1 + at <= i + below + 1,
    ensures
        found_below(a, from, a[i], a[i]@.len() as int, level, at) == found_below(
            b,
            from - i + j,
            a[i],
            a[i]@.len() as int,
            level,
            at,
        ),
        found_below(a, from, a[i], a[i]@.len() as int, level, at) matches Some(offset) ==> at
            <= offset && from + 1 + offset <= i + below,
    decreases i + below + 1 - from - at,
{
    let place = from + 1 + at;
    if place == i + below + 1 {
        if place < a.len() {
            if Key::shares_parent(a[i]@, a[place]@, parent_level(level)) {
                lemma_shares_fewer(a[i]@, a[place]@, parent_level(level), shared);
            }
        }
        let other = place - i + j;
        if other < b.len() {
            if Key::shares_parent(a[i]@, b[other]@, parent_level(level)) {
                lemma_shares_fewer(a[i]@, b[other]@, parent_level(level), shared);
            }
        }
    } else {
        assert(a[i + (place - i)] == b[j + (place - i)]);
        let other = a[place];
        if Key::shares_parent(a[i]@, other@, parent_level(level)) && !counts_for(
            other@.len() as int,
            a[i]@.len() as int,
            level,
        ) {
            lemma_same_below(a, i, b, j, shared, above, below, from, level, at + 1);
        }
    }
}

/// What is marked above at the levels from `level` up leaves the deeper
/// level `of` as it was.
proof fn lemma_marked_above_keeps(
    keys: Seq<Key>,
    index: int,
    level: int,
    cursor: int,
    so_far: Adjacency,
    of: int,
)
    requires
        level < of,
    ensures
        marked_above(keys, index, level, cursor, so_far).at(of) == so_far.at(of),
    decreases level,
{
    if level >= 2 {
        match found_above(keys, cursor, keys[index], keys[index]@.len() as int, level, 0) {
            Some(offset) => lemma_marked_above_keeps(
                keys,
                index,
                level - 1,
                index - offset,
                so_far.with(level, merged(so_far.at(level), SiblingLocation::Above)),
                of,
            ),
            None => lemma_marked_above_keeps(keys, index, level - 1, cursor, so_far, of),
        }
    }
}

/// What is marked below at the levels from `level` up leaves the deeper
/// level `of` as it was.
proof fn lemma_marked_below_keeps(
    keys: Seq<Key>,
    index: int,
    level: int,
    cursor: int,
    so_far: Adjacency,
    of: int,
)
    requires
        level < of,
    ensures
        marked_below(keys, index, level, cursor, so_far).at(of) == so_far.at(of),
    decreases level,
{
    if level >= 1 {
        match found_below(keys, cursor, keys[index], keys[index]@.len() as int, level, 0) {
            Some(offset) => lemma_marked_below_keeps(
                keys,
                index,
                level - 1,
                index + offset,
                so_far.with(level, merged(so_far.at(level), SiblingLocation::Below)),
                of,
            ),
            None => lemma_marked_below_keeps(keys, index, level - 1, cursor, so_far, of),
        }
    }
}

/// What is marked above at the level `of` is the same in both sequences,
/// if the looks start within the stretch that they have in common.
proof fn lemma_marked_above_same(
    a: Seq<Key>,
    i: int,
    b: Seq<Key>,
    j: int,
    above: int,
    below: int,
    level: int,
    cursor: int,
    so_far: Adjacency,
    other: Adjacency,
    of: int,
)
    requires
        1 <= of,
        same_stretch(a, i, b, j, parent_level(of), above, below),
        i - above <= cursor <= i,
        so_far.at(of) == other.at(of),
    ensures
        marked_above(a, i, level, cursor, so_far).at(of) == marked_above(
            b,
            j,
            level,
            cursor - i + j,
            other,
        ).at(of),
    decreases level,
{
    assert(a[i + 0] == b[j + 0]);
    if level < of {
        lemma_marked_above_keeps(a, i, level, cursor, so_far, of);
        lemma_marked_above_keeps(b, j, level, cursor - i + j, other, of);
    } else if level >= 2 {
        lemma_same_above(a, i, b, j, parent_level(of), above, below, cursor, level, 0);
        match found_above(a, cursor, a[i], a[i]@.len() as int, level, 0) {
            Some(offset) => lemma_marked_above_same(
                a,
                i,
                b,
                j,
                above,
                below,
                level - 1,
                i - offset,
                so_far.with(level, merged(so_far.at(level), SiblingLocation::Above)),
                other.with(level, merged(other.at(level), SiblingLocation::Above)),
                of,
            ),
            None => lemma_marked_above_same(
                a,
                i,
                b,
                j,
                above,
                below,
                level - 1,
                cursor,
                so_far,
                other,
                of,
            ),
        }
    }
}

/// What is marked below at the level `of` is the same in both sequences,
/// if the looks start within the stretch that they have in common.
proof fn lemma_marked_below_same(
    a: Seq<Key>,
    i: int,
    b: Seq<Key>,
    j: int,
    above: int,
    below: int,
    level: int,
    cursor: int,
    so_far: Adjacency,
    other: Adjacency,
    of: int,
)
    requires
        1 <= of,
        same_stretch(a, i, b, j, parent_level(of), above, below),
        i <= cursor <= i + below,
        so_far.at(of) == other.at(of),
    ensures
        marked_below(a, i, level, cursor, so_far).at(of) == marked_below(
            b,
            j,
            level,
            cursor - i + j,
            other,
        ).at(of),
    decreases level,
{
    assert(a[i + 0] == b[j + 0]);
    if level < of {
        lemma_marked_below_keeps(a, i, level, cursor, so_far, of);
        lemma_marked_below_keeps(b, j, level, cursor - i + j, other, of);
    } else if level >= 1 {
        lemma_same_below(a, i, b, j, parent_level(of), above, below, cursor, level, 0);
        match found_below(a, cursor, a[i], a[i]@.len() as int, level, 0) {
            Some(offset) => lemma_marked_below_same(
                a,
                i,
                b,
                j,
                above,
                below,
                level - 1,
                i + offset,
                so_far.with(level, merged(so_far.at(level), SiblingLocation::Below)),
                other.with(level, merged(other.at(level), SiblingLocation::Below)),
                of,
            ),
            None => lemma_marked_below_same(
                a,
                i,
                b,
                j,
                above,
                below,
                level - 1,
                cursor,
                so_far,
                other,
                of,
            ),
        }
    }
}

/// Adjacencies that agree at the level `of` agree there once they are
/// reduced.
proof fn lemma_reduced_same(x: Adjacency, y: Adjacency, level: int, key_level: int, of: int)
    requires
        x.at(of) == y.at(of),
    ensures
        reduced(x, level, key_level).at(of) == reduced(y, level, key_level).at(of),
    decreases key_level - level,
{
    if level < key_level {
        lemma_reduced_same(
            x.with(level, kept_between(x.at(level))),
            y.with(level, kept_between(y.at(level))),
            level + 1,
            key_level,
            of,
        );
    }
}

/// A level of the adjacency of a key is decided by the entries around it
/// that share the parent of that level with it and by nothing else: where
/// two sequences hold the same keys around the key, as far as entries share
/// that parent, the adjacency of the key is the same at that level, whatever
/// the sequences hold elsewhere.
pub proof fn law_adjacency_is_local(
    a: Seq<Key>,
    i: int,
    b: Seq<Key>,
    j: int,
    level: int,
    above: int,
    below: int,
)
    requires
        0 <= i < a.len(),
        0 <= j < b.len(),
        1 <= level <= a[i]@.len(),
        same_stretch(a, i, b, j, parent_level(level), above, below),
    ensures
        adjacency_of(a, i).at(level) == adjacency_of(b, j).at(level),
{
    assert(a[i + 0] == b[j + 0]);
    let none = Adjacency(
        SiblingLocation::NotFound,
        SiblingLocation::NotFound,
        SiblingLocation::NotFound,
        SiblingLocation::NotFound,
        SiblingLocation::NotFound,
        SiblingLocation::NotFound,
    );
    let key_level = a[i]@.len() as int;
    lemma_marked_above_same(a, i, b, j, above, below, key_level, i, none, none, level);
    let up_a = marked_above(a, i, key_level, i, none);
    let up_b = marked_above(b, j, key_level, j, none);
    lemma_marked_below_same(a, i, b, j, above, below, key_level, i, up_a, up_b, level);
    lemma_reduced_same(
        marked_below(a, i, key_level, i, up_a),
        marked_below(b, j, key_level, j, up_b),
        1,
        key_level,
        level,
    );
}

/// True if a neighbour at `other_level` counts for `current_level` of a key
/// at `key_level`.
fn is_counted(other_level: Level, key_level: Level, current_level: Level) -> (r: bool)
    requires
        other_level <= MAX_DEPTH,
    ensures
        r == counts_for(other_level as int, key_level as int, current_level as int),
{
    if current_level == key_level {
        other_level == key_level || other_level + 1 == key_level
    } else {
        other_level == current_level
    }
}

/// Looks upward from the entry before `from` for the first entry that counts
/// for `level`.
fn search_above<T>(
    sorted: &[(Key, T)],
    from: usize,
    key: &Key,
    key_level: Level,
    level: Level,
) -> (r: Option<usize>)
    requires
        from <= sorted.len(),
    ensures
        found_above(keys_of(sorted@), from as int, *key, key_level as int, level as int, 0) == (
        match r {
            Some(offset) => Some(offset as int),
            None => None,
        }),
        r is Some ==> r.unwrap() < from,
{
    let ghost keys = keys_of(sorted@);
    let mut at: usize = 0;
    while at < from
        invariant
            at <= from <= sorted.len(),
            keys == keys_of(sorted@),
            found_above(keys, from as int, *key, key_level as int, level as int, at as int)
                == found_above(keys, from as int, *key, key_level as int, level as int, 0),
        decreases from - at,
    {
        let other = &sorted[from - 1 - at].0;
        assert(keys[from - 1 - at] == *other);
        if !key.shares_parent_with(other, level.saturating_sub(1)) {
            return None;
        }
        if is_counted(other.level(), key_level, level) {
            return Some(at);
        }
        at = at + 1;
    }
    None
}

/// Looks downward from the entry after `from` for the first entry that
/// counts for `level`.
fn search_below<T>(
    sorted: &[(Key, T)],
    from: usize,
    key: &Key,
    key_level: Level,
    level: Level,
) -> (r: Option<usize>)
    requires
        from < sorted.len(),
    ensures
        found_below(keys_of(sorted@), from as int, *key, key_level as int, level as int, 0) == (
        match r {
            Some(offset) => Some(offset as int),
            None => None,
        }),
        r is Some ==> from + 1 + r.unwrap() < sorted.len(),
{
    let ghost keys = keys_of(sorted@);
    let rest = sorted.len() - from - 1;
    let mut at: usize = 0;
    while at < rest
        invariant
            at <= rest == sorted.len() - from - 1,
            keys == keys_of(sorted@),
            found_below(keys, from as int, *key, key_level as int, level as int, at as int)
                == found_below(keys, from as int, *key, key_level as int, level as int, 0),
        decreases rest - at,
    {
        let other = &sorted[from + 1 + at].0;
        assert(keys[from + 1 + at] == *other);
        if !key.shares_parent_with(other, level.saturating_sub(1)) {
            return None;
        }
        if is_counted(other.level(), key_level, level) {
            return Some(at);
        }
        at = at + 1;
    }
    None
}

impl Key {
    /// The adjacency of the key in `sorted` at the given `index`: for each of
    /// its levels, whether a sibling or the parent stands above it, below it
    /// or both.
    ///
    /// The result is meant for drawing a tree and is only as good as the
    /// order of `sorted`.
    pub fn adjacency<T>(sorted: &[(Key, T)], index: usize) -> (r: Adjacency)
        requires
            index < sorted.len(),
        ensures
            r == adjacency_of(keys_of(sorted@), index as int),
    {
        let ghost keys = keys_of(sorted@);
        let key = sorted[index].0;
        assert(keys[index as int] == key);
        let key_level = key.level();
        let mut adjacency = Adjacency::default();
        if key_level == 0 {
            return adjacency;
        }
        let ghost none = adjacency;
        let mut cursor = index;
        let mut level = key_level;
        while level >= 1
            invariant
                level <= key_level <= MAX_DEPTH,
                key_level == key@.len(),
                cursor <= index < sorted.len(),
                keys == keys_of(sorted@),
                keys[index as int] == key,
                marked_above(keys, index as int, level as int, cursor as int, adjacency)
                    == marked_above(keys, index as int, key_level as int, index as int, none),
            decreases level,
        {
            let ghost before = adjacency;
            let ghost from = cursor;
            if level == 1 {
                adjacency.merge_at(level, SiblingLocation::Above);
            } else {
                match search_above(sorted, cursor, &key, key_level, level) {
                    Some(key_offset) => {
                        cursor = index - key_offset;
                        adjacency.merge_at(level, SiblingLocation::Above);
                    },
                    None => {},
                }
            }
            assert(marked_above(keys, index as int, level as int, from as int, before)
                == marked_above(keys, index as int, level - 1, cursor as int, adjacency));
            level = level - 1;
        }
        let ghost above = adjacency;
        cursor = index;
        level = key_level;
        while level >= 1
            invariant
                level <= key_level <= MAX_DEPTH,
                key_level == key@.len(),
                index <= cursor < sorted.len(),
                keys == keys_of(sorted@),
                keys[index as int] == key,
                marked_below(keys, index as int, level as int, cursor as int, adjacency)
                    == marked_below(keys, index as int, key_level as int, index as int, above),
            decreases level,
        {
            let ghost before = adjacency;
            let ghost from = cursor;
            match search_below(sorted, cursor, &key, key_level, level) {
                Some(key_offset) => {
                    cursor = index + key_offset;
                    adjacency.merge_at(level, SiblingLocation::Below);
                },
                None => {},
            }
            assert(marked_below(keys, index as int, level as int, from as int, before)
                == marked_below(keys, index as int, level - 1, cursor as int, adjacency));
            level = level - 1;
        }
        let ghost below = adjacency;
        level = 1;
        while level < key_level
            invariant
                1 <= level <= key_level <= MAX_DEPTH,
                reduced(adjacency, level as int, key_level as int) == reduced(
                    below,
                    1,
                    key_level as int,
                ),
            decreases key_level - level,
        {
            let kept = match adjacency.get(level) {
                Some(SiblingLocation::AboveAndBelow) => SiblingLocation::AboveAndBelow,
                _ => SiblingLocation::NotFound,
            };
            match adjacency.get_mut(level) {
                Some(slot) => {
                    *slot = kept;
                },
                None => {},
            }
            level = level + 1;
        }
        adjacency
    }
}

/// The slot that the number `rank` stands for.
spec fn slot_with(rank: u32) -> Option<Id> {
    if rank == 0 {
        None
    } else {
        Some((rank - 1) as u16)
    }
}

fn slot_of(rank: u32) -> (r: Option<Id>)
    requires
        rank <= 0x1_0000,
    ensures
        r == slot_with(rank),
        slot_rank(r) == rank,
{
    if rank == 0 {
        None
    } else {
        Some((rank - 1) as u16)
    }
}

fn rank(slot: Option<Id>) -> (r: u32)
    ensures
        r == slot_rank(slot),
{
    match slot {
        None => 0,
        Some(id) => id as u32 + 1,
    }
}

} // verus!
