//! A bounded log of messages that overwrites the oldest entry when it is
//! full, and the bookkeeping that lets a reader fetch only what is new.
use crate::time::Time;
use vstd::prelude::*;

verus! {

/// The severity of a message.
#[derive(Debug, Copy, Clone, PartialEq, Eq, Structural, PartialOrd, Ord)]
pub enum MessageLevel {
    /// Rarely sent information related to the progress, not the progress itself.
    Info,
    /// A task has failed, along with the reason.
    Failure,
    /// A task was completed successfully.
    Success,
}

/// A message to be stored along with the progress tree.
#[derive(Debug, Clone, PartialEq, Eq)]
pub struct Message {
    /// The time at which the message was sent.
    pub time: Time,
    /// The severity of the message.
    pub level: MessageLevel,
    /// The name of the task that created the message.
    pub origin: String,
    /// The message itself.
    pub message: String,
}

/// A message as a mathematical value.
pub struct MessageView {
    pub time: Time,
    pub level: MessageLevel,
    pub origin: Seq<char>,
    pub message: Seq<char>,
}

impl View for Message {
    type V = MessageView;

    open spec fn view(&self) -> MessageView {
        MessageView {
            time: self.time,
            level: self.level,
            origin: self.origin@,
            message: self.message@,
        }
    }
}

impl Message {
    /// A message with the same content.
    pub fn duplicate(&self) -> (r: Message)
        ensures
            r@ == self@,
    {
        Message {
            time: self.time,
            level: self.level,
            origin: self.origin.clone(),
            message: self.message.clone(),
        }
    }
}

/// The messages of `s` as mathematical values, in the same order.
pub open spec fn views(s: Seq<Message>) -> Seq<MessageView> {
    Seq::new(s.len(), |i: int| s[i]@)
}

/// The counter of pushes after one more push; it starts over after the
/// largest number.
pub open spec fn next_total(total: usize) -> usize {
    if total == usize::MAX {
        0
    } else {
        (total + 1) as usize
    }
}

/// What a reader remembers of the ring between two reads.
pub struct CopyState {
    /// Where the next overwrite was going to happen.
    pub cursor: int,
    /// How many slots were in use.
    pub len: int,
    /// How many messages had been pushed.
    pub total: usize,
}

/// The ring as a mathematical value.
pub struct Ring {
    /// The slots in use; a slot is filled once and then overwritten in turn.
    pub slots: Seq<MessageView>,
    /// The slot that the next overwrite replaces, once all slots are in use.
    pub cursor: int,
    /// The number of pushes so far, which starts over after `usize::MAX`.
    pub total: usize,
    /// The number of slots.
    pub capacity: int,
}

impl Ring {
    /// No more slots are in use than there are, and the cursor points at a
    /// slot; it stays at the first one until all slots are in use.
    pub open spec fn wf(self) -> bool {
        &&& 0 <= self.slots.len() <= self.capacity
        &&& 0 <= self.cursor
        &&& self.slots.len() < self.capacity ==> self.cursor == 0
        &&& self.slots.len() > 0 ==> self.cursor < self.slots.len()
        &&& self.slots.len() == 0 ==> self.cursor == 0
    }

    /// The ring with `capacity` slots, none of them in use.
    pub open spec fn empty(capacity: int) -> Ring {
        Ring { slots: Seq::empty(), cursor: 0, total: 0, capacity }
    }

    /// The ring after `m` was pushed: into a free slot while there is one,
    /// else over the oldest message. A ring without slots keeps nothing and
    /// only counts the push.
    pub open spec fn push(self, m: MessageView) -> Ring {
        if self.slots.len() < self.capacity {
            Ring { slots: self.slots.push(m), total: next_total(self.total), ..self }
        } else if self.capacity <= 0 {
            Ring { total: next_total(self.total), ..self }
        } else {
            Ring {
                slots: self.slots.update(self.cursor, m),
                cursor: (self.cursor + 1) % (self.slots.len() as int),
                total: next_total(self.total),
                ..self
            }
        }
    }

    /// The ring after each message of `ms` was pushed in turn.
    pub open spec fn push_all(self, ms: Seq<MessageView>) -> Ring
        decreases ms.len(),
    {
        if ms.len() == 0 {
            self
        } else {
            self.push_all(ms.drop_last()).push(ms.last())
        }
    }

    /// The messages in the ring, the oldest first.
    pub open spec fn retained(self) -> Seq<MessageView> {
        self.slots.subrange(self.cursor, self.slots.len() as int) + self.slots.subrange(
            0,
            self.cursor,
        )
    }

    /// The message that was pushed last.
    pub open spec fn newest(self) -> MessageView {
        if self.cursor == 0 {
            self.slots.last()
        } else {
            self.slots[self.cursor - 1]
        }
    }

    /// True if `after` is this ring after one push of a message of `level`
    /// from `origin` that reads `message`, stamped with some time.
    pub open spec fn was_told(
        self,
        after: Ring,
        level: MessageLevel,
        origin: Seq<char>,
        message: Seq<char>,
    ) -> bool {
        exists|time: Time| after == #[trigger] self.push(MessageView { time, level, origin, message })
    }

    /// What a reader keeps after a read at this moment.
    pub open spec fn state(self) -> CopyState {
        CopyState { cursor: self.cursor, len: self.slots.len() as int, total: self.total }
    }

    /// True if so many messages were pushed since `prev` that every slot was
    /// written again. A counter that started over counts as no push.
    pub open spec fn overflowed_since(self, prev: CopyState) -> bool {
        (if self.total >= prev.total {
            self.total - prev.total
        } else {
            0
        }) >= self.capacity
    }

    /// What a read hands out to a reader whose last read left `prev`: all
    /// messages for a first read or after an overflow, else the slots that
    /// were filled or overwritten since.
    pub open spec fn news_since(self, prev: Option<CopyState>) -> Seq<MessageView> {
        let len = self.slots.len() as int;
        match prev {
            None => self.retained(),
            Some(p) => if self.overflowed_since(p) {
                self.retained()
            } else {
                let grown = if len >= p.len {
                    len - p.len
                } else {
                    0
                };
                if self.cursor == p.cursor {
                    self.slots.subrange(len - grown, len)
                } else if self.cursor > p.cursor {
                    self.slots.subrange(p.cursor % len, self.cursor)
                } else {
                    self.slots.subrange(p.cursor % len, len) + self.slots.subrange(
                        0,
                        self.cursor,
                    )
                }
            },
        }
    }

    /// What a reader has seen in all who reads one batch of pushes after the
    /// other, each time handing in the state of the read before.
    pub open spec fn chained_reads(self, prev: Option<CopyState>, batches: Seq<Seq<MessageView>>)
        -> Seq<MessageView>
        decreases batches.len(),
    {
        if batches.len() == 0 {
            Seq::empty()
        } else {
            let next = self.push_all(batches.first());
            next.news_since(prev) + next.chained_reads(Some(next.state()), batches.drop_first())
        }
    }

    /// The ring after all batches were pushed.
    pub open spec fn push_batches(self, batches: Seq<Seq<MessageView>>) -> Ring
        decreases batches.len(),
    {
        if batches.len() == 0 {
            self
        } else {
            self.push_all(batches.first()).push_batches(batches.drop_first())
        }
    }
}

/// The number of messages in all batches.
pub open spec fn count(batches: Seq<Seq<MessageView>>) -> nat
    decreases batches.len(),
{
    if batches.len() == 0 {
        0
    } else {
        batches.first().len() + count(batches.drop_first())
    }
}

/// The messages of all batches, in order.
pub open spec fn flattened(batches: Seq<Seq<MessageView>>) -> Seq<MessageView>
    decreases batches.len(),
{
    if batches.len() == 0 {
        Seq::empty()
    } else {
        batches.first() + flattened(batches.drop_first())
    }
}

impl Ring {
    /// A push keeps the ring well-formed, and it keeps the messages in the
    /// order of their emission: the new one comes last, and a full ring gives
    /// up its oldest one. A ring without slots stays empty.
    pub proof fn law_push_keeps_order(self, m: MessageView)
        requires
            self.wf(),
        ensures
            self.push(m).wf(),
            self.push(m).capacity == self.capacity,
            self.push(m).retained() == if self.slots.len() < self.capacity {
                self.retained().push(m)
            } else if self.capacity == 0 {
                Seq::empty()
            } else {
                self.retained().drop_first().push(m)
            },
            self.capacity > 0 ==> self.push(m).newest() == m,
    {
        let len = self.slots.len() as int;
        let next = self.push(m);
        if len < self.capacity {
            assert(next.retained() =~= self.retained().push(m));
        } else if self.capacity == 0 {
            assert(next.retained() =~= Seq::empty());
        } else {
            if self.cursor + 1 < len {
                vstd::arithmetic::div_mod::lemma_small_mod((self.cursor + 1) as nat, len as nat);
            } else {
                vstd::arithmetic::div_mod::lemma_mod_self_0(len);
            }
            assert(next.retained() =~= self.retained().drop_first().push(m));
        }
    }

    /// After any number of pushes into an empty ring of `capacity` slots, the
    /// ring holds the last `capacity` messages in the order of their
    /// emission, or all of them if there were fewer.
    pub proof fn law_ring_keeps_the_newest(capacity: int, ms: Seq<MessageView>)
        requires
            capacity >= 0,
        ensures
            Ring::empty(capacity).push_all(ms).wf(),
            Ring::empty(capacity).push_all(ms).capacity == capacity,
            Ring::empty(capacity).push_all(ms).slots.len() == if ms.len() <= capacity {
                ms.len() as int
            } else {
                capacity
            },
            Ring::empty(capacity).push_all(ms).retained() == if ms.len() <= capacity {
                ms
            } else {
                ms.subrange(ms.len() - capacity, ms.len() as int)
            },
        decreases ms.len(),
    {
        let start = Ring::empty(capacity);
        if ms.len() == 0 {
            assert(start.retained() =~= ms);
        } else {
            let front = ms.drop_last();
            Self::law_ring_keeps_the_newest(capacity, front);
            let before = start.push_all(front);
            before.law_push_keeps_order(ms.last());
            let after = before.push(ms.last());
            if ms.len() <= capacity {
                assert(after.retained() =~= ms);
            } else {
                assert(after.retained() =~= ms.subrange(ms.len() - capacity, ms.len() as int));
            }
        }
    }

    /// Pushes that find a free slot each add to the end of the slots and
    /// leave the cursor alone, and the counter of pushes moves by no more
    /// than their number.
    pub proof fn lemma_push_all_into_free_slots(self, ms: Seq<MessageView>)
        requires
            self.wf(),
            self.slots.len() + ms.len() <= self.capacity,
        ensures
            self.push_all(ms).wf(),
            self.push_all(ms).capacity == self.capacity,
            self.push_all(ms).cursor == self.cursor,
            self.push_all(ms).slots == self.slots + ms,
            self.push_all(ms).retained() == self.retained() + ms,
            self.push_all(ms).total >= self.total ==> self.push_all(ms).total - self.total
                <= ms.len(),
        decreases ms.len(),
    {
        if ms.len() == 0 {
            assert(self.slots + ms =~= self.slots);
            assert(self.retained() + ms =~= self.retained());
        } else {
            let front = ms.drop_last();
            self.lemma_push_all_into_free_slots(front);
            let before = self.push_all(front);
            let after = before.push(ms.last());
            assert(after.slots =~= self.slots + ms);
            assert(after.retained() =~= self.retained() + ms);
        }
    }

    /// A reader who hands in the state of the read before gets exactly the
    /// messages that were pushed since, as long as each of them found a free
    /// slot.
    pub proof fn law_read_yields_what_is_new(self, ms: Seq<MessageView>)
        requires
            self.wf(),
            self.slots.len() + ms.len() <= self.capacity,
        ensures
            self.push_all(ms).news_since(Some(self.state())) == ms,
    {
        self.lemma_push_all_into_free_slots(ms);
        let after = self.push_all(ms);
        if after.overflowed_since(self.state()) {
            assert(self.slots.len() == 0);
            assert(after.retained() =~= ms);
        } else {
            assert(after.slots.subrange(self.slots.len() as int, after.slots.len() as int) =~= ms);
        }
    }

    /// Reading batch after batch with the states chained yields every pushed
    /// message once and in order, and the ring then holds what it held
    /// before, followed by them, as long as each push found a free slot.
    pub proof fn lemma_chained_reads(self, batches: Seq<Seq<MessageView>>)
        requires
            self.wf(),
            self.slots.len() + count(batches) <= self.capacity,
        ensures
            self.chained_reads(Some(self.state()), batches) == flattened(batches),
            self.push_batches(batches).retained() == self.retained() + flattened(batches),
        decreases batches.len(),
    {
        if batches.len() == 0 {
            assert(self.retained() + flattened(batches) =~= self.retained());
        } else {
            let first = batches.first();
            let next = self.push_all(first);
            self.lemma_push_all_into_free_slots(first);
            self.law_read_yields_what_is_new(first);
            next.lemma_chained_reads(batches.drop_first());
            assert(self.retained() + flattened(batches) =~= (self.retained() + first) + flattened(
                batches.drop_first(),
            ));
        }
    }

    /// The outputs of a first read and of the reads that follow it with their
    /// states chained, put together, are what one read of all messages gives
    /// after the last of them, as long as every message that was pushed after
    /// the first read found a free slot.
    pub proof fn law_chained_reads_are_coherent(self, batches: Seq<Seq<MessageView>>)
        requires
            self.wf(),
            self.slots.len() + count(batches) <= self.capacity,
        ensures
            self.news_since(None) + self.chained_reads(Some(self.state()), batches)
                == self.push_batches(batches).retained(),
    {
        self.lemma_chained_reads(batches);
    }
}

/// A bounded buffer of messages: once full, each push overwrites the oldest.
#[derive(Debug, PartialEq, Eq)]
pub struct MessageRingBuffer {
    buf: Vec<Message>,
    cursor: usize,
    total: usize,
    capacity: usize,
}

/// State used to keep track of what is new since the last time messages were
/// copied.
///
/// A ring buffer promises no reader to see every message.
#[derive(Debug)]
pub struct MessageCopyState {
    cursor: usize,
    buf_len: usize,
    total: usize,
}

impl View for MessageCopyState {
    type V = CopyState;

    closed spec fn view(&self) -> CopyState {
        CopyState { cursor: self.cursor as int, len: self.buf_len as int, total: self.total }
    }
}

impl View for MessageRingBuffer {
    type V = Ring;

    closed spec fn view(&self) -> Ring {
        Ring {
            slots: views(self.buf@),
            cursor: self.cursor as int,
            total: self.total,
            capacity: self.capacity as int,
        }
    }
}

/// Appends copies of `src[from..to]` to `out`.
fn extend_with(out: &mut Vec<Message>, src: &Vec<Message>, from: usize, to: usize)
    requires
        from <= to <= src.len(),
    ensures
        views(final(out)@) == views(old(out)@) + views(src@).subrange(from as int, to as int),
{
    let mut i = from;
    while i < to
        invariant
            from <= i <= to <= src.len(),
            views(out@) == views(old(out)@) + views(src@).subrange(from as int, i as int),
        decreases to - i,
    {
        let ghost before = out@;
        out.push(src[i].duplicate());
        assert(views(out@) == views(before).push(src@[i as int]@));
        assert(views(src@).subrange(from as int, i + 1) == views(src@).subrange(
            from as int,
            i as int,
        ).push(src@[i as int]@));
        i = i + 1;
    }
}

impl MessageRingBuffer {
    #[verifier::type_invariant]
    closed spec fn inv(self) -> bool {
        self@.wf()
    }

    /// An empty ring that keeps up to `capacity` messages.
    pub fn with_capacity(capacity: usize) -> (r: MessageRingBuffer)
        ensures
            r@ == Ring::empty(capacity as int),
    {
        let r = MessageRingBuffer { buf: Vec::with_capacity(capacity), cursor: 0, total: 0, capacity };
        assert(r@.slots =~= Seq::empty());
        r
    }

    /// The number of messages that the ring keeps before it overwrites.
    pub fn capacity(&self) -> (r: usize)
        ensures
            r == self@.capacity,
    {
        self.capacity
    }

    /// The number of messages in the ring.
    pub fn len(&self) -> (r: usize)
        ensures
            r == self@.slots.len(),
    {
        self.buf.len()
    }

    /// The slots in use, in the order in which they were first filled.
    pub fn buf(&self) -> (r: &Vec<Message>)
        ensures
            views(r@) == self@.slots,
    {
        &self.buf
    }

    /// True while a push fills a free slot.
    pub fn has_capacity(&self) -> (r: bool)
        ensures
            r == (self@.slots.len() < self@.capacity),
    {
        self.buf.len() < self.capacity
    }

    /// Stores `msg` as the newest message. A full ring loses its oldest one,
    /// and a ring without slots keeps nothing.
    pub fn push(&mut self, msg: Message)
        ensures
            final(self)@ == old(self)@.push(msg@),
            old(self)@.capacity > 0 ==> final(self)@.newest() == msg@,
    {
        proof {
            use_type_invariant(&*self);
        }
        let mut taken = MessageRingBuffer::with_capacity(0);
        core::mem::swap(self, &mut taken);
        let MessageRingBuffer { mut buf, mut cursor, total, capacity } = taken;
        let ghost before = buf@;
        let ghost m = msg@;
        if buf.len() < capacity {
            buf.push(msg);
            assert(views(buf@) =~= views(before).push(m));
        } else if capacity > 0 {
            proof {
                if cursor + 1 < buf.len() {
                    vstd::arithmetic::div_mod::lemma_small_mod((cursor + 1) as nat, buf.len() as nat);
                } else {
                    vstd::arithmetic::div_mod::lemma_mod_self_0(buf.len() as int);
                }
            }
            buf.set(cursor, msg);
            assert(views(buf@) =~= views(before).update(cursor as int, m));
            cursor = (cursor + 1) % buf.len();
        }
        *self = MessageRingBuffer { buf, cursor, total: total.wrapping_add(1), capacity };
    }

    /// Stamps a message with the time of the call and stores it as the newest
    /// one. A full ring loses its oldest one, and a ring without slots keeps
    /// nothing.
    pub fn push_overwrite(&mut self, level: MessageLevel, origin: String, message: String)
        ensures
            old(self)@.was_told(final(self)@, level, origin@, message@),
    {
        let msg = Message { time: Time::now(), level, origin, message };
        let ghost stamped = msg@;
        self.push(msg);
        assert(self@ == old(self)@.push(
            MessageView { time: stamped.time, level, origin: origin@, message: message@ },
        ));
    }

    /// Replaces the content of `out` by all messages, the oldest first.
    pub fn copy_all(&self, out: &mut Vec<Message>)
        ensures
            views(final(out)@) == self@.retained(),
    {
        proof {
            use_type_invariant(self);
        }
        out.clear();
        assert(views(out@) =~= Seq::empty());
        if self.buf.is_empty() {
            assert(self@.retained() =~= Seq::empty());
            return ;
        }
        proof {
            vstd::arithmetic::div_mod::lemma_small_mod(self.cursor as nat, self.buf.len() as nat);
        }
        extend_with(out, &self.buf, self.cursor % self.buf.len(), self.buf.len());
        if self.cursor != self.buf.len() {
            extend_with(out, &self.buf, 0, self.cursor);
        }
        assert(views(out@) =~= self@.retained());
    }

    /// Replaces the content of `out` by all messages, the oldest first.
    pub fn copy_into(&self, out: &mut Vec<Message>)
        ensures
            views(final(out)@) == self@.retained(),
    {
        self.copy_all(out)
    }

    /// A ring with the same messages and the same counts.
    pub fn duplicate(&self) -> (r: MessageRingBuffer)
        ensures
            r@ == self@,
    {
        proof {
            use_type_invariant(self);
        }
        let mut buf: Vec<Message> = Vec::with_capacity(self.capacity);
        assert(views(buf@) =~= views(self.buf@).subrange(0, 0));
        extend_with(&mut buf, &self.buf, 0, self.buf.len());
        assert(views(buf@) =~= views(self.buf@));
        MessageRingBuffer { buf, cursor: self.cursor, total: self.total, capacity: self.capacity }
    }

    /// True if `prev` can be handed to `copy_new`: a state that was taken
    /// with the cursor off the first slot cannot go to a ring without
    /// messages.
    pub fn accepts(&self, prev: &Option<MessageCopyState>) -> (r: bool)
        ensures
            r == !(prev is Some && self@.slots.len() == 0 && prev.unwrap()@.cursor != 0),
    {
        match prev {
            Some(p) => !(self.buf.len() == 0 && p.cursor != 0),
            None => true,
        }
    }

    /// Replaces the content of `out` by the messages that were pushed since
    /// the read that returned `prev`, and returns the state for the next read.
    ///
    /// Without `prev`, or when every slot was overwritten since, these are all
    /// messages. A state that was taken with the cursor off the first slot
    /// cannot be handed to a ring without messages.
    pub fn copy_new(&self, out: &mut Vec<Message>, prev: Option<MessageCopyState>) -> (r:
        MessageCopyState)
        requires
            prev is Some && self@.slots.len() == 0 ==> prev.unwrap()@.cursor == 0,
        ensures
            views(final(out)@) == self@.news_since(
                match prev {
                    Some(p) => Some(p@),
                    None => None,
                },
            ),
            r@ == self@.state(),
    {
        proof {
            use_type_invariant(self);
        }
        match prev {
            Some(MessageCopyState { cursor, buf_len, total }) => {
                if self.total.saturating_sub(total) >= self.capacity {
                    self.copy_all(out);
                } else {
                    out.clear();
                    assert(views(out@) =~= Seq::empty());
                    let len = self.buf.len();
                    let new_elements_below_cap = len.saturating_sub(buf_len);
                    if self.cursor == cursor {
                        extend_with(out, &self.buf, len - new_elements_below_cap, len);
                    } else if self.cursor > cursor {
                        proof {
                            vstd::arithmetic::div_mod::lemma_mod_decreases(cursor as nat, len as nat);
                        }
                        extend_with(out, &self.buf, cursor % len, self.cursor);
                    } else {
                        extend_with(out, &self.buf, cursor % len, len);
                        extend_with(out, &self.buf, 0, self.cursor);
                    }
                }
            },
            None => self.copy_all(out),
        }
        MessageCopyState { cursor: self.cursor, buf_len: self.buf.len(), total: self.total }
    }
}

} // verus!
