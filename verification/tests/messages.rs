use prodash::messages::{Message, MessageCopyState, MessageLevel, MessageRingBuffer};

fn push(buf: &mut MessageRingBuffer, msg: &str) {
    buf.push_overwrite(MessageLevel::Info, "test".into(), msg.into());
}

fn push_and_copy_all(buf: &mut MessageRingBuffer, msg: &str, out: &mut Vec<Message>) {
    push(buf, msg);
    buf.copy_all(out);
}

fn assert_messages(actual: &Vec<Message>, expected: &[&'static str]) {
    let actual: Vec<_> = actual.iter().map(|m| m.message.as_str()).collect();
    assert_eq!(expected, actual.as_slice(), "messages are ordered old to new");
}

#[test]
fn copy_all() {
    let mut buf = MessageRingBuffer::with_capacity(2);
    let mut out = Vec::new();
    push_and_copy_all(&mut buf, "one", &mut out);
    assert_eq!(&out, buf.buf());

    push_and_copy_all(&mut buf, "two", &mut out);
    assert_eq!(&out, buf.buf());

    push_and_copy_all(&mut buf, "three", &mut out);
    assert_messages(&out, &["two", "three"]);

    push_and_copy_all(&mut buf, "four", &mut out);
    assert_messages(&out, &["three", "four"]);

    push_and_copy_all(&mut buf, "five", &mut out);
    buf.copy_all(&mut out);
    assert_messages(&out, &["four", "five"]);
}

#[test]
fn without_state() {
    fn push_and_copy_new(buf: &mut MessageRingBuffer, msg: &str, out: &mut Vec<Message>) {
        push(buf, msg);
        buf.copy_new(out, None);
    }

    let mut buf = MessageRingBuffer::with_capacity(2);
    let mut out = Vec::new();
    push_and_copy_new(&mut buf, "one", &mut out);
    assert_eq!(&out, buf.buf());

    push_and_copy_new(&mut buf, "two", &mut out);
    assert_eq!(&out, buf.buf());

    push_and_copy_new(&mut buf, "three", &mut out);
    assert_messages(&out, &["two", "three"]);
}

#[test]
fn with_continous_state() {
    fn push_and_copy_new(
        buf: &mut MessageRingBuffer,
        msg: &str,
        out: &mut Vec<Message>,
        state: Option<MessageCopyState>,
    ) -> Option<MessageCopyState> {
        push(buf, msg);
        Some(buf.copy_new(out, state))
    }
    let mut buf = MessageRingBuffer::with_capacity(2);
    let mut out = Vec::new();
    let mut state = push_and_copy_new(&mut buf, "one", &mut out, None);
    assert_eq!(&out, buf.buf());

    state = push_and_copy_new(&mut buf, "two", &mut out, state);
    assert_messages(&out, &["two"]);

    state = push_and_copy_new(&mut buf, "three", &mut out, state);
    assert_messages(&out, &["three"]);

    state = push_and_copy_new(&mut buf, "four", &mut out, state);
    assert_messages(&out, &["four"]);

    state = push_and_copy_new(&mut buf, "five", &mut out, state);
    assert_messages(&out, &["five"]);

    let _ = state;
    state = push_and_copy_new(&mut buf, "six", &mut out, None);
    assert_messages(&out, &["five", "six"]);

    let _ = Some(buf.copy_new(&mut out, state));
    assert_messages(&out, &[]);
}

#[test]
fn ring_overflow_is_read_as_a_whole() {
    let mut buf = MessageRingBuffer::with_capacity(2);
    let mut out = Vec::new();
    push(&mut buf, "one");
    push(&mut buf, "two");
    let state = buf.copy_new(&mut out, None);
    assert_messages(&out, &["one", "two"]);
    push(&mut buf, "three");
    push(&mut buf, "four");
    buf.copy_all(&mut out);
    assert_messages(&out, &["three", "four"]);
    buf.copy_new(&mut out, Some(state));
    assert_messages(&out, &["three", "four"]);
}

#[test]
fn ring_keeps_the_newest_in_order() {
    for capacity in 1..5usize {
        for n in 0..12usize {
            let mut buf = MessageRingBuffer::with_capacity(capacity);
            let mut out = Vec::new();
            for i in 0..n {
                push(&mut buf, &format!("{}", i));
            }
            buf.copy_all(&mut out);
            assert_eq!(buf.len(), n.min(capacity));
            assert_eq!(buf.capacity(), capacity);
            let expected: Vec<String> = (n - n.min(capacity)..n).map(|i| format!("{}", i)).collect();
            let actual: Vec<String> = out.iter().map(|m| m.message.clone()).collect();
            assert_eq!(actual, expected);
            assert!(out.iter().all(|m| m.origin == "test" && m.level == MessageLevel::Info));
        }
    }
}

#[test]
fn chained_reads_add_up_while_nothing_is_overwritten() {
    let mut buf = MessageRingBuffer::with_capacity(5);
    let mut out = Vec::new();
    let mut seen: Vec<String> = Vec::new();
    push(&mut buf, "a");
    let mut state = buf.copy_new(&mut out, None);
    seen.extend(out.iter().map(|m| m.message.clone()));
    for batch in [vec!["b", "c"], vec![], vec!["d"], vec!["e"]] {
        for m in batch {
            push(&mut buf, m);
        }
        state = buf.copy_new(&mut out, Some(state));
        seen.extend(out.iter().map(|m| m.message.clone()));
    }
    buf.copy_all(&mut out);
    let all: Vec<String> = out.iter().map(|m| m.message.clone()).collect();
    assert_eq!(seen, all);
    assert_eq!(all, vec!["a", "b", "c", "d", "e"]);
}

#[test]
fn duplicate_copies_every_field() {
    let mut buf = MessageRingBuffer::with_capacity(1);
    buf.push_overwrite(MessageLevel::Failure, "origin".into(), "body".into());
    let first = &buf.buf()[0];
    let copy = first.duplicate();
    assert_eq!(&copy, first);
    assert_eq!(copy.level, MessageLevel::Failure);
    assert!(!buf.has_capacity());
    let mut out = Vec::new();
    buf.copy_into(&mut out);
    assert_eq!(out.len(), 1);
}

#[test]
fn a_ring_without_slots_keeps_nothing() {
    let mut buf = MessageRingBuffer::with_capacity(0);
    let mut out = Vec::new();
    push(&mut buf, "one");
    push(&mut buf, "two");
    assert_eq!(buf.len(), 0);
    assert!(!buf.has_capacity());
    buf.copy_all(&mut out);
    assert_messages(&out, &[]);
    let state = buf.copy_new(&mut out, None);
    assert_messages(&out, &[]);
    push(&mut buf, "three");
    buf.copy_new(&mut out, Some(state));
    assert_messages(&out, &[]);
}
