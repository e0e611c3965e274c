use epoxy::locked_sink::{LockStatus, LockedSink, SinkState, Waiter};
use epoxy::text::{
    chars_of, is_whitespace, parse_u16, parse_u32, push_decimal, split_first,
    str_eq_ignore_ascii_case, string_from_utf8, string_of_chars, trim, trim_http_spaces,
};
use epoxy::unfair_select::{unfair_select, PollNext, SelectStep, SidePoll};
use epoxy::ws::IteratorState;

#[test]
fn decimal_numbers() {
    assert_eq!(parse_u16("65535"), Some(65535));
    assert_eq!(parse_u16("65536"), None);
    assert_eq!(parse_u16("+7"), Some(7));
    assert_eq!(parse_u16("+"), None);
    assert_eq!(parse_u16("-1"), None);
    assert_eq!(parse_u16(""), None);
    assert_eq!(parse_u16("007"), Some(7));
    assert_eq!(parse_u32("4294967295"), Some(u32::MAX));
    assert_eq!(parse_u32("4294967296"), None);
    assert_eq!(parse_u32("12a"), None);
    let mut s = String::from("n=");
    push_decimal(&mut s, 0);
    push_decimal(&mut s, 1234567890);
    assert_eq!(s, "n=01234567890");
    for n in [0u64, 9, 10, 65535, 4294967295] {
        let mut t = String::new();
        push_decimal(&mut t, n);
        assert_eq!(parse_u32(&t).map(u64::from), Some(n));
    }
}

#[test]
fn text_helpers() {
    assert_eq!(trim("\u{3000} a b \n"), "a b");
    assert_eq!(trim_http_spaces(" \t a \u{a0}\t"), "a \u{a0}");
    assert!(is_whitespace('\u{85}'));
    assert!(!is_whitespace('x'));
    assert_eq!(split_first("a,b,c", ','), "a");
    assert_eq!(split_first("abc", ','), "abc");
    assert!(str_eq_ignore_ascii_case("WebSocket", "websocket"));
    assert!(!str_eq_ignore_ascii_case("É", "é"));
    assert_eq!(chars_of("hé"), vec!['h', 'é']);
    assert_eq!(string_of_chars(&['o', 'k']), "ok");
    assert_eq!(string_from_utf8(vec![0xe2, 0x82, 0xac]), Some("€".to_string()));
    assert_eq!(string_from_utf8(vec![0xe2, 0x82]), None);
}

#[test]
fn waiter_wakes_once() {
    let mut w = Waiter::new(5);
    assert!(matches!(w.wake(), Some(5)));
    assert!(w.wake().is_none());
    w.register(6);
    assert!(matches!(w.wake(), Some(6)));
}

#[test]
fn lock_is_exclusive_and_wakes_queue() {
    let waker = futures::task::noop_waker();
    let mut state = SinkState::new();
    let mut a = LockedSink::new();
    let mut b = a.clone();
    assert!(a.poll_lock(&mut state, waker.clone()));
    assert!(a.poll_lock(&mut state, waker.clone()));
    // b is queued while a holds the lock
    assert!(!b.poll_lock(&mut state, waker.clone()));
    assert!(b.pos.is_some());
    assert!(!b.poll_lock(&mut state, waker.clone()));
    let woken = a.unlock(&mut state);
    assert_eq!(woken.len(), 1);
    assert!(b.poll_lock(&mut state, waker.clone()));
    assert!(b.pos.is_none());
    assert!(state.locked);
    let woken = b.release(&mut state);
    assert!(woken.is_empty());
    assert!(!state.locked);
}

#[test]
fn lock_status_and_silent_unlock() {
    let waker = futures::task::noop_waker();
    let mut state = SinkState::new();
    assert_eq!(state.lock(None, waker.clone()), LockStatus::Unlocked);
    let key = match state.lock(None, waker.clone()) {
        LockStatus::Joined(k) => k,
        other => panic!("expected to join, got {:?}", other),
    };
    assert_eq!(state.lock(Some(key), waker.clone()), LockStatus::Waiting);
    state.unlock_silent();
    assert!(!state.locked);
    // the queued task is still asleep; removing it with the sink free wakes the rest
    let other = state.add_waiter(waker.clone());
    state.update_waiter(other, waker.clone());
    assert_eq!(state.remove(key).len(), 1);
    assert_eq!(state.unlock().len(), 0);

    let mut h = LockedSink::new();
    assert!(h.poll_lock(&mut state, waker.clone()));
    h.unlock_and_wait(&mut state, waker.clone());
    assert!(!h.locked);
    assert!(h.pos.is_some());
    assert!(!state.locked);
    assert!(h.poll_lock(&mut state, waker.clone()));
    assert!(h.pos.is_none());
    h.get_handle();
    assert!(!h.locked);
}

#[test]
fn unfair_select_alternates() {
    let mut s = unfair_select(1u8, 2u8);
    assert!(matches!(s.start_poll::<u8>(), SelectStep::Poll(PollNext::Left)));
    assert!(matches!(s.start_poll::<u8>(), SelectStep::Poll(PollNext::Right)));
    assert!(matches!(s.after_first(PollNext::Left, SidePoll::<u8>::Pending), SelectStep::Poll(PollNext::Right)));
    assert!(matches!(s.after_first(PollNext::Left, SidePoll::Item(4u8)), SelectStep::Yield(4)));
    assert!(matches!(s.after_second(SidePoll::<u8>::Pending), SelectStep::Pending));
    assert!(!s.is_terminated());
    assert!(matches!(s.after_second(SidePoll::<u8>::Ended), SelectStep::End));
    assert!(s.is_terminated());
    assert!(matches!(s.start_poll::<u8>(), SelectStep::End));
    let (l, r) = s.get_ref();
    assert_eq!((*l, *r), (1, 2));
    let (l, _) = s.get_mut();
    *l = 9;
    assert_eq!(s.into_inner(), (9, 2));
    let mut p = PollNext::Left;
    assert_eq!(p.toggle(), PollNext::Left);
    assert_eq!(p, PollNext::Right);
    assert_eq!(p.other(), PollNext::Left);
}

#[test]
fn iterator_state_moves() {
    let mut st: IteratorState<u8, &str> = IteratorState::Value(3);
    assert!(st.get_future().is_none());
    assert_eq!(st.take_state(), Some(3));
    assert!(matches!(st, IteratorState::Empty));
    assert_eq!(st.take_state(), None);
    let mut fut: IteratorState<u8, u32> = IteratorState::Future(1);
    if let Some(f) = fut.get_future() {
        *f = 2;
    }
    assert!(matches!(fut, IteratorState::Future(2)));
}

struct CountingWaker {
    id: usize,
    log: std::sync::Arc<std::sync::Mutex<Vec<usize>>>,
}

impl std::task::Wake for CountingWaker {
    fn wake(self: std::sync::Arc<Self>) {
        self.log.lock().unwrap().push(self.id);
    }
}

#[test]
fn unlock_wakes_queued_tasks_in_key_order() {
    let log = std::sync::Arc::new(std::sync::Mutex::new(Vec::new()));
    let waker = |id: usize| {
        std::task::Waker::from(std::sync::Arc::new(CountingWaker { id, log: log.clone() }))
    };
    let mut state = SinkState::new();
    let mut holder = LockedSink::new();
    assert!(holder.poll_lock(&mut state, waker(0)));
    let mut queued: Vec<LockedSink> = (0..3).map(|_| holder.clone()).collect();
    for (i, q) in queued.iter_mut().enumerate() {
        assert!(!q.poll_lock(&mut state, waker(i + 1)));
    }
    // the second one leaves the queue: only the others are woken, in key order
    let gone = queued.remove(1);
    let mut gone = gone;
    assert!(gone.release(&mut state).is_empty());
    let woken = holder.unlock(&mut state);
    assert_eq!(woken.len(), 2);
    for w in woken {
        w.wake();
    }
    assert_eq!(*log.lock().unwrap(), vec![1, 3]);
    // nobody sleeps any more: a second unlock wakes nobody
    assert!(state.unlock().is_empty());
}

#[test]
fn queued_handle_is_woken_through_its_latest_waker() {
    let log = std::sync::Arc::new(std::sync::Mutex::new(Vec::new()));
    let waker = |id: usize| {
        std::task::Waker::from(std::sync::Arc::new(CountingWaker { id, log: log.clone() }))
    };
    let mut state = SinkState::new();
    let mut a = LockedSink::new();
    let mut b = a.clone();
    assert!(a.poll_lock(&mut state, waker(0)));
    assert!(!b.poll_lock(&mut state, waker(1)));
    // polled again: its waker is replaced, not added
    assert!(!b.poll_lock(&mut state, waker(2)));
    // a hands the lock back while waiting for the sink: queued with its waker, nobody woken
    a.unlock_and_wait(&mut state, waker(3));
    assert!(!state.locked);
    assert!(log.lock().unwrap().is_empty());
    assert!(b.poll_lock(&mut state, waker(4)));
    for w in b.unlock(&mut state) {
        w.wake();
    }
    assert_eq!(*log.lock().unwrap(), vec![3]);
}
