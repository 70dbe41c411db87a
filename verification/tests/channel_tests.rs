use channel::err::{SendTimeoutError, TryRecvError, TrySendError};
use channel::list::{Channel, RecvPrepared};
use channel::monitor::{CaseId, Monitor};

#[test]
fn three_values_then_empty_then_disconnected() {
    let mut c: Channel<u64> = Channel::new();
    assert!(c.try_send(10).is_ok());
    assert!(c.try_send(20).is_ok());
    assert!(c.try_send(30).is_ok());
    assert_eq!(c.try_recv().unwrap(), 10);
    assert_eq!(c.try_recv().unwrap(), 20);
    assert_eq!(c.try_recv().unwrap(), 30);
    assert_eq!(c.try_recv().unwrap_err(), TryRecvError::Empty);
    assert!(c.close());
    assert_eq!(c.try_recv().unwrap_err(), TryRecvError::Disconnected);
}

#[test]
fn close_is_idempotent() {
    let mut c: Channel<u32> = Channel::new();
    c.push(1);
    c.push(2);
    let len_before = c.len();
    let first = c.close();
    let second = c.close();
    assert!(first);
    assert!(!second);
    // close removes no value: the length only ever changes through pops
    assert_eq!(c.len(), len_before);
    assert!(c.is_closed());
}

#[test]
fn length_tracks_sends_and_receives() {
    let mut c: Channel<u8> = Channel::new();
    assert_eq!(c.len(), 0);
    for v in 0..5u8 {
        c.push(v);
    }
    assert_eq!(c.len(), 5);
    assert_eq!(c.pop(), Some(0));
    assert_eq!(c.pop(), Some(1));
    assert_eq!(c.len(), 3);
    while c.pop().is_some() {}
    assert_eq!(c.len(), 0);
}

#[test]
fn fifo_single_producer() {
    let mut c: Channel<usize> = Channel::new();
    for v in 0..50usize {
        c.push(v);
    }
    for v in 0..50usize {
        assert_eq!(c.pop(), Some(v));
    }
    assert_eq!(c.pop(), None);
}

#[test]
fn interleaved_producers_keep_per_producer_order() {
    // two producers' appends arrive interleaved at the tail; each
    // producer's own values must come out in its own append order
    let mut c: Channel<i64> = Channel::new();
    let first = [1i64, 2, 3, 4];
    let second = [100i64, 200, 300, 400];
    for k in 0..4 {
        c.push(first[k]);
        c.push(second[k]);
    }
    let mut seen_first = Vec::new();
    let mut seen_second = Vec::new();
    while let Some(v) = c.pop() {
        if v < 100 {
            seen_first.push(v);
        } else {
            seen_second.push(v);
        }
    }
    assert_eq!(seen_first, first.to_vec());
    assert_eq!(seen_second, second.to_vec());
}

#[test]
fn no_loss_no_duplication_on_drain() {
    let mut c: Channel<u64> = Channel::new();
    let mut sent: Vec<u64> = Vec::new();
    for v in 0..20u64 {
        c.push(v);
        sent.push(v);
    }
    for v in 1000..1020u64 {
        c.push(v);
        sent.push(v);
    }
    c.close();
    let mut got: Vec<u64> = Vec::new();
    loop {
        match c.try_recv() {
            Ok(v) => got.push(v),
            Err(TryRecvError::Disconnected) => break,
            Err(TryRecvError::Empty) => panic!("open after close"),
        }
    }
    let mut sent_sorted = sent.clone();
    sent_sorted.sort();
    let mut got_sorted = got.clone();
    got_sorted.sort();
    assert_eq!(got_sorted, sent_sorted);
}

#[test]
fn contention_escalates_to_safe_path() {
    let mut c: Channel<u32> = Channel::new();
    c.push(7);
    c.push(8);
    assert_eq!(c.pop(), Some(7)); // fast path
    c.on_contention(); // a second receiver was observed: MULTI, permanently
    c.push(9);
    assert_eq!(c.pop(), Some(8)); // safe path, order unchanged
    assert_eq!(c.pop(), Some(9));
    assert_eq!(c.pop(), None);
    c.reclaim(); // deferred nodes may now be freed
    c.push(10);
    assert_eq!(c.pop(), Some(10));
}

#[test]
fn close_rejects_sends_but_lets_receivers_drain() {
    let mut c: Channel<String> = Channel::new();
    assert!(c.try_send(String::from("a")).is_ok());
    assert!(c.try_send(String::from("b")).is_ok());
    c.close();
    match c.try_send(String::from("rejected")) {
        Err(TrySendError::Disconnected(v)) => assert_eq!(v, "rejected"),
        Ok(()) => panic!("send on a closed channel"),
    }
    match c.send(String::from("late")) {
        Err(SendTimeoutError::Disconnected(v)) => assert_eq!(v, "late"),
        Ok(()) => panic!("send on a closed channel"),
    }
    assert_eq!(c.try_recv().unwrap(), "a");
    assert_eq!(c.try_recv().unwrap(), "b");
    assert_eq!(c.try_recv().unwrap_err(), TryRecvError::Disconnected);
}

#[test]
fn spin_try_recv_reports_like_try_recv() {
    let mut c: Channel<u16> = Channel::new();
    assert_eq!(c.spin_try_recv().unwrap_err(), TryRecvError::Empty);
    c.push(5);
    assert_eq!(c.spin_try_recv().unwrap(), 5);
    c.close();
    assert_eq!(c.spin_try_recv().unwrap_err(), TryRecvError::Disconnected);
}

#[test]
fn blocking_round_parks_then_times_out() {
    // a receiver on an empty open channel registers and parks; nothing
    // arrives before the deadline, so the round reports a timeout
    let mut c: Channel<u64> = Channel::new();
    let case = CaseId::new(1);
    match c.recv_prepare(case) {
        RecvPrepared::Park => {}
        _ => panic!("empty open channel must park"),
    }
    assert_eq!(c.receivers().count(), 1);
    let timed_out = c.recv_resume(case, false);
    assert!(timed_out);
    assert_eq!(c.receivers().count(), 0);
}

#[test]
fn blocking_round_wakes_on_send() {
    // a parked receiver is notified by an append; the wake is a hint, so
    // the receiver pops again and now finds the value
    let mut c: Channel<u64> = Channel::new();
    let case = CaseId::new(2);
    match c.recv_prepare(case) {
        RecvPrepared::Park => {}
        _ => panic!("empty open channel must park"),
    }
    assert!(c.try_send(42).is_ok()); // consumes the registration as its wake hint
    assert_eq!(c.receivers().count(), 0);
    let timed_out = c.recv_resume(case, true);
    assert!(!timed_out);
    match c.recv_prepare(case) {
        RecvPrepared::Value(v) => assert_eq!(v, 42),
        _ => panic!("the value appended before the wake must be delivered"),
    }
}

#[test]
fn blocking_round_sees_close() {
    let mut c: Channel<u64> = Channel::new();
    let case = CaseId::new(3);
    match c.recv_prepare(case) {
        RecvPrepared::Park => {}
        _ => panic!("empty open channel must park"),
    }
    assert!(c.close()); // aborts every registration
    assert_eq!(c.receivers().count(), 0);
    let timed_out = c.recv_resume(case, true);
    assert!(!timed_out);
    match c.recv_prepare(case) {
        RecvPrepared::Disconnected => {}
        _ => panic!("a closed, drained channel must disconnect"),
    }
}

#[test]
fn monitor_orders_registrations() {
    let mut m = Monitor::new();
    m.register(CaseId::new(10));
    m.register(CaseId::new(11));
    m.register(CaseId::new(12));
    assert_eq!(m.count(), 3);
    assert_eq!(m.notify_one(), Some(CaseId::new(10)));
    assert!(m.unregister(CaseId::new(11)));
    assert!(!m.unregister(CaseId::new(11)));
    assert_eq!(m.count(), 1);
    let aborted = m.abort_all();
    assert_eq!(aborted, vec![CaseId::new(12)]);
    assert_eq!(m.count(), 0);
    assert_eq!(m.notify_one(), None);
}

#[test]
fn values_survive_mode_transition_mid_queue() {
    let mut c: Channel<u64> = Channel::new();
    for v in 0..10u64 {
        c.push(v);
    }
    assert_eq!(c.pop(), Some(0));
    assert_eq!(c.pop(), Some(1));
    c.on_contention();
    for v in 2..10u64 {
        assert_eq!(c.pop(), Some(v));
    }
    assert_eq!(c.pop(), None);
    c.reclaim();
    assert_eq!(c.len(), 0);
}
