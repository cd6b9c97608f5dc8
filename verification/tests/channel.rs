use std::task::Waker;

use tachyonix::channel;
use tachyonix::Poll;
use tachyonix::Receiver;
use tachyonix::RecvError;
use tachyonix::SendError;
use tachyonix::Sender;
use tachyonix::TryRecvError;
use tachyonix::TrySendError;

// A send on a channel that is not full: one attempt, then the outcome.
fn send<T>(s: &Sender<T>, message: T) -> Result<(), SendError<T>> {
    let mut message = Some(message);
    assert_eq!(s.send_attempt(&mut message), Some(()));
    s.send_outcome(message)
}

// A receive on a channel that is not both open and empty.
fn recv<T>(r: &mut Receiver<T>) -> Result<T, RecvError> {
    match r.poll_recv(Waker::noop()) {
        Poll::Ready(result) => result,
        Poll::Pending => panic!("the receive would have to wait"),
    }
}

// Channel closed due to the receiver being dropped.
#[test]
fn send_after_close() {
    let (s, r) = channel(100);

    send(&s, 3).unwrap();
    send(&s, 7).unwrap();

    r.disconnect();

    assert_eq!(send(&s, 13), Err(SendError(13)));
    assert_eq!(s.try_send(42), Err(TrySendError::Closed(42)));
}

// Channel closed due to the senders being dropped.
#[test]
fn recv_after_close() {
    let (s1, mut r) = channel(100);
    let s2 = s1.clone();

    send(&s1, 3).unwrap();
    send(&s1, 7).unwrap();
    send(&s2, 13).unwrap();

    s1.disconnect();
    s2.disconnect();

    assert_eq!(recv(&mut r), Ok(3));
    assert_eq!(recv(&mut r), Ok(7));
    assert_eq!(recv(&mut r), Ok(13));
    assert_eq!(recv(&mut r), Err(RecvError));
    assert_eq!(r.try_recv(), Err(TryRecvError::Closed));
}

// Capacity 2: the third message does not fit until one is received.
#[test]
fn back_pressure_with_capacity_two() {
    let (s, mut r) = channel(2);

    assert_eq!(s.try_send(3), Ok(()));
    assert_eq!(s.try_send(7), Ok(()));
    assert_eq!(s.try_send(13), Err(TrySendError::Full(13)));

    let mut waiting = Some(13);
    assert_eq!(s.send_attempt(&mut waiting), None);
    assert_eq!(waiting, Some(13));

    assert_eq!(r.try_recv(), Ok(3));

    assert_eq!(s.send_attempt(&mut waiting), Some(()));
    assert_eq!(waiting, None);
    assert_eq!(s.send_outcome(waiting), Ok(()));

    assert_eq!(r.try_recv(), Ok(7));
    assert_eq!(r.try_recv(), Ok(13));
    assert_eq!(r.try_recv(), Err(TryRecvError::Empty));
}

// A sender closes: what was sent is received, then the channel is closed.
#[test]
fn close_from_sender_is_seen_after_the_messages() {
    let (s, mut r) = channel(3);

    assert_eq!(s.is_closed(), false);
    s.try_send(42).unwrap();
    s.close();
    assert_eq!(s.is_closed(), true);

    assert_eq!(recv(&mut r), Ok(42));
    assert_eq!(recv(&mut r), Err(RecvError));
}

// The receiver is given up while two sends wait on a full channel.
#[test]
fn close_from_receiver_rejects_waiting_sends() {
    let (s1, r) = channel(2);
    let s2 = s1.clone();

    send(&s1, 3).unwrap();
    send(&s1, 7).unwrap();

    let mut first = Some(13);
    let mut second = Some(42);
    assert_eq!(s1.send_attempt(&mut first), None);
    assert_eq!(s2.send_attempt(&mut second), None);

    r.disconnect();

    assert_eq!(s1.send_attempt(&mut first), Some(()));
    assert_eq!(s2.send_attempt(&mut second), Some(()));
    assert_eq!(s1.send_outcome(first), Err(SendError(13)));
    assert_eq!(s2.send_outcome(second), Err(SendError(42)));
}

// All senders are given up: the messages are received, then the end.
#[test]
fn drain_after_last_sender() {
    let (s, mut r) = channel(100);
    let s2 = s.clone();

    s.try_send(3).unwrap();
    s.try_send(7).unwrap();
    s2.try_send(13).unwrap();

    s.disconnect();
    assert_eq!(s2.is_closed(), false);
    s2.disconnect();

    assert_eq!(r.poll_next(Waker::noop()), Poll::Ready(Some(3)));
    assert_eq!(r.poll_next(Waker::noop()), Poll::Ready(Some(7)));
    assert_eq!(r.poll_next(Waker::noop()), Poll::Ready(Some(13)));
    assert_eq!(r.poll_next(Waker::noop()), Poll::Ready(None));
}

// One producer: the consumer sees 0, 1, 2, ... in order.
#[test]
fn single_producer_order() {
    let (s, mut r) = channel(3);
    let mut sent = 0usize;
    let mut received = 0usize;
    while received < 1000 {
        while sent < 1000 && s.try_send(sent).is_ok() {
            sent += 1;
        }
        assert_eq!(r.try_recv(), Ok(received));
        received += 1;
    }
    assert_eq!(r.try_recv(), Err(TryRecvError::Empty));
}

// Four producers send 0..N each: every value arrives four times.
#[test]
fn four_producers_are_counted() {
    const COUNT: usize = 500;
    let (s, mut r) = channel(3);
    let senders = vec![s.clone(), s.clone(), s.clone(), s];
    let mut next = vec![0usize; 4];
    let mut stats = vec![0usize; COUNT];
    let mut last_seen = vec![None::<usize>; 4];
    let mut turn = 0usize;
    let mut received = 0usize;
    while received < COUNT * 4 {
        for step in 0..3 {
            let p = (turn + step) % 4;
            if next[p] < COUNT && senders[p].try_send((p, next[p])).is_ok() {
                next[p] += 1;
            }
        }
        turn += 1;
        if let Ok((p, i)) = r.try_recv() {
            assert!(last_seen[p].map_or(i == 0, |before| i == before + 1));
            last_seen[p] = Some(i);
            stats[i] += 1;
            received += 1;
        }
    }
    for count in stats {
        assert_eq!(count, 4);
    }
}

// Capacity 1: a ping-pong of one send and one receive.
#[test]
fn ping_pong_with_capacity_one() {
    let (s, mut r) = channel(1);
    for i in 0..1000usize {
        assert_eq!(send(&s, i), Ok(()));
        assert_eq!(s.try_send(i), Err(TrySendError::Full(i)));
        assert_eq!(recv(&mut r), Ok(i));
    }
}

// A waiting send that is given up leaves the queue as it was.
#[test]
fn cancelled_send_loses_nothing() {
    let (s1, mut r) = channel(2);
    let s2 = s1.clone();

    send(&s1, 3).unwrap();
    send(&s1, 7).unwrap();

    let mut cancelled = Some(13);
    assert_eq!(s1.send_attempt(&mut cancelled), None);
    let mut waiting = Some(42);
    assert_eq!(s2.send_attempt(&mut waiting), None);
    drop(cancelled);

    assert_eq!(recv(&mut r), Ok(3));
    assert_eq!(s2.send_attempt(&mut waiting), Some(()));
    assert_eq!(s2.send_outcome(waiting), Ok(()));

    assert_eq!(r.try_recv(), Ok(7));
    assert_eq!(r.try_recv(), Ok(42));
}

// An empty open channel answers `Pending`, and a message after that is found
// by the next poll.
#[test]
fn poll_is_pending_until_a_message_comes() {
    let (s, mut r) = channel::<u32>(4);
    assert_eq!(r.poll_next(Waker::noop()), Poll::Pending);
    assert_eq!(r.poll_recv(Waker::noop()), Poll::Pending);
    r.cancel();
    s.try_send(5).unwrap();
    assert_eq!(r.poll_recv(Waker::noop()), Poll::Ready(Ok(5)));
    r.close();
    assert_eq!(s.try_send(6), Err(TrySendError::Closed(6)));
    assert_eq!(r.poll_next(Waker::noop()), Poll::Ready(None));
}

#[test]
fn errors_in_words() {
    assert_eq!(TrySendError::Full(1).to_string(), "Full(..)");
    assert_eq!(TrySendError::Closed(1).to_string(), "Closed(..)");
    assert_eq!(TryRecvError::Empty.to_string(), "receiving from an empty channel");
    assert_eq!(TryRecvError::Closed.to_string(), "receiving from a closed channel");
    assert_eq!(SendError(1).to_string(), "sending into a closed channel");
    assert_eq!(RecvError.to_string(), "receiving from a closed channel");
}

fn is_send<T: Send>(_: &T) {}

fn is_sync<T: Sync>(_: &T) {}

// The handles can be moved to other threads, and a sender can be shared.
#[test]
fn handles_cross_threads() {
    let (s, r) = channel::<usize>(2);
    is_send(&s);
    is_sync(&s);
    is_send(&r);
}
