use std::task::Waker;

use tachyonix::channel;
use tachyonix::Poll;
use tachyonix::Receiver;
use tachyonix::RecvError;
use tachyonix::SendError;
use tachyonix::Sender;
use tachyonix::TryRecvError;
use tachyonix::TrySendError;

// A send that is polled once: `Pending` while the queue is full.
struct Sending<T> {
    message: Option<T>,
}

impl<T> Sending<T> {
    fn new(message: T) -> Self {
        Sending { message: Some(message) }
    }

    fn poll(&mut self, s: &Sender<T>) -> Poll<Result<(), SendError<T>>> {
        match s.send_attempt(&mut self.message) {
            Some(()) => Poll::Ready(s.send_outcome(self.message.take())),
            None => Poll::Pending,
        }
    }
}

// A send that does not have to wait.
fn send<T>(s: &Sender<T>, message: T) -> Result<(), SendError<T>> {
    match Sending::new(message).poll(s) {
        Poll::Ready(result) => result,
        Poll::Pending => panic!("the send would have to wait"),
    }
}

// A receive that does not have to wait.
fn recv<T>(r: &mut Receiver<T>) -> Result<T, RecvError> {
    match r.poll_recv(Waker::noop()) {
        Poll::Ready(result) => result,
        Poll::Pending => panic!("the receive would have to wait"),
    }
}

// Basic synchronous sending/receiving functionality.
#[test]
fn try_send_recv() {
    let (s, mut r) = channel(2);

    assert_eq!(s.try_send(3), Ok(()));
    assert_eq!(s.try_send(7), Ok(()));
    assert_eq!(s.try_send(13), Err(TrySendError::Full(13)));

    assert_eq!(r.try_recv(), Ok(3));
    assert_eq!(r.try_recv(), Ok(7));
    assert_eq!(r.try_recv(), Err(TryRecvError::Empty));

    assert_eq!(s.try_send(42), Ok(()));
    s.disconnect();

    assert_eq!(r.try_recv(), Ok(42));
    assert_eq!(r.try_recv(), Err(TryRecvError::Closed));
}

// Basic asynchronous sending functionality.
#[test]
fn async_send() {
    let (s, mut r) = channel(2);

    send(&s, 3).unwrap();
    send(&s, 7).unwrap();
    let mut blocked = Sending::new(13);
    assert_eq!(blocked.poll(&s), Poll::Pending);

    assert_eq!(r.try_recv(), Ok(3));
    assert_eq!(r.try_recv(), Ok(7));

    assert_eq!(blocked.poll(&s), Poll::Ready(Ok(())));
    assert_eq!(r.try_recv(), Ok(13));

    send(&s, 42).unwrap();
    assert_eq!(r.try_recv(), Ok(42));
}

// Basic asynchronous receiving functionality.
#[test]
fn async_recv() {
    let (s, mut r) = channel(100);

    assert_eq!(r.try_recv(), Err(TryRecvError::Empty));
    assert_eq!(r.poll_recv(Waker::noop()), Poll::Pending);

    assert_eq!(s.try_send(3), Ok(()));
    assert_eq!(s.try_send(7), Ok(()));
    assert_eq!(s.try_send(42), Ok(()));

    assert_eq!(recv(&mut r), Ok(3));
    assert_eq!(recv(&mut r), Ok(7));
    assert_eq!(recv(&mut r), Ok(42));
    assert_eq!(r.try_recv(), Err(TryRecvError::Empty));
}

// Channel closed due to the receiver being dropped while a sender is blocked on
// a full channel.
#[test]
fn blocked_send_after_close() {
    let (s1, r) = channel(2);
    let s2 = s1.clone();

    send(&s1, 3).unwrap();
    send(&s1, 7).unwrap();

    let mut blocked1 = Sending::new(13);
    let mut blocked2 = Sending::new(42);
    assert_eq!(blocked1.poll(&s1), Poll::Pending);
    assert_eq!(blocked2.poll(&s2), Poll::Pending);

    r.disconnect();

    assert_eq!(blocked1.poll(&s1), Poll::Ready(Err(SendError(13))));
    assert_eq!(blocked2.poll(&s2), Poll::Ready(Err(SendError(42))));
}

// Channel closed due to the senders being dropped while the receiver is blocked
// on an empty channel.
#[test]
fn blocked_recv_after_close() {
    let (s1, mut r) = channel(100);
    let s2 = s1.clone();

    send(&s1, 3).unwrap();
    send(&s1, 7).unwrap();
    send(&s2, 13).unwrap();

    assert_eq!(recv(&mut r), Ok(3));
    assert_eq!(recv(&mut r), Ok(7));
    assert_eq!(recv(&mut r), Ok(13));
    assert_eq!(r.poll_recv(Waker::noop()), Poll::Pending);

    s1.disconnect();
    assert_eq!(r.poll_recv(Waker::noop()), Poll::Pending);
    s2.disconnect();

    assert_eq!(recv(&mut r), Err(RecvError));
    assert_eq!(r.try_recv(), Err(TryRecvError::Closed));
}

// Block two senders on a full channel, cancel the first sending operation and
// receive a message to unblock the second sender.
#[test]
fn cancel_async_send() {
    let (s1, mut r) = channel(2);
    let s2 = s1.clone();

    send(&s1, 3).unwrap();
    send(&s1, 7).unwrap();
    let mut cancelled = Sending::new(13);
    assert_eq!(cancelled.poll(&s1), Poll::Pending);

    let mut blocked = Sending::new(42);
    assert_eq!(blocked.poll(&s2), Poll::Pending);

    assert_eq!(recv(&mut r), Ok(3));
    drop(cancelled);

    assert_eq!(blocked.poll(&s2), Poll::Ready(Ok(())));

    assert_eq!(r.try_recv(), Ok(7));
    assert_eq!(r.try_recv(), Ok(42));
}

// Block two senders on a full channel, stop polling the first sender and
// receive two messages to unblock the second sender.
#[test]
fn forget_async_send() {
    let (s1, mut r) = channel(2);
    let s2 = s1.clone();

    send(&s1, 3).unwrap();
    send(&s1, 7).unwrap();
    let mut stalled = Sending::new(13);
    assert_eq!(stalled.poll(&s1), Poll::Pending);

    let mut blocked = Sending::new(42);
    assert_eq!(blocked.poll(&s2), Poll::Pending);

    assert_eq!(recv(&mut r), Ok(3));
    assert_eq!(recv(&mut r), Ok(7));

    assert_eq!(blocked.poll(&s2), Poll::Ready(Ok(())));
    assert_eq!(r.try_recv(), Ok(42));
    assert_eq!(stalled.message, Some(13));
}

// SPSC stress test.
#[test]
fn spsc_stress() {
    const CAPACITY: usize = 3;
    const COUNT: usize = 1_000_000;

    let (s, mut r) = channel(CAPACITY);

    let mut sent = 0;
    for i in 0..COUNT {
        // The producer runs ahead as far as the capacity lets it.
        while sent < COUNT && s.try_send(sent).is_ok() {
            sent += 1;
        }
        assert_eq!(recv(&mut r), Ok(i));
    }

    assert!(r.try_recv().is_err());
}

// MPSC stress test.
#[test]
fn mpsc_stress() {
    const CAPACITY: usize = 3;
    const COUNT: usize = 1_000_000;
    const THREADS: usize = 4;

    let (s, mut r) = channel(CAPACITY);
    let senders: Vec<_> = (0..THREADS).map(|_| s.clone()).collect();
    let mut next = vec![0usize; THREADS];

    let mut stats = Vec::new();
    stats.resize(COUNT, 0);

    let mut turn = 0;
    for _ in 0..COUNT * THREADS {
        // The producers take turns, each as far as the capacity lets it.
        let mut tried = 0;
        while tried < THREADS {
            let p = (turn + tried) % THREADS;
            if next[p] < COUNT && senders[p].try_send(next[p]).is_ok() {
                next[p] += 1;
            }
            tried += 1;
        }
        turn += 1;
        let i = recv(&mut r).unwrap();
        stats[i] += 1;
    }

    assert!(r.try_recv().is_err());

    for s in stats {
        assert_eq!(s, THREADS);
    }
}
