use std::mem;

use tachyonix::channel;

// Forget a waiting send, then give up the sender.
#[test]
fn forget_send_future_drop_sender() {
    let (s, mut r) = channel(1);

    let s = Box::new(s);

    s.try_send(13).unwrap();

    let mut waiting = Some(42);
    assert!(s.send_attempt(&mut waiting).is_none());

    mem::forget(waiting);

    s.disconnect();

    assert!(r.try_recv().is_ok());
}

// Forget a waiting send, then forget the sender.
#[test]
fn forget_send_future_forget_sender() {
    let (s, mut r) = channel(1);

    s.try_send(13).unwrap();

    let mut waiting = Some(42);
    assert!(s.send_attempt(&mut waiting).is_none());

    mem::forget(waiting);

    // Forget the sender and move in a new sender.
    mem::forget(s);
    let s = channel::<i32>(1).0;
    let _ = s;

    assert!(r.try_recv().is_ok());
}

// Forget a waiting send, then reuse the sender.
#[test]
fn forget_send_future_reuse_sender() {
    let (s, mut r) = channel(1);

    s.try_send(7).unwrap();

    let mut waiting1 = Some(13);
    assert!(s.send_attempt(&mut waiting1).is_none());

    mem::forget(waiting1);

    let mut waiting2 = Some(42);
    assert!(s.send_attempt(&mut waiting2).is_none());

    assert!(r.try_recv().is_ok());
}
