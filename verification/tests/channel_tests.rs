use panama::_channel;

#[test]
fn ping_pong() {
    let (mut tx, mut rx) = _channel();
    tx.send(42);
    assert_eq!(rx.recv(), Some(42));
}

#[test]
fn closed_tx() {
    let (tx, mut rx) = _channel::<()>();
    drop(tx);
    assert_eq!(rx.recv(), None);
}

#[test]
fn closed_rx() {
    let (mut tx, rx) = _channel();
    drop(rx);
    tx.send(42);
}

#[test]
fn drain_before_close() {
    let (mut tx, mut rx) = _channel();
    tx.send(1);
    tx.send(2);
    drop(tx);
    assert_eq!(rx.recv(), Some(1));
    assert_eq!(rx.recv(), Some(2));
    assert_eq!(rx.recv(), None);
}

#[test]
fn closed_state_is_idempotent() {
    let (tx, mut rx) = _channel::<u64>();
    drop(tx);
    assert_eq!(rx.recv(), None);
    assert_eq!(rx.recv(), None);
    assert_eq!(rx.recv(), None);
}

#[test]
fn send_after_receiver_dropped_is_harmless() {
    let (mut tx, rx) = _channel();
    let mut tx2 = tx.clone();
    drop(rx);
    tx.send(1);
    tx2.send(2);
    tx.send(3);
}

#[test]
fn cloned_senders_share_one_channel() {
    let (mut tx, mut rx) = _channel();
    let mut tx2 = tx.clone();
    tx.send(10);
    tx2.send(20);
    drop(tx);
    drop(tx2);
    assert_eq!(rx.recv(), Some(10));
    assert_eq!(rx.recv(), Some(20));
    assert_eq!(rx.recv(), None);
}

#[test]
fn per_sender_order_is_kept_when_interleaved() {
    let (mut odd, mut rx) = _channel::<u64>();
    let mut even = odd.clone();
    even.send(0);
    odd.send(1);
    even.send(2);
    odd.send(3);
    even.send(4);
    drop(odd);
    drop(even);
    let mut got = Vec::new();
    while let Some(v) = rx.recv() {
        got.push(v);
    }
    assert_eq!(got, vec![0, 1, 2, 3, 4]);
    let evens: Vec<u64> = got.iter().copied().filter(|v| v % 2 == 0).collect();
    let odds: Vec<u64> = got.iter().copied().filter(|v| v % 2 == 1).collect();
    assert_eq!(evens, vec![0, 2, 4]);
    assert_eq!(odds, vec![1, 3]);
}

#[test]
fn multi_producer_conservation() {
    let (tx, mut rx) = _channel::<u64>();
    let mut senders = Vec::new();
    for _ in 0..4u64 {
        senders.push(tx.clone());
    }
    drop(tx);
    for m in 0..25u64 {
        for (t, sender) in senders.iter_mut().enumerate() {
            sender.send((t as u64) * 100 + m);
        }
    }
    drop(senders);
    let mut got = Vec::new();
    while let Some(v) = rx.recv() {
        got.push(v);
    }
    assert_eq!(got.len(), 100);
    got.sort();
    let mut expected = Vec::new();
    for t in 0..4u64 {
        for m in 0..25u64 {
            expected.push(t * 100 + m);
        }
    }
    assert_eq!(got, expected);
}
