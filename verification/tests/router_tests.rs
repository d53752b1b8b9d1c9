use native_messaging_proxy::message::Message;
use native_messaging_proxy::router::{RecvOutcome, Router};

#[test]
fn same_tag_messages_arrive_in_send_order() {
    let mut router = Router::new();
    assert!(router.send(Message::new(1, b"first".to_vec())).is_ok());
    assert!(router.send(Message::new(1, b"second".to_vec())).is_ok());
    match router.recv() {
        RecvOutcome::Msg(m) => {
            assert_eq!(m.fd(), 1);
            assert_eq!(m.data(), &b"first".to_vec());
        },
        _ => panic!("expected the first message"),
    }
    match router.recv() {
        RecvOutcome::Msg(m) => {
            assert_eq!(m.fd(), 1);
            assert_eq!(m.data(), &b"second".to_vec());
        },
        _ => panic!("expected the second message"),
    }
}

#[test]
fn closed_router_rejects_sends() {
    let mut router = Router::new();
    router.close();
    match router.send(Message::new(0, b"late".to_vec())) {
        Err(back) => {
            assert_eq!(back.fd(), 0);
            assert_eq!(back.data(), &b"late".to_vec());
        },
        Ok(()) => panic!("a closed router must reject the send"),
    }
}

#[test]
fn drain_yields_remaining_then_closed() {
    let mut router = Router::new();
    assert!(router.send(Message::new(2, b"left over".to_vec())).is_ok());
    router.close();
    assert!(matches!(router.recv(), RecvOutcome::Msg(_)));
    assert!(matches!(router.recv(), RecvOutcome::Closed));
    assert!(matches!(router.recv(), RecvOutcome::Closed));
}

#[test]
fn open_empty_router_is_pending() {
    let mut router = Router::new();
    assert!(matches!(router.recv(), RecvOutcome::Pending));
}

#[test]
fn cross_tag_order_is_queue_order() {
    let mut router = Router::new();
    assert!(router.send(Message::new(1, b"out".to_vec())).is_ok());
    assert!(router.send(Message::new(2, b"diag".to_vec())).is_ok());
    assert!(router.send(Message::new(1, b"out2".to_vec())).is_ok());
    let tags: Vec<u8> = (0..3)
        .map(|_| match router.recv() {
            RecvOutcome::Msg(m) => m.fd(),
            _ => panic!("expected a message"),
        })
        .collect();
    assert_eq!(tags, vec![1, 2, 1]);
}
