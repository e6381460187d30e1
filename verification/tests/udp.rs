use port_mapping::report::Level;
use port_mapping::session_map::Enqueue;
use tokio::sync::mpsc::Receiver;
use port_mapping::udp_proxy::{
    datagram, ClientAddr, Dispatch, ReceiverAction, ReceiverEvent, SessionAction, SessionEvent, SessionMap,
    SessionState, UdpProxy, IDLE_SECONDS, QUEUE_BOUND, WORKER_BIND,
};

fn proxy() -> UdpProxy {
    UdpProxy::new("0.0.0.0:9002".to_string(), "127.0.0.1:9902".to_string(), 2048)
}

fn client(port: u16) -> ClientAddr {
    ClientAddr::V4 { octets: 0x7f00_0001, port }
}

fn begun(out: Dispatch) -> (u64, Receiver<Vec<u8>>) {
    let session = out.worker.expect("a session for a worker");
    (session.number, session.queue)
}

#[test]
fn udp_proxy_keeps_its_addresses_and_buffer_size() {
    let proxy = proxy();
    assert_eq!(proxy.listen, "0.0.0.0:9002");
    assert_eq!(proxy.upstream, "127.0.0.1:9902");
    assert_eq!(proxy.buffer_size, 2048);
    assert_eq!(proxy.label(), "0.0.0.0:9002->127.0.0.1:9902");
    assert_eq!(proxy.buffer(), vec![0u8; 2048]);
    assert_eq!(QUEUE_BOUND, 100);
    assert_eq!(IDLE_SECONDS, 60);
    assert_eq!(WORKER_BIND, "0.0.0.0:0");
}

#[test]
fn datagram_is_as_long_as_what_was_received() {
    let buffer = vec![1u8, 2, 3, 4, 5];
    assert_eq!(datagram(&buffer, 0), Vec::<u8>::new());
    assert_eq!(datagram(&buffer, 3), vec![1, 2, 3]);
    assert_eq!(datagram(&buffer, 5), vec![1, 2, 3, 4, 5]);
}

#[test]
fn keys_tell_addresses_apart() {
    let addrs = [
        ClientAddr::V4 { octets: 1, port: 0 },
        ClientAddr::V4 { octets: 0, port: 1 },
        ClientAddr::V4 { octets: 1, port: 1 },
        ClientAddr::V6 { segments: 1, port: 1, flowinfo: 0, scope_id: 0 },
        ClientAddr::V6 { segments: 1, port: 0, flowinfo: 1, scope_id: 0 },
        ClientAddr::V6 { segments: 1, port: 0, flowinfo: 0, scope_id: 1 },
        ClientAddr::V6 { segments: 1, port: 0, flowinfo: 0, scope_id: 0 },
        ClientAddr::V6 { segments: u128::MAX, port: 65535, flowinfo: u32::MAX, scope_id: u32::MAX },
    ];
    for (i, a) in addrs.iter().enumerate() {
        for (j, b) in addrs.iter().enumerate() {
            assert_eq!(a.to_key() == b.to_key(), i == j, "{a:?} {b:?}");
        }
    }
    assert_eq!(ClientAddr::V4 { octets: 7, port: 2 }.to_key(), (7, 2 << 64));
    assert_eq!(
        ClientAddr::V6 { segments: 9, port: 2, flowinfo: 3, scope_id: 4 }.to_key(),
        (9, (1 << 80) + (2 << 64) + (3 << 32) + 4)
    );
}

#[test]
fn first_datagram_begins_a_session() {
    let mut sessions = SessionMap::new();
    assert!(!sessions.contains(client(1)));
    let out = sessions.dispatch(client(1), vec![1, 2, 3]);
    assert_eq!(out.outcome, Enqueue::Sent);
    let mut queue = begun(out).1;
    assert!(sessions.contains(client(1)));
    assert!(!sessions.contains(client(2)));
    assert_eq!(queue.try_recv().ok(), Some(vec![1, 2, 3]));
    assert!(queue.try_recv().is_err());
}

#[test]
fn datagrams_of_one_client_keep_their_order() {
    let mut sessions = SessionMap::new();
    let mut queue = begun(sessions.dispatch(client(1), vec![1])).1;
    for i in 2u8..=9 {
        let out = sessions.dispatch(client(1), vec![i]);
        assert!(out.worker.is_none());
        assert_eq!(out.outcome, Enqueue::Sent);
    }
    for i in 1u8..=9 {
        assert_eq!(queue.try_recv().ok(), Some(vec![i]));
    }
    assert!(queue.try_recv().is_err());
}

#[test]
fn clients_have_sessions_of_their_own() {
    let mut sessions = SessionMap::new();
    let mut first = begun(sessions.dispatch(client(1), b"a1".to_vec())).1;
    let mut second = begun(sessions.dispatch(client(2), b"b1".to_vec())).1;
    assert!(sessions.dispatch(client(1), b"a2".to_vec()).worker.is_none());
    assert!(sessions.dispatch(client(2), b"b2".to_vec()).worker.is_none());
    assert!(sessions.contains(client(1)) && sessions.contains(client(2)));
    assert_eq!(first.try_recv().ok(), Some(b"a1".to_vec()));
    assert_eq!(first.try_recv().ok(), Some(b"a2".to_vec()));
    assert!(first.try_recv().is_err());
    assert_eq!(second.try_recv().ok(), Some(b"b1".to_vec()));
    assert_eq!(second.try_recv().ok(), Some(b"b2".to_vec()));
    assert!(second.try_recv().is_err());
}

#[test]
fn one_worker_for_each_of_many_clients() {
    let mut sessions = SessionMap::new();
    let mut workers = Vec::new();
    for round in 0..3 {
        for port in 0..50u16 {
            let out = sessions.dispatch(client(port), vec![round, port as u8]);
            assert_eq!(out.worker.is_some(), round == 0);
            assert_eq!(out.outcome, Enqueue::Sent);
            if let Some(session) = out.worker {
                assert_eq!(session.number, 0);
                workers.push(session.queue);
            }
        }
    }
    assert_eq!(workers.len(), 50);
    for (port, queue) in workers.iter_mut().enumerate() {
        for round in 0..3 {
            assert_eq!(queue.try_recv().ok(), Some(vec![round, port as u8]));
        }
        assert!(queue.try_recv().is_err());
    }
    for port in 0..50u16 {
        assert!(sessions.contains(client(port)));
    }
    assert!(!sessions.contains(client(50)));
}

#[test]
fn full_queue_drops_the_datagram() {
    let mut sessions = SessionMap::new();
    let mut queue = begun(sessions.dispatch(client(1), vec![0])).1;
    for i in 1..QUEUE_BOUND {
        assert_eq!(sessions.dispatch(client(1), vec![i as u8]).outcome, Enqueue::Sent);
    }
    let out = sessions.dispatch(client(1), vec![255]);
    assert_eq!(out.outcome, Enqueue::Full);
    assert!(out.worker.is_none());
    assert!(sessions.contains(client(1)));
    assert_eq!(queue.try_recv().ok(), Some(vec![0]));
    assert_eq!(sessions.dispatch(client(1), vec![254]).outcome, Enqueue::Sent);
    for i in 1..QUEUE_BOUND {
        assert_eq!(queue.try_recv().ok(), Some(vec![i as u8]));
    }
    assert_eq!(queue.try_recv().ok(), Some(vec![254]));
    assert!(queue.try_recv().is_err());
}

#[test]
fn lost_worker_is_replaced_by_the_next_datagram() {
    let mut sessions = SessionMap::new();
    let queue = begun(sessions.dispatch(client(1), vec![1])).1;
    drop(queue);
    let out = sessions.dispatch(client(1), vec![2]);
    assert_eq!(out.outcome, Enqueue::Closed);
    let mut queue = begun(out).1;
    assert!(sessions.contains(client(1)));
    assert!(queue.try_recv().is_err());
    let out = sessions.dispatch(client(1), vec![3]);
    assert_eq!(out.outcome, Enqueue::Sent);
    assert!(out.worker.is_none());
    assert_eq!(queue.try_recv().ok(), Some(vec![3]));
    assert!(queue.try_recv().is_err());
    assert!(sessions.contains(client(1)));
}

#[test]
fn worker_that_failed_to_start_does_not_lock_its_client_out() {
    let proxy = proxy();
    let mut sessions = SessionMap::new();
    let first = begun(sessions.dispatch(client(1), vec![1])).1;
    let (state, action) = proxy.on_session_event(
        client(1),
        SessionState::Starting,
        SessionEvent::ConnectFailed("no route".to_string()),
    );
    assert_eq!(state, SessionState::Ended);
    assert!(matches!(action, SessionAction::Abandon(_)));
    drop(first);
    assert!(sessions.contains(client(1)));
    let out = sessions.dispatch(client(1), vec![2]);
    assert_eq!(out.outcome, Enqueue::Closed);
    assert!(proxy.on_enqueue(out.outcome).is_some());
    let mut second = begun(out).1;
    for i in 3u8..6 {
        let out = sessions.dispatch(client(1), vec![i]);
        assert_eq!(out.outcome, Enqueue::Sent);
        assert!(out.worker.is_none());
    }
    for i in 3u8..6 {
        assert_eq!(second.try_recv().ok(), Some(vec![i]));
    }
    assert!(second.try_recv().is_err());
}

#[test]
fn settle_renews_only_a_closed_session() {
    let mut sessions = SessionMap::new();
    let mut first = begun(sessions.open(client(1), vec![7])).1;
    let _second = begun(sessions.open(client(2), vec![])).1;
    let out = sessions.settle(client(1), Enqueue::Sent);
    assert_eq!(out.outcome, Enqueue::Sent);
    assert!(out.worker.is_none());
    let out = sessions.settle(client(1), Enqueue::Full);
    assert_eq!(out.outcome, Enqueue::Full);
    assert!(out.worker.is_none());
    assert!(sessions.contains(client(1)));
    let out = sessions.settle(client(1), Enqueue::Closed);
    assert_eq!(out.outcome, Enqueue::Closed);
    let mut renewed = begun(out).1;
    assert!(sessions.contains(client(1)));
    assert!(sessions.contains(client(2)));
    assert_eq!(sessions.dispatch(client(1), vec![8]).outcome, Enqueue::Sent);
    assert_eq!(first.try_recv().ok(), Some(vec![7]));
    assert!(first.try_recv().is_err());
    assert_eq!(renewed.try_recv().ok(), Some(vec![8]));
}

#[test]
fn open_puts_the_first_datagram_into_the_new_queue() {
    let mut sessions = SessionMap::new();
    for port in 0..20u16 {
        let out = sessions.open(client(port), vec![port as u8, 1]);
        assert_eq!(out.outcome, Enqueue::Sent);
        let mut queue = begun(out).1;
        assert_eq!(queue.try_recv().ok(), Some(vec![port as u8, 1]));
        assert!(queue.try_recv().is_err());
    }
}

#[test]
fn renew_gives_an_empty_queue_that_the_next_datagram_reaches() {
    let mut sessions = SessionMap::new();
    let mut old = begun(sessions.open(client(1), vec![1])).1;
    let renewed = sessions.renew(client(1));
    assert_eq!(renewed.number, 1);
    assert_eq!(sessions.session_of(client(1)), Some(1));
    let mut new = renewed.queue;
    assert!(sessions.contains(client(1)));
    assert!(new.try_recv().is_err());
    assert_eq!(sessions.dispatch(client(1), vec![2]).outcome, Enqueue::Sent);
    assert_eq!(new.try_recv().ok(), Some(vec![2]));
    assert_eq!(old.try_recv().ok(), Some(vec![1]));
    assert!(old.try_recv().is_err());
}

#[test]
fn close_ends_the_session_with_the_number_and_no_other() {
    let mut sessions = SessionMap::new();
    let (a, _queue_a) = begun(sessions.dispatch(client(1), vec![]));
    let (b, _queue_b) = begun(sessions.dispatch(client(2), vec![]));
    assert_eq!((a, b), (0, 0));
    assert!(sessions.close(client(1), a));
    assert!(!sessions.contains(client(1)));
    assert!(sessions.contains(client(2)));
    assert!(!sessions.close(client(3), 0));
    assert!(!sessions.close(client(2), 1));
    assert!(sessions.contains(client(2)));
    assert_eq!(sessions.session_of(client(2)), Some(0));
    assert_eq!(sessions.session_of(client(1)), None);
}

#[test]
fn replaced_session_is_not_ended_by_the_old_worker() {
    let proxy = proxy();
    let mut sessions = SessionMap::new();
    let (old, old_queue) = begun(sessions.dispatch(client(1), vec![1]));
    drop(old_queue);
    let out = sessions.dispatch(client(1), vec![2]);
    assert_eq!(out.outcome, Enqueue::Closed);
    let (new, mut new_queue) = begun(out);
    assert_eq!((old, new), (0, 1));
    assert_eq!(sessions.session_of(client(1)), Some(1));
    let (state, line) = proxy.on_idle(&mut sessions, client(1), old, SessionState::Relaying);
    assert_eq!(state, SessionState::Ended);
    assert!(line.is_some());
    assert_eq!(sessions.session_of(client(1)), Some(1));
    assert_eq!(sessions.dispatch(client(1), vec![3]).outcome, Enqueue::Sent);
    assert_eq!(new_queue.try_recv().ok(), Some(vec![3]));
    let (state, _) = proxy.on_idle(&mut sessions, client(1), new, SessionState::Relaying);
    assert_eq!(state, SessionState::Ended);
    assert!(!sessions.contains(client(1)));
}

#[test]
fn idle_session_leaves_the_map() {
    let proxy = proxy();
    let mut sessions = SessionMap::new();
    let _a = begun(sessions.dispatch(client(1), vec![])).1;
    let _b = begun(sessions.dispatch(client(2), vec![])).1;
    let (state, line) = proxy.on_idle(&mut sessions, client(1), 0, SessionState::Relaying);
    assert_eq!(state, SessionState::Ended);
    let line = line.expect("a line to log");
    assert_eq!(line.level, Level::Info);
    assert_eq!(
        line.text,
        "[info][udp][0.0.0.0:9002->127.0.0.1:9902] No data transport for 60 seconds, closing connection"
    );
    assert!(!sessions.contains(client(1)));
    assert!(sessions.contains(client(2)));
    let (state, line) = proxy.on_idle(&mut sessions, client(2), 0, SessionState::Starting);
    assert_eq!(state, SessionState::Starting);
    assert!(line.is_none());
    assert!(sessions.contains(client(2)));
    let (state, line) = proxy.on_idle(&mut sessions, client(2), 0, SessionState::Ended);
    assert_eq!(state, SessionState::Ended);
    assert!(line.is_none());
    assert!(sessions.contains(client(2)));
}

#[test]
fn worker_relays_each_datagram_as_it_came() {
    let proxy = proxy();
    let (state, action) = proxy.on_session_event(client(7), SessionState::Starting, SessionEvent::Connected);
    assert_eq!(state, SessionState::Relaying);
    assert!(matches!(action, SessionAction::Relay));
    let (state, action) = proxy.on_session_event(client(7), state, SessionEvent::Ingress(vec![1, 2]));
    assert_eq!(state, SessionState::Relaying);
    assert!(matches!(action, SessionAction::SendUpstream(bytes) if bytes == [1, 2]));
    let (state, action) = proxy.on_session_event(client(7), state, SessionEvent::Upstream(vec![3]));
    assert_eq!(state, SessionState::Relaying);
    match action {
        SessionAction::SendToClient(ClientAddr::V4 { octets, port }, bytes) => {
            assert_eq!((octets, port), (0x7f00_0001, 7));
            assert_eq!(bytes, [3]);
        }
        other => panic!("{other:?}"),
    }
}

#[test]
fn worker_sends_every_answer_to_its_own_client_in_order() {
    let proxy = proxy();
    let mut state = SessionState::Relaying;
    let mut sent = Vec::new();
    let events = vec![
        SessionEvent::Ingress(vec![1]),
        SessionEvent::Upstream(vec![10]),
        SessionEvent::Upstream(vec![11]),
        SessionEvent::UpstreamSendFailed("e".to_string()),
        SessionEvent::Upstream(vec![12]),
        SessionEvent::Ingress(vec![2]),
        SessionEvent::Connected,
        SessionEvent::Ingress(vec![3]),
    ];
    for event in events {
        let (next, action) = proxy.on_session_event(client(9), state, event);
        state = next;
        match action {
            SessionAction::SendUpstream(bytes) => sent.push((None, bytes)),
            SessionAction::SendToClient(ClientAddr::V4 { port, .. }, bytes) => {
                sent.push((Some(port), bytes))
            }
            _ => {}
        }
    }
    assert_eq!(state, SessionState::Relaying);
    assert_eq!(
        sent,
        vec![
            (None, vec![1]),
            (Some(9), vec![10]),
            (Some(9), vec![11]),
            (Some(9), vec![12]),
            (None, vec![2]),
            (None, vec![3]),
        ]
    );
}

#[test]
fn worker_goes_on_after_a_failed_send() {
    let proxy = proxy();
    let (state, action) = proxy.on_session_event(
        client(7),
        SessionState::Relaying,
        SessionEvent::UpstreamSendFailed("refused".to_string()),
    );
    assert_eq!(state, SessionState::Relaying);
    match action {
        SessionAction::Log(line) => {
            assert_eq!(line.level, Level::Warning);
            assert_eq!(
                line.text,
                "[warning][udp][0.0.0.0:9002->127.0.0.1:9902] Failed to send to upstream: refused"
            );
        }
        other => panic!("{other:?}"),
    }
    let (state, action) = proxy.on_session_event(
        client(7),
        SessionState::Relaying,
        SessionEvent::ClientSendFailed("unreachable".to_string()),
    );
    assert_eq!(state, SessionState::Relaying);
    match action {
        SessionAction::Log(line) => {
            assert_eq!(line.level, Level::Warning);
            assert_eq!(
                line.text,
                "[warning][udp][0.0.0.0:9002->127.0.0.1:9902] Failed to send to downstream: unreachable"
            );
        }
        other => panic!("{other:?}"),
    }
}

#[test]
fn worker_ends_when_its_socket_fails() {
    let proxy = proxy();
    let (state, action) = proxy.on_session_event(
        client(7),
        SessionState::Starting,
        SessionEvent::BindFailed("no ports".to_string()),
    );
    assert_eq!(state, SessionState::Ended);
    match action {
        SessionAction::Abandon(line) => {
            assert_eq!(line.level, Level::Warning);
            assert_eq!(
                line.text,
                "[warning][udp][0.0.0.0:9002->127.0.0.1:9902] Failed to bind client socket: no ports"
            );
        }
        other => panic!("{other:?}"),
    }
    let (state, action) = proxy.on_session_event(
        client(7),
        SessionState::Starting,
        SessionEvent::ConnectFailed("no route".to_string()),
    );
    assert_eq!(state, SessionState::Ended);
    match action {
        SessionAction::Abandon(line) => {
            assert_eq!(line.level, Level::Warning);
            assert_eq!(
                line.text,
                "[warning][udp][0.0.0.0:9002->127.0.0.1:9902] Failed to connect to upstream: no route"
            );
        }
        other => panic!("{other:?}"),
    }
}

#[test]
fn worker_ignores_what_does_not_belong_to_its_state() {
    let proxy = proxy();
    let (state, action) =
        proxy.on_session_event(client(7), SessionState::Starting, SessionEvent::Ingress(vec![1]));
    assert_eq!(state, SessionState::Starting);
    assert!(matches!(action, SessionAction::Nothing));
    let (state, action) =
        proxy.on_session_event(client(7), SessionState::Relaying, SessionEvent::Connected);
    assert_eq!(state, SessionState::Relaying);
    assert!(matches!(action, SessionAction::Nothing));
    let (state, action) =
        proxy.on_session_event(client(7), SessionState::Ended, SessionEvent::Upstream(vec![1]));
    assert_eq!(state, SessionState::Ended);
    assert!(matches!(action, SessionAction::Nothing));
}

#[test]
fn receiver_goes_on_after_a_failed_receive() {
    let proxy = proxy();
    match proxy.on_receiver_event(ReceiverEvent::Bound) {
        ReceiverAction::Log(line) => {
            assert_eq!(line.level, Level::Info);
            assert_eq!(line.text, "[info][udp][0.0.0.0:9002->127.0.0.1:9902] Listening");
        }
        other => panic!("{other:?}"),
    }
    match proxy.on_receiver_event(ReceiverEvent::ReceiveFailed("reset".to_string())) {
        ReceiverAction::Log(line) => {
            assert_eq!(line.level, Level::Warning);
            assert_eq!(
                line.text,
                "[warning][udp][0.0.0.0:9002->127.0.0.1:9902] Failed to recv from downstream: reset"
            );
        }
        other => panic!("{other:?}"),
    }
    match proxy.on_receiver_event(ReceiverEvent::BindFailed("in use".to_string())) {
        ReceiverAction::Fail(line) => {
            assert_eq!(line.level, Level::Warning);
            assert_eq!(
                line.text,
                "[warning][udp][0.0.0.0:9002->127.0.0.1:9902] Failed to listen: in use"
            );
        }
        other => panic!("{other:?}"),
    }
}

#[test]
fn dropped_datagram_gives_a_warning() {
    let proxy = proxy();
    assert!(proxy.on_enqueue(Enqueue::Sent).is_none());
    let line = proxy.on_enqueue(Enqueue::Full).unwrap();
    assert_eq!(line.level, Level::Warning);
    assert_eq!(
        line.text,
        "[warning][udp][0.0.0.0:9002->127.0.0.1:9902] Datagram dropped: queue is full"
    );
    let line = proxy.on_enqueue(Enqueue::Closed).unwrap();
    assert_eq!(line.level, Level::Warning);
    assert_eq!(
        line.text,
        "[warning][udp][0.0.0.0:9002->127.0.0.1:9902] Datagram dropped: queue is closed"
    );
}
