use port_mapping::report::{log_line, Level};
use port_mapping::mapping_rule::Protocol;
use port_mapping::tcp_proxy::{
    ConnectionAction, ConnectionEvent, ConnectionState, ListenerAction, ListenerEvent, TcpProxy,
};

fn proxy() -> TcpProxy {
    TcpProxy::new("0.0.0.0:9001".to_string(), "127.0.0.1:9901".to_string())
}

#[test]
fn tcp_proxy_keeps_its_addresses() {
    let proxy = proxy();
    assert_eq!(proxy.listen, "0.0.0.0:9001");
    assert_eq!(proxy.upstream, "127.0.0.1:9901");
    assert_eq!(proxy.label(), "0.0.0.0:9001->127.0.0.1:9901");
}

#[test]
fn log_line_has_level_protocol_and_rule() {
    let line = log_line(Level::Info, Protocol::Udp, "a:1", "b:2", "hello");
    assert_eq!(line.level, Level::Info);
    assert_eq!(line.text, "[info][udp][a:1->b:2] hello");
    let line = log_line(Level::Warning, Protocol::Tcp, "", "", "");
    assert_eq!(line.level, Level::Warning);
    assert_eq!(line.text, "[warning][tcp][->] ");
}

#[test]
fn listener_goes_on_after_a_failed_accept() {
    match proxy().on_listener_event(ListenerEvent::Bound) {
        ListenerAction::Log(line) => {
            assert_eq!(line.level, Level::Info);
            assert_eq!(line.text, "[info][tcp][0.0.0.0:9001->127.0.0.1:9901] Listening");
        }
        other => panic!("{other:?}"),
    }
    match proxy().on_listener_event(ListenerEvent::AcceptFailed("too many files".to_string())) {
        ListenerAction::Log(line) => {
            assert_eq!(line.level, Level::Warning);
            assert_eq!(
                line.text,
                "[warning][tcp][0.0.0.0:9001->127.0.0.1:9901] Failed to accept connection: too many files"
            );
        }
        other => panic!("{other:?}"),
    }
    assert!(matches!(proxy().on_listener_event(ListenerEvent::Accepted), ListenerAction::Dial));
}

#[test]
fn listener_ends_when_it_cannot_bind() {
    match proxy().on_listener_event(ListenerEvent::BindFailed("in use".to_string())) {
        ListenerAction::Fail(line) => {
            assert_eq!(line.level, Level::Warning);
            assert_eq!(
                line.text,
                "[warning][tcp][0.0.0.0:9001->127.0.0.1:9901] Failed to listen: in use"
            );
        }
        other => panic!("{other:?}"),
    }
}

#[test]
fn connection_reports_the_bytes_of_each_direction() {
    let proxy = proxy();
    let (state, action) = proxy.on_connection_event(ConnectionState::Dialing, ConnectionEvent::Dialed);
    assert_eq!(state, ConnectionState::Splicing);
    assert!(matches!(action, ConnectionAction::Splice));
    let (state, action) =
        proxy.on_connection_event(state, ConnectionEvent::Spliced { sent: 5, received: 1234567 });
    assert_eq!(state, ConnectionState::Closed);
    match action {
        ConnectionAction::Close(line) => {
            assert_eq!(line.level, Level::Info);
            assert_eq!(
                line.text,
                "[info][tcp][0.0.0.0:9001->127.0.0.1:9901] Connection closed: 0.0.0.0:9001 Send 5B to 127.0.0.1:9901 and receive 1234567B"
            );
        }
        other => panic!("{other:?}"),
    }
}

#[test]
fn failed_dial_ends_the_connection_with_a_warning() {
    let (state, action) = proxy()
        .on_connection_event(ConnectionState::Dialing, ConnectionEvent::DialFailed("refused".to_string()));
    assert_eq!(state, ConnectionState::Closed);
    match action {
        ConnectionAction::Close(line) => {
            assert_eq!(line.level, Level::Warning);
            assert_eq!(
                line.text,
                "[warning][tcp][0.0.0.0:9001->127.0.0.1:9901] Failed to connect: refused"
            );
        }
        other => panic!("{other:?}"),
    }
}

#[test]
fn failed_splice_ends_the_connection_with_a_warning() {
    let (state, action) = proxy()
        .on_connection_event(ConnectionState::Splicing, ConnectionEvent::SpliceFailed("reset".to_string()));
    assert_eq!(state, ConnectionState::Closed);
    match action {
        ConnectionAction::Close(line) => {
            assert_eq!(line.level, Level::Warning);
            assert_eq!(
                line.text,
                "[warning][tcp][0.0.0.0:9001->127.0.0.1:9901] Connection error: reset"
            );
        }
        other => panic!("{other:?}"),
    }
}

#[test]
fn events_out_of_place_change_nothing() {
    let proxy = proxy();
    for state in [ConnectionState::Dialing, ConnectionState::Splicing, ConnectionState::Closed] {
        let events = [
            ConnectionEvent::Dialed,
            ConnectionEvent::DialFailed("e".to_string()),
            ConnectionEvent::Spliced { sent: 1, received: 2 },
            ConnectionEvent::SpliceFailed("e".to_string()),
        ];
        for (i, event) in events.into_iter().enumerate() {
            let fits = match state {
                ConnectionState::Dialing => i < 2,
                ConnectionState::Splicing => i >= 2,
                ConnectionState::Closed => false,
            };
            let (next, action) = proxy.on_connection_event(state, event);
            if !fits {
                assert_eq!(next, state);
                assert!(matches!(action, ConnectionAction::Nothing));
            } else {
                assert_ne!(next, state);
            }
        }
    }
}
