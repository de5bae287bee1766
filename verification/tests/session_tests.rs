use neogrok::compress::ZStdParams;
use neogrok::ext::BufferSize;
use neogrok::factory::TcpFactory;
use neogrok::frame::NFrame;
use neogrok::pool::IDPool;
use neogrok::reader::CodecReader;
use neogrok::rights::{CAN_CREATE_TCP, CAN_SELECT_TCP};
use neogrok::session::{Action, ControlSession, SessionError, SessionState};
use neogrok::table::{ProxyClients, SendErrorKind, SlaveFrame};
use neogrok::writer::CodecWriter;

fn test_params() -> ZStdParams {
    ZStdParams { threshold: 50, level: 3, profit: 50 }
}

#[test]
fn pool_issues_fresh_ids_in_order() {
    let mut pool = IDPool::zero();
    assert_eq!(pool.request_id(), 0);
    assert_eq!(pool.request_id(), 1);
    assert_eq!(pool.request_id(), 2);
}

#[test]
fn pool_reuses_released_ids_only_after_release() {
    let mut pool = IDPool::zero();
    let a = pool.request_id();
    let b = pool.request_id();
    assert_ne!(a, b);
    pool.return_id(a);
    // The released id comes back; the still-held one does not.
    let c = pool.request_id();
    assert_eq!(c, a);
    let d = pool.request_id();
    assert_ne!(d, b);
    assert_ne!(d, c);
}

#[test]
fn pool_live_ids_are_pairwise_distinct() {
    let mut pool = IDPool::new(10);
    let mut held: Vec<u16> = Vec::new();
    for _ in 0..20 {
        let id = pool.request_id();
        assert!(!held.contains(&id));
        held.push(id);
    }
    // Release a few and take them again: still no duplicates among held.
    for id in [held.remove(3), held.remove(7), held.remove(0)] {
        pool.return_id(id);
    }
    for _ in 0..3 {
        let id = pool.request_id();
        assert!(!held.contains(&id));
        held.push(id);
    }
}

#[test]
fn table_send_reports_unknown_ids() {
    let mut table = ProxyClients::new();
    assert!(matches!(table.forward(5, b"x".to_vec()), SendErrorKind::NoSuchClient));
    let (tx, mut rx) = tokio::sync::mpsc::unbounded_channel();
    table.connected(5, tx);
    assert!(matches!(table.forward(5, b"x".to_vec()), SendErrorKind::NoError));
    match rx.try_recv().unwrap() {
        SlaveFrame::Forward { buffer } => assert_eq!(buffer, b"x".to_vec()),
        SlaveFrame::ForceDisconnect => panic!("expected forwarded bytes"),
    }
    assert!(matches!(table.forward(6, b"y".to_vec()), SendErrorKind::NoSuchClient));
}

#[test]
fn table_disconnect_signals_and_removes() {
    let mut table = ProxyClients::new();
    let (tx, mut rx) = tokio::sync::mpsc::unbounded_channel();
    table.connected(9, tx);
    // A disconnect signals the task and drops the entry, in one step.
    assert!(matches!(table.disconnect(9), SendErrorKind::NoError));
    assert!(matches!(rx.try_recv().unwrap(), SlaveFrame::ForceDisconnect));
    assert!(matches!(table.forward(9, b"x".to_vec()), SendErrorKind::NoSuchClient));
    assert!(matches!(table.disconnect(9), SendErrorKind::NoSuchClient));
    // A closed receiver is reported as such.
    let (tx2, rx2) = tokio::sync::mpsc::unbounded_channel();
    table.connected(9, tx2);
    drop(rx2);
    assert!(matches!(table.send(9, SlaveFrame::ForceDisconnect), SendErrorKind::Closed));
    // remove_client alone also unregisters.
    let (tx3, _rx3) = tokio::sync::mpsc::unbounded_channel();
    table.connected(4, tx3);
    table.remove_client(4);
    assert!(matches!(table.forward(4, b"y".to_vec()), SendErrorKind::NoSuchClient));
}

#[test]
fn peer_disconnect_frame_removes_the_entry() {
    let mut session = ControlSession::new(None, test_params(), 0, true);
    session.start();
    session
        .handle_network(NFrame::PingResponse { name: b"relay-1".to_vec() })
        .unwrap();
    session
        .handle_network(NFrame::RightsUpdate { rights: CAN_CREATE_TCP })
        .unwrap();
    session.handle_network(NFrame::Connect { id: 2 }).unwrap();
    let (tx, mut rx) = tokio::sync::mpsc::unbounded_channel();
    session.register_downstream(2, tx);

    let actions = session.handle_network(NFrame::Disconnect { id: 2 }).unwrap();
    assert!(actions.is_empty());
    // The task was told to exit and the id is no longer registered.
    assert!(matches!(rx.try_recv().unwrap(), SlaveFrame::ForceDisconnect));
    assert!(matches!(session.deliver(2, b"z".to_vec()), SendErrorKind::NoSuchClient));
}

#[test]
fn rights_denial_is_fatal() {
    let mut session = ControlSession::new(None, test_params(), 0, false);
    session.start();
    session
        .handle_network(NFrame::PingResponse { name: b"relay-1".to_vec() })
        .unwrap();
    let err = session
        .handle_network(NFrame::RightsUpdate { rights: CAN_SELECT_TCP })
        .unwrap_err();
    assert_eq!(err, SessionError::NoRights);
    assert_eq!(session.state, SessionState::Closed);
}

#[test]
fn access_denied_error_is_fatal() {
    let mut session = ControlSession::new(None, test_params(), 0, false);
    session.start();
    let err = session
        .handle_network(NFrame::Error { code: neogrok::wire::ACCESS_DENIED })
        .unwrap_err();
    assert_eq!(err, SessionError::AccessDenied);
    assert_eq!(session.state, SessionState::Closed);
    // Any other error code is informational.
    let mut session = ControlSession::new(None, test_params(), 0, false);
    session.start();
    let actions = session
        .handle_network(NFrame::Error { code: neogrok::wire::TOO_LONG })
        .unwrap();
    assert!(actions.is_empty());
}

#[test]
fn token_is_presented_after_pong() {
    let mut session =
        ControlSession::new(Some(b"open-sesame".to_vec()), test_params(), 0, false);
    session.start();
    let actions = session
        .handle_network(NFrame::PingResponse { name: b"relay-1".to_vec() })
        .unwrap();
    assert_eq!(session.state, SessionState::AwaitingAuthorization);
    assert_eq!(actions.len(), 1);
    match &actions[0] {
        Action::Send(NFrame::Authorize { magic }) => assert_eq!(magic, &b"open-sesame".to_vec()),
        _ => panic!("expected the token to be sent"),
    }
}

#[test]
fn server_request_is_sent_exactly_once() {
    let mut session = ControlSession::new(None, test_params(), 7000, false);
    session.start();
    session
        .handle_network(NFrame::PingResponse { name: b"relay-1".to_vec() })
        .unwrap();
    let first = session
        .handle_network(NFrame::RightsUpdate { rights: CAN_CREATE_TCP })
        .unwrap();
    // Sync request, then the single server request.
    assert_eq!(first.len(), 2);
    assert!(matches!(first[0], Action::Send(NFrame::Sync)));
    assert!(matches!(first[1], Action::Send(NFrame::Server { port: 7000, .. })));
    // A repeated rights update does not request the server again.
    let second = session
        .handle_network(NFrame::RightsUpdate { rights: CAN_CREATE_TCP })
        .unwrap();
    assert!(second.is_empty());
    // Nor does a late sync response.
    let third = session
        .handle_network(NFrame::SyncResponse { threshold: 100, level: 5, profit: 25 })
        .unwrap();
    assert!(third.is_empty());
}

#[test]
fn sync_response_adopts_server_settings_unless_overridden() {
    let mut session = ControlSession::new(None, test_params(), 0, false);
    session.start();
    session
        .handle_network(NFrame::PingResponse { name: b"relay-1".to_vec() })
        .unwrap();
    session
        .handle_network(NFrame::SyncResponse { threshold: 128, level: 7, profit: 30 })
        .unwrap();
    assert_eq!(session.params, ZStdParams { threshold: 128, level: 7, profit: 30 });

    let mut keeping = ControlSession::new(None, test_params(), 0, true);
    keeping.start();
    keeping
        .handle_network(NFrame::PingResponse { name: b"relay-1".to_vec() })
        .unwrap();
    keeping
        .handle_network(NFrame::SyncResponse { threshold: 128, level: 7, profit: 30 })
        .unwrap();
    assert_eq!(keeping.params, test_params());
}

#[test]
fn end_to_end_client_scenario() {
    // The client pings; the server answers; no token is configured, so the
    // next step is the rights grant, which triggers the sync and server
    // requests; the bound address arrives; a downstream connection opens,
    // bytes flow in, and the downstream's reply flows back out as a forward
    // frame on the control connection.
    let factory = TcpFactory::new(
        BufferSize::new(4096, 512),
        test_params(),
        0,
        None,
        String::from("localhost:25565"),
        String::from("relay.example:6567"),
        false,
    );
    let mut session = factory.create_session();
    let start = session.start();
    assert_eq!(start.len(), 1);
    assert!(matches!(start[0], Action::Send(NFrame::Ping)));

    let a1 = session
        .handle_network(NFrame::PingResponse { name: b"relay-1".to_vec() })
        .unwrap();
    assert!(a1.is_empty());

    let a2 = session
        .handle_network(NFrame::RightsUpdate { rights: CAN_CREATE_TCP })
        .unwrap();
    assert_eq!(a2.len(), 2);
    assert!(matches!(a2[0], Action::Send(NFrame::Sync)));
    assert!(matches!(
        a2[1],
        Action::Send(NFrame::Server { protocol: neogrok::frame::TransportProtocol::Tcp, port: 0 })
    ));
    assert_eq!(session.state, SessionState::Active);

    let a3 = session
        .handle_network(NFrame::ServerResponse { host: b"0.0.0.0".to_vec(), port: 41234 })
        .unwrap();
    assert!(a3.is_empty());
    assert_eq!(session.host, b"0.0.0.0".to_vec());
    assert_eq!(session.bound_port, 41234);

    // The peer opens downstream connection 1.
    let a4 = session.handle_network(NFrame::Connect { id: 1 }).unwrap();
    assert_eq!(a4.len(), 1);
    assert!(matches!(a4[0], Action::OpenDownstream { id: 1 }));
    let (tx, mut rx) = tokio::sync::mpsc::unbounded_channel();
    session.register_downstream(1, tx);

    // Forwarded bytes become a delivery to the downstream task's channel.
    let mut a5 = session
        .handle_network(NFrame::Forward { id: 1, buffer: b"GET / ".to_vec() })
        .unwrap();
    assert_eq!(a5.len(), 1);
    match a5.remove(0) {
        Action::Deliver { id, buffer } => {
            assert_eq!(id, 1);
            assert!(matches!(session.deliver(id, buffer), SendErrorKind::NoError));
        }
        _ => panic!("expected a delivery"),
    }
    match rx.try_recv().unwrap() {
        SlaveFrame::Forward { buffer } => assert_eq!(buffer, b"GET / ".to_vec()),
        SlaveFrame::ForceDisconnect => panic!("expected forwarded bytes"),
    }

    // The downstream's reply becomes an outbound forward frame, which the
    // server-side decoder reads back intact.
    let reply = b"HTTP/1.1 200 OK\r\n\r\n".to_vec();
    let a6 = session.handle_slave(neogrok::table::MasterFrame::Forward {
        id: 1,
        buffer: reply.clone(),
    });
    assert_eq!(a6.len(), 1);
    let frame = match &a6[0] {
        Action::Send(f) => f.clone(),
        _ => panic!("expected an outbound frame"),
    };
    let writer = CodecWriter::new(session.params.level, session.params.profit, session.params.threshold);
    let bytes = match frame {
        NFrame::Forward { id, buffer } => writer.write_forward(id, buffer),
        _ => panic!("expected a forward frame"),
    };
    let server_reader = CodecReader::server(4096);
    let (decoded, end) = server_reader.read_frame(&bytes, 0).unwrap();
    assert!(decoded == NFrame::Forward { id: 1, buffer: reply });
    assert_eq!(end, bytes.len());
}

#[test]
fn downstream_close_tells_peer_and_unregisters() {
    let mut session = ControlSession::new(None, test_params(), 0, true);
    session.start();
    session
        .handle_network(NFrame::PingResponse { name: b"relay-1".to_vec() })
        .unwrap();
    session
        .handle_network(NFrame::RightsUpdate { rights: CAN_CREATE_TCP })
        .unwrap();
    session.handle_network(NFrame::Connect { id: 3 }).unwrap();
    let (tx, _rx) = tokio::sync::mpsc::unbounded_channel();
    session.register_downstream(3, tx);

    let actions = session.handle_slave(neogrok::table::MasterFrame::Disconnected { id: 3 });
    assert_eq!(actions.len(), 1);
    assert!(matches!(actions[0], Action::Send(NFrame::Disconnect { id: 3 })));
    // The entry is gone: forwarding to it is now a protocol error.
    assert!(matches!(session.deliver(3, b"z".to_vec()), SendErrorKind::NoSuchClient));
}

#[test]
fn handshake_ignores_unexpected_frames() {
    let mut session = ControlSession::new(None, test_params(), 0, false);
    session.start();
    // A connect before the session is active is ignored.
    let actions = session.handle_network(NFrame::Connect { id: 1 }).unwrap();
    assert!(actions.is_empty());
    assert_eq!(session.state, SessionState::AwaitingPong);
    // So is a stray sync frame.
    let actions = session.handle_network(NFrame::Sync).unwrap();
    assert!(actions.is_empty());
    assert_eq!(session.state, SessionState::AwaitingPong);
}
