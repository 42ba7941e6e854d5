use kernel::servers::{
    http_response, listen_due, reply_due, socket_buffers, tcp_step, ConnectionChange, SocketType, TcpAction, TcpStep,
};

#[test]
fn connection_changes_are_reported_once() {
    assert_eq!(
        tcp_step(false, true, true, true),
        TcpStep { change: Some(ConnectionChange::Connected), active: true, action: TcpAction::Receive }
    );
    assert_eq!(
        tcp_step(true, true, true, true),
        TcpStep { change: None, active: true, action: TcpAction::Receive }
    );
    assert_eq!(
        tcp_step(true, false, false, false),
        TcpStep { change: Some(ConnectionChange::Disconnected), active: false, action: TcpAction::Wait }
    );
}

#[test]
fn a_half_closed_connection_is_closed() {
    assert_eq!(tcp_step(true, true, false, true).action, TcpAction::Close);
    assert_eq!(tcp_step(false, false, false, false).action, TcpAction::Wait);
}

#[test]
fn replies_need_data_and_room() {
    assert!(reply_due(true, 3));
    assert!(!reply_due(true, 0));
    assert!(!reply_due(false, 3));
}

#[test]
fn http_reply_carries_the_body_length() {
    let r = http_response("hello world");
    assert_eq!(
        r,
        b"HTTP/1.1 200 OK\r\nContent-Length: 11\r\nConnection: keep-alive\r\n\r\nhello world".to_vec()
    );
    assert_eq!(
        http_response(""),
        b"HTTP/1.1 200 OK\r\nContent-Length: 0\r\nConnection: keep-alive\r\n\r\n".to_vec()
    );
    let long = "x".repeat(1234);
    let r = http_response(&long);
    assert!(r.starts_with(b"HTTP/1.1 200 OK\r\nContent-Length: 1234\r\n"));
    assert_eq!(r.len(), 33 + 4 + 28 + 1234);
}

#[test]
fn socket_buffer_sizes() {
    assert_eq!(socket_buffers(SocketType::Raw), (2, 65_535));
    assert_eq!(socket_buffers(SocketType::Tcp), (0, 1024));
    assert_eq!(socket_buffers(SocketType::Udp), (2, 65_535));
}

#[test]
fn closed_sockets_listen_again() {
    assert!(listen_due(false));
    assert!(!listen_due(true));
}
