//! What the network servers decide: the buffers of the sockets they open,
//! what the TCP servers (the line-reversing echo server and the HTTP server)
//! do with a socket after each poll of the network interface, and the reply
//! the HTTP server sends.
//!
//! The caller polls the interface, opens a listening socket when the
//! previous connection is gone, reads the socket's state, and then follows
//! the step computed here: log a connection change, receive and reply, or
//! close the socket.

use vstd::prelude::*;
use vstd::string::StringSliceAdditionalSpecFns;

verus! {

/// Port of the line-reversing echo server.
pub const ECHO_PORT: u16 = 5555;

/// Port of the HTTP server.
pub const HTTP_PORT: u16 = 80;

/// How many sockets the HTTP server listens on.
pub const HTTP_SOCKETS: u16 = 64;

/// Port of the UDP receive server.
pub const UDP_RX_PORT: u16 = 5555;

/// How many sockets the UDP receive server binds.
pub const UDP_RX_SOCKETS: u16 = 64;

/// The kinds of sockets the servers open.
#[derive(Clone, Copy, Debug, PartialEq, Eq, Structural)]
pub enum SocketType {
    Raw,
    Tcp,
    Udp,
}

/// Packet-metadata slots of a raw socket's buffers.
pub const RAW_PACKET_METADATA_BUFFER_SIZE: usize = 2;

/// Payload bytes of a raw socket's buffers.
pub const RAW_PACKET_PAYLOAD_BUFFER_SIZE: usize = 65_535;

/// Packet-metadata slots of a UDP socket's buffers.
pub const UDP_PACKET_METADATA_BUFFER_SIZE: usize = 2;

/// Payload bytes of a UDP socket's buffers.
pub const UDP_PACKET_PAYLOAD_BUFFER_SIZE: usize = 65_535;

/// Bytes of a TCP socket's buffers.
pub const TCP_BUFFER_SIZE: usize = 1024;

/// The buffers of a socket of kind `kind`, for each direction: the number
/// of packet-metadata slots (none for a TCP byte stream) and the number of
/// payload bytes.
pub fn socket_buffers(kind: SocketType) -> (r: (usize, usize))
    ensures
        r == (match kind {
            SocketType::Raw => (RAW_PACKET_METADATA_BUFFER_SIZE, RAW_PACKET_PAYLOAD_BUFFER_SIZE),
            SocketType::Tcp => (0usize, TCP_BUFFER_SIZE),
            SocketType::Udp => (UDP_PACKET_METADATA_BUFFER_SIZE, UDP_PACKET_PAYLOAD_BUFFER_SIZE),
        }),
{
    match kind {
        SocketType::Raw => (RAW_PACKET_METADATA_BUFFER_SIZE, RAW_PACKET_PAYLOAD_BUFFER_SIZE),
        SocketType::Tcp => (0, TCP_BUFFER_SIZE),
        SocketType::Udp => (UDP_PACKET_METADATA_BUFFER_SIZE, UDP_PACKET_PAYLOAD_BUFFER_SIZE),
    }
}

/// How a connection's activity changed since the previous poll.
#[derive(Clone, Copy, Debug, PartialEq, Eq, Structural)]
pub enum ConnectionChange {
    Connected,
    Disconnected,
}

/// What the server does with a socket after a poll.
#[derive(Clone, Copy, Debug, PartialEq, Eq, Structural)]
pub enum TcpAction {
    /// Data may arrive: receive it and reply.
    Receive,
    /// The peer has finished sending but the socket may still send: close it.
    Close,
    /// Nothing to do until the next poll.
    Wait,
}

/// The step for one socket after a poll.
#[derive(Clone, Copy, Debug, PartialEq, Eq, Structural)]
pub struct TcpStep {
    /// The change to report, if the activity changed.
    pub change: Option<ConnectionChange>,
    /// Whether the connection is active, remembered for the next poll.
    pub active: bool,
    pub action: TcpAction,
}

/// The step for a socket that was active (`was_active`) at the previous poll
/// and now reports `is_active`, `may_recv` and `may_send`.
pub open spec fn tcp_step_spec(was_active: bool, is_active: bool, may_recv: bool, may_send: bool) -> TcpStep {
    TcpStep {
        change: if is_active && !was_active {
            Some(ConnectionChange::Connected)
        } else if !is_active && was_active {
            Some(ConnectionChange::Disconnected)
        } else {
            None
        },
        active: is_active,
        action: if may_recv {
            TcpAction::Receive
        } else if may_send {
            TcpAction::Close
        } else {
            TcpAction::Wait
        },
    }
}

/// A poll reports a connection exactly when the socket became active, a
/// disconnection exactly when it stopped being active, and nothing when
/// its activity did not change; the activity is remembered as it now is.
/// What to do next depends only on whether the socket may receive or send:
/// receive whenever it may, close when it may only send, wait otherwise.
pub proof fn lemma_tcp_step_reports_changes(was_active: bool, is_active: bool, may_recv: bool, may_send: bool)
    ensures
        tcp_step_spec(was_active, is_active, may_recv, may_send).change == Some(ConnectionChange::Connected)
            <==> !was_active && is_active,
        tcp_step_spec(was_active, is_active, may_recv, may_send).change == Some(ConnectionChange::Disconnected)
            <==> was_active && !is_active,
        tcp_step_spec(was_active, is_active, may_recv, may_send).change is None <==> was_active == is_active,
        tcp_step_spec(was_active, is_active, may_recv, may_send).active == is_active,
        tcp_step_spec(was_active, is_active, may_recv, may_send).action == TcpAction::Receive <==> may_recv,
        tcp_step_spec(was_active, is_active, may_recv, may_send).action == TcpAction::Close <==> !may_recv
            && may_send,
        tcp_step_spec(was_active, is_active, may_recv, may_send).action == TcpAction::Wait <==> !may_recv
            && !may_send,
{
}

/// Decides what to do with a socket after a poll; see `tcp_step_spec`.
pub fn tcp_step(was_active: bool, is_active: bool, may_recv: bool, may_send: bool) -> (r: TcpStep)
    ensures
        r == tcp_step_spec(was_active, is_active, may_recv, may_send),
        r.change == Some(ConnectionChange::Connected) <==> !was_active && is_active,
        r.change == Some(ConnectionChange::Disconnected) <==> was_active && !is_active,
        r.change is None <==> was_active == is_active,
        r.active == is_active,
{
    proof {
        lemma_tcp_step_reports_changes(was_active, is_active, may_recv, may_send);
    }
    let change = if is_active && !was_active {
        Some(ConnectionChange::Connected)
    } else if !is_active && was_active {
        Some(ConnectionChange::Disconnected)
    } else {
        None
    };
    let action = if may_recv {
        TcpAction::Receive
    } else if may_send {
        TcpAction::Close
    } else {
        TcpAction::Wait
    };
    TcpStep { change, active: is_active, action }
}

/// Whether a server socket must be put back to listening (a UDP socket:
/// bound to its port) before a poll: exactly when it is not open.
pub fn listen_due(is_open: bool) -> (r: bool)
    ensures
        r == !is_open,
{
    !is_open
}

/// Whether a reply is sent after receiving: only when the socket can send
/// and the received data was not empty (`reply_len` is the length of the
/// reply computed from it, which is that of the data).
pub fn reply_due(can_send: bool, reply_len: usize) -> (r: bool)
    ensures
        r == (can_send && reply_len > 0),
{
    can_send && reply_len > 0
}

/// Decimal digits of `n`, most significant first, without leading zeros.
pub open spec fn decimal(n: nat) -> Seq<u8>
    decreases n,
{
    if n < 10 {
        seq![(n + 48) as u8]
    } else {
        decimal(n / 10).push((n % 10 + 48) as u8)
    }
}

/// The number that the decimal digits `s` denote.
pub open spec fn decimal_value(s: Seq<u8>) -> int
    decreases s.len(),
{
    if s.len() == 0 {
        0
    } else {
        decimal_value(s.drop_last()) * 10 + (s.last() - 48)
    }
}

/// `decimal(n)` consists of digits only and denotes `n`: a client reading
/// the `Content-Length` header gets the body's length back.
pub proof fn lemma_decimal_value(n: nat)
    ensures
        decimal_value(decimal(n)) == n,
        forall|i: int| 0 <= i < decimal(n).len() ==> 48 <= #[trigger] decimal(n)[i] <= 57,
    decreases n,
{
    if n >= 10 {
        lemma_decimal_value(n / 10);
        let d = decimal(n);
        assert(d.drop_last() =~= decimal(n / 10));
        assert(d.last() == (n % 10 + 48) as u8);
        assert((n / 10) * 10 + n % 10 == n) by (nonlinear_arith);
        assert(decimal_value(d) == decimal_value(d.drop_last()) * 10 + (d.last() - 48));
        assert(decimal_value(d.drop_last()) == n / 10);
        assert(d.last() - 48 == n % 10);
        assert forall|i: int| 0 <= i < d.len() implies 48 <= #[trigger] d[i] <= 57 by {
            if i < d.len() - 1 {
                assert(d[i] == decimal(n / 10)[i]);
            }
        }
    } else {
        assert(decimal(n).drop_last() =~= Seq::<u8>::empty());
        assert(decimal_value(Seq::<u8>::empty()) == 0);
        assert(decimal(n).last() == (n + 48) as u8);
    }
}

/// Appends the decimal digits of `n` to `out`.
fn push_decimal(out: &mut Vec<u8>, n: usize)
    ensures
        final(out)@ == old(out)@ + decimal(n as nat),
    decreases n,
{
    if n >= 10 {
        push_decimal(out, n / 10);
    }
    let digit = (n % 10) as u8 + 48;
    out.push(digit);
    assert(out@ =~= old(out)@ + decimal(n as nat));
}

/// Appends `bytes` to `out`.
fn push_bytes(out: &mut Vec<u8>, bytes: &[u8])
    ensures
        final(out)@ == old(out)@ + bytes@,
{
    out.extend_from_slice(bytes);
    assert(out@ =~= old(out)@ + bytes@);
}

/// The status line and the start of the `Content-Length` header.
pub open spec fn response_head() -> Seq<u8> {
    "HTTP/1.1 200 OK\r\nContent-Length: ".spec_bytes()
}

/// The end of the `Content-Length` header, the connection header and the
/// blank line before the body.
pub open spec fn response_tail() -> Seq<u8> {
    "\r\nConnection: keep-alive\r\n\r\n".spec_bytes()
}

/// The HTTP server's reply: `200 OK` with `text` as the body, its length in
/// bytes as `Content-Length`, and a keep-alive connection.
pub fn http_response(text: &str) -> (r: Vec<u8>)
    ensures
        r@ == response_head() + decimal(text.spec_bytes().len()) + response_tail() + text.spec_bytes(),
{
    let body = text.as_bytes();
    let mut out: Vec<u8> = Vec::new();
    push_bytes(&mut out, "HTTP/1.1 200 OK\r\nContent-Length: ".as_bytes());
    push_decimal(&mut out, body.len());
    push_bytes(&mut out, "\r\nConnection: keep-alive\r\n\r\n".as_bytes());
    push_bytes(&mut out, body);
    out
}

} // verus!
