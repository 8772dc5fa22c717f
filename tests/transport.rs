use net::transport::error::{invalid_address, mailbox_io_error, not_listening_error, unsupported_error};
use net::transport::tcp::{accepts_write, session_step, SessionAction, SessionEvent, SessionState};
use net::transport::{IpAddress, PeerAddress, SessionKey, Transport, TransportProtocol};
use net::codec::message::{Encapsulated, Message};
use net::error::{ErrorKind, ErrorSeverity};

#[test]
fn test_as() {
    assert_eq!(6, u16::from(TransportProtocol::Tcp));
    assert_eq!(17, u16::from(TransportProtocol::Udp));
    assert_eq!(0, u16::from(TransportProtocol::Unsupported));
}

#[test]
fn test_from() {
    assert_eq!(TransportProtocol::Tcp, TransportProtocol::from(6));
    assert_eq!(TransportProtocol::Udp, TransportProtocol::from(17));
    assert_eq!(TransportProtocol::Unsupported, TransportProtocol::from(0));
}

#[test]
fn protocol_from_other_integer_types() {
    assert_eq!(TransportProtocol::Tcp, TransportProtocol::from(6u16));
    assert_eq!(TransportProtocol::Udp, TransportProtocol::from(17u64));
    assert_eq!(TransportProtocol::Unsupported, TransportProtocol::from(-6i64));
    assert_eq!(TransportProtocol::Unsupported, TransportProtocol::from(262u32));
    assert_eq!(TransportProtocol::Unsupported, TransportProtocol::from(7i16));
}

#[test]
fn protocol_order_follows_tags() {
    assert!(TransportProtocol::Unsupported < TransportProtocol::Tcp);
    assert!(TransportProtocol::Tcp < TransportProtocol::Udp);
    assert_eq!(17, TransportProtocol::Udp.code());
}

#[test]
fn session_keys_compare_by_both_parts() {
    let a = PeerAddress { ip: IpAddress::V4(0x7f00_0001), port: 4000 };
    let b = PeerAddress { ip: IpAddress::V4(0x7f00_0001), port: 4001 };
    assert_eq!(SessionKey::new(TransportProtocol::Tcp, a), SessionKey::new(TransportProtocol::Tcp, a));
    assert_ne!(SessionKey::new(TransportProtocol::Tcp, a), SessionKey::new(TransportProtocol::Udp, a));
    assert_ne!(SessionKey::new(TransportProtocol::Tcp, a), SessionKey::new(TransportProtocol::Tcp, b));
}

#[test]
fn transport_handle_protocol() {
    let t: Transport<u8, u16> = Transport::Udp(3);
    assert_eq!(TransportProtocol::Udp, t.protocol());
}

#[test]
fn transport_error_messages() {
    let e = mailbox_io_error();
    assert_eq!("mailbox error", e.message);
    assert!(matches!(e.kind, ErrorKind::Other));
    let e = unsupported_error("UDP connect");
    assert_eq!("UDP connect is not supported", e.message);
    assert!(matches!(e.kind, ErrorKind::Other));
    assert!(matches!(e.severity, ErrorSeverity::Medium));
    let e = not_listening_error("TCP");
    assert_eq!("TCP is not listening", e.message);
    let e = invalid_address(&String::from("localhost"), -5);
    assert_eq!("Invalid address: localhost:-5", e.message);
    let e = invalid_address(&String::from("::1"), 65536);
    assert_eq!("Invalid address: ::1:65536", e.message);
}

#[test]
fn session_lifecycle() {
    let (s, a) = session_step(SessionState::Starting, SessionEvent::Constructed);
    assert_eq!(SessionState::Running, s);
    assert!(matches!(a, SessionAction::EmitConnected));
    let m = Message::Encapsulated(Encapsulated::new(7, vec![0xde, 0xad]));
    let (s, a) = session_step(s, SessionEvent::Frame(m));
    assert_eq!(SessionState::Running, s);
    match a {
        SessionAction::EmitReceived(Message::Encapsulated(e)) => {
            assert_eq!(7, e.protocol_id);
            assert_eq!(vec![0xde, 0xad], e.message);
        }
        _ => panic!("expected a received envelope"),
    }
    assert!(accepts_write(s, false));
    assert!(!accepts_write(s, true));
    let (s, a) = session_step(s, SessionEvent::DecodeError);
    assert_eq!(SessionState::Stopping, s);
    assert!(matches!(a, SessionAction::Close));
    assert!(!accepts_write(s, false));
    let (s, a) = session_step(s, SessionEvent::Frame(Message::Disconnect));
    assert_eq!(SessionState::Stopping, s);
    assert!(matches!(a, SessionAction::Nothing));
    let (s, a) = session_step(s, SessionEvent::WriterClosed);
    assert_eq!(SessionState::Terminal, s);
    assert!(matches!(a, SessionAction::EmitDisconnected));
    let (s, a) = session_step(s, SessionEvent::Constructed);
    assert_eq!(SessionState::Terminal, s);
    assert!(matches!(a, SessionAction::Nothing));
}

#[test]
fn session_stops_on_eof_and_request() {
    let (s, _) = session_step(SessionState::Running, SessionEvent::ReaderEof);
    assert_eq!(SessionState::Stopping, s);
    let (s, _) = session_step(SessionState::Running, SessionEvent::Stop);
    assert_eq!(SessionState::Stopping, s);
    let (s, _) = session_step(SessionState::Running, SessionEvent::IoError);
    assert_eq!(SessionState::Stopping, s);
    let (s, a) = session_step(SessionState::Starting, SessionEvent::Stop);
    assert_eq!(SessionState::Starting, s);
    assert!(matches!(a, SessionAction::Nothing));
}

#[test]
fn invalid_address_port_extremes() {
    let h = String::from("h");
    assert_eq!("Invalid address: h:0", invalid_address(&h, 0).message);
    assert_eq!("Invalid address: h:-9223372036854775808", invalid_address(&h, i64::MIN).message);
    assert_eq!("Invalid address: h:9223372036854775807", invalid_address(&h, i64::MAX).message);
    assert_eq!("Invalid address: h:10", invalid_address(&h, 10).message);
}
