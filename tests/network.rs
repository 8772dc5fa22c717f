use net::codec::message::{Encapsulated, Message};
use net::error::Failure;
use net::event::Event;
use net::network::coordinator::NetworkCore;
use net::network::session::Sessions;
use net::transport::{IpAddress, PeerAddress, Transport, TransportProtocol, TransportSession};

const LOCALHOST: u32 = 0x7f00_0001;

fn addr(port: u16) -> PeerAddress {
    PeerAddress { ip: IpAddress::V4(LOCALHOST), port }
}

type Core = NetworkCore<&'static str, &'static str, &'static str>;

fn listening_core(port: u16) -> Core {
    let mut core: Core = NetworkCore::new();
    core.on_listening(Transport::Tcp("tcp"), addr(port));
    core.on_listening(Transport::Udp("udp"), addr(port));
    core
}

#[test]
fn bind_and_start_reports_both_transports() {
    let mut core: Core = NetworkCore::new();
    assert!(!core.running());
    let e1 = core.on_listening(Transport::Tcp("tcp"), addr(5000));
    let e2 = core.on_listening(Transport::Udp("udp"), addr(5000));
    assert_eq!(1, e1.len());
    assert_eq!(1, e2.len());
    match (&e1[0], &e2[0]) {
        (Event::Started(p1, a1), Event::Started(p2, a2)) => {
            assert_eq!(6, p1.code());
            assert_eq!(17, p2.code());
            assert_eq!(addr(5000), *a1);
            assert_eq!(a1, a2);
        }
        _ => panic!("expected two Started events"),
    }
    assert!(core.running());
}

#[test]
fn datagram_connect_is_unsupported() {
    let core = listening_core(5000);
    assert_eq!(Err(Failure::Unsupported), core.connect(TransportProtocol::Udp, addr(6000)));
    assert_eq!(Err(Failure::Unsupported), core.connect(TransportProtocol::Unsupported, addr(6000)));
    assert_eq!(Ok(&"tcp"), core.connect(TransportProtocol::Tcp, addr(6000)));
    assert_eq!(Err(Failure::Unsupported), core.disconnect(TransportProtocol::Udp, addr(6000)));
}

#[test]
fn connect_without_stream_transport_is_not_running() {
    let core: Core = NetworkCore::new();
    assert_eq!(Err(Failure::NotRunning), core.connect(TransportProtocol::Tcp, addr(6000)));
    assert_eq!(Err(Failure::NotRunning), core.stop().map(|_| ()));
}

#[test]
fn stream_session_lifecycle() {
    let mut core = listening_core(5000);
    let peer = addr(6001);
    assert_eq!(Err(Failure::NotConnected), core.send(TransportProtocol::Tcp, peer).map(|_| ()));
    assert_eq!(Err(Failure::NotConnected), core.disconnect(TransportProtocol::Tcp, peer));

    let (ev, rejected) = core.on_connected(TransportProtocol::Tcp, peer, TransportSession::Tcp("s1"), false);
    assert!(rejected.is_none());
    assert_eq!(1, ev.len());
    assert!(matches!(ev[0], Event::Connected(TransportProtocol::Tcp, a, false) if a == peer));

    match core.send(TransportProtocol::Tcp, peer) {
        Ok(TransportSession::Tcp(s)) => assert_eq!("s1", *s),
        _ => panic!("expected the stream session"),
    }

    let msg = Message::Encapsulated(Encapsulated::new(7, vec![0xde, 0xad]));
    let (ev, stop) = core.on_received(TransportProtocol::Tcp, peer, msg);
    assert!(!stop);
    assert_eq!(1, ev.len());
    match &ev[0] {
        Event::Message(TransportProtocol::Tcp, a, e) => {
            assert_eq!(peer, *a);
            assert_eq!(7, e.protocol_id);
            assert_eq!(vec![0xde, 0xad], e.message);
        }
        _ => panic!("expected a Message event"),
    }

    assert_eq!(Ok(&"s1"), core.disconnect(TransportProtocol::Tcp, peer));
    let ev = core.on_disconnected(TransportProtocol::Tcp, peer);
    assert_eq!(1, ev.len());
    assert!(matches!(ev[0], Event::Disconnected(TransportProtocol::Tcp, a) if a == peer));
    assert_eq!(Err(Failure::NotConnected), core.disconnect(TransportProtocol::Tcp, peer));
    assert!(core.on_disconnected(TransportProtocol::Tcp, peer).is_empty());
    let late = Message::Encapsulated(Encapsulated::new(7, vec![1]));
    let (ev, _) = core.on_received(TransportProtocol::Tcp, peer, late);
    assert!(ev.is_empty());
}

#[test]
fn datagram_send_needs_no_session() {
    let mut core = listening_core(5000);
    match core.send(TransportProtocol::Udp, addr(7000)) {
        Ok(TransportSession::Udp(u)) => assert_eq!("udp", *u),
        _ => panic!("expected the datagram transport"),
    }
    let msg = Message::Encapsulated(Encapsulated::new(9, vec![0x01]));
    let (ev, stop) = core.on_received(TransportProtocol::Udp, addr(7000), msg);
    assert!(!stop);
    assert_eq!(1, ev.len());
    assert!(matches!(ev[0], Event::Message(TransportProtocol::Udp, _, _)));
    let (ev, ended) = core.on_stopped(Transport::Udp("udp"), addr(5000));
    assert_eq!(1, ev.len());
    assert!(ended.is_empty());
    assert_eq!(Err(Failure::NotRunning), core.send(TransportProtocol::Udp, addr(7000)).map(|_| ()));
}

#[test]
fn in_band_disconnect_stops_live_stream_session() {
    let mut core = listening_core(5000);
    let peer = addr(6002);
    let (ev, stop) = core.on_received(TransportProtocol::Tcp, peer, Message::Disconnect);
    assert!(ev.is_empty());
    assert!(!stop);
    let _ = core.on_connected(TransportProtocol::Tcp, peer, TransportSession::Tcp("s2"), true);
    let (ev, stop) = core.on_received(TransportProtocol::Tcp, peer, Message::Disconnect);
    assert!(ev.is_empty());
    assert!(stop);
}

#[test]
fn stopping_both_transports_exits() {
    let mut core = listening_core(5000);
    match core.stop() {
        Ok((Some(t), Some(u))) => {
            assert_eq!("tcp", *t);
            assert_eq!("udp", *u);
        }
        _ => panic!("expected both transports"),
    }
    let (ev, _) = core.on_stopped(Transport::Tcp("tcp"), addr(5000));
    assert_eq!(1, ev.len());
    assert!(matches!(ev[0], Event::Stopped(TransportProtocol::Tcp, _)));
    assert!(core.running());
    let (ev, _) = core.on_stopped(Transport::Udp("udp"), addr(5000));
    assert_eq!(2, ev.len());
    assert!(matches!(ev[0], Event::Stopped(TransportProtocol::Udp, _)));
    assert!(matches!(ev[1], Event::Exiting));
    assert!(!core.running());
    assert!(core.on_listening(Transport::Tcp("tcp"), addr(5000)).is_empty());
    assert_eq!(Err(Failure::NotRunning), core.stop().map(|_| ()));
}

#[test]
fn session_table_add_get_remove() {
    let mut table: Sessions<u32> = Sessions::new();
    let a = addr(1);
    assert_eq!(None, table.get(&TransportProtocol::Tcp, &a));
    table.add(TransportProtocol::Tcp, a, 10);
    table.add(TransportProtocol::Udp, a, 20);
    assert_eq!(Some(&10), table.get(&TransportProtocol::Tcp, &a));
    table.add(TransportProtocol::Tcp, a, 11);
    assert_eq!(Some(&11), table.get(&TransportProtocol::Tcp, &a));
    assert_eq!(Some(11), table.remove(&TransportProtocol::Tcp, &a));
    assert_eq!(None, table.remove(&TransportProtocol::Tcp, &a));
    assert_eq!(Some(&20), table.get(&TransportProtocol::Udp, &a));
}

#[test]
fn stray_disconnect_reports_nothing() {
    let mut core = listening_core(5000);
    assert!(core.on_disconnected(TransportProtocol::Tcp, addr(6100)).is_empty());
}

#[test]
fn stopping_a_transport_ends_its_sessions_first() {
    let mut core = listening_core(5000);
    let _ = core.on_connected(TransportProtocol::Tcp, addr(6201), TransportSession::Tcp("a"), false);
    let _ = core.on_connected(TransportProtocol::Tcp, addr(6202), TransportSession::Tcp("b"), true);
    let (ev, ended) = core.on_stopped(Transport::Tcp("tcp"), addr(5000));
    assert_eq!(3, ev.len());
    assert_eq!(2, ended.len());
    for (i, (key, handle)) in ended.iter().enumerate() {
        assert_eq!(TransportProtocol::Tcp, key.transport);
        match &ev[i] {
            Event::Disconnected(TransportProtocol::Tcp, a) => assert_eq!(key.address, *a),
            _ => panic!("expected a Disconnected event"),
        }
        match handle {
            TransportSession::Tcp(h) => {
                let expected = if key.address == addr(6201) { "a" } else { "b" };
                assert_eq!(expected, *h);
            }
            _ => panic!("expected a stream session"),
        }
    }
    assert!(matches!(ev[2], Event::Stopped(TransportProtocol::Tcp, _)));
    assert_eq!(Err(Failure::NotConnected), core.disconnect(TransportProtocol::Tcp, addr(6201)));
    assert!(core.on_disconnected(TransportProtocol::Tcp, addr(6201)).is_empty());
}

#[test]
fn session_without_listening_transport_is_refused() {
    let mut core: Core = NetworkCore::new();
    core.on_listening(Transport::Udp("udp"), addr(5000));
    let (ev, rejected) = core.on_connected(TransportProtocol::Tcp, addr(6300), TransportSession::Tcp("s"), true);
    assert!(ev.is_empty());
    assert!(matches!(rejected, Some(TransportSession::Tcp("s"))));
    assert_eq!(Err(Failure::NotConnected), core.disconnect(TransportProtocol::Tcp, addr(6300)));
}
