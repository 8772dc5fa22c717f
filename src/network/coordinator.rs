//! The coordinator: the transports' handles, the session table, and the
//! decisions on each command of the host and each event of a transport.
use vstd::prelude::*;

use crate::codec::message::Message;
use crate::error::Failure;
use crate::event::Event;
use crate::network::model::{
    connect_outcome, disconnect_outcome, disconnects, send_outcome, step, stop_order, stop_outcome,
    stops_session, CoreInput, CoreModel,
};
use crate::network::session::Sessions;
use crate::transport::{PeerAddress, SessionKey, Transport, TransportProtocol, TransportSession};

verus! {

/// The coordinator, over handles of stream sessions (`S`), of the stream
/// transport (`T`) and of the datagram transport (`U`). Its handlers return
/// the events for the host; its commands return where to forward them.
pub struct NetworkCore<S, T, U> {
    sessions: Sessions<TransportSession<S, U>>,
    tcp: Option<T>,
    udp: Option<U>,
    exited: bool,
}

impl<S, T, U> View for NetworkCore<S, T, U> {
    type V = CoreModel;

    closed spec fn view(&self) -> CoreModel {
        CoreModel {
            tcp: self.tcp is Some,
            udp: self.udp is Some,
            sessions: Map::new(
                |k: SessionKey| self.sessions@.contains_key(k),
                |k: SessionKey| self.sessions@[k].spec_protocol(),
            ),
            exited: self.exited,
        }
    }
}

impl<S, T, U> NetworkCore<S, T, U> {
    pub closed spec fn wf(&self) -> bool {
        &&& self.sessions.wf()
        &&& self.exited ==> self.tcp is None && self.udp is None
    }

    /// The handle of each live session.
    pub closed spec fn session_handles(&self) -> Map<SessionKey, TransportSession<S, U>> {
        self.sessions@
    }

    pub closed spec fn stream_transport(&self) -> Option<T> {
        self.tcp
    }

    pub closed spec fn datagram_transport(&self) -> Option<U> {
        self.udp
    }

    proof fn lemma_live(&self, k: SessionKey)
        ensures
            self@.live(k) == self.session_handles().contains_key(k),
            self@.live(k) ==> self@.sessions[k] == self.session_handles()[k].spec_protocol(),
    {
    }

    /// The state links to the handles: a transport listens exactly when its
    /// handle is held, a session is live exactly when its handle is held,
    /// with the protocol of that handle, and an exited coordinator holds no
    /// transport.
    pub proof fn lemma_view_matches_handles(&self)
        requires
            self.wf(),
        ensures
            self@.tcp == self.stream_transport() is Some,
            self@.udp == self.datagram_transport() is Some,
            self@.sessions.dom() == self.session_handles().dom(),
            forall|k: SessionKey| #[trigger]
                self@.sessions.contains_key(k) ==> self@.sessions[k]
                    == self.session_handles()[k].spec_protocol(),
            self@.exited ==> !self@.tcp && !self@.udp,
    {
        assert(self@.sessions.dom() =~= self.session_handles().dom());
    }

    pub fn new() -> (r: NetworkCore<S, T, U>)
        ensures
            r.wf(),
            r@ == CoreModel::initial(),
            r.session_handles() == Map::<SessionKey, TransportSession<S, U>>::empty(),
            r.stream_transport() is None,
            r.datagram_transport() is None,
    {
        let r = NetworkCore { sessions: Sessions::new(), tcp: None, udp: None, exited: false };
        assert(r@.sessions =~= Map::<SessionKey, TransportProtocol>::empty());
        r
    }

    /// Whether the coordinator has not exited and a transport is listening.
    pub fn running(&self) -> (r: bool)
        ensures
            r == self@.running(),
    {
        !self.exited && (self.tcp.is_some() || self.udp.is_some())
    }

    /// A transport is listening: its handle is kept, and the host is told.
    pub fn on_listening(&mut self, transport: Transport<T, U>, address: PeerAddress) -> (r: Vec<
        Event,
    >)
        requires
            old(self).wf(),
        ensures
            final(self).wf(),
            (final(self)@, r@) == step(
                old(self)@,
                CoreInput::Listening(transport.spec_protocol(), address),
                seq![],
            ),
            final(self).session_handles() == old(self).session_handles(),
            !old(self)@.exited ==> match transport {
                Transport::Tcp(t) => final(self).stream_transport() == Some(t)
                    && final(self).datagram_transport() == old(self).datagram_transport(),
                Transport::Udp(u) => final(self).datagram_transport() == Some(u)
                    && final(self).stream_transport() == old(self).stream_transport(),
            },
    {
        let mut r: Vec<Event> = Vec::new();
        if self.exited {
            return r;
        }
        let protocol = transport.protocol();
        match transport {
            Transport::Tcp(t) => {
                self.tcp = Some(t);
            },
            Transport::Udp(u) => {
                self.udp = Some(u);
            },
        }
        r.push(Event::Started(protocol, address));
        assert(final(self)@.sessions =~= old(self)@.sessions);
        r
    }

    /// Whether the transport `p` is listening.
    fn listening(&self, p: TransportProtocol) -> (r: bool)
        ensures
            r == self@.listening(p),
    {
        match p {
            TransportProtocol::Tcp => self.tcp.is_some(),
            TransportProtocol::Udp => self.udp.is_some(),
            TransportProtocol::Unsupported => false,
        }
    }

    /// A session has started: on a listening transport it is stored under
    /// its key and the host is told; otherwise its handle comes back, for
    /// the session to be stopped.
    pub fn on_connected(
        &mut self,
        transport: TransportProtocol,
        address: PeerAddress,
        session: TransportSession<S, U>,
        initiator: bool,
    ) -> (r: (Vec<Event>, Option<TransportSession<S, U>>))
        requires
            old(self).wf(),
        ensures
            final(self).wf(),
            (final(self)@, r.0@) == step(
                old(self)@,
                CoreInput::Connected(
                    SessionKey { transport, address },
                    session.spec_protocol(),
                    initiator,
                ),
                seq![],
            ),
            r.1 is None <==> (!old(self)@.exited && old(self)@.listening(transport)),
            match r.1 {
                Some(s) => s == session,
                None => true,
            },
            final(self).session_handles() == if r.1 is None {
                old(self).session_handles().insert(SessionKey { transport, address }, session)
            } else {
                old(self).session_handles()
            },
            final(self).stream_transport() == old(self).stream_transport(),
            final(self).datagram_transport() == old(self).datagram_transport(),
    {
        let mut r: Vec<Event> = Vec::new();
        if self.exited || !self.listening(transport) {
            return (r, Some(session));
        }
        let ghost sort = session.spec_protocol();
        self.sessions.add(transport, address, session);
        r.push(Event::Connected(transport, address, initiator));
        assert(final(self)@.sessions =~= old(self)@.sessions.insert(
            SessionKey { transport, address },
            sort,
        ));
        (r, None)
    }

    /// An envelope has come in: an application message is passed on to the
    /// host, for a stream key only while its session is live; the second
    /// result says whether the envelope asks to end the stream session it
    /// came on.
    pub fn on_received(&self, transport: TransportProtocol, address: PeerAddress, message: Message) -> (r: (
        Vec<Event>,
        bool,
    ))
        requires
            self.wf(),
        ensures
            (self@, r.0@) == step(
                self@,
                CoreInput::Received(SessionKey { transport, address }, message),
                seq![],
            ),
            r.1 == stops_session(self@, SessionKey { transport, address }, message),
    {
        let mut r: Vec<Event> = Vec::new();
        if self.exited {
            return (r, false);
        }
        let ghost k = SessionKey { transport, address };
        proof {
            self.lemma_live(k);
        }
        let live = self.sessions.get(&transport, &address).is_some();
        match message {
            Message::Encapsulated(e) => {
                if transport == TransportProtocol::Tcp && !live {
                    return (r, false);
                }
                r.push(Event::Message(transport, address, e));
                (r, false)
            },
            Message::Disconnect => {
                let stop = match transport {
                    TransportProtocol::Tcp => match self.sessions.get(&transport, &address) {
                        Some(TransportSession::Tcp(_)) => true,
                        _ => false,
                    },
                    _ => false,
                };
                (r, stop)
            },
        }
    }

    /// A session has ended: if it was live it leaves the table and the host
    /// is told; an end for a key that is not live reports nothing.
    pub fn on_disconnected(&mut self, transport: TransportProtocol, address: PeerAddress) -> (r:
        Vec<Event>)
        requires
            old(self).wf(),
        ensures
            final(self).wf(),
            (final(self)@, r@) == step(
                old(self)@,
                CoreInput::Disconnected(SessionKey { transport, address }),
                seq![],
            ),
            final(self).session_handles() == if old(self)@.exited {
                old(self).session_handles()
            } else {
                old(self).session_handles().remove(SessionKey { transport, address })
            },
            final(self).stream_transport() == old(self).stream_transport(),
            final(self).datagram_transport() == old(self).datagram_transport(),
    {
        let mut r: Vec<Event> = Vec::new();
        if self.exited {
            return r;
        }
        match self.sessions.remove(&transport, &address) {
            Some(_) => {
                r.push(Event::Disconnected(transport, address));
                assert(final(self)@.sessions =~= old(self)@.sessions.remove(
                    SessionKey { transport, address },
                ));
            },
            None => {
                assert(final(self)@.sessions =~= old(self)@.sessions);
            },
        }
        r
    }

    /// A transport has stopped: each of its live sessions leaves the table
    /// and the host is told of its end, the sessions' keys and handles come
    /// back, in that order, for them to be stopped; then the transport's
    /// handle is dropped and the host is told; once neither transport is
    /// left, the coordinator exits.
    pub fn on_stopped(&mut self, transport: Transport<T, U>, address: PeerAddress) -> (r: (
        Vec<Event>,
        Vec<(SessionKey, TransportSession<S, U>)>,
    ))
        requires
            old(self).wf(),
        ensures
            final(self).wf(),
            (final(self)@, r.0@) == step(
                old(self)@,
                CoreInput::Stopped(transport.spec_protocol(), address),
                r.1@.map_values(|x: (SessionKey, TransportSession<S, U>)| x.0),
            ),
            !old(self)@.exited ==> stop_order(
                old(self)@,
                transport.spec_protocol(),
                r.1@.map_values(|x: (SessionKey, TransportSession<S, U>)| x.0),
            ),
            old(self)@.exited ==> r.1@.len() == 0,
            forall|i: int|
                0 <= i < r.1@.len() ==> old(self).session_handles().contains_key(
                    (#[trigger] r.1@[i]).0,
                ) && old(self).session_handles()[r.1@[i].0] == r.1@[i].1,
            final(self).session_handles() == if old(self)@.exited {
                old(self).session_handles()
            } else {
                Map::new(
                    |k: SessionKey|
                        old(self).session_handles().contains_key(k) && k.transport
                            != transport.spec_protocol(),
                    |k: SessionKey| old(self).session_handles()[k],
                )
            },
            !old(self)@.exited ==> match transport {
                Transport::Tcp(_) => final(self).stream_transport() is None
                    && final(self).datagram_transport() == old(self).datagram_transport(),
                Transport::Udp(_) => final(self).datagram_transport() is None
                    && final(self).stream_transport() == old(self).stream_transport(),
            },
    {
        let mut events: Vec<Event> = Vec::new();
        let mut ended: Vec<(SessionKey, TransportSession<S, U>)> = Vec::new();
        if self.exited {
            proof {
                assert(ended@.map_values(|x: (SessionKey, TransportSession<S, U>)| x.0) =~= seq![]);
            }
            return (events, ended);
        }
        let protocol = transport.protocol();
        let ghost before = self.sessions@;
        let mut done = false;
        while !done
            invariant
                self.sessions.wf(),
                !self.exited,
                self.tcp == old(self).tcp,
                self.udp == old(self).udp,
                protocol == transport.spec_protocol(),
                before == old(self).sessions@,
                forall|k: SessionKey|
                    #[trigger] self.sessions@.contains_key(k) <==> (before.contains_key(k)
                        && !ended@.map_values(|x: (SessionKey, TransportSession<S, U>)| x.0).contains(k)),
                forall|k: SessionKey| #[trigger]
                    self.sessions@.contains_key(k) ==> self.sessions@[k] == before[k],
                forall|i: int|
                    0 <= i < ended@.len() ==> (#[trigger] ended@[i]).0.transport == protocol
                        && before.contains_key(ended@[i].0) && before[ended@[i].0] == ended@[i].1,
                ended@.map_values(|x: (SessionKey, TransportSession<S, U>)| x.0).no_duplicates(),
                events@ == disconnects(ended@.map_values(|x: (SessionKey, TransportSession<S, U>)| x.0)),
                done ==> forall|k: SessionKey| #[trigger]
                    self.sessions@.contains_key(k) ==> k.transport != protocol,
            decreases self.sessions.size() + if done {
                0nat
            } else {
                1nat
            },
        {
            match self.sessions.find_transport(protocol) {
                None => {
                    done = true;
                },
                Some(k) => {
                    let ghost keys = ended@.map_values(|x: (SessionKey, TransportSession<S, U>)| x.0);
                    match self.sessions.remove(&k.transport, &k.address) {
                        Some(h) => {
                            ended.push((k, h));
                            events.push(Event::Disconnected(k.transport, k.address));
                            let ghost keys2 = ended@.map_values(|x: (SessionKey, TransportSession<S, U>)| x.0);
                            assert(keys2 =~= keys.push(k));
                            assert(keys2.drop_last() =~= keys);
                            assert(!keys.contains(k));
                            assert forall|j: SessionKey| #[trigger] keys2.contains(j) <==> (keys.contains(j) || j == k) by {
                                if keys2.contains(j) {
                                    let i = choose|i: int| 0 <= i < keys2.len() && keys2[i] == j;
                                    if i < keys.len() {
                                        assert(keys[i] == j);
                                    }
                                }
                                if keys.contains(j) {
                                    let i = choose|i: int| 0 <= i < keys.len() && keys[i] == j;
                                    assert(keys2[i] == j);
                                }
                                if j == k {
                                    assert(keys2[keys.len() as int] == j);
                                }
                            }
                            assert forall|a: int, b: int| 0 <= a < keys2.len() && 0 <= b < keys2.len() && a != b implies keys2[a] != keys2[b] by {
                                if a < keys.len() && b < keys.len() {
                                } else if a < keys.len() {
                                    assert(keys.contains(keys2[a]));
                                } else if b < keys.len() {
                                    assert(keys.contains(keys2[b]));
                                }
                            }
                        },
                        None => {},
                    }
                },
            }
        }
        let ghost keys = ended@.map_values(|x: (SessionKey, TransportSession<S, U>)| x.0);
        assert forall|k: SessionKey| #[trigger] keys.contains(k) <==> (before.contains_key(k) && k.transport == protocol) by {
            if keys.contains(k) {
                let i = choose|i: int| 0 <= i < keys.len() && keys[i] == k;
                assert(ended@[i].0 == k);
            }
            if before.contains_key(k) && k.transport == protocol {
                assert(!self.sessions@.contains_key(k));
            }
        }
        match transport {
            Transport::Tcp(_) => {
                self.tcp = None;
            },
            Transport::Udp(_) => {
                self.udp = None;
            },
        }
        events.push(Event::Stopped(protocol, address));
        if self.tcp.is_none() && self.udp.is_none() {
            self.exited = true;
            events.push(Event::Exiting);
        }
        assert(final(self)@.sessions =~= old(self)@.without_sessions_of(protocol).sessions);
        assert(final(self).session_handles() =~= Map::new(
            |k: SessionKey| before.contains_key(k) && k.transport != protocol,
            |k: SessionKey| before[k],
        ));
        assert forall|i: int| 0 <= i < ended@.len() implies old(self).session_handles().contains_key(
            (#[trigger] ended@[i]).0,
        ) && old(self).session_handles()[ended@[i].0] == ended@[i].1 by {}
        (events, ended)
    }

    /// Where a connect command goes: the stream transport.
    pub fn connect(&self, transport: TransportProtocol, address: PeerAddress) -> (r: Result<
        &T,
        Failure,
    >)
        ensures
            match r {
                Ok(t) => connect_outcome(self@, transport) is Ok && self.stream_transport() == Some(
                    *t,
                ),
                Err(f) => connect_outcome(self@, transport) == Err::<(), Failure>(f),
            },
    {
        match transport {
            TransportProtocol::Tcp => {
                if self.exited {
                    return Err(Failure::NotRunning);
                }
                match &self.tcp {
                    Some(t) => Ok(t),
                    None => Err(Failure::NotRunning),
                }
            },
            _ => Err(Failure::Unsupported),
        }
    }

    /// Where a disconnect command goes: the peer's stream session.
    pub fn disconnect(&self, transport: TransportProtocol, address: PeerAddress) -> (r: Result<
        &S,
        Failure,
    >)
        requires
            self.wf(),
        ensures
            match r {
                Ok(s) => disconnect_outcome(self@, SessionKey { transport, address }) is Ok
                    && self.session_handles()[SessionKey { transport, address }]
                    == TransportSession::<S, U>::Tcp(*s),
                Err(f) => disconnect_outcome(self@, SessionKey { transport, address }) == Err::<
                    (),
                    Failure,
                >(f),
            },
    {
        let ghost k = SessionKey { transport, address };
        proof {
            self.lemma_live(k);
        }
        match transport {
            TransportProtocol::Tcp => {
                if self.exited {
                    return Err(Failure::NotRunning);
                }
                match self.sessions.get(&transport, &address) {
                    None => Err(Failure::NotConnected),
                    Some(TransportSession::Tcp(s)) => Ok(s),
                    Some(TransportSession::Udp(_)) => Err(Failure::Unsupported),
                }
            },
            _ => Err(Failure::Unsupported),
        }
    }

    /// Where a send command goes: a datagram to the datagram transport, a
    /// stream envelope to the peer's session.
    pub fn send(&self, transport: TransportProtocol, address: PeerAddress) -> (r: Result<
        TransportSession<&S, &U>,
        Failure,
    >)
        requires
            self.wf(),
        ensures
            match r {
                Ok(TransportSession::Tcp(s)) => send_outcome(self@, SessionKey { transport, address })
                    is Ok && transport == TransportProtocol::Tcp && self.session_handles()[SessionKey {
                    transport,
                    address,
                }] == TransportSession::<S, U>::Tcp(*s),
                Ok(TransportSession::Udp(u)) => send_outcome(self@, SessionKey { transport, address })
                    is Ok && transport == TransportProtocol::Udp && self.datagram_transport() == Some(
                    *u,
                ),
                Err(f) => send_outcome(self@, SessionKey { transport, address }) == Err::<
                    (),
                    Failure,
                >(f),
            },
    {
        let ghost k = SessionKey { transport, address };
        proof {
            self.lemma_live(k);
        }
        match transport {
            TransportProtocol::Udp => {
                if self.exited {
                    return Err(Failure::NotRunning);
                }
                match &self.udp {
                    Some(u) => Ok(TransportSession::Udp(u)),
                    None => Err(Failure::NotRunning),
                }
            },
            TransportProtocol::Tcp => {
                if self.exited {
                    return Err(Failure::NotRunning);
                }
                match self.sessions.get(&transport, &address) {
                    None => Err(Failure::NotConnected),
                    Some(TransportSession::Tcp(s)) => Ok(TransportSession::Tcp(s)),
                    Some(TransportSession::Udp(_)) => Err(Failure::Unsupported),
                }
            },
            TransportProtocol::Unsupported => Err(Failure::Unsupported),
        }
    }

    /// Where a stop command goes: each transport that is listening.
    pub fn stop(&self) -> (r: Result<(Option<&T>, Option<&U>), Failure>)
        ensures
            match r {
                Ok((t, u)) => stop_outcome(self@) is Ok && match t {
                    Some(t) => self.stream_transport() == Some(*t),
                    None => self.stream_transport() is None,
                } && match u {
                    Some(u) => self.datagram_transport() == Some(*u),
                    None => self.datagram_transport() is None,
                },
                Err(f) => stop_outcome(self@) == Err::<(), Failure>(f),
            },
    {
        if !self.running() {
            return Err(Failure::NotRunning);
        }
        Ok((self.tcp.as_ref(), self.udp.as_ref()))
    }
}

} // verus!
