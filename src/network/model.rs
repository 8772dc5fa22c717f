//! The coordinator as a state machine: its state, the events it handles,
//! what it reports to the host, and what holds of every run in which
//! sessions start only for keys that are not live.
use vstd::prelude::*;

use crate::codec::message::Message;
use crate::error::Failure;
use crate::event::Event;
use crate::transport::{PeerAddress, SessionKey, TransportProtocol};

verus! {

/// The coordinator's state: which transports are listening, the live
/// sessions with the protocol of their handle, and whether it has exited.
pub struct CoreModel {
    pub tcp: bool,
    pub udp: bool,
    pub sessions: Map<SessionKey, TransportProtocol>,
    pub exited: bool,
}

/// The events the coordinator handles.
pub enum CoreInput {
    /// A transport is bound and listening on an address.
    Listening(TransportProtocol, PeerAddress),
    /// A session for a key has started, with the protocol of its handle,
    /// and whether the local side initiated it.
    Connected(SessionKey, TransportProtocol, bool),
    /// An envelope has come in from a peer.
    Received(SessionKey, Message),
    /// A session has ended.
    Disconnected(SessionKey),
    /// A transport has stopped.
    Stopped(TransportProtocol, PeerAddress),
}

impl CoreModel {
    pub open spec fn initial() -> CoreModel {
        CoreModel { tcp: false, udp: false, sessions: Map::empty(), exited: false }
    }

    pub open spec fn listening(self, p: TransportProtocol) -> bool {
        (p == TransportProtocol::Tcp && self.tcp) || (p == TransportProtocol::Udp && self.udp)
    }

    pub open spec fn live(self, k: SessionKey) -> bool {
        self.sessions.contains_key(k)
    }

    pub open spec fn with_transport(self, p: TransportProtocol, on: bool) -> CoreModel {
        CoreModel {
            tcp: if p == TransportProtocol::Tcp {
                on
            } else {
                self.tcp
            },
            udp: if p == TransportProtocol::Udp {
                on
            } else {
                self.udp
            },
            sessions: self.sessions,
            exited: self.exited,
        }
    }

    pub open spec fn running(self) -> bool {
        !self.exited && (self.tcp || self.udp)
    }
}

/// The `Disconnected` events of a sequence of keys, in order.
pub open spec fn disconnects(ks: Seq<SessionKey>) -> Seq<Event>
    decreases ks.len(),
{
    if ks.len() == 0 {
        seq![]
    } else {
        disconnects(ks.drop_last()) + seq![Event::Disconnected(ks.last().transport, ks.last().address)]
    }
}

/// Whether `ks` lists each live session of transport `p` once, and nothing
/// else: an order in which the coordinator may end them.
pub open spec fn stop_order(m: CoreModel, p: TransportProtocol, ks: Seq<SessionKey>) -> bool {
    &&& ks.no_duplicates()
    &&& forall|k: SessionKey| #[trigger] ks.contains(k) <==> (m.live(k) && k.transport == p)
}

impl CoreModel {
    /// The state without the sessions of transport `p`.
    pub open spec fn without_sessions_of(self, p: TransportProtocol) -> CoreModel {
        CoreModel {
            tcp: self.tcp,
            udp: self.udp,
            sessions: Map::new(
                |k: SessionKey| self.sessions.contains_key(k) && k.transport != p,
                |k: SessionKey| self.sessions[k],
            ),
            exited: self.exited,
        }
    }
}

/// The next state and the events reported to the host, on one event; `order`
/// is the order in which a stopping transport's sessions are ended, and
/// matters for `Stopped` alone. Once the coordinator has exited it handles
/// nothing. A session is taken only on a listening transport; an end or a
/// stream envelope for a key that is not live reports nothing; a transport
/// that stops ends its sessions first.
pub open spec fn step(m: CoreModel, i: CoreInput, order: Seq<SessionKey>) -> (CoreModel, Seq<Event>) {
    if m.exited {
        (m, seq![])
    } else {
        match i {
            CoreInput::Listening(p, a) => (m.with_transport(p, true), seq![Event::Started(p, a)]),
            CoreInput::Connected(k, sort, initiator) => if m.listening(k.transport) {
                (
                    CoreModel {
                        tcp: m.tcp,
                        udp: m.udp,
                        sessions: m.sessions.insert(k, sort),
                        exited: m.exited,
                    },
                    seq![Event::Connected(k.transport, k.address, initiator)],
                )
            } else {
                (m, seq![])
            },
            CoreInput::Received(k, msg) => (
                m,
                match msg {
                    Message::Encapsulated(e) => if k.transport == TransportProtocol::Tcp && !m.live(
                        k,
                    ) {
                        seq![]
                    } else {
                        seq![Event::Message(k.transport, k.address, e)]
                    },
                    Message::Disconnect => seq![],
                },
            ),
            CoreInput::Disconnected(k) => if m.live(k) {
                (
                    CoreModel {
                        tcp: m.tcp,
                        udp: m.udp,
                        sessions: m.sessions.remove(k),
                        exited: m.exited,
                    },
                    seq![Event::Disconnected(k.transport, k.address)],
                )
            } else {
                (m, seq![])
            },
            CoreInput::Stopped(p, a) => {
                let n = m.without_sessions_of(p).with_transport(p, false);
                let e = disconnects(order) + seq![Event::Stopped(p, a)];
                if !n.tcp && !n.udp {
                    (
                        CoreModel { tcp: n.tcp, udp: n.udp, sessions: n.sessions, exited: true },
                        e + seq![Event::Exiting],
                    )
                } else {
                    (n, e)
                }
            },
        }
    }
}

/// Whether an incoming envelope asks to end the stream session it came on:
/// a `Disconnect` envelope on a live stream session.
pub open spec fn stops_session(m: CoreModel, k: SessionKey, msg: Message) -> bool {
    &&& !m.exited
    &&& msg is Disconnect
    &&& k.transport == TransportProtocol::Tcp
    &&& m.live(k)
    &&& m.sessions[k] == TransportProtocol::Tcp
}

/// The outcome of a connect command.
pub open spec fn connect_outcome(m: CoreModel, p: TransportProtocol) -> Result<(), Failure> {
    if p != TransportProtocol::Tcp {
        Err(Failure::Unsupported)
    } else if m.exited || !m.tcp {
        Err(Failure::NotRunning)
    } else {
        Ok(())
    }
}

/// The outcome of a disconnect command.
pub open spec fn disconnect_outcome(m: CoreModel, k: SessionKey) -> Result<(), Failure> {
    if k.transport != TransportProtocol::Tcp {
        Err(Failure::Unsupported)
    } else if m.exited {
        Err(Failure::NotRunning)
    } else if !m.live(k) {
        Err(Failure::NotConnected)
    } else if m.sessions[k] != TransportProtocol::Tcp {
        Err(Failure::Unsupported)
    } else {
        Ok(())
    }
}

/// The outcome of a send command: datagrams go to the datagram transport
/// whatever the state of the peer, stream envelopes to the peer's session.
pub open spec fn send_outcome(m: CoreModel, k: SessionKey) -> Result<(), Failure> {
    if k.transport == TransportProtocol::Udp {
        if m.exited || !m.udp {
            Err(Failure::NotRunning)
        } else {
            Ok(())
        }
    } else if k.transport != TransportProtocol::Tcp {
        Err(Failure::Unsupported)
    } else if m.exited {
        Err(Failure::NotRunning)
    } else if !m.live(k) {
        Err(Failure::NotConnected)
    } else if m.sessions[k] != TransportProtocol::Tcp {
        Err(Failure::Unsupported)
    } else {
        Ok(())
    }
}

/// The outcome of a stop command.
pub open spec fn stop_outcome(m: CoreModel) -> Result<(), Failure> {
    if m.running() {
        Ok(())
    } else {
        Err(Failure::NotRunning)
    }
}

/// The state after a run of events from the start, and all it reported;
/// `orders[i]` is the order in which the `i`-th event ends sessions.
pub open spec fn run(inputs: Seq<CoreInput>, orders: Seq<Seq<SessionKey>>) -> (CoreModel, Seq<Event>)
    decreases inputs.len(),
{
    if inputs.len() == 0 {
        (CoreModel::initial(), seq![])
    } else {
        let (m, out) = run(inputs.drop_last(), orders.drop_last());
        let (n, e) = step(m, inputs.last(), orders.last());
        (n, out + e)
    }
}

/// Whether each session starts for a key that is not live at that point.
pub open spec fn connects_fresh(inputs: Seq<CoreInput>, orders: Seq<Seq<SessionKey>>) -> bool
    decreases inputs.len(),
{
    if inputs.len() == 0 {
        true
    } else {
        &&& connects_fresh(inputs.drop_last(), orders.drop_last())
        &&& match inputs.last() {
            CoreInput::Connected(k, _, _) => !run(inputs.drop_last(), orders.drop_last()).0.live(k),
            _ => true,
        }
    }
}

/// Whether each stopping transport's sessions are ended in an order that
/// lists each once, as `NetworkCore::on_stopped` guarantees.
pub open spec fn orders_follow(inputs: Seq<CoreInput>, orders: Seq<Seq<SessionKey>>) -> bool
    decreases inputs.len(),
{
    if inputs.len() == 0 {
        orders.len() == 0
    } else {
        &&& orders.len() == inputs.len()
        &&& orders_follow(inputs.drop_last(), orders.drop_last())
        &&& match inputs.last() {
            CoreInput::Stopped(p, _) => stop_order(
                run(inputs.drop_last(), orders.drop_last()).0,
                p,
                orders.last(),
            ),
            _ => true,
        }
    }
}

pub open spec fn is_connected_for(e: Event, k: SessionKey) -> bool {
    match e {
        Event::Connected(p, a, _) => p == k.transport && a == k.address,
        _ => false,
    }
}

pub open spec fn is_disconnected_for(e: Event, k: SessionKey) -> bool {
    match e {
        Event::Disconnected(p, a) => p == k.transport && a == k.address,
        _ => false,
    }
}

pub open spec fn is_message_for(e: Event, k: SessionKey) -> bool {
    match e {
        Event::Message(p, a, _) => p == k.transport && a == k.address,
        _ => false,
    }
}

/// How many `Connected` events for `k` a sequence of events holds.
pub open spec fn count_connected(s: Seq<Event>, k: SessionKey) -> nat
    decreases s.len(),
{
    if s.len() == 0 {
        0
    } else {
        count_connected(s.drop_last(), k) + if is_connected_for(s.last(), k) {
            1nat
        } else {
            0nat
        }
    }
}

/// How many `Disconnected` events for `k` a sequence of events holds.
pub open spec fn count_disconnected(s: Seq<Event>, k: SessionKey) -> nat
    decreases s.len(),
{
    if s.len() == 0 {
        0
    } else {
        count_disconnected(s.drop_last(), k) + if is_disconnected_for(s.last(), k) {
            1nat
        } else {
            0nat
        }
    }
}

/// One event read by the automaton of a key's session lifetimes, from the
/// state `up` (a session for the key is open): `Connected` opens one,
/// `Message` needs one open, `Disconnected` closes one. `None` on a
/// violation.
pub open spec fn advance(up: bool, e: Event, k: SessionKey) -> Option<bool> {
    if is_connected_for(e, k) {
        if up {
            None
        } else {
            Some(true)
        }
    } else if is_message_for(e, k) {
        if up {
            Some(true)
        } else {
            None
        }
    } else if is_disconnected_for(e, k) {
        if up {
            Some(false)
        } else {
            None
        }
    } else {
        Some(up)
    }
}

/// The automaton's state after a sequence of events, or `None` if the
/// events for `k`, taken apart from the others, do not match
/// `(Connected Message* Disconnected)* (Connected Message*)?`.
pub open spec fn track(s: Seq<Event>, k: SessionKey) -> Option<bool>
    decreases s.len(),
{
    if s.len() == 0 {
        Some(false)
    } else {
        match track(s.drop_last(), k) {
            None => None,
            Some(up) => advance(up, s.last(), k),
        }
    }
}

pub open spec fn balanced(m: CoreModel, out: Seq<Event>) -> bool {
    forall|k: SessionKey|
        #[trigger] count_connected(out, k) == count_disconnected(out, k) + if m.live(k) {
            1nat
        } else {
            0nat
        }
}

pub open spec fn sessions_have_transport(m: CoreModel) -> bool {
    forall|k: SessionKey| #[trigger] m.live(k) ==> m.listening(k.transport)
}

pub open spec fn ordered(m: CoreModel, out: Seq<Event>) -> bool {
    forall|k: SessionKey|
        k.transport == TransportProtocol::Tcp ==> #[trigger] track(out, k) == Some(m.live(k))
}

proof fn lemma_push_one(out: Seq<Event>, x: Event)
    ensures
        (out + seq![x]).len() > 0,
        (out + seq![x]).drop_last() == out,
        (out + seq![x]).last() == x,
{
    assert((out + seq![x]).drop_last() =~= out);
}

/// Appending the `Disconnected` events of distinct keys adds one such event
/// for each listed key, and closes its session in the automaton.
proof fn lemma_disconnects(out: Seq<Event>, ks: Seq<SessionKey>, k: SessionKey)
    requires
        ks.no_duplicates(),
    ensures
        count_connected(out + disconnects(ks), k) == count_connected(out, k),
        count_disconnected(out + disconnects(ks), k) == count_disconnected(out, k) + if ks.contains(
            k,
        ) {
            1nat
        } else {
            0nat
        },
        track(out + disconnects(ks), k) == if ks.contains(k) {
            if track(out, k) == Some(true) {
                Some(false)
            } else {
                None
            }
        } else {
            track(out, k)
        },
    decreases ks.len(),
{
    if ks.len() == 0 {
        assert(out + disconnects(ks) =~= out);
    } else {
        let ks2 = ks.drop_last();
        let x = ks.last();
        assert(ks2.no_duplicates()) by {
            assert forall|i: int, j: int| 0 <= i < ks2.len() && 0 <= j < ks2.len() && i != j implies ks2[i] != ks2[j] by {
                assert(ks2[i] == ks[i] && ks2[j] == ks[j]);
            }
        }
        lemma_disconnects(out, ks2, k);
        let d = Event::Disconnected(x.transport, x.address);
        assert(out + disconnects(ks) =~= (out + disconnects(ks2)) + seq![d]);
        lemma_push_one(out + disconnects(ks2), d);
        assert(ks.contains(k) == (ks2.contains(k) || x == k)) by {
            if ks.contains(k) {
                let i = choose|i: int| 0 <= i < ks.len() && ks[i] == k;
                if i < ks.len() - 1 {
                    assert(ks2[i] == k);
                }
            }
            if ks2.contains(k) {
                let i = choose|i: int| 0 <= i < ks2.len() && ks2[i] == k;
                assert(ks[i] == k);
            }
            if x == k {
                assert(ks[ks.len() - 1] == k);
            }
        }
        if x == k {
            assert(!ks2.contains(k)) by {
                if ks2.contains(k) {
                    let i = choose|i: int| 0 <= i < ks2.len() && ks2[i] == k;
                    assert(ks[i] == ks[ks.len() - 1]);
                }
            }
        }
    }
}

proof fn lemma_step_keeps(m: CoreModel, out: Seq<Event>, i: CoreInput, order: Seq<SessionKey>)
    requires
        balanced(m, out),
        sessions_have_transport(m),
        ordered(m, out),
        match i {
            CoreInput::Connected(k, _, _) => !m.live(k),
            CoreInput::Stopped(p, _) => stop_order(m, p, order),
            _ => true,
        },
    ensures
        balanced(step(m, i, order).0, out + step(m, i, order).1),
        sessions_have_transport(step(m, i, order).0),
        ordered(step(m, i, order).0, out + step(m, i, order).1),
{
    let (n, e) = step(m, i, order);
    if m.exited || e.len() == 0 {
        assert(out + e =~= out);
        if !m.exited {
            match i {
                CoreInput::Listening(_, _) => {},
                CoreInput::Stopped(_, _) => {},
                _ => {
                    assert(n == m);
                },
            }
        }
    } else {
        match i {
            CoreInput::Listening(p, a) => {
                lemma_push_one(out, Event::Started(p, a));
                assert forall|k: SessionKey| #[trigger] n.live(k) implies n.listening(k.transport) by {
                    assert(m.live(k));
                }
                assert forall|k: SessionKey| #[trigger] count_connected(out + e, k) == count_disconnected(out + e, k) + if n.live(k) { 1nat } else { 0nat } by {
                    assert(count_connected(out, k) == count_disconnected(out, k) + if m.live(k) { 1nat } else { 0nat });
                }
                assert forall|k: SessionKey| k.transport == TransportProtocol::Tcp implies #[trigger] track(out + e, k) == Some(n.live(k)) by {
                    assert(track(out, k) == Some(m.live(k)));
                }
            },
            CoreInput::Connected(key, sort, initiator) => {
                lemma_push_one(out, Event::Connected(key.transport, key.address, initiator));
                assert forall|k: SessionKey| #[trigger] count_connected(out + e, k) == count_disconnected(out + e, k) + if n.live(k) { 1nat } else { 0nat } by {
                    assert(count_connected(out, k) == count_disconnected(out, k) + if m.live(k) { 1nat } else { 0nat });
                }
                assert forall|k: SessionKey| k.transport == TransportProtocol::Tcp implies #[trigger] track(out + e, k) == Some(n.live(k)) by {
                    assert(track(out, k) == Some(m.live(k)));
                }
                assert forall|k: SessionKey| #[trigger] n.live(k) implies n.listening(k.transport) by {
                    if k != key {
                        assert(m.live(k));
                    }
                }
            },
            CoreInput::Received(key, msg) => {
                match msg {
                    Message::Encapsulated(en) => {
                        lemma_push_one(out, Event::Message(key.transport, key.address, en));
                        assert forall|k: SessionKey| #[trigger] count_connected(out + e, k) == count_disconnected(out + e, k) + if n.live(k) { 1nat } else { 0nat } by {
                            assert(count_connected(out, k) == count_disconnected(out, k) + if m.live(k) { 1nat } else { 0nat });
                        }
                        assert forall|k: SessionKey| k.transport == TransportProtocol::Tcp implies #[trigger] track(out + e, k) == Some(n.live(k)) by {
                            assert(track(out, k) == Some(m.live(k)));
                        }
                    },
                    Message::Disconnect => {},
                }
            },
            CoreInput::Disconnected(key) => {
                lemma_push_one(out, Event::Disconnected(key.transport, key.address));
                assert forall|k: SessionKey| #[trigger] count_connected(out + e, k) == count_disconnected(out + e, k) + if n.live(k) { 1nat } else { 0nat } by {
                    assert(count_connected(out, k) == count_disconnected(out, k) + if m.live(k) { 1nat } else { 0nat });
                }
                assert forall|k: SessionKey| k.transport == TransportProtocol::Tcp implies #[trigger] track(out + e, k) == Some(n.live(k)) by {
                    assert(track(out, k) == Some(m.live(k)));
                }
                assert forall|k: SessionKey| #[trigger] n.live(k) implies n.listening(k.transport) by {
                    assert(m.live(k));
                }
            },
            CoreInput::Stopped(p, a) => {
                let s = Event::Stopped(p, a);
                let mid = out + disconnects(order);
                lemma_push_one(mid, s);
                lemma_push_one(mid + seq![s], Event::Exiting);
                if e.len() == disconnects(order).len() + 2 {
                    assert(out + e =~= (mid + seq![s]) + seq![Event::Exiting]);
                } else {
                    assert(out + e =~= mid + seq![s]);
                }
                let one = mid + seq![s];
                let two = one + seq![Event::Exiting];
                assert forall|k: SessionKey| #[trigger] n.live(k) == (m.live(k) && k.transport != p) by {}
                assert forall|k: SessionKey| #[trigger] count_connected(out + e, k) == count_disconnected(out + e, k) + if n.live(k) { 1nat } else { 0nat } by {
                    assert(count_connected(out, k) == count_disconnected(out, k) + if m.live(k) { 1nat } else { 0nat });
                    lemma_disconnects(out, order, k);
                    assert(order.contains(k) <==> (m.live(k) && k.transport == p));
                    assert(count_connected(one, k) == count_connected(mid, k));
                    assert(count_disconnected(one, k) == count_disconnected(mid, k));
                    assert(count_connected(two, k) == count_connected(one, k));
                    assert(count_disconnected(two, k) == count_disconnected(one, k));
                    assert(n.live(k) == (m.live(k) && k.transport != p));
                }
                assert forall|k: SessionKey| k.transport == TransportProtocol::Tcp implies #[trigger] track(out + e, k) == Some(n.live(k)) by {
                    assert(track(out, k) == Some(m.live(k)));
                    lemma_disconnects(out, order, k);
                    assert(order.contains(k) <==> (m.live(k) && k.transport == p));
                    assert(track(one, k) == track(mid, k));
                    assert(track(two, k) == track(one, k));
                    assert(n.live(k) == (m.live(k) && k.transport != p));
                }
                assert forall|k: SessionKey| #[trigger] n.live(k) implies n.listening(k.transport) by {
                    assert(m.live(k));
                    assert(m.listening(k.transport));
                    assert(k.transport != p);
                }
            },
        }
    }
}

proof fn lemma_run_keeps(inputs: Seq<CoreInput>, orders: Seq<Seq<SessionKey>>)
    requires
        connects_fresh(inputs, orders),
        orders_follow(inputs, orders),
    ensures
        balanced(run(inputs, orders).0, run(inputs, orders).1),
        sessions_have_transport(run(inputs, orders).0),
        ordered(run(inputs, orders).0, run(inputs, orders).1),
    decreases inputs.len(),
{
    if inputs.len() > 0 {
        lemma_run_keeps(inputs.drop_last(), orders.drop_last());
        let (m, out) = run(inputs.drop_last(), orders.drop_last());
        lemma_step_keeps(m, out, inputs.last(), orders.last());
    }
}

/// In every run in which sessions start only for keys that are not live,
/// the host has been told of as many sessions starting for a key as ending,
/// plus one while a session for that key is live.
pub proof fn lemma_connected_balance(
    inputs: Seq<CoreInput>,
    orders: Seq<Seq<SessionKey>>,
    k: SessionKey,
)
    requires
        connects_fresh(inputs, orders),
        orders_follow(inputs, orders),
    ensures
        count_connected(run(inputs, orders).1, k) == count_disconnected(run(inputs, orders).1, k)
            + if run(inputs, orders).0.live(k) {
            1nat
        } else {
            0nat
        },
{
    lemma_run_keeps(inputs, orders);
}

/// In every run in which sessions start only for keys that are not live,
/// each live session's transport is listening.
pub proof fn lemma_sessions_have_transport(
    inputs: Seq<CoreInput>,
    orders: Seq<Seq<SessionKey>>,
    k: SessionKey,
)
    requires
        connects_fresh(inputs, orders),
        orders_follow(inputs, orders),
        run(inputs, orders).0.live(k),
    ensures
        run(inputs, orders).0.listening(k.transport),
{
    lemma_run_keeps(inputs, orders);
}

/// In every run in which sessions start only for keys that are not live,
/// the events reported for a stream key follow its session lifetimes:
/// `Connected`, then its `Message` events, then `Disconnected`, again for
/// each later session; the automaton ends open exactly while a session is
/// live.
pub proof fn lemma_session_event_order(
    inputs: Seq<CoreInput>,
    orders: Seq<Seq<SessionKey>>,
    k: SessionKey,
)
    requires
        connects_fresh(inputs, orders),
        orders_follow(inputs, orders),
        k.transport == TransportProtocol::Tcp,
    ensures
        track(run(inputs, orders).1, k) == Some(run(inputs, orders).0.live(k)),
{
    lemma_run_keeps(inputs, orders);
}


} // verus!
