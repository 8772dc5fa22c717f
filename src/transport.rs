//! Transport kinds, peer addresses and session keys.
pub mod error;
pub mod tcp;

use vstd::prelude::*;

verus! {

/// The transport protocols of the endpoint, with the numeric tags
/// `Unsupported = 0`, `Tcp = 6` and `Udp = 17`. The variants are declared
/// in the order of their tags, so the derived order is the order of tags.
#[derive(Copy, Clone, Debug, Hash, PartialEq, Eq, Structural, PartialOrd, Ord)]
pub enum TransportProtocol {
    Unsupported,
    Tcp,
    Udp,
}

impl TransportProtocol {
    /// The numeric tag of a protocol on the host interface.
    pub open spec fn tag(self) -> int {
        match self {
            TransportProtocol::Unsupported => 0,
            TransportProtocol::Tcp => 6,
            TransportProtocol::Udp => 17,
        }
    }

    /// The protocol that a numeric tag names; any other number is `Unsupported`.
    pub open spec fn of_tag(v: int) -> TransportProtocol {
        if v == 6 {
            TransportProtocol::Tcp
        } else if v == 17 {
            TransportProtocol::Udp
        } else {
            TransportProtocol::Unsupported
        }
    }

    /// The numeric tag, as sent to the host.
    pub fn code(self) -> (r: u16)
        ensures
            r as int == self.tag(),
    {
        match self {
            TransportProtocol::Unsupported => 0,
            TransportProtocol::Tcp => 6,
            TransportProtocol::Udp => 17,
        }
    }

    pub open spec fn spec_name(self) -> Seq<char> {
        match self {
            TransportProtocol::Unsupported => "Unsupported"@,
            TransportProtocol::Tcp => "Tcp"@,
            TransportProtocol::Udp => "Udp"@,
        }
    }

    /// The protocol's name, as it appears in messages.
    pub fn name(self) -> (r: &'static str)
        ensures
            r@ == self.spec_name(),
    {
        match self {
            TransportProtocol::Unsupported => "Unsupported",
            TransportProtocol::Tcp => "Tcp",
            TransportProtocol::Udp => "Udp",
        }
    }

    /// The protocol named by `v`.
    pub fn from_code(v: i64) -> (r: TransportProtocol)
        ensures
            r == TransportProtocol::of_tag(v as int),
    {
        if v == 6 {
            TransportProtocol::Tcp
        } else if v == 17 {
            TransportProtocol::Udp
        } else {
            TransportProtocol::Unsupported
        }
    }
}

impl From<TransportProtocol> for u16 {
    fn from(p: TransportProtocol) -> (r: u16) {
        p.code()
    }
}

impl vstd::std_specs::convert::FromSpecImpl<TransportProtocol> for u16 {
    open spec fn obeys_from_spec() -> bool {
        true
    }

    open spec fn from_spec(p: TransportProtocol) -> u16 {
        p.tag() as u16
    }
}

impl From<u16> for TransportProtocol {
    fn from(v: u16) -> (r: TransportProtocol) {
        TransportProtocol::from_code(v as i64)
    }
}

impl vstd::std_specs::convert::FromSpecImpl<u16> for TransportProtocol {
    open spec fn obeys_from_spec() -> bool {
        true
    }

    open spec fn from_spec(v: u16) -> TransportProtocol {
        TransportProtocol::of_tag(v as int)
    }
}

impl From<u32> for TransportProtocol {
    fn from(v: u32) -> (r: TransportProtocol) {
        TransportProtocol::from_code(v as i64)
    }
}

impl vstd::std_specs::convert::FromSpecImpl<u32> for TransportProtocol {
    open spec fn obeys_from_spec() -> bool {
        true
    }

    open spec fn from_spec(v: u32) -> TransportProtocol {
        TransportProtocol::of_tag(v as int)
    }
}

impl From<u64> for TransportProtocol {
    fn from(v: u64) -> (r: TransportProtocol) {
        if v == 6 {
            TransportProtocol::Tcp
        } else if v == 17 {
            TransportProtocol::Udp
        } else {
            TransportProtocol::Unsupported
        }
    }
}

impl vstd::std_specs::convert::FromSpecImpl<u64> for TransportProtocol {
    open spec fn obeys_from_spec() -> bool {
        true
    }

    open spec fn from_spec(v: u64) -> TransportProtocol {
        TransportProtocol::of_tag(v as int)
    }
}

impl From<i16> for TransportProtocol {
    fn from(v: i16) -> (r: TransportProtocol) {
        TransportProtocol::from_code(v as i64)
    }
}

impl vstd::std_specs::convert::FromSpecImpl<i16> for TransportProtocol {
    open spec fn obeys_from_spec() -> bool {
        true
    }

    open spec fn from_spec(v: i16) -> TransportProtocol {
        TransportProtocol::of_tag(v as int)
    }
}

impl From<i32> for TransportProtocol {
    fn from(v: i32) -> (r: TransportProtocol) {
        TransportProtocol::from_code(v as i64)
    }
}

impl vstd::std_specs::convert::FromSpecImpl<i32> for TransportProtocol {
    open spec fn obeys_from_spec() -> bool {
        true
    }

    open spec fn from_spec(v: i32) -> TransportProtocol {
        TransportProtocol::of_tag(v as int)
    }
}

impl From<i64> for TransportProtocol {
    fn from(v: i64) -> (r: TransportProtocol) {
        TransportProtocol::from_code(v)
    }
}

impl vstd::std_specs::convert::FromSpecImpl<i64> for TransportProtocol {
    open spec fn obeys_from_spec() -> bool {
        true
    }

    open spec fn from_spec(v: i64) -> TransportProtocol {
        TransportProtocol::of_tag(v as int)
    }
}

/// An IP address, version-agnostic: a version 4 address as its 32-bit
/// number, a version 6 address as its 128-bit number.
#[derive(Copy, Clone, Debug, Hash, PartialEq, Eq, Structural)]
pub enum IpAddress {
    V4(u32),
    V6(u128),
}

/// An IP address and a port.
#[derive(Copy, Clone, Debug, Hash, PartialEq, Eq, Structural)]
pub struct PeerAddress {
    pub ip: IpAddress,
    pub port: u16,
}

/// The key of a session: the transport and the peer's address.
#[derive(Copy, Clone, Debug, Hash, PartialEq, Eq, Structural)]
pub struct SessionKey {
    pub transport: TransportProtocol,
    pub address: PeerAddress,
}

impl SessionKey {
    pub fn new(transport: TransportProtocol, address: PeerAddress) -> (r: SessionKey)
        ensures
            r.transport == transport,
            r.address == address,
    {
        SessionKey { transport, address }
    }
}

/// A handle to one of the two transports: `T` for the stream transport,
/// `U` for the datagram transport.
pub enum Transport<T, U> {
    Tcp(T),
    Udp(U),
}

impl<T, U> Transport<T, U> {
    pub open spec fn spec_protocol(&self) -> TransportProtocol {
        match self {
            Transport::Tcp(_) => TransportProtocol::Tcp,
            Transport::Udp(_) => TransportProtocol::Udp,
        }
    }

    /// The protocol of the transport that the handle stands for.
    pub fn protocol(&self) -> (r: TransportProtocol)
        ensures
            r == self.spec_protocol(),
    {
        match self {
            Transport::Tcp(_) => TransportProtocol::Tcp,
            Transport::Udp(_) => TransportProtocol::Udp,
        }
    }
}

/// A handle to a session: `S` for a stream session; a datagram session is
/// served by the datagram transport itself, `U`.
#[derive(Clone)]
pub enum TransportSession<S, U> {
    Tcp(S),
    Udp(U),
}

impl<S, U> TransportSession<S, U> {
    pub open spec fn spec_protocol(&self) -> TransportProtocol {
        match self {
            TransportSession::Tcp(_) => TransportProtocol::Tcp,
            TransportSession::Udp(_) => TransportProtocol::Udp,
        }
    }

    /// The protocol of the session that the handle stands for.
    pub fn protocol(&self) -> (r: TransportProtocol)
        ensures
            r == self.spec_protocol(),
    {
        match self {
            TransportSession::Tcp(_) => TransportProtocol::Tcp,
            TransportSession::Udp(_) => TransportProtocol::Udp,
        }
    }
}

} // verus!
