//! The events the endpoint reports to its host.
use vstd::prelude::*;

use crate::codec::message::Encapsulated;
use crate::error::Error;
use crate::transport::{PeerAddress, TransportProtocol};

verus! {

#[derive(Debug)]
pub enum Event {
    Exiting,
    Started(TransportProtocol, PeerAddress),
    Stopped(TransportProtocol, PeerAddress),
    Connected(TransportProtocol, PeerAddress, bool),
    Disconnected(TransportProtocol, PeerAddress),
    Message(TransportProtocol, PeerAddress, Encapsulated),
    Error(Error),
}

impl Event {
    /// The numeric tag that leads the event's tuple on the host interface.
    pub open spec fn tag(&self) -> int {
        match self {
            Event::Exiting => 0,
            Event::Started(..) => 1,
            Event::Stopped(..) => 2,
            Event::Connected(..) => 100,
            Event::Disconnected(..) => 101,
            Event::Message(..) => 102,
            Event::Error(_) => 200,
        }
    }

    pub fn code(&self) -> (r: u8)
        ensures
            r as int == self.tag(),
    {
        match self {
            Event::Exiting => 0,
            Event::Started(..) => 1,
            Event::Stopped(..) => 2,
            Event::Connected(..) => 100,
            Event::Disconnected(..) => 101,
            Event::Message(..) => 102,
            Event::Error(_) => 200,
        }
    }
}

} // verus!
