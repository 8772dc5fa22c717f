//! The application-level envelope.
use vstd::prelude::*;

verus! {

/// An application message, tagged with a protocol identifier chosen by the host.
#[derive(Clone, Debug)]
pub struct Encapsulated {
    pub protocol_id: u16,
    pub message: Vec<u8>,
}

/// The envelope carried by both transports.
#[derive(Clone, Debug)]
pub enum Message {
    Encapsulated(Encapsulated),
    Disconnect,
}

/// What an envelope holds, as mathematical values.
pub enum MessageView {
    Encapsulated { protocol_id: u16, payload: Seq<u8> },
    Disconnect,
}

impl View for Message {
    type V = MessageView;

    open spec fn view(&self) -> MessageView {
        match self {
            Message::Encapsulated(e) => MessageView::Encapsulated {
                protocol_id: e.protocol_id,
                payload: e.message@,
            },
            Message::Disconnect => MessageView::Disconnect,
        }
    }
}

impl Encapsulated {
    pub fn new(protocol_id: u16, message: Vec<u8>) -> (r: Encapsulated)
        ensures
            r.protocol_id == protocol_id,
            r.message@ == message@,
    {
        Encapsulated { protocol_id, message }
    }
}

} // verus!
