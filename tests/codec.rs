use net::codec::error::CodecError;
use net::codec::message::{Encapsulated, Message};
use net::codec::{deserialize, serialize, MessageCodec};

fn envelope(protocol_id: u16, payload: Vec<u8>) -> Message {
    Message::Encapsulated(Encapsulated::new(protocol_id, payload))
}

fn expect_encapsulated(m: Message, protocol_id: u16, payload: &[u8]) {
    match m {
        Message::Encapsulated(e) => {
            assert_eq!(protocol_id, e.protocol_id);
            assert_eq!(payload.to_vec(), e.message);
        }
        Message::Disconnect => panic!("expected an encapsulated envelope"),
    }
}

#[test]
fn serialized_layout_is_big_endian() {
    let bytes = serialize(&envelope(7, vec![0xde, 0xad])).unwrap();
    assert_eq!(
        vec![0, 0, 0, 0, 0, 7, 0, 0, 0, 0, 0, 0, 0, 2, 0xde, 0xad],
        bytes
    );
    let bytes = serialize(&envelope(0x1234, vec![])).unwrap();
    assert_eq!(vec![0, 0, 0, 0, 0x12, 0x34, 0, 0, 0, 0, 0, 0, 0, 0], bytes);
    assert_eq!(vec![0, 0, 0, 1], serialize(&Message::Disconnect).unwrap());
}

#[test]
fn frame_has_length_prefix() {
    let mut codec = MessageCodec::new();
    let mut buf = vec![0xaa];
    codec.encode(envelope(9, vec![0x01]), &mut buf).unwrap();
    assert_eq!(
        vec![0xaa, 0, 0, 0, 15, 0, 0, 0, 0, 0, 9, 0, 0, 0, 0, 0, 0, 0, 1, 0x01],
        buf
    );
}

#[test]
fn frame_round_trip() {
    let mut codec = MessageCodec::new();
    let mut buf = Vec::new();
    codec.encode(envelope(7, vec![0xde, 0xad]), &mut buf).unwrap();
    codec.encode(Message::Disconnect, &mut buf).unwrap();
    buf.push(0);
    let first = codec.decode(&mut buf).unwrap().unwrap();
    expect_encapsulated(first, 7, &[0xde, 0xad]);
    let second = codec.decode(&mut buf).unwrap().unwrap();
    assert!(matches!(second, Message::Disconnect));
    assert_eq!(vec![0], buf);
    assert!(codec.decode(&mut buf).unwrap().is_none());
    assert_eq!(vec![0], buf);
}

#[test]
fn partial_frame_byte_by_byte() {
    let mut codec = MessageCodec::new();
    let mut frame = Vec::new();
    codec.encode(envelope(3, vec![1, 2, 3, 4, 5, 6]), &mut frame).unwrap();
    assert_eq!(24, frame.len());
    let mut buf = Vec::new();
    for (i, b) in frame.iter().enumerate() {
        buf.push(*b);
        let r = codec.decode(&mut buf).unwrap();
        if i + 1 < frame.len() {
            assert!(r.is_none());
            assert_eq!(i + 1, buf.len());
        } else {
            expect_encapsulated(r.unwrap(), 3, &[1, 2, 3, 4, 5, 6]);
            assert!(buf.is_empty());
        }
    }
}

#[test]
fn byte_by_byte_matches_all_at_once() {
    let mut codec = MessageCodec::new();
    let mut input = Vec::new();
    codec.encode(envelope(1, vec![10]), &mut input).unwrap();
    codec.encode(Message::Disconnect, &mut input).unwrap();
    codec.encode(envelope(2, vec![20, 21]), &mut input).unwrap();

    let mut whole = input.clone();
    let mut at_once = Vec::new();
    while let Some(m) = codec.decode(&mut whole).unwrap() {
        at_once.push(m);
    }

    let mut buf = Vec::new();
    let mut one_by_one = Vec::new();
    for b in input.iter() {
        buf.push(*b);
        while let Some(m) = codec.decode(&mut buf).unwrap() {
            one_by_one.push(m);
        }
    }
    assert_eq!(3, at_once.len());
    assert_eq!(format!("{:?}", at_once), format!("{:?}", one_by_one));
    assert!(whole.is_empty() && buf.is_empty());
}

#[test]
fn zero_length_frame_is_malformed() {
    let mut codec = MessageCodec::new();
    let mut buf = vec![0, 0, 0, 0, 9];
    assert!(codec.decode(&mut buf).is_err());
    assert_eq!(vec![9], buf);
}

#[test]
fn unknown_tag_is_malformed() {
    let mut codec = MessageCodec::new();
    let mut buf = vec![0, 0, 0, 4, 0, 0, 0, 2];
    assert!(codec.decode(&mut buf).is_err());
    assert!(buf.is_empty());
}

#[test]
fn payload_length_must_match() {
    assert!(deserialize(&[0, 0, 0, 0, 0, 7, 0, 0, 0, 0, 0, 0, 0, 3, 0xde, 0xad]).is_err());
    assert!(deserialize(&[0, 0, 0, 1, 0]).is_err());
    assert!(deserialize(&[0, 0, 1]).is_err());
    assert!(deserialize(&[]).is_err());
}

#[test]
fn datagram_round_trip() {
    let bytes = serialize(&envelope(9, vec![0x01])).unwrap();
    expect_encapsulated(deserialize(&bytes).unwrap(), 9, &[0x01]);
    assert!(matches!(deserialize(&[0, 0, 0, 1]).unwrap(), Message::Disconnect));
}

#[test]
fn short_prefix_needs_more() {
    let mut codec = MessageCodec::new();
    let mut buf = vec![0, 0, 0];
    assert!(codec.decode(&mut buf).unwrap().is_none());
    assert_eq!(vec![0, 0, 0], buf);
    let mut buf = vec![0, 0, 0, 5, 0, 0, 0, 1];
    assert!(codec.decode(&mut buf).unwrap().is_none());
    assert_eq!(8, buf.len());
}

#[test]
fn codec_error_text() {
    let e = CodecError::new("bad frame");
    assert_eq!("bad frame", e.message());
    assert_eq!("message codec error: bad frame", e.to_string());
}

#[test]
fn disconnect_frame_byte_by_byte() {
    let mut codec = MessageCodec::new();
    let mut frame = Vec::new();
    codec.encode(Message::Disconnect, &mut frame).unwrap();
    assert_eq!(vec![0, 0, 0, 4, 0, 0, 0, 1], frame);
    let mut buf = Vec::new();
    let mut nones = 0;
    let mut decoded = None;
    for b in frame.iter() {
        buf.push(*b);
        match codec.decode(&mut buf).unwrap() {
            None => nones += 1,
            Some(m) => decoded = Some(m),
        }
    }
    assert_eq!(7, nones);
    assert!(matches!(decoded, Some(Message::Disconnect)));
}
