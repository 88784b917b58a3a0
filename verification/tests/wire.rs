//! The bytes of frames and messages, and identifiers.
use mgnp::codec::{from_bytes, from_bytes_framed, to_slice, to_vec_framed, Codec, PostcardError, Uuid};
use mgnp::decode::{DecodeError, DecodeErrorKind};
use mgnp::discovery::{
    EndpointBinding, EndpointKind, EndpointsPage, EndpointsService, Update, WatchEndpoints,
    PAGE_SIZE,
};
use mgnp::connector::{DataFrame, Ids};
use mgnp::id::{Id, LinkId};
use mgnp::machine::{InterfaceError, InterfaceErrorKind};
use mgnp::message::{Frame, Header, InboundFrame, Nak, OutboundData, OutboundFrame, Rejection, Reset};
use mgnp::pitch;
use mgnp::registry::{Identity, IdentityKind, Name, Service};
use mgnp::req_rsp::{Request, Response, SeqNo, StreamingResponse};

fn id(n: u16) -> Id {
    Id::new(n).unwrap()
}

fn endpoints(name: &str) -> Identity {
    Identity::from_name::<EndpointsService>(name)
}

const LIST_UUID: [u8; 16] = [
    0xec, 0x64, 0xbf, 0xf3, 0x7f, 0xc4, 0x4e, 0xd5, 0xa8, 0xf2, 0xed, 0x9e, 0x3b, 0x30, 0xf7, 0xbe,
];

#[test]
fn integers() {
    assert_eq!(0u16.to_vec(), vec![0]);
    assert_eq!(127u16.to_vec(), vec![127]);
    assert_eq!(128u16.to_vec(), vec![0x80, 1]);
    assert_eq!(u16::MAX.to_vec(), vec![0xff, 0xff, 3]);
    assert_eq!(u32::MAX.to_vec(), vec![0xff, 0xff, 0xff, 0xff, 15]);
    assert_eq!((u64::MAX as usize).to_vec(), vec![255, 255, 255, 255, 255, 255, 255, 255, 255, 1]);
    assert_eq!((-1i16).to_vec(), vec![1]);
    assert_eq!(1i16.to_vec(), vec![2]);
    assert_eq!(i16::MIN.to_vec(), vec![0xff, 0xff, 3]);
    assert_eq!(200u8.to_vec(), vec![200]);
    assert_eq!(true.to_vec(), vec![1]);
    for n in [0u16, 1, 127, 128, 300, 16383, 16384, u16::MAX] {
        assert_eq!(from_bytes::<u16>(&n.to_vec()), Ok(n));
        assert_eq!(from_bytes::<u32>(&(n as u32 * 65537).to_vec()), Ok(n as u32 * 65537));
        assert_eq!(from_bytes::<i16>(&(n as i16).to_vec()), Ok(n as i16));
        assert_eq!(from_bytes::<usize>(&(n as usize).to_vec()), Ok(n as usize));
    }
    assert_eq!(u16::take_from_bytes(&[5, 6]), Ok((5, &[6u8][..])));
    assert_eq!(u8::take_from_bytes(&[5, 6]), Ok((5, &[6u8][..])));
    assert_eq!(u32::take_from_bytes(&[0x85, 0, 6]), Ok((5, &[6u8][..])));
    assert_eq!(i16::take_from_bytes(&[5, 6]), Ok((-3, &[6u8][..])));
    assert_eq!(from_bytes::<u16>(&[]), Err(PostcardError::DeserializeUnexpectedEnd));
    assert_eq!(from_bytes::<u16>(&[0x80]), Err(PostcardError::DeserializeUnexpectedEnd));
    assert_eq!(from_bytes::<u16>(&[0xff, 0xff, 4]), Err(PostcardError::DeserializeBadVarint));
    assert_eq!(from_bytes::<u16>(&[0x80, 0x80, 0x80]), Err(PostcardError::DeserializeBadVarint));
    assert_eq!(from_bytes::<u32>(&[255, 255, 255, 255, 16]), Err(PostcardError::DeserializeBadVarint));
    assert_eq!(from_bytes::<u32>(&[255]), Err(PostcardError::DeserializeUnexpectedEnd));
    assert_eq!(
        from_bytes::<usize>(&[255, 255, 255, 255, 255, 255, 255, 255, 255, 2]),
        Err(PostcardError::DeserializeBadVarint)
    );
    assert_eq!(from_bytes::<usize>(&[255]), Err(PostcardError::DeserializeUnexpectedEnd));
    assert_eq!(from_bytes::<i16>(&[255, 255, 255]), Err(PostcardError::DeserializeBadVarint));
    assert_eq!(from_bytes::<i16>(&[]), Err(PostcardError::DeserializeUnexpectedEnd));
    assert_eq!(from_bytes::<u8>(&[]), Err(PostcardError::DeserializeUnexpectedEnd));
    assert_eq!(from_bytes::<bool>(&[0]), Ok(false));
    assert_eq!(from_bytes::<bool>(&[2]), Err(PostcardError::DeserializeBadBool));
    assert_eq!(from_bytes::<bool>(&[]), Err(PostcardError::DeserializeUnexpectedEnd));
}

#[test]
fn strings_and_bytes() {
    let s = String::from("hé");
    assert_eq!(s.to_vec(), vec![3, 104, 0xc3, 0xa9]);
    assert_eq!(String::take_from_bytes(&[1, 104, 9]), Ok((String::from("h"), &[9u8][..])));
    assert_eq!(from_bytes::<String>(&[2, 104]), Err(PostcardError::DeserializeUnexpectedEnd));
    assert_eq!(from_bytes::<String>(&[1, 0xff]), Err(PostcardError::DeserializeBadUtf8));
    assert_eq!(
        from_bytes::<String>(&[255, 255, 255, 255, 255, 255, 255, 255, 255, 255]),
        Err(PostcardError::DeserializeBadVarint)
    );
    assert_eq!(<Vec<u8> as Codec>::to_vec(&vec![1, 2]), vec![2, 1, 2]);
    assert_eq!(from_bytes::<Vec<u8>>(&[2, 1, 2, 3]), Ok(vec![1, 2]));
    assert_eq!(from_bytes::<Vec<u8>>(&[2, 1]), Err(PostcardError::DeserializeUnexpectedEnd));
    assert_eq!(
        from_bytes::<Vec<u8>>(&[255, 255, 255, 255, 255, 255, 255, 255, 255, 255]),
        Err(PostcardError::DeserializeBadVarint)
    );
    let uuid = Uuid::from_bytes(LIST_UUID);
    let bytes = uuid.to_vec();
    assert_eq!(bytes[0], 16);
    assert_eq!(&bytes[1..], &LIST_UUID);
    assert_eq!(from_bytes::<Uuid>(&bytes), Ok(uuid));
    assert_eq!(from_bytes::<Uuid>(&bytes[..9]), Err(PostcardError::DeserializeUnexpectedEnd));
    assert_eq!(from_bytes::<Uuid>(&[1, 2]), Err(PostcardError::SerdeDeCustom));
    assert_eq!(
        from_bytes::<Uuid>(&[255, 255, 255, 255, 255, 255, 255, 255, 255, 255]),
        Err(PostcardError::DeserializeBadVarint)
    );
    // the parts of a frame between zeroes are counted.
    assert_eq!(to_vec_framed(&(0u8, (1u8, 0u8))), vec![1, 2, 1, 1, 0]);
    let mut buf = [7u8; 4];
    to_slice(&(1u8, 2u8), &mut buf).unwrap()[0] = 5;
    assert_eq!(buf, [5, 2, 7, 7]);
}

#[test]
fn identifiers() {
    assert_eq!(Id::new(0), None);
    assert_eq!(id(5).get(), 5);
    assert_eq!(id(5).to_index(), 4);
    assert_eq!(Id::from_index(4), id(5));
    assert_eq!(Id::from_index(65534), id(65535));
    assert_eq!(Id::from_index(65535), id(65535));
    assert_eq!(id(65534).checked_add(1), Some(id(65535)));
    assert_eq!(id(65535).checked_add(1), None);
    assert_eq!(id(0xbeef).display(), "beef");
    assert_eq!(id(10).display(), "000a");
    assert_eq!(id(10).debug(), "Id(000a)");
    let link = LinkId { local: Some(id(0xab)), remote: None };
    assert_eq!(link.display(), "0000:00ab");
    assert_eq!(link.lower_hex(), "0000:00ab");
    assert_eq!(link.upper_hex(), "0000:00AB");
    assert_eq!(link.invert(), LinkId { local: None, remote: Some(id(0xab)) });
    assert_eq!(link.invert().invert(), link);
    assert!(!link.is_interface());
    assert!(LinkId::interface().is_interface());
    assert_eq!(from_bytes::<Id>(&[0]), Err(PostcardError::SerdeDeCustom));
    assert_eq!(from_bytes::<Id>(&id(300).to_vec()), Ok(id(300)));
}

#[test]
fn identities() {
    let identity = endpoints("hello-world");
    assert_eq!(identity.uuid(), &Uuid::from_bytes(LIST_UUID));
    assert_eq!(EndpointsService::uuid(), Uuid::from_bytes(LIST_UUID));
    let IdentityKind::Name(name) = identity.kind();
    assert_eq!(name.as_str(), "hello-world");
    assert!(Name::new(&"x".repeat(32)).is_some());
    assert!(Name::new(&"x".repeat(33)).is_none());
    // the length is counted in bytes.
    assert!(Name::new(&"é".repeat(17)).is_none());
    let mut bytes = identity.to_vec();
    assert_eq!(from_bytes::<Identity>(&bytes), Ok(identity.clone()));
    // the second part of the encoding is the kind of the identity.
    bytes[17] = 1;
    assert_eq!(from_bytes::<Identity>(&bytes), Err(PostcardError::SerdeDeCustom));
    bytes[17] = 0;
    bytes[18] = 33;
    bytes.extend([b'a'; 33]);
    assert_eq!(from_bytes::<Identity>(&bytes), Err(PostcardError::SerdeDeCustom));
}

#[test]
fn frames_round_trip() {
    let frame = OutboundFrame::data(id(2), id(1), vec![9, 8]);
    assert_eq!(frame.to_vec(), vec![1, 1, 2, 9, 8]);
    let frame = OutboundFrame::ack(id(1), id(2));
    assert_eq!(frame.to_vec(), vec![2, 1, 2]);
    let frame = OutboundFrame::nak(id(200), Rejection::ConnTableFull(512));
    assert_eq!(frame.to_vec(), vec![3, 200, 1, 0, 128, 4]);
    let frame = OutboundFrame::reset(id(7), Reset::GoAway);
    assert_eq!(frame.to_vec(), vec![4, 7, 4]);
    let frame = OutboundFrame::connect(id(1), endpoints("x"), vec![5]);
    let mut expected = vec![0, 1, 16];
    expected.extend(LIST_UUID);
    expected.extend([0, 1, b'x', 5]);
    assert_eq!(frame.to_vec(), expected);

    let kinds = [
        DecodeErrorKind::UnexpectedEnd,
        DecodeErrorKind::BadVarint,
        DecodeErrorKind::BadBool,
        DecodeErrorKind::BadChar,
        DecodeErrorKind::BadUtf8,
        DecodeErrorKind::BadOption,
        DecodeErrorKind::BadEnum,
        DecodeErrorKind::BadEncoding,
        DecodeErrorKind::BadCrc,
        DecodeErrorKind::SerdeDeCustom,
        DecodeErrorKind::Unknown,
    ];
    let mut errors = vec![DecodeError::UnexpectedTrailingData];
    for kind in kinds {
        errors.push(DecodeError::Header(kind));
        errors.push(DecodeError::Body(kind));
    }
    let mut frames = vec![
        OutboundFrame::data(id(2), id(1), vec![9, 8]),
        OutboundFrame::data(id(2), id(1), vec![]),
        OutboundFrame::ack(id(65535), id(128)),
        OutboundFrame::connect(id(1), endpoints("hello-world"), vec![1, 2, 3]),
        OutboundFrame::nak(id(3), Rejection::NotFound),
        OutboundFrame::nak(id(3), Rejection::ServiceRejected),
        Frame {
            header: Header::Reject { remote_id: id(3), reason: Rejection::ServiceRejected },
            body: OutboundData::Rejected(vec![1]),
        },
        OutboundFrame::reset(id(3), Reset::BecauseISaidSo),
        OutboundFrame::reset(id(3), Reset::NoSuchConn),
        OutboundFrame::reset(id(3), Reset::YesSuchConn),
    ];
    for error in errors {
        frames.push(OutboundFrame::nak(id(3), Rejection::DecodeError(error)));
        frames.push(OutboundFrame::reset(id(3), Reset::YouDoneGoofed(error)));
    }
    for frame in frames {
        let bytes = frame.to_vec();
        let back = InboundFrame::from_bytes(&bytes).unwrap();
        assert_eq!(back.header, frame.header);
        assert_eq!(back.body, &frame.body.to_vec()[..]);
        assert!(!back.header.link_id().is_interface());
        let mut buf = vec![0xaa; bytes.len() + 1];
        assert_eq!(frame.to_slice(&mut buf).unwrap(), &bytes[..]);
        assert_eq!(buf[bytes.len()], 0xaa);
        assert_eq!(
            frame.to_slice(&mut buf[..bytes.len() - 1]),
            Err(PostcardError::SerializeBufferFull)
        );
    }
}

#[test]
fn malformed_frames() {
    // data behind a header that has no body.
    let mut bytes = OutboundFrame::ack(id(1), id(1)).to_vec();
    bytes.push(0);
    assert_eq!(InboundFrame::from_bytes(&bytes), Err(DecodeError::UnexpectedTrailingData));
    let mut bytes = OutboundFrame::nak(id(1), Rejection::NotFound).to_vec();
    bytes.push(0);
    assert_eq!(InboundFrame::from_bytes(&bytes), Err(DecodeError::UnexpectedTrailingData));
    let header = |kind| Err(DecodeError::Header(kind));
    assert_eq!(InboundFrame::from_bytes(&[]), header(DecodeErrorKind::UnexpectedEnd));
    assert_eq!(InboundFrame::from_bytes(&[1, 1]), header(DecodeErrorKind::UnexpectedEnd));
    // there is no such kind of frame.
    assert_eq!(InboundFrame::from_bytes(&[5, 1, 1]), header(DecodeErrorKind::SerdeDeCustom));
    // identifiers are not zero.
    assert_eq!(InboundFrame::from_bytes(&[1, 0, 1]), header(DecodeErrorKind::SerdeDeCustom));
    assert_eq!(
        InboundFrame::from_bytes(&[1, 255, 255, 4]),
        header(DecodeErrorKind::BadVarint)
    );
    // the name of the service is not a string.
    let mut bytes = OutboundFrame::connect(id(1), endpoints("x"), vec![]).to_vec();
    *bytes.last_mut().unwrap() = 0xff;
    assert_eq!(InboundFrame::from_bytes(&bytes), header(DecodeErrorKind::BadUtf8));
    // bodies.
    let bytes = OutboundFrame::data(id(2), id(1), vec![0x80, 1]).to_vec();
    assert_eq!(
        Frame::<u16>::deserialize_from_bytes(&bytes),
        Ok(Frame { header: Header::Data { local_id: id(1), remote_id: id(2) }, body: 128 })
    );
    let bytes = OutboundFrame::data(id(2), id(1), vec![0x80]).to_vec();
    assert_eq!(
        Frame::<u16>::deserialize_from_bytes(&bytes),
        Err(DecodeError::Body(DecodeErrorKind::UnexpectedEnd))
    );
    assert_eq!(
        Frame::<u16>::deserialize_from_bytes(&[9]),
        Err(DecodeError::Header(DecodeErrorKind::SerdeDeCustom))
    );
}

#[test]
fn kinds_of_errors() {
    let pairs = [
        (PostcardError::DeserializeUnexpectedEnd, DecodeErrorKind::UnexpectedEnd),
        (PostcardError::DeserializeBadVarint, DecodeErrorKind::BadVarint),
        (PostcardError::DeserializeBadBool, DecodeErrorKind::BadBool),
        (PostcardError::DeserializeBadChar, DecodeErrorKind::BadChar),
        (PostcardError::DeserializeBadUtf8, DecodeErrorKind::BadUtf8),
        (PostcardError::DeserializeBadOption, DecodeErrorKind::BadOption),
        (PostcardError::DeserializeBadEnum, DecodeErrorKind::BadEnum),
        (PostcardError::DeserializeBadEncoding, DecodeErrorKind::BadEncoding),
        (PostcardError::DeserializeBadCrc, DecodeErrorKind::BadCrc),
        (PostcardError::SerdeDeCustom, DecodeErrorKind::SerdeDeCustom),
        (PostcardError::SerdeSerCustom, DecodeErrorKind::Unknown),
        (PostcardError::WontImplement, DecodeErrorKind::Unknown),
    ];
    for (error, kind) in pairs {
        assert_eq!(DecodeErrorKind::from_postcard(error), kind);
        assert_eq!(DecodeError::body(error), DecodeError::Body(kind));
        assert_eq!(DecodeError::header(error), DecodeError::Header(kind));
        assert_eq!(Reset::bad_frame(error), Reset::YouDoneGoofed(DecodeError::Body(kind)));
    }
}

#[test]
fn descriptions() {
    assert_eq!(
        Reset::bad_frame(PostcardError::DeserializeBadBool).describe(),
        "you done goofed! received a bad frame: error decoding frame body: \
         found a bool that wasn't 0 or 1"
    );
    assert_eq!(Reset::NoSuchConn.describe(), "no such connection exists");
    assert_eq!(Reset::YesSuchConn.describe(), "connection already exists");
    assert_eq!(
        Reset::GoAway.describe(),
        "the peer is shutting down this interface, go away!"
    );
    assert_eq!(Reset::BecauseISaidSo.describe(), "because i said so");
    assert_eq!(
        DecodeError::Header(DecodeErrorKind::Unknown).describe(),
        "error decoding frame header: unknown error"
    );
    assert_eq!(
        DecodeError::UnexpectedTrailingData.describe(),
        "unexpected trailing body data in a frame type without a body"
    );
    let error = InterfaceError::send("broken".to_string());
    assert_eq!(error.kind(), &InterfaceErrorKind::Send("broken".to_string()));
    assert_eq!(error.describe(), "wire send error: broken");
    let error = InterfaceError::recv("broken".to_string()).with_context("while idle");
    assert_eq!(error.describe(), "wire receive error: broken (while idle)");
    assert_eq!(
        InterfaceErrorKind::<String>::Proto("what").describe(),
        "protocol error: what"
    );
}

#[test]
fn requests_and_responses() {
    let request = Request { seq: 300, body: 7u8 };
    assert_eq!(request.to_vec(), vec![172, 2, 7]);
    assert_eq!(from_bytes::<Request<u8>>(&[172, 2, 7]), Ok(request));
    assert_eq!(request.body(), &7);
    let (seq, body) = request.into_parts();
    assert_eq!((&seq, body), (&SeqNo(300), 7));
    assert_eq!(
        seq.respond_streaming("a", true),
        StreamingResponse { seq: 300, last: true, body: "a" }
    );
    assert_eq!(seq.respond("b"), Response { seq: 300, body: "b" });
    assert_eq!(request.respond("b"), Response { seq: 300, body: "b" });
    let response = Response { seq: 1, body: 2u16 };
    assert_eq!(response.to_vec(), vec![1, 2]);
    assert_eq!(from_bytes::<Response<u16>>(&[1, 2]), Ok(response));
    let streaming = StreamingResponse { seq: 1, last: true, body: 2u16 };
    assert_eq!(streaming.to_vec(), vec![1, 1, 2]);
    assert_eq!(from_bytes::<StreamingResponse<u16>>(&[1, 1, 2]), Ok(streaming));
    assert_eq!(
        from_bytes::<StreamingResponse<u16>>(&[1, 2, 2]),
        Err(PostcardError::DeserializeBadBool)
    );
}

#[test]
fn pages_are_bounded() {
    let mut page = EndpointsPage::new();
    let binding =
        || EndpointBinding { identity: endpoints("x"), kind: EndpointKind::Local };
    for _ in 0..PAGE_SIZE - 1 {
        page.push(Update::Add(binding())).unwrap();
    }
    page.push(Update::Remove(endpoints("y"))).unwrap();
    assert_eq!(page.endpoints().len(), PAGE_SIZE);
    assert_eq!(page.push(Update::Add(binding())), Err(Update::Add(binding())));
    assert_eq!(page.endpoints()[31], Update::Remove(endpoints("y")));
}

#[test]
fn pitch_messages_round_trip() {
    let messages = vec![
        pitch::Message::Data { local_id: id(1), remote_id: id(2), data: vec![3, 4] },
        pitch::Message::reset(id(9)),
        pitch::Message::Control(pitch::ControlMessage::Ack { local_id: id(1), remote_id: id(2) }),
        pitch::Message::Control(pitch::ControlMessage::Nak {
            remote_id: id(1),
            reason: pitch::Nak::ConnTableFull(300),
        }),
        pitch::Message::Control(pitch::ControlMessage::Nak {
            remote_id: id(1),
            reason: pitch::Nak::NotFound,
        }),
        pitch::Message::Control(pitch::ControlMessage::Nak {
            remote_id: id(1),
            reason: pitch::Nak::Rejected(),
        }),
        pitch::Message::Control(pitch::ControlMessage::Connect {
            local_id: id(1),
            identity: endpoints("x"),
            hello: vec![1],
        }),
    ];
    assert_eq!(messages[0].to_vec(), vec![1, 1, 2, 2, 3, 4]);
    assert_eq!(messages[1].to_vec(), vec![0, 3, 9]);
    assert_eq!(messages[3].to_vec(), vec![0, 1, 1, 0, 172, 2]);
    for message in messages {
        assert!(!message.link_id().is_interface());
        assert_eq!(from_bytes::<pitch::Message>(&message.to_vec()), Ok(message));
    }
    assert_eq!(from_bytes::<pitch::Message>(&[2]), Err(PostcardError::SerdeDeCustom));
    assert_eq!(from_bytes::<pitch::Message>(&[0, 4]), Err(PostcardError::SerdeDeCustom));
    assert_eq!(from_bytes::<pitch::Nak>(&[3]), Err(PostcardError::SerdeDeCustom));
}

#[test]
fn discovery_messages_round_trip() {
    assert_eq!(WatchEndpoints::All.to_vec(), vec![0]);
    let watch = WatchEndpoints::Service(Uuid::from_bytes(LIST_UUID));
    let mut bytes = vec![1, 16];
    bytes.extend(LIST_UUID);
    assert_eq!(watch.to_vec(), bytes);
    assert_eq!(from_bytes::<WatchEndpoints>(&bytes), Ok(watch));
    assert_eq!(from_bytes::<WatchEndpoints>(&[2]), Err(PostcardError::SerdeDeCustom));

    let binding = EndpointBinding { identity: endpoints("x"), kind: EndpointKind::Local };
    let mut page = EndpointsPage::new();
    assert_eq!(page.to_vec(), vec![0]);
    page.push(Update::Add(binding.clone())).unwrap();
    page.push(Update::Remove(endpoints("yz"))).unwrap();
    let mut bytes = vec![2, 0, 16];
    bytes.extend(LIST_UUID);
    bytes.extend([0, 1, 120, 0, 1, 16]);
    bytes.extend(LIST_UUID);
    bytes.extend([0, 2, 121, 122]);
    assert_eq!(page.to_vec(), bytes);
    assert_eq!(from_bytes::<EndpointsPage>(&bytes).as_ref(), Ok(&page));
    assert_eq!(page.clone(), page);
    assert_eq!(
        from_bytes::<EndpointsPage>(&bytes[..30]),
        Err(PostcardError::DeserializeUnexpectedEnd)
    );

    // a page that is too long is refused, once there is an update too many.
    let update = Update::Add(binding).to_vec();
    let mut full = vec![32];
    for _ in 0..32 {
        full.extend(&update);
    }
    assert_eq!(from_bytes::<EndpointsPage>(&full).unwrap().endpoints().len(), 32);
    full[0] = 33;
    assert_eq!(
        from_bytes::<EndpointsPage>(&full),
        Err(PostcardError::DeserializeUnexpectedEnd)
    );
    full.extend(&update);
    assert_eq!(from_bytes::<EndpointsPage>(&full), Err(PostcardError::SerdeDeCustom));
    assert_eq!(from_bytes::<EndpointKind>(&[1]), Err(PostcardError::SerdeDeCustom));
    assert_eq!(from_bytes::<Update>(&[2]), Err(PostcardError::SerdeDeCustom));
}

#[test]
fn labels_round_trip() {
    assert_eq!(().to_vec(), vec![]);
    assert_eq!(from_bytes::<()>(&[1]), Ok(()));
    let link = LinkId { local: Some(id(300)), remote: None };
    assert_eq!(link.to_vec(), vec![1, 172, 2, 0]);
    assert_eq!(from_bytes::<LinkId>(&[1, 172, 2, 0]), Ok(link));
    assert_eq!(from_bytes::<LinkId>(&[2]), Err(PostcardError::DeserializeBadOption));
    assert_eq!(from_bytes::<LinkId>(&[0, 1, 0]), Err(PostcardError::SerdeDeCustom));
    let frame = DataFrame { ids: Ids { local_id: id(1), remote_id: id(2) }, data: 3u16 };
    assert_eq!(frame.to_vec(), vec![1, 2, 3]);
    assert_eq!(from_bytes::<DataFrame<u16>>(&[1, 2, 3]), Ok(frame));
    for (nak, bytes) in [
        (Nak::DecodeError(DecodeError::UnexpectedTrailingData), vec![0, 2]),
        (Nak::UnknownLocalId(id(1)), vec![1, 1]),
        (Nak::UnknownRemoteId(id(2)), vec![2, 2]),
    ] {
        assert_eq!(nak.to_vec(), bytes);
        assert_eq!(from_bytes::<Nak>(&bytes), Ok(nak));
    }
    assert_eq!(from_bytes::<Nak>(&[3]), Err(PostcardError::SerdeDeCustom));
}

#[test]
fn long_runs_are_split() {
    // 255 bytes that are not zero: two of the length, and 253 more.
    let value = vec![7u8; 253];
    let mut frame = vec![255, 253, 1];
    frame.extend([7; 252]);
    frame.extend([2, 7, 0]);
    assert_eq!(to_vec_framed(&value), frame);
    assert_eq!(from_bytes_framed::<Vec<u8>>(&frame), Ok(value));
    // a run of exactly 254 is followed by an empty one.
    let value = vec![7u8; 252];
    let mut frame = vec![255, 252, 1];
    frame.extend([7; 252]);
    frame.extend([1, 0]);
    assert_eq!(to_vec_framed(&value), frame);
    frame.push(99);
    assert_eq!(from_bytes_framed::<Vec<u8>>(&frame), Ok(value));
    // a frame need not be ended, and may be of nothing.
    assert_eq!(from_bytes_framed::<(u8, u8)>(&[2, 1, 1]), Ok((1, 0)));
    assert_eq!(from_bytes_framed::<()>(&[0, 9]), Ok(()));
    assert_eq!(from_bytes_framed::<()>(&[]), Err(PostcardError::DeserializeBadEncoding));
    assert_eq!(from_bytes_framed::<()>(&[3, 1]), Err(PostcardError::DeserializeBadEncoding));
}
