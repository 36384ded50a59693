use bytes::BytesMut;
use mqttrs::{
    decode, encode, encode_to_vec, encode_within, Connack, Connect, ConnectReturnCode, Error, LastWill, Packet,
    PacketType, Pid, Protocol, Publish, QoS, QosPid, Suback, Subscribe, SubscribeReturnCodes,
    SubscribeTopic, Unsubscribe,
};

fn pid(v: u16) -> Pid {
    Pid::from_u16(v).unwrap()
}

fn round_trip(p: Packet) -> Vec<u8> {
    let mut buf = BytesMut::with_capacity(1024);
    let n = encode(&p, &mut buf).unwrap();
    assert_eq!(n, buf.len());
    let bytes = buf.to_vec();
    assert_eq!(Ok(Some(p)), decode(&mut buf));
    assert_eq!(buf.len(), 0);
    bytes
}

#[test]
fn puback_round_trip() {
    assert_eq!(round_trip(Packet::Puback(pid(42))), vec![0x40, 0x02, 0x00, 0x2A]);
}

#[test]
fn ping_round_trips() {
    assert_eq!(round_trip(Packet::Pingreq), vec![0xC0, 0x00]);
    assert_eq!(round_trip(Packet::Pingresp), vec![0xD0, 0x00]);
    assert_eq!(round_trip(Packet::Disconnect), vec![0xE0, 0x00]);
}

#[test]
fn subscribe_two_topics() {
    let p = Packet::Subscribe(Subscribe {
        pid: pid(1),
        topics: vec![
            SubscribeTopic { topic_path: "a/b".to_string(), qos: QoS::AtLeastOnce },
            SubscribeTopic { topic_path: "c".to_string(), qos: QoS::AtMostOnce },
        ],
    });
    assert_eq!(
        round_trip(p),
        vec![0x82, 0x0C, 0x00, 0x01, 0x00, 0x03, b'a', b'/', b'b', 0x01, 0x00, 0x01, b'c', 0x00]
    );
}

#[test]
fn id_only_round_trips() {
    assert_eq!(round_trip(Packet::Pubrec(pid(2))), vec![0x50, 0x02, 0x00, 0x02]);
    assert_eq!(round_trip(Packet::Pubrel(pid(0x1234))), vec![0x62, 0x02, 0x12, 0x34]);
    assert_eq!(round_trip(Packet::Pubcomp(pid(65535))), vec![0x70, 0x02, 0xFF, 0xFF]);
    assert_eq!(round_trip(Packet::Unsuback(pid(9))), vec![0xB0, 0x02, 0x00, 0x09]);
}

#[test]
fn connack_round_trip() {
    let p = Packet::Connack(Connack { session_present: false, code: ConnectReturnCode::RefusedNotAuthorized });
    assert_eq!(round_trip(p), vec![0x20, 0x02, 0x00, 0x05]);
}

#[test]
fn publish_round_trips() {
    let p = Packet::Publish(Publish {
        dup: false,
        qospid: QosPid::AtMostOnce,
        retain: false,
        topic_name: "to/pic".to_string(),
        payload: b"payload".to_vec(),
    });
    let mut expected = vec![0x30, 15, 0x00, 0x06];
    expected.extend_from_slice(b"to/pic");
    expected.extend_from_slice(b"payload");
    assert_eq!(round_trip(p), expected);

    let p = Packet::Publish(Publish {
        dup: true,
        qospid: QosPid::AtLeastOnce(pid(10)),
        retain: true,
        topic_name: "é".to_string(),
        payload: vec![],
    });
    assert_eq!(round_trip(p), vec![0x3B, 0x06, 0x00, 0x02, 0xC3, 0xA9, 0x00, 0x0A]);
}

#[test]
fn unsubscribe_and_suback_round_trips() {
    let p = Packet::Unsubscribe(Unsubscribe { pid: pid(3), topics: vec!["x".to_string(), "yz".to_string()] });
    assert_eq!(round_trip(p), vec![0xA2, 0x09, 0x00, 0x03, 0x00, 0x01, b'x', 0x00, 0x02, b'y', b'z']);
    let p = Packet::Suback(Suback {
        pid: pid(3),
        return_codes: vec![SubscribeReturnCodes::Success(QoS::AtLeastOnce), SubscribeReturnCodes::Failure],
    });
    assert_eq!(round_trip(p), vec![0x90, 0x04, 0x00, 0x03, 0x01, 0x80]);
}

#[test]
fn connect_round_trips() {
    let p = Packet::Connect(Connect {
        protocol: Protocol::MQTT311,
        keep_alive: 10,
        client_id: "test".to_string(),
        clean_session: true,
        last_will: None,
        username: None,
        password: None,
    });
    assert_eq!(
        round_trip(p),
        vec![0x10, 16, 0x00, 0x04, b'M', b'Q', b'T', b'T', 0x04, 0x02, 0x00, 0x0A, 0x00, 0x04, b't', b'e', b's', b't']
    );
    let p = Packet::Connect(Connect {
        protocol: Protocol::MQTT311,
        keep_alive: 0,
        client_id: "c".to_string(),
        clean_session: false,
        last_will: Some(LastWill { topic: "w".to_string(), message: vec![1, 2], qos: QoS::ExactlyOnce, retain: true }),
        username: Some("u".to_string()),
        password: Some(vec![9]),
    });
    let bytes = round_trip(p);
    assert_eq!(bytes[9], 0b1111_0100);
    assert_eq!(bytes.len(), 2 + 10 + 3 + 3 + 4 + 3 + 3);
}

#[test]
fn encoded_length_agrees() {
    let p = Packet::Publish(Publish {
        dup: false,
        qospid: QosPid::ExactlyOnce(pid(1)),
        retain: false,
        topic_name: "t".to_string(),
        payload: vec![7; 200],
    });
    let v = encode_to_vec(&p).unwrap();
    // remaining length 205 takes two bytes
    assert_eq!(v.len(), 1 + 2 + 205);
    assert_eq!(&v[..3], &[0x34, 0xCD, 0x01][..]);
}

#[test]
fn long_fields_are_refused() {
    let p = Packet::Publish(Publish {
        dup: false,
        qospid: QosPid::AtMostOnce,
        retain: false,
        topic_name: "x".repeat(65536),
        payload: vec![],
    });
    assert_eq!(Err(Error::InvalidLength(65536)), encode_to_vec(&p));
    let mut buf = BytesMut::with_capacity(1024);
    assert_eq!(Err(Error::InvalidLength(65536)), encode(&p, &mut buf));
    assert_eq!(buf.len(), 0);
}

#[test]
fn full_buffer_gives_write_zero() {
    let p = Packet::Publish(Publish {
        dup: false,
        qospid: QosPid::AtMostOnce,
        retain: false,
        topic_name: "t".to_string(),
        payload: vec![0; 100],
    });
    let mut buf = BytesMut::with_capacity(0);
    assert_eq!(Err(Error::WriteZero), encode(&p, &mut buf));
    assert_eq!(buf.len(), 0);
}

#[test]
fn packet_types() {
    assert_eq!(Packet::Pingreq.get_type(), PacketType::Pingreq);
    assert_eq!(Packet::Puback(pid(1)).get_type(), PacketType::Puback);
    assert_eq!(Pid::from_u16(0), Err(Error::InvalidPid));
    assert_eq!(pid(5).get(), 5);
    assert_eq!(SubscribeReturnCodes::Failure.to_u8(), 0x80);
    assert_eq!(SubscribeReturnCodes::Success(QoS::ExactlyOnce).to_u8(), 2);
}

#[test]
fn encode_within_room() {
    assert_eq!(Ok(vec![0xC0, 0x00]), encode_within(&Packet::Pingreq, 2));
    assert_eq!(Err(Error::WriteZero), encode_within(&Packet::Pingreq, 1));
    assert_eq!(Ok(vec![0x40, 0x02, 0x00, 0x2A]), encode_within(&Packet::Puback(pid(42)), 4));
    assert_eq!(Err(Error::WriteZero), encode_within(&Packet::Puback(pid(42)), 3));
}

#[test]
fn packets_from_bodies() {
    let c = Connack { session_present: true, code: ConnectReturnCode::Accepted };
    let p: Packet = c.into();
    assert_eq!(p, Packet::Connack(c));
    let s = Suback { pid: pid(4), return_codes: vec![SubscribeReturnCodes::Failure] };
    let p: Packet = s.clone().into();
    assert_eq!(p, Packet::Suback(s));
    let pb = Publish {
        dup: false,
        qospid: QosPid::AtMostOnce,
        retain: false,
        topic_name: "to/pic".to_string(),
        payload: b"payload".to_vec(),
    };
    let p: Packet = pb.clone().into();
    assert_eq!(p.get_type(), PacketType::Publish);
    assert_eq!(p, Packet::Publish(pb));
}
