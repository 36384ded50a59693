use bytes::BytesMut;
use mqttrs::{decode, decode_slice, Connack, ConnectReturnCode, Error, Packet, Pid, QoS, QosPid};

fn pid(v: u16) -> Pid {
    Pid::from_u16(v).unwrap()
}

#[test]
fn non_utf8_string() {
    let mut data = BytesMut::from(vec![
        0b00110000, 10, // type=Publish, remaining_len=10
        0x00, 0x03, 'a' as u8, '/' as u8, 0xc0 as u8, // Topic with Invalid utf8
        'h' as u8, 'e' as u8, 'l' as u8, 'l' as u8, 'o' as u8, // payload
    ]);
    assert!(match decode(&mut data) {
        Err(Error::InvalidString) => true,
        _ => false,
    });
}

#[test]
fn inner_length_too_long() {
    let mut data = BytesMut::from(vec![
        0b00010000, 20, // Connect packet, remaining_len=20
        0x00, 0x04, 'M' as u8, 'Q' as u8, 'T' as u8, 'T' as u8, 0x04,
        0b01000000, // +password
        0x00, 0x0a, // keepalive 10 sec
        0x00, 0x04, 't' as u8, 'e' as u8, 's' as u8, 't' as u8, // client_id
        0x00, 0x03, 'm' as u8, 'q' as u8, // password with invalid length
    ]);
    assert_eq!(Err(Error::InvalidLength(3)), decode(&mut data));
}

#[test]
fn short_buffer_is_incomplete_and_untouched() {
    let mut data = BytesMut::from(vec![0x40]);
    assert_eq!(Ok(None), decode(&mut data));
    assert_eq!(&data[..], &[0x40][..]);
    let mut empty = BytesMut::from(Vec::<u8>::new());
    assert_eq!(Ok(None), decode(&mut empty));
}

#[test]
fn missing_body_bytes_are_incomplete() {
    let mut data = BytesMut::from(vec![0x40, 0x02, 0x00]);
    assert_eq!(Ok(None), decode(&mut data));
    assert_eq!(&data[..], &[0x40, 0x02, 0x00][..]);
}

#[test]
fn every_proper_prefix_is_incomplete() {
    let full = vec![0x82, 0x0C, 0x00, 0x01, 0x00, 0x03, b'a', b'/', b'b', 0x01, 0x00, 0x01, b'c', 0x00];
    for k in 0..full.len() {
        let mut data = BytesMut::from(full[..k].to_vec());
        assert_eq!(Ok(None), decode(&mut data));
        assert_eq!(&data[..], &full[..k]);
    }
}

#[test]
fn decode_puback_drains_buffer() {
    let mut data = BytesMut::from(vec![0x40, 0x02, 0x00, 0x2A]);
    assert_eq!(Ok(Some(Packet::Puback(pid(42)))), decode(&mut data));
    assert_eq!(data.len(), 0);
}

#[test]
fn decode_leaves_following_bytes() {
    let mut data = BytesMut::from(vec![0xC0, 0x00, 0xD0, 0x00, 0xE0]);
    assert_eq!(Ok(Some(Packet::Pingreq)), decode(&mut data));
    assert_eq!(&data[..], &[0xD0, 0x00, 0xE0][..]);
    assert_eq!(Ok(Some(Packet::Pingresp)), decode(&mut data));
    assert_eq!(Ok(None), decode(&mut data));
    assert_eq!(&data[..], &[0xE0][..]);
}

#[test]
fn pid_zero_is_rejected() {
    for first in [0x40u8, 0x50, 0x62, 0x70, 0xB0] {
        assert_eq!(Err(Error::InvalidPid), decode_slice(&[first, 0x02, 0x00, 0x00]).map(|_| ()));
    }
    // Subscribe with a zero identifier
    assert_eq!(
        Err(Error::InvalidPid),
        decode_slice(&[0x82, 0x06, 0x00, 0x00, 0x00, 0x01, b'a', 0x00]).map(|_| ())
    );
    // Publish at QoS 1 with a zero identifier
    assert_eq!(
        Err(Error::InvalidPid),
        decode_slice(&[0x32, 0x05, 0x00, 0x01, b'a', 0x00, 0x00]).map(|_| ())
    );
}

#[test]
fn varint_cap() {
    let data = [0x30, 0xFF, 0xFF, 0xFF, 0xFF, 0xFF];
    assert_eq!(Err(Error::InvalidLength(268435455)), decode_slice(&data).map(|_| ()));
    // four continuation bytes are enough to know
    assert_eq!(Err(Error::InvalidLength(268435455)), decode_slice(&data[..5]).map(|_| ()));
    // three are not
    assert_eq!(Ok(None), decode_slice(&data[..4]).map(|r| r.map(|_| ())));
}

#[test]
fn four_byte_length_is_read() {
    // remaining length 268435455, body absent: incomplete, not an error
    assert_eq!(Ok(None), decode_slice(&[0x30, 0xFF, 0xFF, 0xFF, 0x7F, 0x00]).map(|r| r.map(|_| ())));
}

#[test]
fn invalid_headers() {
    assert_eq!(Err(Error::InvalidHeader), decode_slice(&[0x00, 0x00]).map(|_| ()));
    assert_eq!(Err(Error::InvalidHeader), decode_slice(&[0xF0, 0x00]).map(|_| ()));
    assert_eq!(Err(Error::InvalidHeader), decode_slice(&[0xC1, 0x00]).map(|_| ()));
    assert_eq!(Err(Error::InvalidHeader), decode_slice(&[0x60, 0x02, 0x00, 0x01]).map(|_| ()));
    assert_eq!(Err(Error::InvalidQos(3)), decode_slice(&[0x36, 0x00]).map(|_| ()));
}

#[test]
fn trailing_bytes() {
    assert_eq!(Err(Error::TrailingBytes), decode_slice(&[0xC0, 0x01, 0x00]).map(|_| ()));
    assert_eq!(Err(Error::TrailingBytes), decode_slice(&[0x40, 0x03, 0x00, 0x01, 0x00]).map(|_| ()));
    assert_eq!(Err(Error::TrailingBytes), decode_slice(&[0x20, 0x03, 0x00, 0x00, 0x00]).map(|_| ()));
}

#[test]
fn connack_decoding() {
    assert_eq!(
        Ok(Some((
            Packet::Connack(Connack { session_present: true, code: ConnectReturnCode::Accepted }),
            4
        ))),
        decode_slice(&[0x20, 0x02, 0x01, 0x00])
    );
    assert_eq!(
        Err(Error::InvalidConnectReturnCode(6)),
        decode_slice(&[0x20, 0x02, 0x00, 0x06]).map(|_| ())
    );
    assert_eq!(Err(Error::InvalidHeader), decode_slice(&[0x20, 0x02, 0x02, 0x00]).map(|_| ()));
}

#[test]
fn connect_protocol_and_flags() {
    let mut bad_level = vec![0x10, 0x0C, 0x00, 0x04, b'M', b'Q', b'T', b'T', 0x03, 0x02, 0x00, 0x0A, 0x00, 0x00];
    assert_eq!(Err(Error::InvalidProtocol(3)), decode_slice(&bad_level).map(|_| ()));
    bad_level[8] = 0x04;
    bad_level[9] = 0x01; // reserved bit
    assert_eq!(Err(Error::InvalidHeader), decode_slice(&bad_level).map(|_| ()));
    bad_level[9] = 0x02;
    assert!(matches!(decode_slice(&bad_level), Ok(Some((Packet::Connect(_), 14)))));
}

#[test]
fn suback_codes() {
    let data = [0x90, 0x05, 0x00, 0x07, 0x00, 0x02, 0x80];
    match decode_slice(&data) {
        Ok(Some((Packet::Suback(s), 7))) => {
            assert_eq!(s.pid, pid(7));
            assert_eq!(s.return_codes.len(), 3);
            assert_eq!(s.return_codes[0], mqttrs::SubscribeReturnCodes::Success(QoS::AtMostOnce));
            assert_eq!(s.return_codes[1], mqttrs::SubscribeReturnCodes::Success(QoS::ExactlyOnce));
            assert_eq!(s.return_codes[2], mqttrs::SubscribeReturnCodes::Failure);
        },
        other => panic!("unexpected {:?}", other),
    }
    assert_eq!(Err(Error::InvalidQos(3)), decode_slice(&[0x90, 0x03, 0x00, 0x07, 0x03]).map(|_| ()));
    assert_eq!(Err(Error::InvalidLength(0)), decode_slice(&[0x90, 0x02, 0x00, 0x07]).map(|_| ()));
}

#[test]
fn publish_qos2_payload() {
    let data = [0x3D, 0x07, 0x00, 0x01, b't', 0x00, 0x05, b'h', b'i'];
    match decode_slice(&data) {
        Ok(Some((Packet::Publish(p), 9))) => {
            assert!(p.dup);
            assert!(p.retain);
            assert_eq!(p.qospid, QosPid::ExactlyOnce(pid(5)));
            assert_eq!(p.topic_name, "t");
            assert_eq!(p.payload, b"hi".to_vec());
        },
        other => panic!("unexpected {:?}", other),
    }
}
