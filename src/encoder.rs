use vstd::prelude::*;

use bytes::BytesMut;

use crate::buffer::{append, bytes_of, room};
use crate::connect::{connack_body, connect_body, connect_fits};
use crate::header::{header_byte, plain_header, varint, write_header_byte, write_length, Header};
use crate::packet::{type_of, Packet, PacketV};
use crate::publish::{publish_body, publish_fits, publish_header};
use crate::subscribe::{subscribe_body, subscribe_fits, suback_body, unsubscribe_body, unsubscribe_fits};
use crate::utils::{Error, MAX_REMAINING_LENGTH};
use crate::wire::{be16, write_slice, write_u16};

verus! {

/// The fixed header that encodes a packet.
pub open spec fn packet_header(p: PacketV) -> Header {
    match p {
        PacketV::Publish(pp) => publish_header(pp),
        _ => plain_header(type_of(p)),
    }
}

/// Encoded body of a packet.
pub open spec fn packet_body(p: PacketV) -> Seq<u8> {
    match p {
        PacketV::Connect(c) => connect_body(c),
        PacketV::Connack(c) => connack_body(c),
        PacketV::Publish(pp) => publish_body(pp),
        PacketV::Puback(pid) => be16(pid@),
        PacketV::Pubrec(pid) => be16(pid@),
        PacketV::Pubrel(pid) => be16(pid@),
        PacketV::Pubcomp(pid) => be16(pid@),
        PacketV::Subscribe(s) => subscribe_body(s),
        PacketV::Suback(s) => suback_body(s),
        PacketV::Unsubscribe(s) => unsubscribe_body(s),
        PacketV::Unsuback(pid) => be16(pid@),
        PacketV::Pingreq => seq![],
        PacketV::Pingresp => seq![],
        PacketV::Disconnect => seq![],
    }
}

/// Every string and byte string of the packet fits its length prefix.
pub open spec fn packet_fits(p: PacketV) -> bool {
    match p {
        PacketV::Connect(c) => connect_fits(c),
        PacketV::Publish(pp) => publish_fits(pp),
        PacketV::Subscribe(s) => subscribe_fits(s),
        PacketV::Unsubscribe(s) => unsubscribe_fits(s),
        _ => true,
    }
}

/// The packet has a wire form: its fields fit their length prefixes and its
/// body fits the remaining-length field.
pub open spec fn encodable(p: PacketV) -> bool {
    packet_fits(p) && packet_body(p).len() <= MAX_REMAINING_LENGTH
}

/// Wire form of a packet: first byte, remaining length, body.
pub open spec fn spec_encode(p: PacketV) -> Seq<u8> {
    seq![header_byte(packet_header(p))] + varint(packet_body(p).len()) + packet_body(p)
}

fn packet_header_of(p: &Packet) -> (r: Header)
    ensures
        r == packet_header(p@),
{
    match p {
        Packet::Publish(pp) => pp.header(),
        _ => {
            let t = p.get_type();
            Header { typ: t, dup: false, qos: crate::utils::QoS::AtMostOnce, retain: false }
        },
    }
}

/// Appends the body of `p`.
fn write_body(p: &Packet, out: &mut Vec<u8>) -> (r: Result<(), Error>)
    ensures
        r is Ok <==> packet_fits(p@),
        r is Ok ==> final(out)@ == old(out)@ + packet_body(p@),
        r matches Err(e) ==> e is InvalidLength,
{
    match p {
        Packet::Connect(c) => c.to_buffer(out),
        Packet::Connack(c) => {
            c.to_buffer(out);
            Ok(())
        },
        Packet::Publish(pp) => pp.to_buffer(out),
        Packet::Puback(pid) | Packet::Pubrec(pid) | Packet::Pubrel(pid) | Packet::Pubcomp(pid)
        | Packet::Unsuback(pid) => {
            write_u16(out, pid.get());
            Ok(())
        },
        Packet::Subscribe(s) => s.to_buffer(out),
        Packet::Suback(s) => {
            s.to_buffer(out);
            Ok(())
        },
        Packet::Unsubscribe(s) => s.to_buffer(out),
        Packet::Pingreq | Packet::Pingresp | Packet::Disconnect => {
            assert(out@ =~= out@ + packet_body(p@));
            Ok(())
        },
    }
}

/// The wire form of `p`. A field longer than 65535 bytes, or a body longer
/// than the remaining-length maximum, gives `InvalidLength`.
pub fn encode_to_vec(p: &Packet) -> (r: Result<Vec<u8>, Error>)
    ensures
        r is Ok <==> encodable(p@),
        r matches Ok(v) ==> v@ == spec_encode(p@),
        r matches Err(e) ==> e is InvalidLength,
{
    let mut body: Vec<u8> = Vec::new();
    write_body(p, &mut body)?;
    assert(body@ =~= packet_body(p@));
    let mut out: Vec<u8> = Vec::new();
    out.push(write_header_byte(packet_header_of(p)));
    write_length(&mut out, body.len())?;
    write_slice(&mut out, body.as_slice());
    assert(out@ =~= spec_encode(p@));
    Ok(out)
}

/// The wire form of `p` when it takes at most `room` bytes.
///
/// A packet without a wire form gives `InvalidLength`; one whose wire form is
/// longer than `room` gives `WriteZero`.
pub fn encode_within(p: &Packet, room: usize) -> (r: Result<Vec<u8>, Error>)
    ensures
        !encodable(p@) ==> (r matches Err(e) && e is InvalidLength),
        encodable(p@) && spec_encode(p@).len() <= room ==> (r matches Ok(v) && v@ == spec_encode(
            p@,
        )),
        encodable(p@) && spec_encode(p@).len() > room ==> r == Err::<Vec<u8>, Error>(
            Error::WriteZero,
        ),
{
    let v = encode_to_vec(p)?;
    if v.len() > room {
        return Err(Error::WriteZero);
    }
    Ok(v)
}

/// Encodes a [`Packet`] at the end of `buf` and returns the number of bytes
/// written.
///
/// A packet without a wire form gives `InvalidLength`; a buffer without room
/// for the whole packet gives `WriteZero`. On an error `buf` is left as it was.
pub fn encode(p: &Packet, buf: &mut BytesMut) -> (r: Result<usize, Error>)
    ensures
        !encodable(p@) ==> (r matches Err(e) && e is InvalidLength) && *final(buf) == *old(buf),
        encodable(p@) ==> (r == Ok::<usize, Error>(spec_encode(p@).len() as usize) && bytes_of(
            *final(buf),
        ) == bytes_of(*old(buf)) + spec_encode(p@)) || (r == Err::<usize, Error>(Error::WriteZero)
            && *final(buf) == *old(buf)),
{
    let v = encode_within(p, room(buf))?;
    append(buf, v.as_slice());
    Ok(v.len())
}

} // verus!
