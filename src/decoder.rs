use vstd::prelude::*;
use vstd::slice::slice_subrange;

use bytes::BytesMut;

use crate::buffer::{bytes_of, consume, contents};
use crate::connect::{spec_parse_connack, spec_parse_connect, Connack, Connect};
use crate::header::{lemma_pow128_values, pow128, read_header_byte, read_length, scan_length, spec_header, Header, LengthRead, LengthScan};
use crate::packet::{Packet, PacketType, PacketV};
use crate::publish::{spec_parse_publish, Publish};
use crate::subscribe::{
    spec_parse_suback, spec_parse_subscribe, spec_parse_unsubscribe, Suback, Subscribe, Unsubscribe,
};
use crate::utils::{Error, Pid};
use crate::wire::{read_pid, spec_read_pid};

verus! {

/// Outcome of decoding the front of a byte buffer.
pub ghost enum Decoded {
    /// A packet, and the number of bytes it took.
    Complete(PacketV, nat),
    /// The buffer holds no full packet yet.
    Incomplete,
    /// The bytes are not a valid packet.
    Failed(Error),
}

/// A body that is a packet identifier alone.
pub open spec fn spec_parse_pid_only(s: Seq<u8>) -> Result<Pid, Error> {
    match spec_read_pid(s, 0) {
        Err(e) => Err(e),
        Ok((pid, p)) => if p < s.len() {
            Err(Error::TrailingBytes)
        } else {
            Ok(pid)
        },
    }
}

/// A body that must be empty.
pub open spec fn spec_parse_empty(s: Seq<u8>, p: PacketV) -> Result<PacketV, Error> {
    if s.len() == 0 {
        Ok(p)
    } else {
        Err(Error::TrailingBytes)
    }
}

pub open spec fn map_pid(r: Result<Pid, Error>, f: spec_fn(Pid) -> PacketV) -> Result<PacketV, Error> {
    match r {
        Ok(pid) => Ok(f(pid)),
        Err(e) => Err(e),
    }
}

/// Decodes the body of a packet whose fixed header is `h`.
pub open spec fn spec_parse_body(h: Header, s: Seq<u8>) -> Result<PacketV, Error> {
    match h.typ {
        PacketType::Connect => match spec_parse_connect(s) {
            Ok(c) => Ok(PacketV::Connect(c)),
            Err(e) => Err(e),
        },
        PacketType::Connack => match spec_parse_connack(s) {
            Ok(c) => Ok(PacketV::Connack(c)),
            Err(e) => Err(e),
        },
        PacketType::Publish => match spec_parse_publish(h, s) {
            Ok(p) => Ok(PacketV::Publish(p)),
            Err(e) => Err(e),
        },
        PacketType::Puback => map_pid(spec_parse_pid_only(s), |pid| PacketV::Puback(pid)),
        PacketType::Pubrec => map_pid(spec_parse_pid_only(s), |pid| PacketV::Pubrec(pid)),
        PacketType::Pubrel => map_pid(spec_parse_pid_only(s), |pid| PacketV::Pubrel(pid)),
        PacketType::Pubcomp => map_pid(spec_parse_pid_only(s), |pid| PacketV::Pubcomp(pid)),
        PacketType::Subscribe => match spec_parse_subscribe(s) {
            Ok(p) => Ok(PacketV::Subscribe(p)),
            Err(e) => Err(e),
        },
        PacketType::Suback => match spec_parse_suback(s) {
            Ok(p) => Ok(PacketV::Suback(p)),
            Err(e) => Err(e),
        },
        PacketType::Unsubscribe => match spec_parse_unsubscribe(s) {
            Ok(p) => Ok(PacketV::Unsubscribe(p)),
            Err(e) => Err(e),
        },
        PacketType::Unsuback => map_pid(spec_parse_pid_only(s), |pid| PacketV::Unsuback(pid)),
        PacketType::Pingreq => spec_parse_empty(s, PacketV::Pingreq),
        PacketType::Pingresp => spec_parse_empty(s, PacketV::Pingresp),
        PacketType::Disconnect => spec_parse_empty(s, PacketV::Disconnect),
    }
}

/// Decodes the packet at the front of `s`: the first byte, the remaining
/// length, then the body once all of it is there.
pub open spec fn spec_decode(s: Seq<u8>) -> Decoded {
    if s.len() < 2 {
        Decoded::Incomplete
    } else {
        match spec_header(s[0]) {
            Err(e) => Decoded::Failed(e),
            Ok(h) => match scan_length(s, 1, 0, 0) {
                LengthScan::Short => Decoded::Incomplete,
                LengthScan::Overflow(v) => Decoded::Failed(Error::InvalidLength(v as usize)),
                LengthScan::Done(n, size) => if s.len() < 1 + size + n {
                    Decoded::Incomplete
                } else {
                    match spec_parse_body(h, s.subrange(1 + size as int, (1 + size + n) as int)) {
                        Ok(p) => Decoded::Complete(p, 1 + size + n),
                        Err(e) => Decoded::Failed(e),
                    }
                },
            },
        }
    }
}

pub proof fn lemma_scan_bounds(s: Seq<u8>, start: int, i: nat, acc: nat)
    requires
        0 <= start,
        i <= 4,
        acc < pow128(i),
    ensures
        scan_length(s, start, i, acc) matches LengthScan::Done(v, k) ==> i < k <= 4 && start + k
            <= s.len() && v < 268435456,
    decreases 4 - i,
{
    lemma_pow128_values();
    if i < 4 && start + i < s.len() {
        let b = s[start + i];
        let acc2 = acc + (b % 128) as nat * pow128(i);
        assert(acc2 < pow128(i + 1)) by {
            assert((b % 128) as nat * pow128(i) <= 127 * pow128(i)) by (nonlinear_arith)
                requires
                    (b % 128) as nat <= 127,
            ;
            assert(pow128(i + 1) == 128 * pow128(i));
        }
        if b >= 128 {
            lemma_scan_bounds(s, start, i + 1, acc2);
        } else {
            assert(pow128(i + 1) <= 268435456) by {
                if i == 0 {
                } else if i == 1 {
                } else if i == 2 {
                } else {
                }
            }
        }
    }
}

fn read_pid_body(body: &[u8]) -> (r: Result<Pid, Error>)
    ensures
        r == spec_parse_pid_only(body@),
{
    let (pid, p) = read_pid(body, 0)?;
    if p < body.len() {
        return Err(Error::TrailingBytes);
    }
    Ok(pid)
}

fn read_empty_body(body: &[u8], p: Packet) -> (r: Result<Packet, Error>)
    ensures
        match r {
            Ok(q) => spec_parse_empty(body@, p@) == Ok::<PacketV, Error>(q@),
            Err(e) => spec_parse_empty(body@, p@) == Err::<PacketV, Error>(e),
        },
{
    if body.len() == 0 {
        Ok(p)
    } else {
        Err(Error::TrailingBytes)
    }
}

/// Decodes the body of a packet whose fixed header is `header`.
pub fn read_packet(header: &Header, body: &[u8]) -> (r: Result<Packet, Error>)
    ensures
        match r {
            Ok(p) => spec_parse_body(*header, body@) == Ok::<PacketV, Error>(p@),
            Err(e) => spec_parse_body(*header, body@) == Err::<PacketV, Error>(e),
        },
{
    match header.typ {
        PacketType::Connect => Ok(Packet::Connect(Connect::from_buffer(body)?)),
        PacketType::Connack => Ok(Packet::Connack(Connack::from_buffer(body)?)),
        PacketType::Publish => Ok(Packet::Publish(Publish::from_buffer(header, body)?)),
        PacketType::Puback => Ok(Packet::Puback(read_pid_body(body)?)),
        PacketType::Pubrec => Ok(Packet::Pubrec(read_pid_body(body)?)),
        PacketType::Pubrel => Ok(Packet::Pubrel(read_pid_body(body)?)),
        PacketType::Pubcomp => Ok(Packet::Pubcomp(read_pid_body(body)?)),
        PacketType::Subscribe => Ok(Packet::Subscribe(Subscribe::from_buffer(body)?)),
        PacketType::Suback => Ok(Packet::Suback(Suback::from_buffer(body)?)),
        PacketType::Unsubscribe => Ok(Packet::Unsubscribe(Unsubscribe::from_buffer(body)?)),
        PacketType::Unsuback => Ok(Packet::Unsuback(read_pid_body(body)?)),
        PacketType::Pingreq => read_empty_body(body, Packet::Pingreq),
        PacketType::Pingresp => read_empty_body(body, Packet::Pingresp),
        PacketType::Disconnect => read_empty_body(body, Packet::Disconnect),
    }
}

/// Reads the fixed header at the front of `buf`: the header, the remaining
/// length and the fixed header's size; `None` while bytes are missing.
pub fn read_header(buf: &[u8]) -> (r: Result<Option<(Header, usize, usize)>, Error>)
    ensures
        buf@.len() < 2 ==> r == Ok::<Option<(Header, usize, usize)>, Error>(None),
        buf@.len() >= 2 ==> match spec_header(buf@[0]) {
            Err(e) => r == Err::<Option<(Header, usize, usize)>, Error>(e),
            Ok(h) => match scan_length(buf@, 1, 0, 0) {
                LengthScan::Short => r == Ok::<Option<(Header, usize, usize)>, Error>(None),
                LengthScan::Overflow(v) => r == Err::<Option<(Header, usize, usize)>, Error>(
                    Error::InvalidLength(v as usize),
                ),
                LengthScan::Done(n, size) => r == Ok::<Option<(Header, usize, usize)>, Error>(
                    Some((h, n as usize, (1 + size) as usize)),
                ) && 1 + size <= buf@.len() && size <= 4 && n < 268435456,
            },
        },
{
    if buf.len() < 2 {
        return Ok(None);
    }
    let header = read_header_byte(buf[0])?;
    proof {
        lemma_scan_bounds(buf@, 1, 0, 0);
    }
    match read_length(buf, 1) {
        LengthRead::Short => Ok(None),
        LengthRead::Overflow(v) => Err(Error::InvalidLength(v)),
        LengthRead::Done(n, size) => Ok(Some((header, n, size + 1))),
    }
}

/// Decodes the packet at the front of `buf`: the packet and the number of
/// bytes it took, `None` while bytes are missing, or the error.
pub fn decode_slice(buf: &[u8]) -> (r: Result<Option<(Packet, usize)>, Error>)
    ensures
        match spec_decode(buf@) {
            Decoded::Complete(p, n) => r matches Ok(Some((q, m))) && q@ == p && m == n,
            Decoded::Incomplete => r matches Ok(None),
            Decoded::Failed(e) => r == Err::<Option<(Packet, usize)>, Error>(e),
        },
{
    let (header, n, header_size) = match read_header(buf)? {
        Some(h) => h,
        None => {
            return Ok(None);
        },
    };
    if buf.len() - header_size < n {
        return Ok(None);
    }
    let body = slice_subrange(buf, header_size, header_size + n);
    assert(body@ == buf@.subrange(header_size as int, (header_size + n) as int));
    let p = read_packet(&header, body)?;
    Ok(Some((p, header_size + n)))
}

/// Decodes network bytes into a [`Packet`].
///
/// On `Ok(Some(p))` the packet's bytes are removed from the front of
/// `buffer`; on `Ok(None)` more bytes are needed and `buffer` is left as it
/// was; on an error `buffer` is left as it was too.
pub fn decode(buffer: &mut BytesMut) -> (r: Result<Option<Packet>, Error>)
    ensures
        match spec_decode(bytes_of(*old(buffer))) {
            Decoded::Complete(p, n) => r matches Ok(Some(q)) && q@ == p && bytes_of(*final(buffer))
                == bytes_of(*old(buffer)).skip(n as int),
            Decoded::Incomplete => r matches Ok(None) && *final(buffer) == *old(buffer),
            Decoded::Failed(e) => r == Err::<Option<Packet>, Error>(e) && *final(buffer) == *old(
                buffer,
            ),
        },
{
    let r = decode_slice(contents(buffer));
    match r {
        Ok(Some((p, n))) => {
            consume(buffer, n);
            Ok(Some(p))
        },
        Ok(None) => Ok(None),
        Err(e) => Err(e),
    }
}

} // verus!
