use vstd::prelude::*;
use vstd::utf8::{
    encode_utf8, encode_utf8_decode_utf8, encode_utf8_valid_utf8, is_continuation_byte,
    length_of_first_scalar, pop_first_scalar, valid_utf8,
};

use crate::connect::{
    connect_body, connect_fits, connect_flags, flag_clean, flag_password, flag_user, flag_will,
    flag_will_qos, flag_will_retain, mqtt_name, opt_bytes_bytes, opt_str_bytes, spec_parse_connect,
    spec_read_opt_bytes, spec_read_opt_string, spec_read_will, will_bytes, ConnectReturnCode,
    ConnectV, LastWillV,
};
use crate::decoder::{spec_decode, spec_parse_body, Decoded};
use crate::encoder::{encodable, packet_body, packet_header, spec_encode};
use crate::header::{
    lemma_header_round_trip, lemma_pow128_values, pow128, scan_length, spec_header, varint,
    varint_size, Header, LengthScan,
};
use crate::packet::{PacketType, PacketV};
use crate::publish::{
    publish_body, publish_fits, publish_header, qospid_bytes, spec_parse_publish, PublishV,
};
use crate::subscribe::{
    return_code_bytes, spec_parse_return_codes, spec_parse_sub_topics, spec_parse_suback,
    spec_parse_subscribe, spec_parse_unsub_topics, spec_parse_unsubscribe, sub_topic_bytes,
    suback_body, subscribe_body, subscribe_fits, unsub_topic_bytes, unsubscribe_body,
    unsubscribe_fits, SubackV, SubscribeReturnCodes, SubscribeTopicV, SubscribeV, UnsubscribeV,
};
use crate::utils::{Error, Pid, QoS, QosPid, MAX_REMAINING_LENGTH};
use crate::wire::{
    be16, concat_map, fits, lp_bytes, lp_str, prepend, spec_read_bytes, spec_read_pid,
    spec_read_string, spec_read_u16, spec_read_u8, str_fits,
};

verus! {

/// `s` holds `x` at `pos`.
pub open spec fn has_at(s: Seq<u8>, pos: int, x: Seq<u8>) -> bool {
    0 <= pos && pos + x.len() <= s.len() && s.subrange(pos, pos + x.len()) == x
}

pub proof fn lemma_has_at_split(s: Seq<u8>, pos: int, x: Seq<u8>, y: Seq<u8>)
    requires
        has_at(s, pos, x + y),
    ensures
        has_at(s, pos, x),
        has_at(s, pos + x.len(), y),
{
    let w = s.subrange(pos, pos + x.len() + y.len());
    assert(w == x + y);
    assert(s.subrange(pos, pos + x.len()) =~= w.subrange(0, x.len() as int));
    assert(w.subrange(0, x.len() as int) =~= x);
    assert(s.subrange(pos + x.len(), pos + x.len() + y.len()) =~= w.subrange(
        x.len() as int,
        (x.len() + y.len()) as int,
    ));
    assert(w.subrange(x.len() as int, (x.len() + y.len()) as int) =~= y);
}

/// The variable-byte form of a length takes `varint_size` bytes.
pub proof fn lemma_varint_size(n: nat)
    requires
        n <= MAX_REMAINING_LENGTH,
    ensures
        varint(n).len() == varint_size(n),
{
    if n >= 128 {
        let n1 = n / 128;
        if n1 >= 128 {
            let n2 = n1 / 128;
            if n2 >= 128 {
                let n3 = n2 / 128;
                assert(n3 < 128);
                assert(varint(n3).len() == 1);
            }
            assert(varint(n2).len() == varint_size(n2));
        }
        assert(varint(n1).len() == varint_size(n1));
    }
}

/// Reading a variable-byte integer finds the value that was written.
pub proof fn lemma_scan_varint(s: Seq<u8>, start: int, i: nat, acc: nat, m: nat)
    requires
        0 <= start,
        i < 4,
        m < pow128((4 - i) as nat),
        has_at(s, start + i, varint(m)),
    ensures
        scan_length(s, start, i, acc) == LengthScan::Done(acc + m * pow128(i), i + varint(m).len()),
    decreases m,
{
    lemma_pow128_values();
    let v = varint(m);
    assert(s[start + i] == v[0]) by {
        assert(s.subrange(start + i, start + i + v.len())[0] == s[start + i]);
    }
    if m < 128 {
        assert(m % 128 == m);
    } else {
        let rest = varint(m / 128);
        assert(v == seq![(m % 128 + 128) as u8] + rest);
        assert(pow128((4 - i) as nat) == 128 * pow128((4 - (i + 1)) as nat));
        assert(m / 128 < pow128((4 - (i + 1)) as nat));
        lemma_has_at_split(s, start + i, seq![(m % 128 + 128) as u8], rest);
        let b = s[start + i];
        assert(b % 128 == m % 128);
        let acc2 = acc + (b % 128) as nat * pow128(i);
        lemma_scan_varint(s, start, i + 1, acc2, m / 128);
        assert(pow128(i + 1) == 128 * pow128(i));
        assert(acc2 + (m / 128) * pow128(i + 1) == acc + m * pow128(i)) by (nonlinear_arith)
            requires
                acc2 == acc + (m % 128) * pow128(i),
                pow128(i + 1) == 128 * pow128(i),
                m == 128 * (m / 128) + m % 128,
        ;
    }
}

/// Reading a variable-byte integer of which only a part has arrived asks for more.
pub proof fn lemma_scan_varint_prefix(s: Seq<u8>, start: int, i: nat, acc: nat, m: nat)
    requires
        0 <= start,
        i < 4,
        m < pow128((4 - i) as nat),
        start + i <= s.len() < start + i + varint(m).len(),
        s.subrange(start + i, s.len() as int) == varint(m).subrange(0, s.len() - start - i),
    ensures
        scan_length(s, start, i, acc) == LengthScan::Short,
    decreases m,
{
    lemma_pow128_values();
    let v = varint(m);
    if start + i < s.len() {
        assert(s[start + i] == v[0]) by {
            assert(s.subrange(start + i, s.len() as int)[0] == s[start + i]);
        }
        if m >= 128 {
            let rest = varint(m / 128);
            assert(v == seq![(m % 128 + 128) as u8] + rest);
            assert(pow128((4 - i) as nat) == 128 * pow128((4 - (i + 1)) as nat));
            let w = s.subrange(start + i, s.len() as int);
            assert(s.subrange(start + i + 1, s.len() as int) =~= w.subrange(1, w.len() as int));
            assert(w.subrange(1, w.len() as int) =~= rest.subrange(
                0,
                s.len() - start - (i + 1),
            ));
            let b = s[start + i];
            lemma_scan_varint_prefix(s, start, i + 1, acc + (b % 128) as nat * pow128(i), m / 128);
        }
    }
}

/// Encoder length agreement: the wire form of a packet is one byte, then the
/// remaining length in `varint_size` bytes, then that many bytes of body.
pub proof fn law_encoded_length(p: PacketV)
    requires
        encodable(p),
    ensures
        spec_encode(p).len() == 1 + varint_size(packet_body(p).len()) + packet_body(p).len(),
{
    lemma_varint_size(packet_body(p).len());
}

/// Prefix stability: any proper prefix of an encoded packet decodes as
/// incomplete.
pub proof fn law_prefix_incomplete(p: PacketV, k: nat)
    requires
        encodable(p),
        k < spec_encode(p).len(),
    ensures
        spec_decode(spec_encode(p).take(k as int)) == Decoded::Incomplete,
{
    let b = spec_encode(p);
    let s = b.take(k as int);
    let h = packet_header(p);
    let body = packet_body(p);
    let n = body.len();
    let v = varint(n);
    lemma_pow128_values();
    if k >= 2 {
        assert(s[0] == b[0]);
        lemma_header_round_trip(h);
        assert(spec_header(s[0]) == Ok::<_, Error>(h));
        if k >= 1 + v.len() {
            assert(s.subrange(1, 1 + v.len() as int) =~= v);
            lemma_scan_varint(s, 1, 0, 0, n);
        } else {
            assert(s.subrange(1, s.len() as int) =~= v.subrange(0, s.len() - 1));
            lemma_scan_varint_prefix(s, 1, 0, 0, n);
        }
    }
}

/// Varint cap: four length bytes that all carry the continuation bit are
/// refused with `InvalidLength`, whatever follows.
pub proof fn law_varint_cap(s: Seq<u8>)
    requires
        s.len() >= 5,
        spec_header(s[0]) is Ok,
        s[1] == 0xFF,
        s[2] == 0xFF,
        s[3] == 0xFF,
        s[4] == 0xFF,
    ensures
        spec_decode(s) == Decoded::Failed(Error::InvalidLength(268435455)),
{
    lemma_pow128_values();
    reveal_with_fuel(scan_length, 5);
}

// ---------------------------------------------------------------------------
// Reading back what was written
// ---------------------------------------------------------------------------

pub proof fn lemma_read_u16(s: Seq<u8>, pos: int, v: u16)
    requires
        has_at(s, pos, be16(v)),
    ensures
        spec_read_u16(s, pos) == Ok::<(u16, int), Error>((v, pos + 2)),
{
    let w = s.subrange(pos, pos + 2);
    assert(s[pos] == w[0] && s[pos + 1] == w[1]);
    assert((v / 256) as u8 as int * 256 + (v % 256) as u8 as int == v);
}

pub proof fn lemma_read_pid(s: Seq<u8>, pos: int, pid: Pid)
    requires
        pid@ != 0,
        has_at(s, pos, be16(pid@)),
    ensures
        spec_read_pid(s, pos) == Ok::<(Pid, int), Error>((pid, pos + 2)),
{
    lemma_read_u16(s, pos, pid@);
    Pid::lemma_view_injective(pid);
}

pub proof fn lemma_read_bytes(s: Seq<u8>, pos: int, b: Seq<u8>)
    requires
        fits(b),
        has_at(s, pos, lp_bytes(b)),
    ensures
        spec_read_bytes(s, pos) == Ok::<(Seq<u8>, int), Error>((b, pos + 2 + b.len())),
{
    lemma_has_at_split(s, pos, be16(b.len() as u16), b);
    lemma_read_u16(s, pos, b.len() as u16);
}

pub proof fn lemma_read_string(s: Seq<u8>, pos: int, c: Seq<char>)
    requires
        str_fits(c),
        has_at(s, pos, lp_str(c)),
    ensures
        spec_read_string(s, pos) == Ok::<(Seq<char>, int), Error>((c, pos + lp_str(c).len())),
{
    lemma_read_bytes(s, pos, encode_utf8(c));
    encode_utf8_valid_utf8(c);
    encode_utf8_decode_utf8(c);
}

// ---------------------------------------------------------------------------
// Identifier zero
// ---------------------------------------------------------------------------

/// Packet types whose body starts with a packet identifier.
pub open spec fn pid_first(t: PacketType) -> bool {
    t == PacketType::Puback || t == PacketType::Pubrec || t == PacketType::Pubrel || t
        == PacketType::Pubcomp || t == PacketType::Unsuback || t == PacketType::Subscribe || t
        == PacketType::Suback || t == PacketType::Unsubscribe
}

/// Pid-zero rejection: a complete frame whose body starts with the identifier
/// 0x0000 is refused with `InvalidPid`.
pub proof fn law_pid_zero(s: Seq<u8>, h: Header, n: nat, size: nat)
    requires
        s.len() >= 2,
        spec_header(s[0]) == Ok::<Header, Error>(h),
        pid_first(h.typ),
        scan_length(s, 1, 0, 0) == LengthScan::Done(n, size),
        s.len() >= 1 + size + n,
        n >= 2,
        s[1 + size as int] == 0,
        s[2 + size as int] == 0,
    ensures
        spec_decode(s) == Decoded::Failed(Error::InvalidPid),
{
    let body = s.subrange(1 + size as int, (1 + size + n) as int);
    assert(body[0] == 0 && body[1] == 0);
}

/// Pid-zero rejection for Publish at QoS 1 or 2: the identifier follows the
/// topic name.
pub proof fn law_publish_pid_zero(s: Seq<u8>, h: Header, n: nat, size: nat, topic: Seq<char>)
    requires
        s.len() >= 2,
        spec_header(s[0]) == Ok::<Header, Error>(h),
        h.typ == PacketType::Publish,
        h.qos != QoS::AtMostOnce,
        scan_length(s, 1, 0, 0) == LengthScan::Done(n, size),
        s.len() >= 1 + size + n,
        str_fits(topic),
        n >= lp_str(topic).len() + 2,
        has_at(s, 1 + size as int, lp_str(topic) + seq![0u8, 0u8]),
    ensures
        spec_decode(s) == Decoded::Failed(Error::InvalidPid),
{
    let body = s.subrange(1 + size as int, (1 + size + n) as int);
    let x = lp_str(topic) + seq![0u8, 0u8];
    assert(has_at(body, 0, x)) by {
        assert(body.subrange(0, x.len() as int) =~= s.subrange(1 + size as int, (1 + size + x.len()) as int));
    }
    lemma_has_at_split(body, 0, lp_str(topic), seq![0u8, 0u8]);
    lemma_read_string(body, 0, topic);
    let tl = lp_str(topic).len() as int;
    let w = body.subrange(tl, tl + 2);
    assert(body[tl] == w[0] && body[tl + 1] == w[1]);
}

// ---------------------------------------------------------------------------
// UTF-8
// ---------------------------------------------------------------------------

/// A byte 0xC0 followed by a byte that is not a continuation byte is never
/// part of valid UTF-8.
pub proof fn lemma_c0_invalid(b: Seq<u8>, i: int)
    requires
        0 <= i,
        i + 1 < b.len(),
        b[i] == 0xC0,
        !is_continuation_byte(b[i + 1]),
    ensures
        !valid_utf8(b),
    decreases b.len(),
{
    if valid_utf8(b) {
        let k = length_of_first_scalar(b);
        if i >= k {
            let rest = pop_first_scalar(b);
            assert(rest[i - k] == b[i] && rest[i - k + 1] == b[i + 1]);
            lemma_c0_invalid(rest, i - k);
        }
    }
}

/// UTF-8 enforcement for one string field: a declared string whose bytes hold
/// 0xC0 followed by a non-continuation byte is refused with `InvalidString`.
pub proof fn law_string_c0(s: Seq<u8>, pos: int, i: int)
    requires
        0 <= pos,
        pos + 2 <= s.len(),
        pos + 2 + (s[pos] as int * 256 + s[pos + 1] as int) <= s.len(),
        0 <= i,
        i + 1 < s[pos] as int * 256 + s[pos + 1] as int,
        s[pos + 2 + i] == 0xC0,
        !is_continuation_byte(s[pos + 3 + i]),
    ensures
        spec_read_string(s, pos) == Err::<(Seq<char>, int), Error>(Error::InvalidString),
{
    let n = s[pos] as int * 256 + s[pos + 1] as int;
    let b = s.subrange(pos + 2, pos + 2 + n);
    assert(b[i] == s[pos + 2 + i] && b[i + 1] == s[pos + 3 + i]);
    lemma_c0_invalid(b, i);
}

/// UTF-8 enforcement for Publish: a complete Publish frame whose topic name
/// holds 0xC0 followed by a non-continuation byte is refused with
/// `InvalidString`.
pub proof fn law_publish_c0(s: Seq<u8>, h: Header, n: nat, size: nat, i: int)
    requires
        s.len() >= 2,
        spec_header(s[0]) == Ok::<Header, Error>(h),
        h.typ == PacketType::Publish,
        scan_length(s, 1, 0, 0) == LengthScan::Done(n, size),
        s.len() >= 1 + size + n,
        n >= 2,
        2 + (s[1 + size as int] as int * 256 + s[2 + size as int] as int) <= n,
        0 <= i,
        i + 1 < s[1 + size as int] as int * 256 + s[2 + size as int] as int,
        s[3 + size as int + i] == 0xC0,
        !is_continuation_byte(s[4 + size as int + i]),
    ensures
        spec_decode(s) == Decoded::Failed(Error::InvalidString),
{
    let body = s.subrange(1 + size as int, (1 + size + n) as int);
    assert(body[0] == s[1 + size as int] && body[1] == s[2 + size as int]);
    assert(body[2 + i] == s[3 + size as int + i] && body[3 + i] == s[4 + size as int + i]);
    law_string_c0(body, 0, i);
}

// ---------------------------------------------------------------------------
// Bodies read back
// ---------------------------------------------------------------------------

pub proof fn lemma_whole(s: Seq<u8>)
    ensures
        has_at(s, 0, s),
{
    assert(s.subrange(0, s.len() as int) =~= s);
}

pub proof fn lemma_concat_map_front<T>(ts: Seq<T>, f: spec_fn(T) -> Seq<u8>)
    requires
        ts.len() > 0,
    ensures
        concat_map(ts, f) == f(ts[0]) + concat_map(ts.drop_first(), f),
        concat_map(ts, f).len() >= f(ts[0]).len(),
{
}

pub proof fn lemma_sub_topics_round_trip(s: Seq<u8>, pos: int, ts: Seq<SubscribeTopicV>)
    requires
        forall|i: int| 0 <= i < ts.len() ==> str_fits(#[trigger] ts[i].topic_path),
        has_at(s, pos, concat_map(ts, sub_topic_bytes())),
        pos + concat_map(ts, sub_topic_bytes()).len() == s.len(),
    ensures
        spec_parse_sub_topics(s, pos) == Ok::<Seq<SubscribeTopicV>, Error>(ts),
    decreases ts.len(),
{
    if ts.len() == 0 {
        assert(ts =~= Seq::<SubscribeTopicV>::empty());
    } else {
        let t0 = ts[0];
        let name = lp_str(t0.topic_path);
        let q = seq![t0.qos.spec_to_u8()];
        let rest = concat_map(ts.drop_first(), sub_topic_bytes());
        lemma_concat_map_front(ts, sub_topic_bytes());
        assert(concat_map(ts, sub_topic_bytes()) == name + q + rest);
        lemma_has_at_split(s, pos, name + q, rest);
        lemma_has_at_split(s, pos, name, q);
        assert(str_fits(ts[0].topic_path));
        lemma_read_string(s, pos, t0.topic_path);
        let pos1 = pos + name.len();
        assert(pos < s.len());
        assert(s[pos1] == s.subrange(pos1, pos1 + 1)[0]);
        assert(spec_read_u8(s, pos1) == Ok::<(u8, int), Error>((t0.qos.spec_to_u8(), pos1 + 1)));
        assert(QoS::spec_from_u8(t0.qos.spec_to_u8()) == Ok::<QoS, Error>(t0.qos));
        let tail = ts.drop_first();
        assert forall|i: int| 0 <= i < tail.len() implies str_fits(#[trigger] tail[i].topic_path) by {
            assert(tail[i] == ts[i + 1]);
        }
        lemma_sub_topics_round_trip(s, pos1 + 1, tail);
        assert(seq![SubscribeTopicV { topic_path: t0.topic_path, qos: t0.qos }] + tail =~= ts);
        assert(spec_parse_sub_topics(s, pos) == prepend(
            seq![SubscribeTopicV { topic_path: t0.topic_path, qos: t0.qos }],
            spec_parse_sub_topics(s, pos1 + 1),
        ));
    }
}

pub proof fn lemma_return_codes_round_trip(s: Seq<u8>, pos: int, cs: Seq<SubscribeReturnCodes>)
    requires
        has_at(s, pos, concat_map(cs, return_code_bytes())),
        pos + concat_map(cs, return_code_bytes()).len() == s.len(),
    ensures
        spec_parse_return_codes(s, pos) == Ok::<Seq<SubscribeReturnCodes>, Error>(cs),
    decreases cs.len(),
{
    if cs.len() == 0 {
        assert(cs =~= Seq::<SubscribeReturnCodes>::empty());
    } else {
        let c = seq![cs[0].spec_to_u8()];
        let rest = concat_map(cs.drop_first(), return_code_bytes());
        lemma_concat_map_front(cs, return_code_bytes());
        lemma_has_at_split(s, pos, c, rest);
        assert(s[pos] == s.subrange(pos, pos + 1)[0]);
        assert(pos < s.len());
        assert(SubscribeReturnCodes::spec_from_u8(cs[0].spec_to_u8()) == Ok::<
            SubscribeReturnCodes,
            Error,
        >(cs[0]));
        lemma_return_codes_round_trip(s, pos + 1, cs.drop_first());
        assert(seq![cs[0]] + cs.drop_first() =~= cs);
    }
}

pub proof fn lemma_unsub_topics_round_trip(s: Seq<u8>, pos: int, ts: Seq<Seq<char>>)
    requires
        forall|i: int| 0 <= i < ts.len() ==> str_fits(#[trigger] ts[i]),
        has_at(s, pos, concat_map(ts, unsub_topic_bytes())),
        pos + concat_map(ts, unsub_topic_bytes()).len() == s.len(),
    ensures
        spec_parse_unsub_topics(s, pos) == Ok::<Seq<Seq<char>>, Error>(ts),
    decreases ts.len(),
{
    if ts.len() == 0 {
        assert(ts =~= Seq::<Seq<char>>::empty());
    } else {
        let name = lp_str(ts[0]);
        let rest = concat_map(ts.drop_first(), unsub_topic_bytes());
        lemma_concat_map_front(ts, unsub_topic_bytes());
        lemma_has_at_split(s, pos, name, rest);
        assert(str_fits(ts[0]));
        lemma_read_string(s, pos, ts[0]);
        assert(pos < s.len());
        let tail = ts.drop_first();
        assert forall|i: int| 0 <= i < tail.len() implies str_fits(#[trigger] tail[i]) by {
            assert(tail[i] == ts[i + 1]);
        }
        lemma_unsub_topics_round_trip(s, pos + name.len(), tail);
        assert(seq![ts[0]] + tail =~= ts);
    }
}

pub proof fn lemma_subscribe_round_trip(p: SubscribeV)
    requires
        p.pid@ != 0,
        p.topics.len() > 0,
        subscribe_fits(p),
    ensures
        spec_parse_subscribe(subscribe_body(p)) == Ok::<SubscribeV, Error>(p),
{
    let s = subscribe_body(p);
    let list = concat_map(p.topics, sub_topic_bytes());
    lemma_whole(s);
    lemma_has_at_split(s, 0, be16(p.pid@), list);
    lemma_read_pid(s, 0, p.pid);
    lemma_concat_map_front(p.topics, sub_topic_bytes());
    lemma_sub_topics_round_trip(s, 2, p.topics);
}

pub proof fn lemma_suback_round_trip(p: SubackV)
    requires
        p.pid@ != 0,
        p.return_codes.len() > 0,
    ensures
        spec_parse_suback(suback_body(p)) == Ok::<SubackV, Error>(p),
{
    let s = suback_body(p);
    let list = concat_map(p.return_codes, return_code_bytes());
    lemma_whole(s);
    lemma_has_at_split(s, 0, be16(p.pid@), list);
    lemma_read_pid(s, 0, p.pid);
    lemma_concat_map_front(p.return_codes, return_code_bytes());
    lemma_return_codes_round_trip(s, 2, p.return_codes);
}

pub proof fn lemma_unsubscribe_round_trip(p: UnsubscribeV)
    requires
        p.pid@ != 0,
        p.topics.len() > 0,
        unsubscribe_fits(p),
    ensures
        spec_parse_unsubscribe(unsubscribe_body(p)) == Ok::<UnsubscribeV, Error>(p),
{
    let s = unsubscribe_body(p);
    let list = concat_map(p.topics, unsub_topic_bytes());
    lemma_whole(s);
    lemma_has_at_split(s, 0, be16(p.pid@), list);
    lemma_read_pid(s, 0, p.pid);
    lemma_concat_map_front(p.topics, unsub_topic_bytes());
    lemma_unsub_topics_round_trip(s, 2, p.topics);
}

/// The identifier that a QoS 1 or 2 Publish carries is not 0.
pub open spec fn qospid_valid(q: QosPid) -> bool {
    match q {
        QosPid::AtMostOnce => true,
        QosPid::AtLeastOnce(pid) => pid@ != 0,
        QosPid::ExactlyOnce(pid) => pid@ != 0,
    }
}

pub proof fn lemma_publish_round_trip(p: PublishV)
    requires
        publish_fits(p),
        qospid_valid(p.qospid),
    ensures
        spec_parse_publish(publish_header(p), publish_body(p)) == Ok::<PublishV, Error>(p),
{
    let s = publish_body(p);
    let t = lp_str(p.topic_name);
    let q = qospid_bytes(p.qospid);
    lemma_whole(s);
    lemma_has_at_split(s, 0, t + q, p.payload);
    lemma_has_at_split(s, 0, t, q);
    lemma_read_string(s, 0, p.topic_name);
    match p.qospid {
        QosPid::AtMostOnce => {},
        QosPid::AtLeastOnce(pid) => lemma_read_pid(s, t.len() as int, pid),
        QosPid::ExactlyOnce(pid) => lemma_read_pid(s, t.len() as int, pid),
    }
    assert(s.subrange((t.len() + q.len()) as int, s.len() as int) =~= p.payload);
}

// ---------------------------------------------------------------------------
// Connect read back
// ---------------------------------------------------------------------------

pub proof fn lemma_connect_flags(c: ConnectV)
    ensures
        flag_user(connect_flags(c)) == c.username is Some,
        flag_password(connect_flags(c)) == c.password is Some,
        flag_will(connect_flags(c)) == c.last_will is Some,
        flag_clean(connect_flags(c)) == c.clean_session,
        connect_flags(c) % 2 == 0,
        c.last_will matches Some(w) ==> flag_will_qos(connect_flags(c)) == w.qos.spec_to_u8()
            && flag_will_retain(connect_flags(c)) == w.retain,
        c.last_will is None ==> flag_will_qos(connect_flags(c)) == 0 && !flag_will_retain(
            connect_flags(c),
        ),
{
    let u: int = if c.username is Some {
        1
    } else {
        0
    };
    let pw: int = if c.password is Some {
        1
    } else {
        0
    };
    let (w, wq, wr): (int, int, int) = match c.last_will {
        Some(lw) => (1, lw.qos.spec_to_u8() as int, if lw.retain {
            1int
        } else {
            0int
        }),
        None => (0, 0, 0),
    };
    let cl: int = if c.clean_session {
        1
    } else {
        0
    };
    let f = u * 128 + pw * 64 + wr * 32 + wq * 8 + w * 4 + cl * 2;
    assert(connect_flags(c) as int == f);
    assert(0 <= wq <= 2);
    assert(f / 128 == u && (f / 64) % 2 == pw && (f / 32) % 2 == wr && (f / 8) % 4 == wq && (f
        / 4) % 2 == w && (f / 2) % 2 == cl && f % 2 == 0) by (nonlinear_arith)
        requires
            f == u * 128 + pw * 64 + wr * 32 + wq * 8 + w * 4 + cl * 2,
            0 <= u <= 1,
            0 <= pw <= 1,
            0 <= wr <= 1,
            0 <= wq <= 2,
            0 <= w <= 1,
            0 <= cl <= 1,
    ;
}

/// The protocol name is the UTF-8 form of "MQTT".
pub proof fn lemma_mqtt_name()
    ensures
        encode_utf8(seq!['M', 'Q', 'T', 'T']) == mqtt_name(),
        str_fits(seq!['M', 'Q', 'T', 'T']),
{
    assert((77u32 & 0x7Fu32) == 77u32) by (bit_vector);
    assert((81u32 & 0x7Fu32) == 81u32) by (bit_vector);
    assert((84u32 & 0x7Fu32) == 84u32) by (bit_vector);
    assert(seq!['M', 'Q', 'T', 'T'].drop_first() =~= seq!['Q', 'T', 'T']);
    assert(seq!['Q', 'T', 'T'].drop_first() =~= seq!['T', 'T']);
    assert(seq!['T', 'T'].drop_first() =~= seq!['T']);
    assert(seq!['T'].drop_first() =~= Seq::<char>::empty());
    assert(encode_utf8(Seq::<char>::empty()) =~= Seq::<u8>::empty());
    assert(encode_utf8(seq!['T']) =~= seq![84u8]);
    assert(encode_utf8(seq!['T', 'T']) =~= seq![84u8, 84u8]);
    assert(encode_utf8(seq!['Q', 'T', 'T']) =~= seq![81u8, 84u8, 84u8]);
    assert(encode_utf8(seq!['M', 'Q', 'T', 'T']) =~= mqtt_name());
}

pub proof fn lemma_will_round_trip(s: Seq<u8>, pos: int, c: ConnectV)
    requires
        connect_fits(c),
        has_at(s, pos, will_bytes(c.last_will)),
    ensures
        spec_read_will(s, pos, connect_flags(c)) == Ok::<(Option<LastWillV>, int), Error>(
            (c.last_will, pos + will_bytes(c.last_will).len()),
        ),
{
    lemma_connect_flags(c);
    match c.last_will {
        Some(w) => {
            lemma_has_at_split(s, pos, lp_str(w.topic), lp_bytes(w.message));
            lemma_read_string(s, pos, w.topic);
            lemma_read_bytes(s, pos + lp_str(w.topic).len(), w.message);
            assert(QoS::spec_from_u8(w.qos.spec_to_u8()) == Ok::<QoS, Error>(w.qos));
        },
        None => {},
    }
}

pub proof fn lemma_opt_string_round_trip(s: Seq<u8>, pos: int, v: Option<Seq<char>>)
    requires
        v matches Some(x) ==> str_fits(x),
        has_at(s, pos, opt_str_bytes(v)),
    ensures
        spec_read_opt_string(s, pos, v is Some) == Ok::<(Option<Seq<char>>, int), Error>(
            (v, pos + opt_str_bytes(v).len()),
        ),
{
    if let Some(x) = v {
        lemma_read_string(s, pos, x);
    }
}

pub proof fn lemma_opt_bytes_round_trip(s: Seq<u8>, pos: int, v: Option<Seq<u8>>)
    requires
        v matches Some(x) ==> fits(x),
        has_at(s, pos, opt_bytes_bytes(v)),
    ensures
        spec_read_opt_bytes(s, pos, v is Some) == Ok::<(Option<Seq<u8>>, int), Error>(
            (v, pos + opt_bytes_bytes(v).len()),
        ),
{
    if let Some(x) = v {
        lemma_read_bytes(s, pos, x);
    }
}

#[verifier::rlimit(100)]
pub proof fn lemma_connect_round_trip(c: ConnectV)
    requires
        connect_fits(c),
        c.password is Some ==> c.username is Some,
    ensures
        spec_parse_connect(connect_body(c)) == Ok::<ConnectV, Error>(c),
{
    let f = connect_flags(c);
    lemma_connect_flags(c);
    lemma_mqtt_name();
    let name = seq!['M', 'Q', 'T', 'T'];
    let a = lp_bytes(mqtt_name());
    let b = seq![4u8, f];
    let k = be16(c.keep_alive);
    let d = lp_str(c.client_id);
    let e = will_bytes(c.last_will);
    let g = opt_str_bytes(c.username);
    let h = opt_bytes_bytes(c.password);
    let s = connect_body(c);
    assert(s == a + b + k + d + e + g + h);
    lemma_whole(s);
    lemma_has_at_split(s, 0, a + b + k + d + e + g, h);
    lemma_has_at_split(s, 0, a + b + k + d + e, g);
    lemma_has_at_split(s, 0, a + b + k + d, e);
    lemma_has_at_split(s, 0, a + b + k, d);
    lemma_has_at_split(s, 0, a + b, k);
    lemma_has_at_split(s, 0, a, b);
    assert(a == lp_str(name));
    lemma_read_string(s, 0, name);
    assert(s[6] == s.subrange(6, 8)[0] && s[7] == s.subrange(6, 8)[1]);
    lemma_read_u16(s, 8, c.keep_alive);
    lemma_read_string(s, 10, c.client_id);
    let pos5: int = 10 + d.len() as int;
    lemma_will_round_trip(s, pos5, c);
    let pos6: int = pos5 + e.len();
    lemma_opt_string_round_trip(s, pos6, c.username);
    let pos7: int = pos6 + g.len();
    lemma_opt_bytes_round_trip(s, pos7, c.password);
    assert(pos7 + h.len() == s.len());
}

// ---------------------------------------------------------------------------
// Round trip
// ---------------------------------------------------------------------------

/// A packet that decoding can give back: it has a wire form, its identifiers
/// are not 0, its lists are not empty, and a Connect with a password has a
/// user name.
pub open spec fn packet_valid(p: PacketV) -> bool {
    &&& encodable(p)
    &&& match p {
        PacketV::Connect(c) => c.password is Some ==> c.username is Some,
        PacketV::Publish(pp) => qospid_valid(pp.qospid),
        PacketV::Puback(pid) => pid@ != 0,
        PacketV::Pubrec(pid) => pid@ != 0,
        PacketV::Pubrel(pid) => pid@ != 0,
        PacketV::Pubcomp(pid) => pid@ != 0,
        PacketV::Unsuback(pid) => pid@ != 0,
        PacketV::Subscribe(sv) => sv.pid@ != 0 && sv.topics.len() > 0,
        PacketV::Suback(sv) => sv.pid@ != 0 && sv.return_codes.len() > 0,
        PacketV::Unsubscribe(sv) => sv.pid@ != 0 && sv.topics.len() > 0,
        _ => true,
    }
}

pub proof fn lemma_body_round_trip(p: PacketV)
    requires
        packet_valid(p),
    ensures
        spec_parse_body(packet_header(p), packet_body(p)) == Ok::<PacketV, Error>(p),
{
    let body = packet_body(p);
    lemma_whole(body);
    match p {
        PacketV::Connect(c) => lemma_connect_round_trip(c),
        PacketV::Connack(c) => {
            assert(ConnectReturnCode::spec_from_u8(c.code.spec_to_u8()) == Ok::<
                ConnectReturnCode,
                Error,
            >(c.code));
        },
        PacketV::Publish(pp) => lemma_publish_round_trip(pp),
        PacketV::Puback(pid) => lemma_read_pid(body, 0, pid),
        PacketV::Pubrec(pid) => lemma_read_pid(body, 0, pid),
        PacketV::Pubrel(pid) => lemma_read_pid(body, 0, pid),
        PacketV::Pubcomp(pid) => lemma_read_pid(body, 0, pid),
        PacketV::Unsuback(pid) => lemma_read_pid(body, 0, pid),
        PacketV::Subscribe(sv) => lemma_subscribe_round_trip(sv),
        PacketV::Suback(sv) => lemma_suback_round_trip(sv),
        PacketV::Unsubscribe(sv) => lemma_unsubscribe_round_trip(sv),
        _ => {},
    }
}

/// Round trip: decoding the wire form of a valid packet gives the packet back
/// and takes exactly the bytes of that wire form.
pub proof fn law_round_trip(p: PacketV)
    requires
        packet_valid(p),
    ensures
        spec_decode(spec_encode(p)) == Decoded::Complete(p, spec_encode(p).len()),
{
    let b = spec_encode(p);
    let h = packet_header(p);
    let body = packet_body(p);
    let n = body.len();
    let v = varint(n);
    lemma_header_round_trip(h);
    lemma_pow128_values();
    lemma_varint_size(n);
    assert(b[0] == crate::header::header_byte(h));
    assert(b.subrange(1, 1 + v.len() as int) =~= v);
    lemma_scan_varint(b, 1, 0, 0, n);
    assert(b.subrange(1 + v.len() as int, (1 + v.len() + n) as int) =~= body);
    lemma_body_round_trip(p);
}

} // verus!
