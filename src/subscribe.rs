use vstd::prelude::*;

use crate::utils::{Error, Pid, QoS};
use crate::wire::{
    be16, concat_map, lemma_concat_map_push, lp_str, prepend, read_pid, read_string, read_u8,
    spec_read_pid, spec_read_string, spec_read_u8, str_fits, write_string, write_u16,
};

verus! {

/// One topic filter of a Subscribe packet.
#[derive(Debug, Clone, PartialEq)]
pub struct SubscribeTopic {
    pub topic_path: String,
    pub qos: QoS,
}

pub ghost struct SubscribeTopicV {
    pub topic_path: Seq<char>,
    pub qos: QoS,
}

impl View for SubscribeTopic {
    type V = SubscribeTopicV;

    open spec fn view(&self) -> SubscribeTopicV {
        SubscribeTopicV { topic_path: self.topic_path@, qos: self.qos }
    }
}

/// Subscribe return value; Suback packets carry a list of them.
#[derive(Debug, Clone, Copy, PartialEq, Eq, Structural)]
pub enum SubscribeReturnCodes {
    Success(QoS),
    Failure,
}

impl SubscribeReturnCodes {
    pub open spec fn spec_to_u8(self) -> u8 {
        match self {
            SubscribeReturnCodes::Failure => 0x80,
            SubscribeReturnCodes::Success(qos) => qos.spec_to_u8(),
        }
    }

    pub open spec fn spec_from_u8(b: u8) -> Result<SubscribeReturnCodes, Error> {
        if b == 0x80 {
            Ok(SubscribeReturnCodes::Failure)
        } else {
            match QoS::spec_from_u8(b) {
                Ok(q) => Ok(SubscribeReturnCodes::Success(q)),
                Err(e) => Err(e),
            }
        }
    }

    pub fn to_u8(&self) -> (r: u8)
        ensures
            r == self.spec_to_u8(),
    {
        match *self {
            SubscribeReturnCodes::Failure => 0x80,
            SubscribeReturnCodes::Success(qos) => qos.to_u8(),
        }
    }

    pub fn from_u8(b: u8) -> (r: Result<SubscribeReturnCodes, Error>)
        ensures
            r == SubscribeReturnCodes::spec_from_u8(b),
    {
        if b == 0x80 {
            Ok(SubscribeReturnCodes::Failure)
        } else {
            let q = QoS::from_u8(b)?;
            Ok(SubscribeReturnCodes::Success(q))
        }
    }
}

/// Subscribe packet (MQTT 3.8).
#[derive(Debug, Clone, PartialEq)]
pub struct Subscribe {
    pub pid: Pid,
    pub topics: Vec<SubscribeTopic>,
}

pub ghost struct SubscribeV {
    pub pid: Pid,
    pub topics: Seq<SubscribeTopicV>,
}

pub open spec fn sub_topics_view(v: Seq<SubscribeTopic>) -> Seq<SubscribeTopicV> {
    v.map_values(|t: SubscribeTopic| t@)
}

impl View for Subscribe {
    type V = SubscribeV;

    open spec fn view(&self) -> SubscribeV {
        SubscribeV { pid: self.pid, topics: sub_topics_view(self.topics@) }
    }
}

/// Suback packet (MQTT 3.9).
#[derive(Debug, Clone, PartialEq)]
pub struct Suback {
    pub pid: Pid,
    pub return_codes: Vec<SubscribeReturnCodes>,
}

pub ghost struct SubackV {
    pub pid: Pid,
    pub return_codes: Seq<SubscribeReturnCodes>,
}

impl View for Suback {
    type V = SubackV;

    open spec fn view(&self) -> SubackV {
        SubackV { pid: self.pid, return_codes: self.return_codes@ }
    }
}

/// Unsubscribe packet (MQTT 3.10).
#[derive(Debug, Clone, PartialEq)]
pub struct Unsubscribe {
    pub pid: Pid,
    pub topics: Vec<String>,
}

pub ghost struct UnsubscribeV {
    pub pid: Pid,
    pub topics: Seq<Seq<char>>,
}

pub open spec fn strings_view(v: Seq<String>) -> Seq<Seq<char>> {
    v.map_values(|t: String| t@)
}

impl View for Unsubscribe {
    type V = UnsubscribeV;

    open spec fn view(&self) -> UnsubscribeV {
        UnsubscribeV { pid: self.pid, topics: strings_view(self.topics@) }
    }
}

// ---------------------------------------------------------------------------
// Decoding
// ---------------------------------------------------------------------------

/// Topic filters with their QoS bytes, from `pos` to the end of the body.
pub open spec fn spec_parse_sub_topics(s: Seq<u8>, pos: int) -> Result<Seq<SubscribeTopicV>, Error>
    decreases s.len() - pos,
{
    if pos >= s.len() {
        Ok(seq![])
    } else {
        match spec_read_string(s, pos) {
            Err(e) => Err(e),
            Ok((t, pos1)) => match spec_read_u8(s, pos1) {
                Err(e) => Err(e),
                Ok((q, pos2)) => match QoS::spec_from_u8(q) {
                    Err(e) => Err(e),
                    Ok(qos) => prepend(
                        seq![SubscribeTopicV { topic_path: t, qos }],
                        spec_parse_sub_topics(s, pos2),
                    ),
                },
            },
        }
    }
}

/// Return codes from `pos` to the end of the body.
pub open spec fn spec_parse_return_codes(s: Seq<u8>, pos: int) -> Result<Seq<SubscribeReturnCodes>, Error>
    decreases s.len() - pos,
{
    if pos >= s.len() || pos < 0 {
        Ok(seq![])
    } else {
        match SubscribeReturnCodes::spec_from_u8(s[pos]) {
            Err(e) => Err(e),
            Ok(c) => prepend(seq![c], spec_parse_return_codes(s, pos + 1)),
        }
    }
}

/// Topic filters from `pos` to the end of the body.
pub open spec fn spec_parse_unsub_topics(s: Seq<u8>, pos: int) -> Result<Seq<Seq<char>>, Error>
    decreases s.len() - pos,
{
    if pos >= s.len() {
        Ok(seq![])
    } else {
        match spec_read_string(s, pos) {
            Err(e) => Err(e),
            Ok((t, pos1)) => prepend(seq![t], spec_parse_unsub_topics(s, pos1)),
        }
    }
}

/// A list body: a packet identifier, then at least one entry. A body without
/// entries gives `InvalidLength(0)`.
pub open spec fn spec_parse_subscribe(s: Seq<u8>) -> Result<SubscribeV, Error> {
    match spec_read_pid(s, 0) {
        Err(e) => Err(e),
        Ok((pid, p)) => if p >= s.len() {
            Err(Error::InvalidLength(0))
        } else {
            match spec_parse_sub_topics(s, p) {
                Ok(ts) => Ok(SubscribeV { pid, topics: ts }),
                Err(e) => Err(e),
            }
        },
    }
}

pub open spec fn spec_parse_suback(s: Seq<u8>) -> Result<SubackV, Error> {
    match spec_read_pid(s, 0) {
        Err(e) => Err(e),
        Ok((pid, p)) => if p >= s.len() {
            Err(Error::InvalidLength(0))
        } else {
            match spec_parse_return_codes(s, p) {
                Ok(cs) => Ok(SubackV { pid, return_codes: cs }),
                Err(e) => Err(e),
            }
        },
    }
}

pub open spec fn spec_parse_unsubscribe(s: Seq<u8>) -> Result<UnsubscribeV, Error> {
    match spec_read_pid(s, 0) {
        Err(e) => Err(e),
        Ok((pid, p)) => if p >= s.len() {
            Err(Error::InvalidLength(0))
        } else {
            match spec_parse_unsub_topics(s, p) {
                Ok(ts) => Ok(UnsubscribeV { pid, topics: ts }),
                Err(e) => Err(e),
            }
        },
    }
}

// ---------------------------------------------------------------------------
// Encoding
// ---------------------------------------------------------------------------

pub open spec fn sub_topic_bytes() -> spec_fn(SubscribeTopicV) -> Seq<u8> {
    |t: SubscribeTopicV| lp_str(t.topic_path) + seq![t.qos.spec_to_u8()]
}

pub open spec fn return_code_bytes() -> spec_fn(SubscribeReturnCodes) -> Seq<u8> {
    |c: SubscribeReturnCodes| seq![c.spec_to_u8()]
}

pub open spec fn unsub_topic_bytes() -> spec_fn(Seq<char>) -> Seq<u8> {
    |t: Seq<char>| lp_str(t)
}

pub open spec fn subscribe_body(p: SubscribeV) -> Seq<u8> {
    be16(p.pid@) + concat_map(p.topics, sub_topic_bytes())
}

pub open spec fn suback_body(p: SubackV) -> Seq<u8> {
    be16(p.pid@) + concat_map(p.return_codes, return_code_bytes())
}

pub open spec fn unsubscribe_body(p: UnsubscribeV) -> Seq<u8> {
    be16(p.pid@) + concat_map(p.topics, unsub_topic_bytes())
}

pub open spec fn subscribe_fits(p: SubscribeV) -> bool {
    forall|i: int| 0 <= i < p.topics.len() ==> str_fits(#[trigger] p.topics[i].topic_path)
}

pub open spec fn unsubscribe_fits(p: UnsubscribeV) -> bool {
    forall|i: int| 0 <= i < p.topics.len() ==> str_fits(#[trigger] p.topics[i])
}

impl Subscribe {
    pub fn from_buffer(buf: &[u8]) -> (r: Result<Subscribe, Error>)
        ensures
            match r {
                Ok(p) => spec_parse_subscribe(buf@) == Ok::<SubscribeV, Error>(p@),
                Err(e) => spec_parse_subscribe(buf@) == Err::<SubscribeV, Error>(e),
            },
    {
        let (pid, pos0) = read_pid(buf, 0)?;
        if pos0 >= buf.len() {
            return Err(Error::InvalidLength(0));
        }
        let mut pos = pos0;
        let mut topics: Vec<SubscribeTopic> = Vec::new();
        while pos < buf.len()
            invariant
                pos <= buf@.len(),
                pos0 < buf@.len(),
                spec_read_pid(buf@, 0) == Ok::<(Pid, int), Error>((pid, pos0 as int)),
                spec_parse_sub_topics(buf@, pos0 as int) == prepend(
                    sub_topics_view(topics@),
                    spec_parse_sub_topics(buf@, pos as int),
                ),
            decreases buf@.len() - pos,
        {
            let (topic_path, pos1) = read_string(buf, pos)?;
            let (q, pos2) = read_u8(buf, pos1)?;
            let qos = QoS::from_u8(q)?;
            let ghost old_view = sub_topics_view(topics@);
            let topic = SubscribeTopic { topic_path, qos };
            topics.push(topic);
            assert(sub_topics_view(topics@) =~= old_view + seq![topic@]);
            assert(spec_parse_sub_topics(buf@, pos as int) == prepend(
                seq![topic@],
                spec_parse_sub_topics(buf@, pos2 as int),
            ));
            proof {
                match spec_parse_sub_topics(buf@, pos2 as int) {
                    Ok(rest) => {
                        assert(old_view + (seq![topic@] + rest) =~= sub_topics_view(topics@) + rest);
                    },
                    Err(_) => {},
                }
            }
            pos = pos2;
        }
        assert(sub_topics_view(topics@) + seq![] =~= sub_topics_view(topics@));
        Ok(Subscribe { pid, topics })
    }

    /// Appends the body; a topic longer than 65535 bytes is refused.
    pub fn to_buffer(&self, out: &mut Vec<u8>) -> (r: Result<(), Error>)
        ensures
            r is Ok <==> subscribe_fits(self@),
            r is Ok ==> final(out)@ == old(out)@ + subscribe_body(self@),
            r matches Err(e) ==> e is InvalidLength,
    {
        write_u16(out, self.pid.get());
        let ghost start = out@;
        let ghost all = sub_topics_view(self.topics@);
        let mut i: usize = 0;
        while i < self.topics.len()
            invariant
                i <= self.topics@.len(),
                all == sub_topics_view(self.topics@),
                forall|j: int| 0 <= j < i ==> str_fits(#[trigger] all[j].topic_path),
                out@ == start + concat_map(all.take(i as int), sub_topic_bytes()),
            decreases self.topics@.len() - i,
        {
            let topic = &self.topics[i];
            let ghost before = out@;
            match write_string(out, &topic.topic_path) {
                Ok(()) => {},
                Err(e) => {
                    assert(!str_fits(all[i as int].topic_path));
                    return Err(e);
                },
            }
            out.push(topic.qos.to_u8());
            proof {
                lemma_concat_map_push(all.take(i as int), all[i as int], sub_topic_bytes());
                assert(all.take(i as int).push(all[i as int]) =~= all.take(i + 1));
                assert(out@ =~= start + concat_map(all.take(i + 1), sub_topic_bytes()));
            }
            i = i + 1;
        }
        assert(all.take(i as int) =~= all);
        Ok(())
    }
}

impl Suback {
    pub fn from_buffer(buf: &[u8]) -> (r: Result<Suback, Error>)
        ensures
            match r {
                Ok(p) => spec_parse_suback(buf@) == Ok::<SubackV, Error>(p@),
                Err(e) => spec_parse_suback(buf@) == Err::<SubackV, Error>(e),
            },
    {
        let (pid, pos0) = read_pid(buf, 0)?;
        if pos0 >= buf.len() {
            return Err(Error::InvalidLength(0));
        }
        let mut pos = pos0;
        let mut return_codes: Vec<SubscribeReturnCodes> = Vec::new();
        while pos < buf.len()
            invariant
                pos <= buf@.len(),
                pos0 < buf@.len(),
                spec_read_pid(buf@, 0) == Ok::<(Pid, int), Error>((pid, pos0 as int)),
                spec_parse_return_codes(buf@, pos0 as int) == prepend(
                    return_codes@,
                    spec_parse_return_codes(buf@, pos as int),
                ),
            decreases buf@.len() - pos,
        {
            let c = SubscribeReturnCodes::from_u8(buf[pos])?;
            let ghost old_view = return_codes@;
            return_codes.push(c);
            proof {
                match spec_parse_return_codes(buf@, pos + 1int) {
                    Ok(rest) => {
                        assert(old_view + (seq![c] + rest) =~= return_codes@ + rest);
                    },
                    Err(_) => {},
                }
            }
            pos = pos + 1;
        }
        assert(return_codes@ + seq![] =~= return_codes@);
        Ok(Suback { pid, return_codes })
    }

    pub fn to_buffer(&self, out: &mut Vec<u8>)
        ensures
            final(out)@ == old(out)@ + suback_body(self@),
    {
        write_u16(out, self.pid.get());
        let ghost start = out@;
        let ghost all = self.return_codes@;
        let mut i: usize = 0;
        while i < self.return_codes.len()
            invariant
                i <= self.return_codes@.len(),
                all == self.return_codes@,
                out@ == start + concat_map(all.take(i as int), return_code_bytes()),
            decreases self.return_codes@.len() - i,
        {
            out.push(self.return_codes[i].to_u8());
            proof {
                lemma_concat_map_push(all.take(i as int), all[i as int], return_code_bytes());
                assert(all.take(i as int).push(all[i as int]) =~= all.take(i + 1));
                assert(out@ =~= start + concat_map(all.take(i + 1), return_code_bytes()));
            }
            i = i + 1;
        }
        assert(all.take(i as int) =~= all);
    }
}

impl Unsubscribe {
    pub fn from_buffer(buf: &[u8]) -> (r: Result<Unsubscribe, Error>)
        ensures
            match r {
                Ok(p) => spec_parse_unsubscribe(buf@) == Ok::<UnsubscribeV, Error>(p@),
                Err(e) => spec_parse_unsubscribe(buf@) == Err::<UnsubscribeV, Error>(e),
            },
    {
        let (pid, pos0) = read_pid(buf, 0)?;
        if pos0 >= buf.len() {
            return Err(Error::InvalidLength(0));
        }
        let mut pos = pos0;
        let mut topics: Vec<String> = Vec::new();
        while pos < buf.len()
            invariant
                pos <= buf@.len(),
                pos0 < buf@.len(),
                spec_read_pid(buf@, 0) == Ok::<(Pid, int), Error>((pid, pos0 as int)),
                spec_parse_unsub_topics(buf@, pos0 as int) == prepend(
                    strings_view(topics@),
                    spec_parse_unsub_topics(buf@, pos as int),
                ),
            decreases buf@.len() - pos,
        {
            let (topic, pos1) = read_string(buf, pos)?;
            let ghost old_view = strings_view(topics@);
            let ghost tv = topic@;
            topics.push(topic);
            assert(strings_view(topics@) =~= old_view + seq![tv]);
            proof {
                match spec_parse_unsub_topics(buf@, pos1 as int) {
                    Ok(rest) => {
                        assert(old_view + (seq![tv] + rest) =~= strings_view(topics@) + rest);
                    },
                    Err(_) => {},
                }
            }
            pos = pos1;
        }
        assert(strings_view(topics@) + seq![] =~= strings_view(topics@));
        Ok(Unsubscribe { pid, topics })
    }

    /// Appends the body; a topic longer than 65535 bytes is refused.
    pub fn to_buffer(&self, out: &mut Vec<u8>) -> (r: Result<(), Error>)
        ensures
            r is Ok <==> unsubscribe_fits(self@),
            r is Ok ==> final(out)@ == old(out)@ + unsubscribe_body(self@),
            r matches Err(e) ==> e is InvalidLength,
    {
        write_u16(out, self.pid.get());
        let ghost start = out@;
        let ghost all = strings_view(self.topics@);
        let mut i: usize = 0;
        while i < self.topics.len()
            invariant
                i <= self.topics@.len(),
                all == strings_view(self.topics@),
                forall|j: int| 0 <= j < i ==> str_fits(#[trigger] all[j]),
                out@ == start + concat_map(all.take(i as int), unsub_topic_bytes()),
            decreases self.topics@.len() - i,
        {
            match write_string(out, &self.topics[i]) {
                Ok(()) => {},
                Err(e) => {
                    assert(all[i as int] == self.topics@[i as int]@);
                    assert(self@.topics[i as int] == all[i as int]);
                    assert(!str_fits(self@.topics[i as int]));
                    return Err(e);
                },
            }
            proof {
                lemma_concat_map_push(all.take(i as int), all[i as int], unsub_topic_bytes());
                assert(all.take(i as int).push(all[i as int]) =~= all.take(i + 1));
                assert(out@ =~= start + concat_map(all.take(i + 1), unsub_topic_bytes()));
            }
            i = i + 1;
        }
        assert(all.take(i as int) =~= all);
        Ok(())
    }
}

} // verus!
