use vstd::prelude::*;
use vstd::slice::{slice_subrange, slice_to_vec};

use crate::header::Header;
use crate::packet::PacketType;
use crate::utils::{Error, QoS, QosPid};
use crate::wire::{be16, lp_str, read_pid, read_string, spec_read_pid, spec_read_string, str_fits, write_slice, write_string, write_u16};

verus! {

/// Publish packet (MQTT 3.3).
#[derive(Debug, Clone, PartialEq)]
pub struct Publish {
    pub dup: bool,
    pub qospid: QosPid,
    pub retain: bool,
    pub topic_name: String,
    pub payload: Vec<u8>,
}

/// The value of a [`Publish`].
pub ghost struct PublishV {
    pub dup: bool,
    pub qospid: QosPid,
    pub retain: bool,
    pub topic_name: Seq<char>,
    pub payload: Seq<u8>,
}

impl View for Publish {
    type V = PublishV;

    open spec fn view(&self) -> PublishV {
        PublishV {
            dup: self.dup,
            qospid: self.qospid,
            retain: self.retain,
            topic_name: self.topic_name@,
            payload: self.payload@,
        }
    }
}

/// Reads the packet identifier that QoS 1 and 2 carry.
pub open spec fn spec_read_qospid(q: QoS, s: Seq<u8>, pos: int) -> Result<(QosPid, int), Error> {
    match q {
        QoS::AtMostOnce => Ok((QosPid::AtMostOnce, pos)),
        QoS::AtLeastOnce => match spec_read_pid(s, pos) {
            Ok((pid, p)) => Ok((QosPid::AtLeastOnce(pid), p)),
            Err(e) => Err(e),
        },
        QoS::ExactlyOnce => match spec_read_pid(s, pos) {
            Ok((pid, p)) => Ok((QosPid::ExactlyOnce(pid), p)),
            Err(e) => Err(e),
        },
    }
}

/// Decodes a Publish body; the flags come from the fixed header.
pub open spec fn spec_parse_publish(h: Header, s: Seq<u8>) -> Result<PublishV, Error> {
    match spec_read_string(s, 0) {
        Err(e) => Err(e),
        Ok((topic, pos1)) => match spec_read_qospid(h.qos, s, pos1) {
            Err(e) => Err(e),
            Ok((qospid, pos2)) => Ok(
                PublishV {
                    dup: h.dup,
                    qospid,
                    retain: h.retain,
                    topic_name: topic,
                    payload: s.subrange(pos2, s.len() as int),
                },
            ),
        },
    }
}

pub open spec fn qospid_bytes(q: QosPid) -> Seq<u8> {
    match q {
        QosPid::AtMostOnce => seq![],
        QosPid::AtLeastOnce(pid) => be16(pid@),
        QosPid::ExactlyOnce(pid) => be16(pid@),
    }
}

/// The fixed header that encodes a Publish.
pub open spec fn publish_header(p: PublishV) -> Header {
    Header { typ: PacketType::Publish, dup: p.dup, qos: p.qospid.spec_qos(), retain: p.retain }
}

/// Encoded body of a Publish.
pub open spec fn publish_body(p: PublishV) -> Seq<u8> {
    lp_str(p.topic_name) + qospid_bytes(p.qospid) + p.payload
}

pub open spec fn publish_fits(p: PublishV) -> bool {
    str_fits(p.topic_name)
}

impl Publish {
    pub fn from_buffer(header: &Header, buf: &[u8]) -> (r: Result<Publish, Error>)
        ensures
            match r {
                Ok(p) => spec_parse_publish(*header, buf@) == Ok::<PublishV, Error>(p@),
                Err(e) => spec_parse_publish(*header, buf@) == Err::<PublishV, Error>(e),
            },
    {
        let (topic_name, pos1) = read_string(buf, 0)?;
        let (qospid, pos2) = match header.qos {
            QoS::AtMostOnce => (QosPid::AtMostOnce, pos1),
            QoS::AtLeastOnce => {
                let (pid, p) = read_pid(buf, pos1)?;
                (QosPid::AtLeastOnce(pid), p)
            },
            QoS::ExactlyOnce => {
                let (pid, p) = read_pid(buf, pos1)?;
                (QosPid::ExactlyOnce(pid), p)
            },
        };
        let payload = slice_to_vec(slice_subrange(buf, pos2, buf.len()));
        Ok(Publish { dup: header.dup, qospid, retain: header.retain, topic_name, payload })
    }

    /// Appends the body; a topic longer than 65535 bytes is refused.
    pub fn to_buffer(&self, out: &mut Vec<u8>) -> (r: Result<(), Error>)
        ensures
            r is Ok <==> publish_fits(self@),
            r is Ok ==> final(out)@ == old(out)@ + publish_body(self@),
            r matches Err(e) ==> e is InvalidLength,
    {
        write_string(out, &self.topic_name)?;
        let ghost mid = out@;
        match self.qospid {
            QosPid::AtMostOnce => {},
            QosPid::AtLeastOnce(pid) => write_u16(out, pid.get()),
            QosPid::ExactlyOnce(pid) => write_u16(out, pid.get()),
        }
        assert(out@ == mid + qospid_bytes(self.qospid));
        write_slice(out, self.payload.as_slice());
        assert(final(out)@ =~= old(out)@ + publish_body(self@));
        Ok(())
    }

    pub fn header(&self) -> (r: Header)
        ensures
            r == publish_header(self@),
    {
        Header { typ: PacketType::Publish, dup: self.dup, qos: self.qospid.qos(), retain: self.retain }
    }
}

} // verus!
