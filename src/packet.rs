use vstd::prelude::*;

use crate::connect::{Connack, Connect, ConnectV};
use crate::publish::{Publish, PublishV};
use crate::subscribe::{Suback, SubackV, Subscribe, SubscribeV, Unsubscribe, UnsubscribeV};
use crate::utils::Pid;

verus! {

/// An MQTT 3.1.1 control packet: what [`crate::decode`] returns and
/// [`crate::encode`] takes.
#[derive(Debug, Clone, PartialEq)]
pub enum Packet {
    /// MQTT 3.1
    Connect(Connect),
    /// MQTT 3.2
    Connack(Connack),
    /// MQTT 3.3
    Publish(Publish),
    /// MQTT 3.4
    Puback(Pid),
    /// MQTT 3.5
    Pubrec(Pid),
    /// MQTT 3.6
    Pubrel(Pid),
    /// MQTT 3.7
    Pubcomp(Pid),
    /// MQTT 3.8
    Subscribe(Subscribe),
    /// MQTT 3.9
    Suback(Suback),
    /// MQTT 3.10
    Unsubscribe(Unsubscribe),
    /// MQTT 3.11
    Unsuback(Pid),
    /// MQTT 3.12
    Pingreq,
    /// MQTT 3.13
    Pingresp,
    /// MQTT 3.14
    Disconnect,
}

/// The value of a [`Packet`].
pub ghost enum PacketV {
    Connect(ConnectV),
    Connack(Connack),
    Publish(PublishV),
    Puback(Pid),
    Pubrec(Pid),
    Pubrel(Pid),
    Pubcomp(Pid),
    Subscribe(SubscribeV),
    Suback(SubackV),
    Unsubscribe(UnsubscribeV),
    Unsuback(Pid),
    Pingreq,
    Pingresp,
    Disconnect,
}

impl View for Packet {
    type V = PacketV;

    open spec fn view(&self) -> PacketV {
        match self {
            Packet::Connect(p) => PacketV::Connect(p@),
            Packet::Connack(p) => PacketV::Connack(*p),
            Packet::Publish(p) => PacketV::Publish(p@),
            Packet::Puback(pid) => PacketV::Puback(*pid),
            Packet::Pubrec(pid) => PacketV::Pubrec(*pid),
            Packet::Pubrel(pid) => PacketV::Pubrel(*pid),
            Packet::Pubcomp(pid) => PacketV::Pubcomp(*pid),
            Packet::Subscribe(p) => PacketV::Subscribe(p@),
            Packet::Suback(p) => PacketV::Suback(p@),
            Packet::Unsubscribe(p) => PacketV::Unsubscribe(p@),
            Packet::Unsuback(pid) => PacketV::Unsuback(*pid),
            Packet::Pingreq => PacketV::Pingreq,
            Packet::Pingresp => PacketV::Pingresp,
            Packet::Disconnect => PacketV::Disconnect,
        }
    }
}

/// Packet type, without the associated data.
#[derive(Debug, Clone, Copy, PartialEq, Eq, Hash, PartialOrd, Ord, Structural)]
pub enum PacketType {
    Connect,
    Connack,
    Publish,
    Puback,
    Pubrec,
    Pubrel,
    Pubcomp,
    Subscribe,
    Suback,
    Unsubscribe,
    Unsuback,
    Pingreq,
    Pingresp,
    Disconnect,
}

pub open spec fn type_of(p: PacketV) -> PacketType {
    match p {
        PacketV::Connect(_) => PacketType::Connect,
        PacketV::Connack(_) => PacketType::Connack,
        PacketV::Publish(_) => PacketType::Publish,
        PacketV::Puback(_) => PacketType::Puback,
        PacketV::Pubrec(_) => PacketType::Pubrec,
        PacketV::Pubrel(_) => PacketType::Pubrel,
        PacketV::Pubcomp(_) => PacketType::Pubcomp,
        PacketV::Subscribe(_) => PacketType::Subscribe,
        PacketV::Suback(_) => PacketType::Suback,
        PacketV::Unsubscribe(_) => PacketType::Unsubscribe,
        PacketV::Unsuback(_) => PacketType::Unsuback,
        PacketV::Pingreq => PacketType::Pingreq,
        PacketV::Pingresp => PacketType::Pingresp,
        PacketV::Disconnect => PacketType::Disconnect,
    }
}

impl Packet {
    /// Returns the packet type variant.
    pub fn get_type(&self) -> (r: PacketType)
        ensures
            r == type_of(self@),
    {
        match self {
            Packet::Connect(_) => PacketType::Connect,
            Packet::Connack(_) => PacketType::Connack,
            Packet::Publish(_) => PacketType::Publish,
            Packet::Puback(_) => PacketType::Puback,
            Packet::Pubrec(_) => PacketType::Pubrec,
            Packet::Pubrel(_) => PacketType::Pubrel,
            Packet::Pubcomp(_) => PacketType::Pubcomp,
            Packet::Subscribe(_) => PacketType::Subscribe,
            Packet::Suback(_) => PacketType::Suback,
            Packet::Unsubscribe(_) => PacketType::Unsubscribe,
            Packet::Unsuback(_) => PacketType::Unsuback,
            Packet::Pingreq => PacketType::Pingreq,
            Packet::Pingresp => PacketType::Pingresp,
            Packet::Disconnect => PacketType::Disconnect,
        }
    }
}

impl From<Connect> for Packet {
    fn from(p: Connect) -> (r: Packet) {
        Packet::Connect(p)
    }
}

impl vstd::std_specs::convert::FromSpecImpl<Connect> for Packet {
    open spec fn obeys_from_spec() -> bool {
        true
    }

    open spec fn from_spec(p: Connect) -> Packet {
        Packet::Connect(p)
    }
}

impl From<Connack> for Packet {
    fn from(p: Connack) -> (r: Packet) {
        Packet::Connack(p)
    }
}

impl vstd::std_specs::convert::FromSpecImpl<Connack> for Packet {
    open spec fn obeys_from_spec() -> bool {
        true
    }

    open spec fn from_spec(p: Connack) -> Packet {
        Packet::Connack(p)
    }
}

impl From<Publish> for Packet {
    fn from(p: Publish) -> (r: Packet) {
        Packet::Publish(p)
    }
}

impl vstd::std_specs::convert::FromSpecImpl<Publish> for Packet {
    open spec fn obeys_from_spec() -> bool {
        true
    }

    open spec fn from_spec(p: Publish) -> Packet {
        Packet::Publish(p)
    }
}

impl From<Subscribe> for Packet {
    fn from(p: Subscribe) -> (r: Packet) {
        Packet::Subscribe(p)
    }
}

impl vstd::std_specs::convert::FromSpecImpl<Subscribe> for Packet {
    open spec fn obeys_from_spec() -> bool {
        true
    }

    open spec fn from_spec(p: Subscribe) -> Packet {
        Packet::Subscribe(p)
    }
}

impl From<Suback> for Packet {
    fn from(p: Suback) -> (r: Packet) {
        Packet::Suback(p)
    }
}

impl vstd::std_specs::convert::FromSpecImpl<Suback> for Packet {
    open spec fn obeys_from_spec() -> bool {
        true
    }

    open spec fn from_spec(p: Suback) -> Packet {
        Packet::Suback(p)
    }
}

impl From<Unsubscribe> for Packet {
    fn from(p: Unsubscribe) -> (r: Packet) {
        Packet::Unsubscribe(p)
    }
}

impl vstd::std_specs::convert::FromSpecImpl<Unsubscribe> for Packet {
    open spec fn obeys_from_spec() -> bool {
        true
    }

    open spec fn from_spec(p: Unsubscribe) -> Packet {
        Packet::Unsubscribe(p)
    }
}

} // verus!
