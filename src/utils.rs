use vstd::prelude::*;

verus! {

/// Largest value that the remaining-length field can carry.
pub const MAX_REMAINING_LENGTH: usize = 268435455;

/// Largest byte length of a string or binary field.
pub const MAX_FIELD_LENGTH: usize = 65535;

/// Errors returned by [`crate::decode`] and [`crate::encode`].
#[derive(Debug, Clone, Copy, PartialEq, Eq, Structural)]
pub enum Error {
    /// Reserved bits set incorrectly, packet type 0 or 15, or wrong mandatory flags.
    InvalidHeader,
    /// CONNECT names a protocol other than MQTT 3.1.1; carries the protocol level read.
    InvalidProtocol(u8),
    /// CONNACK return code outside 0..=5.
    InvalidConnectReturnCode(u8),
    /// A QoS value that is not 0, 1 or 2.
    InvalidQos(u8),
    /// A packet identifier equal to 0.
    InvalidPid,
    /// Bytes declared as UTF-8 that are not valid UTF-8.
    InvalidString,
    /// A length that overflows its field, or a declared length beyond the remaining body.
    InvalidLength(usize),
    /// A fixed-shape body with bytes left over after a successful parse.
    TrailingBytes,
    /// A bounded container ran out of room.
    BufferTooSmall,
    /// The output buffer cannot take the encoded packet.
    WriteZero,
}

/// Packet identifier: an integer in 1..=65535.
#[derive(Debug, Clone, Copy, PartialEq, Eq)]
pub struct Pid {
    value: u16,
}

impl View for Pid {
    type V = u16;

    closed spec fn view(&self) -> u16 {
        self.value
    }
}

impl Pid {
    #[verifier::type_invariant]
    spec fn nonzero(self) -> bool {
        self.value != 0
    }

    /// The identifier with the given value (meaningful for non-zero values).
    pub closed spec fn spec_new(v: u16) -> Pid {
        Pid { value: v }
    }

    pub proof fn lemma_view_injective(p: Pid)
        ensures
            Pid::spec_new(#[trigger] p@) == p,
    {
    }

    /// Builds an identifier; 0 is refused with `InvalidPid`.
    pub fn from_u16(v: u16) -> (r: Result<Pid, Error>)
        ensures
            v == 0 ==> r == Err::<Pid, Error>(Error::InvalidPid),
            v != 0 ==> r == Ok::<Pid, Error>(Pid::spec_new(v)),
    {
        if v == 0 {
            Err(Error::InvalidPid)
        } else {
            Ok(Pid { value: v })
        }
    }

    /// The identifier's value, never 0.
    pub fn get(&self) -> (r: u16)
        ensures
            r == self@,
            r != 0,
    {
        proof {
            use_type_invariant(self);
        }
        self.value
    }
}

/// Quality of service level.
#[derive(Debug, Clone, Copy, PartialEq, Eq, Structural)]
pub enum QoS {
    AtMostOnce,
    AtLeastOnce,
    ExactlyOnce,
}

impl QoS {
    pub open spec fn spec_to_u8(self) -> u8 {
        match self {
            QoS::AtMostOnce => 0,
            QoS::AtLeastOnce => 1,
            QoS::ExactlyOnce => 2,
        }
    }

    pub open spec fn spec_from_u8(b: u8) -> Result<QoS, Error> {
        if b == 0 {
            Ok(QoS::AtMostOnce)
        } else if b == 1 {
            Ok(QoS::AtLeastOnce)
        } else if b == 2 {
            Ok(QoS::ExactlyOnce)
        } else {
            Err(Error::InvalidQos(b))
        }
    }

    pub fn to_u8(&self) -> (r: u8)
        ensures
            r == self.spec_to_u8(),
    {
        match self {
            QoS::AtMostOnce => 0,
            QoS::AtLeastOnce => 1,
            QoS::ExactlyOnce => 2,
        }
    }

    pub fn from_u8(b: u8) -> (r: Result<QoS, Error>)
        ensures
            r == QoS::spec_from_u8(b),
    {
        if b == 0 {
            Ok(QoS::AtMostOnce)
        } else if b == 1 {
            Ok(QoS::AtLeastOnce)
        } else if b == 2 {
            Ok(QoS::ExactlyOnce)
        } else {
            Err(Error::InvalidQos(b))
        }
    }
}

/// QoS level together with the packet identifier that QoS 1 and 2 carry.
#[derive(Debug, Clone, Copy, PartialEq, Eq)]
pub enum QosPid {
    AtMostOnce,
    AtLeastOnce(Pid),
    ExactlyOnce(Pid),
}

impl QosPid {
    pub open spec fn spec_qos(self) -> QoS {
        match self {
            QosPid::AtMostOnce => QoS::AtMostOnce,
            QosPid::AtLeastOnce(_) => QoS::AtLeastOnce,
            QosPid::ExactlyOnce(_) => QoS::ExactlyOnce,
        }
    }

    pub fn qos(&self) -> (r: QoS)
        ensures
            r == self.spec_qos(),
    {
        match self {
            QosPid::AtMostOnce => QoS::AtMostOnce,
            QosPid::AtLeastOnce(_) => QoS::AtLeastOnce,
            QosPid::ExactlyOnce(_) => QoS::ExactlyOnce,
        }
    }
}

} // verus!
