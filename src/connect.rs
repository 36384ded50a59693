use vstd::prelude::*;
use vstd::utf8::encode_utf8;

use crate::utils::{Error, QoS};
use crate::wire::{
    be16, fits, lp_bytes, lp_str, read_bytes, read_string, read_u16, read_u8, spec_read_bytes,
    spec_read_string, spec_read_u16, spec_read_u8, str_fits, write_bytes, write_string, write_u16,
};

verus! {

/// Protocol name and level of a CONNECT packet.
#[derive(Debug, Clone, Copy, PartialEq, Eq, Structural)]
pub enum Protocol {
    /// "MQTT", level 4.
    MQTT311,
}

/// Return code of a CONNACK packet.
#[derive(Debug, Clone, Copy, PartialEq, Eq, Structural)]
pub enum ConnectReturnCode {
    Accepted,
    RefusedProtocolVersion,
    RefusedIdentifierRejected,
    RefusedServerUnavailable,
    RefusedBadUserNamePassword,
    RefusedNotAuthorized,
}

impl ConnectReturnCode {
    pub open spec fn spec_to_u8(self) -> u8 {
        match self {
            ConnectReturnCode::Accepted => 0,
            ConnectReturnCode::RefusedProtocolVersion => 1,
            ConnectReturnCode::RefusedIdentifierRejected => 2,
            ConnectReturnCode::RefusedServerUnavailable => 3,
            ConnectReturnCode::RefusedBadUserNamePassword => 4,
            ConnectReturnCode::RefusedNotAuthorized => 5,
        }
    }

    pub open spec fn spec_from_u8(b: u8) -> Result<ConnectReturnCode, Error> {
        if b == 0 {
            Ok(ConnectReturnCode::Accepted)
        } else if b == 1 {
            Ok(ConnectReturnCode::RefusedProtocolVersion)
        } else if b == 2 {
            Ok(ConnectReturnCode::RefusedIdentifierRejected)
        } else if b == 3 {
            Ok(ConnectReturnCode::RefusedServerUnavailable)
        } else if b == 4 {
            Ok(ConnectReturnCode::RefusedBadUserNamePassword)
        } else if b == 5 {
            Ok(ConnectReturnCode::RefusedNotAuthorized)
        } else {
            Err(Error::InvalidConnectReturnCode(b))
        }
    }

    pub fn to_u8(&self) -> (r: u8)
        ensures
            r == self.spec_to_u8(),
    {
        match self {
            ConnectReturnCode::Accepted => 0,
            ConnectReturnCode::RefusedProtocolVersion => 1,
            ConnectReturnCode::RefusedIdentifierRejected => 2,
            ConnectReturnCode::RefusedServerUnavailable => 3,
            ConnectReturnCode::RefusedBadUserNamePassword => 4,
            ConnectReturnCode::RefusedNotAuthorized => 5,
        }
    }

    pub fn from_u8(b: u8) -> (r: Result<ConnectReturnCode, Error>)
        ensures
            r == ConnectReturnCode::spec_from_u8(b),
    {
        match b {
            0 => Ok(ConnectReturnCode::Accepted),
            1 => Ok(ConnectReturnCode::RefusedProtocolVersion),
            2 => Ok(ConnectReturnCode::RefusedIdentifierRejected),
            3 => Ok(ConnectReturnCode::RefusedServerUnavailable),
            4 => Ok(ConnectReturnCode::RefusedBadUserNamePassword),
            5 => Ok(ConnectReturnCode::RefusedNotAuthorized),
            _ => Err(Error::InvalidConnectReturnCode(b)),
        }
    }
}

/// Message that the broker publishes when the client goes away.
#[derive(Debug, Clone, PartialEq)]
pub struct LastWill {
    pub topic: String,
    pub message: Vec<u8>,
    pub qos: QoS,
    pub retain: bool,
}

pub ghost struct LastWillV {
    pub topic: Seq<char>,
    pub message: Seq<u8>,
    pub qos: QoS,
    pub retain: bool,
}

impl View for LastWill {
    type V = LastWillV;

    open spec fn view(&self) -> LastWillV {
        LastWillV { topic: self.topic@, message: self.message@, qos: self.qos, retain: self.retain }
    }
}

/// Connect packet (MQTT 3.1).
#[derive(Debug, Clone, PartialEq)]
pub struct Connect {
    pub protocol: Protocol,
    pub keep_alive: u16,
    pub client_id: String,
    pub clean_session: bool,
    pub last_will: Option<LastWill>,
    pub username: Option<String>,
    pub password: Option<Vec<u8>>,
}

pub ghost struct ConnectV {
    pub protocol: Protocol,
    pub keep_alive: u16,
    pub client_id: Seq<char>,
    pub clean_session: bool,
    pub last_will: Option<LastWillV>,
    pub username: Option<Seq<char>>,
    pub password: Option<Seq<u8>>,
}

impl View for Connect {
    type V = ConnectV;

    open spec fn view(&self) -> ConnectV {
        ConnectV {
            protocol: self.protocol,
            keep_alive: self.keep_alive,
            client_id: self.client_id@,
            clean_session: self.clean_session,
            last_will: match self.last_will {
                Some(w) => Some(w@),
                None => None,
            },
            username: match self.username {
                Some(u) => Some(u@),
                None => None,
            },
            password: match self.password {
                Some(p) => Some(p@),
                None => None,
            },
        }
    }
}

/// Connack packet (MQTT 3.2).
#[derive(Debug, Clone, Copy, PartialEq, Eq, Structural)]
pub struct Connack {
    pub session_present: bool,
    pub code: ConnectReturnCode,
}

// ---------------------------------------------------------------------------
// Decoding
// ---------------------------------------------------------------------------

/// The protocol name "MQTT".
pub open spec fn mqtt_name() -> Seq<u8> {
    seq![0x4du8, 0x51u8, 0x54u8, 0x54u8]
}

pub open spec fn flag_user(f: u8) -> bool {
    f >= 128
}

pub open spec fn flag_password(f: u8) -> bool {
    (f / 64) % 2 == 1
}

pub open spec fn flag_will_retain(f: u8) -> bool {
    (f / 32) % 2 == 1
}

pub open spec fn flag_will_qos(f: u8) -> u8 {
    (f / 8) % 4
}

pub open spec fn flag_will(f: u8) -> bool {
    (f / 4) % 2 == 1
}

pub open spec fn flag_clean(f: u8) -> bool {
    (f / 2) % 2 == 1
}

/// The connect flags obey their cross rules: reserved bit clear, no will QoS
/// or retain without a will, no password without a user name.
pub open spec fn connect_flags_ok(f: u8) -> bool {
    &&& f % 2 == 0
    &&& !flag_will(f) ==> flag_will_qos(f) == 0 && !flag_will_retain(f)
    &&& flag_password(f) ==> flag_user(f)
}

pub open spec fn spec_read_will(s: Seq<u8>, pos: int, f: u8) -> Result<(Option<LastWillV>, int), Error> {
    if !flag_will(f) {
        Ok((None, pos))
    } else {
        match QoS::spec_from_u8(flag_will_qos(f)) {
            Err(e) => Err(e),
            Ok(q) => match spec_read_string(s, pos) {
                Err(e) => Err(e),
                Ok((t, pos1)) => match spec_read_bytes(s, pos1) {
                    Err(e) => Err(e),
                    Ok((m, pos2)) => Ok(
                        (
                            Some(
                                LastWillV {
                                    topic: t,
                                    message: m,
                                    qos: q,
                                    retain: flag_will_retain(f),
                                },
                            ),
                            pos2,
                        ),
                    ),
                },
            },
        }
    }
}

pub open spec fn spec_read_opt_string(s: Seq<u8>, pos: int, present: bool) -> Result<
    (Option<Seq<char>>, int),
    Error,
> {
    if !present {
        Ok((None, pos))
    } else {
        match spec_read_string(s, pos) {
            Err(e) => Err(e),
            Ok((v, p)) => Ok((Some(v), p)),
        }
    }
}

pub open spec fn spec_read_opt_bytes(s: Seq<u8>, pos: int, present: bool) -> Result<
    (Option<Seq<u8>>, int),
    Error,
> {
    if !present {
        Ok((None, pos))
    } else {
        match spec_read_bytes(s, pos) {
            Err(e) => Err(e),
            Ok((v, p)) => Ok((Some(v), p)),
        }
    }
}

/// Decodes a Connect body. Fields are read in wire order; the flag cross rules
/// and leftover bytes are checked once all fields are read.
pub open spec fn spec_parse_connect(s: Seq<u8>) -> Result<ConnectV, Error> {
    match spec_read_string(s, 0) {
        Err(e) => Err(e),
        Ok((name, pos1)) => match spec_read_u8(s, pos1) {
            Err(e) => Err(e),
            Ok((level, pos2)) => if encode_utf8(name) != mqtt_name() || level != 4 {
                Err(Error::InvalidProtocol(level))
            } else {
                match spec_read_u8(s, pos2) {
                    Err(e) => Err(e),
                    Ok((f, pos3)) => match spec_read_u16(s, pos3) {
                        Err(e) => Err(e),
                        Ok((keep_alive, pos4)) => match spec_read_string(s, pos4) {
                            Err(e) => Err(e),
                            Ok((client_id, pos5)) => match spec_read_will(s, pos5, f) {
                                Err(e) => Err(e),
                                Ok((last_will, pos6)) => match spec_read_opt_string(
                                    s,
                                    pos6,
                                    flag_user(f),
                                ) {
                                    Err(e) => Err(e),
                                    Ok((username, pos7)) => match spec_read_opt_bytes(
                                        s,
                                        pos7,
                                        flag_password(f),
                                    ) {
                                        Err(e) => Err(e),
                                        Ok((password, pos8)) => if !connect_flags_ok(f) {
                                            Err(Error::InvalidHeader)
                                        } else if pos8 < s.len() {
                                            Err(Error::TrailingBytes)
                                        } else {
                                            Ok(
                                                ConnectV {
                                                    protocol: Protocol::MQTT311,
                                                    keep_alive,
                                                    client_id,
                                                    clean_session: flag_clean(f),
                                                    last_will,
                                                    username,
                                                    password,
                                                },
                                            )
                                        },
                                    },
                                },
                            },
                        },
                    },
                }
            },
        },
    }
}

/// Decodes a Connack body: the session-present byte (only bit 0 may be set),
/// then the return code, and nothing else.
pub open spec fn spec_parse_connack(s: Seq<u8>) -> Result<Connack, Error> {
    match spec_read_u8(s, 0) {
        Err(e) => Err(e),
        Ok((f, pos1)) => if f > 1 {
            Err(Error::InvalidHeader)
        } else {
            match spec_read_u8(s, pos1) {
                Err(e) => Err(e),
                Ok((c, pos2)) => match ConnectReturnCode::spec_from_u8(c) {
                    Err(e) => Err(e),
                    Ok(code) => if pos2 < s.len() {
                        Err(Error::TrailingBytes)
                    } else {
                        Ok(Connack { session_present: f == 1, code })
                    },
                },
            }
        },
    }
}

// ---------------------------------------------------------------------------
// Encoding
// ---------------------------------------------------------------------------

pub open spec fn connect_flags(c: ConnectV) -> u8 {
    ((if c.username is Some {
        128int
    } else {
        0int
    }) + (if c.password is Some {
        64int
    } else {
        0int
    }) + (match c.last_will {
        Some(w) => 4 + w.qos.spec_to_u8() as int * 8 + (if w.retain {
            32int
        } else {
            0int
        }),
        None => 0int,
    }) + (if c.clean_session {
        2int
    } else {
        0int
    })) as u8
}

pub open spec fn will_bytes(w: Option<LastWillV>) -> Seq<u8> {
    match w {
        Some(w) => lp_str(w.topic) + lp_bytes(w.message),
        None => seq![],
    }
}

pub open spec fn opt_str_bytes(s: Option<Seq<char>>) -> Seq<u8> {
    match s {
        Some(s) => lp_str(s),
        None => seq![],
    }
}

pub open spec fn opt_bytes_bytes(b: Option<Seq<u8>>) -> Seq<u8> {
    match b {
        Some(b) => lp_bytes(b),
        None => seq![],
    }
}

/// Encoded body of a Connect.
pub open spec fn connect_body(c: ConnectV) -> Seq<u8> {
    lp_bytes(mqtt_name()) + seq![4u8, connect_flags(c)] + be16(c.keep_alive) + lp_str(c.client_id)
        + will_bytes(c.last_will) + opt_str_bytes(c.username) + opt_bytes_bytes(c.password)
}

/// Every string and byte string of a Connect fits its length prefix.
pub open spec fn connect_fits(c: ConnectV) -> bool {
    &&& str_fits(c.client_id)
    &&& (c.last_will matches Some(w) ==> str_fits(w.topic) && fits(w.message))
    &&& (c.username matches Some(u) ==> str_fits(u))
    &&& (c.password matches Some(p) ==> fits(p))
}

pub open spec fn connack_body(c: Connack) -> Seq<u8> {
    seq![
        if c.session_present {
            1u8
        } else {
            0u8
        },
        c.code.spec_to_u8(),
    ]
}

impl Connect {
    pub fn from_buffer(buf: &[u8]) -> (r: Result<Connect, Error>)
        ensures
            match r {
                Ok(p) => spec_parse_connect(buf@) == Ok::<ConnectV, Error>(p@),
                Err(e) => spec_parse_connect(buf@) == Err::<ConnectV, Error>(e),
            },
    {
        let (name, pos1) = read_string(buf, 0)?;
        let (level, pos2) = read_u8(buf, pos1)?;
        let nb = name.as_str().as_bytes();
        let is_mqtt = nb.len() == 4 && nb[0] == 0x4d && nb[1] == 0x51 && nb[2] == 0x54 && nb[3]
            == 0x54;
        assert(is_mqtt <==> encode_utf8(name@) == mqtt_name()) by {
            if encode_utf8(name@) == mqtt_name() {
                assert(nb@ == mqtt_name());
            }
            if is_mqtt {
                assert(nb@ =~= mqtt_name());
            }
        }
        if !is_mqtt || level != 4 {
            return Err(Error::InvalidProtocol(level));
        }
        let (f, pos3) = read_u8(buf, pos2)?;
        let (keep_alive, pos4) = read_u16(buf, pos3)?;
        let (client_id, pos5) = read_string(buf, pos4)?;
        let (last_will, pos6) = if (f / 4) % 2 == 1 {
            let qos = QoS::from_u8((f / 8) % 4)?;
            let (topic, pa) = read_string(buf, pos5)?;
            let (message, pb) = read_bytes(buf, pa)?;
            (Some(LastWill { topic, message, qos, retain: (f / 32) % 2 == 1 }), pb)
        } else {
            (None, pos5)
        };
        let (username, pos7) = if f >= 128 {
            let (u, p) = read_string(buf, pos6)?;
            (Some(u), p)
        } else {
            (None, pos6)
        };
        let (password, pos8) = if (f / 64) % 2 == 1 {
            let (pw, p) = read_bytes(buf, pos7)?;
            (Some(pw), p)
        } else {
            (None, pos7)
        };
        let will_ok = (f / 4) % 2 == 1 || ((f / 8) % 4 == 0 && (f / 32) % 2 == 0);
        let password_ok = (f / 64) % 2 == 0 || f >= 128;
        if f % 2 != 0 || !will_ok || !password_ok {
            return Err(Error::InvalidHeader);
        }
        if pos8 < buf.len() {
            return Err(Error::TrailingBytes);
        }
        Ok(
            Connect {
                protocol: Protocol::MQTT311,
                keep_alive,
                client_id,
                clean_session: (f / 2) % 2 == 1,
                last_will,
                username,
                password,
            },
        )
    }

    pub fn flags(&self) -> (r: u8)
        ensures
            r == connect_flags(self@),
    {
        let mut f: u8 = 0;
        if self.username.is_some() {
            f = f + 128;
        }
        if self.password.is_some() {
            f = f + 64;
        }
        match &self.last_will {
            Some(w) => {
                f = f + 4 + w.qos.to_u8() * 8;
                if w.retain {
                    f = f + 32;
                }
            },
            None => {},
        }
        if self.clean_session {
            f = f + 2;
        }
        f
    }

    /// Appends the body; a field longer than 65535 bytes is refused.
    pub fn to_buffer(&self, out: &mut Vec<u8>) -> (r: Result<(), Error>)
        ensures
            r is Ok <==> connect_fits(self@),
            r is Ok ==> final(out)@ == old(out)@ + connect_body(self@),
            r matches Err(e) ==> e is InvalidLength,
    {
        let ghost start = out@;
        write_u16(out, 4);
        out.push(0x4d);
        out.push(0x51);
        out.push(0x54);
        out.push(0x54);
        out.push(4);
        out.push(self.flags());
        write_u16(out, self.keep_alive);
        assert(out@ =~= start + lp_bytes(mqtt_name()) + seq![4u8, connect_flags(self@)] + be16(
            self.keep_alive,
        ));
        write_string(out, &self.client_id)?;
        let ghost s1 = out@;
        match &self.last_will {
            Some(w) => {
                write_string(out, &w.topic)?;
                write_bytes(out, w.message.as_slice())?;
            },
            None => {},
        }
        assert(out@ =~= s1 + will_bytes(self@.last_will));
        let ghost s2 = out@;
        match &self.username {
            Some(u) => {
                write_string(out, u)?;
            },
            None => {},
        }
        assert(out@ =~= s2 + opt_str_bytes(self@.username));
        let ghost s3 = out@;
        match &self.password {
            Some(p) => {
                write_bytes(out, p.as_slice())?;
            },
            None => {},
        }
        assert(out@ =~= s3 + opt_bytes_bytes(self@.password));
        assert(out@ =~= start + connect_body(self@));
        Ok(())
    }
}

impl Connack {
    pub fn from_buffer(buf: &[u8]) -> (r: Result<Connack, Error>)
        ensures
            r == spec_parse_connack(buf@),
    {
        let (f, pos1) = read_u8(buf, 0)?;
        if f > 1 {
            return Err(Error::InvalidHeader);
        }
        let (c, pos2) = read_u8(buf, pos1)?;
        let code = ConnectReturnCode::from_u8(c)?;
        if pos2 < buf.len() {
            return Err(Error::TrailingBytes);
        }
        Ok(Connack { session_present: f == 1, code })
    }

    pub fn to_buffer(&self, out: &mut Vec<u8>)
        ensures
            final(out)@ == old(out)@ + connack_body(*self),
    {
        out.push(if self.session_present { 1 } else { 0 });
        out.push(self.code.to_u8());
        assert(final(out)@ =~= old(out)@ + connack_body(*self));
    }
}

} // verus!
