use vstd::prelude::*;

use crate::packet::PacketType;
use crate::utils::{Error, QoS, MAX_REMAINING_LENGTH};

verus! {

// ---------------------------------------------------------------------------
// Variable-byte integer
// ---------------------------------------------------------------------------

pub open spec fn pow128(i: nat) -> nat
    decreases i,
{
    if i == 0 {
        1
    } else {
        128 * pow128((i - 1) as nat)
    }
}

/// Wire form of a variable-byte integer: seven bits per byte, least significant
/// group first, the high bit set on every byte but the last.
pub open spec fn varint(n: nat) -> Seq<u8>
    decreases n,
{
    if n < 128 {
        seq![n as u8]
    } else {
        seq![(n % 128 + 128) as u8] + varint(n / 128)
    }
}

/// Number of bytes that `varint(n)` takes.
pub open spec fn varint_size(n: nat) -> nat {
    if n < 128 {
        1
    } else if n < 16384 {
        2
    } else if n < 2097152 {
        3
    } else {
        4
    }
}

/// Outcome of reading a variable-byte integer.
pub ghost enum LengthScan {
    /// More bytes are needed.
    Short,
    /// Four bytes all had the continuation bit; carries the value so far.
    Overflow(nat),
    /// The value and the number of bytes it took.
    Done(nat, nat),
}

/// Reads a variable-byte integer at `start`, where `i` bytes worth `acc` were read.
pub open spec fn scan_length(s: Seq<u8>, start: int, i: nat, acc: nat) -> LengthScan
    decreases 4 - i,
{
    if i >= 4 {
        LengthScan::Overflow(acc)
    } else if start + i >= s.len() {
        LengthScan::Short
    } else {
        let b = s[start + i];
        let acc2 = acc + (b % 128) as nat * pow128(i);
        if b < 128 {
            LengthScan::Done(acc2, i + 1)
        } else {
            scan_length(s, start, i + 1, acc2)
        }
    }
}

/// Executable outcome of reading a variable-byte integer.
pub enum LengthRead {
    Short,
    Overflow(usize),
    Done(usize, usize),
}

pub open spec fn length_read_view(r: LengthRead) -> LengthScan {
    match r {
        LengthRead::Short => LengthScan::Short,
        LengthRead::Overflow(v) => LengthScan::Overflow(v as nat),
        LengthRead::Done(v, n) => LengthScan::Done(v as nat, n as nat),
    }
}

pub proof fn lemma_pow128_values()
    ensures
        pow128(0) == 1,
        pow128(1) == 128,
        pow128(2) == 16384,
        pow128(3) == 2097152,
        pow128(4) == 268435456,
{
    reveal_with_fuel(pow128, 5);
}

/// Reads the remaining length that starts at `start`.
pub fn read_length(s: &[u8], start: usize) -> (r: LengthRead)
    requires
        start <= s@.len(),
    ensures
        length_read_view(r) == scan_length(s@, start as int, 0, 0),
{
    proof {
        lemma_pow128_values();
    }
    let mut i: usize = 0;
    let mut acc: usize = 0;
    let mut mult: usize = 1;
    loop
        invariant
            i <= 4,
            start <= s@.len(),
            mult == pow128(i as nat),
            acc < pow128(i as nat),
            scan_length(s@, start as int, 0, 0) == scan_length(s@, start as int, i as nat, acc as nat),
        decreases 4 - i,
    {
        proof {
            lemma_pow128_values();
        }
        if i == 4 {
            return LengthRead::Overflow(acc);
        }
        if s.len() - start <= i {
            return LengthRead::Short;
        }
        let b = s[start + i];
        let low = (b % 128) as usize;
        proof {
            assert(low * mult <= 127 * mult) by (nonlinear_arith)
                requires
                    low <= 127,
            ;
            assert(pow128((i + 1) as nat) == 128 * pow128(i as nat));
        }
        acc = acc + low * mult;
        if b < 128 {
            return LengthRead::Done(acc, i + 1);
        }
        mult = mult * 128;
        i = i + 1;
    }
}

/// Appends the variable-byte form of `n`; values above the maximum are refused.
pub fn write_length(out: &mut Vec<u8>, n: usize) -> (r: Result<(), Error>)
    ensures
        r is Ok <==> n <= MAX_REMAINING_LENGTH,
        r is Ok ==> final(out)@ == old(out)@ + varint(n as nat),
        r matches Err(e) ==> e == Error::InvalidLength(n),
        r is Err ==> final(out)@ == old(out)@,
{
    if n > MAX_REMAINING_LENGTH {
        return Err(Error::InvalidLength(n));
    }
    let ghost start = out@;
    let mut x: usize = n;
    loop
        invariant
            n <= MAX_REMAINING_LENGTH,
            start == old(out)@,
            start + varint(n as nat) == out@ + varint(x as nat),
        decreases x,
    {
        if x < 128 {
            out.push(x as u8);
            assert(varint(x as nat) == seq![x as u8]);
            assert(out@ =~= start + varint(n as nat));
            return Ok(());
        }
        let ghost before = out@;
        let ghost xo = x as nat;
        out.push((x % 128 + 128) as u8);
        x = x / 128;
        assert(varint(xo) == seq![(xo % 128 + 128) as u8] + varint(x as nat));
        assert(before + varint(xo) =~= out@ + varint(x as nat));
    }
}

// ---------------------------------------------------------------------------
// First byte of the fixed header
// ---------------------------------------------------------------------------

/// What the first byte of a fixed header says. For packet types other than
/// Publish the flags are `false`, `AtMostOnce`, `false`.
#[derive(Debug, Clone, Copy, PartialEq, Eq, Structural)]
pub struct Header {
    pub typ: PacketType,
    pub dup: bool,
    pub qos: QoS,
    pub retain: bool,
}

pub open spec fn type_of_code(n: u8) -> Option<PacketType> {
    if n == 1 {
        Some(PacketType::Connect)
    } else if n == 2 {
        Some(PacketType::Connack)
    } else if n == 3 {
        Some(PacketType::Publish)
    } else if n == 4 {
        Some(PacketType::Puback)
    } else if n == 5 {
        Some(PacketType::Pubrec)
    } else if n == 6 {
        Some(PacketType::Pubrel)
    } else if n == 7 {
        Some(PacketType::Pubcomp)
    } else if n == 8 {
        Some(PacketType::Subscribe)
    } else if n == 9 {
        Some(PacketType::Suback)
    } else if n == 10 {
        Some(PacketType::Unsubscribe)
    } else if n == 11 {
        Some(PacketType::Unsuback)
    } else if n == 12 {
        Some(PacketType::Pingreq)
    } else if n == 13 {
        Some(PacketType::Pingresp)
    } else if n == 14 {
        Some(PacketType::Disconnect)
    } else {
        None
    }
}

pub open spec fn code_of_type(t: PacketType) -> u8 {
    match t {
        PacketType::Connect => 1,
        PacketType::Connack => 2,
        PacketType::Publish => 3,
        PacketType::Puback => 4,
        PacketType::Pubrec => 5,
        PacketType::Pubrel => 6,
        PacketType::Pubcomp => 7,
        PacketType::Subscribe => 8,
        PacketType::Suback => 9,
        PacketType::Unsubscribe => 10,
        PacketType::Unsuback => 11,
        PacketType::Pingreq => 12,
        PacketType::Pingresp => 13,
        PacketType::Disconnect => 14,
    }
}

/// Pubrel, Subscribe and Unsubscribe carry the fixed flags `0b0010`.
pub open spec fn flags_two(t: PacketType) -> bool {
    t == PacketType::Pubrel || t == PacketType::Subscribe || t == PacketType::Unsubscribe
}

pub open spec fn plain_header(t: PacketType) -> Header {
    Header { typ: t, dup: false, qos: QoS::AtMostOnce, retain: false }
}

/// Decodes the first byte of a fixed header.
pub open spec fn spec_header(b: u8) -> Result<Header, Error> {
    let lo = b % 16;
    match type_of_code(b / 16) {
        None => Err(Error::InvalidHeader),
        Some(t) => if t == PacketType::Publish {
            match QoS::spec_from_u8((lo / 2) % 4) {
                Ok(q) => Ok(Header { typ: t, dup: lo >= 8, qos: q, retain: lo % 2 == 1 }),
                Err(e) => Err(e),
            }
        } else if flags_two(t) {
            if lo == 2 {
                Ok(plain_header(t))
            } else {
                Err(Error::InvalidHeader)
            }
        } else if lo == 0 {
            Ok(plain_header(t))
        } else {
            Err(Error::InvalidHeader)
        },
    }
}

/// Encodes the first byte of a fixed header.
pub open spec fn header_byte(h: Header) -> u8 {
    let flags: int = if h.typ == PacketType::Publish {
        (if h.dup { 8int } else { 0int }) + h.qos.spec_to_u8() as int * 2 + (if h.retain {
            1int
        } else {
            0int
        })
    } else if flags_two(h.typ) {
        2
    } else {
        0
    };
    (code_of_type(h.typ) as int * 16 + flags) as u8
}

/// A header as the encoder produces it: flags only on Publish.
pub open spec fn header_normal(h: Header) -> bool {
    h.typ != PacketType::Publish ==> h == plain_header(h.typ)
}

pub proof fn lemma_header_round_trip(h: Header)
    requires
        header_normal(h),
    ensures
        spec_header(header_byte(h)) == Ok::<Header, Error>(h),
{
    let b = header_byte(h);
    assert(b / 16 == code_of_type(h.typ));
    assert(type_of_code(code_of_type(h.typ)) == Some(h.typ));
}

pub fn read_header_byte(b: u8) -> (r: Result<Header, Error>)
    ensures
        r == spec_header(b),
{
    let lo = b % 16;
    let t = match b / 16 {
        1 => PacketType::Connect,
        2 => PacketType::Connack,
        3 => PacketType::Publish,
        4 => PacketType::Puback,
        5 => PacketType::Pubrec,
        6 => PacketType::Pubrel,
        7 => PacketType::Pubcomp,
        8 => PacketType::Subscribe,
        9 => PacketType::Suback,
        10 => PacketType::Unsubscribe,
        11 => PacketType::Unsuback,
        12 => PacketType::Pingreq,
        13 => PacketType::Pingresp,
        14 => PacketType::Disconnect,
        _ => {
            return Err(Error::InvalidHeader);
        },
    };
    match t {
        PacketType::Publish => {
            let q = QoS::from_u8((lo / 2) % 4)?;
            Ok(Header { typ: t, dup: lo >= 8, qos: q, retain: lo % 2 == 1 })
        },
        PacketType::Pubrel | PacketType::Subscribe | PacketType::Unsubscribe => {
            if lo == 2 {
                Ok(Header { typ: t, dup: false, qos: QoS::AtMostOnce, retain: false })
            } else {
                Err(Error::InvalidHeader)
            }
        },
        _ => {
            if lo == 0 {
                Ok(Header { typ: t, dup: false, qos: QoS::AtMostOnce, retain: false })
            } else {
                Err(Error::InvalidHeader)
            }
        },
    }
}

pub fn write_header_byte(h: Header) -> (r: u8)
    ensures
        r == header_byte(h),
{
    let code: u8 = match h.typ {
        PacketType::Connect => 1,
        PacketType::Connack => 2,
        PacketType::Publish => 3,
        PacketType::Puback => 4,
        PacketType::Pubrec => 5,
        PacketType::Pubrel => 6,
        PacketType::Pubcomp => 7,
        PacketType::Subscribe => 8,
        PacketType::Suback => 9,
        PacketType::Unsubscribe => 10,
        PacketType::Unsuback => 11,
        PacketType::Pingreq => 12,
        PacketType::Pingresp => 13,
        PacketType::Disconnect => 14,
    };
    let flags: u8 = match h.typ {
        PacketType::Publish => (if h.dup { 8u8 } else { 0u8 }) + h.qos.to_u8() * 2 + (if h.retain {
            1u8
        } else {
            0u8
        }),
        PacketType::Pubrel | PacketType::Subscribe | PacketType::Unsubscribe => 2,
        _ => 0,
    };
    code * 16 + flags
}

} // verus!
