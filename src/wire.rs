use vstd::prelude::*;
use vstd::slice::{slice_subrange, slice_to_vec};
use vstd::utf8::{decode_utf8, encode_utf8, valid_utf8};

use crate::utils::{Error, Pid, MAX_FIELD_LENGTH};

verus! {

// ---------------------------------------------------------------------------
// Wire forms
// ---------------------------------------------------------------------------

/// Two bytes, big-endian.
pub open spec fn be16(v: u16) -> Seq<u8> {
    seq![(v / 256) as u8, (v % 256) as u8]
}

/// A byte string with its two-byte length prefix.
pub open spec fn lp_bytes(b: Seq<u8>) -> Seq<u8> {
    be16(b.len() as u16) + b
}

/// A string as UTF-8 with its two-byte length prefix.
pub open spec fn lp_str(s: Seq<char>) -> Seq<u8> {
    lp_bytes(encode_utf8(s))
}

/// A byte string fits a two-byte length prefix.
pub open spec fn fits(b: Seq<u8>) -> bool {
    b.len() <= 65535
}

pub open spec fn str_fits(s: Seq<char>) -> bool {
    fits(encode_utf8(s))
}

// ---------------------------------------------------------------------------
// Readers: each reads at a position of a body and gives the next position
// ---------------------------------------------------------------------------

/// A read result with its position as an integer.
pub open spec fn at<T>(r: Result<(T, usize), Error>) -> Result<(T, int), Error> {
    match r {
        Ok((v, p)) => Ok((v, p as int)),
        Err(e) => Err(e),
    }
}

pub open spec fn at_bytes(r: Result<(Vec<u8>, usize), Error>) -> Result<(Seq<u8>, int), Error> {
    match r {
        Ok((v, p)) => Ok((v@, p as int)),
        Err(e) => Err(e),
    }
}

pub open spec fn at_str(r: Result<(String, usize), Error>) -> Result<(Seq<char>, int), Error> {
    match r {
        Ok((v, p)) => Ok((v@, p as int)),
        Err(e) => Err(e),
    }
}

pub open spec fn spec_read_u8(s: Seq<u8>, pos: int) -> Result<(u8, int), Error> {
    if pos + 1 <= s.len() {
        Ok((s[pos], pos + 1))
    } else {
        Err(Error::InvalidLength(1))
    }
}

pub open spec fn spec_read_u16(s: Seq<u8>, pos: int) -> Result<(u16, int), Error> {
    if pos + 2 <= s.len() {
        Ok(((s[pos] as int * 256 + s[pos + 1] as int) as u16, pos + 2))
    } else {
        Err(Error::InvalidLength(2))
    }
}

pub open spec fn spec_read_pid(s: Seq<u8>, pos: int) -> Result<(Pid, int), Error> {
    match spec_read_u16(s, pos) {
        Ok((v, p)) => if v == 0 {
            Err(Error::InvalidPid)
        } else {
            Ok((Pid::spec_new(v), p))
        },
        Err(e) => Err(e),
    }
}

pub open spec fn spec_read_bytes(s: Seq<u8>, pos: int) -> Result<(Seq<u8>, int), Error> {
    match spec_read_u16(s, pos) {
        Ok((n, p)) => if p + n > s.len() {
            Err(Error::InvalidLength(n as usize))
        } else {
            Ok((s.subrange(p, p + n), p + n))
        },
        Err(e) => Err(e),
    }
}

pub open spec fn spec_read_string(s: Seq<u8>, pos: int) -> Result<(Seq<char>, int), Error> {
    match spec_read_bytes(s, pos) {
        Ok((b, p)) => if valid_utf8(b) {
            Ok((decode_utf8(b), p))
        } else {
            Err(Error::InvalidString)
        },
        Err(e) => Err(e),
    }
}

pub fn read_u8(s: &[u8], pos: usize) -> (r: Result<(u8, usize), Error>)
    requires
        pos <= s@.len(),
    ensures
        at(r) == spec_read_u8(s@, pos as int),
{
    if pos < s.len() {
        Ok((s[pos], pos + 1))
    } else {
        Err(Error::InvalidLength(1))
    }
}

pub fn read_u16(s: &[u8], pos: usize) -> (r: Result<(u16, usize), Error>)
    requires
        pos <= s@.len(),
    ensures
        at(r) == spec_read_u16(s@, pos as int),
{
    if s.len() - pos >= 2 {
        let hi = s[pos] as u16;
        let lo = s[pos + 1] as u16;
        Ok((hi * 256 + lo, pos + 2))
    } else {
        Err(Error::InvalidLength(2))
    }
}

pub fn read_pid(s: &[u8], pos: usize) -> (r: Result<(Pid, usize), Error>)
    requires
        pos <= s@.len(),
    ensures
        at(r) == spec_read_pid(s@, pos as int),
{
    let (v, p) = read_u16(s, pos)?;
    let pid = Pid::from_u16(v)?;
    Ok((pid, p))
}

pub fn read_bytes(s: &[u8], pos: usize) -> (r: Result<(Vec<u8>, usize), Error>)
    requires
        pos <= s@.len(),
    ensures
        at_bytes(r) == spec_read_bytes(s@, pos as int),
{
    let (n, p) = read_u16(s, pos)?;
    let n = n as usize;
    if n > s.len() - p {
        Err(Error::InvalidLength(n))
    } else {
        let v = slice_to_vec(slice_subrange(s, p, p + n));
        Ok((v, p + n))
    }
}

/// Relies on `String::from_utf8`: it succeeds exactly on valid UTF-8, and the
/// string then holds the characters that the bytes encode.
#[verifier::external_body]
fn string_from_utf8(v: Vec<u8>) -> (r: Option<String>)
    ensures
        r is Some <==> valid_utf8(v@),
        r matches Some(s) ==> s@ == decode_utf8(v@),
{
    String::from_utf8(v).ok()
}

pub fn read_string(s: &[u8], pos: usize) -> (r: Result<(String, usize), Error>)
    requires
        pos <= s@.len(),
    ensures
        at_str(r) == spec_read_string(s@, pos as int),
{
    let (b, p) = read_bytes(s, pos)?;
    match string_from_utf8(b) {
        Some(st) => Ok((st, p)),
        None => Err(Error::InvalidString),
    }
}

// ---------------------------------------------------------------------------
// Writers: each appends to an output vector
// ---------------------------------------------------------------------------

pub fn write_u16(out: &mut Vec<u8>, v: u16)
    ensures
        final(out)@ == old(out)@ + be16(v),
{
    out.push((v / 256) as u8);
    out.push((v % 256) as u8);
    assert(final(out)@ =~= old(out)@ + be16(v));
}

pub fn write_slice(out: &mut Vec<u8>, b: &[u8])
    ensures
        final(out)@ == old(out)@ + b@,
{
    let ghost start = out@;
    let mut i: usize = 0;
    while i < b.len()
        invariant
            i <= b@.len(),
            out@ == start + b@.subrange(0, i as int),
        decreases b@.len() - i,
    {
        out.push(b[i]);
        i = i + 1;
        assert(out@ =~= start + b@.subrange(0, i as int));
    }
    assert(b@.subrange(0, b@.len() as int) =~= b@);
}

/// Writes a length-prefixed byte string; longer than 65535 bytes is refused.
pub fn write_bytes(out: &mut Vec<u8>, b: &[u8]) -> (r: Result<(), Error>)
    ensures
        r is Ok <==> fits(b@),
        r is Ok ==> final(out)@ == old(out)@ + lp_bytes(b@),
        r matches Err(e) ==> e == Error::InvalidLength(b@.len() as usize),
{
    if b.len() > MAX_FIELD_LENGTH {
        Err(Error::InvalidLength(b.len()))
    } else {
        write_u16(out, b.len() as u16);
        write_slice(out, b);
        assert(final(out)@ =~= old(out)@ + lp_bytes(b@));
        Ok(())
    }
}

/// Writes a length-prefixed UTF-8 string; longer than 65535 bytes is refused.
pub fn write_string(out: &mut Vec<u8>, s: &String) -> (r: Result<(), Error>)
    ensures
        r is Ok <==> str_fits(s@),
        r is Ok ==> final(out)@ == old(out)@ + lp_str(s@),
        r matches Err(e) ==> e == Error::InvalidLength(encode_utf8(s@).len() as usize),
{
    let b = s.as_str().as_bytes();
    write_bytes(out, b)
}

// ---------------------------------------------------------------------------
// Lists
// ---------------------------------------------------------------------------

/// The wire forms of the items of a list, one after another.
pub open spec fn concat_map<T>(ts: Seq<T>, f: spec_fn(T) -> Seq<u8>) -> Seq<u8>
    decreases ts.len(),
{
    if ts.len() == 0 {
        seq![]
    } else {
        f(ts[0]) + concat_map(ts.drop_first(), f)
    }
}

pub proof fn lemma_concat_map_push<T>(ts: Seq<T>, t: T, f: spec_fn(T) -> Seq<u8>)
    ensures
        concat_map(ts.push(t), f) == concat_map(ts, f) + f(t),
    decreases ts.len(),
{
    if ts.len() == 0 {
        assert(ts.push(t).drop_first() =~= ts);
        assert(concat_map(ts.push(t), f) =~= concat_map(ts, f) + f(t));
    } else {
        assert(ts.push(t).drop_first() =~= ts.drop_first().push(t));
        lemma_concat_map_push(ts.drop_first(), t, f);
        assert(concat_map(ts.push(t), f) =~= concat_map(ts, f) + f(t));
    }
}

/// A list result with `acc` in front of its items.
pub open spec fn prepend<T>(acc: Seq<T>, r: Result<Seq<T>, Error>) -> Result<Seq<T>, Error> {
    match r {
        Ok(s) => Ok(acc + s),
        Err(e) => Err(e),
    }
}

} // verus!
