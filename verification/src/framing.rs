//! Wire framing. Both protocols put a big-endian length prefix in front of
//! a serialized message body: 4 bytes for the directory and transfer
//! protocols, 8 bytes for the bulk-processing service. One message, one
//! connection, one response.

use vstd::prelude::*;

use crate::errors::ServiceError;

verus! {

/// The 4 big-endian bytes of `n`.
pub open spec fn be32_bytes(n: u32) -> Seq<u8> {
    seq![
        ((n >> 24) & 0xff) as u8,
        ((n >> 16) & 0xff) as u8,
        ((n >> 8) & 0xff) as u8,
        (n & 0xff) as u8,
    ]
}

/// The value of 4 big-endian bytes.
pub open spec fn be32_value(s: Seq<u8>) -> u32
    recommends
        s.len() >= 4,
{
    ((s[0] as u32) << 24) | ((s[1] as u32) << 16) | ((s[2] as u32) << 8) | (s[3] as u32)
}

/// The 8 big-endian bytes of `n`.
pub open spec fn be64_bytes(n: u64) -> Seq<u8> {
    seq![
        ((n >> 56) & 0xff) as u8,
        ((n >> 48) & 0xff) as u8,
        ((n >> 40) & 0xff) as u8,
        ((n >> 32) & 0xff) as u8,
        ((n >> 24) & 0xff) as u8,
        ((n >> 16) & 0xff) as u8,
        ((n >> 8) & 0xff) as u8,
        (n & 0xff) as u8,
    ]
}

/// The value of 8 big-endian bytes.
pub open spec fn be64_value(s: Seq<u8>) -> u64
    recommends
        s.len() >= 8,
{
    ((s[0] as u64) << 56) | ((s[1] as u64) << 48) | ((s[2] as u64) << 40) | ((s[3] as u64) << 32)
        | ((s[4] as u64) << 24) | ((s[5] as u64) << 16) | ((s[6] as u64) << 8) | (s[7] as u64)
}

/// Reading back the 4 bytes just written recovers the length.
pub proof fn lemma_be32_round_trip(n: u32)
    ensures
        be32_value(be32_bytes(n)) == n,
{
    let s = be32_bytes(n);
    assert((((((n >> 24) & 0xff) as u8) as u32) << 24) | (((((n >> 16) & 0xff) as u8) as u32)
        << 16) | (((((n >> 8) & 0xff) as u8) as u32) << 8) | (((n & 0xff) as u8) as u32) == n)
        by (bit_vector);
    assert(be32_value(s) == n);
}

/// Reading back the 8 bytes just written recovers the length.
pub proof fn lemma_be64_round_trip(n: u64)
    ensures
        be64_value(be64_bytes(n)) == n,
{
    let s = be64_bytes(n);
    assert((((((n >> 56) & 0xff) as u8) as u64) << 56) | (((((n >> 48) & 0xff) as u8) as u64)
        << 48) | (((((n >> 40) & 0xff) as u8) as u64) << 40) | (((((n >> 32) & 0xff) as u8)
        as u64) << 32) | (((((n >> 24) & 0xff) as u8) as u64) << 24) | (((((n >> 16) & 0xff)
        as u8) as u64) << 16) | (((((n >> 8) & 0xff) as u8) as u64) << 8) | (((n & 0xff) as u8)
        as u64) == n) by (bit_vector);
    assert(be64_value(s) == n);
}

/// Frame a message body for the 4-byte protocols: the body's length as 4
/// big-endian bytes, then the body. A body too long for a 32-bit length
/// cannot be framed.
pub fn encode_frame(body: &Vec<u8>) -> (r: Result<Vec<u8>, ServiceError>)
    ensures
        body@.len() <= 0xffff_ffffu32 <==> r is Ok,
        r matches Ok(f) ==> f@ == be32_bytes(body@.len() as u32) + body@,
        r is Err ==> r == Err::<Vec<u8>, ServiceError>(ServiceError::IoFailure),
{
    if body.len() > 0xffff_ffffusize {
        return Err(ServiceError::IoFailure);
    }
    let n = body.len() as u32;
    let mut out: Vec<u8> = Vec::new();
    out.push(((n >> 24) & 0xff) as u8);
    out.push(((n >> 16) & 0xff) as u8);
    out.push(((n >> 8) & 0xff) as u8);
    out.push((n & 0xff) as u8);
    out.extend_from_slice(body.as_slice());
    proof {
        assert(out@ =~= be32_bytes(n) + body@);
    }
    Ok(out)
}

/// Read the 4-byte big-endian length prefix of a frame. Fewer than 4 bytes
/// is a framing violation.
pub fn parse_frame_len(header: &Vec<u8>) -> (r: Result<u32, ServiceError>)
    ensures
        header@.len() >= 4 <==> r is Ok,
        r matches Ok(n) ==> n == be32_value(header@),
        r is Err ==> r == Err::<u32, ServiceError>(ServiceError::DecodeFailure),
{
    if header.len() < 4 {
        return Err(ServiceError::DecodeFailure);
    }
    let n = ((header[0] as u32) << 24) | ((header[1] as u32) << 16) | ((header[2] as u32) << 8) | (
    header[3] as u32);
    Ok(n)
}

/// Frame a message body for the bulk-processing service: the body's length
/// as 8 big-endian bytes, then the body.
pub fn encode_frame64(body: &Vec<u8>) -> (r: Vec<u8>)
    ensures
        r@ == be64_bytes(body@.len() as u64) + body@,
{
    let n = body.len() as u64;
    let mut out: Vec<u8> = Vec::new();
    out.push(((n >> 56) & 0xff) as u8);
    out.push(((n >> 48) & 0xff) as u8);
    out.push(((n >> 40) & 0xff) as u8);
    out.push(((n >> 32) & 0xff) as u8);
    out.push(((n >> 24) & 0xff) as u8);
    out.push(((n >> 16) & 0xff) as u8);
    out.push(((n >> 8) & 0xff) as u8);
    out.push((n & 0xff) as u8);
    out.extend_from_slice(body.as_slice());
    proof {
        assert(out@ =~= be64_bytes(n) + body@);
    }
    out
}

/// Read the 8-byte big-endian length prefix of a bulk-service frame. Fewer
/// than 8 bytes is a framing violation.
pub fn parse_frame_len64(header: &Vec<u8>) -> (r: Result<u64, ServiceError>)
    ensures
        header@.len() >= 8 <==> r is Ok,
        r matches Ok(n) ==> n == be64_value(header@),
        r is Err ==> r == Err::<u64, ServiceError>(ServiceError::DecodeFailure),
{
    if header.len() < 8 {
        return Err(ServiceError::DecodeFailure);
    }
    let n = ((header[0] as u64) << 56) | ((header[1] as u64) << 48) | ((header[2] as u64) << 40)
        | ((header[3] as u64) << 32) | ((header[4] as u64) << 24) | ((header[5] as u64) << 16) | ((
    header[6] as u64) << 8) | (header[7] as u64);
    Ok(n)
}

} // verus!
