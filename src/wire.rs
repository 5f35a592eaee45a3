use vstd::prelude::*;
use vstd::string::*;
use vstd::utf8::*;

use crate::checksum::DIGEST_LEN;
use crate::error::TransferError;

verus! {

broadcast use {encode_utf8_decode_utf8, encode_utf8_valid_utf8, decode_utf8_encode_utf8};

/// The longest name, in UTF-8 bytes, that a header may carry.
pub const MAX_NAME_LEN: usize = 1024;

/// Header bytes besides the name: its length, the payload size and the digest.
pub const FIXED_HEADER_LEN: usize = 42;

/// Big-endian bytes of a 16-bit integer.
pub open spec fn be16(n: u16) -> Seq<u8> {
    seq![((n >> 8u16) & 0xffu16) as u8, (n & 0xffu16) as u8]
}

/// Big-endian bytes of a 64-bit integer.
pub open spec fn be64(n: u64) -> Seq<u8> {
    seq![
        ((n >> 56u64) & 0xffu64) as u8,
        ((n >> 48u64) & 0xffu64) as u8,
        ((n >> 40u64) & 0xffu64) as u8,
        ((n >> 32u64) & 0xffu64) as u8,
        ((n >> 24u64) & 0xffu64) as u8,
        ((n >> 16u64) & 0xffu64) as u8,
        ((n >> 8u64) & 0xffu64) as u8,
        (n & 0xffu64) as u8,
    ]
}

/// The 16-bit integer whose big-endian bytes are `hi`, `lo`.
pub open spec fn from_be16(hi: u8, lo: u8) -> u16 {
    ((hi as u16) << 8u16) | (lo as u16)
}

/// The 64-bit integer whose big-endian bytes are the eight of `b`.
pub open spec fn from_be64(b: Seq<u8>) -> u64 {
    ((b[0] as u64) << 56u64) | ((b[1] as u64) << 48u64) | ((b[2] as u64) << 40u64) | ((
    b[3] as u64) << 32u64) | ((b[4] as u64) << 24u64) | ((b[5] as u64) << 16u64) | ((b[6] as u64)
        << 8u64) | (b[7] as u64)
}

/// The header as it travels: name length, name, payload size, digest.
pub open spec fn header_wire(name: Seq<char>, payload_size: u64, checksum: Seq<u8>) -> Seq<u8> {
    be16(encode_utf8(name).len() as u16) + encode_utf8(name) + be64(payload_size) + checksum
}

/// Whether a header with this name and digest can be framed.
pub open spec fn frameable(name: Seq<char>, checksum: Seq<u8>) -> bool {
    encode_utf8(name).len() <= MAX_NAME_LEN && checksum.len() == DIGEST_LEN
}

/// The name length that the first two header bytes declare.
pub open spec fn declared_len(buf: Seq<u8>) -> int {
    from_be16(buf[0], buf[1]) as int
}

/// The name bytes of a complete header.
pub open spec fn name_field(buf: Seq<u8>) -> Seq<u8> {
    buf.subrange(2, 2 + declared_len(buf))
}

/// The payload size of a complete header.
pub open spec fn size_field(buf: Seq<u8>) -> u64 {
    from_be64(buf.subrange(2 + declared_len(buf), 10 + declared_len(buf)))
}

/// The digest of a complete header.
pub open spec fn checksum_field(buf: Seq<u8>) -> Seq<u8> {
    buf.subrange(10 + declared_len(buf), 42 + declared_len(buf))
}

/// Why the bytes `buf` are not exactly one header, if they are not.
pub open spec fn header_fault(buf: Seq<u8>) -> Option<TransferError> {
    if buf.len() < 2 {
        Some(TransferError::ProtocolError)
    } else if declared_len(buf) > MAX_NAME_LEN {
        Some(TransferError::InvalidHeader)
    } else if buf.len() != declared_len(buf) + FIXED_HEADER_LEN {
        Some(TransferError::ProtocolError)
    } else if !valid_utf8(name_field(buf)) {
        Some(TransferError::ProtocolError)
    } else {
        None
    }
}

/// The metadata that precedes a payload.
pub struct TransferHeader {
    pub name: String,
    pub payload_size: u64,
    pub checksum: Vec<u8>,
}

/// Relies on `String::from_utf8`: it succeeds exactly on well-formed UTF-8, with the text decoded.
#[verifier::external_body]
fn utf8_text(bytes: Vec<u8>) -> (r: Option<String>)
    ensures
        r is Some <==> valid_utf8(bytes@),
        r is Some ==> r->Some_0@ == decode_utf8(bytes@),
{
    String::from_utf8(bytes).ok()
}

fn push_be64(out: &mut Vec<u8>, n: u64)
    ensures
        final(out)@ == old(out)@ + be64(n),
{
    out.push(((n >> 56u64) & 0xffu64) as u8);
    out.push(((n >> 48u64) & 0xffu64) as u8);
    out.push(((n >> 40u64) & 0xffu64) as u8);
    out.push(((n >> 32u64) & 0xffu64) as u8);
    out.push(((n >> 24u64) & 0xffu64) as u8);
    out.push(((n >> 16u64) & 0xffu64) as u8);
    out.push(((n >> 8u64) & 0xffu64) as u8);
    out.push((n & 0xffu64) as u8);
    proof {
        assert(final(out)@ =~= old(out)@ + be64(n));
    }
}

/// Frames the header for a payload of `payload_size` bytes named `name`
/// whose digest is `checksum`.
pub fn encode_header(name: &str, payload_size: u64, checksum: &[u8]) -> (r: Result<
    Vec<u8>,
    TransferError,
>)
    ensures
        r is Ok <==> frameable(name@, checksum@),
        r is Ok ==> r->Ok_0@ == header_wire(name@, payload_size, checksum@),
        r is Err ==> r->Err_0 == TransferError::InvalidHeader,
{
    let bytes = name.as_bytes();
    let n = bytes.len();
    if n > MAX_NAME_LEN || checksum.len() != DIGEST_LEN {
        return Err(TransferError::InvalidHeader);
    }
    let len16 = n as u16;
    let mut out: Vec<u8> = Vec::new();
    out.push(((len16 >> 8u16) & 0xffu16) as u8);
    out.push((len16 & 0xffu16) as u8);
    proof {
        assert(out@ =~= be16(len16));
    }
    out.extend_from_slice(bytes);
    push_be64(&mut out, payload_size);
    out.extend_from_slice(checksum);
    proof {
        assert(out@ =~= header_wire(name@, payload_size, checksum@));
    }
    Ok(out)
}

/// The name length declared by the first two header bytes, or
/// `InvalidHeader` where it exceeds what this receiver accepts.
pub fn name_length(hi: u8, lo: u8) -> (r: Result<usize, TransferError>)
    ensures
        from_be16(hi, lo) <= MAX_NAME_LEN ==> r == Ok::<usize, TransferError>(
            from_be16(hi, lo) as usize,
        ),
        from_be16(hi, lo) > MAX_NAME_LEN ==> r == Err::<usize, TransferError>(
            TransferError::InvalidHeader,
        ),
{
    let n = ((hi as u16) << 8u16) | (lo as u16);
    if n as usize > MAX_NAME_LEN {
        Err(TransferError::InvalidHeader)
    } else {
        Ok(n as usize)
    }
}

/// Reads one complete header from `buf`.
pub fn decode_header(buf: &[u8]) -> (r: Result<TransferHeader, TransferError>)
    ensures
        r is Ok <==> header_fault(buf@) is None,
        r is Err ==> r->Err_0 == header_fault(buf@)->Some_0,
        r is Ok ==> {
            &&& r->Ok_0.name@ == decode_utf8(name_field(buf@))
            &&& r->Ok_0.payload_size == size_field(buf@)
            &&& r->Ok_0.checksum@ == checksum_field(buf@)
        },
{
    if buf.len() < 2 {
        return Err(TransferError::ProtocolError);
    }
    let n = match name_length(buf[0], buf[1]) {
        Ok(n) => n,
        Err(e) => {
            return Err(e);
        },
    };
    if buf.len() != n + FIXED_HEADER_LEN {
        return Err(TransferError::ProtocolError);
    }
    let mut name_bytes: Vec<u8> = Vec::new();
    name_bytes.extend_from_slice(&buf[2..2 + n]);
    proof {
        assert(name_bytes@ =~= name_field(buf@));
    }
    let name = match utf8_text(name_bytes) {
        Some(s) => s,
        None => {
            return Err(TransferError::ProtocolError);
        },
    };
    let s = 2 + n;
    let payload_size = ((buf[s] as u64) << 56u64) | ((buf[s + 1] as u64) << 48u64) | ((buf[s
        + 2] as u64) << 40u64) | ((buf[s + 3] as u64) << 32u64) | ((buf[s + 4] as u64) << 24u64)
        | ((buf[s + 5] as u64) << 16u64) | ((buf[s + 6] as u64) << 8u64) | (buf[s + 7] as u64);
    let mut checksum: Vec<u8> = Vec::new();
    checksum.extend_from_slice(&buf[s + 8..s + 40]);
    proof {
        let sz = buf@.subrange(2 + n, 10 + n);
        assert(sz[0] == buf@[s as int]);
        assert(sz[7] == buf@[s + 7]);
        assert(sz[1] == buf@[s + 1]);
        assert(sz[2] == buf@[s + 2]);
        assert(sz[3] == buf@[s + 3]);
        assert(sz[4] == buf@[s + 4]);
        assert(sz[5] == buf@[s + 5]);
        assert(sz[6] == buf@[s + 6]);
    }
    Ok(TransferHeader { name, payload_size, checksum })
}

proof fn lemma_be16_round_trip(n: u16)
    ensures
        from_be16(be16(n)[0], be16(n)[1]) == n,
{
    assert((((((n >> 8u16) & 0xffu16) as u8) as u16) << 8u16) | ((((n & 0xffu16) as u8)) as u16)
        == n) by (bit_vector);
}

proof fn lemma_be64_round_trip(n: u64)
    ensures
        from_be64(be64(n)) == n,
{
    assert(((((((n >> 56u64) & 0xffu64) as u8) as u64) << 56u64) | (((((n >> 48u64) & 0xffu64)
        as u8) as u64) << 48u64) | (((((n >> 40u64) & 0xffu64) as u8) as u64) << 40u64) | (((((n
        >> 32u64) & 0xffu64) as u8) as u64) << 32u64) | (((((n >> 24u64) & 0xffu64) as u8) as u64)
        << 24u64) | (((((n >> 16u64) & 0xffu64) as u8) as u64) << 16u64) | (((((n >> 8u64)
        & 0xffu64) as u8) as u64) << 8u64) | ((((n & 0xffu64) as u8)) as u64)) == n)
        by (bit_vector);
}

/// A framed header reads back as the same name, size and digest.
pub proof fn lemma_header_round_trip(name: Seq<char>, payload_size: u64, checksum: Seq<u8>)
    requires
        frameable(name, checksum),
    ensures
        header_fault(header_wire(name, payload_size, checksum)) is None,
        decode_utf8(name_field(header_wire(name, payload_size, checksum))) == name,
        size_field(header_wire(name, payload_size, checksum)) == payload_size,
        checksum_field(header_wire(name, payload_size, checksum)) == checksum,
{
    let w = header_wire(name, payload_size, checksum);
    let nb = encode_utf8(name);
    let n = nb.len() as int;
    lemma_be16_round_trip(n as u16);
    lemma_be64_round_trip(payload_size);
    assert(w[0] == be16(n as u16)[0]);
    assert(w[1] == be16(n as u16)[1]);
    assert(declared_len(w) == n);
    assert(name_field(w) =~= nb);
    assert(w.subrange(2 + n, 10 + n) =~= be64(payload_size));
    assert(checksum_field(w) =~= checksum);
}

proof fn lemma_be16_exact(hi: u8, lo: u8)
    ensures
        be16(from_be16(hi, lo)) == seq![hi, lo],
{
    let n = from_be16(hi, lo);
    assert((((((hi as u16) << 8u16) | (lo as u16)) >> 8u16) & 0xffu16) as u8 == hi)
        by (bit_vector);
    assert(((((hi as u16) << 8u16) | (lo as u16)) & 0xffu16) as u8 == lo) by (bit_vector);
    assert(be16(n) =~= seq![hi, lo]);
}

proof fn lemma_be64_exact(b: Seq<u8>)
    requires
        b.len() == 8,
    ensures
        be64(from_be64(b)) == b,
{
    let (b0, b1, b2, b3, b4, b5, b6, b7) = (b[0], b[1], b[2], b[3], b[4], b[5], b[6], b[7]);
    let n = from_be64(b);
    assert(n == ((b0 as u64) << 56u64) | ((b1 as u64) << 48u64) | ((b2 as u64) << 40u64) | ((
    b3 as u64) << 32u64) | ((b4 as u64) << 24u64) | ((b5 as u64) << 16u64) | ((b6 as u64)
        << 8u64) | (b7 as u64));
    assert({
        &&& ((n >> 56u64) & 0xffu64) as u8 == b0
        &&& ((n >> 48u64) & 0xffu64) as u8 == b1
        &&& ((n >> 40u64) & 0xffu64) as u8 == b2
        &&& ((n >> 32u64) & 0xffu64) as u8 == b3
        &&& ((n >> 24u64) & 0xffu64) as u8 == b4
        &&& ((n >> 16u64) & 0xffu64) as u8 == b5
        &&& ((n >> 8u64) & 0xffu64) as u8 == b6
        &&& (n & 0xffu64) as u8 == b7
    }) by (bit_vector)
        requires
            n == ((b0 as u64) << 56u64) | ((b1 as u64) << 48u64) | ((b2 as u64) << 40u64) | ((
            b3 as u64) << 32u64) | ((b4 as u64) << 24u64) | ((b5 as u64) << 16u64) | ((
            b6 as u64) << 8u64) | (b7 as u64),
    ;
    assert(be64(n) =~= b);
}

/// Every accepted header is exactly the framing of what it decodes to: a
/// receiver accepts no bytes that a sender would not have written for the
/// same name, size and digest.
pub proof fn lemma_accepted_header_is_framed(buf: Seq<u8>)
    requires
        header_fault(buf) is None,
    ensures
        frameable(decode_utf8(name_field(buf)), checksum_field(buf)),
        buf == header_wire(decode_utf8(name_field(buf)), size_field(buf), checksum_field(buf)),
{
    let n = declared_len(buf);
    let name = decode_utf8(name_field(buf));
    assert(encode_utf8(name) == name_field(buf));
    lemma_be16_exact(buf[0], buf[1]);
    lemma_be64_exact(buf.subrange(2 + n, 10 + n));
    assert(encode_utf8(name).len() as u16 == from_be16(buf[0], buf[1]));
    assert(buf =~= seq![buf[0], buf[1]] + name_field(buf) + buf.subrange(2 + n, 10 + n)
        + checksum_field(buf));
}

} // verus!
