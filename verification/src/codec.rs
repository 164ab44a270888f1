//! Primitive codec: big-endian fixed-width integers, length-prefixed byte
//! strings, and the UTF-8 boundary between bytes on the wire and `String`s.

use vstd::prelude::*;

verus! {

use vstd::utf8::{valid_utf8, decode_utf8, encode_utf8};

/// Failure while decoding bytes received from the server.
#[derive(Clone, Copy, PartialEq, Eq, Structural, Debug)]
pub enum DecodeError {
    /// A declared length runs past the bytes actually available.
    Framing,
    /// Malformed UTF-8 where well-formed text was required.
    BadUtf8,
}

/// Failure while encoding a request.
#[derive(Clone, Copy, PartialEq, Eq, Structural, Debug)]
pub enum EncodeError {
    /// The frame body would not fit the 32-bit length field of the header.
    BodyTooLong,
}

/// Big-endian bytes of a 16-bit integer.
pub open spec fn be16(n: u16) -> Seq<u8> {
    seq![(n / 256) as u8, (n % 256) as u8]
}

/// Big-endian bytes of a 32-bit integer.
pub open spec fn be32(n: u32) -> Seq<u8> {
    seq![
        (n / 0x1000000) as u8,
        ((n / 0x10000) % 256) as u8,
        ((n / 256) % 256) as u8,
        (n % 256) as u8,
    ]
}

/// The 16-bit integer whose big-endian bytes are `b0 b1`.
pub open spec fn u16_of(b0: u8, b1: u8) -> u16 {
    (b0 * 256 + b1) as u16
}

/// The 32-bit integer whose big-endian bytes are `b0 b1 b2 b3`.
pub open spec fn u32_of(b0: u8, b1: u8, b2: u8, b3: u8) -> u32 {
    (b0 * 0x1000000 + b1 * 0x10000 + b2 * 256 + b3) as u32
}

/// Reading back the big-endian bytes of a 16-bit integer gives the integer.
pub proof fn lemma_be16_of(n: u16)
    ensures
        u16_of(be16(n)[0], be16(n)[1]) == n,
{
}

/// Reading back the big-endian bytes of a 32-bit integer gives the integer.
pub proof fn lemma_be32_of(n: u32)
    ensures
        u32_of(be32(n)[0], be32(n)[1], be32(n)[2], be32(n)[3]) == n,
{
}

/// Appends the big-endian bytes of a 16-bit integer.
pub fn write_be_u16(buf: &mut Vec<u8>, n: u16)
    ensures
        final(buf)@ == old(buf)@ + be16(n),
{
    buf.push((n / 256) as u8);
    buf.push((n % 256) as u8);
    proof {
        assert(buf@ =~= old(buf)@ + be16(n));
    }
}

/// Appends the big-endian bytes of a 32-bit integer.
pub fn write_be_u32(buf: &mut Vec<u8>, n: u32)
    ensures
        final(buf)@ == old(buf)@ + be32(n),
{
    buf.push((n / 0x1000000) as u8);
    buf.push(((n / 0x10000) % 256) as u8);
    buf.push(((n / 256) % 256) as u8);
    buf.push((n % 256) as u8);
    proof {
        assert(buf@ =~= old(buf)@ + be32(n));
    }
}

/// Appends a copy of the given bytes.
pub fn push_bytes(buf: &mut Vec<u8>, bs: &[u8])
    ensures
        final(buf)@ == old(buf)@ + bs@,
{
    let n = bs.len();
    let mut i: usize = 0;
    while i < n
        invariant
            i <= n,
            n == bs@.len(),
            buf@ == old(buf)@ + bs@.subrange(0, i as int),
        decreases n - i,
    {
        buf.push(bs[i]);
        i = i + 1;
        proof {
            assert(buf@ =~= old(buf)@ + bs@.subrange(0, i as int));
        }
    }
    proof {
        assert(bs@.subrange(0, n as int) =~= bs@);
    }
}

/// Parses one byte at `i`.
pub open spec fn parse_u8(b: Seq<u8>, i: int) -> Option<(u8, int)> {
    if 0 <= i && i + 1 <= b.len() {
        Some((b[i], i + 1))
    } else {
        None
    }
}

/// Parses a big-endian 16-bit integer at `i`.
pub open spec fn parse_u16(b: Seq<u8>, i: int) -> Option<(u16, int)> {
    if 0 <= i && i + 2 <= b.len() {
        Some((u16_of(b[i], b[i + 1]), i + 2))
    } else {
        None
    }
}

/// Parses a big-endian 32-bit integer at `i`.
pub open spec fn parse_u32(b: Seq<u8>, i: int) -> Option<(u32, int)> {
    if 0 <= i && i + 4 <= b.len() {
        Some((u32_of(b[i], b[i + 1], b[i + 2], b[i + 3]), i + 4))
    } else {
        None
    }
}

/// Parses `n` raw bytes at `i`.
pub open spec fn parse_bytes(b: Seq<u8>, i: int, n: int) -> Option<(Seq<u8>, int)> {
    if 0 <= i && 0 <= n && i + n <= b.len() {
        Some((b.subrange(i, i + n), i + n))
    } else {
        None
    }
}

/// Parses a short string at `i`: a 16-bit length prefix, then that many
/// UTF-8 bytes.  Malformed UTF-8 is a decode failure, never substituted.
pub open spec fn parse_short_string(b: Seq<u8>, i: int) -> Result<(Seq<char>, int), DecodeError> {
    match parse_u16(b, i) {
        Some((n, j)) => match parse_bytes(b, j, n as int) {
            Some((bs, k)) => if valid_utf8(bs) {
                Ok((decode_utf8(bs), k))
            } else {
                Err(DecodeError::BadUtf8)
            },
            None => Err(DecodeError::Framing),
        },
        None => Err(DecodeError::Framing),
    }
}

/// Reads one byte, advancing the cursor on success.
pub fn read_u8(buf: &Vec<u8>, pos: &mut usize) -> (r: Option<u8>)
    ensures
        match parse_u8(buf@, *old(pos) as int) {
            Some(vj) => r == Some(vj.0) && *final(pos) as int == vj.1,
            None => r is None && *final(pos) == *old(pos),
        },
{
    if *pos < buf.len() {
        let v = buf[*pos];
        *pos = *pos + 1;
        Some(v)
    } else {
        None
    }
}

/// Reads a big-endian 16-bit integer, advancing the cursor on success.
pub fn read_u16(buf: &Vec<u8>, pos: &mut usize) -> (r: Option<u16>)
    ensures
        match parse_u16(buf@, *old(pos) as int) {
            Some(vj) => r == Some(vj.0) && *final(pos) as int == vj.1,
            None => r is None && *final(pos) == *old(pos),
        },
{
    if *pos < buf.len() && buf.len() - *pos >= 2 {
        let v = (buf[*pos] as u16) * 256 + (buf[*pos + 1] as u16);
        *pos = *pos + 2;
        Some(v)
    } else {
        None
    }
}

/// Reads a big-endian 32-bit integer, advancing the cursor on success.
pub fn read_u32(buf: &Vec<u8>, pos: &mut usize) -> (r: Option<u32>)
    ensures
        match parse_u32(buf@, *old(pos) as int) {
            Some(vj) => r == Some(vj.0) && *final(pos) as int == vj.1,
            None => r is None && *final(pos) == *old(pos),
        },
{
    if *pos < buf.len() && buf.len() - *pos >= 4 {
        let v = (buf[*pos] as u32) * 0x1000000 + (buf[*pos + 1] as u32) * 0x10000 + (buf[*pos
            + 2] as u32) * 256 + (buf[*pos + 3] as u32);
        *pos = *pos + 4;
        Some(v)
    } else {
        None
    }
}

/// Reads `n` raw bytes into a fresh vector, advancing the cursor on success.
pub fn read_bytes(buf: &Vec<u8>, pos: &mut usize, n: usize) -> (r: Option<Vec<u8>>)
    ensures
        match parse_bytes(buf@, *old(pos) as int, n as int) {
            Some(vj) => r matches Some(v) && v@ == vj.0 && *final(pos) as int == vj.1,
            None => r is None && *final(pos) == *old(pos),
        },
{
    if *pos <= buf.len() && buf.len() - *pos >= n {
        let start: usize = *pos;
        let mut out: Vec<u8> = Vec::new();
        let mut i: usize = 0;
        while i < n
            invariant
                i <= n,
                start + n <= buf@.len(),
                start + n <= usize::MAX,
                out@ == buf@.subrange(start as int, start as int + i as int),
            decreases n - i,
        {
            out.push(buf[start + i]);
            i = i + 1;
            proof {
                assert(out@ =~= buf@.subrange(start as int, start as int + i as int));
            }
        }
        *pos = start + n;
        Some(out)
    } else {
        None
    }
}

/// Relies on `String::from_utf8`: it succeeds exactly on input that is valid
/// UTF-8, and the returned string then holds the decoded characters.
#[verifier::external_body]
pub(crate) fn bytes_to_string(v: Vec<u8>) -> (r: Option<String>)
    ensures
        r is Some <==> valid_utf8(v@),
        r matches Some(s) ==> s@ == decode_utf8(v@),
{
    match String::from_utf8(v) {
        Ok(s) => Some(s),
        Err(_) => None,
    }
}

/// Reads a short string, advancing the cursor on success.
pub fn read_short_string(buf: &Vec<u8>, pos: &mut usize) -> (r: Result<String, DecodeError>)
    ensures
        match parse_short_string(buf@, *old(pos) as int) {
            Ok(sj) => r matches Ok(s) && s@ == sj.0 && *final(pos) as int == sj.1,
            Err(e) => r == Err::<String, DecodeError>(e) && *final(pos) == *old(pos),
        },
{
    let mut p: usize = *pos;
    let n = match read_u16(buf, &mut p) {
        Some(n) => n,
        None => {
            return Err(DecodeError::Framing);
        },
    };
    let bs = match read_bytes(buf, &mut p, n as usize) {
        Some(bs) => bs,
        None => {
            return Err(DecodeError::Framing);
        },
    };
    match bytes_to_string(bs) {
        Some(s) => {
            *pos = p;
            Ok(s)
        },
        None => Err(DecodeError::BadUtf8),
    }
}

/// The wire form of a short string: 16-bit length prefix, then UTF-8 bytes.
pub open spec fn short_string_bytes(s: Seq<char>) -> Seq<u8> {
    be16(encode_utf8(s).len() as u16) + encode_utf8(s)
}

/// Appends a short string.  The length bound is the writing contract of
/// the protocol: longer text does not fit the 16-bit length prefix.
pub fn write_short_string(buf: &mut Vec<u8>, s: &str)
    requires
        encode_utf8(s@).len() <= 65535,
    ensures
        final(buf)@ == old(buf)@ + short_string_bytes(s@),
{
    let bs = s.as_bytes();
    write_be_u16(buf, bs.len() as u16);
    push_bytes(buf, bs);
    proof {
        assert(buf@ =~= old(buf)@ + short_string_bytes(s@));
    }
}

/// The UTF-8 encoding of a sequence of characters takes at most four bytes
/// per character.
pub proof fn lemma_encode_utf8_len(s: Seq<char>)
    ensures
        encode_utf8(s).len() <= 4 * s.len(),
    decreases s.len(),
{
    if s.len() > 0 {
        lemma_encode_utf8_len(s.drop_first());
    }
}

} // verus!
