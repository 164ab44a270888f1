//! A client-side codec for a binary database wire protocol: length-prefixed
//! frames carrying a handshake, queries, and typed result sets.

use vstd::prelude::*;

pub mod codec;
pub mod decode;
pub mod frame;
pub mod message;
pub mod strmap;

verus! {

use vstd::utf8::{decode_utf8, encode_utf8, encode_utf8_decode_utf8};
use crate::codec::{
    be16,
    be32,
    EncodeError,
    lemma_be16_of,
    lemma_be32_of,
    lemma_encode_utf8_len,
    parse_u16,
    parse_u32,
};
use crate::decode::parse_header;
use crate::message::{
    encode,
    consistency_code,
    query_body_bytes,
    request_body_bytes,
    request_encodable,
    request_frame_bytes,
    request_opcode,
    Consistency,
    Request,
    Response,
    CQL_VERSION,
};
use crate::strmap::{entries_ser_len, map_ser_len, CqlHashMap};

/// Failure to establish a session.
#[derive(PartialEq, Debug)]
pub enum CqlError {
    ConnectionError(String),
}

/// Builds the startup request: its options mapping holds exactly the
/// protocol version marker.
pub fn startup_request() -> (r: Request)
    ensures
        r matches Request::Startup(m) && (m@ == seq![("CQL_VERSION"@, "3.0.0"@)]) && m.wf(),
        request_encodable(r),
{
    let mut body = CqlHashMap::new();
    proof {
        reveal_strlit("CQL_VERSION");
        reveal_strlit("3.0.0");
        lemma_encode_utf8_len("CQL_VERSION"@);
        lemma_encode_utf8_len("3.0.0"@);
    }
    let _inserted = body.insert("CQL_VERSION".to_owned(), "3.0.0".to_owned());
    proof {
        assert(body@ =~= seq![("CQL_VERSION"@, "3.0.0"@)]);
        assert(body@.drop_last() =~= Seq::<(Seq<char>, Seq<char>)>::empty());
        assert(body@.last() == ("CQL_VERSION"@, "3.0.0"@));
        assert(entries_ser_len(Seq::<(Seq<char>, Seq<char>)>::empty()) == 0);
        assert(encode_utf8("CQL_VERSION"@).len() <= 44);
        assert(encode_utf8("3.0.0"@).len() <= 20);
        assert(entries_ser_len(body@) == entries_ser_len(body@.drop_last()) + 4 + encode_utf8(
            body@.last().0,
        ).len() + encode_utf8(body@.last().1).len());
        assert(map_ser_len(body@) <= 2 + 4 + 44 + 20);
    }
    Request::Startup(body)
}

/// A session over one connection, in lock-step: one request, then exactly
/// one response, before the next request.
#[derive(PartialEq, Debug)]
pub struct Client {
    awaiting: bool,
}

impl Client {
    /// A response to an issued query is still outstanding; no new request
    /// may be sent until it has been taken.
    pub closed spec fn awaiting_response(&self) -> bool {
        self.awaiting
    }

    /// Whether a response is still outstanding, for callers outside the
    /// proof to test before issuing a request.
    pub fn is_awaiting(&self) -> (b: bool)
        ensures
            b == self.awaiting_response(),
    {
        self.awaiting
    }

    /// Encodes the next query to send on the wire, taking the one
    /// outstanding request slot.
    pub fn query(&mut self, query: String, consistency: Consistency) -> (r: Result<
        Vec<u8>,
        EncodeError,
    >)
        requires
            !old(self).awaiting_response(),
        ensures
            r is Ok <==> request_encodable(Request::Query(query, consistency)),
            r matches Ok(bytes) ==> bytes@ == request_frame_bytes(Request::Query(query, consistency))
                && final(self).awaiting_response(),
            r is Err ==> !final(self).awaiting_response(),
    {
        let message = Request::Query(query, consistency);
        match encode(&message) {
            Ok(bytes) => {
                self.awaiting = true;
                Ok(bytes)
            },
            Err(e) => Err(e),
        }
    }

    /// Records that the one outstanding response has been fully read,
    /// freeing the request slot.
    pub fn finish_query(&mut self)
        requires
            old(self).awaiting_response(),
        ensures
            !final(self).awaiting_response(),
    {
        self.awaiting = false;
    }
}

/// Decides the startup handshake.  A ready or an authenticate response
/// yields a session (credential exchange is not supported; an
/// authenticating server is accepted optimistically).  Any other response
/// fails the attempt with a single diagnostic; no retry.
pub fn handshake(response: &Response) -> (r: Result<Client, CqlError>)
    ensures
        r is Ok <==> ((*response) matches Response::Ready || (*response)
            matches Response::Authenticate(_)),
        r matches Ok(c) ==> !c.awaiting_response(),
        r matches Err(e) ==> e matches CqlError::ConnectionError(m) && m@
            == "invalid response after startup"@,
{
    match response {
        Response::Ready => Ok(Client { awaiting: false }),
        Response::Authenticate(_) => Ok(Client { awaiting: false }),
        _ => Err(CqlError::ConnectionError("invalid response after startup".to_owned())),
    }
}

/// The header of any encodable request frame reads back exactly what was
/// framed: the version in use, zero flags, stream one, the request's own
/// opcode, and a body length that accounts for every remaining byte.
pub proof fn lemma_request_frame_header(r: Request)
    requires
        request_encodable(r),
    ensures
        ({
            let f = request_frame_bytes(r);
            parse_header(f) matches Some(h) && h.version == CQL_VERSION && h.flags == 0 && h.stream
                == 1 && h.opcode == request_opcode(r) && h.length == request_body_bytes(r).len() && 8
                + h.length == f.len()
        }),
{
    let f = request_frame_bytes(r);
    let body = request_body_bytes(r);
    match r {
        Request::Startup(m) => crate::strmap::lemma_map_bytes_len(m@),
        _ => {},
    }
    assert(body.len() <= u32::MAX);
    lemma_be32_of(body.len() as u32);
    assert(f[4] == be32(body.len() as u32)[0]);
    assert(f[5] == be32(body.len() as u32)[1]);
    assert(f[6] == be32(body.len() as u32)[2]);
    assert(f[7] == be32(body.len() as u32)[3]);
    assert(f.len() == 8 + body.len());
}

/// Re-reading the frame of an encoded query recovers what was encoded:
/// the frame parses as a header with the query opcode and the body's exact
/// length, the query text decodes back unchanged, and the consistency wire
/// code follows it.
pub proof fn lemma_query_frame_roundtrip(q: Seq<char>, c: Consistency)
    requires
        encode_utf8(q).len() + 7 <= u32::MAX,
    ensures
        ({
            let qb = encode_utf8(q);
            let body = query_body_bytes(q, c);
            let f = seq![CQL_VERSION, 0u8, 1u8, 0x07u8] + be32(body.len() as u32) + body;
            &&& (parse_header(f) matches Some(h) && h.opcode == 0x07 && h.length == body.len())
            &&& parse_u32(f, 8) == Some((qb.len() as u32, 12int))
            &&& f.subrange(12, 12 + qb.len() as int) == qb
            &&& decode_utf8(f.subrange(12, 12 + qb.len() as int)) == q
            &&& parse_u16(f, 12 + qb.len() as int) == Some(
                (consistency_code(c), 14 + qb.len() as int),
            )
        }),
{
    let qb = encode_utf8(q);
    let n = qb.len() as int;
    let body = query_body_bytes(q, c);
    let f = seq![CQL_VERSION, 0u8, 1u8, 0x07u8] + be32(body.len() as u32) + body;
    assert(body.len() == n + 7);
    assert(f.len() == n + 15);
    lemma_be32_of(body.len() as u32);
    lemma_be32_of(qb.len() as u32);
    lemma_be16_of(consistency_code(c));
    assert(f[4] == be32(body.len() as u32)[0]);
    assert(f[5] == be32(body.len() as u32)[1]);
    assert(f[6] == be32(body.len() as u32)[2]);
    assert(f[7] == be32(body.len() as u32)[3]);
    assert(parse_header(f) matches Some(h) && h.opcode == 0x07 && h.length == body.len());
    assert(f[8] == be32(qb.len() as u32)[0]);
    assert(f[9] == be32(qb.len() as u32)[1]);
    assert(f[10] == be32(qb.len() as u32)[2]);
    assert(f[11] == be32(qb.len() as u32)[3]);
    assert(parse_u32(f, 8) == Some((qb.len() as u32, 12int)));
    assert(f.subrange(12, 12 + n) =~= qb);
    encode_utf8_decode_utf8(q);
    assert(f[12 + n] == be16(consistency_code(c))[0]);
    assert(f[13 + n] == be16(consistency_code(c))[1]);
    assert(parse_u16(f, 12 + n) == Some((consistency_code(c), 14 + n)));
}

} // verus!
