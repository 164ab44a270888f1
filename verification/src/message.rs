//! The typed message layer: the requests a client can issue, the responses
//! a server can send, the column value model of result sets, and the
//! request encoder.

use vstd::prelude::*;

verus! {

use vstd::utf8::encode_utf8;
use crate::codec::{be16, be32, EncodeError, push_bytes, write_be_u16, write_be_u32};
use crate::strmap::{CqlHashMap, lemma_map_bytes_len, map_bytes, map_ser_len};

/// The protocol version byte written in every request header.
pub const CQL_VERSION: u8 = 0x02;

/// The durability requirement attached to a query, each level bound to a
/// fixed 16-bit wire code.
#[derive(Clone, Copy, PartialEq, Eq, Structural, Debug)]
pub enum Consistency {
    Any,
    One,
    Two,
    Three,
    Quorum,
    All,
    LocalQuorum,
    EachQuorum,
    UnknownConsistency,
}

/// The wire code of a consistency level.  `UnknownConsistency` stands for
/// codes the protocol does not define; its own code is the first byte past
/// the defined range and never belongs in a request.
pub open spec fn consistency_code(c: Consistency) -> u16 {
    match c {
        Consistency::Any => 0x0000,
        Consistency::One => 0x0001,
        Consistency::Two => 0x0002,
        Consistency::Three => 0x0003,
        Consistency::Quorum => 0x0004,
        Consistency::All => 0x0005,
        Consistency::LocalQuorum => 0x0006,
        Consistency::EachQuorum => 0x0007,
        Consistency::UnknownConsistency => 0x0008,
    }
}

impl Consistency {
    /// The 16-bit wire code of this level.
    pub fn code(&self) -> (v: u16)
        ensures
            v == consistency_code(*self),
    {
        match self {
            Consistency::Any => 0x0000,
            Consistency::One => 0x0001,
            Consistency::Two => 0x0002,
            Consistency::Three => 0x0003,
            Consistency::Quorum => 0x0004,
            Consistency::All => 0x0005,
            Consistency::LocalQuorum => 0x0006,
            Consistency::EachQuorum => 0x0007,
            Consistency::UnknownConsistency => 0x0008,
        }
    }
}

/// A request the client can initiate.  The credentials variant is retained
/// only for framing compatibility and carries no body.
pub enum Request {
    Startup(CqlHashMap),
    Credential(Vec<String>),
    Options,
    Query(String, Consistency),
}

/// The opcode each request variant owns.
pub open spec fn request_opcode(r: Request) -> u8 {
    match r {
        Request::Startup(_) => 0x01,
        Request::Credential(_) => 0x04,
        Request::Options => 0x05,
        Request::Query(_, _) => 0x07,
    }
}

/// Every string reachable from the request fits the wire format.
pub open spec fn request_wf(r: Request) -> bool {
    match r {
        Request::Startup(m) => m.wf(),
        _ => true,
    }
}

/// The body of a query request: 32-bit length-prefixed query text, the
/// consistency wire code, and one flags byte fixed to zero.
pub open spec fn query_body_bytes(q: Seq<char>, c: Consistency) -> Seq<u8> {
    be32(encode_utf8(q).len() as u32) + encode_utf8(q) + be16(consistency_code(c)) + seq![0u8]
}

/// The body bytes of a request.
pub open spec fn request_body_bytes(r: Request) -> Seq<u8> {
    match r {
        Request::Startup(m) => map_bytes(m@),
        Request::Query(q, c) => query_body_bytes(q@, c),
        _ => Seq::empty(),
    }
}

/// The request's body fits the 32-bit length field of the frame header.
pub open spec fn request_encodable(r: Request) -> bool {
    match r {
        Request::Startup(m) => map_ser_len(m@) <= u32::MAX,
        Request::Query(q, _) => encode_utf8(q@).len() + 7 <= u32::MAX,
        _ => true,
    }
}

/// The whole frame of a request: version, flags zero, stream one, opcode,
/// body length, body.
pub open spec fn request_frame_bytes(r: Request) -> Seq<u8> {
    seq![CQL_VERSION, 0u8, 1u8, request_opcode(r)] + be32(request_body_bytes(r).len() as u32)
        + request_body_bytes(r)
}

impl Request {
    /// The opcode this request is framed with; never user-settable.
    pub fn opcode(&self) -> (v: u8)
        ensures
            v == request_opcode(*self),
    {
        match self {
            Request::Startup(_) => 0x01,
            Request::Credential(_) => 0x04,
            Request::Options => 0x05,
            Request::Query(_, _) => 0x07,
        }
    }
}

/// Serializes a request onto a byte sink: the body goes into a scratch
/// buffer first, then the header carries that buffer's exact length, so the
/// declared and the written length can never disagree.  Fails only when the
/// body cannot fit the 32-bit length field.
pub fn write_message(buf: &mut Vec<u8>, message: &Request) -> (r: Result<(), EncodeError>)
    requires
        request_wf(*message),
    ensures
        r is Ok <==> request_encodable(*message),
        r is Ok ==> final(buf)@ == old(buf)@ + request_frame_bytes(*message),
        r is Err ==> final(buf)@ == old(buf)@,
{
    let mut body: Vec<u8> = Vec::new();
    match message {
        Request::Startup(m) => {
            m.serialize(&mut body);
            proof {
                lemma_map_bytes_len(m@);
                assert(body@ =~= request_body_bytes(*message));
            }
        },
        Request::Query(q, c) => {
            let qb = q.as_str().as_bytes();
            if qb.len() > (u32::MAX - 7) as usize {
                return Err(EncodeError::BodyTooLong);
            }
            write_be_u32(&mut body, qb.len() as u32);
            push_bytes(&mut body, qb);
            write_be_u16(&mut body, c.code());
            body.push(0);
            proof {
                assert(body@ =~= request_body_bytes(*message));
            }
        },
        _ => {
            proof {
                assert(body@ =~= request_body_bytes(*message));
            }
        },
    }
    if body.len() > (u32::MAX as usize) {
        return Err(EncodeError::BodyTooLong);
    }
    buf.push(CQL_VERSION);
    buf.push(0x00);
    buf.push(0x01);
    buf.push(message.opcode());
    write_be_u32(buf, body.len() as u32);
    push_bytes(buf, body.as_slice());
    proof {
        assert(buf@ =~= old(buf)@ + request_frame_bytes(*message));
    }
    Ok(())
}

/// A byte sink onto which whole request frames can be written.
pub trait WriteMessage {
    /// The bytes the sink has accumulated.
    spec fn sink_bytes(&self) -> Seq<u8>;

    /// Appends one whole request frame, or nothing at all.
    fn write_message(&mut self, message: &Request) -> (r: Result<(), EncodeError>)
        requires
            request_wf(*message),
        ensures
            r is Ok <==> request_encodable(*message),
            r is Ok ==> final(self).sink_bytes() == old(self).sink_bytes() + request_frame_bytes(
                *message,
            ),
            r is Err ==> final(self).sink_bytes() == old(self).sink_bytes(),
    ;
}

impl WriteMessage for Vec<u8> {
    open spec fn sink_bytes(&self) -> Seq<u8> {
        self@
    }

    fn write_message(&mut self, message: &Request) -> (r: Result<(), EncodeError>) {
        write_message(self, message)
    }
}

/// Serializes a request into a fresh buffer, atomically: either the whole
/// frame or nothing.
pub fn encode(message: &Request) -> (r: Result<Vec<u8>, EncodeError>)
    requires
        request_wf(*message),
    ensures
        r is Ok <==> request_encodable(*message),
        r matches Ok(out) ==> out@ == request_frame_bytes(*message),
{
    let mut out: Vec<u8> = Vec::new();
    match write_message(&mut out, message) {
        Ok(_) => Ok(out),
        Err(e) => Err(e),
    }
}

/// A decoded cell value.  Floating-point cells keep their big-endian
/// IEEE-754 bit patterns; interpreting the bits is the caller's business,
/// the codec's is the bytes.
#[derive(PartialEq, Debug)]
pub enum Column {
    CqlString(String),
    CqlInt(i32),
    CqlLong(i64),
    CqlFloat(u32),
    CqlDouble(u64),
}

/// The mathematical value of a decoded cell.
pub enum ColumnView {
    CqlString(Seq<char>),
    CqlInt(i32),
    CqlLong(i64),
    CqlFloat(u32),
    CqlDouble(u64),
}

impl View for Column {
    type V = ColumnView;

    open spec fn view(&self) -> ColumnView {
        match self {
            Column::CqlString(s) => ColumnView::CqlString(s@),
            Column::CqlInt(v) => ColumnView::CqlInt(*v),
            Column::CqlLong(v) => ColumnView::CqlLong(*v),
            Column::CqlFloat(v) => ColumnView::CqlFloat(*v),
            Column::CqlDouble(v) => ColumnView::CqlDouble(*v),
        }
    }
}

/// The metadata of one column of a result set, read once globally for the
/// whole result.
#[derive(PartialEq, Debug)]
pub struct ColumnSpec {
    pub name: String,
    pub col_type: u16,
}

/// One row of a result set: column name to cell value, in declared column
/// order, keys unique within the row.
#[derive(PartialEq, Debug)]
pub struct Row {
    pub columns: Vec<(String, Column)>,
}

impl View for Row {
    type V = Seq<(Seq<char>, ColumnView)>;

    open spec fn view(&self) -> Seq<(Seq<char>, ColumnView)> {
        self.columns@.map_values(|kv: (String, Column)| (kv.0@, kv.1@))
    }
}

/// The payload of a result response.
#[derive(PartialEq, Debug)]
pub enum ResultBody {
    Void,
    Rows(Vec<Row>),
    SetKeyspace(String),
    Prepared,
    SchemaChange(String, String, String),
}

/// The mathematical value of a result payload.
pub enum ResultBodyView {
    Void,
    Rows(Seq<Seq<(Seq<char>, ColumnView)>>),
    SetKeyspace(Seq<char>),
    Prepared,
    SchemaChange(Seq<char>, Seq<char>, Seq<char>),
}

impl View for ResultBody {
    type V = ResultBodyView;

    open spec fn view(&self) -> ResultBodyView {
        match self {
            ResultBody::Void => ResultBodyView::Void,
            ResultBody::Rows(rs) => ResultBodyView::Rows(rs@.map_values(|r: Row| r@)),
            ResultBody::SetKeyspace(s) => ResultBodyView::SetKeyspace(s@),
            ResultBody::Prepared => ResultBodyView::Prepared,
            ResultBody::SchemaChange(a, b, c) => ResultBodyView::SchemaChange(a@, b@, c@),
        }
    }
}

/// A response the server can send.  `Empty` is the explicit fallback for
/// recognized frames whose body is not modeled.
#[derive(PartialEq, Debug)]
pub enum Response {
    Error(u32, String),
    Ready,
    Supported,
    Result(ResultBody),
    Authenticate(String),
    Unknown,
    Empty,
}

/// The mathematical value of a response.
pub enum ResponseView {
    Error(u32, Seq<char>),
    Ready,
    Supported,
    Result(ResultBodyView),
    Authenticate(Seq<char>),
    Unknown,
    Empty,
}

impl View for Response {
    type V = ResponseView;

    open spec fn view(&self) -> ResponseView {
        match self {
            Response::Error(code, msg) => ResponseView::Error(*code, msg@),
            Response::Ready => ResponseView::Ready,
            Response::Supported => ResponseView::Supported,
            Response::Result(b) => ResponseView::Result(b@),
            Response::Authenticate(s) => ResponseView::Authenticate(s@),
            Response::Unknown => ResponseView::Unknown,
            Response::Empty => ResponseView::Empty,
        }
    }
}

/// The catalog of column types named by the protocol version in scope.
/// Only `Float` and `Int` drive a dedicated cell decoder; every other tag
/// falls back to text.
#[derive(Clone, Copy, PartialEq, Eq, Structural, Debug)]
pub enum ColumnType {
    Custom,
    Ascii,
    Bigint,
    Blob,
    Boolean,
    Counter,
    Decimal,
    Double,
    Float,
    Int,
    Text,
    Timestamp,
    Uuid,
    Varchar,
    Varint,
    Timeuuid,
    Inet,
    List,
    MapType,
    SetType,
}

/// The wire tag of each column type.
pub open spec fn column_type_tag(t: ColumnType) -> u16 {
    match t {
        ColumnType::Custom => 0,
        ColumnType::Ascii => 1,
        ColumnType::Bigint => 2,
        ColumnType::Blob => 3,
        ColumnType::Boolean => 4,
        ColumnType::Counter => 5,
        ColumnType::Decimal => 6,
        ColumnType::Double => 7,
        ColumnType::Float => 8,
        ColumnType::Int => 9,
        ColumnType::Text => 10,
        ColumnType::Timestamp => 11,
        ColumnType::Uuid => 12,
        ColumnType::Varchar => 13,
        ColumnType::Varint => 14,
        ColumnType::Timeuuid => 15,
        ColumnType::Inet => 16,
        ColumnType::List => 17,
        ColumnType::MapType => 18,
        ColumnType::SetType => 19,
    }
}

impl ColumnType {
    /// The 16-bit wire tag of this column type.
    pub fn tag(&self) -> (v: u16)
        ensures
            v == column_type_tag(*self),
    {
        match self {
            ColumnType::Custom => 0,
            ColumnType::Ascii => 1,
            ColumnType::Bigint => 2,
            ColumnType::Blob => 3,
            ColumnType::Boolean => 4,
            ColumnType::Counter => 5,
            ColumnType::Decimal => 6,
            ColumnType::Double => 7,
            ColumnType::Float => 8,
            ColumnType::Int => 9,
            ColumnType::Text => 10,
            ColumnType::Timestamp => 11,
            ColumnType::Uuid => 12,
            ColumnType::Varchar => 13,
            ColumnType::Varint => 14,
            ColumnType::Timeuuid => 15,
            ColumnType::Inet => 16,
            ColumnType::List => 17,
            ColumnType::MapType => 18,
            ColumnType::SetType => 19,
        }
    }
}

} // verus!
