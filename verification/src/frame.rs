//! The frame layer: the fixed header every request and response shares, and
//! the generic message whose length computation and serialization are kept
//! consistent by construction.

use vstd::prelude::*;

verus! {

use crate::codec::{be32, EncodeError, push_bytes, write_be_u32};
use crate::strmap::{CqlHashMap, lemma_map_bytes_len, map_bytes, map_ser_len};

/// The single-byte frame kind carried in every header.
#[derive(Clone, Copy, PartialEq, Eq, Structural, Debug)]
pub enum Opcode {
    ErrorOpcode,
    StartupOpcode,
    ReadyOpcode,
    AuthenticateOpcode,
    CredentialsOpcode,
    OptionsOpcode,
    SupportedOpcode,
    QueryOpcode,
    ResultOpcode,
    PrepareOpcode,
    ExecuteOpcode,
    RegisterOpcode,
    EventOpcode,
    UnknownOpcode,
}

/// The opcode a received byte stands for; bytes the client does not model
/// map to `UnknownOpcode` rather than failing.
pub open spec fn spec_opcode(val: u8) -> Opcode {
    match val {
        0x00 => Opcode::ErrorOpcode,
        0x01 => Opcode::StartupOpcode,
        0x02 => Opcode::ReadyOpcode,
        0x03 => Opcode::AuthenticateOpcode,
        0x04 => Opcode::CredentialsOpcode,
        0x05 => Opcode::OptionsOpcode,
        0x06 => Opcode::SupportedOpcode,
        0x07 => Opcode::QueryOpcode,
        0x08 => Opcode::ResultOpcode,
        0x09 => Opcode::PrepareOpcode,
        0x0A => Opcode::ExecuteOpcode,
        0x0B => Opcode::RegisterOpcode,
        0x0C => Opcode::EventOpcode,
        _ => Opcode::UnknownOpcode,
    }
}

/// The wire byte of an opcode.  `UnknownOpcode` never goes on the wire
/// itself; it serializes as a reserved byte.
pub open spec fn opcode_value(o: Opcode) -> u8 {
    match o {
        Opcode::ErrorOpcode => 0x00,
        Opcode::StartupOpcode => 0x01,
        Opcode::ReadyOpcode => 0x02,
        Opcode::AuthenticateOpcode => 0x03,
        Opcode::CredentialsOpcode => 0x04,
        Opcode::OptionsOpcode => 0x05,
        Opcode::SupportedOpcode => 0x06,
        Opcode::QueryOpcode => 0x07,
        Opcode::ResultOpcode => 0x08,
        Opcode::PrepareOpcode => 0x09,
        Opcode::ExecuteOpcode => 0x0A,
        Opcode::RegisterOpcode => 0x0B,
        Opcode::EventOpcode => 0x0C,
        Opcode::UnknownOpcode => 0xFF,
    }
}

/// Maps a received byte to the opcode it stands for.
pub fn opcode(val: u8) -> (o: Opcode)
    ensures
        o == spec_opcode(val),
{
    match val {
        0x00 => Opcode::ErrorOpcode,
        0x01 => Opcode::StartupOpcode,
        0x02 => Opcode::ReadyOpcode,
        0x03 => Opcode::AuthenticateOpcode,
        0x04 => Opcode::CredentialsOpcode,
        0x05 => Opcode::OptionsOpcode,
        0x06 => Opcode::SupportedOpcode,
        0x07 => Opcode::QueryOpcode,
        0x08 => Opcode::ResultOpcode,
        0x09 => Opcode::PrepareOpcode,
        0x0A => Opcode::ExecuteOpcode,
        0x0B => Opcode::RegisterOpcode,
        0x0C => Opcode::EventOpcode,
        _ => Opcode::UnknownOpcode,
    }
}

impl Opcode {
    /// The wire byte of this opcode.
    pub fn value(&self) -> (v: u8)
        ensures
            v == opcode_value(*self),
    {
        match self {
            Opcode::ErrorOpcode => 0x00,
            Opcode::StartupOpcode => 0x01,
            Opcode::ReadyOpcode => 0x02,
            Opcode::AuthenticateOpcode => 0x03,
            Opcode::CredentialsOpcode => 0x04,
            Opcode::OptionsOpcode => 0x05,
            Opcode::SupportedOpcode => 0x06,
            Opcode::QueryOpcode => 0x07,
            Opcode::ResultOpcode => 0x08,
            Opcode::PrepareOpcode => 0x09,
            Opcode::ExecuteOpcode => 0x0A,
            Opcode::RegisterOpcode => 0x0B,
            Opcode::EventOpcode => 0x0C,
            Opcode::UnknownOpcode => 0xFF,
        }
    }
}

/// A request payload at the frame level.  Only a startup request carries a
/// body; an options or credentials request is header-only.
pub enum Body {
    StartupRequest(CqlHashMap),
    CredentialRequest(Vec<String>),
    OptionsRequest,
}

/// The payload fits the wire format.
pub open spec fn body_wf(b: Body) -> bool {
    match b {
        Body::StartupRequest(m) => m.wf(),
        _ => true,
    }
}

/// The serialized size of the payload alone.
pub open spec fn body_ser_len(b: Body) -> int {
    match b {
        Body::StartupRequest(m) => map_ser_len(m@),
        _ => 0,
    }
}

/// The wire form of the payload alone.
pub open spec fn body_bytes(b: Body) -> Seq<u8> {
    match b {
        Body::StartupRequest(m) => map_bytes(m@),
        _ => Seq::empty(),
    }
}

/// One whole frame: the header fields and the payload.
pub struct Msg {
    pub version: u8,
    pub flags: u8,
    pub stream: i8,
    pub opcode: Opcode,
    pub body: Body,
}

/// The frame fits the wire format.
pub open spec fn msg_wf(m: Msg) -> bool {
    body_wf(m.body)
}

/// The serialized size of a frame: the 8-byte header plus the payload.
pub open spec fn msg_ser_len(m: Msg) -> int {
    8 + body_ser_len(m.body)
}

/// The wire form of a frame: version, flags, stream, opcode, the payload
/// size as a big-endian 32-bit integer, then the payload.
pub open spec fn msg_bytes(m: Msg) -> Seq<u8> {
    seq![m.version, m.flags, m.stream as u8, opcode_value(m.opcode)] + be32(
        body_ser_len(m.body) as u32,
    ) + body_bytes(m.body)
}

/// The serialized frame holds exactly as many bytes as the length
/// computation says: the two can never disagree.
pub proof fn lemma_msg_bytes_len(m: Msg)
    ensures
        msg_bytes(m).len() == msg_ser_len(m),
{
    match m.body {
        Body::StartupRequest(h) => lemma_map_bytes_len(h@),
        _ => {},
    }
}

impl Msg {
    /// The exact number of bytes `serialize` emits for this frame.
    pub fn cql_len(&self) -> (n: u64)
        requires
            msg_wf(*self),
        ensures
            n == msg_ser_len(*self),
    {
        match &self.body {
            Body::StartupRequest(m) => 8 + m.cql_len(),
            _ => 8,
        }
    }

    /// Emits the header and the payload from one buffer, so the declared
    /// length and the bytes written can never disagree.  Fails only when
    /// the payload cannot fit the 32-bit length field.
    pub fn serialize(&self, buf: &mut Vec<u8>) -> (r: Result<(), EncodeError>)
        requires
            msg_wf(*self),
        ensures
            r is Ok <==> body_ser_len(self.body) <= u32::MAX,
            r is Ok ==> final(buf)@ == old(buf)@ + msg_bytes(*self),
            r is Err ==> final(buf)@ == old(buf)@,
    {
        let mut scratch: Vec<u8> = Vec::new();
        match &self.body {
            Body::StartupRequest(m) => {
                m.serialize(&mut scratch);
                proof {
                    lemma_map_bytes_len(m@);
                    assert(scratch@ =~= body_bytes(self.body));
                }
            },
            _ => {
                proof {
                    assert(scratch@ =~= body_bytes(self.body));
                }
            },
        }
        if scratch.len() > (u32::MAX as usize) {
            return Err(EncodeError::BodyTooLong);
        }
        buf.push(self.version);
        buf.push(self.flags);
        buf.push(self.stream as u8);
        buf.push(self.opcode.value());
        write_be_u32(buf, scratch.len() as u32);
        push_bytes(buf, scratch.as_slice());
        proof {
            assert(buf@ =~= old(buf)@ + msg_bytes(*self));
        }
        Ok(())
    }
}

} // verus!
