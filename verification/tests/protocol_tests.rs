//! End-to-end protocol behaviour: request encoding, response decoding, and
//! the handshake decision.

use cql_client::codec::DecodeError;
use cql_client::decode::{decode_body, decode_header, read_error_response, read_message, read_result};
use cql_client::message::{
    encode, write_message, Column, ColumnType, Consistency, Request, Response, ResultBody,
    WriteMessage,
};
use cql_client::{handshake, startup_request, CqlError};

fn frame(opcode: u8, body: &[u8]) -> Vec<u8> {
    let mut f: Vec<u8> = vec![0x02, 0x00, 0x01, opcode];
    f.extend_from_slice(&(body.len() as u32).to_be_bytes());
    f.extend_from_slice(body);
    f
}

fn short_string(s: &str) -> Vec<u8> {
    let mut out: Vec<u8> = (s.len() as u16).to_be_bytes().to_vec();
    out.extend_from_slice(s.as_bytes());
    out
}

#[test]
fn startup_request_encodes_to_the_fixed_thirty_bytes() {
    let req = startup_request();
    let bytes = encode(&req).unwrap();
    let mut expected: Vec<u8> = vec![0x02, 0x00, 0x01, 0x01, 0x00, 0x00, 0x00, 0x16, 0x00, 0x01];
    expected.extend_from_slice(&short_string("CQL_VERSION"));
    expected.extend_from_slice(&short_string("3.0.0"));
    assert_eq!(bytes.len(), 30);
    assert_eq!(bytes, expected);
}

#[test]
fn options_and_credential_requests_have_empty_bodies() {
    let bytes = encode(&Request::Options).unwrap();
    assert_eq!(bytes, vec![0x02, 0x00, 0x01, 0x05, 0, 0, 0, 0]);
    let bytes = encode(&Request::Credential(vec!["user".to_string()])).unwrap();
    assert_eq!(bytes, vec![0x02, 0x00, 0x01, 0x04, 0, 0, 0, 0]);
}

#[test]
fn write_message_appends_to_the_sink() {
    let mut sink: Vec<u8> = vec![0xAA];
    write_message(&mut sink, &Request::Options).unwrap();
    assert_eq!(sink, vec![0xAA, 0x02, 0x00, 0x01, 0x05, 0, 0, 0, 0]);
    sink.write_message(&Request::Options).unwrap();
    assert_eq!(sink.len(), 17);
}

#[test]
fn query_frame_round_trips_opcode_and_consistency() {
    let bytes = encode(&Request::Query("SELECT 1".to_string(), Consistency::Quorum)).unwrap();
    let header = decode_header(&bytes).unwrap();
    assert_eq!(header.version, 0x02);
    assert_eq!(header.flags, 0x00);
    assert_eq!(header.stream, 0x01);
    assert_eq!(header.opcode, 0x07);
    assert_eq!(header.length, 8 + 4 + 3);
    let qlen = u32::from_be_bytes([bytes[8], bytes[9], bytes[10], bytes[11]]) as usize;
    assert_eq!(qlen, 8);
    assert_eq!(&bytes[12..12 + qlen], b"SELECT 1");
    let code = u16::from_be_bytes([bytes[12 + qlen], bytes[13 + qlen]]);
    assert_eq!(code, 0x0004);
    assert_eq!(bytes[14 + qlen], 0x00);
    assert_eq!(bytes.len(), 15 + qlen);
}

#[test]
fn error_frame_preserves_code_and_message() {
    let mut body = 1234u32.to_be_bytes().to_vec();
    body.extend_from_slice(&short_string("bad query"));
    let resp = read_message(&frame(0x00, &body)).unwrap();
    assert_eq!(resp, Response::Error(1234, "bad query".to_string()));
}

#[test]
fn error_frame_with_malformed_message_gets_the_sentinel() {
    let mut body = 1234u32.to_be_bytes().to_vec();
    body.extend_from_slice(&2u16.to_be_bytes());
    body.extend_from_slice(&[0xFF, 0xFE]);
    let resp = read_message(&frame(0x00, &body)).unwrap();
    assert_eq!(resp, Response::Error(1234, "couldn't parse".to_string()));
}

#[test]
fn error_body_shorter_than_declared_is_a_framing_error() {
    let mut body = 1234u32.to_be_bytes().to_vec();
    body.extend_from_slice(&9u16.to_be_bytes());
    body.extend_from_slice(b"abc");
    assert_eq!(read_error_response(&body), Err(DecodeError::Framing));
}

#[test]
fn ready_supported_and_unmodeled_opcodes_decode() {
    assert_eq!(read_message(&frame(0x02, b"")).unwrap(), Response::Ready);
    assert_eq!(read_message(&frame(0x06, b"")).unwrap(), Response::Supported);
    assert_eq!(read_message(&frame(0x0C, &[1, 2, 3])).unwrap(), Response::Empty);
}

#[test]
fn authenticate_frame_carries_its_message() {
    let body = short_string("org.apache.cassandra.auth.PasswordAuthenticator");
    let resp = read_message(&frame(0x03, &body)).unwrap();
    assert_eq!(
        resp,
        Response::Authenticate("org.apache.cassandra.auth.PasswordAuthenticator".to_string())
    );
}

#[test]
fn authenticate_frame_with_malformed_message_fails() {
    let mut body = 2u16.to_be_bytes().to_vec();
    body.extend_from_slice(&[0xFF, 0xFE]);
    assert_eq!(read_message(&frame(0x03, &body)), Err(DecodeError::BadUtf8));
}

fn rows_body() -> Vec<u8> {
    let mut body = 2u32.to_be_bytes().to_vec();
    body.extend_from_slice(&0u32.to_be_bytes());
    body.extend_from_slice(&2u32.to_be_bytes());
    body.extend_from_slice(&short_string("testing"));
    body.extend_from_slice(&short_string("users"));
    body.extend_from_slice(&short_string("height"));
    body.extend_from_slice(&ColumnType::Float.tag().to_be_bytes());
    body.extend_from_slice(&short_string("age"));
    body.extend_from_slice(&ColumnType::Int.tag().to_be_bytes());
    body.extend_from_slice(&1u32.to_be_bytes());
    body.extend_from_slice(&4u32.to_be_bytes());
    body.extend_from_slice(&12.5f32.to_be_bytes());
    body.extend_from_slice(&4u32.to_be_bytes());
    body.extend_from_slice(&42i32.to_be_bytes());
    body
}

#[test]
fn rows_frame_decodes_typed_cells_in_declared_order() {
    let resp = read_message(&frame(0x08, &rows_body())).unwrap();
    let rows = match resp {
        Response::Result(ResultBody::Rows(rows)) => rows,
        other => panic!("expected rows, got {:?}", other),
    };
    assert_eq!(rows.len(), 1);
    let row = &rows[0];
    assert_eq!(row.columns.len(), 2);
    assert_eq!(row.columns[0].0, "height");
    match row.columns[0].1 {
        Column::CqlFloat(bits) => assert_eq!(f32::from_bits(bits), 12.5),
        ref other => panic!("expected a float cell, got {:?}", other),
    }
    assert_eq!(row.columns[1].0, "age");
    assert_eq!(row.columns[1].1, Column::CqlInt(42));
}

#[test]
fn unmapped_column_tag_falls_back_to_text() {
    let mut body = 2u32.to_be_bytes().to_vec();
    body.extend_from_slice(&0u32.to_be_bytes());
    body.extend_from_slice(&1u32.to_be_bytes());
    body.extend_from_slice(&short_string("ks"));
    body.extend_from_slice(&short_string("t"));
    body.extend_from_slice(&short_string("name"));
    body.extend_from_slice(&ColumnType::Varchar.tag().to_be_bytes());
    body.extend_from_slice(&1u32.to_be_bytes());
    body.extend_from_slice(&3u32.to_be_bytes());
    body.extend_from_slice(b"bob");
    let resp = read_result(&body).unwrap();
    let rows = match resp {
        Response::Result(ResultBody::Rows(rows)) => rows,
        other => panic!("expected rows, got {:?}", other),
    };
    assert_eq!(rows[0].columns[0].1, Column::CqlString("bob".to_string()));
}

#[test]
fn set_keyspace_prepared_schema_change_and_unknown_results_decode() {
    let mut body = 3u32.to_be_bytes().to_vec();
    body.extend_from_slice(&short_string("testing"));
    assert_eq!(
        read_result(&body).unwrap(),
        Response::Result(ResultBody::SetKeyspace("testing".to_string()))
    );

    let body = 4u32.to_be_bytes().to_vec();
    assert_eq!(read_result(&body).unwrap(), Response::Result(ResultBody::Prepared));

    let mut body = 5u32.to_be_bytes().to_vec();
    body.extend_from_slice(&short_string("CREATED"));
    body.extend_from_slice(&short_string("testing"));
    body.extend_from_slice(&short_string("users"));
    assert_eq!(
        read_result(&body).unwrap(),
        Response::Result(ResultBody::SchemaChange(
            "CREATED".to_string(),
            "testing".to_string(),
            "users".to_string()
        ))
    );

    let body = 99u32.to_be_bytes().to_vec();
    assert_eq!(read_result(&body).unwrap(), Response::Result(ResultBody::Void));
}

#[test]
fn declared_body_longer_than_available_is_a_framing_error() {
    let mut f: Vec<u8> = vec![0x02, 0x00, 0x01, 0x02];
    f.extend_from_slice(&10u32.to_be_bytes());
    f.extend_from_slice(&[1, 2, 3]);
    assert_eq!(read_message(&f), Err(DecodeError::Framing));
}

#[test]
fn truncated_header_is_a_framing_error() {
    let f: Vec<u8> = vec![0x02, 0x00, 0x01];
    assert_eq!(read_message(&f), Err(DecodeError::Framing));
    assert_eq!(decode_header(&f), Err(DecodeError::Framing));
}

#[test]
fn handshake_accepts_ready_and_authenticate() {
    let mut client = handshake(&Response::Ready).unwrap();
    let bytes = client
        .query("SELECT 1".to_string(), Consistency::Quorum)
        .unwrap();
    assert_eq!(bytes[3], 0x07);
    client.finish_query();
    let bytes = client.query("SELECT 2".to_string(), Consistency::One).unwrap();
    assert_eq!(bytes[3], 0x07);

    assert!(handshake(&Response::Authenticate("auth".to_string())).is_ok());
}

#[test]
fn handshake_rejects_every_other_response() {
    for resp in [
        Response::Error(1, "denied".to_string()),
        Response::Empty,
        Response::Unknown,
        Response::Supported,
        Response::Result(ResultBody::Void),
    ] {
        assert_eq!(
            handshake(&resp),
            Err(CqlError::ConnectionError(
                "invalid response after startup".to_string()
            ))
        );
    }
}

#[test]
fn consistency_levels_carry_their_wire_codes() {
    assert_eq!(Consistency::Any.code(), 0x0000);
    assert_eq!(Consistency::One.code(), 0x0001);
    assert_eq!(Consistency::Two.code(), 0x0002);
    assert_eq!(Consistency::Three.code(), 0x0003);
    assert_eq!(Consistency::Quorum.code(), 0x0004);
    assert_eq!(Consistency::All.code(), 0x0005);
    assert_eq!(Consistency::LocalQuorum.code(), 0x0006);
    assert_eq!(Consistency::EachQuorum.code(), 0x0007);
}

#[test]
fn request_opcodes_are_fixed_per_variant() {
    assert_eq!(startup_request().opcode(), 0x01);
    assert_eq!(Request::Credential(Vec::new()).opcode(), 0x04);
    assert_eq!(Request::Options.opcode(), 0x05);
    assert_eq!(
        Request::Query(String::new(), Consistency::One).opcode(),
        0x07
    );
}

#[test]
fn float_and_int_cells_need_exactly_four_bytes() {
    let mut body = 2u32.to_be_bytes().to_vec();
    body.extend_from_slice(&0u32.to_be_bytes());
    body.extend_from_slice(&1u32.to_be_bytes());
    body.extend_from_slice(&short_string("ks"));
    body.extend_from_slice(&short_string("t"));
    body.extend_from_slice(&short_string("n"));
    body.extend_from_slice(&ColumnType::Int.tag().to_be_bytes());
    body.extend_from_slice(&1u32.to_be_bytes());
    body.extend_from_slice(&2u32.to_be_bytes());
    body.extend_from_slice(&[0, 1]);
    assert_eq!(read_result(&body), Err(DecodeError::Framing));
}

#[test]
fn decode_body_dispatches_like_read_message() {
    let mut body = 7u32.to_be_bytes().to_vec();
    body.extend_from_slice(&short_string("hi"));
    assert_eq!(decode_body(0x00, &body).unwrap(), Response::Error(7, "hi".to_string()));
    assert_eq!(decode_body(0x02, &Vec::new()).unwrap(), Response::Ready);
    assert_eq!(decode_body(0x55, &Vec::new()).unwrap(), Response::Empty);
}
