//! Frame-level serialization: the string map and the generic message.

use cql_client::frame::{opcode, Body, Msg, Opcode};
use cql_client::strmap::CqlHashMap;

fn version_map() -> CqlHashMap {
    let mut hm = CqlHashMap::new();
    hm.insert("CQL_VERSION".to_string(), "3.0.0".to_string());
    hm
}

#[test]
fn test_cql_hash_map_len() {
    let hm = version_map();
    assert_eq!(hm.cql_len(), 22);
}

#[test]
fn test_cql_hash_map_serialize() {
    let mut w: Vec<u8> = Vec::new();
    let hm = version_map();

    let vec_form: Vec<u8> = vec![
        0, 1, 0, 11, 67, 81, 76, 95, 86, 69, 82, 83, 73, 79, 78, 0, 5, 51, 46, 48, 46, 48,
    ];
    hm.serialize(&mut w);
    assert_eq!(w, vec_form);
}

#[test]
fn test_request_len_for_options() {
    let req = Msg {
        version: 0x01,
        flags: 0x00,
        stream: 0x01,
        opcode: Opcode::OptionsOpcode,
        body: Body::OptionsRequest,
    };
    assert_eq!(req.cql_len(), 8);
}

#[test]
fn test_request_len_for_startup() {
    let req = Msg {
        version: 0x01,
        flags: 0x00,
        stream: 0x01,
        opcode: Opcode::StartupOpcode,
        body: Body::StartupRequest(version_map()),
    };
    assert_eq!(req.cql_len(), 30);
}

#[test]
fn test_request_serialize_for_startup() {
    let mut w: Vec<u8> = Vec::new();
    let req = Msg {
        version: 0x01,
        flags: 0x00,
        stream: 0x01,
        opcode: Opcode::StartupOpcode,
        body: Body::StartupRequest(version_map()),
    };

    let vec_form: Vec<u8> = vec![
        1, 0, 1, 1, 0, 0, 0, 22, 0, 1, 0, 11, 67, 81, 76, 95, 86, 69, 82, 83, 73, 79, 78, 0, 5,
        51, 46, 48, 46, 48,
    ];
    let _res = req.serialize(&mut w);
    assert_eq!(w, vec_form);
}

#[test]
fn serialize_reports_its_own_length() {
    let mut w: Vec<u8> = Vec::new();
    let mut hm = CqlHashMap::new();
    hm.insert("a".to_string(), "xy".to_string());
    hm.insert("bc".to_string(), "".to_string());
    let declared = hm.cql_len();
    hm.serialize(&mut w);
    assert_eq!(w.len() as u64, declared);
    assert_eq!(declared, 2 + (2 + 1 + 2 + 2) + (2 + 2 + 2 + 0));
}

#[test]
fn insert_replaces_an_existing_key() {
    let mut hm = CqlHashMap::new();
    assert!(hm.insert("k".to_string(), "aa".to_string()));
    assert!(hm.insert("k".to_string(), "bbb".to_string()));
    assert_eq!(hm.len(), 1);
    assert_eq!(hm.cql_len(), 2 + 2 + 1 + 2 + 3);
    let mut w: Vec<u8> = Vec::new();
    hm.serialize(&mut w);
    assert_eq!(w, vec![0, 1, 0, 1, b'k', 0, 3, b'b', b'b', b'b']);
}

#[test]
fn insert_rejects_an_oversized_value() {
    let mut hm = CqlHashMap::new();
    let huge = "x".repeat(65536);
    assert!(!hm.insert("k".to_string(), huge));
    assert_eq!(hm.len(), 0);
    assert_eq!(hm.cql_len(), 2);
}

#[test]
fn opcode_maps_every_known_byte() {
    assert_eq!(opcode(0x00), Opcode::ErrorOpcode);
    assert_eq!(opcode(0x01), Opcode::StartupOpcode);
    assert_eq!(opcode(0x02), Opcode::ReadyOpcode);
    assert_eq!(opcode(0x03), Opcode::AuthenticateOpcode);
    assert_eq!(opcode(0x04), Opcode::CredentialsOpcode);
    assert_eq!(opcode(0x05), Opcode::OptionsOpcode);
    assert_eq!(opcode(0x06), Opcode::SupportedOpcode);
    assert_eq!(opcode(0x07), Opcode::QueryOpcode);
    assert_eq!(opcode(0x08), Opcode::ResultOpcode);
    assert_eq!(opcode(0x09), Opcode::PrepareOpcode);
    assert_eq!(opcode(0x0A), Opcode::ExecuteOpcode);
    assert_eq!(opcode(0x0B), Opcode::RegisterOpcode);
    assert_eq!(opcode(0x0C), Opcode::EventOpcode);
    assert_eq!(opcode(0x42), Opcode::UnknownOpcode);
    assert_eq!(Opcode::QueryOpcode.value(), 0x07);
}
