//! Schema-evolution tolerance and error distinction: missing defaulted
//! fields fill in, unknown fields are skipped, and real damage is a typed
//! decode error, never a made-up value.

use wascc_codec::blobstore::FileChunk;
use wascc_codec::codec::{decode_value, encode_value};
use wascc_codec::error::{DecodeError, EncodeError};
use wascc_codec::extras::GeneratorResult;
use wascc_codec::http::Response;
use wascc_codec::keyvalue::GetResponse;
use wascc_codec::value::Val;

fn chunk_fields_without_payload() -> Vec<(String, Val)> {
    vec![
        ("sequenceNo".to_string(), Val::Uint(5)),
        ("container".to_string(), Val::Str("container".to_string())),
        ("id".to_string(), Val::Str("blob".to_string())),
        ("totalBytes".to_string(), Val::Uint(53400)),
        ("chunkSize".to_string(), Val::Uint(1024)),
    ]
}

#[test]
fn missing_defaulted_field_fills_its_default() {
    // A record encoded with only required fields populated decodes, the
    // absent payload resolving to the empty byte sequence.
    let bytes = encode_value(&Val::Dict(chunk_fields_without_payload())).unwrap();
    let d = FileChunk::decode(&bytes).unwrap();
    assert_eq!(d.sequence_no, 5);
    assert_eq!(d.chunk_bytes, Vec::<u8>::new());
}

#[test]
fn unknown_fields_are_skipped() {
    let mut fields = chunk_fields_without_payload();
    fields.push(("chunkBytes".to_string(), Val::Bin(vec![1, 2, 3])));
    fields.push(("compression".to_string(), Val::Str("zstd".to_string())));
    fields.push(("shard".to_string(), Val::Uint(7)));
    let bytes = encode_value(&Val::Dict(fields)).unwrap();
    let d = FileChunk::decode(&bytes).unwrap();
    assert_eq!(d.chunk_bytes, vec![1, 2, 3]);
    assert_eq!(d.container, "container");
}

#[test]
fn unknown_nested_field_is_skipped_whole() {
    // The skipped value may itself be a nested structure.
    let mut fields = chunk_fields_without_payload();
    fields.push((
        "metadata".to_string(),
        Val::Dict(vec![
            ("origin".to_string(), Val::Str("edge".to_string())),
            ("tags".to_string(), Val::Arr(vec![Val::Uint(1), Val::Nil, Val::Bool(true)])),
        ]),
    ));
    let bytes = encode_value(&Val::Dict(fields)).unwrap();
    let d = FileChunk::decode(&bytes).unwrap();
    assert_eq!(d.total_bytes, 53400);
}

#[test]
fn empty_value_with_exists_false_is_valid_not_an_error() {
    let r = GetResponse { value: "".to_string(), exists: false };
    let bytes = r.encode().unwrap();
    let d = GetResponse::decode(&bytes).unwrap();
    assert_eq!(d.value, "");
    assert!(!d.exists);
}

#[test]
fn truncated_bytes_raise_decode_error_not_a_zeroed_record() {
    let bytes = Response::sample().encode().unwrap();
    for cut in [0, 1, bytes.len() / 2, bytes.len() - 1] {
        let r = Response::decode(&bytes[..cut]);
        assert_eq!(r, Err(DecodeError::Malformed));
    }
}

#[test]
fn trailing_bytes_are_malformed() {
    let mut bytes = GetResponse { value: "v".to_string(), exists: true }.encode().unwrap();
    bytes.push(0xc0);
    assert_eq!(GetResponse::decode(&bytes), Err(DecodeError::Malformed));
}

#[test]
fn missing_required_field_is_reported() {
    let fields = vec![("value".to_string(), Val::Str("x".to_string()))];
    let bytes = encode_value(&Val::Dict(fields)).unwrap();
    assert_eq!(GetResponse::decode(&bytes), Err(DecodeError::MissingField));
}

#[test]
fn wrong_wire_type_is_reported() {
    let fields = vec![
        ("value".to_string(), Val::Str("x".to_string())),
        ("exists".to_string(), Val::Str("yes".to_string())),
    ];
    let bytes = encode_value(&Val::Dict(fields)).unwrap();
    assert_eq!(GetResponse::decode(&bytes), Err(DecodeError::TypeMismatch));
}

#[test]
fn non_record_value_is_a_type_mismatch() {
    let bytes = encode_value(&Val::Uint(7)).unwrap();
    assert_eq!(GetResponse::decode(&bytes), Err(DecodeError::TypeMismatch));
}

#[test]
fn unknown_format_tag_is_malformed() {
    // 0xc1 is the one tag the wire format never uses.
    assert_eq!(decode_value(&[0xc1]).err(), Some(DecodeError::Malformed));
    assert_eq!(GetResponse::decode(&[0xc1]), Err(DecodeError::Malformed));
}

#[test]
fn invalid_text_payload_is_malformed() {
    // A one-character string frame whose payload is not valid UTF-8.
    assert_eq!(decode_value(&[0xa1, 0xff]).err(), Some(DecodeError::Malformed));
}

#[test]
fn generator_result_tolerates_absent_guid() {
    let fields = vec![
        ("sequenceNumber".to_string(), Val::Uint(9)),
        ("randomNumber".to_string(), Val::Uint(4)),
    ];
    let bytes = encode_value(&Val::Dict(fields)).unwrap();
    let d = GeneratorResult::decode(&bytes).unwrap();
    assert_eq!(d.guid, None);
    assert_eq!(d.sequence_number, 9);
}

#[test]
fn oversized_integer_for_declared_width_is_a_type_mismatch() {
    let fields = vec![
        ("sequenceNumber".to_string(), Val::Uint(1)),
        ("randomNumber".to_string(), Val::Uint(0x1_0000_0000)),
    ];
    let bytes = encode_value(&Val::Dict(fields)).unwrap();
    assert_eq!(GeneratorResult::decode(&bytes), Err(DecodeError::TypeMismatch));
}

#[test]
fn positive_int_variant_is_unencodable() {
    // Integer canonicity: a non-negative value must travel unsigned.
    assert_eq!(encode_value(&Val::Int(5)), Err(EncodeError::Unencodable));
    assert!(encode_value(&Val::Int(-5)).is_ok());
}
