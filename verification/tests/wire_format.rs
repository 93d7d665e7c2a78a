//! Wire-format compatibility: the canonical codec produces exactly the
//! bytes an independent MessagePack writer produces, frame by frame.

use wascc_codec::codec::{decode_value, encode_value};
use wascc_codec::keyvalue::SetRequest;
use wascc_codec::logging::WriteLogRequest;
use wascc_codec::value::Val;

fn enc(v: &Val) -> Vec<u8> {
    encode_value(v).unwrap()
}

#[test]
fn unsigned_frames_match_rmp_at_every_boundary() {
    for v in [0u64, 1, 127, 128, 255, 256, 65535, 65536, 0xffff_ffff, 0x1_0000_0000, u64::MAX] {
        let mut expected: Vec<u8> = Vec::new();
        rmp::encode::write_uint(&mut expected, v).unwrap();
        assert_eq!(enc(&Val::Uint(v)), expected, "value {v}");
    }
}

#[test]
fn signed_frames_match_rmp_at_every_boundary() {
    for v in [-1i64, -32, -33, -128, -129, -32768, -32769, -2147483648, -2147483649, i64::MIN] {
        let mut expected: Vec<u8> = Vec::new();
        rmp::encode::write_sint(&mut expected, v).unwrap();
        assert_eq!(enc(&Val::Int(v)), expected, "value {v}");
    }
}

#[test]
fn nil_bool_str_and_bin_frames_match_rmp() {
    let mut expected: Vec<u8> = Vec::new();
    rmp::encode::write_nil(&mut expected).unwrap();
    assert_eq!(enc(&Val::Nil), expected);

    for b in [false, true] {
        let mut expected: Vec<u8> = Vec::new();
        rmp::encode::write_bool(&mut expected, b).unwrap();
        assert_eq!(enc(&Val::Bool(b)), expected);
    }

    for s in ["", "a", "0123456789012345678901234567890", "01234567890123456789012345678901", "héllo"] {
        let mut expected: Vec<u8> = Vec::new();
        rmp::encode::write_str(&mut expected, s).unwrap();
        assert_eq!(enc(&Val::Str(s.to_string())), expected, "string {s:?}");
    }

    let long = "x".repeat(300);
    let mut expected: Vec<u8> = Vec::new();
    rmp::encode::write_str(&mut expected, &long).unwrap();
    assert_eq!(enc(&Val::Str(long)), expected);

    for payload in [vec![], vec![1u8, 2, 3], vec![0u8; 300]] {
        let mut expected: Vec<u8> = Vec::new();
        rmp::encode::write_bin(&mut expected, &payload).unwrap();
        assert_eq!(enc(&Val::Bin(payload.clone())), expected);
    }
}

#[test]
fn record_frames_match_an_independent_writer() {
    // A field-named record written by hand with rmp, byte for byte.
    let mut expected: Vec<u8> = Vec::new();
    rmp::encode::write_map_len(&mut expected, 3).unwrap();
    rmp::encode::write_str(&mut expected, "key").unwrap();
    rmp::encode::write_str(&mut expected, "k1").unwrap();
    rmp::encode::write_str(&mut expected, "value").unwrap();
    rmp::encode::write_str(&mut expected, "v1").unwrap();
    rmp::encode::write_str(&mut expected, "expires_s").unwrap();
    rmp::encode::write_sint(&mut expected, 60).unwrap();

    let r = SetRequest { key: "k1".to_string(), value: "v1".to_string(), expires_s: 60 };
    assert_eq!(r.encode().unwrap(), expected);

    let mut expected: Vec<u8> = Vec::new();
    rmp::encode::write_map_len(&mut expected, 2).unwrap();
    rmp::encode::write_str(&mut expected, "level").unwrap();
    rmp::encode::write_uint(&mut expected, 4).unwrap();
    rmp::encode::write_str(&mut expected, "body").unwrap();
    rmp::encode::write_str(&mut expected, "This is a debug message").unwrap();
    assert_eq!(WriteLogRequest::sample().encode().unwrap(), expected);
}

#[test]
fn decoder_reads_rmp_written_frames() {
    let mut bytes: Vec<u8> = Vec::new();
    rmp::encode::write_array_len(&mut bytes, 3).unwrap();
    rmp::encode::write_uint(&mut bytes, 300).unwrap();
    rmp::encode::write_sint(&mut bytes, -300).unwrap();
    rmp::encode::write_str(&mut bytes, "end").unwrap();
    let v = decode_value(&bytes).unwrap();
    assert_eq!(
        v,
        Val::Arr(vec![Val::Uint(300), Val::Int(-300), Val::Str("end".to_string())])
    );
}

#[test]
fn nested_value_round_trips_through_bytes() {
    let v = Val::Dict(vec![
        ("list".to_string(), Val::Arr(vec![Val::Uint(1), Val::Int(-1), Val::Nil])),
        (
            "inner".to_string(),
            Val::Dict(vec![("flag".to_string(), Val::Bool(true))]),
        ),
        ("blob".to_string(), Val::Bin(vec![0, 255, 128])),
    ]);
    let bytes = encode_value(&v).unwrap();
    assert_eq!(decode_value(&bytes).unwrap(), v);
}
