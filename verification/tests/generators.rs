//! Tagged-union fidelity of the generator records: the selected variant
//! and its payload survive the round trip exactly.

use wascc_codec::extras::{GeneratorRequest, GeneratorResult};

#[test]
fn random_selection_keeps_discriminant_and_bounds() {
    let s = GeneratorRequest { guid: false, sequence: false, random: true, min: 5, max: 10 };
    let bytes = s.encode().unwrap();
    let d = GeneratorRequest::decode(&bytes).unwrap();
    assert!(!d.guid);
    assert!(!d.sequence);
    assert!(d.random);
    assert_eq!(d.min, 5);
    assert_eq!(d.max, 10);
    assert_eq!(d, s);
}

#[test]
fn sequence_result_never_grows_a_guid() {
    let s = GeneratorResult { guid: None, sequence_number: 61, random_number: 0 };
    let bytes = s.encode().unwrap();
    let d = GeneratorResult::decode(&bytes).unwrap();
    assert_eq!(d.guid, None);
    assert_eq!(d.sequence_number, 61);
    assert_eq!(d, s);
}

#[test]
fn guid_selection_round_trips() {
    let s = GeneratorRequest { guid: true, sequence: false, random: false, min: 0, max: 0 };
    assert_eq!(GeneratorRequest::decode(&s.encode().unwrap()).unwrap(), s);
    let g = GeneratorResult::sample();
    let d = GeneratorResult::decode(&g.encode().unwrap()).unwrap();
    assert_eq!(d.guid, Some("insert_generated_guid_here".to_string()));
}
