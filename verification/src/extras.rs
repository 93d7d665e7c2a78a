//! Miscellaneous utility operations common across many kinds of actors:
//! GUIDs, sequence numbers, and bounded random numbers.

use vstd::prelude::*;
use vstd::string::StringExecFns;
use crate::codec;
use crate::codec::{enc, dec_full};
use crate::error::{DecodeError, EncodeError};
use crate::value;
use crate::value::{Val, ValModel, entries_get, view_entries, wf};

verus! {

broadcast use vstd::std_specs::vec::group_vec_axioms, vstd::seq::group_seq_axioms;

/// Ask the host for a newly generated globally unique identifier.
pub const OP_REQUEST_GUID: &'static str = "RequestGuid";

/// Ask the host for the next number of a monotonic sequence.
pub const OP_REQUEST_SEQUENCE: &'static str = "RequestSequence";

/// Ask the host for a random number within an inclusive range.
pub const OP_REQUEST_RANDOM: &'static str = "RequestRandom";

#[derive(Debug, PartialEq)]
pub struct GeneratorResult {
    pub guid: Option<String>,
    pub sequence_number: u64,
    pub random_number: u32,
}

impl GeneratorResult {
    /// The record's wire fields, in declaration order.
    pub open spec fn wire_entries(self) -> Seq<(Seq<char>, ValModel)> {
        seq![
            ("guid"@, value::opt_str_wire(self.guid)),
            ("sequenceNumber"@, ValModel::Uint(self.sequence_number)),
            ("randomNumber"@, ValModel::Uint(self.random_number as u64)),
        ]
    }

    /// The record's wire value.
    pub open spec fn wire(self) -> ValModel {
        ValModel::Dict(self.wire_entries())
    }

    /// Whether decoded wire fields carry every required field with its
    /// declared type; unknown fields never disturb this, and absent
    /// fields with a declared default are allowed.
    pub open spec fn shape_ok(es: Seq<(Seq<char>, ValModel)>) -> bool {
        &&& match entries_get(es, "guid"@) {
            Some(v) => v is Str || v is Nil,
            None => true,
        }
        &&& entries_get(es, "sequenceNumber"@) matches Some(v) && v is Uint
        &&& entries_get(es, "randomNumber"@) matches Some(v) && value::is_u32(v)
    }

    /// Whether record `r` is the correct reading of wire fields `es`.
    pub open spec fn decodes_from(es: Seq<(Seq<char>, ValModel)>, r: GeneratorResult) -> bool {
        &&& match entries_get(es, "guid"@) {
            Some(v) => (v matches ValModel::Str(sv) && r.guid matches Some(s) && s@ == sv)
                || (v is Nil && r.guid is None),
            None => r.guid is None,
        }
        &&& entries_get(es, "sequenceNumber"@) == Some(ValModel::Uint(r.sequence_number))
        &&& entries_get(es, "randomNumber"@) == Some(ValModel::Uint(r.random_number as u64))
    }

    /// Content equality: every field agrees.
    pub open spec fn eq_fields(a: GeneratorResult, b: GeneratorResult) -> bool {
        &&& value::opt_str_eq(a.guid, b.guid)
        &&& a.sequence_number == b.sequence_number
        &&& a.random_number == b.random_number
    }

    /// Lowers the record to its wire value.
    pub fn to_val(&self) -> (v: Val)
        ensures
            v@ == self.wire(),
    {
        let mut es: Vec<(String, Val)> = Vec::new();
        es.push((String::from_str("guid"), value::opt_str_to_val(&self.guid)));
        es.push((String::from_str("sequenceNumber"), Val::Uint(self.sequence_number)));
        es.push((String::from_str("randomNumber"), Val::Uint(self.random_number as u64)));
        proof {
            value::lemma_view_entries(es@);
            assert forall|i: int|
                0 <= i < es@.len() implies view_entries(es@)[i] == self.wire_entries()[i] by {
                assert(view_entries(es@)[i] == (es@[i].0@, es@[i].1@));
            }
            assert(view_entries(es@) =~= self.wire_entries());
        }
        Val::Dict(es)
    }

    /// Encodes the record through the canonical codec.
    pub fn encode(&self) -> (r: Result<Vec<u8>, EncodeError>)
        ensures
            match r {
                Ok(b) => wf(self.wire()) && b@ == enc(self.wire()),
                Err(e) => !wf(self.wire()) && e == EncodeError::Unencodable,
            },
    {
        let v = self.to_val();
        codec::encode_value(&v)
    }

    /// Lifts a decoded wire value into the record, filling defaults and
    /// ignoring unknown fields.
    pub fn from_val(v: &Val) -> (r: Result<GeneratorResult, DecodeError>)
        ensures
            match r {
                Ok(rec) => v@ matches ValModel::Dict(es) && Self::shape_ok(es)
                    && Self::decodes_from(es, rec),
                Err(e) => match v@ {
                    ValModel::Dict(es) => !Self::shape_ok(es) && (e == DecodeError::MissingField
                        || e == DecodeError::TypeMismatch),
                    _ => e == DecodeError::TypeMismatch,
                },
            },
    {
        match v {
            Val::Dict(es) => {
                let guid = match value::get_opt_str(es, "guid") {
                    Ok(x) => x,
                    Err(e) => return Err(e),
                };
                let sequence_number = match value::get_uint(es, "sequenceNumber") {
                    Ok(x) => x,
                    Err(e) => return Err(e),
                };
                let random_number = match value::get_u32(es, "randomNumber") {
                    Ok(x) => x,
                    Err(e) => return Err(e),
                };
                Ok(GeneratorResult { guid, sequence_number, random_number })
            },
            _ => Err(DecodeError::TypeMismatch),
        }
    }

    /// Decodes the record from its wire bytes.
    pub fn decode(bytes: &[u8]) -> (r: Result<GeneratorResult, DecodeError>)
        ensures
            match r {
                Ok(rec) => dec_full(bytes@) matches Some(v) && (v matches ValModel::Dict(es)
                    && Self::shape_ok(es) && Self::decodes_from(es, rec)),
                Err(e) => match dec_full(bytes@) {
                    None => e == DecodeError::Malformed,
                    Some(v) => match v {
                        ValModel::Dict(es) => !Self::shape_ok(es) && (e
                            == DecodeError::MissingField || e == DecodeError::TypeMismatch),
                        _ => e == DecodeError::TypeMismatch,
                    },
                },
            },
    {
        let val = match codec::decode_value(bytes) {
            Ok(v) => v,
            Err(e) => return Err(e),
        };
        Self::from_val(&val)
    }

    /// Reading a record's own wire fields back yields the record: the
    /// encoder writes exactly what the decoder needs; and looking up
    /// any declared key finds exactly the field the encoder wrote.
    pub proof fn lemma_wire_round_trip(r: GeneratorResult)
        ensures
            Self::shape_ok(r.wire_entries()),
            Self::decodes_from(r.wire_entries(), r),
            forall|i: int|
                0 <= i < r.wire_entries().len() ==> entries_get(
                    r.wire_entries(),
                    (#[trigger] r.wire_entries()[i]).0,
                ) == Some(r.wire_entries()[i].1),
    {
        reveal_strlit("guid");
        reveal_strlit("randomNumber");
        reveal_strlit("sequenceNumber");
        let es = r.wire_entries();
        assert("guid"@.len() == 4);
        assert("randomNumber"@.len() == 12);
        assert("sequenceNumber"@.len() == 14);
        value::lemma_entries_get_at(es, 0);
        value::lemma_entries_get_at(es, 1);
        value::lemma_entries_get_at(es, 2);
    }

    /// The wire fields of `r` pin the record: any correct reading of
    /// them agrees with `r` on every field.
    pub proof fn lemma_decode_agrees(r: GeneratorResult, d: GeneratorResult)
        requires
            Self::decodes_from(r.wire_entries(), d),
        ensures
            Self::eq_fields(d, r),
    {
        Self::lemma_wire_round_trip(r);
        let es = r.wire_entries();
        assert(entries_get(es, "guid"@) == Some(value::opt_str_wire(r.guid))) by {
            assert((es[0]).0 == "guid"@);
        }
        assert(entries_get(es, "sequenceNumber"@) == Some(ValModel::Uint(r.sequence_number))) by {
            assert((es[1]).0 == "sequenceNumber"@);
        }
        assert(entries_get(es, "randomNumber"@) == Some(ValModel::Uint(r.random_number as u64))) by {
            assert((es[2]).0 == "randomNumber"@);
        }
    }

    /// The round-trip law: decoding the canonical encoding of `r`
    /// yields a record that agrees with `r` on every field.
    pub proof fn lemma_round_trip(r: GeneratorResult, d: GeneratorResult)
        requires
            wf(r.wire()),
            Self::decodes_from(r.wire_entries(), d),
        ensures
            dec_full(enc(r.wire())) == Some(r.wire()),
            Self::eq_fields(d, r),
    {
        codec::lemma_round_trip(r.wire());
        Self::lemma_decode_agrees(r, d);
    }

    /// Forward tolerance: wire fields that carry only the required
    /// fields of this record still decode, every absent defaulted
    /// field resolving to its declared default.
    pub proof fn lemma_forward_tolerance(es: Seq<(Seq<char>, ValModel)>, d: GeneratorResult)
        requires
            entries_get(es, "guid"@) is None,
            entries_get(es, "sequenceNumber"@) matches Some(v) && v is Uint,
            entries_get(es, "randomNumber"@) matches Some(v) && value::is_u32(v),
        ensures
            Self::shape_ok(es),
            Self::decodes_from(es, d) ==> d.guid is None,
    {
    }

    /// Unknown-field tolerance: appending a field under a key this
    /// record does not declare changes neither its shape check nor
    /// what any record decodes to.
    pub proof fn lemma_unknown_field_tolerance(
        es: Seq<(Seq<char>, ValModel)>,
        k: Seq<char>,
        v: ValModel,
        d: GeneratorResult,
    )
        requires
            k != "guid"@,
            k != "sequenceNumber"@,
            k != "randomNumber"@,
        ensures
            Self::shape_ok(es.push((k, v))) == Self::shape_ok(es),
            Self::decodes_from(es.push((k, v)), d) == Self::decodes_from(es, d),
    {
        value::lemma_entries_get_push_other(es, "guid"@, k, v);
        value::lemma_entries_get_push_other(es, "sequenceNumber"@, k, v);
        value::lemma_entries_get_push_other(es, "randomNumber"@, k, v);
    }
}

#[derive(Debug, PartialEq)]
pub struct GeneratorRequest {
    pub guid: bool,
    pub sequence: bool,
    pub random: bool,
    pub min: u32,
    pub max: u32,
}

impl GeneratorRequest {
    /// The record's wire fields, in declaration order.
    pub open spec fn wire_entries(self) -> Seq<(Seq<char>, ValModel)> {
        seq![
            ("guid"@, ValModel::Bool(self.guid)),
            ("sequence"@, ValModel::Bool(self.sequence)),
            ("random"@, ValModel::Bool(self.random)),
            ("min"@, ValModel::Uint(self.min as u64)),
            ("max"@, ValModel::Uint(self.max as u64)),
        ]
    }

    /// The record's wire value.
    pub open spec fn wire(self) -> ValModel {
        ValModel::Dict(self.wire_entries())
    }

    /// Whether decoded wire fields carry every required field with its
    /// declared type; unknown fields never disturb this, and absent
    /// fields with a declared default are allowed.
    pub open spec fn shape_ok(es: Seq<(Seq<char>, ValModel)>) -> bool {
        &&& entries_get(es, "guid"@) matches Some(v) && v is Bool
        &&& entries_get(es, "sequence"@) matches Some(v) && v is Bool
        &&& entries_get(es, "random"@) matches Some(v) && v is Bool
        &&& entries_get(es, "min"@) matches Some(v) && value::is_u32(v)
        &&& entries_get(es, "max"@) matches Some(v) && value::is_u32(v)
    }

    /// Whether record `r` is the correct reading of wire fields `es`.
    pub open spec fn decodes_from(es: Seq<(Seq<char>, ValModel)>, r: GeneratorRequest) -> bool {
        &&& entries_get(es, "guid"@) == Some(ValModel::Bool(r.guid))
        &&& entries_get(es, "sequence"@) == Some(ValModel::Bool(r.sequence))
        &&& entries_get(es, "random"@) == Some(ValModel::Bool(r.random))
        &&& entries_get(es, "min"@) == Some(ValModel::Uint(r.min as u64))
        &&& entries_get(es, "max"@) == Some(ValModel::Uint(r.max as u64))
    }

    /// Content equality: every field agrees.
    pub open spec fn eq_fields(a: GeneratorRequest, b: GeneratorRequest) -> bool {
        &&& a.guid == b.guid
        &&& a.sequence == b.sequence
        &&& a.random == b.random
        &&& a.min == b.min
        &&& a.max == b.max
    }

    /// Lowers the record to its wire value.
    pub fn to_val(&self) -> (v: Val)
        ensures
            v@ == self.wire(),
    {
        let mut es: Vec<(String, Val)> = Vec::new();
        es.push((String::from_str("guid"), Val::Bool(self.guid)));
        es.push((String::from_str("sequence"), Val::Bool(self.sequence)));
        es.push((String::from_str("random"), Val::Bool(self.random)));
        es.push((String::from_str("min"), Val::Uint(self.min as u64)));
        es.push((String::from_str("max"), Val::Uint(self.max as u64)));
        proof {
            value::lemma_view_entries(es@);
            assert forall|i: int|
                0 <= i < es@.len() implies view_entries(es@)[i] == self.wire_entries()[i] by {
                assert(view_entries(es@)[i] == (es@[i].0@, es@[i].1@));
            }
            assert(view_entries(es@) =~= self.wire_entries());
        }
        Val::Dict(es)
    }

    /// Encodes the record through the canonical codec.
    pub fn encode(&self) -> (r: Result<Vec<u8>, EncodeError>)
        ensures
            match r {
                Ok(b) => wf(self.wire()) && b@ == enc(self.wire()),
                Err(e) => !wf(self.wire()) && e == EncodeError::Unencodable,
            },
    {
        let v = self.to_val();
        codec::encode_value(&v)
    }

    /// Lifts a decoded wire value into the record, filling defaults and
    /// ignoring unknown fields.
    pub fn from_val(v: &Val) -> (r: Result<GeneratorRequest, DecodeError>)
        ensures
            match r {
                Ok(rec) => v@ matches ValModel::Dict(es) && Self::shape_ok(es)
                    && Self::decodes_from(es, rec),
                Err(e) => match v@ {
                    ValModel::Dict(es) => !Self::shape_ok(es) && (e == DecodeError::MissingField
                        || e == DecodeError::TypeMismatch),
                    _ => e == DecodeError::TypeMismatch,
                },
            },
    {
        match v {
            Val::Dict(es) => {
                let guid = match value::get_bool(es, "guid") {
                    Ok(x) => x,
                    Err(e) => return Err(e),
                };
                let sequence = match value::get_bool(es, "sequence") {
                    Ok(x) => x,
                    Err(e) => return Err(e),
                };
                let random = match value::get_bool(es, "random") {
                    Ok(x) => x,
                    Err(e) => return Err(e),
                };
                let min = match value::get_u32(es, "min") {
                    Ok(x) => x,
                    Err(e) => return Err(e),
                };
                let max = match value::get_u32(es, "max") {
                    Ok(x) => x,
                    Err(e) => return Err(e),
                };
                Ok(GeneratorRequest { guid, sequence, random, min, max })
            },
            _ => Err(DecodeError::TypeMismatch),
        }
    }

    /// Decodes the record from its wire bytes.
    pub fn decode(bytes: &[u8]) -> (r: Result<GeneratorRequest, DecodeError>)
        ensures
            match r {
                Ok(rec) => dec_full(bytes@) matches Some(v) && (v matches ValModel::Dict(es)
                    && Self::shape_ok(es) && Self::decodes_from(es, rec)),
                Err(e) => match dec_full(bytes@) {
                    None => e == DecodeError::Malformed,
                    Some(v) => match v {
                        ValModel::Dict(es) => !Self::shape_ok(es) && (e
                            == DecodeError::MissingField || e == DecodeError::TypeMismatch),
                        _ => e == DecodeError::TypeMismatch,
                    },
                },
            },
    {
        let val = match codec::decode_value(bytes) {
            Ok(v) => v,
            Err(e) => return Err(e),
        };
        Self::from_val(&val)
    }

    /// Reading a record's own wire fields back yields the record: the
    /// encoder writes exactly what the decoder needs; and looking up
    /// any declared key finds exactly the field the encoder wrote.
    pub proof fn lemma_wire_round_trip(r: GeneratorRequest)
        ensures
            Self::shape_ok(r.wire_entries()),
            Self::decodes_from(r.wire_entries(), r),
            forall|i: int|
                0 <= i < r.wire_entries().len() ==> entries_get(
                    r.wire_entries(),
                    (#[trigger] r.wire_entries()[i]).0,
                ) == Some(r.wire_entries()[i].1),
    {
        reveal_strlit("guid");
        reveal_strlit("max");
        reveal_strlit("min");
        reveal_strlit("random");
        reveal_strlit("sequence");
        let es = r.wire_entries();
        assert("guid"@.len() == 4);
        assert("max"@.len() == 3);
        assert("min"@.len() == 3);
        assert("random"@.len() == 6);
        assert("sequence"@.len() == 8);
        assert("min"@[1] != "max"@[1]);
        value::lemma_entries_get_at(es, 0);
        value::lemma_entries_get_at(es, 1);
        value::lemma_entries_get_at(es, 2);
        value::lemma_entries_get_at(es, 3);
        value::lemma_entries_get_at(es, 4);
    }

    /// The wire fields of `r` pin the record: any correct reading of
    /// them agrees with `r` on every field.
    pub proof fn lemma_decode_agrees(r: GeneratorRequest, d: GeneratorRequest)
        requires
            Self::decodes_from(r.wire_entries(), d),
        ensures
            Self::eq_fields(d, r),
    {
        Self::lemma_wire_round_trip(r);
        let es = r.wire_entries();
        assert(entries_get(es, "guid"@) == Some(ValModel::Bool(r.guid))) by {
            assert((es[0]).0 == "guid"@);
        }
        assert(entries_get(es, "sequence"@) == Some(ValModel::Bool(r.sequence))) by {
            assert((es[1]).0 == "sequence"@);
        }
        assert(entries_get(es, "random"@) == Some(ValModel::Bool(r.random))) by {
            assert((es[2]).0 == "random"@);
        }
        assert(entries_get(es, "min"@) == Some(ValModel::Uint(r.min as u64))) by {
            assert((es[3]).0 == "min"@);
        }
        assert(entries_get(es, "max"@) == Some(ValModel::Uint(r.max as u64))) by {
            assert((es[4]).0 == "max"@);
        }
    }

    /// The round-trip law: decoding the canonical encoding of `r`
    /// yields a record that agrees with `r` on every field.
    pub proof fn lemma_round_trip(r: GeneratorRequest, d: GeneratorRequest)
        requires
            wf(r.wire()),
            Self::decodes_from(r.wire_entries(), d),
        ensures
            dec_full(enc(r.wire())) == Some(r.wire()),
            Self::eq_fields(d, r),
    {
        codec::lemma_round_trip(r.wire());
        Self::lemma_decode_agrees(r, d);
    }

    /// Unknown-field tolerance: appending a field under a key this
    /// record does not declare changes neither its shape check nor
    /// what any record decodes to.
    pub proof fn lemma_unknown_field_tolerance(
        es: Seq<(Seq<char>, ValModel)>,
        k: Seq<char>,
        v: ValModel,
        d: GeneratorRequest,
    )
        requires
            k != "guid"@,
            k != "sequence"@,
            k != "random"@,
            k != "min"@,
            k != "max"@,
        ensures
            Self::shape_ok(es.push((k, v))) == Self::shape_ok(es),
            Self::decodes_from(es.push((k, v)), d) == Self::decodes_from(es, d),
    {
        value::lemma_entries_get_push_other(es, "guid"@, k, v);
        value::lemma_entries_get_push_other(es, "sequence"@, k, v);
        value::lemma_entries_get_push_other(es, "random"@, k, v);
        value::lemma_entries_get_push_other(es, "min"@, k, v);
        value::lemma_entries_get_push_other(es, "max"@, k, v);
    }
}

impl GeneratorResult {
    /// The canonical example value used by the self-test fixtures.
    pub fn sample() -> (r: GeneratorResult)
        ensures
            r.guid matches Some(g) && g@ == "insert_generated_guid_here"@,
            r.sequence_number == 0,
            r.random_number == 0,
    {
        GeneratorResult {
            guid: Some(String::from_str("insert_generated_guid_here")),
            sequence_number: 0,
            random_number: 0,
        }
    }
}

impl Default for GeneratorResult {
    /// An empty result: no GUID, zero sequence number, zero random number.
    fn default() -> (r: GeneratorResult)
        ensures
            r.guid is None,
            r.sequence_number == 0,
            r.random_number == 0,
    {
        GeneratorResult { guid: None, sequence_number: 0, random_number: 0 }
    }
}

} // verus!
