//! Key-value store record schemas of the `wascc:keyvalue` capability
//! domain: scalar, list, and set sub-protocols over one key space.

use vstd::prelude::*;
use vstd::string::StringExecFns;
use crate::codec;
use crate::codec::{enc, dec_full};
use crate::error::{DecodeError, EncodeError};
use crate::value;
use crate::value::{Val, ValModel, entries_get, view_entries, wf};

verus! {

broadcast use vstd::std_specs::vec::group_vec_axioms, vstd::seq::group_seq_axioms;

pub const OP_ADD: &'static str = "Add";

pub const OP_GET: &'static str = "Get";

pub const OP_SET: &'static str = "Set";

pub const OP_DEL: &'static str = "Del";

pub const OP_CLEAR: &'static str = "Clear";

pub const OP_RANGE: &'static str = "Range";

pub const OP_PUSH: &'static str = "Push";

pub const OP_LIST_DEL: &'static str = "ListItemDelete";

pub const OP_SET_ADD: &'static str = "SetAdd";

pub const OP_SET_REMOVE: &'static str = "SetRemove";

pub const OP_SET_UNION: &'static str = "SetUnion";

pub const OP_SET_INTERSECT: &'static str = "SetIntersection";

pub const OP_SET_QUERY: &'static str = "SetQuery";

pub const OP_KEY_EXISTS: &'static str = "KeyExists";

#[derive(Debug, PartialEq)]
pub struct GetRequest {
    pub key: String,
}

impl GetRequest {
    /// The record's wire fields, in declaration order.
    pub open spec fn wire_entries(self) -> Seq<(Seq<char>, ValModel)> {
        seq![
            ("key"@, ValModel::Str(self.key@)),
        ]
    }

    /// The record's wire value.
    pub open spec fn wire(self) -> ValModel {
        ValModel::Dict(self.wire_entries())
    }

    /// Whether decoded wire fields carry every required field with its
    /// declared type; unknown fields never disturb this, and absent
    /// fields with a declared default are allowed.
    pub open spec fn shape_ok(es: Seq<(Seq<char>, ValModel)>) -> bool {
        entries_get(es, "key"@) matches Some(v) && v is Str
    }

    /// Whether record `r` is the correct reading of wire fields `es`.
    pub open spec fn decodes_from(es: Seq<(Seq<char>, ValModel)>, r: GetRequest) -> bool {
        entries_get(es, "key"@) == Some(ValModel::Str(r.key@))
    }

    /// Content equality: every field agrees.
    pub open spec fn eq_fields(a: GetRequest, b: GetRequest) -> bool {
        a.key@ == b.key@
    }

    /// Lowers the record to its wire value.
    pub fn to_val(&self) -> (v: Val)
        ensures
            v@ == self.wire(),
    {
        let mut es: Vec<(String, Val)> = Vec::new();
        es.push((String::from_str("key"), Val::Str(self.key.clone())));
        proof {
            value::lemma_view_entries(es@);
            assert forall|i: int|
                0 <= i < es@.len() implies view_entries(es@)[i] == self.wire_entries()[i] by {
                assert(view_entries(es@)[i] == (es@[i].0@, es@[i].1@));
            }
            assert(view_entries(es@) =~= self.wire_entries());
        }
        Val::Dict(es)
    }

    /// Encodes the record through the canonical codec.
    pub fn encode(&self) -> (r: Result<Vec<u8>, EncodeError>)
        ensures
            match r {
                Ok(b) => wf(self.wire()) && b@ == enc(self.wire()),
                Err(e) => !wf(self.wire()) && e == EncodeError::Unencodable,
            },
    {
        let v = self.to_val();
        codec::encode_value(&v)
    }

    /// Lifts a decoded wire value into the record, filling defaults and
    /// ignoring unknown fields.
    pub fn from_val(v: &Val) -> (r: Result<GetRequest, DecodeError>)
        ensures
            match r {
                Ok(rec) => v@ matches ValModel::Dict(es) && Self::shape_ok(es)
                    && Self::decodes_from(es, rec),
                Err(e) => match v@ {
                    ValModel::Dict(es) => !Self::shape_ok(es) && (e == DecodeError::MissingField
                        || e == DecodeError::TypeMismatch),
                    _ => e == DecodeError::TypeMismatch,
                },
            },
    {
        match v {
            Val::Dict(es) => {
                let key = match value::get_str(es, "key") {
                    Ok(x) => x,
                    Err(e) => return Err(e),
                };
                Ok(GetRequest { key })
            },
            _ => Err(DecodeError::TypeMismatch),
        }
    }

    /// Decodes the record from its wire bytes.
    pub fn decode(bytes: &[u8]) -> (r: Result<GetRequest, DecodeError>)
        ensures
            match r {
                Ok(rec) => dec_full(bytes@) matches Some(v) && (v matches ValModel::Dict(es)
                    && Self::shape_ok(es) && Self::decodes_from(es, rec)),
                Err(e) => match dec_full(bytes@) {
                    None => e == DecodeError::Malformed,
                    Some(v) => match v {
                        ValModel::Dict(es) => !Self::shape_ok(es) && (e
                            == DecodeError::MissingField || e == DecodeError::TypeMismatch),
                        _ => e == DecodeError::TypeMismatch,
                    },
                },
            },
    {
        let val = match codec::decode_value(bytes) {
            Ok(v) => v,
            Err(e) => return Err(e),
        };
        Self::from_val(&val)
    }

    /// Reading a record's own wire fields back yields the record: the
    /// encoder writes exactly what the decoder needs; and looking up
    /// any declared key finds exactly the field the encoder wrote.
    pub proof fn lemma_wire_round_trip(r: GetRequest)
        ensures
            Self::shape_ok(r.wire_entries()),
            Self::decodes_from(r.wire_entries(), r),
            forall|i: int|
                0 <= i < r.wire_entries().len() ==> entries_get(
                    r.wire_entries(),
                    (#[trigger] r.wire_entries()[i]).0,
                ) == Some(r.wire_entries()[i].1),
    {
        reveal_strlit("key");
        let es = r.wire_entries();
        assert("key"@.len() == 3);
        value::lemma_entries_get_at(es, 0);
    }

    /// The wire fields of `r` pin the record: any correct reading of
    /// them agrees with `r` on every field.
    pub proof fn lemma_decode_agrees(r: GetRequest, d: GetRequest)
        requires
            Self::decodes_from(r.wire_entries(), d),
        ensures
            Self::eq_fields(d, r),
    {
        Self::lemma_wire_round_trip(r);
        let es = r.wire_entries();
        assert(entries_get(es, "key"@) == Some(ValModel::Str(r.key@))) by {
            assert((es[0]).0 == "key"@);
        }
    }

    /// The round-trip law: decoding the canonical encoding of `r`
    /// yields a record that agrees with `r` on every field.
    pub proof fn lemma_round_trip(r: GetRequest, d: GetRequest)
        requires
            wf(r.wire()),
            Self::decodes_from(r.wire_entries(), d),
        ensures
            dec_full(enc(r.wire())) == Some(r.wire()),
            Self::eq_fields(d, r),
    {
        codec::lemma_round_trip(r.wire());
        Self::lemma_decode_agrees(r, d);
    }

    /// Unknown-field tolerance: appending a field under a key this
    /// record does not declare changes neither its shape check nor
    /// what any record decodes to.
    pub proof fn lemma_unknown_field_tolerance(
        es: Seq<(Seq<char>, ValModel)>,
        k: Seq<char>,
        v: ValModel,
        d: GetRequest,
    )
        requires
            k != "key"@,
        ensures
            Self::shape_ok(es.push((k, v))) == Self::shape_ok(es),
            Self::decodes_from(es.push((k, v)), d) == Self::decodes_from(es, d),
    {
        value::lemma_entries_get_push_other(es, "key"@, k, v);
    }
}

#[derive(Debug, PartialEq)]
pub struct GetResponse {
    pub value: String,
    pub exists: bool,
}

impl GetResponse {
    /// The record's wire fields, in declaration order.
    pub open spec fn wire_entries(self) -> Seq<(Seq<char>, ValModel)> {
        seq![
            ("value"@, ValModel::Str(self.value@)),
            ("exists"@, ValModel::Bool(self.exists)),
        ]
    }

    /// The record's wire value.
    pub open spec fn wire(self) -> ValModel {
        ValModel::Dict(self.wire_entries())
    }

    /// Whether decoded wire fields carry every required field with its
    /// declared type; unknown fields never disturb this, and absent
    /// fields with a declared default are allowed.
    pub open spec fn shape_ok(es: Seq<(Seq<char>, ValModel)>) -> bool {
        &&& entries_get(es, "value"@) matches Some(v) && v is Str
        &&& entries_get(es, "exists"@) matches Some(v) && v is Bool
    }

    /// Whether record `r` is the correct reading of wire fields `es`.
    pub open spec fn decodes_from(es: Seq<(Seq<char>, ValModel)>, r: GetResponse) -> bool {
        &&& entries_get(es, "value"@) == Some(ValModel::Str(r.value@))
        &&& entries_get(es, "exists"@) == Some(ValModel::Bool(r.exists))
    }

    /// Content equality: every field agrees.
    pub open spec fn eq_fields(a: GetResponse, b: GetResponse) -> bool {
        &&& a.value@ == b.value@
        &&& a.exists == b.exists
    }

    /// Lowers the record to its wire value.
    pub fn to_val(&self) -> (v: Val)
        ensures
            v@ == self.wire(),
    {
        let mut es: Vec<(String, Val)> = Vec::new();
        es.push((String::from_str("value"), Val::Str(self.value.clone())));
        es.push((String::from_str("exists"), Val::Bool(self.exists)));
        proof {
            value::lemma_view_entries(es@);
            assert forall|i: int|
                0 <= i < es@.len() implies view_entries(es@)[i] == self.wire_entries()[i] by {
                assert(view_entries(es@)[i] == (es@[i].0@, es@[i].1@));
            }
            assert(view_entries(es@) =~= self.wire_entries());
        }
        Val::Dict(es)
    }

    /// Encodes the record through the canonical codec.
    pub fn encode(&self) -> (r: Result<Vec<u8>, EncodeError>)
        ensures
            match r {
                Ok(b) => wf(self.wire()) && b@ == enc(self.wire()),
                Err(e) => !wf(self.wire()) && e == EncodeError::Unencodable,
            },
    {
        let v = self.to_val();
        codec::encode_value(&v)
    }

    /// Lifts a decoded wire value into the record, filling defaults and
    /// ignoring unknown fields.
    pub fn from_val(v: &Val) -> (r: Result<GetResponse, DecodeError>)
        ensures
            match r {
                Ok(rec) => v@ matches ValModel::Dict(es) && Self::shape_ok(es)
                    && Self::decodes_from(es, rec),
                Err(e) => match v@ {
                    ValModel::Dict(es) => !Self::shape_ok(es) && (e == DecodeError::MissingField
                        || e == DecodeError::TypeMismatch),
                    _ => e == DecodeError::TypeMismatch,
                },
            },
    {
        match v {
            Val::Dict(es) => {
                let value = match value::get_str(es, "value") {
                    Ok(x) => x,
                    Err(e) => return Err(e),
                };
                let exists = match value::get_bool(es, "exists") {
                    Ok(x) => x,
                    Err(e) => return Err(e),
                };
                Ok(GetResponse { value, exists })
            },
            _ => Err(DecodeError::TypeMismatch),
        }
    }

    /// Decodes the record from its wire bytes.
    pub fn decode(bytes: &[u8]) -> (r: Result<GetResponse, DecodeError>)
        ensures
            match r {
                Ok(rec) => dec_full(bytes@) matches Some(v) && (v matches ValModel::Dict(es)
                    && Self::shape_ok(es) && Self::decodes_from(es, rec)),
                Err(e) => match dec_full(bytes@) {
                    None => e == DecodeError::Malformed,
                    Some(v) => match v {
                        ValModel::Dict(es) => !Self::shape_ok(es) && (e
                            == DecodeError::MissingField || e == DecodeError::TypeMismatch),
                        _ => e == DecodeError::TypeMismatch,
                    },
                },
            },
    {
        let val = match codec::decode_value(bytes) {
            Ok(v) => v,
            Err(e) => return Err(e),
        };
        Self::from_val(&val)
    }

    /// Reading a record's own wire fields back yields the record: the
    /// encoder writes exactly what the decoder needs; and looking up
    /// any declared key finds exactly the field the encoder wrote.
    pub proof fn lemma_wire_round_trip(r: GetResponse)
        ensures
            Self::shape_ok(r.wire_entries()),
            Self::decodes_from(r.wire_entries(), r),
            forall|i: int|
                0 <= i < r.wire_entries().len() ==> entries_get(
                    r.wire_entries(),
                    (#[trigger] r.wire_entries()[i]).0,
                ) == Some(r.wire_entries()[i].1),
    {
        reveal_strlit("exists");
        reveal_strlit("value");
        let es = r.wire_entries();
        assert("exists"@.len() == 6);
        assert("value"@.len() == 5);
        value::lemma_entries_get_at(es, 0);
        value::lemma_entries_get_at(es, 1);
    }

    /// The wire fields of `r` pin the record: any correct reading of
    /// them agrees with `r` on every field.
    pub proof fn lemma_decode_agrees(r: GetResponse, d: GetResponse)
        requires
            Self::decodes_from(r.wire_entries(), d),
        ensures
            Self::eq_fields(d, r),
    {
        Self::lemma_wire_round_trip(r);
        let es = r.wire_entries();
        assert(entries_get(es, "value"@) == Some(ValModel::Str(r.value@))) by {
            assert((es[0]).0 == "value"@);
        }
        assert(entries_get(es, "exists"@) == Some(ValModel::Bool(r.exists))) by {
            assert((es[1]).0 == "exists"@);
        }
    }

    /// The round-trip law: decoding the canonical encoding of `r`
    /// yields a record that agrees with `r` on every field.
    pub proof fn lemma_round_trip(r: GetResponse, d: GetResponse)
        requires
            wf(r.wire()),
            Self::decodes_from(r.wire_entries(), d),
        ensures
            dec_full(enc(r.wire())) == Some(r.wire()),
            Self::eq_fields(d, r),
    {
        codec::lemma_round_trip(r.wire());
        Self::lemma_decode_agrees(r, d);
    }

    /// Unknown-field tolerance: appending a field under a key this
    /// record does not declare changes neither its shape check nor
    /// what any record decodes to.
    pub proof fn lemma_unknown_field_tolerance(
        es: Seq<(Seq<char>, ValModel)>,
        k: Seq<char>,
        v: ValModel,
        d: GetResponse,
    )
        requires
            k != "value"@,
            k != "exists"@,
        ensures
            Self::shape_ok(es.push((k, v))) == Self::shape_ok(es),
            Self::decodes_from(es.push((k, v)), d) == Self::decodes_from(es, d),
    {
        value::lemma_entries_get_push_other(es, "value"@, k, v);
        value::lemma_entries_get_push_other(es, "exists"@, k, v);
    }
}

#[derive(Debug, PartialEq)]
pub struct SetRequest {
    pub key: String,
    pub value: String,
    pub expires_s: i32,
}

impl SetRequest {
    /// The record's wire fields, in declaration order.
    pub open spec fn wire_entries(self) -> Seq<(Seq<char>, ValModel)> {
        seq![
            ("key"@, ValModel::Str(self.key@)),
            ("value"@, ValModel::Str(self.value@)),
            ("expires_s"@, value::int_wire(self.expires_s as int)),
        ]
    }

    /// The record's wire value.
    pub open spec fn wire(self) -> ValModel {
        ValModel::Dict(self.wire_entries())
    }

    /// Whether decoded wire fields carry every required field with its
    /// declared type; unknown fields never disturb this, and absent
    /// fields with a declared default are allowed.
    pub open spec fn shape_ok(es: Seq<(Seq<char>, ValModel)>) -> bool {
        &&& entries_get(es, "key"@) matches Some(v) && v is Str
        &&& entries_get(es, "value"@) matches Some(v) && v is Str
        &&& entries_get(es, "expires_s"@) matches Some(v) && value::is_i32(v)
    }

    /// Whether record `r` is the correct reading of wire fields `es`.
    pub open spec fn decodes_from(es: Seq<(Seq<char>, ValModel)>, r: SetRequest) -> bool {
        &&& entries_get(es, "key"@) == Some(ValModel::Str(r.key@))
        &&& entries_get(es, "value"@) == Some(ValModel::Str(r.value@))
        &&& entries_get(es, "expires_s"@) matches Some(v) && value::is_i32(v) && value::int_of(v) == r.expires_s as int
    }

    /// Content equality: every field agrees.
    pub open spec fn eq_fields(a: SetRequest, b: SetRequest) -> bool {
        &&& a.key@ == b.key@
        &&& a.value@ == b.value@
        &&& a.expires_s == b.expires_s
    }

    /// Lowers the record to its wire value.
    pub fn to_val(&self) -> (v: Val)
        ensures
            v@ == self.wire(),
    {
        let mut es: Vec<(String, Val)> = Vec::new();
        es.push((String::from_str("key"), Val::Str(self.key.clone())));
        es.push((String::from_str("value"), Val::Str(self.value.clone())));
        es.push((String::from_str("expires_s"), value::int_to_val(self.expires_s as i64)));
        proof {
            value::lemma_view_entries(es@);
            assert forall|i: int|
                0 <= i < es@.len() implies view_entries(es@)[i] == self.wire_entries()[i] by {
                assert(view_entries(es@)[i] == (es@[i].0@, es@[i].1@));
            }
            assert(view_entries(es@) =~= self.wire_entries());
        }
        Val::Dict(es)
    }

    /// Encodes the record through the canonical codec.
    pub fn encode(&self) -> (r: Result<Vec<u8>, EncodeError>)
        ensures
            match r {
                Ok(b) => wf(self.wire()) && b@ == enc(self.wire()),
                Err(e) => !wf(self.wire()) && e == EncodeError::Unencodable,
            },
    {
        let v = self.to_val();
        codec::encode_value(&v)
    }

    /// Lifts a decoded wire value into the record, filling defaults and
    /// ignoring unknown fields.
    pub fn from_val(v: &Val) -> (r: Result<SetRequest, DecodeError>)
        ensures
            match r {
                Ok(rec) => v@ matches ValModel::Dict(es) && Self::shape_ok(es)
                    && Self::decodes_from(es, rec),
                Err(e) => match v@ {
                    ValModel::Dict(es) => !Self::shape_ok(es) && (e == DecodeError::MissingField
                        || e == DecodeError::TypeMismatch),
                    _ => e == DecodeError::TypeMismatch,
                },
            },
    {
        match v {
            Val::Dict(es) => {
                let key = match value::get_str(es, "key") {
                    Ok(x) => x,
                    Err(e) => return Err(e),
                };
                let value = match value::get_str(es, "value") {
                    Ok(x) => x,
                    Err(e) => return Err(e),
                };
                let expires_s = match value::get_i32(es, "expires_s") {
                    Ok(x) => x,
                    Err(e) => return Err(e),
                };
                Ok(SetRequest { key, value, expires_s })
            },
            _ => Err(DecodeError::TypeMismatch),
        }
    }

    /// Decodes the record from its wire bytes.
    pub fn decode(bytes: &[u8]) -> (r: Result<SetRequest, DecodeError>)
        ensures
            match r {
                Ok(rec) => dec_full(bytes@) matches Some(v) && (v matches ValModel::Dict(es)
                    && Self::shape_ok(es) && Self::decodes_from(es, rec)),
                Err(e) => match dec_full(bytes@) {
                    None => e == DecodeError::Malformed,
                    Some(v) => match v {
                        ValModel::Dict(es) => !Self::shape_ok(es) && (e
                            == DecodeError::MissingField || e == DecodeError::TypeMismatch),
                        _ => e == DecodeError::TypeMismatch,
                    },
                },
            },
    {
        let val = match codec::decode_value(bytes) {
            Ok(v) => v,
            Err(e) => return Err(e),
        };
        Self::from_val(&val)
    }

    /// Reading a record's own wire fields back yields the record: the
    /// encoder writes exactly what the decoder needs; and looking up
    /// any declared key finds exactly the field the encoder wrote.
    pub proof fn lemma_wire_round_trip(r: SetRequest)
        ensures
            Self::shape_ok(r.wire_entries()),
            Self::decodes_from(r.wire_entries(), r),
            forall|i: int|
                0 <= i < r.wire_entries().len() ==> entries_get(
                    r.wire_entries(),
                    (#[trigger] r.wire_entries()[i]).0,
                ) == Some(r.wire_entries()[i].1),
    {
        reveal_strlit("expires_s");
        reveal_strlit("key");
        reveal_strlit("value");
        let es = r.wire_entries();
        assert("expires_s"@.len() == 9);
        assert("key"@.len() == 3);
        assert("value"@.len() == 5);
        value::lemma_entries_get_at(es, 0);
        value::lemma_entries_get_at(es, 1);
        value::lemma_entries_get_at(es, 2);
    }

    /// The wire fields of `r` pin the record: any correct reading of
    /// them agrees with `r` on every field.
    pub proof fn lemma_decode_agrees(r: SetRequest, d: SetRequest)
        requires
            Self::decodes_from(r.wire_entries(), d),
        ensures
            Self::eq_fields(d, r),
    {
        Self::lemma_wire_round_trip(r);
        let es = r.wire_entries();
        assert(entries_get(es, "key"@) == Some(ValModel::Str(r.key@))) by {
            assert((es[0]).0 == "key"@);
        }
        assert(entries_get(es, "value"@) == Some(ValModel::Str(r.value@))) by {
            assert((es[1]).0 == "value"@);
        }
        assert(entries_get(es, "expires_s"@) == Some(value::int_wire(r.expires_s as int))) by {
            assert((es[2]).0 == "expires_s"@);
        }
    }

    /// The round-trip law: decoding the canonical encoding of `r`
    /// yields a record that agrees with `r` on every field.
    pub proof fn lemma_round_trip(r: SetRequest, d: SetRequest)
        requires
            wf(r.wire()),
            Self::decodes_from(r.wire_entries(), d),
        ensures
            dec_full(enc(r.wire())) == Some(r.wire()),
            Self::eq_fields(d, r),
    {
        codec::lemma_round_trip(r.wire());
        Self::lemma_decode_agrees(r, d);
    }

    /// Unknown-field tolerance: appending a field under a key this
    /// record does not declare changes neither its shape check nor
    /// what any record decodes to.
    pub proof fn lemma_unknown_field_tolerance(
        es: Seq<(Seq<char>, ValModel)>,
        k: Seq<char>,
        v: ValModel,
        d: SetRequest,
    )
        requires
            k != "key"@,
            k != "value"@,
            k != "expires_s"@,
        ensures
            Self::shape_ok(es.push((k, v))) == Self::shape_ok(es),
            Self::decodes_from(es.push((k, v)), d) == Self::decodes_from(es, d),
    {
        value::lemma_entries_get_push_other(es, "key"@, k, v);
        value::lemma_entries_get_push_other(es, "value"@, k, v);
        value::lemma_entries_get_push_other(es, "expires_s"@, k, v);
    }
}

#[derive(Debug, PartialEq)]
pub struct DelRequest {
    pub key: String,
}

impl DelRequest {
    /// The record's wire fields, in declaration order.
    pub open spec fn wire_entries(self) -> Seq<(Seq<char>, ValModel)> {
        seq![
            ("key"@, ValModel::Str(self.key@)),
        ]
    }

    /// The record's wire value.
    pub open spec fn wire(self) -> ValModel {
        ValModel::Dict(self.wire_entries())
    }

    /// Whether decoded wire fields carry every required field with its
    /// declared type; unknown fields never disturb this, and absent
    /// fields with a declared default are allowed.
    pub open spec fn shape_ok(es: Seq<(Seq<char>, ValModel)>) -> bool {
        entries_get(es, "key"@) matches Some(v) && v is Str
    }

    /// Whether record `r` is the correct reading of wire fields `es`.
    pub open spec fn decodes_from(es: Seq<(Seq<char>, ValModel)>, r: DelRequest) -> bool {
        entries_get(es, "key"@) == Some(ValModel::Str(r.key@))
    }

    /// Content equality: every field agrees.
    pub open spec fn eq_fields(a: DelRequest, b: DelRequest) -> bool {
        a.key@ == b.key@
    }

    /// Lowers the record to its wire value.
    pub fn to_val(&self) -> (v: Val)
        ensures
            v@ == self.wire(),
    {
        let mut es: Vec<(String, Val)> = Vec::new();
        es.push((String::from_str("key"), Val::Str(self.key.clone())));
        proof {
            value::lemma_view_entries(es@);
            assert forall|i: int|
                0 <= i < es@.len() implies view_entries(es@)[i] == self.wire_entries()[i] by {
                assert(view_entries(es@)[i] == (es@[i].0@, es@[i].1@));
            }
            assert(view_entries(es@) =~= self.wire_entries());
        }
        Val::Dict(es)
    }

    /// Encodes the record through the canonical codec.
    pub fn encode(&self) -> (r: Result<Vec<u8>, EncodeError>)
        ensures
            match r {
                Ok(b) => wf(self.wire()) && b@ == enc(self.wire()),
                Err(e) => !wf(self.wire()) && e == EncodeError::Unencodable,
            },
    {
        let v = self.to_val();
        codec::encode_value(&v)
    }

    /// Lifts a decoded wire value into the record, filling defaults and
    /// ignoring unknown fields.
    pub fn from_val(v: &Val) -> (r: Result<DelRequest, DecodeError>)
        ensures
            match r {
                Ok(rec) => v@ matches ValModel::Dict(es) && Self::shape_ok(es)
                    && Self::decodes_from(es, rec),
                Err(e) => match v@ {
                    ValModel::Dict(es) => !Self::shape_ok(es) && (e == DecodeError::MissingField
                        || e == DecodeError::TypeMismatch),
                    _ => e == DecodeError::TypeMismatch,
                },
            },
    {
        match v {
            Val::Dict(es) => {
                let key = match value::get_str(es, "key") {
                    Ok(x) => x,
                    Err(e) => return Err(e),
                };
                Ok(DelRequest { key })
            },
            _ => Err(DecodeError::TypeMismatch),
        }
    }

    /// Decodes the record from its wire bytes.
    pub fn decode(bytes: &[u8]) -> (r: Result<DelRequest, DecodeError>)
        ensures
            match r {
                Ok(rec) => dec_full(bytes@) matches Some(v) && (v matches ValModel::Dict(es)
                    && Self::shape_ok(es) && Self::decodes_from(es, rec)),
                Err(e) => match dec_full(bytes@) {
                    None => e == DecodeError::Malformed,
                    Some(v) => match v {
                        ValModel::Dict(es) => !Self::shape_ok(es) && (e
                            == DecodeError::MissingField || e == DecodeError::TypeMismatch),
                        _ => e == DecodeError::TypeMismatch,
                    },
                },
            },
    {
        let val = match codec::decode_value(bytes) {
            Ok(v) => v,
            Err(e) => return Err(e),
        };
        Self::from_val(&val)
    }

    /// Reading a record's own wire fields back yields the record: the
    /// encoder writes exactly what the decoder needs; and looking up
    /// any declared key finds exactly the field the encoder wrote.
    pub proof fn lemma_wire_round_trip(r: DelRequest)
        ensures
            Self::shape_ok(r.wire_entries()),
            Self::decodes_from(r.wire_entries(), r),
            forall|i: int|
                0 <= i < r.wire_entries().len() ==> entries_get(
                    r.wire_entries(),
                    (#[trigger] r.wire_entries()[i]).0,
                ) == Some(r.wire_entries()[i].1),
    {
        reveal_strlit("key");
        let es = r.wire_entries();
        assert("key"@.len() == 3);
        value::lemma_entries_get_at(es, 0);
    }

    /// The wire fields of `r` pin the record: any correct reading of
    /// them agrees with `r` on every field.
    pub proof fn lemma_decode_agrees(r: DelRequest, d: DelRequest)
        requires
            Self::decodes_from(r.wire_entries(), d),
        ensures
            Self::eq_fields(d, r),
    {
        Self::lemma_wire_round_trip(r);
        let es = r.wire_entries();
        assert(entries_get(es, "key"@) == Some(ValModel::Str(r.key@))) by {
            assert((es[0]).0 == "key"@);
        }
    }

    /// The round-trip law: decoding the canonical encoding of `r`
    /// yields a record that agrees with `r` on every field.
    pub proof fn lemma_round_trip(r: DelRequest, d: DelRequest)
        requires
            wf(r.wire()),
            Self::decodes_from(r.wire_entries(), d),
        ensures
            dec_full(enc(r.wire())) == Some(r.wire()),
            Self::eq_fields(d, r),
    {
        codec::lemma_round_trip(r.wire());
        Self::lemma_decode_agrees(r, d);
    }

    /// Unknown-field tolerance: appending a field under a key this
    /// record does not declare changes neither its shape check nor
    /// what any record decodes to.
    pub proof fn lemma_unknown_field_tolerance(
        es: Seq<(Seq<char>, ValModel)>,
        k: Seq<char>,
        v: ValModel,
        d: DelRequest,
    )
        requires
            k != "key"@,
        ensures
            Self::shape_ok(es.push((k, v))) == Self::shape_ok(es),
            Self::decodes_from(es.push((k, v)), d) == Self::decodes_from(es, d),
    {
        value::lemma_entries_get_push_other(es, "key"@, k, v);
    }
}

#[derive(Debug, PartialEq)]
pub struct DelResponse {
    pub key: String,
}

impl DelResponse {
    /// The record's wire fields, in declaration order.
    pub open spec fn wire_entries(self) -> Seq<(Seq<char>, ValModel)> {
        seq![
            ("key"@, ValModel::Str(self.key@)),
        ]
    }

    /// The record's wire value.
    pub open spec fn wire(self) -> ValModel {
        ValModel::Dict(self.wire_entries())
    }

    /// Whether decoded wire fields carry every required field with its
    /// declared type; unknown fields never disturb this, and absent
    /// fields with a declared default are allowed.
    pub open spec fn shape_ok(es: Seq<(Seq<char>, ValModel)>) -> bool {
        entries_get(es, "key"@) matches Some(v) && v is Str
    }

    /// Whether record `r` is the correct reading of wire fields `es`.
    pub open spec fn decodes_from(es: Seq<(Seq<char>, ValModel)>, r: DelResponse) -> bool {
        entries_get(es, "key"@) == Some(ValModel::Str(r.key@))
    }

    /// Content equality: every field agrees.
    pub open spec fn eq_fields(a: DelResponse, b: DelResponse) -> bool {
        a.key@ == b.key@
    }

    /// Lowers the record to its wire value.
    pub fn to_val(&self) -> (v: Val)
        ensures
            v@ == self.wire(),
    {
        let mut es: Vec<(String, Val)> = Vec::new();
        es.push((String::from_str("key"), Val::Str(self.key.clone())));
        proof {
            value::lemma_view_entries(es@);
            assert forall|i: int|
                0 <= i < es@.len() implies view_entries(es@)[i] == self.wire_entries()[i] by {
                assert(view_entries(es@)[i] == (es@[i].0@, es@[i].1@));
            }
            assert(view_entries(es@) =~= self.wire_entries());
        }
        Val::Dict(es)
    }

    /// Encodes the record through the canonical codec.
    pub fn encode(&self) -> (r: Result<Vec<u8>, EncodeError>)
        ensures
            match r {
                Ok(b) => wf(self.wire()) && b@ == enc(self.wire()),
                Err(e) => !wf(self.wire()) && e == EncodeError::Unencodable,
            },
    {
        let v = self.to_val();
        codec::encode_value(&v)
    }

    /// Lifts a decoded wire value into the record, filling defaults and
    /// ignoring unknown fields.
    pub fn from_val(v: &Val) -> (r: Result<DelResponse, DecodeError>)
        ensures
            match r {
                Ok(rec) => v@ matches ValModel::Dict(es) && Self::shape_ok(es)
                    && Self::decodes_from(es, rec),
                Err(e) => match v@ {
                    ValModel::Dict(es) => !Self::shape_ok(es) && (e == DecodeError::MissingField
                        || e == DecodeError::TypeMismatch),
                    _ => e == DecodeError::TypeMismatch,
                },
            },
    {
        match v {
            Val::Dict(es) => {
                let key = match value::get_str(es, "key") {
                    Ok(x) => x,
                    Err(e) => return Err(e),
                };
                Ok(DelResponse { key })
            },
            _ => Err(DecodeError::TypeMismatch),
        }
    }

    /// Decodes the record from its wire bytes.
    pub fn decode(bytes: &[u8]) -> (r: Result<DelResponse, DecodeError>)
        ensures
            match r {
                Ok(rec) => dec_full(bytes@) matches Some(v) && (v matches ValModel::Dict(es)
                    && Self::shape_ok(es) && Self::decodes_from(es, rec)),
                Err(e) => match dec_full(bytes@) {
                    None => e == DecodeError::Malformed,
                    Some(v) => match v {
                        ValModel::Dict(es) => !Self::shape_ok(es) && (e
                            == DecodeError::MissingField || e == DecodeError::TypeMismatch),
                        _ => e == DecodeError::TypeMismatch,
                    },
                },
            },
    {
        let val = match codec::decode_value(bytes) {
            Ok(v) => v,
            Err(e) => return Err(e),
        };
        Self::from_val(&val)
    }

    /// Reading a record's own wire fields back yields the record: the
    /// encoder writes exactly what the decoder needs; and looking up
    /// any declared key finds exactly the field the encoder wrote.
    pub proof fn lemma_wire_round_trip(r: DelResponse)
        ensures
            Self::shape_ok(r.wire_entries()),
            Self::decodes_from(r.wire_entries(), r),
            forall|i: int|
                0 <= i < r.wire_entries().len() ==> entries_get(
                    r.wire_entries(),
                    (#[trigger] r.wire_entries()[i]).0,
                ) == Some(r.wire_entries()[i].1),
    {
        reveal_strlit("key");
        let es = r.wire_entries();
        assert("key"@.len() == 3);
        value::lemma_entries_get_at(es, 0);
    }

    /// The wire fields of `r` pin the record: any correct reading of
    /// them agrees with `r` on every field.
    pub proof fn lemma_decode_agrees(r: DelResponse, d: DelResponse)
        requires
            Self::decodes_from(r.wire_entries(), d),
        ensures
            Self::eq_fields(d, r),
    {
        Self::lemma_wire_round_trip(r);
        let es = r.wire_entries();
        assert(entries_get(es, "key"@) == Some(ValModel::Str(r.key@))) by {
            assert((es[0]).0 == "key"@);
        }
    }

    /// The round-trip law: decoding the canonical encoding of `r`
    /// yields a record that agrees with `r` on every field.
    pub proof fn lemma_round_trip(r: DelResponse, d: DelResponse)
        requires
            wf(r.wire()),
            Self::decodes_from(r.wire_entries(), d),
        ensures
            dec_full(enc(r.wire())) == Some(r.wire()),
            Self::eq_fields(d, r),
    {
        codec::lemma_round_trip(r.wire());
        Self::lemma_decode_agrees(r, d);
    }

    /// Unknown-field tolerance: appending a field under a key this
    /// record does not declare changes neither its shape check nor
    /// what any record decodes to.
    pub proof fn lemma_unknown_field_tolerance(
        es: Seq<(Seq<char>, ValModel)>,
        k: Seq<char>,
        v: ValModel,
        d: DelResponse,
    )
        requires
            k != "key"@,
        ensures
            Self::shape_ok(es.push((k, v))) == Self::shape_ok(es),
            Self::decodes_from(es.push((k, v)), d) == Self::decodes_from(es, d),
    {
        value::lemma_entries_get_push_other(es, "key"@, k, v);
    }
}

#[derive(Debug, PartialEq)]
pub struct SetResponse {
    pub value: String,
}

impl SetResponse {
    /// The record's wire fields, in declaration order.
    pub open spec fn wire_entries(self) -> Seq<(Seq<char>, ValModel)> {
        seq![
            ("value"@, ValModel::Str(self.value@)),
        ]
    }

    /// The record's wire value.
    pub open spec fn wire(self) -> ValModel {
        ValModel::Dict(self.wire_entries())
    }

    /// Whether decoded wire fields carry every required field with its
    /// declared type; unknown fields never disturb this, and absent
    /// fields with a declared default are allowed.
    pub open spec fn shape_ok(es: Seq<(Seq<char>, ValModel)>) -> bool {
        entries_get(es, "value"@) matches Some(v) && v is Str
    }

    /// Whether record `r` is the correct reading of wire fields `es`.
    pub open spec fn decodes_from(es: Seq<(Seq<char>, ValModel)>, r: SetResponse) -> bool {
        entries_get(es, "value"@) == Some(ValModel::Str(r.value@))
    }

    /// Content equality: every field agrees.
    pub open spec fn eq_fields(a: SetResponse, b: SetResponse) -> bool {
        a.value@ == b.value@
    }

    /// Lowers the record to its wire value.
    pub fn to_val(&self) -> (v: Val)
        ensures
            v@ == self.wire(),
    {
        let mut es: Vec<(String, Val)> = Vec::new();
        es.push((String::from_str("value"), Val::Str(self.value.clone())));
        proof {
            value::lemma_view_entries(es@);
            assert forall|i: int|
                0 <= i < es@.len() implies view_entries(es@)[i] == self.wire_entries()[i] by {
                assert(view_entries(es@)[i] == (es@[i].0@, es@[i].1@));
            }
            assert(view_entries(es@) =~= self.wire_entries());
        }
        Val::Dict(es)
    }

    /// Encodes the record through the canonical codec.
    pub fn encode(&self) -> (r: Result<Vec<u8>, EncodeError>)
        ensures
            match r {
                Ok(b) => wf(self.wire()) && b@ == enc(self.wire()),
                Err(e) => !wf(self.wire()) && e == EncodeError::Unencodable,
            },
    {
        let v = self.to_val();
        codec::encode_value(&v)
    }

    /// Lifts a decoded wire value into the record, filling defaults and
    /// ignoring unknown fields.
    pub fn from_val(v: &Val) -> (r: Result<SetResponse, DecodeError>)
        ensures
            match r {
                Ok(rec) => v@ matches ValModel::Dict(es) && Self::shape_ok(es)
                    && Self::decodes_from(es, rec),
                Err(e) => match v@ {
                    ValModel::Dict(es) => !Self::shape_ok(es) && (e == DecodeError::MissingField
                        || e == DecodeError::TypeMismatch),
                    _ => e == DecodeError::TypeMismatch,
                },
            },
    {
        match v {
            Val::Dict(es) => {
                let value = match value::get_str(es, "value") {
                    Ok(x) => x,
                    Err(e) => return Err(e),
                };
                Ok(SetResponse { value })
            },
            _ => Err(DecodeError::TypeMismatch),
        }
    }

    /// Decodes the record from its wire bytes.
    pub fn decode(bytes: &[u8]) -> (r: Result<SetResponse, DecodeError>)
        ensures
            match r {
                Ok(rec) => dec_full(bytes@) matches Some(v) && (v matches ValModel::Dict(es)
                    && Self::shape_ok(es) && Self::decodes_from(es, rec)),
                Err(e) => match dec_full(bytes@) {
                    None => e == DecodeError::Malformed,
                    Some(v) => match v {
                        ValModel::Dict(es) => !Self::shape_ok(es) && (e
                            == DecodeError::MissingField || e == DecodeError::TypeMismatch),
                        _ => e == DecodeError::TypeMismatch,
                    },
                },
            },
    {
        let val = match codec::decode_value(bytes) {
            Ok(v) => v,
            Err(e) => return Err(e),
        };
        Self::from_val(&val)
    }

    /// Reading a record's own wire fields back yields the record: the
    /// encoder writes exactly what the decoder needs; and looking up
    /// any declared key finds exactly the field the encoder wrote.
    pub proof fn lemma_wire_round_trip(r: SetResponse)
        ensures
            Self::shape_ok(r.wire_entries()),
            Self::decodes_from(r.wire_entries(), r),
            forall|i: int|
                0 <= i < r.wire_entries().len() ==> entries_get(
                    r.wire_entries(),
                    (#[trigger] r.wire_entries()[i]).0,
                ) == Some(r.wire_entries()[i].1),
    {
        reveal_strlit("value");
        let es = r.wire_entries();
        assert("value"@.len() == 5);
        value::lemma_entries_get_at(es, 0);
    }

    /// The wire fields of `r` pin the record: any correct reading of
    /// them agrees with `r` on every field.
    pub proof fn lemma_decode_agrees(r: SetResponse, d: SetResponse)
        requires
            Self::decodes_from(r.wire_entries(), d),
        ensures
            Self::eq_fields(d, r),
    {
        Self::lemma_wire_round_trip(r);
        let es = r.wire_entries();
        assert(entries_get(es, "value"@) == Some(ValModel::Str(r.value@))) by {
            assert((es[0]).0 == "value"@);
        }
    }

    /// The round-trip law: decoding the canonical encoding of `r`
    /// yields a record that agrees with `r` on every field.
    pub proof fn lemma_round_trip(r: SetResponse, d: SetResponse)
        requires
            wf(r.wire()),
            Self::decodes_from(r.wire_entries(), d),
        ensures
            dec_full(enc(r.wire())) == Some(r.wire()),
            Self::eq_fields(d, r),
    {
        codec::lemma_round_trip(r.wire());
        Self::lemma_decode_agrees(r, d);
    }

    /// Unknown-field tolerance: appending a field under a key this
    /// record does not declare changes neither its shape check nor
    /// what any record decodes to.
    pub proof fn lemma_unknown_field_tolerance(
        es: Seq<(Seq<char>, ValModel)>,
        k: Seq<char>,
        v: ValModel,
        d: SetResponse,
    )
        requires
            k != "value"@,
        ensures
            Self::shape_ok(es.push((k, v))) == Self::shape_ok(es),
            Self::decodes_from(es.push((k, v)), d) == Self::decodes_from(es, d),
    {
        value::lemma_entries_get_push_other(es, "value"@, k, v);
    }
}

#[derive(Debug, PartialEq)]
pub struct AddRequest {
    pub key: String,
    pub value: i32,
}

impl AddRequest {
    /// The record's wire fields, in declaration order.
    pub open spec fn wire_entries(self) -> Seq<(Seq<char>, ValModel)> {
        seq![
            ("key"@, ValModel::Str(self.key@)),
            ("value"@, value::int_wire(self.value as int)),
        ]
    }

    /// The record's wire value.
    pub open spec fn wire(self) -> ValModel {
        ValModel::Dict(self.wire_entries())
    }

    /// Whether decoded wire fields carry every required field with its
    /// declared type; unknown fields never disturb this, and absent
    /// fields with a declared default are allowed.
    pub open spec fn shape_ok(es: Seq<(Seq<char>, ValModel)>) -> bool {
        &&& entries_get(es, "key"@) matches Some(v) && v is Str
        &&& entries_get(es, "value"@) matches Some(v) && value::is_i32(v)
    }

    /// Whether record `r` is the correct reading of wire fields `es`.
    pub open spec fn decodes_from(es: Seq<(Seq<char>, ValModel)>, r: AddRequest) -> bool {
        &&& entries_get(es, "key"@) == Some(ValModel::Str(r.key@))
        &&& entries_get(es, "value"@) matches Some(v) && value::is_i32(v) && value::int_of(v) == r.value as int
    }

    /// Content equality: every field agrees.
    pub open spec fn eq_fields(a: AddRequest, b: AddRequest) -> bool {
        &&& a.key@ == b.key@
        &&& a.value == b.value
    }

    /// Lowers the record to its wire value.
    pub fn to_val(&self) -> (v: Val)
        ensures
            v@ == self.wire(),
    {
        let mut es: Vec<(String, Val)> = Vec::new();
        es.push((String::from_str("key"), Val::Str(self.key.clone())));
        es.push((String::from_str("value"), value::int_to_val(self.value as i64)));
        proof {
            value::lemma_view_entries(es@);
            assert forall|i: int|
                0 <= i < es@.len() implies view_entries(es@)[i] == self.wire_entries()[i] by {
                assert(view_entries(es@)[i] == (es@[i].0@, es@[i].1@));
            }
            assert(view_entries(es@) =~= self.wire_entries());
        }
        Val::Dict(es)
    }

    /// Encodes the record through the canonical codec.
    pub fn encode(&self) -> (r: Result<Vec<u8>, EncodeError>)
        ensures
            match r {
                Ok(b) => wf(self.wire()) && b@ == enc(self.wire()),
                Err(e) => !wf(self.wire()) && e == EncodeError::Unencodable,
            },
    {
        let v = self.to_val();
        codec::encode_value(&v)
    }

    /// Lifts a decoded wire value into the record, filling defaults and
    /// ignoring unknown fields.
    pub fn from_val(v: &Val) -> (r: Result<AddRequest, DecodeError>)
        ensures
            match r {
                Ok(rec) => v@ matches ValModel::Dict(es) && Self::shape_ok(es)
                    && Self::decodes_from(es, rec),
                Err(e) => match v@ {
                    ValModel::Dict(es) => !Self::shape_ok(es) && (e == DecodeError::MissingField
                        || e == DecodeError::TypeMismatch),
                    _ => e == DecodeError::TypeMismatch,
                },
            },
    {
        match v {
            Val::Dict(es) => {
                let key = match value::get_str(es, "key") {
                    Ok(x) => x,
                    Err(e) => return Err(e),
                };
                let value = match value::get_i32(es, "value") {
                    Ok(x) => x,
                    Err(e) => return Err(e),
                };
                Ok(AddRequest { key, value })
            },
            _ => Err(DecodeError::TypeMismatch),
        }
    }

    /// Decodes the record from its wire bytes.
    pub fn decode(bytes: &[u8]) -> (r: Result<AddRequest, DecodeError>)
        ensures
            match r {
                Ok(rec) => dec_full(bytes@) matches Some(v) && (v matches ValModel::Dict(es)
                    && Self::shape_ok(es) && Self::decodes_from(es, rec)),
                Err(e) => match dec_full(bytes@) {
                    None => e == DecodeError::Malformed,
                    Some(v) => match v {
                        ValModel::Dict(es) => !Self::shape_ok(es) && (e
                            == DecodeError::MissingField || e == DecodeError::TypeMismatch),
                        _ => e == DecodeError::TypeMismatch,
                    },
                },
            },
    {
        let val = match codec::decode_value(bytes) {
            Ok(v) => v,
            Err(e) => return Err(e),
        };
        Self::from_val(&val)
    }

    /// Reading a record's own wire fields back yields the record: the
    /// encoder writes exactly what the decoder needs; and looking up
    /// any declared key finds exactly the field the encoder wrote.
    pub proof fn lemma_wire_round_trip(r: AddRequest)
        ensures
            Self::shape_ok(r.wire_entries()),
            Self::decodes_from(r.wire_entries(), r),
            forall|i: int|
                0 <= i < r.wire_entries().len() ==> entries_get(
                    r.wire_entries(),
                    (#[trigger] r.wire_entries()[i]).0,
                ) == Some(r.wire_entries()[i].1),
    {
        reveal_strlit("key");
        reveal_strlit("value");
        let es = r.wire_entries();
        assert("key"@.len() == 3);
        assert("value"@.len() == 5);
        value::lemma_entries_get_at(es, 0);
        value::lemma_entries_get_at(es, 1);
    }

    /// The wire fields of `r` pin the record: any correct reading of
    /// them agrees with `r` on every field.
    pub proof fn lemma_decode_agrees(r: AddRequest, d: AddRequest)
        requires
            Self::decodes_from(r.wire_entries(), d),
        ensures
            Self::eq_fields(d, r),
    {
        Self::lemma_wire_round_trip(r);
        let es = r.wire_entries();
        assert(entries_get(es, "key"@) == Some(ValModel::Str(r.key@))) by {
            assert((es[0]).0 == "key"@);
        }
        assert(entries_get(es, "value"@) == Some(value::int_wire(r.value as int))) by {
            assert((es[1]).0 == "value"@);
        }
    }

    /// The round-trip law: decoding the canonical encoding of `r`
    /// yields a record that agrees with `r` on every field.
    pub proof fn lemma_round_trip(r: AddRequest, d: AddRequest)
        requires
            wf(r.wire()),
            Self::decodes_from(r.wire_entries(), d),
        ensures
            dec_full(enc(r.wire())) == Some(r.wire()),
            Self::eq_fields(d, r),
    {
        codec::lemma_round_trip(r.wire());
        Self::lemma_decode_agrees(r, d);
    }

    /// Unknown-field tolerance: appending a field under a key this
    /// record does not declare changes neither its shape check nor
    /// what any record decodes to.
    pub proof fn lemma_unknown_field_tolerance(
        es: Seq<(Seq<char>, ValModel)>,
        k: Seq<char>,
        v: ValModel,
        d: AddRequest,
    )
        requires
            k != "key"@,
            k != "value"@,
        ensures
            Self::shape_ok(es.push((k, v))) == Self::shape_ok(es),
            Self::decodes_from(es.push((k, v)), d) == Self::decodes_from(es, d),
    {
        value::lemma_entries_get_push_other(es, "key"@, k, v);
        value::lemma_entries_get_push_other(es, "value"@, k, v);
    }
}

#[derive(Debug, PartialEq)]
pub struct AddResponse {
    pub value: i32,
}

impl AddResponse {
    /// The record's wire fields, in declaration order.
    pub open spec fn wire_entries(self) -> Seq<(Seq<char>, ValModel)> {
        seq![
            ("value"@, value::int_wire(self.value as int)),
        ]
    }

    /// The record's wire value.
    pub open spec fn wire(self) -> ValModel {
        ValModel::Dict(self.wire_entries())
    }

    /// Whether decoded wire fields carry every required field with its
    /// declared type; unknown fields never disturb this, and absent
    /// fields with a declared default are allowed.
    pub open spec fn shape_ok(es: Seq<(Seq<char>, ValModel)>) -> bool {
        entries_get(es, "value"@) matches Some(v) && value::is_i32(v)
    }

    /// Whether record `r` is the correct reading of wire fields `es`.
    pub open spec fn decodes_from(es: Seq<(Seq<char>, ValModel)>, r: AddResponse) -> bool {
        entries_get(es, "value"@) matches Some(v) && value::is_i32(v) && value::int_of(v) == r.value as int
    }

    /// Content equality: every field agrees.
    pub open spec fn eq_fields(a: AddResponse, b: AddResponse) -> bool {
        a.value == b.value
    }

    /// Lowers the record to its wire value.
    pub fn to_val(&self) -> (v: Val)
        ensures
            v@ == self.wire(),
    {
        let mut es: Vec<(String, Val)> = Vec::new();
        es.push((String::from_str("value"), value::int_to_val(self.value as i64)));
        proof {
            value::lemma_view_entries(es@);
            assert forall|i: int|
                0 <= i < es@.len() implies view_entries(es@)[i] == self.wire_entries()[i] by {
                assert(view_entries(es@)[i] == (es@[i].0@, es@[i].1@));
            }
            assert(view_entries(es@) =~= self.wire_entries());
        }
        Val::Dict(es)
    }

    /// Encodes the record through the canonical codec.
    pub fn encode(&self) -> (r: Result<Vec<u8>, EncodeError>)
        ensures
            match r {
                Ok(b) => wf(self.wire()) && b@ == enc(self.wire()),
                Err(e) => !wf(self.wire()) && e == EncodeError::Unencodable,
            },
    {
        let v = self.to_val();
        codec::encode_value(&v)
    }

    /// Lifts a decoded wire value into the record, filling defaults and
    /// ignoring unknown fields.
    pub fn from_val(v: &Val) -> (r: Result<AddResponse, DecodeError>)
        ensures
            match r {
                Ok(rec) => v@ matches ValModel::Dict(es) && Self::shape_ok(es)
                    && Self::decodes_from(es, rec),
                Err(e) => match v@ {
                    ValModel::Dict(es) => !Self::shape_ok(es) && (e == DecodeError::MissingField
                        || e == DecodeError::TypeMismatch),
                    _ => e == DecodeError::TypeMismatch,
                },
            },
    {
        match v {
            Val::Dict(es) => {
                let value = match value::get_i32(es, "value") {
                    Ok(x) => x,
                    Err(e) => return Err(e),
                };
                Ok(AddResponse { value })
            },
            _ => Err(DecodeError::TypeMismatch),
        }
    }

    /// Decodes the record from its wire bytes.
    pub fn decode(bytes: &[u8]) -> (r: Result<AddResponse, DecodeError>)
        ensures
            match r {
                Ok(rec) => dec_full(bytes@) matches Some(v) && (v matches ValModel::Dict(es)
                    && Self::shape_ok(es) && Self::decodes_from(es, rec)),
                Err(e) => match dec_full(bytes@) {
                    None => e == DecodeError::Malformed,
                    Some(v) => match v {
                        ValModel::Dict(es) => !Self::shape_ok(es) && (e
                            == DecodeError::MissingField || e == DecodeError::TypeMismatch),
                        _ => e == DecodeError::TypeMismatch,
                    },
                },
            },
    {
        let val = match codec::decode_value(bytes) {
            Ok(v) => v,
            Err(e) => return Err(e),
        };
        Self::from_val(&val)
    }

    /// Reading a record's own wire fields back yields the record: the
    /// encoder writes exactly what the decoder needs; and looking up
    /// any declared key finds exactly the field the encoder wrote.
    pub proof fn lemma_wire_round_trip(r: AddResponse)
        ensures
            Self::shape_ok(r.wire_entries()),
            Self::decodes_from(r.wire_entries(), r),
            forall|i: int|
                0 <= i < r.wire_entries().len() ==> entries_get(
                    r.wire_entries(),
                    (#[trigger] r.wire_entries()[i]).0,
                ) == Some(r.wire_entries()[i].1),
    {
        reveal_strlit("value");
        let es = r.wire_entries();
        assert("value"@.len() == 5);
        value::lemma_entries_get_at(es, 0);
    }

    /// The wire fields of `r` pin the record: any correct reading of
    /// them agrees with `r` on every field.
    pub proof fn lemma_decode_agrees(r: AddResponse, d: AddResponse)
        requires
            Self::decodes_from(r.wire_entries(), d),
        ensures
            Self::eq_fields(d, r),
    {
        Self::lemma_wire_round_trip(r);
        let es = r.wire_entries();
        assert(entries_get(es, "value"@) == Some(value::int_wire(r.value as int))) by {
            assert((es[0]).0 == "value"@);
        }
    }

    /// The round-trip law: decoding the canonical encoding of `r`
    /// yields a record that agrees with `r` on every field.
    pub proof fn lemma_round_trip(r: AddResponse, d: AddResponse)
        requires
            wf(r.wire()),
            Self::decodes_from(r.wire_entries(), d),
        ensures
            dec_full(enc(r.wire())) == Some(r.wire()),
            Self::eq_fields(d, r),
    {
        codec::lemma_round_trip(r.wire());
        Self::lemma_decode_agrees(r, d);
    }

    /// Unknown-field tolerance: appending a field under a key this
    /// record does not declare changes neither its shape check nor
    /// what any record decodes to.
    pub proof fn lemma_unknown_field_tolerance(
        es: Seq<(Seq<char>, ValModel)>,
        k: Seq<char>,
        v: ValModel,
        d: AddResponse,
    )
        requires
            k != "value"@,
        ensures
            Self::shape_ok(es.push((k, v))) == Self::shape_ok(es),
            Self::decodes_from(es.push((k, v)), d) == Self::decodes_from(es, d),
    {
        value::lemma_entries_get_push_other(es, "value"@, k, v);
    }
}

#[derive(Debug, PartialEq)]
pub struct ListPushRequest {
    pub key: String,
    pub value: String,
}

impl ListPushRequest {
    /// The record's wire fields, in declaration order.
    pub open spec fn wire_entries(self) -> Seq<(Seq<char>, ValModel)> {
        seq![
            ("key"@, ValModel::Str(self.key@)),
            ("value"@, ValModel::Str(self.value@)),
        ]
    }

    /// The record's wire value.
    pub open spec fn wire(self) -> ValModel {
        ValModel::Dict(self.wire_entries())
    }

    /// Whether decoded wire fields carry every required field with its
    /// declared type; unknown fields never disturb this, and absent
    /// fields with a declared default are allowed.
    pub open spec fn shape_ok(es: Seq<(Seq<char>, ValModel)>) -> bool {
        &&& entries_get(es, "key"@) matches Some(v) && v is Str
        &&& entries_get(es, "value"@) matches Some(v) && v is Str
    }

    /// Whether record `r` is the correct reading of wire fields `es`.
    pub open spec fn decodes_from(es: Seq<(Seq<char>, ValModel)>, r: ListPushRequest) -> bool {
        &&& entries_get(es, "key"@) == Some(ValModel::Str(r.key@))
        &&& entries_get(es, "value"@) == Some(ValModel::Str(r.value@))
    }

    /// Content equality: every field agrees.
    pub open spec fn eq_fields(a: ListPushRequest, b: ListPushRequest) -> bool {
        &&& a.key@ == b.key@
        &&& a.value@ == b.value@
    }

    /// Lowers the record to its wire value.
    pub fn to_val(&self) -> (v: Val)
        ensures
            v@ == self.wire(),
    {
        let mut es: Vec<(String, Val)> = Vec::new();
        es.push((String::from_str("key"), Val::Str(self.key.clone())));
        es.push((String::from_str("value"), Val::Str(self.value.clone())));
        proof {
            value::lemma_view_entries(es@);
            assert forall|i: int|
                0 <= i < es@.len() implies view_entries(es@)[i] == self.wire_entries()[i] by {
                assert(view_entries(es@)[i] == (es@[i].0@, es@[i].1@));
            }
            assert(view_entries(es@) =~= self.wire_entries());
        }
        Val::Dict(es)
    }

    /// Encodes the record through the canonical codec.
    pub fn encode(&self) -> (r: Result<Vec<u8>, EncodeError>)
        ensures
            match r {
                Ok(b) => wf(self.wire()) && b@ == enc(self.wire()),
                Err(e) => !wf(self.wire()) && e == EncodeError::Unencodable,
            },
    {
        let v = self.to_val();
        codec::encode_value(&v)
    }

    /// Lifts a decoded wire value into the record, filling defaults and
    /// ignoring unknown fields.
    pub fn from_val(v: &Val) -> (r: Result<ListPushRequest, DecodeError>)
        ensures
            match r {
                Ok(rec) => v@ matches ValModel::Dict(es) && Self::shape_ok(es)
                    && Self::decodes_from(es, rec),
                Err(e) => match v@ {
                    ValModel::Dict(es) => !Self::shape_ok(es) && (e == DecodeError::MissingField
                        || e == DecodeError::TypeMismatch),
                    _ => e == DecodeError::TypeMismatch,
                },
            },
    {
        match v {
            Val::Dict(es) => {
                let key = match value::get_str(es, "key") {
                    Ok(x) => x,
                    Err(e) => return Err(e),
                };
                let value = match value::get_str(es, "value") {
                    Ok(x) => x,
                    Err(e) => return Err(e),
                };
                Ok(ListPushRequest { key, value })
            },
            _ => Err(DecodeError::TypeMismatch),
        }
    }

    /// Decodes the record from its wire bytes.
    pub fn decode(bytes: &[u8]) -> (r: Result<ListPushRequest, DecodeError>)
        ensures
            match r {
                Ok(rec) => dec_full(bytes@) matches Some(v) && (v matches ValModel::Dict(es)
                    && Self::shape_ok(es) && Self::decodes_from(es, rec)),
                Err(e) => match dec_full(bytes@) {
                    None => e == DecodeError::Malformed,
                    Some(v) => match v {
                        ValModel::Dict(es) => !Self::shape_ok(es) && (e
                            == DecodeError::MissingField || e == DecodeError::TypeMismatch),
                        _ => e == DecodeError::TypeMismatch,
                    },
                },
            },
    {
        let val = match codec::decode_value(bytes) {
            Ok(v) => v,
            Err(e) => return Err(e),
        };
        Self::from_val(&val)
    }

    /// Reading a record's own wire fields back yields the record: the
    /// encoder writes exactly what the decoder needs; and looking up
    /// any declared key finds exactly the field the encoder wrote.
    pub proof fn lemma_wire_round_trip(r: ListPushRequest)
        ensures
            Self::shape_ok(r.wire_entries()),
            Self::decodes_from(r.wire_entries(), r),
            forall|i: int|
                0 <= i < r.wire_entries().len() ==> entries_get(
                    r.wire_entries(),
                    (#[trigger] r.wire_entries()[i]).0,
                ) == Some(r.wire_entries()[i].1),
    {
        reveal_strlit("key");
        reveal_strlit("value");
        let es = r.wire_entries();
        assert("key"@.len() == 3);
        assert("value"@.len() == 5);
        value::lemma_entries_get_at(es, 0);
        value::lemma_entries_get_at(es, 1);
    }

    /// The wire fields of `r` pin the record: any correct reading of
    /// them agrees with `r` on every field.
    pub proof fn lemma_decode_agrees(r: ListPushRequest, d: ListPushRequest)
        requires
            Self::decodes_from(r.wire_entries(), d),
        ensures
            Self::eq_fields(d, r),
    {
        Self::lemma_wire_round_trip(r);
        let es = r.wire_entries();
        assert(entries_get(es, "key"@) == Some(ValModel::Str(r.key@))) by {
            assert((es[0]).0 == "key"@);
        }
        assert(entries_get(es, "value"@) == Some(ValModel::Str(r.value@))) by {
            assert((es[1]).0 == "value"@);
        }
    }

    /// The round-trip law: decoding the canonical encoding of `r`
    /// yields a record that agrees with `r` on every field.
    pub proof fn lemma_round_trip(r: ListPushRequest, d: ListPushRequest)
        requires
            wf(r.wire()),
            Self::decodes_from(r.wire_entries(), d),
        ensures
            dec_full(enc(r.wire())) == Some(r.wire()),
            Self::eq_fields(d, r),
    {
        codec::lemma_round_trip(r.wire());
        Self::lemma_decode_agrees(r, d);
    }

    /// Unknown-field tolerance: appending a field under a key this
    /// record does not declare changes neither its shape check nor
    /// what any record decodes to.
    pub proof fn lemma_unknown_field_tolerance(
        es: Seq<(Seq<char>, ValModel)>,
        k: Seq<char>,
        v: ValModel,
        d: ListPushRequest,
    )
        requires
            k != "key"@,
            k != "value"@,
        ensures
            Self::shape_ok(es.push((k, v))) == Self::shape_ok(es),
            Self::decodes_from(es.push((k, v)), d) == Self::decodes_from(es, d),
    {
        value::lemma_entries_get_push_other(es, "key"@, k, v);
        value::lemma_entries_get_push_other(es, "value"@, k, v);
    }
}

#[derive(Debug, PartialEq)]
pub struct ListDelItemRequest {
    pub key: String,
    pub value: String,
}

impl ListDelItemRequest {
    /// The record's wire fields, in declaration order.
    pub open spec fn wire_entries(self) -> Seq<(Seq<char>, ValModel)> {
        seq![
            ("key"@, ValModel::Str(self.key@)),
            ("value"@, ValModel::Str(self.value@)),
        ]
    }

    /// The record's wire value.
    pub open spec fn wire(self) -> ValModel {
        ValModel::Dict(self.wire_entries())
    }

    /// Whether decoded wire fields carry every required field with its
    /// declared type; unknown fields never disturb this, and absent
    /// fields with a declared default are allowed.
    pub open spec fn shape_ok(es: Seq<(Seq<char>, ValModel)>) -> bool {
        &&& entries_get(es, "key"@) matches Some(v) && v is Str
        &&& entries_get(es, "value"@) matches Some(v) && v is Str
    }

    /// Whether record `r` is the correct reading of wire fields `es`.
    pub open spec fn decodes_from(es: Seq<(Seq<char>, ValModel)>, r: ListDelItemRequest) -> bool {
        &&& entries_get(es, "key"@) == Some(ValModel::Str(r.key@))
        &&& entries_get(es, "value"@) == Some(ValModel::Str(r.value@))
    }

    /// Content equality: every field agrees.
    pub open spec fn eq_fields(a: ListDelItemRequest, b: ListDelItemRequest) -> bool {
        &&& a.key@ == b.key@
        &&& a.value@ == b.value@
    }

    /// Lowers the record to its wire value.
    pub fn to_val(&self) -> (v: Val)
        ensures
            v@ == self.wire(),
    {
        let mut es: Vec<(String, Val)> = Vec::new();
        es.push((String::from_str("key"), Val::Str(self.key.clone())));
        es.push((String::from_str("value"), Val::Str(self.value.clone())));
        proof {
            value::lemma_view_entries(es@);
            assert forall|i: int|
                0 <= i < es@.len() implies view_entries(es@)[i] == self.wire_entries()[i] by {
                assert(view_entries(es@)[i] == (es@[i].0@, es@[i].1@));
            }
            assert(view_entries(es@) =~= self.wire_entries());
        }
        Val::Dict(es)
    }

    /// Encodes the record through the canonical codec.
    pub fn encode(&self) -> (r: Result<Vec<u8>, EncodeError>)
        ensures
            match r {
                Ok(b) => wf(self.wire()) && b@ == enc(self.wire()),
                Err(e) => !wf(self.wire()) && e == EncodeError::Unencodable,
            },
    {
        let v = self.to_val();
        codec::encode_value(&v)
    }

    /// Lifts a decoded wire value into the record, filling defaults and
    /// ignoring unknown fields.
    pub fn from_val(v: &Val) -> (r: Result<ListDelItemRequest, DecodeError>)
        ensures
            match r {
                Ok(rec) => v@ matches ValModel::Dict(es) && Self::shape_ok(es)
                    && Self::decodes_from(es, rec),
                Err(e) => match v@ {
                    ValModel::Dict(es) => !Self::shape_ok(es) && (e == DecodeError::MissingField
                        || e == DecodeError::TypeMismatch),
                    _ => e == DecodeError::TypeMismatch,
                },
            },
    {
        match v {
            Val::Dict(es) => {
                let key = match value::get_str(es, "key") {
                    Ok(x) => x,
                    Err(e) => return Err(e),
                };
                let value = match value::get_str(es, "value") {
                    Ok(x) => x,
                    Err(e) => return Err(e),
                };
                Ok(ListDelItemRequest { key, value })
            },
            _ => Err(DecodeError::TypeMismatch),
        }
    }

    /// Decodes the record from its wire bytes.
    pub fn decode(bytes: &[u8]) -> (r: Result<ListDelItemRequest, DecodeError>)
        ensures
            match r {
                Ok(rec) => dec_full(bytes@) matches Some(v) && (v matches ValModel::Dict(es)
                    && Self::shape_ok(es) && Self::decodes_from(es, rec)),
                Err(e) => match dec_full(bytes@) {
                    None => e == DecodeError::Malformed,
                    Some(v) => match v {
                        ValModel::Dict(es) => !Self::shape_ok(es) && (e
                            == DecodeError::MissingField || e == DecodeError::TypeMismatch),
                        _ => e == DecodeError::TypeMismatch,
                    },
                },
            },
    {
        let val = match codec::decode_value(bytes) {
            Ok(v) => v,
            Err(e) => return Err(e),
        };
        Self::from_val(&val)
    }

    /// Reading a record's own wire fields back yields the record: the
    /// encoder writes exactly what the decoder needs; and looking up
    /// any declared key finds exactly the field the encoder wrote.
    pub proof fn lemma_wire_round_trip(r: ListDelItemRequest)
        ensures
            Self::shape_ok(r.wire_entries()),
            Self::decodes_from(r.wire_entries(), r),
            forall|i: int|
                0 <= i < r.wire_entries().len() ==> entries_get(
                    r.wire_entries(),
                    (#[trigger] r.wire_entries()[i]).0,
                ) == Some(r.wire_entries()[i].1),
    {
        reveal_strlit("key");
        reveal_strlit("value");
        let es = r.wire_entries();
        assert("key"@.len() == 3);
        assert("value"@.len() == 5);
        value::lemma_entries_get_at(es, 0);
        value::lemma_entries_get_at(es, 1);
    }

    /// The wire fields of `r` pin the record: any correct reading of
    /// them agrees with `r` on every field.
    pub proof fn lemma_decode_agrees(r: ListDelItemRequest, d: ListDelItemRequest)
        requires
            Self::decodes_from(r.wire_entries(), d),
        ensures
            Self::eq_fields(d, r),
    {
        Self::lemma_wire_round_trip(r);
        let es = r.wire_entries();
        assert(entries_get(es, "key"@) == Some(ValModel::Str(r.key@))) by {
            assert((es[0]).0 == "key"@);
        }
        assert(entries_get(es, "value"@) == Some(ValModel::Str(r.value@))) by {
            assert((es[1]).0 == "value"@);
        }
    }

    /// The round-trip law: decoding the canonical encoding of `r`
    /// yields a record that agrees with `r` on every field.
    pub proof fn lemma_round_trip(r: ListDelItemRequest, d: ListDelItemRequest)
        requires
            wf(r.wire()),
            Self::decodes_from(r.wire_entries(), d),
        ensures
            dec_full(enc(r.wire())) == Some(r.wire()),
            Self::eq_fields(d, r),
    {
        codec::lemma_round_trip(r.wire());
        Self::lemma_decode_agrees(r, d);
    }

    /// Unknown-field tolerance: appending a field under a key this
    /// record does not declare changes neither its shape check nor
    /// what any record decodes to.
    pub proof fn lemma_unknown_field_tolerance(
        es: Seq<(Seq<char>, ValModel)>,
        k: Seq<char>,
        v: ValModel,
        d: ListDelItemRequest,
    )
        requires
            k != "key"@,
            k != "value"@,
        ensures
            Self::shape_ok(es.push((k, v))) == Self::shape_ok(es),
            Self::decodes_from(es.push((k, v)), d) == Self::decodes_from(es, d),
    {
        value::lemma_entries_get_push_other(es, "key"@, k, v);
        value::lemma_entries_get_push_other(es, "value"@, k, v);
    }
}

#[derive(Debug, PartialEq)]
pub struct ListClearRequest {
    pub key: String,
}

impl ListClearRequest {
    /// The record's wire fields, in declaration order.
    pub open spec fn wire_entries(self) -> Seq<(Seq<char>, ValModel)> {
        seq![
            ("key"@, ValModel::Str(self.key@)),
        ]
    }

    /// The record's wire value.
    pub open spec fn wire(self) -> ValModel {
        ValModel::Dict(self.wire_entries())
    }

    /// Whether decoded wire fields carry every required field with its
    /// declared type; unknown fields never disturb this, and absent
    /// fields with a declared default are allowed.
    pub open spec fn shape_ok(es: Seq<(Seq<char>, ValModel)>) -> bool {
        entries_get(es, "key"@) matches Some(v) && v is Str
    }

    /// Whether record `r` is the correct reading of wire fields `es`.
    pub open spec fn decodes_from(es: Seq<(Seq<char>, ValModel)>, r: ListClearRequest) -> bool {
        entries_get(es, "key"@) == Some(ValModel::Str(r.key@))
    }

    /// Content equality: every field agrees.
    pub open spec fn eq_fields(a: ListClearRequest, b: ListClearRequest) -> bool {
        a.key@ == b.key@
    }

    /// Lowers the record to its wire value.
    pub fn to_val(&self) -> (v: Val)
        ensures
            v@ == self.wire(),
    {
        let mut es: Vec<(String, Val)> = Vec::new();
        es.push((String::from_str("key"), Val::Str(self.key.clone())));
        proof {
            value::lemma_view_entries(es@);
            assert forall|i: int|
                0 <= i < es@.len() implies view_entries(es@)[i] == self.wire_entries()[i] by {
                assert(view_entries(es@)[i] == (es@[i].0@, es@[i].1@));
            }
            assert(view_entries(es@) =~= self.wire_entries());
        }
        Val::Dict(es)
    }

    /// Encodes the record through the canonical codec.
    pub fn encode(&self) -> (r: Result<Vec<u8>, EncodeError>)
        ensures
            match r {
                Ok(b) => wf(self.wire()) && b@ == enc(self.wire()),
                Err(e) => !wf(self.wire()) && e == EncodeError::Unencodable,
            },
    {
        let v = self.to_val();
        codec::encode_value(&v)
    }

    /// Lifts a decoded wire value into the record, filling defaults and
    /// ignoring unknown fields.
    pub fn from_val(v: &Val) -> (r: Result<ListClearRequest, DecodeError>)
        ensures
            match r {
                Ok(rec) => v@ matches ValModel::Dict(es) && Self::shape_ok(es)
                    && Self::decodes_from(es, rec),
                Err(e) => match v@ {
                    ValModel::Dict(es) => !Self::shape_ok(es) && (e == DecodeError::MissingField
                        || e == DecodeError::TypeMismatch),
                    _ => e == DecodeError::TypeMismatch,
                },
            },
    {
        match v {
            Val::Dict(es) => {
                let key = match value::get_str(es, "key") {
                    Ok(x) => x,
                    Err(e) => return Err(e),
                };
                Ok(ListClearRequest { key })
            },
            _ => Err(DecodeError::TypeMismatch),
        }
    }

    /// Decodes the record from its wire bytes.
    pub fn decode(bytes: &[u8]) -> (r: Result<ListClearRequest, DecodeError>)
        ensures
            match r {
                Ok(rec) => dec_full(bytes@) matches Some(v) && (v matches ValModel::Dict(es)
                    && Self::shape_ok(es) && Self::decodes_from(es, rec)),
                Err(e) => match dec_full(bytes@) {
                    None => e == DecodeError::Malformed,
                    Some(v) => match v {
                        ValModel::Dict(es) => !Self::shape_ok(es) && (e
                            == DecodeError::MissingField || e == DecodeError::TypeMismatch),
                        _ => e == DecodeError::TypeMismatch,
                    },
                },
            },
    {
        let val = match codec::decode_value(bytes) {
            Ok(v) => v,
            Err(e) => return Err(e),
        };
        Self::from_val(&val)
    }

    /// Reading a record's own wire fields back yields the record: the
    /// encoder writes exactly what the decoder needs; and looking up
    /// any declared key finds exactly the field the encoder wrote.
    pub proof fn lemma_wire_round_trip(r: ListClearRequest)
        ensures
            Self::shape_ok(r.wire_entries()),
            Self::decodes_from(r.wire_entries(), r),
            forall|i: int|
                0 <= i < r.wire_entries().len() ==> entries_get(
                    r.wire_entries(),
                    (#[trigger] r.wire_entries()[i]).0,
                ) == Some(r.wire_entries()[i].1),
    {
        reveal_strlit("key");
        let es = r.wire_entries();
        assert("key"@.len() == 3);
        value::lemma_entries_get_at(es, 0);
    }

    /// The wire fields of `r` pin the record: any correct reading of
    /// them agrees with `r` on every field.
    pub proof fn lemma_decode_agrees(r: ListClearRequest, d: ListClearRequest)
        requires
            Self::decodes_from(r.wire_entries(), d),
        ensures
            Self::eq_fields(d, r),
    {
        Self::lemma_wire_round_trip(r);
        let es = r.wire_entries();
        assert(entries_get(es, "key"@) == Some(ValModel::Str(r.key@))) by {
            assert((es[0]).0 == "key"@);
        }
    }

    /// The round-trip law: decoding the canonical encoding of `r`
    /// yields a record that agrees with `r` on every field.
    pub proof fn lemma_round_trip(r: ListClearRequest, d: ListClearRequest)
        requires
            wf(r.wire()),
            Self::decodes_from(r.wire_entries(), d),
        ensures
            dec_full(enc(r.wire())) == Some(r.wire()),
            Self::eq_fields(d, r),
    {
        codec::lemma_round_trip(r.wire());
        Self::lemma_decode_agrees(r, d);
    }

    /// Unknown-field tolerance: appending a field under a key this
    /// record does not declare changes neither its shape check nor
    /// what any record decodes to.
    pub proof fn lemma_unknown_field_tolerance(
        es: Seq<(Seq<char>, ValModel)>,
        k: Seq<char>,
        v: ValModel,
        d: ListClearRequest,
    )
        requires
            k != "key"@,
        ensures
            Self::shape_ok(es.push((k, v))) == Self::shape_ok(es),
            Self::decodes_from(es.push((k, v)), d) == Self::decodes_from(es, d),
    {
        value::lemma_entries_get_push_other(es, "key"@, k, v);
    }
}

#[derive(Debug, PartialEq)]
pub struct ListRangeRequest {
    pub key: String,
    pub start: i32,
    pub stop: i32,
}

impl ListRangeRequest {
    /// The record's wire fields, in declaration order.
    pub open spec fn wire_entries(self) -> Seq<(Seq<char>, ValModel)> {
        seq![
            ("key"@, ValModel::Str(self.key@)),
            ("start"@, value::int_wire(self.start as int)),
            ("stop"@, value::int_wire(self.stop as int)),
        ]
    }

    /// The record's wire value.
    pub open spec fn wire(self) -> ValModel {
        ValModel::Dict(self.wire_entries())
    }

    /// Whether decoded wire fields carry every required field with its
    /// declared type; unknown fields never disturb this, and absent
    /// fields with a declared default are allowed.
    pub open spec fn shape_ok(es: Seq<(Seq<char>, ValModel)>) -> bool {
        &&& entries_get(es, "key"@) matches Some(v) && v is Str
        &&& entries_get(es, "start"@) matches Some(v) && value::is_i32(v)
        &&& entries_get(es, "stop"@) matches Some(v) && value::is_i32(v)
    }

    /// Whether record `r` is the correct reading of wire fields `es`.
    pub open spec fn decodes_from(es: Seq<(Seq<char>, ValModel)>, r: ListRangeRequest) -> bool {
        &&& entries_get(es, "key"@) == Some(ValModel::Str(r.key@))
        &&& entries_get(es, "start"@) matches Some(v) && value::is_i32(v) && value::int_of(v) == r.start as int
        &&& entries_get(es, "stop"@) matches Some(v) && value::is_i32(v) && value::int_of(v) == r.stop as int
    }

    /// Content equality: every field agrees.
    pub open spec fn eq_fields(a: ListRangeRequest, b: ListRangeRequest) -> bool {
        &&& a.key@ == b.key@
        &&& a.start == b.start
        &&& a.stop == b.stop
    }

    /// Lowers the record to its wire value.
    pub fn to_val(&self) -> (v: Val)
        ensures
            v@ == self.wire(),
    {
        let mut es: Vec<(String, Val)> = Vec::new();
        es.push((String::from_str("key"), Val::Str(self.key.clone())));
        es.push((String::from_str("start"), value::int_to_val(self.start as i64)));
        es.push((String::from_str("stop"), value::int_to_val(self.stop as i64)));
        proof {
            value::lemma_view_entries(es@);
            assert forall|i: int|
                0 <= i < es@.len() implies view_entries(es@)[i] == self.wire_entries()[i] by {
                assert(view_entries(es@)[i] == (es@[i].0@, es@[i].1@));
            }
            assert(view_entries(es@) =~= self.wire_entries());
        }
        Val::Dict(es)
    }

    /// Encodes the record through the canonical codec.
    pub fn encode(&self) -> (r: Result<Vec<u8>, EncodeError>)
        ensures
            match r {
                Ok(b) => wf(self.wire()) && b@ == enc(self.wire()),
                Err(e) => !wf(self.wire()) && e == EncodeError::Unencodable,
            },
    {
        let v = self.to_val();
        codec::encode_value(&v)
    }

    /// Lifts a decoded wire value into the record, filling defaults and
    /// ignoring unknown fields.
    pub fn from_val(v: &Val) -> (r: Result<ListRangeRequest, DecodeError>)
        ensures
            match r {
                Ok(rec) => v@ matches ValModel::Dict(es) && Self::shape_ok(es)
                    && Self::decodes_from(es, rec),
                Err(e) => match v@ {
                    ValModel::Dict(es) => !Self::shape_ok(es) && (e == DecodeError::MissingField
                        || e == DecodeError::TypeMismatch),
                    _ => e == DecodeError::TypeMismatch,
                },
            },
    {
        match v {
            Val::Dict(es) => {
                let key = match value::get_str(es, "key") {
                    Ok(x) => x,
                    Err(e) => return Err(e),
                };
                let start = match value::get_i32(es, "start") {
                    Ok(x) => x,
                    Err(e) => return Err(e),
                };
                let stop = match value::get_i32(es, "stop") {
                    Ok(x) => x,
                    Err(e) => return Err(e),
                };
                Ok(ListRangeRequest { key, start, stop })
            },
            _ => Err(DecodeError::TypeMismatch),
        }
    }

    /// Decodes the record from its wire bytes.
    pub fn decode(bytes: &[u8]) -> (r: Result<ListRangeRequest, DecodeError>)
        ensures
            match r {
                Ok(rec) => dec_full(bytes@) matches Some(v) && (v matches ValModel::Dict(es)
                    && Self::shape_ok(es) && Self::decodes_from(es, rec)),
                Err(e) => match dec_full(bytes@) {
                    None => e == DecodeError::Malformed,
                    Some(v) => match v {
                        ValModel::Dict(es) => !Self::shape_ok(es) && (e
                            == DecodeError::MissingField || e == DecodeError::TypeMismatch),
                        _ => e == DecodeError::TypeMismatch,
                    },
                },
            },
    {
        let val = match codec::decode_value(bytes) {
            Ok(v) => v,
            Err(e) => return Err(e),
        };
        Self::from_val(&val)
    }

    /// Reading a record's own wire fields back yields the record: the
    /// encoder writes exactly what the decoder needs; and looking up
    /// any declared key finds exactly the field the encoder wrote.
    pub proof fn lemma_wire_round_trip(r: ListRangeRequest)
        ensures
            Self::shape_ok(r.wire_entries()),
            Self::decodes_from(r.wire_entries(), r),
            forall|i: int|
                0 <= i < r.wire_entries().len() ==> entries_get(
                    r.wire_entries(),
                    (#[trigger] r.wire_entries()[i]).0,
                ) == Some(r.wire_entries()[i].1),
    {
        reveal_strlit("key");
        reveal_strlit("start");
        reveal_strlit("stop");
        let es = r.wire_entries();
        assert("key"@.len() == 3);
        assert("start"@.len() == 5);
        assert("stop"@.len() == 4);
        value::lemma_entries_get_at(es, 0);
        value::lemma_entries_get_at(es, 1);
        value::lemma_entries_get_at(es, 2);
    }

    /// The wire fields of `r` pin the record: any correct reading of
    /// them agrees with `r` on every field.
    pub proof fn lemma_decode_agrees(r: ListRangeRequest, d: ListRangeRequest)
        requires
            Self::decodes_from(r.wire_entries(), d),
        ensures
            Self::eq_fields(d, r),
    {
        Self::lemma_wire_round_trip(r);
        let es = r.wire_entries();
        assert(entries_get(es, "key"@) == Some(ValModel::Str(r.key@))) by {
            assert((es[0]).0 == "key"@);
        }
        assert(entries_get(es, "start"@) == Some(value::int_wire(r.start as int))) by {
            assert((es[1]).0 == "start"@);
        }
        assert(entries_get(es, "stop"@) == Some(value::int_wire(r.stop as int))) by {
            assert((es[2]).0 == "stop"@);
        }
    }

    /// The round-trip law: decoding the canonical encoding of `r`
    /// yields a record that agrees with `r` on every field.
    pub proof fn lemma_round_trip(r: ListRangeRequest, d: ListRangeRequest)
        requires
            wf(r.wire()),
            Self::decodes_from(r.wire_entries(), d),
        ensures
            dec_full(enc(r.wire())) == Some(r.wire()),
            Self::eq_fields(d, r),
    {
        codec::lemma_round_trip(r.wire());
        Self::lemma_decode_agrees(r, d);
    }

    /// Unknown-field tolerance: appending a field under a key this
    /// record does not declare changes neither its shape check nor
    /// what any record decodes to.
    pub proof fn lemma_unknown_field_tolerance(
        es: Seq<(Seq<char>, ValModel)>,
        k: Seq<char>,
        v: ValModel,
        d: ListRangeRequest,
    )
        requires
            k != "key"@,
            k != "start"@,
            k != "stop"@,
        ensures
            Self::shape_ok(es.push((k, v))) == Self::shape_ok(es),
            Self::decodes_from(es.push((k, v)), d) == Self::decodes_from(es, d),
    {
        value::lemma_entries_get_push_other(es, "key"@, k, v);
        value::lemma_entries_get_push_other(es, "start"@, k, v);
        value::lemma_entries_get_push_other(es, "stop"@, k, v);
    }
}

#[derive(Debug, PartialEq)]
pub struct ListRangeResponse {
    pub values: Vec<String>,
}

impl ListRangeResponse {
    /// The record's wire fields, in declaration order.
    pub open spec fn wire_entries(self) -> Seq<(Seq<char>, ValModel)> {
        seq![
            ("values"@, ValModel::Arr(value::strs_items(self.values@))),
        ]
    }

    /// The record's wire value.
    pub open spec fn wire(self) -> ValModel {
        ValModel::Dict(self.wire_entries())
    }

    /// Whether decoded wire fields carry every required field with its
    /// declared type; unknown fields never disturb this, and absent
    /// fields with a declared default are allowed.
    pub open spec fn shape_ok(es: Seq<(Seq<char>, ValModel)>) -> bool {
        entries_get(es, "values"@) matches Some(v) && (v matches ValModel::Arr(a) && value::all_str_items(a))
    }

    /// Whether record `r` is the correct reading of wire fields `es`.
    pub open spec fn decodes_from(es: Seq<(Seq<char>, ValModel)>, r: ListRangeResponse) -> bool {
        entries_get(es, "values"@) matches Some(v) && (v matches ValModel::Arr(a) && value::str_items(a, r.values@))
    }

    /// Content equality: every field agrees.
    pub open spec fn eq_fields(a: ListRangeResponse, b: ListRangeResponse) -> bool {
        value::strs_eq(a.values@, b.values@)
    }

    /// Lowers the record to its wire value.
    pub fn to_val(&self) -> (v: Val)
        ensures
            v@ == self.wire(),
    {
        let mut es: Vec<(String, Val)> = Vec::new();
        es.push((String::from_str("values"), value::strings_to_val(&self.values)));
        proof {
            value::lemma_view_entries(es@);
            assert forall|i: int|
                0 <= i < es@.len() implies view_entries(es@)[i] == self.wire_entries()[i] by {
                assert(view_entries(es@)[i] == (es@[i].0@, es@[i].1@));
            }
            assert(view_entries(es@) =~= self.wire_entries());
        }
        Val::Dict(es)
    }

    /// Encodes the record through the canonical codec.
    pub fn encode(&self) -> (r: Result<Vec<u8>, EncodeError>)
        ensures
            match r {
                Ok(b) => wf(self.wire()) && b@ == enc(self.wire()),
                Err(e) => !wf(self.wire()) && e == EncodeError::Unencodable,
            },
    {
        let v = self.to_val();
        codec::encode_value(&v)
    }

    /// Lifts a decoded wire value into the record, filling defaults and
    /// ignoring unknown fields.
    pub fn from_val(v: &Val) -> (r: Result<ListRangeResponse, DecodeError>)
        ensures
            match r {
                Ok(rec) => v@ matches ValModel::Dict(es) && Self::shape_ok(es)
                    && Self::decodes_from(es, rec),
                Err(e) => match v@ {
                    ValModel::Dict(es) => !Self::shape_ok(es) && (e == DecodeError::MissingField
                        || e == DecodeError::TypeMismatch),
                    _ => e == DecodeError::TypeMismatch,
                },
            },
    {
        match v {
            Val::Dict(es) => {
                let values = match value::get_str_list(es, "values") {
                    Ok(x) => x,
                    Err(e) => return Err(e),
                };
                Ok(ListRangeResponse { values })
            },
            _ => Err(DecodeError::TypeMismatch),
        }
    }

    /// Decodes the record from its wire bytes.
    pub fn decode(bytes: &[u8]) -> (r: Result<ListRangeResponse, DecodeError>)
        ensures
            match r {
                Ok(rec) => dec_full(bytes@) matches Some(v) && (v matches ValModel::Dict(es)
                    && Self::shape_ok(es) && Self::decodes_from(es, rec)),
                Err(e) => match dec_full(bytes@) {
                    None => e == DecodeError::Malformed,
                    Some(v) => match v {
                        ValModel::Dict(es) => !Self::shape_ok(es) && (e
                            == DecodeError::MissingField || e == DecodeError::TypeMismatch),
                        _ => e == DecodeError::TypeMismatch,
                    },
                },
            },
    {
        let val = match codec::decode_value(bytes) {
            Ok(v) => v,
            Err(e) => return Err(e),
        };
        Self::from_val(&val)
    }

    /// Reading a record's own wire fields back yields the record: the
    /// encoder writes exactly what the decoder needs; and looking up
    /// any declared key finds exactly the field the encoder wrote.
    pub proof fn lemma_wire_round_trip(r: ListRangeResponse)
        ensures
            Self::shape_ok(r.wire_entries()),
            Self::decodes_from(r.wire_entries(), r),
            forall|i: int|
                0 <= i < r.wire_entries().len() ==> entries_get(
                    r.wire_entries(),
                    (#[trigger] r.wire_entries()[i]).0,
                ) == Some(r.wire_entries()[i].1),
    {
        reveal_strlit("values");
        let es = r.wire_entries();
        assert("values"@.len() == 6);
        value::lemma_entries_get_at(es, 0);
    }

    /// The wire fields of `r` pin the record: any correct reading of
    /// them agrees with `r` on every field.
    pub proof fn lemma_decode_agrees(r: ListRangeResponse, d: ListRangeResponse)
        requires
            Self::decodes_from(r.wire_entries(), d),
        ensures
            Self::eq_fields(d, r),
    {
        Self::lemma_wire_round_trip(r);
        let es = r.wire_entries();
        assert(entries_get(es, "values"@) == Some(ValModel::Arr(value::strs_items(r.values@)))) by {
            assert((es[0]).0 == "values"@);
        }
        assert forall|i: int|
            0 <= i < d.values@.len() implies (#[trigger] d.values@[i])@ == r.values@[i]@ by {
            assert(value::strs_items(r.values@)[i] == ValModel::Str(r.values@[i]@));
        }
    }

    /// The round-trip law: decoding the canonical encoding of `r`
    /// yields a record that agrees with `r` on every field.
    pub proof fn lemma_round_trip(r: ListRangeResponse, d: ListRangeResponse)
        requires
            wf(r.wire()),
            Self::decodes_from(r.wire_entries(), d),
        ensures
            dec_full(enc(r.wire())) == Some(r.wire()),
            Self::eq_fields(d, r),
    {
        codec::lemma_round_trip(r.wire());
        Self::lemma_decode_agrees(r, d);
    }

    /// Unknown-field tolerance: appending a field under a key this
    /// record does not declare changes neither its shape check nor
    /// what any record decodes to.
    pub proof fn lemma_unknown_field_tolerance(
        es: Seq<(Seq<char>, ValModel)>,
        k: Seq<char>,
        v: ValModel,
        d: ListRangeResponse,
    )
        requires
            k != "values"@,
        ensures
            Self::shape_ok(es.push((k, v))) == Self::shape_ok(es),
            Self::decodes_from(es.push((k, v)), d) == Self::decodes_from(es, d),
    {
        value::lemma_entries_get_push_other(es, "values"@, k, v);
    }
}

#[derive(Debug, PartialEq)]
pub struct ListResponse {
    pub new_count: i32,
}

impl ListResponse {
    /// The record's wire fields, in declaration order.
    pub open spec fn wire_entries(self) -> Seq<(Seq<char>, ValModel)> {
        seq![
            ("new_count"@, value::int_wire(self.new_count as int)),
        ]
    }

    /// The record's wire value.
    pub open spec fn wire(self) -> ValModel {
        ValModel::Dict(self.wire_entries())
    }

    /// Whether decoded wire fields carry every required field with its
    /// declared type; unknown fields never disturb this, and absent
    /// fields with a declared default are allowed.
    pub open spec fn shape_ok(es: Seq<(Seq<char>, ValModel)>) -> bool {
        entries_get(es, "new_count"@) matches Some(v) && value::is_i32(v)
    }

    /// Whether record `r` is the correct reading of wire fields `es`.
    pub open spec fn decodes_from(es: Seq<(Seq<char>, ValModel)>, r: ListResponse) -> bool {
        entries_get(es, "new_count"@) matches Some(v) && value::is_i32(v) && value::int_of(v) == r.new_count as int
    }

    /// Content equality: every field agrees.
    pub open spec fn eq_fields(a: ListResponse, b: ListResponse) -> bool {
        a.new_count == b.new_count
    }

    /// Lowers the record to its wire value.
    pub fn to_val(&self) -> (v: Val)
        ensures
            v@ == self.wire(),
    {
        let mut es: Vec<(String, Val)> = Vec::new();
        es.push((String::from_str("new_count"), value::int_to_val(self.new_count as i64)));
        proof {
            value::lemma_view_entries(es@);
            assert forall|i: int|
                0 <= i < es@.len() implies view_entries(es@)[i] == self.wire_entries()[i] by {
                assert(view_entries(es@)[i] == (es@[i].0@, es@[i].1@));
            }
            assert(view_entries(es@) =~= self.wire_entries());
        }
        Val::Dict(es)
    }

    /// Encodes the record through the canonical codec.
    pub fn encode(&self) -> (r: Result<Vec<u8>, EncodeError>)
        ensures
            match r {
                Ok(b) => wf(self.wire()) && b@ == enc(self.wire()),
                Err(e) => !wf(self.wire()) && e == EncodeError::Unencodable,
            },
    {
        let v = self.to_val();
        codec::encode_value(&v)
    }

    /// Lifts a decoded wire value into the record, filling defaults and
    /// ignoring unknown fields.
    pub fn from_val(v: &Val) -> (r: Result<ListResponse, DecodeError>)
        ensures
            match r {
                Ok(rec) => v@ matches ValModel::Dict(es) && Self::shape_ok(es)
                    && Self::decodes_from(es, rec),
                Err(e) => match v@ {
                    ValModel::Dict(es) => !Self::shape_ok(es) && (e == DecodeError::MissingField
                        || e == DecodeError::TypeMismatch),
                    _ => e == DecodeError::TypeMismatch,
                },
            },
    {
        match v {
            Val::Dict(es) => {
                let new_count = match value::get_i32(es, "new_count") {
                    Ok(x) => x,
                    Err(e) => return Err(e),
                };
                Ok(ListResponse { new_count })
            },
            _ => Err(DecodeError::TypeMismatch),
        }
    }

    /// Decodes the record from its wire bytes.
    pub fn decode(bytes: &[u8]) -> (r: Result<ListResponse, DecodeError>)
        ensures
            match r {
                Ok(rec) => dec_full(bytes@) matches Some(v) && (v matches ValModel::Dict(es)
                    && Self::shape_ok(es) && Self::decodes_from(es, rec)),
                Err(e) => match dec_full(bytes@) {
                    None => e == DecodeError::Malformed,
                    Some(v) => match v {
                        ValModel::Dict(es) => !Self::shape_ok(es) && (e
                            == DecodeError::MissingField || e == DecodeError::TypeMismatch),
                        _ => e == DecodeError::TypeMismatch,
                    },
                },
            },
    {
        let val = match codec::decode_value(bytes) {
            Ok(v) => v,
            Err(e) => return Err(e),
        };
        Self::from_val(&val)
    }

    /// Reading a record's own wire fields back yields the record: the
    /// encoder writes exactly what the decoder needs; and looking up
    /// any declared key finds exactly the field the encoder wrote.
    pub proof fn lemma_wire_round_trip(r: ListResponse)
        ensures
            Self::shape_ok(r.wire_entries()),
            Self::decodes_from(r.wire_entries(), r),
            forall|i: int|
                0 <= i < r.wire_entries().len() ==> entries_get(
                    r.wire_entries(),
                    (#[trigger] r.wire_entries()[i]).0,
                ) == Some(r.wire_entries()[i].1),
    {
        reveal_strlit("new_count");
        let es = r.wire_entries();
        assert("new_count"@.len() == 9);
        value::lemma_entries_get_at(es, 0);
    }

    /// The wire fields of `r` pin the record: any correct reading of
    /// them agrees with `r` on every field.
    pub proof fn lemma_decode_agrees(r: ListResponse, d: ListResponse)
        requires
            Self::decodes_from(r.wire_entries(), d),
        ensures
            Self::eq_fields(d, r),
    {
        Self::lemma_wire_round_trip(r);
        let es = r.wire_entries();
        assert(entries_get(es, "new_count"@) == Some(value::int_wire(r.new_count as int))) by {
            assert((es[0]).0 == "new_count"@);
        }
    }

    /// The round-trip law: decoding the canonical encoding of `r`
    /// yields a record that agrees with `r` on every field.
    pub proof fn lemma_round_trip(r: ListResponse, d: ListResponse)
        requires
            wf(r.wire()),
            Self::decodes_from(r.wire_entries(), d),
        ensures
            dec_full(enc(r.wire())) == Some(r.wire()),
            Self::eq_fields(d, r),
    {
        codec::lemma_round_trip(r.wire());
        Self::lemma_decode_agrees(r, d);
    }

    /// Unknown-field tolerance: appending a field under a key this
    /// record does not declare changes neither its shape check nor
    /// what any record decodes to.
    pub proof fn lemma_unknown_field_tolerance(
        es: Seq<(Seq<char>, ValModel)>,
        k: Seq<char>,
        v: ValModel,
        d: ListResponse,
    )
        requires
            k != "new_count"@,
        ensures
            Self::shape_ok(es.push((k, v))) == Self::shape_ok(es),
            Self::decodes_from(es.push((k, v)), d) == Self::decodes_from(es, d),
    {
        value::lemma_entries_get_push_other(es, "new_count"@, k, v);
    }
}

#[derive(Debug, PartialEq)]
pub struct SetAddRequest {
    pub key: String,
    pub value: String,
}

impl SetAddRequest {
    /// The record's wire fields, in declaration order.
    pub open spec fn wire_entries(self) -> Seq<(Seq<char>, ValModel)> {
        seq![
            ("key"@, ValModel::Str(self.key@)),
            ("value"@, ValModel::Str(self.value@)),
        ]
    }

    /// The record's wire value.
    pub open spec fn wire(self) -> ValModel {
        ValModel::Dict(self.wire_entries())
    }

    /// Whether decoded wire fields carry every required field with its
    /// declared type; unknown fields never disturb this, and absent
    /// fields with a declared default are allowed.
    pub open spec fn shape_ok(es: Seq<(Seq<char>, ValModel)>) -> bool {
        &&& entries_get(es, "key"@) matches Some(v) && v is Str
        &&& entries_get(es, "value"@) matches Some(v) && v is Str
    }

    /// Whether record `r` is the correct reading of wire fields `es`.
    pub open spec fn decodes_from(es: Seq<(Seq<char>, ValModel)>, r: SetAddRequest) -> bool {
        &&& entries_get(es, "key"@) == Some(ValModel::Str(r.key@))
        &&& entries_get(es, "value"@) == Some(ValModel::Str(r.value@))
    }

    /// Content equality: every field agrees.
    pub open spec fn eq_fields(a: SetAddRequest, b: SetAddRequest) -> bool {
        &&& a.key@ == b.key@
        &&& a.value@ == b.value@
    }

    /// Lowers the record to its wire value.
    pub fn to_val(&self) -> (v: Val)
        ensures
            v@ == self.wire(),
    {
        let mut es: Vec<(String, Val)> = Vec::new();
        es.push((String::from_str("key"), Val::Str(self.key.clone())));
        es.push((String::from_str("value"), Val::Str(self.value.clone())));
        proof {
            value::lemma_view_entries(es@);
            assert forall|i: int|
                0 <= i < es@.len() implies view_entries(es@)[i] == self.wire_entries()[i] by {
                assert(view_entries(es@)[i] == (es@[i].0@, es@[i].1@));
            }
            assert(view_entries(es@) =~= self.wire_entries());
        }
        Val::Dict(es)
    }

    /// Encodes the record through the canonical codec.
    pub fn encode(&self) -> (r: Result<Vec<u8>, EncodeError>)
        ensures
            match r {
                Ok(b) => wf(self.wire()) && b@ == enc(self.wire()),
                Err(e) => !wf(self.wire()) && e == EncodeError::Unencodable,
            },
    {
        let v = self.to_val();
        codec::encode_value(&v)
    }

    /// Lifts a decoded wire value into the record, filling defaults and
    /// ignoring unknown fields.
    pub fn from_val(v: &Val) -> (r: Result<SetAddRequest, DecodeError>)
        ensures
            match r {
                Ok(rec) => v@ matches ValModel::Dict(es) && Self::shape_ok(es)
                    && Self::decodes_from(es, rec),
                Err(e) => match v@ {
                    ValModel::Dict(es) => !Self::shape_ok(es) && (e == DecodeError::MissingField
                        || e == DecodeError::TypeMismatch),
                    _ => e == DecodeError::TypeMismatch,
                },
            },
    {
        match v {
            Val::Dict(es) => {
                let key = match value::get_str(es, "key") {
                    Ok(x) => x,
                    Err(e) => return Err(e),
                };
                let value = match value::get_str(es, "value") {
                    Ok(x) => x,
                    Err(e) => return Err(e),
                };
                Ok(SetAddRequest { key, value })
            },
            _ => Err(DecodeError::TypeMismatch),
        }
    }

    /// Decodes the record from its wire bytes.
    pub fn decode(bytes: &[u8]) -> (r: Result<SetAddRequest, DecodeError>)
        ensures
            match r {
                Ok(rec) => dec_full(bytes@) matches Some(v) && (v matches ValModel::Dict(es)
                    && Self::shape_ok(es) && Self::decodes_from(es, rec)),
                Err(e) => match dec_full(bytes@) {
                    None => e == DecodeError::Malformed,
                    Some(v) => match v {
                        ValModel::Dict(es) => !Self::shape_ok(es) && (e
                            == DecodeError::MissingField || e == DecodeError::TypeMismatch),
                        _ => e == DecodeError::TypeMismatch,
                    },
                },
            },
    {
        let val = match codec::decode_value(bytes) {
            Ok(v) => v,
            Err(e) => return Err(e),
        };
        Self::from_val(&val)
    }

    /// Reading a record's own wire fields back yields the record: the
    /// encoder writes exactly what the decoder needs; and looking up
    /// any declared key finds exactly the field the encoder wrote.
    pub proof fn lemma_wire_round_trip(r: SetAddRequest)
        ensures
            Self::shape_ok(r.wire_entries()),
            Self::decodes_from(r.wire_entries(), r),
            forall|i: int|
                0 <= i < r.wire_entries().len() ==> entries_get(
                    r.wire_entries(),
                    (#[trigger] r.wire_entries()[i]).0,
                ) == Some(r.wire_entries()[i].1),
    {
        reveal_strlit("key");
        reveal_strlit("value");
        let es = r.wire_entries();
        assert("key"@.len() == 3);
        assert("value"@.len() == 5);
        value::lemma_entries_get_at(es, 0);
        value::lemma_entries_get_at(es, 1);
    }

    /// The wire fields of `r` pin the record: any correct reading of
    /// them agrees with `r` on every field.
    pub proof fn lemma_decode_agrees(r: SetAddRequest, d: SetAddRequest)
        requires
            Self::decodes_from(r.wire_entries(), d),
        ensures
            Self::eq_fields(d, r),
    {
        Self::lemma_wire_round_trip(r);
        let es = r.wire_entries();
        assert(entries_get(es, "key"@) == Some(ValModel::Str(r.key@))) by {
            assert((es[0]).0 == "key"@);
        }
        assert(entries_get(es, "value"@) == Some(ValModel::Str(r.value@))) by {
            assert((es[1]).0 == "value"@);
        }
    }

    /// The round-trip law: decoding the canonical encoding of `r`
    /// yields a record that agrees with `r` on every field.
    pub proof fn lemma_round_trip(r: SetAddRequest, d: SetAddRequest)
        requires
            wf(r.wire()),
            Self::decodes_from(r.wire_entries(), d),
        ensures
            dec_full(enc(r.wire())) == Some(r.wire()),
            Self::eq_fields(d, r),
    {
        codec::lemma_round_trip(r.wire());
        Self::lemma_decode_agrees(r, d);
    }

    /// Unknown-field tolerance: appending a field under a key this
    /// record does not declare changes neither its shape check nor
    /// what any record decodes to.
    pub proof fn lemma_unknown_field_tolerance(
        es: Seq<(Seq<char>, ValModel)>,
        k: Seq<char>,
        v: ValModel,
        d: SetAddRequest,
    )
        requires
            k != "key"@,
            k != "value"@,
        ensures
            Self::shape_ok(es.push((k, v))) == Self::shape_ok(es),
            Self::decodes_from(es.push((k, v)), d) == Self::decodes_from(es, d),
    {
        value::lemma_entries_get_push_other(es, "key"@, k, v);
        value::lemma_entries_get_push_other(es, "value"@, k, v);
    }
}

#[derive(Debug, PartialEq)]
pub struct SetRemoveRequest {
    pub key: String,
    pub value: String,
}

impl SetRemoveRequest {
    /// The record's wire fields, in declaration order.
    pub open spec fn wire_entries(self) -> Seq<(Seq<char>, ValModel)> {
        seq![
            ("key"@, ValModel::Str(self.key@)),
            ("value"@, ValModel::Str(self.value@)),
        ]
    }

    /// The record's wire value.
    pub open spec fn wire(self) -> ValModel {
        ValModel::Dict(self.wire_entries())
    }

    /// Whether decoded wire fields carry every required field with its
    /// declared type; unknown fields never disturb this, and absent
    /// fields with a declared default are allowed.
    pub open spec fn shape_ok(es: Seq<(Seq<char>, ValModel)>) -> bool {
        &&& entries_get(es, "key"@) matches Some(v) && v is Str
        &&& entries_get(es, "value"@) matches Some(v) && v is Str
    }

    /// Whether record `r` is the correct reading of wire fields `es`.
    pub open spec fn decodes_from(es: Seq<(Seq<char>, ValModel)>, r: SetRemoveRequest) -> bool {
        &&& entries_get(es, "key"@) == Some(ValModel::Str(r.key@))
        &&& entries_get(es, "value"@) == Some(ValModel::Str(r.value@))
    }

    /// Content equality: every field agrees.
    pub open spec fn eq_fields(a: SetRemoveRequest, b: SetRemoveRequest) -> bool {
        &&& a.key@ == b.key@
        &&& a.value@ == b.value@
    }

    /// Lowers the record to its wire value.
    pub fn to_val(&self) -> (v: Val)
        ensures
            v@ == self.wire(),
    {
        let mut es: Vec<(String, Val)> = Vec::new();
        es.push((String::from_str("key"), Val::Str(self.key.clone())));
        es.push((String::from_str("value"), Val::Str(self.value.clone())));
        proof {
            value::lemma_view_entries(es@);
            assert forall|i: int|
                0 <= i < es@.len() implies view_entries(es@)[i] == self.wire_entries()[i] by {
                assert(view_entries(es@)[i] == (es@[i].0@, es@[i].1@));
            }
            assert(view_entries(es@) =~= self.wire_entries());
        }
        Val::Dict(es)
    }

    /// Encodes the record through the canonical codec.
    pub fn encode(&self) -> (r: Result<Vec<u8>, EncodeError>)
        ensures
            match r {
                Ok(b) => wf(self.wire()) && b@ == enc(self.wire()),
                Err(e) => !wf(self.wire()) && e == EncodeError::Unencodable,
            },
    {
        let v = self.to_val();
        codec::encode_value(&v)
    }

    /// Lifts a decoded wire value into the record, filling defaults and
    /// ignoring unknown fields.
    pub fn from_val(v: &Val) -> (r: Result<SetRemoveRequest, DecodeError>)
        ensures
            match r {
                Ok(rec) => v@ matches ValModel::Dict(es) && Self::shape_ok(es)
                    && Self::decodes_from(es, rec),
                Err(e) => match v@ {
                    ValModel::Dict(es) => !Self::shape_ok(es) && (e == DecodeError::MissingField
                        || e == DecodeError::TypeMismatch),
                    _ => e == DecodeError::TypeMismatch,
                },
            },
    {
        match v {
            Val::Dict(es) => {
                let key = match value::get_str(es, "key") {
                    Ok(x) => x,
                    Err(e) => return Err(e),
                };
                let value = match value::get_str(es, "value") {
                    Ok(x) => x,
                    Err(e) => return Err(e),
                };
                Ok(SetRemoveRequest { key, value })
            },
            _ => Err(DecodeError::TypeMismatch),
        }
    }

    /// Decodes the record from its wire bytes.
    pub fn decode(bytes: &[u8]) -> (r: Result<SetRemoveRequest, DecodeError>)
        ensures
            match r {
                Ok(rec) => dec_full(bytes@) matches Some(v) && (v matches ValModel::Dict(es)
                    && Self::shape_ok(es) && Self::decodes_from(es, rec)),
                Err(e) => match dec_full(bytes@) {
                    None => e == DecodeError::Malformed,
                    Some(v) => match v {
                        ValModel::Dict(es) => !Self::shape_ok(es) && (e
                            == DecodeError::MissingField || e == DecodeError::TypeMismatch),
                        _ => e == DecodeError::TypeMismatch,
                    },
                },
            },
    {
        let val = match codec::decode_value(bytes) {
            Ok(v) => v,
            Err(e) => return Err(e),
        };
        Self::from_val(&val)
    }

    /// Reading a record's own wire fields back yields the record: the
    /// encoder writes exactly what the decoder needs; and looking up
    /// any declared key finds exactly the field the encoder wrote.
    pub proof fn lemma_wire_round_trip(r: SetRemoveRequest)
        ensures
            Self::shape_ok(r.wire_entries()),
            Self::decodes_from(r.wire_entries(), r),
            forall|i: int|
                0 <= i < r.wire_entries().len() ==> entries_get(
                    r.wire_entries(),
                    (#[trigger] r.wire_entries()[i]).0,
                ) == Some(r.wire_entries()[i].1),
    {
        reveal_strlit("key");
        reveal_strlit("value");
        let es = r.wire_entries();
        assert("key"@.len() == 3);
        assert("value"@.len() == 5);
        value::lemma_entries_get_at(es, 0);
        value::lemma_entries_get_at(es, 1);
    }

    /// The wire fields of `r` pin the record: any correct reading of
    /// them agrees with `r` on every field.
    pub proof fn lemma_decode_agrees(r: SetRemoveRequest, d: SetRemoveRequest)
        requires
            Self::decodes_from(r.wire_entries(), d),
        ensures
            Self::eq_fields(d, r),
    {
        Self::lemma_wire_round_trip(r);
        let es = r.wire_entries();
        assert(entries_get(es, "key"@) == Some(ValModel::Str(r.key@))) by {
            assert((es[0]).0 == "key"@);
        }
        assert(entries_get(es, "value"@) == Some(ValModel::Str(r.value@))) by {
            assert((es[1]).0 == "value"@);
        }
    }

    /// The round-trip law: decoding the canonical encoding of `r`
    /// yields a record that agrees with `r` on every field.
    pub proof fn lemma_round_trip(r: SetRemoveRequest, d: SetRemoveRequest)
        requires
            wf(r.wire()),
            Self::decodes_from(r.wire_entries(), d),
        ensures
            dec_full(enc(r.wire())) == Some(r.wire()),
            Self::eq_fields(d, r),
    {
        codec::lemma_round_trip(r.wire());
        Self::lemma_decode_agrees(r, d);
    }

    /// Unknown-field tolerance: appending a field under a key this
    /// record does not declare changes neither its shape check nor
    /// what any record decodes to.
    pub proof fn lemma_unknown_field_tolerance(
        es: Seq<(Seq<char>, ValModel)>,
        k: Seq<char>,
        v: ValModel,
        d: SetRemoveRequest,
    )
        requires
            k != "key"@,
            k != "value"@,
        ensures
            Self::shape_ok(es.push((k, v))) == Self::shape_ok(es),
            Self::decodes_from(es.push((k, v)), d) == Self::decodes_from(es, d),
    {
        value::lemma_entries_get_push_other(es, "key"@, k, v);
        value::lemma_entries_get_push_other(es, "value"@, k, v);
    }
}

#[derive(Debug, PartialEq)]
pub struct SetQueryRequest {
    pub key: String,
}

impl SetQueryRequest {
    /// The record's wire fields, in declaration order.
    pub open spec fn wire_entries(self) -> Seq<(Seq<char>, ValModel)> {
        seq![
            ("key"@, ValModel::Str(self.key@)),
        ]
    }

    /// The record's wire value.
    pub open spec fn wire(self) -> ValModel {
        ValModel::Dict(self.wire_entries())
    }

    /// Whether decoded wire fields carry every required field with its
    /// declared type; unknown fields never disturb this, and absent
    /// fields with a declared default are allowed.
    pub open spec fn shape_ok(es: Seq<(Seq<char>, ValModel)>) -> bool {
        entries_get(es, "key"@) matches Some(v) && v is Str
    }

    /// Whether record `r` is the correct reading of wire fields `es`.
    pub open spec fn decodes_from(es: Seq<(Seq<char>, ValModel)>, r: SetQueryRequest) -> bool {
        entries_get(es, "key"@) == Some(ValModel::Str(r.key@))
    }

    /// Content equality: every field agrees.
    pub open spec fn eq_fields(a: SetQueryRequest, b: SetQueryRequest) -> bool {
        a.key@ == b.key@
    }

    /// Lowers the record to its wire value.
    pub fn to_val(&self) -> (v: Val)
        ensures
            v@ == self.wire(),
    {
        let mut es: Vec<(String, Val)> = Vec::new();
        es.push((String::from_str("key"), Val::Str(self.key.clone())));
        proof {
            value::lemma_view_entries(es@);
            assert forall|i: int|
                0 <= i < es@.len() implies view_entries(es@)[i] == self.wire_entries()[i] by {
                assert(view_entries(es@)[i] == (es@[i].0@, es@[i].1@));
            }
            assert(view_entries(es@) =~= self.wire_entries());
        }
        Val::Dict(es)
    }

    /// Encodes the record through the canonical codec.
    pub fn encode(&self) -> (r: Result<Vec<u8>, EncodeError>)
        ensures
            match r {
                Ok(b) => wf(self.wire()) && b@ == enc(self.wire()),
                Err(e) => !wf(self.wire()) && e == EncodeError::Unencodable,
            },
    {
        let v = self.to_val();
        codec::encode_value(&v)
    }

    /// Lifts a decoded wire value into the record, filling defaults and
    /// ignoring unknown fields.
    pub fn from_val(v: &Val) -> (r: Result<SetQueryRequest, DecodeError>)
        ensures
            match r {
                Ok(rec) => v@ matches ValModel::Dict(es) && Self::shape_ok(es)
                    && Self::decodes_from(es, rec),
                Err(e) => match v@ {
                    ValModel::Dict(es) => !Self::shape_ok(es) && (e == DecodeError::MissingField
                        || e == DecodeError::TypeMismatch),
                    _ => e == DecodeError::TypeMismatch,
                },
            },
    {
        match v {
            Val::Dict(es) => {
                let key = match value::get_str(es, "key") {
                    Ok(x) => x,
                    Err(e) => return Err(e),
                };
                Ok(SetQueryRequest { key })
            },
            _ => Err(DecodeError::TypeMismatch),
        }
    }

    /// Decodes the record from its wire bytes.
    pub fn decode(bytes: &[u8]) -> (r: Result<SetQueryRequest, DecodeError>)
        ensures
            match r {
                Ok(rec) => dec_full(bytes@) matches Some(v) && (v matches ValModel::Dict(es)
                    && Self::shape_ok(es) && Self::decodes_from(es, rec)),
                Err(e) => match dec_full(bytes@) {
                    None => e == DecodeError::Malformed,
                    Some(v) => match v {
                        ValModel::Dict(es) => !Self::shape_ok(es) && (e
                            == DecodeError::MissingField || e == DecodeError::TypeMismatch),
                        _ => e == DecodeError::TypeMismatch,
                    },
                },
            },
    {
        let val = match codec::decode_value(bytes) {
            Ok(v) => v,
            Err(e) => return Err(e),
        };
        Self::from_val(&val)
    }

    /// Reading a record's own wire fields back yields the record: the
    /// encoder writes exactly what the decoder needs; and looking up
    /// any declared key finds exactly the field the encoder wrote.
    pub proof fn lemma_wire_round_trip(r: SetQueryRequest)
        ensures
            Self::shape_ok(r.wire_entries()),
            Self::decodes_from(r.wire_entries(), r),
            forall|i: int|
                0 <= i < r.wire_entries().len() ==> entries_get(
                    r.wire_entries(),
                    (#[trigger] r.wire_entries()[i]).0,
                ) == Some(r.wire_entries()[i].1),
    {
        reveal_strlit("key");
        let es = r.wire_entries();
        assert("key"@.len() == 3);
        value::lemma_entries_get_at(es, 0);
    }

    /// The wire fields of `r` pin the record: any correct reading of
    /// them agrees with `r` on every field.
    pub proof fn lemma_decode_agrees(r: SetQueryRequest, d: SetQueryRequest)
        requires
            Self::decodes_from(r.wire_entries(), d),
        ensures
            Self::eq_fields(d, r),
    {
        Self::lemma_wire_round_trip(r);
        let es = r.wire_entries();
        assert(entries_get(es, "key"@) == Some(ValModel::Str(r.key@))) by {
            assert((es[0]).0 == "key"@);
        }
    }

    /// The round-trip law: decoding the canonical encoding of `r`
    /// yields a record that agrees with `r` on every field.
    pub proof fn lemma_round_trip(r: SetQueryRequest, d: SetQueryRequest)
        requires
            wf(r.wire()),
            Self::decodes_from(r.wire_entries(), d),
        ensures
            dec_full(enc(r.wire())) == Some(r.wire()),
            Self::eq_fields(d, r),
    {
        codec::lemma_round_trip(r.wire());
        Self::lemma_decode_agrees(r, d);
    }

    /// Unknown-field tolerance: appending a field under a key this
    /// record does not declare changes neither its shape check nor
    /// what any record decodes to.
    pub proof fn lemma_unknown_field_tolerance(
        es: Seq<(Seq<char>, ValModel)>,
        k: Seq<char>,
        v: ValModel,
        d: SetQueryRequest,
    )
        requires
            k != "key"@,
        ensures
            Self::shape_ok(es.push((k, v))) == Self::shape_ok(es),
            Self::decodes_from(es.push((k, v)), d) == Self::decodes_from(es, d),
    {
        value::lemma_entries_get_push_other(es, "key"@, k, v);
    }
}

#[derive(Debug, PartialEq)]
pub struct SetQueryResponse {
    pub values: Vec<String>,
}

impl SetQueryResponse {
    /// The record's wire fields, in declaration order.
    pub open spec fn wire_entries(self) -> Seq<(Seq<char>, ValModel)> {
        seq![
            ("values"@, ValModel::Arr(value::strs_items(self.values@))),
        ]
    }

    /// The record's wire value.
    pub open spec fn wire(self) -> ValModel {
        ValModel::Dict(self.wire_entries())
    }

    /// Whether decoded wire fields carry every required field with its
    /// declared type; unknown fields never disturb this, and absent
    /// fields with a declared default are allowed.
    pub open spec fn shape_ok(es: Seq<(Seq<char>, ValModel)>) -> bool {
        entries_get(es, "values"@) matches Some(v) && (v matches ValModel::Arr(a) && value::all_str_items(a))
    }

    /// Whether record `r` is the correct reading of wire fields `es`.
    pub open spec fn decodes_from(es: Seq<(Seq<char>, ValModel)>, r: SetQueryResponse) -> bool {
        entries_get(es, "values"@) matches Some(v) && (v matches ValModel::Arr(a) && value::str_items(a, r.values@))
    }

    /// Content equality: every field agrees.
    pub open spec fn eq_fields(a: SetQueryResponse, b: SetQueryResponse) -> bool {
        value::strs_eq(a.values@, b.values@)
    }

    /// Lowers the record to its wire value.
    pub fn to_val(&self) -> (v: Val)
        ensures
            v@ == self.wire(),
    {
        let mut es: Vec<(String, Val)> = Vec::new();
        es.push((String::from_str("values"), value::strings_to_val(&self.values)));
        proof {
            value::lemma_view_entries(es@);
            assert forall|i: int|
                0 <= i < es@.len() implies view_entries(es@)[i] == self.wire_entries()[i] by {
                assert(view_entries(es@)[i] == (es@[i].0@, es@[i].1@));
            }
            assert(view_entries(es@) =~= self.wire_entries());
        }
        Val::Dict(es)
    }

    /// Encodes the record through the canonical codec.
    pub fn encode(&self) -> (r: Result<Vec<u8>, EncodeError>)
        ensures
            match r {
                Ok(b) => wf(self.wire()) && b@ == enc(self.wire()),
                Err(e) => !wf(self.wire()) && e == EncodeError::Unencodable,
            },
    {
        let v = self.to_val();
        codec::encode_value(&v)
    }

    /// Lifts a decoded wire value into the record, filling defaults and
    /// ignoring unknown fields.
    pub fn from_val(v: &Val) -> (r: Result<SetQueryResponse, DecodeError>)
        ensures
            match r {
                Ok(rec) => v@ matches ValModel::Dict(es) && Self::shape_ok(es)
                    && Self::decodes_from(es, rec),
                Err(e) => match v@ {
                    ValModel::Dict(es) => !Self::shape_ok(es) && (e == DecodeError::MissingField
                        || e == DecodeError::TypeMismatch),
                    _ => e == DecodeError::TypeMismatch,
                },
            },
    {
        match v {
            Val::Dict(es) => {
                let values = match value::get_str_list(es, "values") {
                    Ok(x) => x,
                    Err(e) => return Err(e),
                };
                Ok(SetQueryResponse { values })
            },
            _ => Err(DecodeError::TypeMismatch),
        }
    }

    /// Decodes the record from its wire bytes.
    pub fn decode(bytes: &[u8]) -> (r: Result<SetQueryResponse, DecodeError>)
        ensures
            match r {
                Ok(rec) => dec_full(bytes@) matches Some(v) && (v matches ValModel::Dict(es)
                    && Self::shape_ok(es) && Self::decodes_from(es, rec)),
                Err(e) => match dec_full(bytes@) {
                    None => e == DecodeError::Malformed,
                    Some(v) => match v {
                        ValModel::Dict(es) => !Self::shape_ok(es) && (e
                            == DecodeError::MissingField || e == DecodeError::TypeMismatch),
                        _ => e == DecodeError::TypeMismatch,
                    },
                },
            },
    {
        let val = match codec::decode_value(bytes) {
            Ok(v) => v,
            Err(e) => return Err(e),
        };
        Self::from_val(&val)
    }

    /// Reading a record's own wire fields back yields the record: the
    /// encoder writes exactly what the decoder needs; and looking up
    /// any declared key finds exactly the field the encoder wrote.
    pub proof fn lemma_wire_round_trip(r: SetQueryResponse)
        ensures
            Self::shape_ok(r.wire_entries()),
            Self::decodes_from(r.wire_entries(), r),
            forall|i: int|
                0 <= i < r.wire_entries().len() ==> entries_get(
                    r.wire_entries(),
                    (#[trigger] r.wire_entries()[i]).0,
                ) == Some(r.wire_entries()[i].1),
    {
        reveal_strlit("values");
        let es = r.wire_entries();
        assert("values"@.len() == 6);
        value::lemma_entries_get_at(es, 0);
    }

    /// The wire fields of `r` pin the record: any correct reading of
    /// them agrees with `r` on every field.
    pub proof fn lemma_decode_agrees(r: SetQueryResponse, d: SetQueryResponse)
        requires
            Self::decodes_from(r.wire_entries(), d),
        ensures
            Self::eq_fields(d, r),
    {
        Self::lemma_wire_round_trip(r);
        let es = r.wire_entries();
        assert(entries_get(es, "values"@) == Some(ValModel::Arr(value::strs_items(r.values@)))) by {
            assert((es[0]).0 == "values"@);
        }
        assert forall|i: int|
            0 <= i < d.values@.len() implies (#[trigger] d.values@[i])@ == r.values@[i]@ by {
            assert(value::strs_items(r.values@)[i] == ValModel::Str(r.values@[i]@));
        }
    }

    /// The round-trip law: decoding the canonical encoding of `r`
    /// yields a record that agrees with `r` on every field.
    pub proof fn lemma_round_trip(r: SetQueryResponse, d: SetQueryResponse)
        requires
            wf(r.wire()),
            Self::decodes_from(r.wire_entries(), d),
        ensures
            dec_full(enc(r.wire())) == Some(r.wire()),
            Self::eq_fields(d, r),
    {
        codec::lemma_round_trip(r.wire());
        Self::lemma_decode_agrees(r, d);
    }

    /// Unknown-field tolerance: appending a field under a key this
    /// record does not declare changes neither its shape check nor
    /// what any record decodes to.
    pub proof fn lemma_unknown_field_tolerance(
        es: Seq<(Seq<char>, ValModel)>,
        k: Seq<char>,
        v: ValModel,
        d: SetQueryResponse,
    )
        requires
            k != "values"@,
        ensures
            Self::shape_ok(es.push((k, v))) == Self::shape_ok(es),
            Self::decodes_from(es.push((k, v)), d) == Self::decodes_from(es, d),
    {
        value::lemma_entries_get_push_other(es, "values"@, k, v);
    }
}

#[derive(Debug, PartialEq)]
pub struct SetIntersectionRequest {
    pub keys: Vec<String>,
}

impl SetIntersectionRequest {
    /// The record's wire fields, in declaration order.
    pub open spec fn wire_entries(self) -> Seq<(Seq<char>, ValModel)> {
        seq![
            ("keys"@, ValModel::Arr(value::strs_items(self.keys@))),
        ]
    }

    /// The record's wire value.
    pub open spec fn wire(self) -> ValModel {
        ValModel::Dict(self.wire_entries())
    }

    /// Whether decoded wire fields carry every required field with its
    /// declared type; unknown fields never disturb this, and absent
    /// fields with a declared default are allowed.
    pub open spec fn shape_ok(es: Seq<(Seq<char>, ValModel)>) -> bool {
        entries_get(es, "keys"@) matches Some(v) && (v matches ValModel::Arr(a) && value::all_str_items(a))
    }

    /// Whether record `r` is the correct reading of wire fields `es`.
    pub open spec fn decodes_from(es: Seq<(Seq<char>, ValModel)>, r: SetIntersectionRequest) -> bool {
        entries_get(es, "keys"@) matches Some(v) && (v matches ValModel::Arr(a) && value::str_items(a, r.keys@))
    }

    /// Content equality: every field agrees.
    pub open spec fn eq_fields(a: SetIntersectionRequest, b: SetIntersectionRequest) -> bool {
        value::strs_eq(a.keys@, b.keys@)
    }

    /// Lowers the record to its wire value.
    pub fn to_val(&self) -> (v: Val)
        ensures
            v@ == self.wire(),
    {
        let mut es: Vec<(String, Val)> = Vec::new();
        es.push((String::from_str("keys"), value::strings_to_val(&self.keys)));
        proof {
            value::lemma_view_entries(es@);
            assert forall|i: int|
                0 <= i < es@.len() implies view_entries(es@)[i] == self.wire_entries()[i] by {
                assert(view_entries(es@)[i] == (es@[i].0@, es@[i].1@));
            }
            assert(view_entries(es@) =~= self.wire_entries());
        }
        Val::Dict(es)
    }

    /// Encodes the record through the canonical codec.
    pub fn encode(&self) -> (r: Result<Vec<u8>, EncodeError>)
        ensures
            match r {
                Ok(b) => wf(self.wire()) && b@ == enc(self.wire()),
                Err(e) => !wf(self.wire()) && e == EncodeError::Unencodable,
            },
    {
        let v = self.to_val();
        codec::encode_value(&v)
    }

    /// Lifts a decoded wire value into the record, filling defaults and
    /// ignoring unknown fields.
    pub fn from_val(v: &Val) -> (r: Result<SetIntersectionRequest, DecodeError>)
        ensures
            match r {
                Ok(rec) => v@ matches ValModel::Dict(es) && Self::shape_ok(es)
                    && Self::decodes_from(es, rec),
                Err(e) => match v@ {
                    ValModel::Dict(es) => !Self::shape_ok(es) && (e == DecodeError::MissingField
                        || e == DecodeError::TypeMismatch),
                    _ => e == DecodeError::TypeMismatch,
                },
            },
    {
        match v {
            Val::Dict(es) => {
                let keys = match value::get_str_list(es, "keys") {
                    Ok(x) => x,
                    Err(e) => return Err(e),
                };
                Ok(SetIntersectionRequest { keys })
            },
            _ => Err(DecodeError::TypeMismatch),
        }
    }

    /// Decodes the record from its wire bytes.
    pub fn decode(bytes: &[u8]) -> (r: Result<SetIntersectionRequest, DecodeError>)
        ensures
            match r {
                Ok(rec) => dec_full(bytes@) matches Some(v) && (v matches ValModel::Dict(es)
                    && Self::shape_ok(es) && Self::decodes_from(es, rec)),
                Err(e) => match dec_full(bytes@) {
                    None => e == DecodeError::Malformed,
                    Some(v) => match v {
                        ValModel::Dict(es) => !Self::shape_ok(es) && (e
                            == DecodeError::MissingField || e == DecodeError::TypeMismatch),
                        _ => e == DecodeError::TypeMismatch,
                    },
                },
            },
    {
        let val = match codec::decode_value(bytes) {
            Ok(v) => v,
            Err(e) => return Err(e),
        };
        Self::from_val(&val)
    }

    /// Reading a record's own wire fields back yields the record: the
    /// encoder writes exactly what the decoder needs; and looking up
    /// any declared key finds exactly the field the encoder wrote.
    pub proof fn lemma_wire_round_trip(r: SetIntersectionRequest)
        ensures
            Self::shape_ok(r.wire_entries()),
            Self::decodes_from(r.wire_entries(), r),
            forall|i: int|
                0 <= i < r.wire_entries().len() ==> entries_get(
                    r.wire_entries(),
                    (#[trigger] r.wire_entries()[i]).0,
                ) == Some(r.wire_entries()[i].1),
    {
        reveal_strlit("keys");
        let es = r.wire_entries();
        assert("keys"@.len() == 4);
        value::lemma_entries_get_at(es, 0);
    }

    /// The wire fields of `r` pin the record: any correct reading of
    /// them agrees with `r` on every field.
    pub proof fn lemma_decode_agrees(r: SetIntersectionRequest, d: SetIntersectionRequest)
        requires
            Self::decodes_from(r.wire_entries(), d),
        ensures
            Self::eq_fields(d, r),
    {
        Self::lemma_wire_round_trip(r);
        let es = r.wire_entries();
        assert(entries_get(es, "keys"@) == Some(ValModel::Arr(value::strs_items(r.keys@)))) by {
            assert((es[0]).0 == "keys"@);
        }
        assert forall|i: int|
            0 <= i < d.keys@.len() implies (#[trigger] d.keys@[i])@ == r.keys@[i]@ by {
            assert(value::strs_items(r.keys@)[i] == ValModel::Str(r.keys@[i]@));
        }
    }

    /// The round-trip law: decoding the canonical encoding of `r`
    /// yields a record that agrees with `r` on every field.
    pub proof fn lemma_round_trip(r: SetIntersectionRequest, d: SetIntersectionRequest)
        requires
            wf(r.wire()),
            Self::decodes_from(r.wire_entries(), d),
        ensures
            dec_full(enc(r.wire())) == Some(r.wire()),
            Self::eq_fields(d, r),
    {
        codec::lemma_round_trip(r.wire());
        Self::lemma_decode_agrees(r, d);
    }

    /// Unknown-field tolerance: appending a field under a key this
    /// record does not declare changes neither its shape check nor
    /// what any record decodes to.
    pub proof fn lemma_unknown_field_tolerance(
        es: Seq<(Seq<char>, ValModel)>,
        k: Seq<char>,
        v: ValModel,
        d: SetIntersectionRequest,
    )
        requires
            k != "keys"@,
        ensures
            Self::shape_ok(es.push((k, v))) == Self::shape_ok(es),
            Self::decodes_from(es.push((k, v)), d) == Self::decodes_from(es, d),
    {
        value::lemma_entries_get_push_other(es, "keys"@, k, v);
    }
}

#[derive(Debug, PartialEq)]
pub struct SetUnionRequest {
    pub keys: Vec<String>,
}

impl SetUnionRequest {
    /// The record's wire fields, in declaration order.
    pub open spec fn wire_entries(self) -> Seq<(Seq<char>, ValModel)> {
        seq![
            ("keys"@, ValModel::Arr(value::strs_items(self.keys@))),
        ]
    }

    /// The record's wire value.
    pub open spec fn wire(self) -> ValModel {
        ValModel::Dict(self.wire_entries())
    }

    /// Whether decoded wire fields carry every required field with its
    /// declared type; unknown fields never disturb this, and absent
    /// fields with a declared default are allowed.
    pub open spec fn shape_ok(es: Seq<(Seq<char>, ValModel)>) -> bool {
        entries_get(es, "keys"@) matches Some(v) && (v matches ValModel::Arr(a) && value::all_str_items(a))
    }

    /// Whether record `r` is the correct reading of wire fields `es`.
    pub open spec fn decodes_from(es: Seq<(Seq<char>, ValModel)>, r: SetUnionRequest) -> bool {
        entries_get(es, "keys"@) matches Some(v) && (v matches ValModel::Arr(a) && value::str_items(a, r.keys@))
    }

    /// Content equality: every field agrees.
    pub open spec fn eq_fields(a: SetUnionRequest, b: SetUnionRequest) -> bool {
        value::strs_eq(a.keys@, b.keys@)
    }

    /// Lowers the record to its wire value.
    pub fn to_val(&self) -> (v: Val)
        ensures
            v@ == self.wire(),
    {
        let mut es: Vec<(String, Val)> = Vec::new();
        es.push((String::from_str("keys"), value::strings_to_val(&self.keys)));
        proof {
            value::lemma_view_entries(es@);
            assert forall|i: int|
                0 <= i < es@.len() implies view_entries(es@)[i] == self.wire_entries()[i] by {
                assert(view_entries(es@)[i] == (es@[i].0@, es@[i].1@));
            }
            assert(view_entries(es@) =~= self.wire_entries());
        }
        Val::Dict(es)
    }

    /// Encodes the record through the canonical codec.
    pub fn encode(&self) -> (r: Result<Vec<u8>, EncodeError>)
        ensures
            match r {
                Ok(b) => wf(self.wire()) && b@ == enc(self.wire()),
                Err(e) => !wf(self.wire()) && e == EncodeError::Unencodable,
            },
    {
        let v = self.to_val();
        codec::encode_value(&v)
    }

    /// Lifts a decoded wire value into the record, filling defaults and
    /// ignoring unknown fields.
    pub fn from_val(v: &Val) -> (r: Result<SetUnionRequest, DecodeError>)
        ensures
            match r {
                Ok(rec) => v@ matches ValModel::Dict(es) && Self::shape_ok(es)
                    && Self::decodes_from(es, rec),
                Err(e) => match v@ {
                    ValModel::Dict(es) => !Self::shape_ok(es) && (e == DecodeError::MissingField
                        || e == DecodeError::TypeMismatch),
                    _ => e == DecodeError::TypeMismatch,
                },
            },
    {
        match v {
            Val::Dict(es) => {
                let keys = match value::get_str_list(es, "keys") {
                    Ok(x) => x,
                    Err(e) => return Err(e),
                };
                Ok(SetUnionRequest { keys })
            },
            _ => Err(DecodeError::TypeMismatch),
        }
    }

    /// Decodes the record from its wire bytes.
    pub fn decode(bytes: &[u8]) -> (r: Result<SetUnionRequest, DecodeError>)
        ensures
            match r {
                Ok(rec) => dec_full(bytes@) matches Some(v) && (v matches ValModel::Dict(es)
                    && Self::shape_ok(es) && Self::decodes_from(es, rec)),
                Err(e) => match dec_full(bytes@) {
                    None => e == DecodeError::Malformed,
                    Some(v) => match v {
                        ValModel::Dict(es) => !Self::shape_ok(es) && (e
                            == DecodeError::MissingField || e == DecodeError::TypeMismatch),
                        _ => e == DecodeError::TypeMismatch,
                    },
                },
            },
    {
        let val = match codec::decode_value(bytes) {
            Ok(v) => v,
            Err(e) => return Err(e),
        };
        Self::from_val(&val)
    }

    /// Reading a record's own wire fields back yields the record: the
    /// encoder writes exactly what the decoder needs; and looking up
    /// any declared key finds exactly the field the encoder wrote.
    pub proof fn lemma_wire_round_trip(r: SetUnionRequest)
        ensures
            Self::shape_ok(r.wire_entries()),
            Self::decodes_from(r.wire_entries(), r),
            forall|i: int|
                0 <= i < r.wire_entries().len() ==> entries_get(
                    r.wire_entries(),
                    (#[trigger] r.wire_entries()[i]).0,
                ) == Some(r.wire_entries()[i].1),
    {
        reveal_strlit("keys");
        let es = r.wire_entries();
        assert("keys"@.len() == 4);
        value::lemma_entries_get_at(es, 0);
    }

    /// The wire fields of `r` pin the record: any correct reading of
    /// them agrees with `r` on every field.
    pub proof fn lemma_decode_agrees(r: SetUnionRequest, d: SetUnionRequest)
        requires
            Self::decodes_from(r.wire_entries(), d),
        ensures
            Self::eq_fields(d, r),
    {
        Self::lemma_wire_round_trip(r);
        let es = r.wire_entries();
        assert(entries_get(es, "keys"@) == Some(ValModel::Arr(value::strs_items(r.keys@)))) by {
            assert((es[0]).0 == "keys"@);
        }
        assert forall|i: int|
            0 <= i < d.keys@.len() implies (#[trigger] d.keys@[i])@ == r.keys@[i]@ by {
            assert(value::strs_items(r.keys@)[i] == ValModel::Str(r.keys@[i]@));
        }
    }

    /// The round-trip law: decoding the canonical encoding of `r`
    /// yields a record that agrees with `r` on every field.
    pub proof fn lemma_round_trip(r: SetUnionRequest, d: SetUnionRequest)
        requires
            wf(r.wire()),
            Self::decodes_from(r.wire_entries(), d),
        ensures
            dec_full(enc(r.wire())) == Some(r.wire()),
            Self::eq_fields(d, r),
    {
        codec::lemma_round_trip(r.wire());
        Self::lemma_decode_agrees(r, d);
    }

    /// Unknown-field tolerance: appending a field under a key this
    /// record does not declare changes neither its shape check nor
    /// what any record decodes to.
    pub proof fn lemma_unknown_field_tolerance(
        es: Seq<(Seq<char>, ValModel)>,
        k: Seq<char>,
        v: ValModel,
        d: SetUnionRequest,
    )
        requires
            k != "keys"@,
        ensures
            Self::shape_ok(es.push((k, v))) == Self::shape_ok(es),
            Self::decodes_from(es.push((k, v)), d) == Self::decodes_from(es, d),
    {
        value::lemma_entries_get_push_other(es, "keys"@, k, v);
    }
}

#[derive(Debug, PartialEq)]
pub struct SetOperationResponse {
    pub new_count: i32,
}

impl SetOperationResponse {
    /// The record's wire fields, in declaration order.
    pub open spec fn wire_entries(self) -> Seq<(Seq<char>, ValModel)> {
        seq![
            ("new_count"@, value::int_wire(self.new_count as int)),
        ]
    }

    /// The record's wire value.
    pub open spec fn wire(self) -> ValModel {
        ValModel::Dict(self.wire_entries())
    }

    /// Whether decoded wire fields carry every required field with its
    /// declared type; unknown fields never disturb this, and absent
    /// fields with a declared default are allowed.
    pub open spec fn shape_ok(es: Seq<(Seq<char>, ValModel)>) -> bool {
        entries_get(es, "new_count"@) matches Some(v) && value::is_i32(v)
    }

    /// Whether record `r` is the correct reading of wire fields `es`.
    pub open spec fn decodes_from(es: Seq<(Seq<char>, ValModel)>, r: SetOperationResponse) -> bool {
        entries_get(es, "new_count"@) matches Some(v) && value::is_i32(v) && value::int_of(v) == r.new_count as int
    }

    /// Content equality: every field agrees.
    pub open spec fn eq_fields(a: SetOperationResponse, b: SetOperationResponse) -> bool {
        a.new_count == b.new_count
    }

    /// Lowers the record to its wire value.
    pub fn to_val(&self) -> (v: Val)
        ensures
            v@ == self.wire(),
    {
        let mut es: Vec<(String, Val)> = Vec::new();
        es.push((String::from_str("new_count"), value::int_to_val(self.new_count as i64)));
        proof {
            value::lemma_view_entries(es@);
            assert forall|i: int|
                0 <= i < es@.len() implies view_entries(es@)[i] == self.wire_entries()[i] by {
                assert(view_entries(es@)[i] == (es@[i].0@, es@[i].1@));
            }
            assert(view_entries(es@) =~= self.wire_entries());
        }
        Val::Dict(es)
    }

    /// Encodes the record through the canonical codec.
    pub fn encode(&self) -> (r: Result<Vec<u8>, EncodeError>)
        ensures
            match r {
                Ok(b) => wf(self.wire()) && b@ == enc(self.wire()),
                Err(e) => !wf(self.wire()) && e == EncodeError::Unencodable,
            },
    {
        let v = self.to_val();
        codec::encode_value(&v)
    }

    /// Lifts a decoded wire value into the record, filling defaults and
    /// ignoring unknown fields.
    pub fn from_val(v: &Val) -> (r: Result<SetOperationResponse, DecodeError>)
        ensures
            match r {
                Ok(rec) => v@ matches ValModel::Dict(es) && Self::shape_ok(es)
                    && Self::decodes_from(es, rec),
                Err(e) => match v@ {
                    ValModel::Dict(es) => !Self::shape_ok(es) && (e == DecodeError::MissingField
                        || e == DecodeError::TypeMismatch),
                    _ => e == DecodeError::TypeMismatch,
                },
            },
    {
        match v {
            Val::Dict(es) => {
                let new_count = match value::get_i32(es, "new_count") {
                    Ok(x) => x,
                    Err(e) => return Err(e),
                };
                Ok(SetOperationResponse { new_count })
            },
            _ => Err(DecodeError::TypeMismatch),
        }
    }

    /// Decodes the record from its wire bytes.
    pub fn decode(bytes: &[u8]) -> (r: Result<SetOperationResponse, DecodeError>)
        ensures
            match r {
                Ok(rec) => dec_full(bytes@) matches Some(v) && (v matches ValModel::Dict(es)
                    && Self::shape_ok(es) && Self::decodes_from(es, rec)),
                Err(e) => match dec_full(bytes@) {
                    None => e == DecodeError::Malformed,
                    Some(v) => match v {
                        ValModel::Dict(es) => !Self::shape_ok(es) && (e
                            == DecodeError::MissingField || e == DecodeError::TypeMismatch),
                        _ => e == DecodeError::TypeMismatch,
                    },
                },
            },
    {
        let val = match codec::decode_value(bytes) {
            Ok(v) => v,
            Err(e) => return Err(e),
        };
        Self::from_val(&val)
    }

    /// Reading a record's own wire fields back yields the record: the
    /// encoder writes exactly what the decoder needs; and looking up
    /// any declared key finds exactly the field the encoder wrote.
    pub proof fn lemma_wire_round_trip(r: SetOperationResponse)
        ensures
            Self::shape_ok(r.wire_entries()),
            Self::decodes_from(r.wire_entries(), r),
            forall|i: int|
                0 <= i < r.wire_entries().len() ==> entries_get(
                    r.wire_entries(),
                    (#[trigger] r.wire_entries()[i]).0,
                ) == Some(r.wire_entries()[i].1),
    {
        reveal_strlit("new_count");
        let es = r.wire_entries();
        assert("new_count"@.len() == 9);
        value::lemma_entries_get_at(es, 0);
    }

    /// The wire fields of `r` pin the record: any correct reading of
    /// them agrees with `r` on every field.
    pub proof fn lemma_decode_agrees(r: SetOperationResponse, d: SetOperationResponse)
        requires
            Self::decodes_from(r.wire_entries(), d),
        ensures
            Self::eq_fields(d, r),
    {
        Self::lemma_wire_round_trip(r);
        let es = r.wire_entries();
        assert(entries_get(es, "new_count"@) == Some(value::int_wire(r.new_count as int))) by {
            assert((es[0]).0 == "new_count"@);
        }
    }

    /// The round-trip law: decoding the canonical encoding of `r`
    /// yields a record that agrees with `r` on every field.
    pub proof fn lemma_round_trip(r: SetOperationResponse, d: SetOperationResponse)
        requires
            wf(r.wire()),
            Self::decodes_from(r.wire_entries(), d),
        ensures
            dec_full(enc(r.wire())) == Some(r.wire()),
            Self::eq_fields(d, r),
    {
        codec::lemma_round_trip(r.wire());
        Self::lemma_decode_agrees(r, d);
    }

    /// Unknown-field tolerance: appending a field under a key this
    /// record does not declare changes neither its shape check nor
    /// what any record decodes to.
    pub proof fn lemma_unknown_field_tolerance(
        es: Seq<(Seq<char>, ValModel)>,
        k: Seq<char>,
        v: ValModel,
        d: SetOperationResponse,
    )
        requires
            k != "new_count"@,
        ensures
            Self::shape_ok(es.push((k, v))) == Self::shape_ok(es),
            Self::decodes_from(es.push((k, v)), d) == Self::decodes_from(es, d),
    {
        value::lemma_entries_get_push_other(es, "new_count"@, k, v);
    }
}

#[derive(Debug, PartialEq)]
pub struct KeyExistsQuery {
    pub key: String,
}

impl KeyExistsQuery {
    /// The record's wire fields, in declaration order.
    pub open spec fn wire_entries(self) -> Seq<(Seq<char>, ValModel)> {
        seq![
            ("key"@, ValModel::Str(self.key@)),
        ]
    }

    /// The record's wire value.
    pub open spec fn wire(self) -> ValModel {
        ValModel::Dict(self.wire_entries())
    }

    /// Whether decoded wire fields carry every required field with its
    /// declared type; unknown fields never disturb this, and absent
    /// fields with a declared default are allowed.
    pub open spec fn shape_ok(es: Seq<(Seq<char>, ValModel)>) -> bool {
        entries_get(es, "key"@) matches Some(v) && v is Str
    }

    /// Whether record `r` is the correct reading of wire fields `es`.
    pub open spec fn decodes_from(es: Seq<(Seq<char>, ValModel)>, r: KeyExistsQuery) -> bool {
        entries_get(es, "key"@) == Some(ValModel::Str(r.key@))
    }

    /// Content equality: every field agrees.
    pub open spec fn eq_fields(a: KeyExistsQuery, b: KeyExistsQuery) -> bool {
        a.key@ == b.key@
    }

    /// Lowers the record to its wire value.
    pub fn to_val(&self) -> (v: Val)
        ensures
            v@ == self.wire(),
    {
        let mut es: Vec<(String, Val)> = Vec::new();
        es.push((String::from_str("key"), Val::Str(self.key.clone())));
        proof {
            value::lemma_view_entries(es@);
            assert forall|i: int|
                0 <= i < es@.len() implies view_entries(es@)[i] == self.wire_entries()[i] by {
                assert(view_entries(es@)[i] == (es@[i].0@, es@[i].1@));
            }
            assert(view_entries(es@) =~= self.wire_entries());
        }
        Val::Dict(es)
    }

    /// Encodes the record through the canonical codec.
    pub fn encode(&self) -> (r: Result<Vec<u8>, EncodeError>)
        ensures
            match r {
                Ok(b) => wf(self.wire()) && b@ == enc(self.wire()),
                Err(e) => !wf(self.wire()) && e == EncodeError::Unencodable,
            },
    {
        let v = self.to_val();
        codec::encode_value(&v)
    }

    /// Lifts a decoded wire value into the record, filling defaults and
    /// ignoring unknown fields.
    pub fn from_val(v: &Val) -> (r: Result<KeyExistsQuery, DecodeError>)
        ensures
            match r {
                Ok(rec) => v@ matches ValModel::Dict(es) && Self::shape_ok(es)
                    && Self::decodes_from(es, rec),
                Err(e) => match v@ {
                    ValModel::Dict(es) => !Self::shape_ok(es) && (e == DecodeError::MissingField
                        || e == DecodeError::TypeMismatch),
                    _ => e == DecodeError::TypeMismatch,
                },
            },
    {
        match v {
            Val::Dict(es) => {
                let key = match value::get_str(es, "key") {
                    Ok(x) => x,
                    Err(e) => return Err(e),
                };
                Ok(KeyExistsQuery { key })
            },
            _ => Err(DecodeError::TypeMismatch),
        }
    }

    /// Decodes the record from its wire bytes.
    pub fn decode(bytes: &[u8]) -> (r: Result<KeyExistsQuery, DecodeError>)
        ensures
            match r {
                Ok(rec) => dec_full(bytes@) matches Some(v) && (v matches ValModel::Dict(es)
                    && Self::shape_ok(es) && Self::decodes_from(es, rec)),
                Err(e) => match dec_full(bytes@) {
                    None => e == DecodeError::Malformed,
                    Some(v) => match v {
                        ValModel::Dict(es) => !Self::shape_ok(es) && (e
                            == DecodeError::MissingField || e == DecodeError::TypeMismatch),
                        _ => e == DecodeError::TypeMismatch,
                    },
                },
            },
    {
        let val = match codec::decode_value(bytes) {
            Ok(v) => v,
            Err(e) => return Err(e),
        };
        Self::from_val(&val)
    }

    /// Reading a record's own wire fields back yields the record: the
    /// encoder writes exactly what the decoder needs; and looking up
    /// any declared key finds exactly the field the encoder wrote.
    pub proof fn lemma_wire_round_trip(r: KeyExistsQuery)
        ensures
            Self::shape_ok(r.wire_entries()),
            Self::decodes_from(r.wire_entries(), r),
            forall|i: int|
                0 <= i < r.wire_entries().len() ==> entries_get(
                    r.wire_entries(),
                    (#[trigger] r.wire_entries()[i]).0,
                ) == Some(r.wire_entries()[i].1),
    {
        reveal_strlit("key");
        let es = r.wire_entries();
        assert("key"@.len() == 3);
        value::lemma_entries_get_at(es, 0);
    }

    /// The wire fields of `r` pin the record: any correct reading of
    /// them agrees with `r` on every field.
    pub proof fn lemma_decode_agrees(r: KeyExistsQuery, d: KeyExistsQuery)
        requires
            Self::decodes_from(r.wire_entries(), d),
        ensures
            Self::eq_fields(d, r),
    {
        Self::lemma_wire_round_trip(r);
        let es = r.wire_entries();
        assert(entries_get(es, "key"@) == Some(ValModel::Str(r.key@))) by {
            assert((es[0]).0 == "key"@);
        }
    }

    /// The round-trip law: decoding the canonical encoding of `r`
    /// yields a record that agrees with `r` on every field.
    pub proof fn lemma_round_trip(r: KeyExistsQuery, d: KeyExistsQuery)
        requires
            wf(r.wire()),
            Self::decodes_from(r.wire_entries(), d),
        ensures
            dec_full(enc(r.wire())) == Some(r.wire()),
            Self::eq_fields(d, r),
    {
        codec::lemma_round_trip(r.wire());
        Self::lemma_decode_agrees(r, d);
    }

    /// Unknown-field tolerance: appending a field under a key this
    /// record does not declare changes neither its shape check nor
    /// what any record decodes to.
    pub proof fn lemma_unknown_field_tolerance(
        es: Seq<(Seq<char>, ValModel)>,
        k: Seq<char>,
        v: ValModel,
        d: KeyExistsQuery,
    )
        requires
            k != "key"@,
        ensures
            Self::shape_ok(es.push((k, v))) == Self::shape_ok(es),
            Self::decodes_from(es.push((k, v)), d) == Self::decodes_from(es, d),
    {
        value::lemma_entries_get_push_other(es, "key"@, k, v);
    }
}

} // verus!
