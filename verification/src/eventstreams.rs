//! Append-only event streams: the record schemas of the
//! `wascc:eventstreams` capability domain.

use vstd::prelude::*;
use vstd::string::StringExecFns;
use crate::codec;
use crate::codec::{enc, dec_full};
use crate::error::{DecodeError, EncodeError};
use crate::value;
use crate::value::{Val, ValModel, entries_get, view_entries, view_list, wf};

verus! {

broadcast use vstd::std_specs::vec::group_vec_axioms, vstd::seq::group_seq_axioms;

/// Capability provider uses this operation to deliver an event to an actor.
pub const OP_DELIVER_EVENT: &'static str = "DeliverEvent";

/// Actor invokes this operation on the provider to write an event to a
/// given event stream.
pub const OP_WRITE_EVENT: &'static str = "WriteEvent";

/// Actor invokes this operation to execute a query against an event stream.
pub const OP_QUERY_STREAM: &'static str = "QueryStream";

#[derive(Debug, PartialEq)]
pub struct Event {
    pub event_id: String,
    pub stream: String,
    pub values: Vec<(String, String)>,
}

impl Event {
    /// The record's wire fields, in declaration order.
    pub open spec fn wire_entries(self) -> Seq<(Seq<char>, ValModel)> {
        seq![
            ("eventId"@, ValModel::Str(self.event_id@)),
            ("stream"@, ValModel::Str(self.stream@)),
            ("values"@, ValModel::Dict(value::pairs_entries(self.values@))),
        ]
    }

    /// The record's wire value.
    pub open spec fn wire(self) -> ValModel {
        ValModel::Dict(self.wire_entries())
    }

    /// Whether decoded wire fields carry every required field with its
    /// declared type; unknown fields never disturb this, and absent
    /// fields with a declared default are allowed.
    pub open spec fn shape_ok(es: Seq<(Seq<char>, ValModel)>) -> bool {
        &&& entries_get(es, "eventId"@) matches Some(v) && v is Str
        &&& entries_get(es, "stream"@) matches Some(v) && v is Str
        &&& match entries_get(es, "values"@) {
            Some(v) => v matches ValModel::Dict(m) && value::all_str_values(m),
            None => true,
        }
    }

    /// Whether record `r` is the correct reading of wire fields `es`.
    pub open spec fn decodes_from(es: Seq<(Seq<char>, ValModel)>, r: Event) -> bool {
        &&& entries_get(es, "eventId"@) == Some(ValModel::Str(r.event_id@))
        &&& entries_get(es, "stream"@) == Some(ValModel::Str(r.stream@))
        &&& match entries_get(es, "values"@) {
            Some(v) => v matches ValModel::Dict(m) && value::str_entries(m, r.values@),
            None => r.values@.len() == 0,
        }
    }

    /// Whether a wire value is a well-shaped frame of this record.
    pub open spec fn val_shape_ok(v: ValModel) -> bool {
        v matches ValModel::Dict(es) && Event::shape_ok(es)
    }

    /// Whether record `r` is the correct reading of wire value `v`.
    pub open spec fn val_decodes(v: ValModel, r: Event) -> bool {
        v matches ValModel::Dict(es) && Event::decodes_from(es, r)
    }

    /// Content equality over a sequence of records.
    pub open spec fn seq_eq(a: Seq<Event>, b: Seq<Event>) -> bool {
        &&& a.len() == b.len()
        &&& forall|i: int| 0 <= i < a.len() ==> Event::eq_fields(#[trigger] a[i], b[i])
    }

    /// Content equality: every field agrees.
    pub open spec fn eq_fields(a: Event, b: Event) -> bool {
        &&& a.event_id@ == b.event_id@
        &&& a.stream@ == b.stream@
        &&& value::pairs_eq(a.values@, b.values@)
    }

    /// Lowers the record to its wire value.
    pub fn to_val(&self) -> (v: Val)
        ensures
            v@ == self.wire(),
    {
        let mut es: Vec<(String, Val)> = Vec::new();
        es.push((String::from_str("eventId"), Val::Str(self.event_id.clone())));
        es.push((String::from_str("stream"), Val::Str(self.stream.clone())));
        es.push((String::from_str("values"), value::pairs_to_val(&self.values)));
        proof {
            value::lemma_view_entries(es@);
            assert forall|i: int|
                0 <= i < es@.len() implies view_entries(es@)[i] == self.wire_entries()[i] by {
                assert(view_entries(es@)[i] == (es@[i].0@, es@[i].1@));
            }
            assert(view_entries(es@) =~= self.wire_entries());
        }
        Val::Dict(es)
    }

    /// Encodes the record through the canonical codec.
    pub fn encode(&self) -> (r: Result<Vec<u8>, EncodeError>)
        ensures
            match r {
                Ok(b) => wf(self.wire()) && b@ == enc(self.wire()),
                Err(e) => !wf(self.wire()) && e == EncodeError::Unencodable,
            },
    {
        let v = self.to_val();
        codec::encode_value(&v)
    }

    /// Lifts a decoded wire value into the record, filling defaults and
    /// ignoring unknown fields.
    pub fn from_val(v: &Val) -> (r: Result<Event, DecodeError>)
        ensures
            match r {
                Ok(rec) => v@ matches ValModel::Dict(es) && Self::shape_ok(es)
                    && Self::decodes_from(es, rec),
                Err(e) => match v@ {
                    ValModel::Dict(es) => !Self::shape_ok(es) && (e == DecodeError::MissingField
                        || e == DecodeError::TypeMismatch),
                    _ => e == DecodeError::TypeMismatch,
                },
            },
    {
        match v {
            Val::Dict(es) => {
                let event_id = match value::get_str(es, "eventId") {
                    Ok(x) => x,
                    Err(e) => return Err(e),
                };
                let stream = match value::get_str(es, "stream") {
                    Ok(x) => x,
                    Err(e) => return Err(e),
                };
                let values = match value::get_str_dict_or_empty(es, "values") {
                    Ok(x) => x,
                    Err(e) => return Err(e),
                };
                Ok(Event { event_id, stream, values })
            },
            _ => Err(DecodeError::TypeMismatch),
        }
    }

    /// Decodes the record from its wire bytes.
    pub fn decode(bytes: &[u8]) -> (r: Result<Event, DecodeError>)
        ensures
            match r {
                Ok(rec) => dec_full(bytes@) matches Some(v) && (v matches ValModel::Dict(es)
                    && Self::shape_ok(es) && Self::decodes_from(es, rec)),
                Err(e) => match dec_full(bytes@) {
                    None => e == DecodeError::Malformed,
                    Some(v) => match v {
                        ValModel::Dict(es) => !Self::shape_ok(es) && (e
                            == DecodeError::MissingField || e == DecodeError::TypeMismatch),
                        _ => e == DecodeError::TypeMismatch,
                    },
                },
            },
    {
        let val = match codec::decode_value(bytes) {
            Ok(v) => v,
            Err(e) => return Err(e),
        };
        Self::from_val(&val)
    }

    /// Reading a record's own wire fields back yields the record: the
    /// encoder writes exactly what the decoder needs; and looking up
    /// any declared key finds exactly the field the encoder wrote.
    pub proof fn lemma_wire_round_trip(r: Event)
        ensures
            Self::shape_ok(r.wire_entries()),
            Self::decodes_from(r.wire_entries(), r),
            forall|i: int|
                0 <= i < r.wire_entries().len() ==> entries_get(
                    r.wire_entries(),
                    (#[trigger] r.wire_entries()[i]).0,
                ) == Some(r.wire_entries()[i].1),
    {
        reveal_strlit("eventId");
        reveal_strlit("stream");
        reveal_strlit("values");
        let es = r.wire_entries();
        assert("eventId"@.len() == 7);
        assert("stream"@.len() == 6);
        assert("values"@.len() == 6);
        assert("stream"@[0] != "values"@[0]);
        value::lemma_entries_get_at(es, 0);
        value::lemma_entries_get_at(es, 1);
        value::lemma_entries_get_at(es, 2);
    }

    /// The wire fields of `r` pin the record: any correct reading of
    /// them agrees with `r` on every field.
    pub proof fn lemma_decode_agrees(r: Event, d: Event)
        requires
            Self::decodes_from(r.wire_entries(), d),
        ensures
            Self::eq_fields(d, r),
    {
        Self::lemma_wire_round_trip(r);
        let es = r.wire_entries();
        assert(entries_get(es, "eventId"@) == Some(ValModel::Str(r.event_id@))) by {
            assert((es[0]).0 == "eventId"@);
        }
        assert(entries_get(es, "stream"@) == Some(ValModel::Str(r.stream@))) by {
            assert((es[1]).0 == "stream"@);
        }
        assert(entries_get(es, "values"@) == Some(ValModel::Dict(value::pairs_entries(r.values@)))) by {
            assert((es[2]).0 == "values"@);
        }
        assert forall|i: int|
            0 <= i < d.values@.len() implies (#[trigger] d.values@[i]).0@ == r.values@[i].0@
                && d.values@[i].1@ == r.values@[i].1@ by {
            assert(value::pairs_entries(r.values@)[i] == (r.values@[i].0@, ValModel::Str(
                r.values@[i].1@,
            )));
        }
    }

    /// The round-trip law: decoding the canonical encoding of `r`
    /// yields a record that agrees with `r` on every field.
    pub proof fn lemma_round_trip(r: Event, d: Event)
        requires
            wf(r.wire()),
            Self::decodes_from(r.wire_entries(), d),
        ensures
            dec_full(enc(r.wire())) == Some(r.wire()),
            Self::eq_fields(d, r),
    {
        codec::lemma_round_trip(r.wire());
        Self::lemma_decode_agrees(r, d);
    }

    /// Forward tolerance: wire fields that carry only the required
    /// fields of this record still decode, every absent defaulted
    /// field resolving to its declared default.
    pub proof fn lemma_forward_tolerance(es: Seq<(Seq<char>, ValModel)>, d: Event)
        requires
            entries_get(es, "eventId"@) matches Some(v) && v is Str,
            entries_get(es, "stream"@) matches Some(v) && v is Str,
            entries_get(es, "values"@) is None,
        ensures
            Self::shape_ok(es),
            Self::decodes_from(es, d) ==> d.values@.len() == 0,
    {
    }

    /// Unknown-field tolerance: appending a field under a key this
    /// record does not declare changes neither its shape check nor
    /// what any record decodes to.
    pub proof fn lemma_unknown_field_tolerance(
        es: Seq<(Seq<char>, ValModel)>,
        k: Seq<char>,
        v: ValModel,
        d: Event,
    )
        requires
            k != "eventId"@,
            k != "stream"@,
            k != "values"@,
        ensures
            Self::shape_ok(es.push((k, v))) == Self::shape_ok(es),
            Self::decodes_from(es.push((k, v)), d) == Self::decodes_from(es, d),
    {
        value::lemma_entries_get_push_other(es, "eventId"@, k, v);
        value::lemma_entries_get_push_other(es, "stream"@, k, v);
        value::lemma_entries_get_push_other(es, "values"@, k, v);
    }
}

#[derive(Debug, PartialEq)]
pub struct WriteResponse {
    pub event_id: String,
}

impl WriteResponse {
    /// The record's wire fields, in declaration order.
    pub open spec fn wire_entries(self) -> Seq<(Seq<char>, ValModel)> {
        seq![
            ("eventId"@, ValModel::Str(self.event_id@)),
        ]
    }

    /// The record's wire value.
    pub open spec fn wire(self) -> ValModel {
        ValModel::Dict(self.wire_entries())
    }

    /// Whether decoded wire fields carry every required field with its
    /// declared type; unknown fields never disturb this, and absent
    /// fields with a declared default are allowed.
    pub open spec fn shape_ok(es: Seq<(Seq<char>, ValModel)>) -> bool {
        entries_get(es, "eventId"@) matches Some(v) && v is Str
    }

    /// Whether record `r` is the correct reading of wire fields `es`.
    pub open spec fn decodes_from(es: Seq<(Seq<char>, ValModel)>, r: WriteResponse) -> bool {
        entries_get(es, "eventId"@) == Some(ValModel::Str(r.event_id@))
    }

    /// Content equality: every field agrees.
    pub open spec fn eq_fields(a: WriteResponse, b: WriteResponse) -> bool {
        a.event_id@ == b.event_id@
    }

    /// Lowers the record to its wire value.
    pub fn to_val(&self) -> (v: Val)
        ensures
            v@ == self.wire(),
    {
        let mut es: Vec<(String, Val)> = Vec::new();
        es.push((String::from_str("eventId"), Val::Str(self.event_id.clone())));
        proof {
            value::lemma_view_entries(es@);
            assert forall|i: int|
                0 <= i < es@.len() implies view_entries(es@)[i] == self.wire_entries()[i] by {
                assert(view_entries(es@)[i] == (es@[i].0@, es@[i].1@));
            }
            assert(view_entries(es@) =~= self.wire_entries());
        }
        Val::Dict(es)
    }

    /// Encodes the record through the canonical codec.
    pub fn encode(&self) -> (r: Result<Vec<u8>, EncodeError>)
        ensures
            match r {
                Ok(b) => wf(self.wire()) && b@ == enc(self.wire()),
                Err(e) => !wf(self.wire()) && e == EncodeError::Unencodable,
            },
    {
        let v = self.to_val();
        codec::encode_value(&v)
    }

    /// Lifts a decoded wire value into the record, filling defaults and
    /// ignoring unknown fields.
    pub fn from_val(v: &Val) -> (r: Result<WriteResponse, DecodeError>)
        ensures
            match r {
                Ok(rec) => v@ matches ValModel::Dict(es) && Self::shape_ok(es)
                    && Self::decodes_from(es, rec),
                Err(e) => match v@ {
                    ValModel::Dict(es) => !Self::shape_ok(es) && (e == DecodeError::MissingField
                        || e == DecodeError::TypeMismatch),
                    _ => e == DecodeError::TypeMismatch,
                },
            },
    {
        match v {
            Val::Dict(es) => {
                let event_id = match value::get_str(es, "eventId") {
                    Ok(x) => x,
                    Err(e) => return Err(e),
                };
                Ok(WriteResponse { event_id })
            },
            _ => Err(DecodeError::TypeMismatch),
        }
    }

    /// Decodes the record from its wire bytes.
    pub fn decode(bytes: &[u8]) -> (r: Result<WriteResponse, DecodeError>)
        ensures
            match r {
                Ok(rec) => dec_full(bytes@) matches Some(v) && (v matches ValModel::Dict(es)
                    && Self::shape_ok(es) && Self::decodes_from(es, rec)),
                Err(e) => match dec_full(bytes@) {
                    None => e == DecodeError::Malformed,
                    Some(v) => match v {
                        ValModel::Dict(es) => !Self::shape_ok(es) && (e
                            == DecodeError::MissingField || e == DecodeError::TypeMismatch),
                        _ => e == DecodeError::TypeMismatch,
                    },
                },
            },
    {
        let val = match codec::decode_value(bytes) {
            Ok(v) => v,
            Err(e) => return Err(e),
        };
        Self::from_val(&val)
    }

    /// Reading a record's own wire fields back yields the record: the
    /// encoder writes exactly what the decoder needs; and looking up
    /// any declared key finds exactly the field the encoder wrote.
    pub proof fn lemma_wire_round_trip(r: WriteResponse)
        ensures
            Self::shape_ok(r.wire_entries()),
            Self::decodes_from(r.wire_entries(), r),
            forall|i: int|
                0 <= i < r.wire_entries().len() ==> entries_get(
                    r.wire_entries(),
                    (#[trigger] r.wire_entries()[i]).0,
                ) == Some(r.wire_entries()[i].1),
    {
        reveal_strlit("eventId");
        let es = r.wire_entries();
        assert("eventId"@.len() == 7);
        value::lemma_entries_get_at(es, 0);
    }

    /// The wire fields of `r` pin the record: any correct reading of
    /// them agrees with `r` on every field.
    pub proof fn lemma_decode_agrees(r: WriteResponse, d: WriteResponse)
        requires
            Self::decodes_from(r.wire_entries(), d),
        ensures
            Self::eq_fields(d, r),
    {
        Self::lemma_wire_round_trip(r);
        let es = r.wire_entries();
        assert(entries_get(es, "eventId"@) == Some(ValModel::Str(r.event_id@))) by {
            assert((es[0]).0 == "eventId"@);
        }
    }

    /// The round-trip law: decoding the canonical encoding of `r`
    /// yields a record that agrees with `r` on every field.
    pub proof fn lemma_round_trip(r: WriteResponse, d: WriteResponse)
        requires
            wf(r.wire()),
            Self::decodes_from(r.wire_entries(), d),
        ensures
            dec_full(enc(r.wire())) == Some(r.wire()),
            Self::eq_fields(d, r),
    {
        codec::lemma_round_trip(r.wire());
        Self::lemma_decode_agrees(r, d);
    }

    /// Unknown-field tolerance: appending a field under a key this
    /// record does not declare changes neither its shape check nor
    /// what any record decodes to.
    pub proof fn lemma_unknown_field_tolerance(
        es: Seq<(Seq<char>, ValModel)>,
        k: Seq<char>,
        v: ValModel,
        d: WriteResponse,
    )
        requires
            k != "eventId"@,
        ensures
            Self::shape_ok(es.push((k, v))) == Self::shape_ok(es),
            Self::decodes_from(es.push((k, v)), d) == Self::decodes_from(es, d),
    {
        value::lemma_entries_get_push_other(es, "eventId"@, k, v);
    }
}

#[derive(Debug, PartialEq)]
pub struct TimeRange {
    pub min_time: u64,
    pub max_time: u64,
}

impl TimeRange {
    /// The record's wire fields, in declaration order.
    pub open spec fn wire_entries(self) -> Seq<(Seq<char>, ValModel)> {
        seq![
            ("minTime"@, ValModel::Uint(self.min_time)),
            ("maxTime"@, ValModel::Uint(self.max_time)),
        ]
    }

    /// The record's wire value.
    pub open spec fn wire(self) -> ValModel {
        ValModel::Dict(self.wire_entries())
    }

    /// Whether decoded wire fields carry every required field with its
    /// declared type; unknown fields never disturb this, and absent
    /// fields with a declared default are allowed.
    pub open spec fn shape_ok(es: Seq<(Seq<char>, ValModel)>) -> bool {
        &&& entries_get(es, "minTime"@) matches Some(v) && v is Uint
        &&& entries_get(es, "maxTime"@) matches Some(v) && v is Uint
    }

    /// Whether record `r` is the correct reading of wire fields `es`.
    pub open spec fn decodes_from(es: Seq<(Seq<char>, ValModel)>, r: TimeRange) -> bool {
        &&& entries_get(es, "minTime"@) == Some(ValModel::Uint(r.min_time))
        &&& entries_get(es, "maxTime"@) == Some(ValModel::Uint(r.max_time))
    }

    /// Whether a wire value is a well-shaped frame of this record.
    pub open spec fn val_shape_ok(v: ValModel) -> bool {
        v matches ValModel::Dict(es) && TimeRange::shape_ok(es)
    }

    /// Whether record `r` is the correct reading of wire value `v`.
    pub open spec fn val_decodes(v: ValModel, r: TimeRange) -> bool {
        v matches ValModel::Dict(es) && TimeRange::decodes_from(es, r)
    }

    /// Content equality over a sequence of records.
    pub open spec fn seq_eq(a: Seq<TimeRange>, b: Seq<TimeRange>) -> bool {
        &&& a.len() == b.len()
        &&& forall|i: int| 0 <= i < a.len() ==> TimeRange::eq_fields(#[trigger] a[i], b[i])
    }

    /// Content equality: every field agrees.
    pub open spec fn eq_fields(a: TimeRange, b: TimeRange) -> bool {
        &&& a.min_time == b.min_time
        &&& a.max_time == b.max_time
    }

    /// Lowers the record to its wire value.
    pub fn to_val(&self) -> (v: Val)
        ensures
            v@ == self.wire(),
    {
        let mut es: Vec<(String, Val)> = Vec::new();
        es.push((String::from_str("minTime"), Val::Uint(self.min_time)));
        es.push((String::from_str("maxTime"), Val::Uint(self.max_time)));
        proof {
            value::lemma_view_entries(es@);
            assert forall|i: int|
                0 <= i < es@.len() implies view_entries(es@)[i] == self.wire_entries()[i] by {
                assert(view_entries(es@)[i] == (es@[i].0@, es@[i].1@));
            }
            assert(view_entries(es@) =~= self.wire_entries());
        }
        Val::Dict(es)
    }

    /// Encodes the record through the canonical codec.
    pub fn encode(&self) -> (r: Result<Vec<u8>, EncodeError>)
        ensures
            match r {
                Ok(b) => wf(self.wire()) && b@ == enc(self.wire()),
                Err(e) => !wf(self.wire()) && e == EncodeError::Unencodable,
            },
    {
        let v = self.to_val();
        codec::encode_value(&v)
    }

    /// Lifts a decoded wire value into the record, filling defaults and
    /// ignoring unknown fields.
    pub fn from_val(v: &Val) -> (r: Result<TimeRange, DecodeError>)
        ensures
            match r {
                Ok(rec) => v@ matches ValModel::Dict(es) && Self::shape_ok(es)
                    && Self::decodes_from(es, rec),
                Err(e) => match v@ {
                    ValModel::Dict(es) => !Self::shape_ok(es) && (e == DecodeError::MissingField
                        || e == DecodeError::TypeMismatch),
                    _ => e == DecodeError::TypeMismatch,
                },
            },
    {
        match v {
            Val::Dict(es) => {
                let min_time = match value::get_uint(es, "minTime") {
                    Ok(x) => x,
                    Err(e) => return Err(e),
                };
                let max_time = match value::get_uint(es, "maxTime") {
                    Ok(x) => x,
                    Err(e) => return Err(e),
                };
                Ok(TimeRange { min_time, max_time })
            },
            _ => Err(DecodeError::TypeMismatch),
        }
    }

    /// Decodes the record from its wire bytes.
    pub fn decode(bytes: &[u8]) -> (r: Result<TimeRange, DecodeError>)
        ensures
            match r {
                Ok(rec) => dec_full(bytes@) matches Some(v) && (v matches ValModel::Dict(es)
                    && Self::shape_ok(es) && Self::decodes_from(es, rec)),
                Err(e) => match dec_full(bytes@) {
                    None => e == DecodeError::Malformed,
                    Some(v) => match v {
                        ValModel::Dict(es) => !Self::shape_ok(es) && (e
                            == DecodeError::MissingField || e == DecodeError::TypeMismatch),
                        _ => e == DecodeError::TypeMismatch,
                    },
                },
            },
    {
        let val = match codec::decode_value(bytes) {
            Ok(v) => v,
            Err(e) => return Err(e),
        };
        Self::from_val(&val)
    }

    /// Reading a record's own wire fields back yields the record: the
    /// encoder writes exactly what the decoder needs; and looking up
    /// any declared key finds exactly the field the encoder wrote.
    pub proof fn lemma_wire_round_trip(r: TimeRange)
        ensures
            Self::shape_ok(r.wire_entries()),
            Self::decodes_from(r.wire_entries(), r),
            forall|i: int|
                0 <= i < r.wire_entries().len() ==> entries_get(
                    r.wire_entries(),
                    (#[trigger] r.wire_entries()[i]).0,
                ) == Some(r.wire_entries()[i].1),
    {
        reveal_strlit("maxTime");
        reveal_strlit("minTime");
        let es = r.wire_entries();
        assert("maxTime"@.len() == 7);
        assert("minTime"@.len() == 7);
        assert("minTime"@[1] != "maxTime"@[1]);
        value::lemma_entries_get_at(es, 0);
        value::lemma_entries_get_at(es, 1);
    }

    /// The wire fields of `r` pin the record: any correct reading of
    /// them agrees with `r` on every field.
    pub proof fn lemma_decode_agrees(r: TimeRange, d: TimeRange)
        requires
            Self::decodes_from(r.wire_entries(), d),
        ensures
            Self::eq_fields(d, r),
    {
        Self::lemma_wire_round_trip(r);
        let es = r.wire_entries();
        assert(entries_get(es, "minTime"@) == Some(ValModel::Uint(r.min_time))) by {
            assert((es[0]).0 == "minTime"@);
        }
        assert(entries_get(es, "maxTime"@) == Some(ValModel::Uint(r.max_time))) by {
            assert((es[1]).0 == "maxTime"@);
        }
    }

    /// The round-trip law: decoding the canonical encoding of `r`
    /// yields a record that agrees with `r` on every field.
    pub proof fn lemma_round_trip(r: TimeRange, d: TimeRange)
        requires
            wf(r.wire()),
            Self::decodes_from(r.wire_entries(), d),
        ensures
            dec_full(enc(r.wire())) == Some(r.wire()),
            Self::eq_fields(d, r),
    {
        codec::lemma_round_trip(r.wire());
        Self::lemma_decode_agrees(r, d);
    }

    /// Unknown-field tolerance: appending a field under a key this
    /// record does not declare changes neither its shape check nor
    /// what any record decodes to.
    pub proof fn lemma_unknown_field_tolerance(
        es: Seq<(Seq<char>, ValModel)>,
        k: Seq<char>,
        v: ValModel,
        d: TimeRange,
    )
        requires
            k != "minTime"@,
            k != "maxTime"@,
        ensures
            Self::shape_ok(es.push((k, v))) == Self::shape_ok(es),
            Self::decodes_from(es.push((k, v)), d) == Self::decodes_from(es, d),
    {
        value::lemma_entries_get_push_other(es, "minTime"@, k, v);
        value::lemma_entries_get_push_other(es, "maxTime"@, k, v);
    }
}

#[derive(Debug, PartialEq)]
pub struct StreamQuery {
    pub stream_id: String,
    pub range: Option<TimeRange>,
    pub count: u64,
}

impl StreamQuery {
    /// The wire value of the optional `range` field: nil when absent.
    pub open spec fn range_opt_wire(self) -> ValModel {
        match self.range {
            Some(t) => t.wire(),
            None => ValModel::Nil,
        }
    }

    /// The record's wire fields, in declaration order.
    pub open spec fn wire_entries(self) -> Seq<(Seq<char>, ValModel)> {
        seq![
            ("streamId"@, ValModel::Str(self.stream_id@)),
            ("range"@, self.range_opt_wire()),
            ("count"@, ValModel::Uint(self.count)),
        ]
    }

    /// The record's wire value.
    pub open spec fn wire(self) -> ValModel {
        ValModel::Dict(self.wire_entries())
    }

    /// Whether decoded wire fields carry every required field with its
    /// declared type; unknown fields never disturb this, and absent
    /// fields with a declared default are allowed.
    pub open spec fn shape_ok(es: Seq<(Seq<char>, ValModel)>) -> bool {
        &&& entries_get(es, "streamId"@) matches Some(v) && v is Str
        &&& match entries_get(es, "range"@) {
            Some(v) => TimeRange::val_shape_ok(v) || v is Nil,
            None => true,
        }
        &&& entries_get(es, "count"@) matches Some(v) && v is Uint
    }

    /// Whether record `r` is the correct reading of wire fields `es`.
    pub open spec fn decodes_from(es: Seq<(Seq<char>, ValModel)>, r: StreamQuery) -> bool {
        &&& entries_get(es, "streamId"@) == Some(ValModel::Str(r.stream_id@))
        &&& match entries_get(es, "range"@) {
            Some(v) => (r.range matches Some(t) && TimeRange::val_decodes(v, t)) || (v is Nil
                && r.range is None),
            None => r.range is None,
        }
        &&& entries_get(es, "count"@) == Some(ValModel::Uint(r.count))
    }

    /// Content equality: every field agrees.
    pub open spec fn eq_fields(a: StreamQuery, b: StreamQuery) -> bool {
        &&& a.stream_id@ == b.stream_id@
        &&& match (a.range, b.range) {
            (Some(x), Some(y)) => TimeRange::eq_fields(x, y),
            (None, None) => true,
            _ => false,
        }
        &&& a.count == b.count
    }

    /// Lowers the record to its wire value.
    pub fn to_val(&self) -> (v: Val)
        ensures
            v@ == self.wire(),
    {
        let mut es: Vec<(String, Val)> = Vec::new();
        es.push((String::from_str("streamId"), Val::Str(self.stream_id.clone())));
        let range_val: Val = match &self.range {
            Some(t) => t.to_val(),
            None => Val::Nil,
        };
        es.push((String::from_str("range"), range_val));
        es.push((String::from_str("count"), Val::Uint(self.count)));
        proof {
            value::lemma_view_entries(es@);
            assert forall|i: int|
                0 <= i < es@.len() implies view_entries(es@)[i] == self.wire_entries()[i] by {
                assert(view_entries(es@)[i] == (es@[i].0@, es@[i].1@));
            }
            assert(view_entries(es@) =~= self.wire_entries());
        }
        Val::Dict(es)
    }

    /// Encodes the record through the canonical codec.
    pub fn encode(&self) -> (r: Result<Vec<u8>, EncodeError>)
        ensures
            match r {
                Ok(b) => wf(self.wire()) && b@ == enc(self.wire()),
                Err(e) => !wf(self.wire()) && e == EncodeError::Unencodable,
            },
    {
        let v = self.to_val();
        codec::encode_value(&v)
    }

    /// Lifts a decoded wire value into the record, filling defaults and
    /// ignoring unknown fields.
    pub fn from_val(v: &Val) -> (r: Result<StreamQuery, DecodeError>)
        ensures
            match r {
                Ok(rec) => v@ matches ValModel::Dict(es) && Self::shape_ok(es)
                    && Self::decodes_from(es, rec),
                Err(e) => match v@ {
                    ValModel::Dict(es) => !Self::shape_ok(es) && (e == DecodeError::MissingField
                        || e == DecodeError::TypeMismatch),
                    _ => e == DecodeError::TypeMismatch,
                },
            },
    {
        match v {
            Val::Dict(es) => {
                let stream_id = match value::get_str(es, "streamId") {
                    Ok(x) => x,
                    Err(e) => return Err(e),
                };
                let range: Option<TimeRange> = match value::map_get(es, "range") {
                    None => None,
                    Some(Val::Nil) => None,
                    Some(inner) => match TimeRange::from_val(inner) {
                        Ok(t) => Some(t),
                        Err(e) => return Err(e),
                    },
                };
                let count = match value::get_uint(es, "count") {
                    Ok(x) => x,
                    Err(e) => return Err(e),
                };
                Ok(StreamQuery { stream_id, range, count })
            },
            _ => Err(DecodeError::TypeMismatch),
        }
    }

    /// Decodes the record from its wire bytes.
    pub fn decode(bytes: &[u8]) -> (r: Result<StreamQuery, DecodeError>)
        ensures
            match r {
                Ok(rec) => dec_full(bytes@) matches Some(v) && (v matches ValModel::Dict(es)
                    && Self::shape_ok(es) && Self::decodes_from(es, rec)),
                Err(e) => match dec_full(bytes@) {
                    None => e == DecodeError::Malformed,
                    Some(v) => match v {
                        ValModel::Dict(es) => !Self::shape_ok(es) && (e
                            == DecodeError::MissingField || e == DecodeError::TypeMismatch),
                        _ => e == DecodeError::TypeMismatch,
                    },
                },
            },
    {
        let val = match codec::decode_value(bytes) {
            Ok(v) => v,
            Err(e) => return Err(e),
        };
        Self::from_val(&val)
    }

    /// Reading a record's own wire fields back yields the record: the
    /// encoder writes exactly what the decoder needs; and looking up
    /// any declared key finds exactly the field the encoder wrote.
    pub proof fn lemma_wire_round_trip(r: StreamQuery)
        ensures
            Self::shape_ok(r.wire_entries()),
            Self::decodes_from(r.wire_entries(), r),
            forall|i: int|
                0 <= i < r.wire_entries().len() ==> entries_get(
                    r.wire_entries(),
                    (#[trigger] r.wire_entries()[i]).0,
                ) == Some(r.wire_entries()[i].1),
    {
        reveal_strlit("count");
        reveal_strlit("range");
        reveal_strlit("streamId");
        let es = r.wire_entries();
        assert("count"@.len() == 5);
        assert("range"@.len() == 5);
        assert("streamId"@.len() == 8);
        assert("range"@[0] != "count"@[0]);
        value::lemma_entries_get_at(es, 0);
        value::lemma_entries_get_at(es, 1);
        value::lemma_entries_get_at(es, 2);
        match r.range {
            Some(t) => {
                TimeRange::lemma_wire_round_trip(t);
            },
            None => {},
        }
    }

    /// The wire fields of `r` pin the record: any correct reading of
    /// them agrees with `r` on every field.
    pub proof fn lemma_decode_agrees(r: StreamQuery, d: StreamQuery)
        requires
            Self::decodes_from(r.wire_entries(), d),
        ensures
            Self::eq_fields(d, r),
    {
        Self::lemma_wire_round_trip(r);
        let es = r.wire_entries();
        assert(entries_get(es, "streamId"@) == Some(ValModel::Str(r.stream_id@))) by {
            assert((es[0]).0 == "streamId"@);
        }
        assert(entries_get(es, "range"@) == Some(r.range_opt_wire())) by {
            assert((es[1]).0 == "range"@);
        }
        assert(entries_get(es, "count"@) == Some(ValModel::Uint(r.count))) by {
            assert((es[2]).0 == "count"@);
        }
        match (d.range, r.range) {
            (Some(x), Some(y)) => {
                TimeRange::lemma_decode_agrees(y, x);
            },
            _ => {},
        }
    }

    /// The round-trip law: decoding the canonical encoding of `r`
    /// yields a record that agrees with `r` on every field.
    pub proof fn lemma_round_trip(r: StreamQuery, d: StreamQuery)
        requires
            wf(r.wire()),
            Self::decodes_from(r.wire_entries(), d),
        ensures
            dec_full(enc(r.wire())) == Some(r.wire()),
            Self::eq_fields(d, r),
    {
        codec::lemma_round_trip(r.wire());
        Self::lemma_decode_agrees(r, d);
    }

    /// Forward tolerance: wire fields that carry only the required
    /// fields of this record still decode, every absent defaulted
    /// field resolving to its declared default.
    pub proof fn lemma_forward_tolerance(es: Seq<(Seq<char>, ValModel)>, d: StreamQuery)
        requires
            entries_get(es, "streamId"@) matches Some(v) && v is Str,
            entries_get(es, "range"@) is None,
            entries_get(es, "count"@) matches Some(v) && v is Uint,
        ensures
            Self::shape_ok(es),
            Self::decodes_from(es, d) ==> d.range is None,
    {
    }

    /// Unknown-field tolerance: appending a field under a key this
    /// record does not declare changes neither its shape check nor
    /// what any record decodes to.
    pub proof fn lemma_unknown_field_tolerance(
        es: Seq<(Seq<char>, ValModel)>,
        k: Seq<char>,
        v: ValModel,
        d: StreamQuery,
    )
        requires
            k != "streamId"@,
            k != "range"@,
            k != "count"@,
        ensures
            Self::shape_ok(es.push((k, v))) == Self::shape_ok(es),
            Self::decodes_from(es.push((k, v)), d) == Self::decodes_from(es, d),
    {
        value::lemma_entries_get_push_other(es, "streamId"@, k, v);
        value::lemma_entries_get_push_other(es, "range"@, k, v);
        value::lemma_entries_get_push_other(es, "count"@, k, v);
    }
}

#[derive(Debug, PartialEq)]
pub struct StreamResults {
    pub events: Vec<Event>,
}

impl StreamResults {
    /// The wire elements of the `events` field.
    pub open spec fn events_wire(self) -> Seq<ValModel> {
        Seq::new(self.events@.len(), |i: int| self.events@[i].wire())
    }

    /// The record's wire fields, in declaration order.
    pub open spec fn wire_entries(self) -> Seq<(Seq<char>, ValModel)> {
        seq![
            ("events"@, ValModel::Arr(self.events_wire())),
        ]
    }

    /// The record's wire value.
    pub open spec fn wire(self) -> ValModel {
        ValModel::Dict(self.wire_entries())
    }

    /// Whether decoded wire fields carry every required field with its
    /// declared type; unknown fields never disturb this, and absent
    /// fields with a declared default are allowed.
    pub open spec fn shape_ok(es: Seq<(Seq<char>, ValModel)>) -> bool {
        match entries_get(es, "events"@) {
            Some(v) => v matches ValModel::Arr(a) && (forall|i: int|
                0 <= i < a.len() ==> Event::val_shape_ok(#[trigger] a[i])),
            None => true,
        }
    }

    /// Whether record `r` is the correct reading of wire fields `es`.
    pub open spec fn decodes_from(es: Seq<(Seq<char>, ValModel)>, r: StreamResults) -> bool {
        match entries_get(es, "events"@) {
            Some(v) => v matches ValModel::Arr(a) && a.len() == r.events@.len() && (forall|i: int|
                0 <= i < a.len() ==> Event::val_decodes(#[trigger] a[i], r.events@[i])),
            None => r.events@.len() == 0,
        }
    }

    /// Content equality: every field agrees.
    pub open spec fn eq_fields(a: StreamResults, b: StreamResults) -> bool {
        Event::seq_eq(a.events@, b.events@)
    }

    /// Lowers the record to its wire value.
    #[verifier::loop_isolation(false)]
    pub fn to_val(&self) -> (v: Val)
        ensures
            v@ == self.wire(),
    {
        let mut es: Vec<(String, Val)> = Vec::new();
        let mut events_vals: Vec<Val> = Vec::new();
        let mut i: usize = 0;
        while i < self.events.len()
            invariant
                i <= self.events@.len(),
                events_vals@.len() == i,
                forall|j: int|
                    0 <= j < i ==> #[trigger] view_list(events_vals@)[j] == self.events@[j].wire(),
            decreases self.events@.len() - i,
        {
            proof {
                value::lemma_view_list(events_vals@);
            }
            let ghost before = events_vals@;
            events_vals.push(self.events[i].to_val());
            proof {
                value::lemma_view_list(events_vals@);
                assert forall|j: int|
                    0 <= j < i + 1 implies #[trigger] view_list(events_vals@)[j]
                        == self.events@[j].wire() by {
                    assert(view_list(events_vals@)[j] == events_vals@[j]@);
                    if j < i {
                        assert(events_vals@[j] == before[j]);
                        assert(view_list(before)[j] == before[j]@) by {
                            value::lemma_view_list(before);
                        }
                    }
                }
            }
            i = i + 1;
        }
        proof {
            value::lemma_view_list(events_vals@);
            assert(view_list(events_vals@) =~= self.events_wire());
        }
        es.push((String::from_str("events"), Val::Arr(events_vals)));
        proof {
            value::lemma_view_entries(es@);
            assert forall|i: int|
                0 <= i < es@.len() implies view_entries(es@)[i] == self.wire_entries()[i] by {
                assert(view_entries(es@)[i] == (es@[i].0@, es@[i].1@));
            }
            assert(view_entries(es@) =~= self.wire_entries());
        }
        Val::Dict(es)
    }

    /// Encodes the record through the canonical codec.
    pub fn encode(&self) -> (r: Result<Vec<u8>, EncodeError>)
        ensures
            match r {
                Ok(b) => wf(self.wire()) && b@ == enc(self.wire()),
                Err(e) => !wf(self.wire()) && e == EncodeError::Unencodable,
            },
    {
        let v = self.to_val();
        codec::encode_value(&v)
    }

    /// Lifts a decoded wire value into the record, filling defaults and
    /// ignoring unknown fields.
    #[verifier::loop_isolation(false)]
    pub fn from_val(v: &Val) -> (r: Result<StreamResults, DecodeError>)
        ensures
            match r {
                Ok(rec) => v@ matches ValModel::Dict(es) && Self::shape_ok(es)
                    && Self::decodes_from(es, rec),
                Err(e) => match v@ {
                    ValModel::Dict(es) => !Self::shape_ok(es) && (e == DecodeError::MissingField
                        || e == DecodeError::TypeMismatch),
                    _ => e == DecodeError::TypeMismatch,
                },
            },
    {
        match v {
            Val::Dict(es) => {
                let events: Vec<Event> = match value::map_get(es, "events") {
                    None => Vec::new(),
                    Some(Val::Arr(a)) => {
                        let mut items: Vec<Event> = Vec::new();
                        let mut i: usize = 0;
                        while i < a.len()
                            invariant
                                i <= a@.len(),
                                items@.len() == i,
                                forall|j: int|
                                    0 <= j < i ==> Event::val_shape_ok(
                                        #[trigger] view_list(a@)[j],
                                    ) && Event::val_decodes(view_list(a@)[j], items@[j]),
                            decreases a@.len() - i,
                        {
                            proof {
                                value::lemma_view_list(a@);
                                assert(view_list(a@)[i as int] == a@[i as int]@);
                            }
                            match Event::from_val(&a[i]) {
                                Ok(c) => items.push(c),
                                Err(e) => return Err(e),
                            }
                            i = i + 1;
                        }
                        proof {
                            value::lemma_view_list(a@);
                        }
                        items
                    },
                    Some(_) => return Err(DecodeError::TypeMismatch),
                };
                Ok(StreamResults { events })
            },
            _ => Err(DecodeError::TypeMismatch),
        }
    }

    /// Decodes the record from its wire bytes.
    pub fn decode(bytes: &[u8]) -> (r: Result<StreamResults, DecodeError>)
        ensures
            match r {
                Ok(rec) => dec_full(bytes@) matches Some(v) && (v matches ValModel::Dict(es)
                    && Self::shape_ok(es) && Self::decodes_from(es, rec)),
                Err(e) => match dec_full(bytes@) {
                    None => e == DecodeError::Malformed,
                    Some(v) => match v {
                        ValModel::Dict(es) => !Self::shape_ok(es) && (e
                            == DecodeError::MissingField || e == DecodeError::TypeMismatch),
                        _ => e == DecodeError::TypeMismatch,
                    },
                },
            },
    {
        let val = match codec::decode_value(bytes) {
            Ok(v) => v,
            Err(e) => return Err(e),
        };
        Self::from_val(&val)
    }

    /// Reading a record's own wire fields back yields the record: the
    /// encoder writes exactly what the decoder needs; and looking up
    /// any declared key finds exactly the field the encoder wrote.
    pub proof fn lemma_wire_round_trip(r: StreamResults)
        ensures
            Self::shape_ok(r.wire_entries()),
            Self::decodes_from(r.wire_entries(), r),
            forall|i: int|
                0 <= i < r.wire_entries().len() ==> entries_get(
                    r.wire_entries(),
                    (#[trigger] r.wire_entries()[i]).0,
                ) == Some(r.wire_entries()[i].1),
    {
        reveal_strlit("events");
        let es = r.wire_entries();
        assert("events"@.len() == 6);
        value::lemma_entries_get_at(es, 0);
        assert forall|i: int|
            0 <= i < r.events@.len() implies Event::val_shape_ok(#[trigger] r.events_wire()[i])
                && Event::val_decodes(r.events_wire()[i], r.events@[i]) by {
            assert(r.events_wire()[i] == r.events@[i].wire());
            Event::lemma_wire_round_trip(r.events@[i]);
        }
    }

    /// The wire fields of `r` pin the record: any correct reading of
    /// them agrees with `r` on every field.
    pub proof fn lemma_decode_agrees(r: StreamResults, d: StreamResults)
        requires
            Self::decodes_from(r.wire_entries(), d),
        ensures
            Self::eq_fields(d, r),
    {
        Self::lemma_wire_round_trip(r);
        let es = r.wire_entries();
        assert(entries_get(es, "events"@) == Some(ValModel::Arr(r.events_wire()))) by {
            assert((es[0]).0 == "events"@);
        }
        assert forall|i: int|
            0 <= i < d.events@.len() implies Event::eq_fields(#[trigger] d.events@[i], r.events@[i]) by {
            assert(r.events_wire()[i] == r.events@[i].wire());
            Event::lemma_decode_agrees(r.events@[i], d.events@[i]);
        }
    }

    /// The round-trip law: decoding the canonical encoding of `r`
    /// yields a record that agrees with `r` on every field.
    pub proof fn lemma_round_trip(r: StreamResults, d: StreamResults)
        requires
            wf(r.wire()),
            Self::decodes_from(r.wire_entries(), d),
        ensures
            dec_full(enc(r.wire())) == Some(r.wire()),
            Self::eq_fields(d, r),
    {
        codec::lemma_round_trip(r.wire());
        Self::lemma_decode_agrees(r, d);
    }

    /// Forward tolerance: wire fields that carry only the required
    /// fields of this record still decode, every absent defaulted
    /// field resolving to its declared default.
    pub proof fn lemma_forward_tolerance(es: Seq<(Seq<char>, ValModel)>, d: StreamResults)
        requires
            entries_get(es, "events"@) is None,
        ensures
            Self::shape_ok(es),
            Self::decodes_from(es, d) ==> d.events@.len() == 0,
    {
    }

    /// Unknown-field tolerance: appending a field under a key this
    /// record does not declare changes neither its shape check nor
    /// what any record decodes to.
    pub proof fn lemma_unknown_field_tolerance(
        es: Seq<(Seq<char>, ValModel)>,
        k: Seq<char>,
        v: ValModel,
        d: StreamResults,
    )
        requires
            k != "events"@,
        ensures
            Self::shape_ok(es.push((k, v))) == Self::shape_ok(es),
            Self::decodes_from(es.push((k, v)), d) == Self::decodes_from(es, d),
    {
        value::lemma_entries_get_push_other(es, "events"@, k, v);
    }
}

impl StreamQuery {
    /// The canonical example value used by the self-test fixtures.
    pub fn sample() -> (r: StreamQuery)
        ensures
            r.stream_id@ == "stream1"@,
            r.range matches Some(t) && t.min_time == 0 && t.max_time == 1000,
            r.count == 42,
    {
        StreamQuery {
            stream_id: String::from_str("stream1"),
            range: Some(TimeRange { min_time: 0, max_time: 1000 }),
            count: 42,
        }
    }
}

} // verus!
