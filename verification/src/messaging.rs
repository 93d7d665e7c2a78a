//! Message-broker record schemas of the `wascc:messaging` capability
//! domain.

use vstd::prelude::*;
use vstd::string::StringExecFns;
use crate::codec;
use crate::codec::{enc, dec_full};
use crate::error::{DecodeError, EncodeError};
use crate::value;
use crate::value::{Val, ValModel, entries_get, view_entries, wf};

verus! {

broadcast use vstd::std_specs::vec::group_vec_axioms, vstd::seq::group_seq_axioms;

/// Fire-and-forget publication of a message on a subject.
pub const OP_PUBLISH_MESSAGE: &'static str = "Publish";

/// Deliver an inbound message from the broker to an actor.
pub const OP_DELIVER_MESSAGE: &'static str = "DeliverMessage";

/// A timeout-bounded request-and-reply publication.
pub const OP_PERFORM_REQUEST: &'static str = "Request";

#[derive(Debug, PartialEq)]
pub struct BrokerMessage {
    pub subject: String,
    pub reply_to: String,
    pub body: Vec<u8>,
}

impl BrokerMessage {
    /// The record's wire fields, in declaration order.
    pub open spec fn wire_entries(self) -> Seq<(Seq<char>, ValModel)> {
        seq![
            ("subject"@, ValModel::Str(self.subject@)),
            ("replyTo"@, ValModel::Str(self.reply_to@)),
            ("body"@, ValModel::Bin(self.body@)),
        ]
    }

    /// The record's wire value.
    pub open spec fn wire(self) -> ValModel {
        ValModel::Dict(self.wire_entries())
    }

    /// Whether decoded wire fields carry every required field with its
    /// declared type; unknown fields never disturb this, and absent
    /// fields with a declared default are allowed.
    pub open spec fn shape_ok(es: Seq<(Seq<char>, ValModel)>) -> bool {
        &&& entries_get(es, "subject"@) matches Some(v) && v is Str
        &&& entries_get(es, "replyTo"@) matches Some(v) && v is Str
        &&& match entries_get(es, "body"@) {
            Some(v) => v is Bin,
            None => true,
        }
    }

    /// Whether record `r` is the correct reading of wire fields `es`.
    pub open spec fn decodes_from(es: Seq<(Seq<char>, ValModel)>, r: BrokerMessage) -> bool {
        &&& entries_get(es, "subject"@) == Some(ValModel::Str(r.subject@))
        &&& entries_get(es, "replyTo"@) == Some(ValModel::Str(r.reply_to@))
        &&& match entries_get(es, "body"@) {
            Some(v) => v == ValModel::Bin(r.body@),
            None => r.body@ == Seq::<u8>::empty(),
        }
    }

    /// Content equality: every field agrees.
    pub open spec fn eq_fields(a: BrokerMessage, b: BrokerMessage) -> bool {
        &&& a.subject@ == b.subject@
        &&& a.reply_to@ == b.reply_to@
        &&& a.body@ == b.body@
    }

    /// Lowers the record to its wire value.
    pub fn to_val(&self) -> (v: Val)
        ensures
            v@ == self.wire(),
    {
        let mut es: Vec<(String, Val)> = Vec::new();
        es.push((String::from_str("subject"), Val::Str(self.subject.clone())));
        es.push((String::from_str("replyTo"), Val::Str(self.reply_to.clone())));
        es.push((String::from_str("body"), Val::Bin(value::clone_bytes(&self.body))));
        proof {
            value::lemma_view_entries(es@);
            assert forall|i: int|
                0 <= i < es@.len() implies view_entries(es@)[i] == self.wire_entries()[i] by {
                assert(view_entries(es@)[i] == (es@[i].0@, es@[i].1@));
            }
            assert(view_entries(es@) =~= self.wire_entries());
        }
        Val::Dict(es)
    }

    /// Encodes the record through the canonical codec.
    pub fn encode(&self) -> (r: Result<Vec<u8>, EncodeError>)
        ensures
            match r {
                Ok(b) => wf(self.wire()) && b@ == enc(self.wire()),
                Err(e) => !wf(self.wire()) && e == EncodeError::Unencodable,
            },
    {
        let v = self.to_val();
        codec::encode_value(&v)
    }

    /// Lifts a decoded wire value into the record, filling defaults and
    /// ignoring unknown fields.
    pub fn from_val(v: &Val) -> (r: Result<BrokerMessage, DecodeError>)
        ensures
            match r {
                Ok(rec) => v@ matches ValModel::Dict(es) && Self::shape_ok(es)
                    && Self::decodes_from(es, rec),
                Err(e) => match v@ {
                    ValModel::Dict(es) => !Self::shape_ok(es) && (e == DecodeError::MissingField
                        || e == DecodeError::TypeMismatch),
                    _ => e == DecodeError::TypeMismatch,
                },
            },
    {
        match v {
            Val::Dict(es) => {
                let subject = match value::get_str(es, "subject") {
                    Ok(x) => x,
                    Err(e) => return Err(e),
                };
                let reply_to = match value::get_str(es, "replyTo") {
                    Ok(x) => x,
                    Err(e) => return Err(e),
                };
                let body = match value::get_bin_or_empty(es, "body") {
                    Ok(x) => x,
                    Err(e) => return Err(e),
                };
                Ok(BrokerMessage { subject, reply_to, body })
            },
            _ => Err(DecodeError::TypeMismatch),
        }
    }

    /// Decodes the record from its wire bytes.
    pub fn decode(bytes: &[u8]) -> (r: Result<BrokerMessage, DecodeError>)
        ensures
            match r {
                Ok(rec) => dec_full(bytes@) matches Some(v) && (v matches ValModel::Dict(es)
                    && Self::shape_ok(es) && Self::decodes_from(es, rec)),
                Err(e) => match dec_full(bytes@) {
                    None => e == DecodeError::Malformed,
                    Some(v) => match v {
                        ValModel::Dict(es) => !Self::shape_ok(es) && (e
                            == DecodeError::MissingField || e == DecodeError::TypeMismatch),
                        _ => e == DecodeError::TypeMismatch,
                    },
                },
            },
    {
        let val = match codec::decode_value(bytes) {
            Ok(v) => v,
            Err(e) => return Err(e),
        };
        Self::from_val(&val)
    }

    /// Reading a record's own wire fields back yields the record: the
    /// encoder writes exactly what the decoder needs; and looking up
    /// any declared key finds exactly the field the encoder wrote.
    pub proof fn lemma_wire_round_trip(r: BrokerMessage)
        ensures
            Self::shape_ok(r.wire_entries()),
            Self::decodes_from(r.wire_entries(), r),
            forall|i: int|
                0 <= i < r.wire_entries().len() ==> entries_get(
                    r.wire_entries(),
                    (#[trigger] r.wire_entries()[i]).0,
                ) == Some(r.wire_entries()[i].1),
    {
        reveal_strlit("body");
        reveal_strlit("replyTo");
        reveal_strlit("subject");
        let es = r.wire_entries();
        assert("body"@.len() == 4);
        assert("replyTo"@.len() == 7);
        assert("subject"@.len() == 7);
        assert("subject"@[0] != "replyTo"@[0]);
        value::lemma_entries_get_at(es, 0);
        value::lemma_entries_get_at(es, 1);
        value::lemma_entries_get_at(es, 2);
    }

    /// The wire fields of `r` pin the record: any correct reading of
    /// them agrees with `r` on every field.
    pub proof fn lemma_decode_agrees(r: BrokerMessage, d: BrokerMessage)
        requires
            Self::decodes_from(r.wire_entries(), d),
        ensures
            Self::eq_fields(d, r),
    {
        Self::lemma_wire_round_trip(r);
        let es = r.wire_entries();
        assert(entries_get(es, "subject"@) == Some(ValModel::Str(r.subject@))) by {
            assert((es[0]).0 == "subject"@);
        }
        assert(entries_get(es, "replyTo"@) == Some(ValModel::Str(r.reply_to@))) by {
            assert((es[1]).0 == "replyTo"@);
        }
        assert(entries_get(es, "body"@) == Some(ValModel::Bin(r.body@))) by {
            assert((es[2]).0 == "body"@);
        }
    }

    /// The round-trip law: decoding the canonical encoding of `r`
    /// yields a record that agrees with `r` on every field.
    pub proof fn lemma_round_trip(r: BrokerMessage, d: BrokerMessage)
        requires
            wf(r.wire()),
            Self::decodes_from(r.wire_entries(), d),
        ensures
            dec_full(enc(r.wire())) == Some(r.wire()),
            Self::eq_fields(d, r),
    {
        codec::lemma_round_trip(r.wire());
        Self::lemma_decode_agrees(r, d);
    }

    /// Forward tolerance: wire fields that carry only the required
    /// fields of this record still decode, every absent defaulted
    /// field resolving to its declared default.
    pub proof fn lemma_forward_tolerance(es: Seq<(Seq<char>, ValModel)>, d: BrokerMessage)
        requires
            entries_get(es, "subject"@) matches Some(v) && v is Str,
            entries_get(es, "replyTo"@) matches Some(v) && v is Str,
            entries_get(es, "body"@) is None,
        ensures
            Self::shape_ok(es),
            Self::decodes_from(es, d) ==> d.body@ == Seq::<u8>::empty(),
    {
    }

    /// Unknown-field tolerance: appending a field under a key this
    /// record does not declare changes neither its shape check nor
    /// what any record decodes to.
    pub proof fn lemma_unknown_field_tolerance(
        es: Seq<(Seq<char>, ValModel)>,
        k: Seq<char>,
        v: ValModel,
        d: BrokerMessage,
    )
        requires
            k != "subject"@,
            k != "replyTo"@,
            k != "body"@,
        ensures
            Self::shape_ok(es.push((k, v))) == Self::shape_ok(es),
            Self::decodes_from(es.push((k, v)), d) == Self::decodes_from(es, d),
    {
        value::lemma_entries_get_push_other(es, "subject"@, k, v);
        value::lemma_entries_get_push_other(es, "replyTo"@, k, v);
        value::lemma_entries_get_push_other(es, "body"@, k, v);
    }
}

#[derive(Debug, PartialEq)]
pub struct RequestMessage {
    pub subject: String,
    pub body: Vec<u8>,
    pub timeout_ms: i64,
}

impl RequestMessage {
    /// The record's wire fields, in declaration order.
    pub open spec fn wire_entries(self) -> Seq<(Seq<char>, ValModel)> {
        seq![
            ("subject"@, ValModel::Str(self.subject@)),
            ("body"@, ValModel::Bin(self.body@)),
            ("timeout"@, value::int_wire(self.timeout_ms as int)),
        ]
    }

    /// The record's wire value.
    pub open spec fn wire(self) -> ValModel {
        ValModel::Dict(self.wire_entries())
    }

    /// Whether decoded wire fields carry every required field with its
    /// declared type; unknown fields never disturb this, and absent
    /// fields with a declared default are allowed.
    pub open spec fn shape_ok(es: Seq<(Seq<char>, ValModel)>) -> bool {
        &&& entries_get(es, "subject"@) matches Some(v) && v is Str
        &&& match entries_get(es, "body"@) {
            Some(v) => v is Bin,
            None => true,
        }
        &&& entries_get(es, "timeout"@) matches Some(v) && value::is_i64(v)
    }

    /// Whether record `r` is the correct reading of wire fields `es`.
    pub open spec fn decodes_from(es: Seq<(Seq<char>, ValModel)>, r: RequestMessage) -> bool {
        &&& entries_get(es, "subject"@) == Some(ValModel::Str(r.subject@))
        &&& match entries_get(es, "body"@) {
            Some(v) => v == ValModel::Bin(r.body@),
            None => r.body@ == Seq::<u8>::empty(),
        }
        &&& entries_get(es, "timeout"@) matches Some(v) && value::is_i64(v) && value::int_of(v) == r.timeout_ms as int
    }

    /// Content equality: every field agrees.
    pub open spec fn eq_fields(a: RequestMessage, b: RequestMessage) -> bool {
        &&& a.subject@ == b.subject@
        &&& a.body@ == b.body@
        &&& a.timeout_ms == b.timeout_ms
    }

    /// Lowers the record to its wire value.
    pub fn to_val(&self) -> (v: Val)
        ensures
            v@ == self.wire(),
    {
        let mut es: Vec<(String, Val)> = Vec::new();
        es.push((String::from_str("subject"), Val::Str(self.subject.clone())));
        es.push((String::from_str("body"), Val::Bin(value::clone_bytes(&self.body))));
        es.push((String::from_str("timeout"), value::int_to_val(self.timeout_ms)));
        proof {
            value::lemma_view_entries(es@);
            assert forall|i: int|
                0 <= i < es@.len() implies view_entries(es@)[i] == self.wire_entries()[i] by {
                assert(view_entries(es@)[i] == (es@[i].0@, es@[i].1@));
            }
            assert(view_entries(es@) =~= self.wire_entries());
        }
        Val::Dict(es)
    }

    /// Encodes the record through the canonical codec.
    pub fn encode(&self) -> (r: Result<Vec<u8>, EncodeError>)
        ensures
            match r {
                Ok(b) => wf(self.wire()) && b@ == enc(self.wire()),
                Err(e) => !wf(self.wire()) && e == EncodeError::Unencodable,
            },
    {
        let v = self.to_val();
        codec::encode_value(&v)
    }

    /// Lifts a decoded wire value into the record, filling defaults and
    /// ignoring unknown fields.
    pub fn from_val(v: &Val) -> (r: Result<RequestMessage, DecodeError>)
        ensures
            match r {
                Ok(rec) => v@ matches ValModel::Dict(es) && Self::shape_ok(es)
                    && Self::decodes_from(es, rec),
                Err(e) => match v@ {
                    ValModel::Dict(es) => !Self::shape_ok(es) && (e == DecodeError::MissingField
                        || e == DecodeError::TypeMismatch),
                    _ => e == DecodeError::TypeMismatch,
                },
            },
    {
        match v {
            Val::Dict(es) => {
                let subject = match value::get_str(es, "subject") {
                    Ok(x) => x,
                    Err(e) => return Err(e),
                };
                let body = match value::get_bin_or_empty(es, "body") {
                    Ok(x) => x,
                    Err(e) => return Err(e),
                };
                let timeout_ms = match value::get_i64(es, "timeout") {
                    Ok(x) => x,
                    Err(e) => return Err(e),
                };
                Ok(RequestMessage { subject, body, timeout_ms })
            },
            _ => Err(DecodeError::TypeMismatch),
        }
    }

    /// Decodes the record from its wire bytes.
    pub fn decode(bytes: &[u8]) -> (r: Result<RequestMessage, DecodeError>)
        ensures
            match r {
                Ok(rec) => dec_full(bytes@) matches Some(v) && (v matches ValModel::Dict(es)
                    && Self::shape_ok(es) && Self::decodes_from(es, rec)),
                Err(e) => match dec_full(bytes@) {
                    None => e == DecodeError::Malformed,
                    Some(v) => match v {
                        ValModel::Dict(es) => !Self::shape_ok(es) && (e
                            == DecodeError::MissingField || e == DecodeError::TypeMismatch),
                        _ => e == DecodeError::TypeMismatch,
                    },
                },
            },
    {
        let val = match codec::decode_value(bytes) {
            Ok(v) => v,
            Err(e) => return Err(e),
        };
        Self::from_val(&val)
    }

    /// Reading a record's own wire fields back yields the record: the
    /// encoder writes exactly what the decoder needs; and looking up
    /// any declared key finds exactly the field the encoder wrote.
    pub proof fn lemma_wire_round_trip(r: RequestMessage)
        ensures
            Self::shape_ok(r.wire_entries()),
            Self::decodes_from(r.wire_entries(), r),
            forall|i: int|
                0 <= i < r.wire_entries().len() ==> entries_get(
                    r.wire_entries(),
                    (#[trigger] r.wire_entries()[i]).0,
                ) == Some(r.wire_entries()[i].1),
    {
        reveal_strlit("body");
        reveal_strlit("subject");
        reveal_strlit("timeout");
        let es = r.wire_entries();
        assert("body"@.len() == 4);
        assert("subject"@.len() == 7);
        assert("timeout"@.len() == 7);
        assert("subject"@[0] != "timeout"@[0]);
        value::lemma_entries_get_at(es, 0);
        value::lemma_entries_get_at(es, 1);
        value::lemma_entries_get_at(es, 2);
    }

    /// The wire fields of `r` pin the record: any correct reading of
    /// them agrees with `r` on every field.
    pub proof fn lemma_decode_agrees(r: RequestMessage, d: RequestMessage)
        requires
            Self::decodes_from(r.wire_entries(), d),
        ensures
            Self::eq_fields(d, r),
    {
        Self::lemma_wire_round_trip(r);
        let es = r.wire_entries();
        assert(entries_get(es, "subject"@) == Some(ValModel::Str(r.subject@))) by {
            assert((es[0]).0 == "subject"@);
        }
        assert(entries_get(es, "body"@) == Some(ValModel::Bin(r.body@))) by {
            assert((es[1]).0 == "body"@);
        }
        assert(entries_get(es, "timeout"@) == Some(value::int_wire(r.timeout_ms as int))) by {
            assert((es[2]).0 == "timeout"@);
        }
    }

    /// The round-trip law: decoding the canonical encoding of `r`
    /// yields a record that agrees with `r` on every field.
    pub proof fn lemma_round_trip(r: RequestMessage, d: RequestMessage)
        requires
            wf(r.wire()),
            Self::decodes_from(r.wire_entries(), d),
        ensures
            dec_full(enc(r.wire())) == Some(r.wire()),
            Self::eq_fields(d, r),
    {
        codec::lemma_round_trip(r.wire());
        Self::lemma_decode_agrees(r, d);
    }

    /// Forward tolerance: wire fields that carry only the required
    /// fields of this record still decode, every absent defaulted
    /// field resolving to its declared default.
    pub proof fn lemma_forward_tolerance(es: Seq<(Seq<char>, ValModel)>, d: RequestMessage)
        requires
            entries_get(es, "subject"@) matches Some(v) && v is Str,
            entries_get(es, "body"@) is None,
            entries_get(es, "timeout"@) matches Some(v) && value::is_i64(v),
        ensures
            Self::shape_ok(es),
            Self::decodes_from(es, d) ==> d.body@ == Seq::<u8>::empty(),
    {
    }

    /// Unknown-field tolerance: appending a field under a key this
    /// record does not declare changes neither its shape check nor
    /// what any record decodes to.
    pub proof fn lemma_unknown_field_tolerance(
        es: Seq<(Seq<char>, ValModel)>,
        k: Seq<char>,
        v: ValModel,
        d: RequestMessage,
    )
        requires
            k != "subject"@,
            k != "body"@,
            k != "timeout"@,
        ensures
            Self::shape_ok(es.push((k, v))) == Self::shape_ok(es),
            Self::decodes_from(es.push((k, v)), d) == Self::decodes_from(es, d),
    {
        value::lemma_entries_get_push_other(es, "subject"@, k, v);
        value::lemma_entries_get_push_other(es, "body"@, k, v);
        value::lemma_entries_get_push_other(es, "timeout"@, k, v);
    }
}

impl RequestMessage {
    /// The canonical example value used by the self-test fixtures.
    pub fn sample() -> (r: RequestMessage)
        ensures
            r.subject@ == "user.profile.175"@,
            r.body@ == vstd::utf8::encode_utf8("raw query bytes"@),
            r.timeout_ms == 100,
    {
        RequestMessage {
            subject: String::from_str("user.profile.175"),
            body: vstd::string::StrSliceExecFns::as_bytes_vec("raw query bytes"),
            timeout_ms: 100,
        }
    }
}

} // verus!
