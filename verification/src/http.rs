//! HTTP server and client record schemas of the `wascc:http_server` and
//! `wascc:httpclient` capability domains.

use vstd::prelude::*;
use vstd::string::StringExecFns;
use crate::codec;
use crate::codec::{enc, dec_full};
use crate::error::{DecodeError, EncodeError};
use crate::value;
use crate::value::{Val, ValModel, entries_get, view_entries, wf};

verus! {

broadcast use vstd::std_specs::vec::group_vec_axioms, vstd::seq::group_seq_axioms;

/// Ask the HTTP client provider to perform an outbound request.
pub const OP_PERFORM_REQUEST: &'static str = "PerformRequest";

/// Deliver an inbound request from the HTTP server provider to an actor.
pub const OP_HANDLE_REQUEST: &'static str = "HandleRequest";

#[derive(Debug, PartialEq)]
pub struct Request {
    pub method: String,
    pub path: String,
    pub query_string: String,
    pub header: Vec<(String, String)>,
    pub body: Vec<u8>,
}

impl Request {
    /// The record's wire fields, in declaration order.
    pub open spec fn wire_entries(self) -> Seq<(Seq<char>, ValModel)> {
        seq![
            ("method"@, ValModel::Str(self.method@)),
            ("path"@, ValModel::Str(self.path@)),
            ("queryString"@, ValModel::Str(self.query_string@)),
            ("header"@, ValModel::Dict(value::pairs_entries(self.header@))),
            ("body"@, ValModel::Bin(self.body@)),
        ]
    }

    /// The record's wire value.
    pub open spec fn wire(self) -> ValModel {
        ValModel::Dict(self.wire_entries())
    }

    /// Whether decoded wire fields carry every required field with its
    /// declared type; unknown fields never disturb this, and absent
    /// fields with a declared default are allowed.
    pub open spec fn shape_ok(es: Seq<(Seq<char>, ValModel)>) -> bool {
        &&& entries_get(es, "method"@) matches Some(v) && v is Str
        &&& entries_get(es, "path"@) matches Some(v) && v is Str
        &&& entries_get(es, "queryString"@) matches Some(v) && v is Str
        &&& match entries_get(es, "header"@) {
            Some(v) => v matches ValModel::Dict(m) && value::all_str_values(m),
            None => true,
        }
        &&& match entries_get(es, "body"@) {
            Some(v) => v is Bin,
            None => true,
        }
    }

    /// Whether record `r` is the correct reading of wire fields `es`.
    pub open spec fn decodes_from(es: Seq<(Seq<char>, ValModel)>, r: Request) -> bool {
        &&& entries_get(es, "method"@) == Some(ValModel::Str(r.method@))
        &&& entries_get(es, "path"@) == Some(ValModel::Str(r.path@))
        &&& entries_get(es, "queryString"@) == Some(ValModel::Str(r.query_string@))
        &&& match entries_get(es, "header"@) {
            Some(v) => v matches ValModel::Dict(m) && value::str_entries(m, r.header@),
            None => r.header@.len() == 0,
        }
        &&& match entries_get(es, "body"@) {
            Some(v) => v == ValModel::Bin(r.body@),
            None => r.body@ == Seq::<u8>::empty(),
        }
    }

    /// Content equality: every field agrees.
    pub open spec fn eq_fields(a: Request, b: Request) -> bool {
        &&& a.method@ == b.method@
        &&& a.path@ == b.path@
        &&& a.query_string@ == b.query_string@
        &&& value::pairs_eq(a.header@, b.header@)
        &&& a.body@ == b.body@
    }

    /// Lowers the record to its wire value.
    pub fn to_val(&self) -> (v: Val)
        ensures
            v@ == self.wire(),
    {
        let mut es: Vec<(String, Val)> = Vec::new();
        es.push((String::from_str("method"), Val::Str(self.method.clone())));
        es.push((String::from_str("path"), Val::Str(self.path.clone())));
        es.push((String::from_str("queryString"), Val::Str(self.query_string.clone())));
        es.push((String::from_str("header"), value::pairs_to_val(&self.header)));
        es.push((String::from_str("body"), Val::Bin(value::clone_bytes(&self.body))));
        proof {
            value::lemma_view_entries(es@);
            assert forall|i: int|
                0 <= i < es@.len() implies view_entries(es@)[i] == self.wire_entries()[i] by {
                assert(view_entries(es@)[i] == (es@[i].0@, es@[i].1@));
            }
            assert(view_entries(es@) =~= self.wire_entries());
        }
        Val::Dict(es)
    }

    /// Encodes the record through the canonical codec.
    pub fn encode(&self) -> (r: Result<Vec<u8>, EncodeError>)
        ensures
            match r {
                Ok(b) => wf(self.wire()) && b@ == enc(self.wire()),
                Err(e) => !wf(self.wire()) && e == EncodeError::Unencodable,
            },
    {
        let v = self.to_val();
        codec::encode_value(&v)
    }

    /// Lifts a decoded wire value into the record, filling defaults and
    /// ignoring unknown fields.
    pub fn from_val(v: &Val) -> (r: Result<Request, DecodeError>)
        ensures
            match r {
                Ok(rec) => v@ matches ValModel::Dict(es) && Self::shape_ok(es)
                    && Self::decodes_from(es, rec),
                Err(e) => match v@ {
                    ValModel::Dict(es) => !Self::shape_ok(es) && (e == DecodeError::MissingField
                        || e == DecodeError::TypeMismatch),
                    _ => e == DecodeError::TypeMismatch,
                },
            },
    {
        match v {
            Val::Dict(es) => {
                let method = match value::get_str(es, "method") {
                    Ok(x) => x,
                    Err(e) => return Err(e),
                };
                let path = match value::get_str(es, "path") {
                    Ok(x) => x,
                    Err(e) => return Err(e),
                };
                let query_string = match value::get_str(es, "queryString") {
                    Ok(x) => x,
                    Err(e) => return Err(e),
                };
                let header = match value::get_str_dict_or_empty(es, "header") {
                    Ok(x) => x,
                    Err(e) => return Err(e),
                };
                let body = match value::get_bin_or_empty(es, "body") {
                    Ok(x) => x,
                    Err(e) => return Err(e),
                };
                Ok(Request { method, path, query_string, header, body })
            },
            _ => Err(DecodeError::TypeMismatch),
        }
    }

    /// Decodes the record from its wire bytes.
    pub fn decode(bytes: &[u8]) -> (r: Result<Request, DecodeError>)
        ensures
            match r {
                Ok(rec) => dec_full(bytes@) matches Some(v) && (v matches ValModel::Dict(es)
                    && Self::shape_ok(es) && Self::decodes_from(es, rec)),
                Err(e) => match dec_full(bytes@) {
                    None => e == DecodeError::Malformed,
                    Some(v) => match v {
                        ValModel::Dict(es) => !Self::shape_ok(es) && (e
                            == DecodeError::MissingField || e == DecodeError::TypeMismatch),
                        _ => e == DecodeError::TypeMismatch,
                    },
                },
            },
    {
        let val = match codec::decode_value(bytes) {
            Ok(v) => v,
            Err(e) => return Err(e),
        };
        Self::from_val(&val)
    }

    /// Reading a record's own wire fields back yields the record: the
    /// encoder writes exactly what the decoder needs; and looking up
    /// any declared key finds exactly the field the encoder wrote.
    pub proof fn lemma_wire_round_trip(r: Request)
        ensures
            Self::shape_ok(r.wire_entries()),
            Self::decodes_from(r.wire_entries(), r),
            forall|i: int|
                0 <= i < r.wire_entries().len() ==> entries_get(
                    r.wire_entries(),
                    (#[trigger] r.wire_entries()[i]).0,
                ) == Some(r.wire_entries()[i].1),
    {
        reveal_strlit("body");
        reveal_strlit("header");
        reveal_strlit("method");
        reveal_strlit("path");
        reveal_strlit("queryString");
        let es = r.wire_entries();
        assert("body"@.len() == 4);
        assert("header"@.len() == 6);
        assert("method"@.len() == 6);
        assert("path"@.len() == 4);
        assert("queryString"@.len() == 11);
        assert("method"@[0] != "header"@[0]);
        assert("path"@[0] != "body"@[0]);
        value::lemma_entries_get_at(es, 0);
        value::lemma_entries_get_at(es, 1);
        value::lemma_entries_get_at(es, 2);
        value::lemma_entries_get_at(es, 3);
        value::lemma_entries_get_at(es, 4);
    }

    /// The wire fields of `r` pin the record: any correct reading of
    /// them agrees with `r` on every field.
    pub proof fn lemma_decode_agrees(r: Request, d: Request)
        requires
            Self::decodes_from(r.wire_entries(), d),
        ensures
            Self::eq_fields(d, r),
    {
        Self::lemma_wire_round_trip(r);
        let es = r.wire_entries();
        assert(entries_get(es, "method"@) == Some(ValModel::Str(r.method@))) by {
            assert((es[0]).0 == "method"@);
        }
        assert(entries_get(es, "path"@) == Some(ValModel::Str(r.path@))) by {
            assert((es[1]).0 == "path"@);
        }
        assert(entries_get(es, "queryString"@) == Some(ValModel::Str(r.query_string@))) by {
            assert((es[2]).0 == "queryString"@);
        }
        assert(entries_get(es, "header"@) == Some(ValModel::Dict(value::pairs_entries(r.header@)))) by {
            assert((es[3]).0 == "header"@);
        }
        assert(entries_get(es, "body"@) == Some(ValModel::Bin(r.body@))) by {
            assert((es[4]).0 == "body"@);
        }
        assert forall|i: int|
            0 <= i < d.header@.len() implies (#[trigger] d.header@[i]).0@ == r.header@[i].0@
                && d.header@[i].1@ == r.header@[i].1@ by {
            assert(value::pairs_entries(r.header@)[i] == (r.header@[i].0@, ValModel::Str(
                r.header@[i].1@,
            )));
        }
    }

    /// The round-trip law: decoding the canonical encoding of `r`
    /// yields a record that agrees with `r` on every field.
    pub proof fn lemma_round_trip(r: Request, d: Request)
        requires
            wf(r.wire()),
            Self::decodes_from(r.wire_entries(), d),
        ensures
            dec_full(enc(r.wire())) == Some(r.wire()),
            Self::eq_fields(d, r),
    {
        codec::lemma_round_trip(r.wire());
        Self::lemma_decode_agrees(r, d);
    }

    /// Forward tolerance: wire fields that carry only the required
    /// fields of this record still decode, every absent defaulted
    /// field resolving to its declared default.
    pub proof fn lemma_forward_tolerance(es: Seq<(Seq<char>, ValModel)>, d: Request)
        requires
            entries_get(es, "method"@) matches Some(v) && v is Str,
            entries_get(es, "path"@) matches Some(v) && v is Str,
            entries_get(es, "queryString"@) matches Some(v) && v is Str,
            entries_get(es, "header"@) is None,
            entries_get(es, "body"@) is None,
        ensures
            Self::shape_ok(es),
            Self::decodes_from(es, d) ==> d.header@.len() == 0 && d.body@ == Seq::<u8>::empty(),
    {
    }

    /// Unknown-field tolerance: appending a field under a key this
    /// record does not declare changes neither its shape check nor
    /// what any record decodes to.
    pub proof fn lemma_unknown_field_tolerance(
        es: Seq<(Seq<char>, ValModel)>,
        k: Seq<char>,
        v: ValModel,
        d: Request,
    )
        requires
            k != "method"@,
            k != "path"@,
            k != "queryString"@,
            k != "header"@,
            k != "body"@,
        ensures
            Self::shape_ok(es.push((k, v))) == Self::shape_ok(es),
            Self::decodes_from(es.push((k, v)), d) == Self::decodes_from(es, d),
    {
        value::lemma_entries_get_push_other(es, "method"@, k, v);
        value::lemma_entries_get_push_other(es, "path"@, k, v);
        value::lemma_entries_get_push_other(es, "queryString"@, k, v);
        value::lemma_entries_get_push_other(es, "header"@, k, v);
        value::lemma_entries_get_push_other(es, "body"@, k, v);
    }
}

#[derive(Debug, PartialEq)]
pub struct Response {
    pub status_code: u32,
    pub status: String,
    pub header: Vec<(String, String)>,
    pub body: Vec<u8>,
}

impl Response {
    /// The record's wire fields, in declaration order.
    pub open spec fn wire_entries(self) -> Seq<(Seq<char>, ValModel)> {
        seq![
            ("statusCode"@, ValModel::Uint(self.status_code as u64)),
            ("status"@, ValModel::Str(self.status@)),
            ("header"@, ValModel::Dict(value::pairs_entries(self.header@))),
            ("body"@, ValModel::Bin(self.body@)),
        ]
    }

    /// The record's wire value.
    pub open spec fn wire(self) -> ValModel {
        ValModel::Dict(self.wire_entries())
    }

    /// Whether decoded wire fields carry every required field with its
    /// declared type; unknown fields never disturb this, and absent
    /// fields with a declared default are allowed.
    pub open spec fn shape_ok(es: Seq<(Seq<char>, ValModel)>) -> bool {
        &&& entries_get(es, "statusCode"@) matches Some(v) && value::is_u32(v)
        &&& entries_get(es, "status"@) matches Some(v) && v is Str
        &&& match entries_get(es, "header"@) {
            Some(v) => v matches ValModel::Dict(m) && value::all_str_values(m),
            None => true,
        }
        &&& match entries_get(es, "body"@) {
            Some(v) => v is Bin,
            None => true,
        }
    }

    /// Whether record `r` is the correct reading of wire fields `es`.
    pub open spec fn decodes_from(es: Seq<(Seq<char>, ValModel)>, r: Response) -> bool {
        &&& entries_get(es, "statusCode"@) == Some(ValModel::Uint(r.status_code as u64))
        &&& entries_get(es, "status"@) == Some(ValModel::Str(r.status@))
        &&& match entries_get(es, "header"@) {
            Some(v) => v matches ValModel::Dict(m) && value::str_entries(m, r.header@),
            None => r.header@.len() == 0,
        }
        &&& match entries_get(es, "body"@) {
            Some(v) => v == ValModel::Bin(r.body@),
            None => r.body@ == Seq::<u8>::empty(),
        }
    }

    /// Content equality: every field agrees.
    pub open spec fn eq_fields(a: Response, b: Response) -> bool {
        &&& a.status_code == b.status_code
        &&& a.status@ == b.status@
        &&& value::pairs_eq(a.header@, b.header@)
        &&& a.body@ == b.body@
    }

    /// Lowers the record to its wire value.
    pub fn to_val(&self) -> (v: Val)
        ensures
            v@ == self.wire(),
    {
        let mut es: Vec<(String, Val)> = Vec::new();
        es.push((String::from_str("statusCode"), Val::Uint(self.status_code as u64)));
        es.push((String::from_str("status"), Val::Str(self.status.clone())));
        es.push((String::from_str("header"), value::pairs_to_val(&self.header)));
        es.push((String::from_str("body"), Val::Bin(value::clone_bytes(&self.body))));
        proof {
            value::lemma_view_entries(es@);
            assert forall|i: int|
                0 <= i < es@.len() implies view_entries(es@)[i] == self.wire_entries()[i] by {
                assert(view_entries(es@)[i] == (es@[i].0@, es@[i].1@));
            }
            assert(view_entries(es@) =~= self.wire_entries());
        }
        Val::Dict(es)
    }

    /// Encodes the record through the canonical codec.
    pub fn encode(&self) -> (r: Result<Vec<u8>, EncodeError>)
        ensures
            match r {
                Ok(b) => wf(self.wire()) && b@ == enc(self.wire()),
                Err(e) => !wf(self.wire()) && e == EncodeError::Unencodable,
            },
    {
        let v = self.to_val();
        codec::encode_value(&v)
    }

    /// Lifts a decoded wire value into the record, filling defaults and
    /// ignoring unknown fields.
    pub fn from_val(v: &Val) -> (r: Result<Response, DecodeError>)
        ensures
            match r {
                Ok(rec) => v@ matches ValModel::Dict(es) && Self::shape_ok(es)
                    && Self::decodes_from(es, rec),
                Err(e) => match v@ {
                    ValModel::Dict(es) => !Self::shape_ok(es) && (e == DecodeError::MissingField
                        || e == DecodeError::TypeMismatch),
                    _ => e == DecodeError::TypeMismatch,
                },
            },
    {
        match v {
            Val::Dict(es) => {
                let status_code = match value::get_u32(es, "statusCode") {
                    Ok(x) => x,
                    Err(e) => return Err(e),
                };
                let status = match value::get_str(es, "status") {
                    Ok(x) => x,
                    Err(e) => return Err(e),
                };
                let header = match value::get_str_dict_or_empty(es, "header") {
                    Ok(x) => x,
                    Err(e) => return Err(e),
                };
                let body = match value::get_bin_or_empty(es, "body") {
                    Ok(x) => x,
                    Err(e) => return Err(e),
                };
                Ok(Response { status_code, status, header, body })
            },
            _ => Err(DecodeError::TypeMismatch),
        }
    }

    /// Decodes the record from its wire bytes.
    pub fn decode(bytes: &[u8]) -> (r: Result<Response, DecodeError>)
        ensures
            match r {
                Ok(rec) => dec_full(bytes@) matches Some(v) && (v matches ValModel::Dict(es)
                    && Self::shape_ok(es) && Self::decodes_from(es, rec)),
                Err(e) => match dec_full(bytes@) {
                    None => e == DecodeError::Malformed,
                    Some(v) => match v {
                        ValModel::Dict(es) => !Self::shape_ok(es) && (e
                            == DecodeError::MissingField || e == DecodeError::TypeMismatch),
                        _ => e == DecodeError::TypeMismatch,
                    },
                },
            },
    {
        let val = match codec::decode_value(bytes) {
            Ok(v) => v,
            Err(e) => return Err(e),
        };
        Self::from_val(&val)
    }

    /// Reading a record's own wire fields back yields the record: the
    /// encoder writes exactly what the decoder needs; and looking up
    /// any declared key finds exactly the field the encoder wrote.
    pub proof fn lemma_wire_round_trip(r: Response)
        ensures
            Self::shape_ok(r.wire_entries()),
            Self::decodes_from(r.wire_entries(), r),
            forall|i: int|
                0 <= i < r.wire_entries().len() ==> entries_get(
                    r.wire_entries(),
                    (#[trigger] r.wire_entries()[i]).0,
                ) == Some(r.wire_entries()[i].1),
    {
        reveal_strlit("body");
        reveal_strlit("header");
        reveal_strlit("status");
        reveal_strlit("statusCode");
        let es = r.wire_entries();
        assert("body"@.len() == 4);
        assert("header"@.len() == 6);
        assert("status"@.len() == 6);
        assert("statusCode"@.len() == 10);
        assert("status"@[0] != "header"@[0]);
        value::lemma_entries_get_at(es, 0);
        value::lemma_entries_get_at(es, 1);
        value::lemma_entries_get_at(es, 2);
        value::lemma_entries_get_at(es, 3);
    }

    /// The wire fields of `r` pin the record: any correct reading of
    /// them agrees with `r` on every field.
    pub proof fn lemma_decode_agrees(r: Response, d: Response)
        requires
            Self::decodes_from(r.wire_entries(), d),
        ensures
            Self::eq_fields(d, r),
    {
        Self::lemma_wire_round_trip(r);
        let es = r.wire_entries();
        assert(entries_get(es, "statusCode"@) == Some(ValModel::Uint(r.status_code as u64))) by {
            assert((es[0]).0 == "statusCode"@);
        }
        assert(entries_get(es, "status"@) == Some(ValModel::Str(r.status@))) by {
            assert((es[1]).0 == "status"@);
        }
        assert(entries_get(es, "header"@) == Some(ValModel::Dict(value::pairs_entries(r.header@)))) by {
            assert((es[2]).0 == "header"@);
        }
        assert(entries_get(es, "body"@) == Some(ValModel::Bin(r.body@))) by {
            assert((es[3]).0 == "body"@);
        }
        assert forall|i: int|
            0 <= i < d.header@.len() implies (#[trigger] d.header@[i]).0@ == r.header@[i].0@
                && d.header@[i].1@ == r.header@[i].1@ by {
            assert(value::pairs_entries(r.header@)[i] == (r.header@[i].0@, ValModel::Str(
                r.header@[i].1@,
            )));
        }
    }

    /// The round-trip law: decoding the canonical encoding of `r`
    /// yields a record that agrees with `r` on every field.
    pub proof fn lemma_round_trip(r: Response, d: Response)
        requires
            wf(r.wire()),
            Self::decodes_from(r.wire_entries(), d),
        ensures
            dec_full(enc(r.wire())) == Some(r.wire()),
            Self::eq_fields(d, r),
    {
        codec::lemma_round_trip(r.wire());
        Self::lemma_decode_agrees(r, d);
    }

    /// Forward tolerance: wire fields that carry only the required
    /// fields of this record still decode, every absent defaulted
    /// field resolving to its declared default.
    pub proof fn lemma_forward_tolerance(es: Seq<(Seq<char>, ValModel)>, d: Response)
        requires
            entries_get(es, "statusCode"@) matches Some(v) && value::is_u32(v),
            entries_get(es, "status"@) matches Some(v) && v is Str,
            entries_get(es, "header"@) is None,
            entries_get(es, "body"@) is None,
        ensures
            Self::shape_ok(es),
            Self::decodes_from(es, d) ==> d.header@.len() == 0 && d.body@ == Seq::<u8>::empty(),
    {
    }

    /// Unknown-field tolerance: appending a field under a key this
    /// record does not declare changes neither its shape check nor
    /// what any record decodes to.
    pub proof fn lemma_unknown_field_tolerance(
        es: Seq<(Seq<char>, ValModel)>,
        k: Seq<char>,
        v: ValModel,
        d: Response,
    )
        requires
            k != "statusCode"@,
            k != "status"@,
            k != "header"@,
            k != "body"@,
        ensures
            Self::shape_ok(es.push((k, v))) == Self::shape_ok(es),
            Self::decodes_from(es.push((k, v)), d) == Self::decodes_from(es, d),
    {
        value::lemma_entries_get_push_other(es, "statusCode"@, k, v);
        value::lemma_entries_get_push_other(es, "status"@, k, v);
        value::lemma_entries_get_push_other(es, "header"@, k, v);
        value::lemma_entries_get_push_other(es, "body"@, k, v);
    }
}

/// The header mapping used by the self-test fixtures.
pub fn sample_header() -> (r: Vec<(String, String)>)
    ensures
        r@.len() == 2,
        r@[0].0@ == "accept"@ && r@[0].1@ == "application/json"@,
        r@[1].0@ == "dummy"@ && r@[1].1@ == "value"@,
{
    let mut hm: Vec<(String, String)> = Vec::new();
    hm.push((String::from_str("accept"), String::from_str("application/json")));
    hm.push((String::from_str("dummy"), String::from_str("value")));
    hm
}

impl Request {
    /// The canonical example value used by the self-test fixtures.
    pub fn sample() -> (r: Request)
        ensures
            r.method@ == "GET"@,
            r.path@ == "/foo"@,
            r.query_string@ == "a=1&b=2"@,
            r.header@.len() == 2,
            r.header@[0].0@ == "accept"@ && r.header@[0].1@ == "application/json"@,
            r.header@[1].0@ == "dummy"@ && r.header@[1].1@ == "value"@,
            r.body@ == vstd::utf8::encode_utf8("This is the body of a request"@),
    {
        Request {
            method: String::from_str("GET"),
            path: String::from_str("/foo"),
            query_string: String::from_str("a=1&b=2"),
            header: sample_header(),
            body: vstd::string::StrSliceExecFns::as_bytes_vec("This is the body of a request"),
        }
    }
}

impl Response {
    /// The canonical example value used by the self-test fixtures.
    pub fn sample() -> (r: Response)
        ensures
            r.status_code == 200,
            r.status@ == "OK"@,
            r.header@.len() == 2,
            r.header@[0].0@ == "accept"@ && r.header@[0].1@ == "application/json"@,
            r.header@[1].0@ == "dummy"@ && r.header@[1].1@ == "value"@,
            r.body@ == vstd::utf8::encode_utf8("This is the body of a response"@),
    {
        Response {
            status_code: 200,
            status: String::from_str("OK"),
            header: sample_header(),
            body: vstd::string::StrSliceExecFns::as_bytes_vec("This is the body of a response"),
        }
    }

    /// Useful shortcut for creating a 200/OK response.
    pub fn ok() -> (r: Response)
        ensures
            r.status_code == 200,
            r.status@ == "OK"@,
            r.header@.len() == 0,
            r.body@.len() == 0,
    {
        Response {
            status_code: 200,
            status: String::from_str("OK"),
            header: Vec::new(),
            body: Vec::new(),
        }
    }

    /// Handy shortcut for creating a 404/Not Found response.
    pub fn not_found() -> (r: Response)
        ensures
            r.status_code == 404,
            r.status@ == "Not Found"@,
            r.header@.len() == 0,
            r.body@.len() == 0,
    {
        Response {
            status_code: 404,
            status: String::from_str("Not Found"),
            header: Vec::new(),
            body: Vec::new(),
        }
    }

    /// Useful shortcut for creating a 500/Internal Server Error response
    /// whose body carries the given message.
    pub fn internal_server_error(msg: &str) -> (r: Response)
        ensures
            r.status_code == 500,
            r.status@ == "Internal Server Error"@,
            r.header@.len() == 0,
            r.body@ == vstd::utf8::encode_utf8(msg@),
    {
        Response {
            status_code: 500,
            status: String::from_str("Internal Server Error"),
            header: Vec::new(),
            body: vstd::string::StrSliceExecFns::as_bytes_vec(msg),
        }
    }

    /// Shortcut for creating a 400/Bad Request response.
    pub fn bad_request() -> (r: Response)
        ensures
            r.status_code == 400,
            r.status@ == "Bad Request"@,
            r.header@.len() == 0,
            r.body@.len() == 0,
    {
        Response {
            status_code: 400,
            status: String::from_str("Bad Request"),
            header: Vec::new(),
            body: Vec::new(),
        }
    }
}

impl Default for Response {
    /// An empty response: zero status code, empty status text, no headers,
    /// no body.
    fn default() -> (r: Response)
        ensures
            r.status_code == 0,
            r.status@.len() == 0,
            r.header@.len() == 0,
            r.body@.len() == 0,
    {
        Response {
            status_code: 0,
            status: String::new(),
            header: Vec::new(),
            body: Vec::new(),
        }
    }
}

} // verus!
