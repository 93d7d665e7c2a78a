//! Binary object storage and streaming: the record schemas of the
//! `wascc:blobstore` capability domain, and the bookkeeping of its chunked
//! transfer sub-protocol.

use vstd::prelude::*;
use vstd::string::StringExecFns;
use crate::codec;
use crate::codec::{enc, dec_full};
use crate::error::{ChunkError, DecodeError, EncodeError};
use crate::value;
use crate::value::{Val, ValModel, entries_get, view_entries, view_list, wf};

verus! {

broadcast use vstd::std_specs::vec::group_vec_axioms, vstd::seq::group_seq_axioms;

/// Guest sends a Container to the capability provider, receives a Container back.
pub const OP_CREATE_CONTAINER: &'static str = "CreateContainer";

/// Guest sends a Container to the capability provider, lack of error indicates success.
pub const OP_REMOVE_CONTAINER: &'static str = "RemoveContainer";

/// Guest sends a Blob to the capability provider, lack of error indicates success.
pub const OP_REMOVE_OBJECT: &'static str = "RemoveObject";

/// Guest sends a Container to the capability provider, receives a BlobList back.
pub const OP_LIST_OBJECTS: &'static str = "ListObjects";

/// Guest sends a FileChunk to the capability provider for storing as part of
/// a Blob, lack of error indicates success.
pub const OP_UPLOAD_CHUNK: &'static str = "UploadChunk";

/// Guest sends a StreamRequest to the capability provider, immediate
/// termination with success. The guest will then start receiving
/// OP_RECEIVE_CHUNK operations from the provider as chunks are streamed.
pub const OP_START_DOWNLOAD: &'static str = "StartDownload";

/// Guest sends a metadata-carrying FileChunk to initiate an upload, lack of
/// error is success.
pub const OP_START_UPLOAD: &'static str = "StartUpload";

/// Guest will receive a FileChunk for each piece of a file requested to download.
pub const OP_RECEIVE_CHUNK: &'static str = "ReceiveChunk";

/// Query information on a single blob. Guest sends an incomplete blob struct
/// and gets a complete one in return.
pub const OP_GET_OBJECT_INFO: &'static str = "GetObjectInfo";

#[derive(Debug, PartialEq)]
pub struct FileChunk {
    pub sequence_no: u64,
    pub container: String,
    pub id: String,
    pub total_bytes: u64,
    pub chunk_size: u64,
    pub chunk_bytes: Vec<u8>,
}

impl FileChunk {
    /// The record's wire fields, in declaration order.
    pub open spec fn wire_entries(self) -> Seq<(Seq<char>, ValModel)> {
        seq![
            ("sequenceNo"@, ValModel::Uint(self.sequence_no)),
            ("container"@, ValModel::Str(self.container@)),
            ("id"@, ValModel::Str(self.id@)),
            ("totalBytes"@, ValModel::Uint(self.total_bytes)),
            ("chunkSize"@, ValModel::Uint(self.chunk_size)),
            ("chunkBytes"@, ValModel::Bin(self.chunk_bytes@)),
        ]
    }

    /// The record's wire value.
    pub open spec fn wire(self) -> ValModel {
        ValModel::Dict(self.wire_entries())
    }

    /// Whether decoded wire fields carry every required field with its
    /// declared type; unknown fields never disturb this, and absent
    /// fields with a declared default are allowed.
    pub open spec fn shape_ok(es: Seq<(Seq<char>, ValModel)>) -> bool {
        &&& entries_get(es, "sequenceNo"@) matches Some(v) && v is Uint
        &&& entries_get(es, "container"@) matches Some(v) && v is Str
        &&& entries_get(es, "id"@) matches Some(v) && v is Str
        &&& entries_get(es, "totalBytes"@) matches Some(v) && v is Uint
        &&& entries_get(es, "chunkSize"@) matches Some(v) && v is Uint
        &&& match entries_get(es, "chunkBytes"@) {
            Some(v) => v is Bin,
            None => true,
        }
    }

    /// Whether record `r` is the correct reading of wire fields `es`.
    pub open spec fn decodes_from(es: Seq<(Seq<char>, ValModel)>, r: FileChunk) -> bool {
        &&& entries_get(es, "sequenceNo"@) == Some(ValModel::Uint(r.sequence_no))
        &&& entries_get(es, "container"@) == Some(ValModel::Str(r.container@))
        &&& entries_get(es, "id"@) == Some(ValModel::Str(r.id@))
        &&& entries_get(es, "totalBytes"@) == Some(ValModel::Uint(r.total_bytes))
        &&& entries_get(es, "chunkSize"@) == Some(ValModel::Uint(r.chunk_size))
        &&& match entries_get(es, "chunkBytes"@) {
            Some(v) => v == ValModel::Bin(r.chunk_bytes@),
            None => r.chunk_bytes@ == Seq::<u8>::empty(),
        }
    }

    /// Content equality: every field agrees.
    pub open spec fn eq_fields(a: FileChunk, b: FileChunk) -> bool {
        &&& a.sequence_no == b.sequence_no
        &&& a.container@ == b.container@
        &&& a.id@ == b.id@
        &&& a.total_bytes == b.total_bytes
        &&& a.chunk_size == b.chunk_size
        &&& a.chunk_bytes@ == b.chunk_bytes@
    }

    /// Lowers the record to its wire value.
    pub fn to_val(&self) -> (v: Val)
        ensures
            v@ == self.wire(),
    {
        let mut es: Vec<(String, Val)> = Vec::new();
        es.push((String::from_str("sequenceNo"), Val::Uint(self.sequence_no)));
        es.push((String::from_str("container"), Val::Str(self.container.clone())));
        es.push((String::from_str("id"), Val::Str(self.id.clone())));
        es.push((String::from_str("totalBytes"), Val::Uint(self.total_bytes)));
        es.push((String::from_str("chunkSize"), Val::Uint(self.chunk_size)));
        es.push((String::from_str("chunkBytes"), Val::Bin(value::clone_bytes(&self.chunk_bytes))));
        proof {
            value::lemma_view_entries(es@);
            assert forall|i: int|
                0 <= i < es@.len() implies view_entries(es@)[i] == self.wire_entries()[i] by {
                assert(view_entries(es@)[i] == (es@[i].0@, es@[i].1@));
            }
            assert(view_entries(es@) =~= self.wire_entries());
        }
        Val::Dict(es)
    }

    /// Encodes the record through the canonical codec.
    pub fn encode(&self) -> (r: Result<Vec<u8>, EncodeError>)
        ensures
            match r {
                Ok(b) => wf(self.wire()) && b@ == enc(self.wire()),
                Err(e) => !wf(self.wire()) && e == EncodeError::Unencodable,
            },
    {
        let v = self.to_val();
        codec::encode_value(&v)
    }

    /// Lifts a decoded wire value into the record, filling defaults and
    /// ignoring unknown fields.
    pub fn from_val(v: &Val) -> (r: Result<FileChunk, DecodeError>)
        ensures
            match r {
                Ok(rec) => v@ matches ValModel::Dict(es) && Self::shape_ok(es)
                    && Self::decodes_from(es, rec),
                Err(e) => match v@ {
                    ValModel::Dict(es) => !Self::shape_ok(es) && (e == DecodeError::MissingField
                        || e == DecodeError::TypeMismatch),
                    _ => e == DecodeError::TypeMismatch,
                },
            },
    {
        match v {
            Val::Dict(es) => {
                let sequence_no = match value::get_uint(es, "sequenceNo") {
                    Ok(x) => x,
                    Err(e) => return Err(e),
                };
                let container = match value::get_str(es, "container") {
                    Ok(x) => x,
                    Err(e) => return Err(e),
                };
                let id = match value::get_str(es, "id") {
                    Ok(x) => x,
                    Err(e) => return Err(e),
                };
                let total_bytes = match value::get_uint(es, "totalBytes") {
                    Ok(x) => x,
                    Err(e) => return Err(e),
                };
                let chunk_size = match value::get_uint(es, "chunkSize") {
                    Ok(x) => x,
                    Err(e) => return Err(e),
                };
                let chunk_bytes = match value::get_bin_or_empty(es, "chunkBytes") {
                    Ok(x) => x,
                    Err(e) => return Err(e),
                };
                Ok(FileChunk { sequence_no, container, id, total_bytes, chunk_size, chunk_bytes })
            },
            _ => Err(DecodeError::TypeMismatch),
        }
    }

    /// Decodes the record from its wire bytes.
    pub fn decode(bytes: &[u8]) -> (r: Result<FileChunk, DecodeError>)
        ensures
            match r {
                Ok(rec) => dec_full(bytes@) matches Some(v) && (v matches ValModel::Dict(es)
                    && Self::shape_ok(es) && Self::decodes_from(es, rec)),
                Err(e) => match dec_full(bytes@) {
                    None => e == DecodeError::Malformed,
                    Some(v) => match v {
                        ValModel::Dict(es) => !Self::shape_ok(es) && (e
                            == DecodeError::MissingField || e == DecodeError::TypeMismatch),
                        _ => e == DecodeError::TypeMismatch,
                    },
                },
            },
    {
        let val = match codec::decode_value(bytes) {
            Ok(v) => v,
            Err(e) => return Err(e),
        };
        Self::from_val(&val)
    }

    /// Reading a record's own wire fields back yields the record: the
    /// encoder writes exactly what the decoder needs; and looking up
    /// any declared key finds exactly the field the encoder wrote.
    pub proof fn lemma_wire_round_trip(r: FileChunk)
        ensures
            Self::shape_ok(r.wire_entries()),
            Self::decodes_from(r.wire_entries(), r),
            forall|i: int|
                0 <= i < r.wire_entries().len() ==> entries_get(
                    r.wire_entries(),
                    (#[trigger] r.wire_entries()[i]).0,
                ) == Some(r.wire_entries()[i].1),
    {
        reveal_strlit("chunkBytes");
        reveal_strlit("chunkSize");
        reveal_strlit("container");
        reveal_strlit("id");
        reveal_strlit("sequenceNo");
        reveal_strlit("totalBytes");
        let es = r.wire_entries();
        assert("chunkBytes"@.len() == 10);
        assert("chunkSize"@.len() == 9);
        assert("container"@.len() == 9);
        assert("id"@.len() == 2);
        assert("sequenceNo"@.len() == 10);
        assert("totalBytes"@.len() == 10);
        assert("sequenceNo"@[0] != "totalBytes"@[0]);
        assert("container"@[1] != "chunkSize"@[1]);
        assert("sequenceNo"@[0] != "chunkBytes"@[0]);
        assert("totalBytes"@[0] != "chunkBytes"@[0]);
        value::lemma_entries_get_at(es, 0);
        value::lemma_entries_get_at(es, 1);
        value::lemma_entries_get_at(es, 2);
        value::lemma_entries_get_at(es, 3);
        value::lemma_entries_get_at(es, 4);
        value::lemma_entries_get_at(es, 5);
    }

    /// The wire fields of `r` pin the record: any correct reading of
    /// them agrees with `r` on every field.
    pub proof fn lemma_decode_agrees(r: FileChunk, d: FileChunk)
        requires
            Self::decodes_from(r.wire_entries(), d),
        ensures
            Self::eq_fields(d, r),
    {
        Self::lemma_wire_round_trip(r);
        let es = r.wire_entries();
        assert(entries_get(es, "sequenceNo"@) == Some(ValModel::Uint(r.sequence_no))) by {
            assert((es[0]).0 == "sequenceNo"@);
        }
        assert(entries_get(es, "container"@) == Some(ValModel::Str(r.container@))) by {
            assert((es[1]).0 == "container"@);
        }
        assert(entries_get(es, "id"@) == Some(ValModel::Str(r.id@))) by {
            assert((es[2]).0 == "id"@);
        }
        assert(entries_get(es, "totalBytes"@) == Some(ValModel::Uint(r.total_bytes))) by {
            assert((es[3]).0 == "totalBytes"@);
        }
        assert(entries_get(es, "chunkSize"@) == Some(ValModel::Uint(r.chunk_size))) by {
            assert((es[4]).0 == "chunkSize"@);
        }
        assert(entries_get(es, "chunkBytes"@) == Some(ValModel::Bin(r.chunk_bytes@))) by {
            assert((es[5]).0 == "chunkBytes"@);
        }
    }

    /// The round-trip law: decoding the canonical encoding of `r`
    /// yields a record that agrees with `r` on every field.
    pub proof fn lemma_round_trip(r: FileChunk, d: FileChunk)
        requires
            wf(r.wire()),
            Self::decodes_from(r.wire_entries(), d),
        ensures
            dec_full(enc(r.wire())) == Some(r.wire()),
            Self::eq_fields(d, r),
    {
        codec::lemma_round_trip(r.wire());
        Self::lemma_decode_agrees(r, d);
    }

    /// Forward tolerance: wire fields that carry only the required
    /// fields of this record still decode, every absent defaulted
    /// field resolving to its declared default.
    pub proof fn lemma_forward_tolerance(es: Seq<(Seq<char>, ValModel)>, d: FileChunk)
        requires
            entries_get(es, "sequenceNo"@) matches Some(v) && v is Uint,
            entries_get(es, "container"@) matches Some(v) && v is Str,
            entries_get(es, "id"@) matches Some(v) && v is Str,
            entries_get(es, "totalBytes"@) matches Some(v) && v is Uint,
            entries_get(es, "chunkSize"@) matches Some(v) && v is Uint,
            entries_get(es, "chunkBytes"@) is None,
        ensures
            Self::shape_ok(es),
            Self::decodes_from(es, d) ==> d.chunk_bytes@ == Seq::<u8>::empty(),
    {
    }

    /// Unknown-field tolerance: appending a field under a key this
    /// record does not declare changes neither its shape check nor
    /// what any record decodes to.
    pub proof fn lemma_unknown_field_tolerance(
        es: Seq<(Seq<char>, ValModel)>,
        k: Seq<char>,
        v: ValModel,
        d: FileChunk,
    )
        requires
            k != "sequenceNo"@,
            k != "container"@,
            k != "id"@,
            k != "totalBytes"@,
            k != "chunkSize"@,
            k != "chunkBytes"@,
        ensures
            Self::shape_ok(es.push((k, v))) == Self::shape_ok(es),
            Self::decodes_from(es.push((k, v)), d) == Self::decodes_from(es, d),
    {
        value::lemma_entries_get_push_other(es, "sequenceNo"@, k, v);
        value::lemma_entries_get_push_other(es, "container"@, k, v);
        value::lemma_entries_get_push_other(es, "id"@, k, v);
        value::lemma_entries_get_push_other(es, "totalBytes"@, k, v);
        value::lemma_entries_get_push_other(es, "chunkSize"@, k, v);
        value::lemma_entries_get_push_other(es, "chunkBytes"@, k, v);
    }
}

#[derive(Debug, PartialEq)]
pub struct Container {
    pub id: String,
}

impl Container {
    /// The record's wire fields, in declaration order.
    pub open spec fn wire_entries(self) -> Seq<(Seq<char>, ValModel)> {
        seq![
            ("id"@, ValModel::Str(self.id@)),
        ]
    }

    /// The record's wire value.
    pub open spec fn wire(self) -> ValModel {
        ValModel::Dict(self.wire_entries())
    }

    /// Whether decoded wire fields carry every required field with its
    /// declared type; unknown fields never disturb this, and absent
    /// fields with a declared default are allowed.
    pub open spec fn shape_ok(es: Seq<(Seq<char>, ValModel)>) -> bool {
        entries_get(es, "id"@) matches Some(v) && v is Str
    }

    /// Whether record `r` is the correct reading of wire fields `es`.
    pub open spec fn decodes_from(es: Seq<(Seq<char>, ValModel)>, r: Container) -> bool {
        entries_get(es, "id"@) == Some(ValModel::Str(r.id@))
    }

    /// Whether a wire value is a well-shaped frame of this record.
    pub open spec fn val_shape_ok(v: ValModel) -> bool {
        v matches ValModel::Dict(es) && Container::shape_ok(es)
    }

    /// Whether record `r` is the correct reading of wire value `v`.
    pub open spec fn val_decodes(v: ValModel, r: Container) -> bool {
        v matches ValModel::Dict(es) && Container::decodes_from(es, r)
    }

    /// Content equality over a sequence of records.
    pub open spec fn seq_eq(a: Seq<Container>, b: Seq<Container>) -> bool {
        &&& a.len() == b.len()
        &&& forall|i: int| 0 <= i < a.len() ==> Container::eq_fields(#[trigger] a[i], b[i])
    }

    /// Content equality: every field agrees.
    pub open spec fn eq_fields(a: Container, b: Container) -> bool {
        a.id@ == b.id@
    }

    /// Lowers the record to its wire value.
    pub fn to_val(&self) -> (v: Val)
        ensures
            v@ == self.wire(),
    {
        let mut es: Vec<(String, Val)> = Vec::new();
        es.push((String::from_str("id"), Val::Str(self.id.clone())));
        proof {
            value::lemma_view_entries(es@);
            assert forall|i: int|
                0 <= i < es@.len() implies view_entries(es@)[i] == self.wire_entries()[i] by {
                assert(view_entries(es@)[i] == (es@[i].0@, es@[i].1@));
            }
            assert(view_entries(es@) =~= self.wire_entries());
        }
        Val::Dict(es)
    }

    /// Encodes the record through the canonical codec.
    pub fn encode(&self) -> (r: Result<Vec<u8>, EncodeError>)
        ensures
            match r {
                Ok(b) => wf(self.wire()) && b@ == enc(self.wire()),
                Err(e) => !wf(self.wire()) && e == EncodeError::Unencodable,
            },
    {
        let v = self.to_val();
        codec::encode_value(&v)
    }

    /// Lifts a decoded wire value into the record, filling defaults and
    /// ignoring unknown fields.
    pub fn from_val(v: &Val) -> (r: Result<Container, DecodeError>)
        ensures
            match r {
                Ok(rec) => v@ matches ValModel::Dict(es) && Self::shape_ok(es)
                    && Self::decodes_from(es, rec),
                Err(e) => match v@ {
                    ValModel::Dict(es) => !Self::shape_ok(es) && (e == DecodeError::MissingField
                        || e == DecodeError::TypeMismatch),
                    _ => e == DecodeError::TypeMismatch,
                },
            },
    {
        match v {
            Val::Dict(es) => {
                let id = match value::get_str(es, "id") {
                    Ok(x) => x,
                    Err(e) => return Err(e),
                };
                Ok(Container { id })
            },
            _ => Err(DecodeError::TypeMismatch),
        }
    }

    /// Decodes the record from its wire bytes.
    pub fn decode(bytes: &[u8]) -> (r: Result<Container, DecodeError>)
        ensures
            match r {
                Ok(rec) => dec_full(bytes@) matches Some(v) && (v matches ValModel::Dict(es)
                    && Self::shape_ok(es) && Self::decodes_from(es, rec)),
                Err(e) => match dec_full(bytes@) {
                    None => e == DecodeError::Malformed,
                    Some(v) => match v {
                        ValModel::Dict(es) => !Self::shape_ok(es) && (e
                            == DecodeError::MissingField || e == DecodeError::TypeMismatch),
                        _ => e == DecodeError::TypeMismatch,
                    },
                },
            },
    {
        let val = match codec::decode_value(bytes) {
            Ok(v) => v,
            Err(e) => return Err(e),
        };
        Self::from_val(&val)
    }

    /// Reading a record's own wire fields back yields the record: the
    /// encoder writes exactly what the decoder needs; and looking up
    /// any declared key finds exactly the field the encoder wrote.
    pub proof fn lemma_wire_round_trip(r: Container)
        ensures
            Self::shape_ok(r.wire_entries()),
            Self::decodes_from(r.wire_entries(), r),
            forall|i: int|
                0 <= i < r.wire_entries().len() ==> entries_get(
                    r.wire_entries(),
                    (#[trigger] r.wire_entries()[i]).0,
                ) == Some(r.wire_entries()[i].1),
    {
        reveal_strlit("id");
        let es = r.wire_entries();
        assert("id"@.len() == 2);
        value::lemma_entries_get_at(es, 0);
    }

    /// The wire fields of `r` pin the record: any correct reading of
    /// them agrees with `r` on every field.
    pub proof fn lemma_decode_agrees(r: Container, d: Container)
        requires
            Self::decodes_from(r.wire_entries(), d),
        ensures
            Self::eq_fields(d, r),
    {
        Self::lemma_wire_round_trip(r);
        let es = r.wire_entries();
        assert(entries_get(es, "id"@) == Some(ValModel::Str(r.id@))) by {
            assert((es[0]).0 == "id"@);
        }
    }

    /// The round-trip law: decoding the canonical encoding of `r`
    /// yields a record that agrees with `r` on every field.
    pub proof fn lemma_round_trip(r: Container, d: Container)
        requires
            wf(r.wire()),
            Self::decodes_from(r.wire_entries(), d),
        ensures
            dec_full(enc(r.wire())) == Some(r.wire()),
            Self::eq_fields(d, r),
    {
        codec::lemma_round_trip(r.wire());
        Self::lemma_decode_agrees(r, d);
    }

    /// Unknown-field tolerance: appending a field under a key this
    /// record does not declare changes neither its shape check nor
    /// what any record decodes to.
    pub proof fn lemma_unknown_field_tolerance(
        es: Seq<(Seq<char>, ValModel)>,
        k: Seq<char>,
        v: ValModel,
        d: Container,
    )
        requires
            k != "id"@,
        ensures
            Self::shape_ok(es.push((k, v))) == Self::shape_ok(es),
            Self::decodes_from(es.push((k, v)), d) == Self::decodes_from(es, d),
    {
        value::lemma_entries_get_push_other(es, "id"@, k, v);
    }
}

#[derive(Debug, PartialEq)]
pub struct ContainerList {
    pub containers: Vec<Container>,
}

impl ContainerList {
    /// The wire elements of the `containers` field.
    pub open spec fn containers_wire(self) -> Seq<ValModel> {
        Seq::new(self.containers@.len(), |i: int| self.containers@[i].wire())
    }

    /// The record's wire fields, in declaration order.
    pub open spec fn wire_entries(self) -> Seq<(Seq<char>, ValModel)> {
        seq![
            ("containers"@, ValModel::Arr(self.containers_wire())),
        ]
    }

    /// The record's wire value.
    pub open spec fn wire(self) -> ValModel {
        ValModel::Dict(self.wire_entries())
    }

    /// Whether decoded wire fields carry every required field with its
    /// declared type; unknown fields never disturb this, and absent
    /// fields with a declared default are allowed.
    pub open spec fn shape_ok(es: Seq<(Seq<char>, ValModel)>) -> bool {
        match entries_get(es, "containers"@) {
            Some(v) => v matches ValModel::Arr(a) && (forall|i: int|
                0 <= i < a.len() ==> Container::val_shape_ok(#[trigger] a[i])),
            None => true,
        }
    }

    /// Whether record `r` is the correct reading of wire fields `es`.
    pub open spec fn decodes_from(es: Seq<(Seq<char>, ValModel)>, r: ContainerList) -> bool {
        match entries_get(es, "containers"@) {
            Some(v) => v matches ValModel::Arr(a) && a.len() == r.containers@.len() && (forall|i: int|
                0 <= i < a.len() ==> Container::val_decodes(#[trigger] a[i], r.containers@[i])),
            None => r.containers@.len() == 0,
        }
    }

    /// Content equality: every field agrees.
    pub open spec fn eq_fields(a: ContainerList, b: ContainerList) -> bool {
        Container::seq_eq(a.containers@, b.containers@)
    }

    /// Lowers the record to its wire value.
    #[verifier::loop_isolation(false)]
    pub fn to_val(&self) -> (v: Val)
        ensures
            v@ == self.wire(),
    {
        let mut es: Vec<(String, Val)> = Vec::new();
        let mut containers_vals: Vec<Val> = Vec::new();
        let mut i: usize = 0;
        while i < self.containers.len()
            invariant
                i <= self.containers@.len(),
                containers_vals@.len() == i,
                forall|j: int|
                    0 <= j < i ==> #[trigger] view_list(containers_vals@)[j] == self.containers@[j].wire(),
            decreases self.containers@.len() - i,
        {
            proof {
                value::lemma_view_list(containers_vals@);
            }
            let ghost before = containers_vals@;
            containers_vals.push(self.containers[i].to_val());
            proof {
                value::lemma_view_list(containers_vals@);
                assert forall|j: int|
                    0 <= j < i + 1 implies #[trigger] view_list(containers_vals@)[j]
                        == self.containers@[j].wire() by {
                    assert(view_list(containers_vals@)[j] == containers_vals@[j]@);
                    if j < i {
                        assert(containers_vals@[j] == before[j]);
                        assert(view_list(before)[j] == before[j]@) by {
                            value::lemma_view_list(before);
                        }
                    }
                }
            }
            i = i + 1;
        }
        proof {
            value::lemma_view_list(containers_vals@);
            assert(view_list(containers_vals@) =~= self.containers_wire());
        }
        es.push((String::from_str("containers"), Val::Arr(containers_vals)));
        proof {
            value::lemma_view_entries(es@);
            assert forall|i: int|
                0 <= i < es@.len() implies view_entries(es@)[i] == self.wire_entries()[i] by {
                assert(view_entries(es@)[i] == (es@[i].0@, es@[i].1@));
            }
            assert(view_entries(es@) =~= self.wire_entries());
        }
        Val::Dict(es)
    }

    /// Encodes the record through the canonical codec.
    pub fn encode(&self) -> (r: Result<Vec<u8>, EncodeError>)
        ensures
            match r {
                Ok(b) => wf(self.wire()) && b@ == enc(self.wire()),
                Err(e) => !wf(self.wire()) && e == EncodeError::Unencodable,
            },
    {
        let v = self.to_val();
        codec::encode_value(&v)
    }

    /// Lifts a decoded wire value into the record, filling defaults and
    /// ignoring unknown fields.
    #[verifier::loop_isolation(false)]
    pub fn from_val(v: &Val) -> (r: Result<ContainerList, DecodeError>)
        ensures
            match r {
                Ok(rec) => v@ matches ValModel::Dict(es) && Self::shape_ok(es)
                    && Self::decodes_from(es, rec),
                Err(e) => match v@ {
                    ValModel::Dict(es) => !Self::shape_ok(es) && (e == DecodeError::MissingField
                        || e == DecodeError::TypeMismatch),
                    _ => e == DecodeError::TypeMismatch,
                },
            },
    {
        match v {
            Val::Dict(es) => {
                let containers: Vec<Container> = match value::map_get(es, "containers") {
                    None => Vec::new(),
                    Some(Val::Arr(a)) => {
                        let mut items: Vec<Container> = Vec::new();
                        let mut i: usize = 0;
                        while i < a.len()
                            invariant
                                i <= a@.len(),
                                items@.len() == i,
                                forall|j: int|
                                    0 <= j < i ==> Container::val_shape_ok(
                                        #[trigger] view_list(a@)[j],
                                    ) && Container::val_decodes(view_list(a@)[j], items@[j]),
                            decreases a@.len() - i,
                        {
                            proof {
                                value::lemma_view_list(a@);
                                assert(view_list(a@)[i as int] == a@[i as int]@);
                            }
                            match Container::from_val(&a[i]) {
                                Ok(c) => items.push(c),
                                Err(e) => return Err(e),
                            }
                            i = i + 1;
                        }
                        proof {
                            value::lemma_view_list(a@);
                        }
                        items
                    },
                    Some(_) => return Err(DecodeError::TypeMismatch),
                };
                Ok(ContainerList { containers })
            },
            _ => Err(DecodeError::TypeMismatch),
        }
    }

    /// Decodes the record from its wire bytes.
    pub fn decode(bytes: &[u8]) -> (r: Result<ContainerList, DecodeError>)
        ensures
            match r {
                Ok(rec) => dec_full(bytes@) matches Some(v) && (v matches ValModel::Dict(es)
                    && Self::shape_ok(es) && Self::decodes_from(es, rec)),
                Err(e) => match dec_full(bytes@) {
                    None => e == DecodeError::Malformed,
                    Some(v) => match v {
                        ValModel::Dict(es) => !Self::shape_ok(es) && (e
                            == DecodeError::MissingField || e == DecodeError::TypeMismatch),
                        _ => e == DecodeError::TypeMismatch,
                    },
                },
            },
    {
        let val = match codec::decode_value(bytes) {
            Ok(v) => v,
            Err(e) => return Err(e),
        };
        Self::from_val(&val)
    }

    /// Reading a record's own wire fields back yields the record: the
    /// encoder writes exactly what the decoder needs; and looking up
    /// any declared key finds exactly the field the encoder wrote.
    pub proof fn lemma_wire_round_trip(r: ContainerList)
        ensures
            Self::shape_ok(r.wire_entries()),
            Self::decodes_from(r.wire_entries(), r),
            forall|i: int|
                0 <= i < r.wire_entries().len() ==> entries_get(
                    r.wire_entries(),
                    (#[trigger] r.wire_entries()[i]).0,
                ) == Some(r.wire_entries()[i].1),
    {
        reveal_strlit("containers");
        let es = r.wire_entries();
        assert("containers"@.len() == 10);
        value::lemma_entries_get_at(es, 0);
        assert forall|i: int|
            0 <= i < r.containers@.len() implies Container::val_shape_ok(#[trigger] r.containers_wire()[i])
                && Container::val_decodes(r.containers_wire()[i], r.containers@[i]) by {
            assert(r.containers_wire()[i] == r.containers@[i].wire());
            Container::lemma_wire_round_trip(r.containers@[i]);
        }
    }

    /// The wire fields of `r` pin the record: any correct reading of
    /// them agrees with `r` on every field.
    pub proof fn lemma_decode_agrees(r: ContainerList, d: ContainerList)
        requires
            Self::decodes_from(r.wire_entries(), d),
        ensures
            Self::eq_fields(d, r),
    {
        Self::lemma_wire_round_trip(r);
        let es = r.wire_entries();
        assert(entries_get(es, "containers"@) == Some(ValModel::Arr(r.containers_wire()))) by {
            assert((es[0]).0 == "containers"@);
        }
        assert forall|i: int|
            0 <= i < d.containers@.len() implies Container::eq_fields(#[trigger] d.containers@[i], r.containers@[i]) by {
            assert(r.containers_wire()[i] == r.containers@[i].wire());
            Container::lemma_decode_agrees(r.containers@[i], d.containers@[i]);
        }
    }

    /// The round-trip law: decoding the canonical encoding of `r`
    /// yields a record that agrees with `r` on every field.
    pub proof fn lemma_round_trip(r: ContainerList, d: ContainerList)
        requires
            wf(r.wire()),
            Self::decodes_from(r.wire_entries(), d),
        ensures
            dec_full(enc(r.wire())) == Some(r.wire()),
            Self::eq_fields(d, r),
    {
        codec::lemma_round_trip(r.wire());
        Self::lemma_decode_agrees(r, d);
    }

    /// Forward tolerance: wire fields that carry only the required
    /// fields of this record still decode, every absent defaulted
    /// field resolving to its declared default.
    pub proof fn lemma_forward_tolerance(es: Seq<(Seq<char>, ValModel)>, d: ContainerList)
        requires
            entries_get(es, "containers"@) is None,
        ensures
            Self::shape_ok(es),
            Self::decodes_from(es, d) ==> d.containers@.len() == 0,
    {
    }

    /// Unknown-field tolerance: appending a field under a key this
    /// record does not declare changes neither its shape check nor
    /// what any record decodes to.
    pub proof fn lemma_unknown_field_tolerance(
        es: Seq<(Seq<char>, ValModel)>,
        k: Seq<char>,
        v: ValModel,
        d: ContainerList,
    )
        requires
            k != "containers"@,
        ensures
            Self::shape_ok(es.push((k, v))) == Self::shape_ok(es),
            Self::decodes_from(es.push((k, v)), d) == Self::decodes_from(es, d),
    {
        value::lemma_entries_get_push_other(es, "containers"@, k, v);
    }
}

#[derive(Debug, PartialEq)]
pub struct Blob {
    pub id: String,
    pub container: String,
    pub byte_size: u64,
}

impl Blob {
    /// The record's wire fields, in declaration order.
    pub open spec fn wire_entries(self) -> Seq<(Seq<char>, ValModel)> {
        seq![
            ("id"@, ValModel::Str(self.id@)),
            ("container"@, ValModel::Str(self.container@)),
            ("byteSize"@, ValModel::Uint(self.byte_size)),
        ]
    }

    /// The record's wire value.
    pub open spec fn wire(self) -> ValModel {
        ValModel::Dict(self.wire_entries())
    }

    /// Whether decoded wire fields carry every required field with its
    /// declared type; unknown fields never disturb this, and absent
    /// fields with a declared default are allowed.
    pub open spec fn shape_ok(es: Seq<(Seq<char>, ValModel)>) -> bool {
        &&& entries_get(es, "id"@) matches Some(v) && v is Str
        &&& entries_get(es, "container"@) matches Some(v) && v is Str
        &&& entries_get(es, "byteSize"@) matches Some(v) && v is Uint
    }

    /// Whether record `r` is the correct reading of wire fields `es`.
    pub open spec fn decodes_from(es: Seq<(Seq<char>, ValModel)>, r: Blob) -> bool {
        &&& entries_get(es, "id"@) == Some(ValModel::Str(r.id@))
        &&& entries_get(es, "container"@) == Some(ValModel::Str(r.container@))
        &&& entries_get(es, "byteSize"@) == Some(ValModel::Uint(r.byte_size))
    }

    /// Whether a wire value is a well-shaped frame of this record.
    pub open spec fn val_shape_ok(v: ValModel) -> bool {
        v matches ValModel::Dict(es) && Blob::shape_ok(es)
    }

    /// Whether record `r` is the correct reading of wire value `v`.
    pub open spec fn val_decodes(v: ValModel, r: Blob) -> bool {
        v matches ValModel::Dict(es) && Blob::decodes_from(es, r)
    }

    /// Content equality over a sequence of records.
    pub open spec fn seq_eq(a: Seq<Blob>, b: Seq<Blob>) -> bool {
        &&& a.len() == b.len()
        &&& forall|i: int| 0 <= i < a.len() ==> Blob::eq_fields(#[trigger] a[i], b[i])
    }

    /// Content equality: every field agrees.
    pub open spec fn eq_fields(a: Blob, b: Blob) -> bool {
        &&& a.id@ == b.id@
        &&& a.container@ == b.container@
        &&& a.byte_size == b.byte_size
    }

    /// Lowers the record to its wire value.
    pub fn to_val(&self) -> (v: Val)
        ensures
            v@ == self.wire(),
    {
        let mut es: Vec<(String, Val)> = Vec::new();
        es.push((String::from_str("id"), Val::Str(self.id.clone())));
        es.push((String::from_str("container"), Val::Str(self.container.clone())));
        es.push((String::from_str("byteSize"), Val::Uint(self.byte_size)));
        proof {
            value::lemma_view_entries(es@);
            assert forall|i: int|
                0 <= i < es@.len() implies view_entries(es@)[i] == self.wire_entries()[i] by {
                assert(view_entries(es@)[i] == (es@[i].0@, es@[i].1@));
            }
            assert(view_entries(es@) =~= self.wire_entries());
        }
        Val::Dict(es)
    }

    /// Encodes the record through the canonical codec.
    pub fn encode(&self) -> (r: Result<Vec<u8>, EncodeError>)
        ensures
            match r {
                Ok(b) => wf(self.wire()) && b@ == enc(self.wire()),
                Err(e) => !wf(self.wire()) && e == EncodeError::Unencodable,
            },
    {
        let v = self.to_val();
        codec::encode_value(&v)
    }

    /// Lifts a decoded wire value into the record, filling defaults and
    /// ignoring unknown fields.
    pub fn from_val(v: &Val) -> (r: Result<Blob, DecodeError>)
        ensures
            match r {
                Ok(rec) => v@ matches ValModel::Dict(es) && Self::shape_ok(es)
                    && Self::decodes_from(es, rec),
                Err(e) => match v@ {
                    ValModel::Dict(es) => !Self::shape_ok(es) && (e == DecodeError::MissingField
                        || e == DecodeError::TypeMismatch),
                    _ => e == DecodeError::TypeMismatch,
                },
            },
    {
        match v {
            Val::Dict(es) => {
                let id = match value::get_str(es, "id") {
                    Ok(x) => x,
                    Err(e) => return Err(e),
                };
                let container = match value::get_str(es, "container") {
                    Ok(x) => x,
                    Err(e) => return Err(e),
                };
                let byte_size = match value::get_uint(es, "byteSize") {
                    Ok(x) => x,
                    Err(e) => return Err(e),
                };
                Ok(Blob { id, container, byte_size })
            },
            _ => Err(DecodeError::TypeMismatch),
        }
    }

    /// Decodes the record from its wire bytes.
    pub fn decode(bytes: &[u8]) -> (r: Result<Blob, DecodeError>)
        ensures
            match r {
                Ok(rec) => dec_full(bytes@) matches Some(v) && (v matches ValModel::Dict(es)
                    && Self::shape_ok(es) && Self::decodes_from(es, rec)),
                Err(e) => match dec_full(bytes@) {
                    None => e == DecodeError::Malformed,
                    Some(v) => match v {
                        ValModel::Dict(es) => !Self::shape_ok(es) && (e
                            == DecodeError::MissingField || e == DecodeError::TypeMismatch),
                        _ => e == DecodeError::TypeMismatch,
                    },
                },
            },
    {
        let val = match codec::decode_value(bytes) {
            Ok(v) => v,
            Err(e) => return Err(e),
        };
        Self::from_val(&val)
    }

    /// Reading a record's own wire fields back yields the record: the
    /// encoder writes exactly what the decoder needs; and looking up
    /// any declared key finds exactly the field the encoder wrote.
    pub proof fn lemma_wire_round_trip(r: Blob)
        ensures
            Self::shape_ok(r.wire_entries()),
            Self::decodes_from(r.wire_entries(), r),
            forall|i: int|
                0 <= i < r.wire_entries().len() ==> entries_get(
                    r.wire_entries(),
                    (#[trigger] r.wire_entries()[i]).0,
                ) == Some(r.wire_entries()[i].1),
    {
        reveal_strlit("byteSize");
        reveal_strlit("container");
        reveal_strlit("id");
        let es = r.wire_entries();
        assert("byteSize"@.len() == 8);
        assert("container"@.len() == 9);
        assert("id"@.len() == 2);
        value::lemma_entries_get_at(es, 0);
        value::lemma_entries_get_at(es, 1);
        value::lemma_entries_get_at(es, 2);
    }

    /// The wire fields of `r` pin the record: any correct reading of
    /// them agrees with `r` on every field.
    pub proof fn lemma_decode_agrees(r: Blob, d: Blob)
        requires
            Self::decodes_from(r.wire_entries(), d),
        ensures
            Self::eq_fields(d, r),
    {
        Self::lemma_wire_round_trip(r);
        let es = r.wire_entries();
        assert(entries_get(es, "id"@) == Some(ValModel::Str(r.id@))) by {
            assert((es[0]).0 == "id"@);
        }
        assert(entries_get(es, "container"@) == Some(ValModel::Str(r.container@))) by {
            assert((es[1]).0 == "container"@);
        }
        assert(entries_get(es, "byteSize"@) == Some(ValModel::Uint(r.byte_size))) by {
            assert((es[2]).0 == "byteSize"@);
        }
    }

    /// The round-trip law: decoding the canonical encoding of `r`
    /// yields a record that agrees with `r` on every field.
    pub proof fn lemma_round_trip(r: Blob, d: Blob)
        requires
            wf(r.wire()),
            Self::decodes_from(r.wire_entries(), d),
        ensures
            dec_full(enc(r.wire())) == Some(r.wire()),
            Self::eq_fields(d, r),
    {
        codec::lemma_round_trip(r.wire());
        Self::lemma_decode_agrees(r, d);
    }

    /// Unknown-field tolerance: appending a field under a key this
    /// record does not declare changes neither its shape check nor
    /// what any record decodes to.
    pub proof fn lemma_unknown_field_tolerance(
        es: Seq<(Seq<char>, ValModel)>,
        k: Seq<char>,
        v: ValModel,
        d: Blob,
    )
        requires
            k != "id"@,
            k != "container"@,
            k != "byteSize"@,
        ensures
            Self::shape_ok(es.push((k, v))) == Self::shape_ok(es),
            Self::decodes_from(es.push((k, v)), d) == Self::decodes_from(es, d),
    {
        value::lemma_entries_get_push_other(es, "id"@, k, v);
        value::lemma_entries_get_push_other(es, "container"@, k, v);
        value::lemma_entries_get_push_other(es, "byteSize"@, k, v);
    }
}

#[derive(Debug, PartialEq)]
pub struct BlobList {
    pub blobs: Vec<Blob>,
}

impl BlobList {
    /// The wire elements of the `blobs` field.
    pub open spec fn blobs_wire(self) -> Seq<ValModel> {
        Seq::new(self.blobs@.len(), |i: int| self.blobs@[i].wire())
    }

    /// The record's wire fields, in declaration order.
    pub open spec fn wire_entries(self) -> Seq<(Seq<char>, ValModel)> {
        seq![
            ("blobs"@, ValModel::Arr(self.blobs_wire())),
        ]
    }

    /// The record's wire value.
    pub open spec fn wire(self) -> ValModel {
        ValModel::Dict(self.wire_entries())
    }

    /// Whether decoded wire fields carry every required field with its
    /// declared type; unknown fields never disturb this, and absent
    /// fields with a declared default are allowed.
    pub open spec fn shape_ok(es: Seq<(Seq<char>, ValModel)>) -> bool {
        match entries_get(es, "blobs"@) {
            Some(v) => v matches ValModel::Arr(a) && (forall|i: int|
                0 <= i < a.len() ==> Blob::val_shape_ok(#[trigger] a[i])),
            None => true,
        }
    }

    /// Whether record `r` is the correct reading of wire fields `es`.
    pub open spec fn decodes_from(es: Seq<(Seq<char>, ValModel)>, r: BlobList) -> bool {
        match entries_get(es, "blobs"@) {
            Some(v) => v matches ValModel::Arr(a) && a.len() == r.blobs@.len() && (forall|i: int|
                0 <= i < a.len() ==> Blob::val_decodes(#[trigger] a[i], r.blobs@[i])),
            None => r.blobs@.len() == 0,
        }
    }

    /// Content equality: every field agrees.
    pub open spec fn eq_fields(a: BlobList, b: BlobList) -> bool {
        Blob::seq_eq(a.blobs@, b.blobs@)
    }

    /// Lowers the record to its wire value.
    #[verifier::loop_isolation(false)]
    pub fn to_val(&self) -> (v: Val)
        ensures
            v@ == self.wire(),
    {
        let mut es: Vec<(String, Val)> = Vec::new();
        let mut blobs_vals: Vec<Val> = Vec::new();
        let mut i: usize = 0;
        while i < self.blobs.len()
            invariant
                i <= self.blobs@.len(),
                blobs_vals@.len() == i,
                forall|j: int|
                    0 <= j < i ==> #[trigger] view_list(blobs_vals@)[j] == self.blobs@[j].wire(),
            decreases self.blobs@.len() - i,
        {
            proof {
                value::lemma_view_list(blobs_vals@);
            }
            let ghost before = blobs_vals@;
            blobs_vals.push(self.blobs[i].to_val());
            proof {
                value::lemma_view_list(blobs_vals@);
                assert forall|j: int|
                    0 <= j < i + 1 implies #[trigger] view_list(blobs_vals@)[j]
                        == self.blobs@[j].wire() by {
                    assert(view_list(blobs_vals@)[j] == blobs_vals@[j]@);
                    if j < i {
                        assert(blobs_vals@[j] == before[j]);
                        assert(view_list(before)[j] == before[j]@) by {
                            value::lemma_view_list(before);
                        }
                    }
                }
            }
            i = i + 1;
        }
        proof {
            value::lemma_view_list(blobs_vals@);
            assert(view_list(blobs_vals@) =~= self.blobs_wire());
        }
        es.push((String::from_str("blobs"), Val::Arr(blobs_vals)));
        proof {
            value::lemma_view_entries(es@);
            assert forall|i: int|
                0 <= i < es@.len() implies view_entries(es@)[i] == self.wire_entries()[i] by {
                assert(view_entries(es@)[i] == (es@[i].0@, es@[i].1@));
            }
            assert(view_entries(es@) =~= self.wire_entries());
        }
        Val::Dict(es)
    }

    /// Encodes the record through the canonical codec.
    pub fn encode(&self) -> (r: Result<Vec<u8>, EncodeError>)
        ensures
            match r {
                Ok(b) => wf(self.wire()) && b@ == enc(self.wire()),
                Err(e) => !wf(self.wire()) && e == EncodeError::Unencodable,
            },
    {
        let v = self.to_val();
        codec::encode_value(&v)
    }

    /// Lifts a decoded wire value into the record, filling defaults and
    /// ignoring unknown fields.
    #[verifier::loop_isolation(false)]
    pub fn from_val(v: &Val) -> (r: Result<BlobList, DecodeError>)
        ensures
            match r {
                Ok(rec) => v@ matches ValModel::Dict(es) && Self::shape_ok(es)
                    && Self::decodes_from(es, rec),
                Err(e) => match v@ {
                    ValModel::Dict(es) => !Self::shape_ok(es) && (e == DecodeError::MissingField
                        || e == DecodeError::TypeMismatch),
                    _ => e == DecodeError::TypeMismatch,
                },
            },
    {
        match v {
            Val::Dict(es) => {
                let blobs: Vec<Blob> = match value::map_get(es, "blobs") {
                    None => Vec::new(),
                    Some(Val::Arr(a)) => {
                        let mut items: Vec<Blob> = Vec::new();
                        let mut i: usize = 0;
                        while i < a.len()
                            invariant
                                i <= a@.len(),
                                items@.len() == i,
                                forall|j: int|
                                    0 <= j < i ==> Blob::val_shape_ok(
                                        #[trigger] view_list(a@)[j],
                                    ) && Blob::val_decodes(view_list(a@)[j], items@[j]),
                            decreases a@.len() - i,
                        {
                            proof {
                                value::lemma_view_list(a@);
                                assert(view_list(a@)[i as int] == a@[i as int]@);
                            }
                            match Blob::from_val(&a[i]) {
                                Ok(c) => items.push(c),
                                Err(e) => return Err(e),
                            }
                            i = i + 1;
                        }
                        proof {
                            value::lemma_view_list(a@);
                        }
                        items
                    },
                    Some(_) => return Err(DecodeError::TypeMismatch),
                };
                Ok(BlobList { blobs })
            },
            _ => Err(DecodeError::TypeMismatch),
        }
    }

    /// Decodes the record from its wire bytes.
    pub fn decode(bytes: &[u8]) -> (r: Result<BlobList, DecodeError>)
        ensures
            match r {
                Ok(rec) => dec_full(bytes@) matches Some(v) && (v matches ValModel::Dict(es)
                    && Self::shape_ok(es) && Self::decodes_from(es, rec)),
                Err(e) => match dec_full(bytes@) {
                    None => e == DecodeError::Malformed,
                    Some(v) => match v {
                        ValModel::Dict(es) => !Self::shape_ok(es) && (e
                            == DecodeError::MissingField || e == DecodeError::TypeMismatch),
                        _ => e == DecodeError::TypeMismatch,
                    },
                },
            },
    {
        let val = match codec::decode_value(bytes) {
            Ok(v) => v,
            Err(e) => return Err(e),
        };
        Self::from_val(&val)
    }

    /// Reading a record's own wire fields back yields the record: the
    /// encoder writes exactly what the decoder needs; and looking up
    /// any declared key finds exactly the field the encoder wrote.
    pub proof fn lemma_wire_round_trip(r: BlobList)
        ensures
            Self::shape_ok(r.wire_entries()),
            Self::decodes_from(r.wire_entries(), r),
            forall|i: int|
                0 <= i < r.wire_entries().len() ==> entries_get(
                    r.wire_entries(),
                    (#[trigger] r.wire_entries()[i]).0,
                ) == Some(r.wire_entries()[i].1),
    {
        reveal_strlit("blobs");
        let es = r.wire_entries();
        assert("blobs"@.len() == 5);
        value::lemma_entries_get_at(es, 0);
        assert forall|i: int|
            0 <= i < r.blobs@.len() implies Blob::val_shape_ok(#[trigger] r.blobs_wire()[i])
                && Blob::val_decodes(r.blobs_wire()[i], r.blobs@[i]) by {
            assert(r.blobs_wire()[i] == r.blobs@[i].wire());
            Blob::lemma_wire_round_trip(r.blobs@[i]);
        }
    }

    /// The wire fields of `r` pin the record: any correct reading of
    /// them agrees with `r` on every field.
    pub proof fn lemma_decode_agrees(r: BlobList, d: BlobList)
        requires
            Self::decodes_from(r.wire_entries(), d),
        ensures
            Self::eq_fields(d, r),
    {
        Self::lemma_wire_round_trip(r);
        let es = r.wire_entries();
        assert(entries_get(es, "blobs"@) == Some(ValModel::Arr(r.blobs_wire()))) by {
            assert((es[0]).0 == "blobs"@);
        }
        assert forall|i: int|
            0 <= i < d.blobs@.len() implies Blob::eq_fields(#[trigger] d.blobs@[i], r.blobs@[i]) by {
            assert(r.blobs_wire()[i] == r.blobs@[i].wire());
            Blob::lemma_decode_agrees(r.blobs@[i], d.blobs@[i]);
        }
    }

    /// The round-trip law: decoding the canonical encoding of `r`
    /// yields a record that agrees with `r` on every field.
    pub proof fn lemma_round_trip(r: BlobList, d: BlobList)
        requires
            wf(r.wire()),
            Self::decodes_from(r.wire_entries(), d),
        ensures
            dec_full(enc(r.wire())) == Some(r.wire()),
            Self::eq_fields(d, r),
    {
        codec::lemma_round_trip(r.wire());
        Self::lemma_decode_agrees(r, d);
    }

    /// Forward tolerance: wire fields that carry only the required
    /// fields of this record still decode, every absent defaulted
    /// field resolving to its declared default.
    pub proof fn lemma_forward_tolerance(es: Seq<(Seq<char>, ValModel)>, d: BlobList)
        requires
            entries_get(es, "blobs"@) is None,
        ensures
            Self::shape_ok(es),
            Self::decodes_from(es, d) ==> d.blobs@.len() == 0,
    {
    }

    /// Unknown-field tolerance: appending a field under a key this
    /// record does not declare changes neither its shape check nor
    /// what any record decodes to.
    pub proof fn lemma_unknown_field_tolerance(
        es: Seq<(Seq<char>, ValModel)>,
        k: Seq<char>,
        v: ValModel,
        d: BlobList,
    )
        requires
            k != "blobs"@,
        ensures
            Self::shape_ok(es.push((k, v))) == Self::shape_ok(es),
            Self::decodes_from(es.push((k, v)), d) == Self::decodes_from(es, d),
    {
        value::lemma_entries_get_push_other(es, "blobs"@, k, v);
    }
}

#[derive(Debug, PartialEq)]
pub struct StreamRequest {
    pub id: String,
    pub container: String,
    pub chunk_size: u64,
}

impl StreamRequest {
    /// The record's wire fields, in declaration order.
    pub open spec fn wire_entries(self) -> Seq<(Seq<char>, ValModel)> {
        seq![
            ("id"@, ValModel::Str(self.id@)),
            ("container"@, ValModel::Str(self.container@)),
            ("chunkSize"@, ValModel::Uint(self.chunk_size)),
        ]
    }

    /// The record's wire value.
    pub open spec fn wire(self) -> ValModel {
        ValModel::Dict(self.wire_entries())
    }

    /// Whether decoded wire fields carry every required field with its
    /// declared type; unknown fields never disturb this, and absent
    /// fields with a declared default are allowed.
    pub open spec fn shape_ok(es: Seq<(Seq<char>, ValModel)>) -> bool {
        &&& entries_get(es, "id"@) matches Some(v) && v is Str
        &&& entries_get(es, "container"@) matches Some(v) && v is Str
        &&& entries_get(es, "chunkSize"@) matches Some(v) && v is Uint
    }

    /// Whether record `r` is the correct reading of wire fields `es`.
    pub open spec fn decodes_from(es: Seq<(Seq<char>, ValModel)>, r: StreamRequest) -> bool {
        &&& entries_get(es, "id"@) == Some(ValModel::Str(r.id@))
        &&& entries_get(es, "container"@) == Some(ValModel::Str(r.container@))
        &&& entries_get(es, "chunkSize"@) == Some(ValModel::Uint(r.chunk_size))
    }

    /// Content equality: every field agrees.
    pub open spec fn eq_fields(a: StreamRequest, b: StreamRequest) -> bool {
        &&& a.id@ == b.id@
        &&& a.container@ == b.container@
        &&& a.chunk_size == b.chunk_size
    }

    /// Lowers the record to its wire value.
    pub fn to_val(&self) -> (v: Val)
        ensures
            v@ == self.wire(),
    {
        let mut es: Vec<(String, Val)> = Vec::new();
        es.push((String::from_str("id"), Val::Str(self.id.clone())));
        es.push((String::from_str("container"), Val::Str(self.container.clone())));
        es.push((String::from_str("chunkSize"), Val::Uint(self.chunk_size)));
        proof {
            value::lemma_view_entries(es@);
            assert forall|i: int|
                0 <= i < es@.len() implies view_entries(es@)[i] == self.wire_entries()[i] by {
                assert(view_entries(es@)[i] == (es@[i].0@, es@[i].1@));
            }
            assert(view_entries(es@) =~= self.wire_entries());
        }
        Val::Dict(es)
    }

    /// Encodes the record through the canonical codec.
    pub fn encode(&self) -> (r: Result<Vec<u8>, EncodeError>)
        ensures
            match r {
                Ok(b) => wf(self.wire()) && b@ == enc(self.wire()),
                Err(e) => !wf(self.wire()) && e == EncodeError::Unencodable,
            },
    {
        let v = self.to_val();
        codec::encode_value(&v)
    }

    /// Lifts a decoded wire value into the record, filling defaults and
    /// ignoring unknown fields.
    pub fn from_val(v: &Val) -> (r: Result<StreamRequest, DecodeError>)
        ensures
            match r {
                Ok(rec) => v@ matches ValModel::Dict(es) && Self::shape_ok(es)
                    && Self::decodes_from(es, rec),
                Err(e) => match v@ {
                    ValModel::Dict(es) => !Self::shape_ok(es) && (e == DecodeError::MissingField
                        || e == DecodeError::TypeMismatch),
                    _ => e == DecodeError::TypeMismatch,
                },
            },
    {
        match v {
            Val::Dict(es) => {
                let id = match value::get_str(es, "id") {
                    Ok(x) => x,
                    Err(e) => return Err(e),
                };
                let container = match value::get_str(es, "container") {
                    Ok(x) => x,
                    Err(e) => return Err(e),
                };
                let chunk_size = match value::get_uint(es, "chunkSize") {
                    Ok(x) => x,
                    Err(e) => return Err(e),
                };
                Ok(StreamRequest { id, container, chunk_size })
            },
            _ => Err(DecodeError::TypeMismatch),
        }
    }

    /// Decodes the record from its wire bytes.
    pub fn decode(bytes: &[u8]) -> (r: Result<StreamRequest, DecodeError>)
        ensures
            match r {
                Ok(rec) => dec_full(bytes@) matches Some(v) && (v matches ValModel::Dict(es)
                    && Self::shape_ok(es) && Self::decodes_from(es, rec)),
                Err(e) => match dec_full(bytes@) {
                    None => e == DecodeError::Malformed,
                    Some(v) => match v {
                        ValModel::Dict(es) => !Self::shape_ok(es) && (e
                            == DecodeError::MissingField || e == DecodeError::TypeMismatch),
                        _ => e == DecodeError::TypeMismatch,
                    },
                },
            },
    {
        let val = match codec::decode_value(bytes) {
            Ok(v) => v,
            Err(e) => return Err(e),
        };
        Self::from_val(&val)
    }

    /// Reading a record's own wire fields back yields the record: the
    /// encoder writes exactly what the decoder needs; and looking up
    /// any declared key finds exactly the field the encoder wrote.
    pub proof fn lemma_wire_round_trip(r: StreamRequest)
        ensures
            Self::shape_ok(r.wire_entries()),
            Self::decodes_from(r.wire_entries(), r),
            forall|i: int|
                0 <= i < r.wire_entries().len() ==> entries_get(
                    r.wire_entries(),
                    (#[trigger] r.wire_entries()[i]).0,
                ) == Some(r.wire_entries()[i].1),
    {
        reveal_strlit("chunkSize");
        reveal_strlit("container");
        reveal_strlit("id");
        let es = r.wire_entries();
        assert("chunkSize"@.len() == 9);
        assert("container"@.len() == 9);
        assert("id"@.len() == 2);
        assert("container"@[1] != "chunkSize"@[1]);
        value::lemma_entries_get_at(es, 0);
        value::lemma_entries_get_at(es, 1);
        value::lemma_entries_get_at(es, 2);
    }

    /// The wire fields of `r` pin the record: any correct reading of
    /// them agrees with `r` on every field.
    pub proof fn lemma_decode_agrees(r: StreamRequest, d: StreamRequest)
        requires
            Self::decodes_from(r.wire_entries(), d),
        ensures
            Self::eq_fields(d, r),
    {
        Self::lemma_wire_round_trip(r);
        let es = r.wire_entries();
        assert(entries_get(es, "id"@) == Some(ValModel::Str(r.id@))) by {
            assert((es[0]).0 == "id"@);
        }
        assert(entries_get(es, "container"@) == Some(ValModel::Str(r.container@))) by {
            assert((es[1]).0 == "container"@);
        }
        assert(entries_get(es, "chunkSize"@) == Some(ValModel::Uint(r.chunk_size))) by {
            assert((es[2]).0 == "chunkSize"@);
        }
    }

    /// The round-trip law: decoding the canonical encoding of `r`
    /// yields a record that agrees with `r` on every field.
    pub proof fn lemma_round_trip(r: StreamRequest, d: StreamRequest)
        requires
            wf(r.wire()),
            Self::decodes_from(r.wire_entries(), d),
        ensures
            dec_full(enc(r.wire())) == Some(r.wire()),
            Self::eq_fields(d, r),
    {
        codec::lemma_round_trip(r.wire());
        Self::lemma_decode_agrees(r, d);
    }

    /// Unknown-field tolerance: appending a field under a key this
    /// record does not declare changes neither its shape check nor
    /// what any record decodes to.
    pub proof fn lemma_unknown_field_tolerance(
        es: Seq<(Seq<char>, ValModel)>,
        k: Seq<char>,
        v: ValModel,
        d: StreamRequest,
    )
        requires
            k != "id"@,
            k != "container"@,
            k != "chunkSize"@,
        ensures
            Self::shape_ok(es.push((k, v))) == Self::shape_ok(es),
            Self::decodes_from(es.push((k, v)), d) == Self::decodes_from(es, d),
    {
        value::lemma_entries_get_push_other(es, "id"@, k, v);
        value::lemma_entries_get_push_other(es, "container"@, k, v);
        value::lemma_entries_get_push_other(es, "chunkSize"@, k, v);
    }
}

#[derive(Debug, PartialEq)]
pub struct Transfer {
    pub blob_id: String,
    pub container: String,
    pub chunk_size: u64,
    pub total_size: u64,
    pub total_chunks: u64,
}

impl Transfer {
    /// The record's wire fields, in declaration order.
    pub open spec fn wire_entries(self) -> Seq<(Seq<char>, ValModel)> {
        seq![
            ("blobId"@, ValModel::Str(self.blob_id@)),
            ("container"@, ValModel::Str(self.container@)),
            ("chunkSize"@, ValModel::Uint(self.chunk_size)),
            ("totalSize"@, ValModel::Uint(self.total_size)),
            ("totalChunks"@, ValModel::Uint(self.total_chunks)),
        ]
    }

    /// The record's wire value.
    pub open spec fn wire(self) -> ValModel {
        ValModel::Dict(self.wire_entries())
    }

    /// Whether decoded wire fields carry every required field with its
    /// declared type; unknown fields never disturb this, and absent
    /// fields with a declared default are allowed.
    pub open spec fn shape_ok(es: Seq<(Seq<char>, ValModel)>) -> bool {
        &&& entries_get(es, "blobId"@) matches Some(v) && v is Str
        &&& entries_get(es, "container"@) matches Some(v) && v is Str
        &&& entries_get(es, "chunkSize"@) matches Some(v) && v is Uint
        &&& entries_get(es, "totalSize"@) matches Some(v) && v is Uint
        &&& entries_get(es, "totalChunks"@) matches Some(v) && v is Uint
    }

    /// Whether record `r` is the correct reading of wire fields `es`.
    pub open spec fn decodes_from(es: Seq<(Seq<char>, ValModel)>, r: Transfer) -> bool {
        &&& entries_get(es, "blobId"@) == Some(ValModel::Str(r.blob_id@))
        &&& entries_get(es, "container"@) == Some(ValModel::Str(r.container@))
        &&& entries_get(es, "chunkSize"@) == Some(ValModel::Uint(r.chunk_size))
        &&& entries_get(es, "totalSize"@) == Some(ValModel::Uint(r.total_size))
        &&& entries_get(es, "totalChunks"@) == Some(ValModel::Uint(r.total_chunks))
    }

    /// Content equality: every field agrees.
    pub open spec fn eq_fields(a: Transfer, b: Transfer) -> bool {
        &&& a.blob_id@ == b.blob_id@
        &&& a.container@ == b.container@
        &&& a.chunk_size == b.chunk_size
        &&& a.total_size == b.total_size
        &&& a.total_chunks == b.total_chunks
    }

    /// Lowers the record to its wire value.
    pub fn to_val(&self) -> (v: Val)
        ensures
            v@ == self.wire(),
    {
        let mut es: Vec<(String, Val)> = Vec::new();
        es.push((String::from_str("blobId"), Val::Str(self.blob_id.clone())));
        es.push((String::from_str("container"), Val::Str(self.container.clone())));
        es.push((String::from_str("chunkSize"), Val::Uint(self.chunk_size)));
        es.push((String::from_str("totalSize"), Val::Uint(self.total_size)));
        es.push((String::from_str("totalChunks"), Val::Uint(self.total_chunks)));
        proof {
            value::lemma_view_entries(es@);
            assert forall|i: int|
                0 <= i < es@.len() implies view_entries(es@)[i] == self.wire_entries()[i] by {
                assert(view_entries(es@)[i] == (es@[i].0@, es@[i].1@));
            }
            assert(view_entries(es@) =~= self.wire_entries());
        }
        Val::Dict(es)
    }

    /// Encodes the record through the canonical codec.
    pub fn encode(&self) -> (r: Result<Vec<u8>, EncodeError>)
        ensures
            match r {
                Ok(b) => wf(self.wire()) && b@ == enc(self.wire()),
                Err(e) => !wf(self.wire()) && e == EncodeError::Unencodable,
            },
    {
        let v = self.to_val();
        codec::encode_value(&v)
    }

    /// Lifts a decoded wire value into the record, filling defaults and
    /// ignoring unknown fields.
    pub fn from_val(v: &Val) -> (r: Result<Transfer, DecodeError>)
        ensures
            match r {
                Ok(rec) => v@ matches ValModel::Dict(es) && Self::shape_ok(es)
                    && Self::decodes_from(es, rec),
                Err(e) => match v@ {
                    ValModel::Dict(es) => !Self::shape_ok(es) && (e == DecodeError::MissingField
                        || e == DecodeError::TypeMismatch),
                    _ => e == DecodeError::TypeMismatch,
                },
            },
    {
        match v {
            Val::Dict(es) => {
                let blob_id = match value::get_str(es, "blobId") {
                    Ok(x) => x,
                    Err(e) => return Err(e),
                };
                let container = match value::get_str(es, "container") {
                    Ok(x) => x,
                    Err(e) => return Err(e),
                };
                let chunk_size = match value::get_uint(es, "chunkSize") {
                    Ok(x) => x,
                    Err(e) => return Err(e),
                };
                let total_size = match value::get_uint(es, "totalSize") {
                    Ok(x) => x,
                    Err(e) => return Err(e),
                };
                let total_chunks = match value::get_uint(es, "totalChunks") {
                    Ok(x) => x,
                    Err(e) => return Err(e),
                };
                Ok(Transfer { blob_id, container, chunk_size, total_size, total_chunks })
            },
            _ => Err(DecodeError::TypeMismatch),
        }
    }

    /// Decodes the record from its wire bytes.
    pub fn decode(bytes: &[u8]) -> (r: Result<Transfer, DecodeError>)
        ensures
            match r {
                Ok(rec) => dec_full(bytes@) matches Some(v) && (v matches ValModel::Dict(es)
                    && Self::shape_ok(es) && Self::decodes_from(es, rec)),
                Err(e) => match dec_full(bytes@) {
                    None => e == DecodeError::Malformed,
                    Some(v) => match v {
                        ValModel::Dict(es) => !Self::shape_ok(es) && (e
                            == DecodeError::MissingField || e == DecodeError::TypeMismatch),
                        _ => e == DecodeError::TypeMismatch,
                    },
                },
            },
    {
        let val = match codec::decode_value(bytes) {
            Ok(v) => v,
            Err(e) => return Err(e),
        };
        Self::from_val(&val)
    }

    /// Reading a record's own wire fields back yields the record: the
    /// encoder writes exactly what the decoder needs; and looking up
    /// any declared key finds exactly the field the encoder wrote.
    pub proof fn lemma_wire_round_trip(r: Transfer)
        ensures
            Self::shape_ok(r.wire_entries()),
            Self::decodes_from(r.wire_entries(), r),
            forall|i: int|
                0 <= i < r.wire_entries().len() ==> entries_get(
                    r.wire_entries(),
                    (#[trigger] r.wire_entries()[i]).0,
                ) == Some(r.wire_entries()[i].1),
    {
        reveal_strlit("blobId");
        reveal_strlit("chunkSize");
        reveal_strlit("container");
        reveal_strlit("totalChunks");
        reveal_strlit("totalSize");
        let es = r.wire_entries();
        assert("blobId"@.len() == 6);
        assert("chunkSize"@.len() == 9);
        assert("container"@.len() == 9);
        assert("totalChunks"@.len() == 11);
        assert("totalSize"@.len() == 9);
        assert("container"@[1] != "chunkSize"@[1]);
        assert("container"@[0] != "totalSize"@[0]);
        assert("chunkSize"@[0] != "totalSize"@[0]);
        value::lemma_entries_get_at(es, 0);
        value::lemma_entries_get_at(es, 1);
        value::lemma_entries_get_at(es, 2);
        value::lemma_entries_get_at(es, 3);
        value::lemma_entries_get_at(es, 4);
    }

    /// The wire fields of `r` pin the record: any correct reading of
    /// them agrees with `r` on every field.
    pub proof fn lemma_decode_agrees(r: Transfer, d: Transfer)
        requires
            Self::decodes_from(r.wire_entries(), d),
        ensures
            Self::eq_fields(d, r),
    {
        Self::lemma_wire_round_trip(r);
        let es = r.wire_entries();
        assert(entries_get(es, "blobId"@) == Some(ValModel::Str(r.blob_id@))) by {
            assert((es[0]).0 == "blobId"@);
        }
        assert(entries_get(es, "container"@) == Some(ValModel::Str(r.container@))) by {
            assert((es[1]).0 == "container"@);
        }
        assert(entries_get(es, "chunkSize"@) == Some(ValModel::Uint(r.chunk_size))) by {
            assert((es[2]).0 == "chunkSize"@);
        }
        assert(entries_get(es, "totalSize"@) == Some(ValModel::Uint(r.total_size))) by {
            assert((es[3]).0 == "totalSize"@);
        }
        assert(entries_get(es, "totalChunks"@) == Some(ValModel::Uint(r.total_chunks))) by {
            assert((es[4]).0 == "totalChunks"@);
        }
    }

    /// The round-trip law: decoding the canonical encoding of `r`
    /// yields a record that agrees with `r` on every field.
    pub proof fn lemma_round_trip(r: Transfer, d: Transfer)
        requires
            wf(r.wire()),
            Self::decodes_from(r.wire_entries(), d),
        ensures
            dec_full(enc(r.wire())) == Some(r.wire()),
            Self::eq_fields(d, r),
    {
        codec::lemma_round_trip(r.wire());
        Self::lemma_decode_agrees(r, d);
    }

    /// Unknown-field tolerance: appending a field under a key this
    /// record does not declare changes neither its shape check nor
    /// what any record decodes to.
    pub proof fn lemma_unknown_field_tolerance(
        es: Seq<(Seq<char>, ValModel)>,
        k: Seq<char>,
        v: ValModel,
        d: Transfer,
    )
        requires
            k != "blobId"@,
            k != "container"@,
            k != "chunkSize"@,
            k != "totalSize"@,
            k != "totalChunks"@,
        ensures
            Self::shape_ok(es.push((k, v))) == Self::shape_ok(es),
            Self::decodes_from(es.push((k, v)), d) == Self::decodes_from(es, d),
    {
        value::lemma_entries_get_push_other(es, "blobId"@, k, v);
        value::lemma_entries_get_push_other(es, "container"@, k, v);
        value::lemma_entries_get_push_other(es, "chunkSize"@, k, v);
        value::lemma_entries_get_push_other(es, "totalSize"@, k, v);
        value::lemma_entries_get_push_other(es, "totalChunks"@, k, v);
    }
}

impl FileChunk {
    /// The canonical example value used by the self-test fixtures.
    pub fn sample() -> (r: FileChunk)
        ensures
            r.sequence_no == 5,
            r.container@ == "container"@,
            r.id@ == "blob"@,
            r.total_bytes == 53400,
            r.chunk_size == 1024,
            r.chunk_bytes@ == seq![1u8, 2u8, 3u8, 4u8, 5u8],
    {
        let mut chunk_bytes: Vec<u8> = Vec::new();
        chunk_bytes.push(1);
        chunk_bytes.push(2);
        chunk_bytes.push(3);
        chunk_bytes.push(4);
        chunk_bytes.push(5);
        proof {
            assert(chunk_bytes@ =~= seq![1u8, 2u8, 3u8, 4u8, 5u8]);
        }
        FileChunk {
            sequence_no: 5,
            container: String::from_str("container"),
            id: String::from_str("blob"),
            total_bytes: 53400,
            chunk_size: 1024,
            chunk_bytes,
        }
    }
}

impl ContainerList {
    /// The canonical example value used by the self-test fixtures.
    pub fn sample() -> (r: ContainerList)
        ensures
            r.containers@.len() == 1,
            r.containers@[0].id@ == "container"@,
    {
        let mut containers: Vec<Container> = Vec::new();
        containers.push(Container { id: String::from_str("container") });
        ContainerList { containers }
    }
}

/// The number of chunks a transfer of `total_size` bytes needs when cut
/// into pieces of `chunk_size` bytes: the last chunk may be partial.
pub open spec fn chunks_needed(total_size: u64, chunk_size: u64) -> int
    recommends
        chunk_size > 0,
{
    (total_size + chunk_size - 1) / (chunk_size as int)
}

/// Derives the chunk count of a transfer plan. Both sides of a transfer
/// compute this from the same negotiated numbers, so they always agree.
/// Fails only on a zero chunk size.
pub fn total_chunks(total_size: u64, chunk_size: u64) -> (r: Option<u64>)
    ensures
        match r {
            Some(n) => chunk_size > 0 && n as int == chunks_needed(total_size, chunk_size),
            None => chunk_size == 0,
        },
{
    if chunk_size == 0 {
        return None;
    }
    let q = total_size / chunk_size;
    let rem = total_size % chunk_size;
    if rem == 0 {
        proof {
            assert(q as int == chunks_needed(total_size, chunk_size)) by (nonlinear_arith)
                requires
                    chunk_size > 0,
                    q == total_size / chunk_size,
                    total_size % chunk_size == 0,
            ;
        }
        Some(q)
    } else {
        proof {
            assert(q < 0xffff_ffff_ffff_ffff && q + 1 == chunks_needed(total_size, chunk_size))
                by (nonlinear_arith)
                requires
                    chunk_size > 0,
                    q == total_size / chunk_size,
                    rem == total_size % chunk_size,
                    rem != 0,
            ;
        }
        Some(q + 1)
    }
}

impl Transfer {
    /// Computes the negotiated plan metadata of a transfer: both sides
    /// derive the same chunk count. Fails only on a zero chunk size.
    pub fn plan(blob_id: String, container: String, chunk_size: u64, total_size: u64) -> (r:
        Option<Transfer>)
        ensures
            match r {
                Some(t) => chunk_size > 0 && t.blob_id@ == blob_id@ && t.container@ == container@
                    && t.chunk_size == chunk_size && t.total_size == total_size
                    && t.total_chunks as int == chunks_needed(total_size, chunk_size),
                None => chunk_size == 0,
            },
    {
        match total_chunks(total_size, chunk_size) {
            Some(n) => Some(
                Transfer { blob_id, container, chunk_size, total_size, total_chunks: n },
            ),
            None => None,
        }
    }
}

/// Reassembles one chunked transfer on the receiving side.
///
/// Chunks must arrive in strict sequence order starting at 0; the transfer
/// is complete exactly when the cumulative byte count reaches the total
/// negotiated at the start. Out-of-order, duplicate, empty, or oversized
/// chunks are protocol violations and leave the receiver unchanged.
#[derive(Debug, PartialEq)]
pub struct ChunkReceiver {
    /// The negotiated total size of the transfer, in bytes.
    pub total_bytes: u64,
    /// The sequence number the next chunk must carry.
    pub next_sequence: u64,
    /// The bytes accepted so far.
    pub received_bytes: u64,
}

impl ChunkReceiver {
    /// The receiver's invariant: accepted chunks carry at least one byte
    /// each, so the chunk count never outruns the byte count.
    pub open spec fn wf(self) -> bool {
        self.next_sequence <= self.received_bytes <= self.total_bytes
    }

    /// A fresh receiver for a transfer of `total_bytes` bytes.
    pub fn new(total_bytes: u64) -> (r: ChunkReceiver)
        ensures
            r.total_bytes == total_bytes,
            r.next_sequence == 0,
            r.received_bytes == 0,
            r.wf(),
    {
        ChunkReceiver { total_bytes, next_sequence: 0, received_bytes: 0 }
    }

    /// Whether the cumulative byte count has reached the negotiated total.
    pub fn is_complete(&self) -> (r: bool)
        ensures
            r == (self.received_bytes == self.total_bytes),
    {
        self.received_bytes == self.total_bytes
    }

    /// Accepts the next chunk of the transfer.
    ///
    /// On success the cumulative count grows by the chunk's payload size
    /// and the result says whether the transfer is now complete. A chunk
    /// whose sequence number was already consumed, or which arrives ahead
    /// of the expected number, is rejected as a protocol violation; so is
    /// an empty chunk or one that would exceed the negotiated total.
    pub fn receive(&mut self, chunk: &FileChunk) -> (r: Result<bool, ChunkError>)
        requires
            old(self).wf(),
        ensures
            final(self).wf(),
            match r {
                Ok(done) => chunk.sequence_no == old(self).next_sequence
                    && chunk.chunk_bytes@.len() > 0 && old(self).received_bytes
                    + chunk.chunk_bytes@.len() <= old(self).total_bytes && final(self).total_bytes
                    == old(self).total_bytes && final(self).next_sequence == old(
                    self,
                ).next_sequence + 1 && final(self).received_bytes == old(self).received_bytes
                    + chunk.chunk_bytes@.len() && done == (final(self).received_bytes == old(
                    self,
                ).total_bytes),
                Err(e) => *final(self) == *old(self) && ((e == ChunkError::Duplicate
                    && chunk.sequence_no < old(self).next_sequence) || (e
                    == ChunkError::OutOfOrder && chunk.sequence_no > old(self).next_sequence) || (
                e == ChunkError::Empty && chunk.sequence_no == old(self).next_sequence
                    && chunk.chunk_bytes@.len() == 0) || (e == ChunkError::Oversized
                    && chunk.sequence_no == old(self).next_sequence && chunk.chunk_bytes@.len() > 0
                    && old(self).received_bytes + chunk.chunk_bytes@.len() > old(
                    self,
                ).total_bytes)),
            },
    {
        if chunk.sequence_no < self.next_sequence {
            return Err(ChunkError::Duplicate);
        }
        if chunk.sequence_no > self.next_sequence {
            return Err(ChunkError::OutOfOrder);
        }
        let len = chunk.chunk_bytes.len();
        if len == 0 {
            return Err(ChunkError::Empty);
        }
        if len as u64 > self.total_bytes - self.received_bytes {
            return Err(ChunkError::Oversized);
        }
        self.received_bytes = self.received_bytes + len as u64;
        self.next_sequence = self.next_sequence + 1;
        Ok(self.received_bytes == self.total_bytes)
    }
}

} // verus!
