//! The operation registry: resolves an operation string to its capability
//! domain and operation name.
//!
//! Two naming generations coexist. The flat form is a bare verb such as
//! `"Publish"`, unique only within a domain and correct only when the
//! runtime can infer the domain from context. The namespaced form is
//! `"<namespace>:<domain>!<Operation>"`, globally unique and resolvable
//! without a side channel. Resolution failure is a distinct condition,
//! never silently mapped to a default handler.

use vstd::prelude::*;
use vstd::string::{StringExecFns, StrSliceExecFns};
use crate::error::Error;
use crate::value::str_eq;

verus! {

broadcast use vstd::seq::group_seq_axioms;

/// A capability domain: a named grouping of records and operations.
#[derive(Clone, Copy, Debug, PartialEq, Eq, Structural)]
pub enum Domain {
    Core,
    Http,
    KeyValue,
    Messaging,
    BlobStore,
    EventStreams,
    Extras,
    Logging,
}

/// The first position of `c` in `s`, if any.
pub open spec fn find_char(s: Seq<char>, c: char) -> Option<int>
    decreases s.len(),
{
    if s.len() == 0 {
        None
    } else if s[0] == c {
        Some(0)
    } else {
        match find_char(s.drop_first(), c) {
            Some(i) => Some(i + 1),
            None => None,
        }
    }
}

/// What [`find_char`] finds is the first occurrence.
pub proof fn lemma_find_char_first(s: Seq<char>, c: char, i: int)
    requires
        0 <= i < s.len(),
        s[i] == c,
        forall|j: int| 0 <= j < i ==> s[j] != c,
    ensures
        find_char(s, c) == Some(i),
    decreases i,
{
    if i > 0 {
        assert(s[0] != c);
        lemma_find_char_first(s.drop_first(), c, i - 1);
        assert forall|j: int| 0 <= j < i - 1 implies s.drop_first()[j] != c by {
            assert(s.drop_first()[j] == s[j + 1]);
        }
    }
}

/// A character that occurs nowhere is not found.
pub proof fn lemma_find_char_none(s: Seq<char>, c: char)
    requires
        forall|j: int| 0 <= j < s.len() ==> s[j] != c,
    ensures
        find_char(s, c) is None,
    decreases s.len(),
{
    if s.len() > 0 {
        lemma_find_char_none(s.drop_first(), c);
    }
}

/// The domain named by a domain token of a namespaced operation string.
pub open spec fn domain_of_token(t: Seq<char>) -> Option<Domain> {
    if t == "core"@ {
        Some(Domain::Core)
    } else if t == "http"@ || t == "http_server"@ || t == "httpclient"@ {
        Some(Domain::Http)
    } else if t == "keyvalue"@ {
        Some(Domain::KeyValue)
    } else if t == "messaging"@ {
        Some(Domain::Messaging)
    } else if t == "blobstore"@ {
        Some(Domain::BlobStore)
    } else if t == "eventstreams"@ {
        Some(Domain::EventStreams)
    } else if t == "extras"@ {
        Some(Domain::Extras)
    } else if t == "logging"@ {
        Some(Domain::Logging)
    } else {
        None
    }
}

/// Whether `op` names an operation of domain `d`.
pub open spec fn domain_has_op(d: Domain, op: Seq<char>) -> bool {
    match d {
        Domain::Core => op == "Initialize"@ || op == "Configure"@ || op == "IdentifyCapability"@
            || op == "HealthRequest"@ || op == "PerformLiveUpdate"@ || op == "RemoveActor"@,
        Domain::Http => op == "HandleRequest"@ || op == "PerformRequest"@,
        Domain::KeyValue => op == "Add"@ || op == "Get"@ || op == "Set"@ || op == "Del"@ || op
            == "Clear"@ || op == "Range"@ || op == "Push"@ || op == "ListItemDelete"@ || op
            == "SetAdd"@ || op == "SetRemove"@ || op == "SetUnion"@ || op == "SetIntersection"@
            || op == "SetQuery"@ || op == "KeyExists"@,
        Domain::Messaging => op == "Publish"@ || op == "DeliverMessage"@ || op == "Request"@,
        Domain::BlobStore => op == "CreateContainer"@ || op == "RemoveContainer"@ || op
            == "RemoveObject"@ || op == "ListObjects"@ || op == "UploadChunk"@ || op
            == "StartDownload"@ || op == "StartUpload"@ || op == "ReceiveChunk"@ || op
            == "GetObjectInfo"@,
        Domain::EventStreams => op == "WriteEvent"@ || op == "DeliverEvent"@ || op
            == "QueryStream"@,
        Domain::Extras => op == "RequestGuid"@ || op == "RequestSequence"@ || op
            == "RequestRandom"@,
        Domain::Logging => op == "WriteLog"@,
    }
}

/// What an operation string resolves to, if anything.
///
/// A string with a `!` is namespaced: the part before the `!` is the
/// capability identifier, and everything after the identifier's first `:`
/// (or the whole identifier, when it has none) names the domain; the part
/// after the `!` is the operation. A string without a `!` is flat: it
/// resolves only against an explicit domain context.
pub open spec fn resolve_model(s: Seq<char>, ctx: Option<Domain>) -> Option<(Domain, Seq<char>)> {
    match find_char(s, '!') {
        Some(i) => {
            let cap = s.subrange(0, i);
            let op = s.subrange(i + 1, s.len() as int);
            let tok = match find_char(cap, ':') {
                Some(j) => cap.subrange(j + 1, cap.len() as int),
                None => cap,
            };
            match domain_of_token(tok) {
                Some(d) => if domain_has_op(d, op) {
                    Some((d, op))
                } else {
                    None
                },
                None => None,
            }
        },
        None => match ctx {
            Some(d) => if domain_has_op(d, s) {
                Some((d, s))
            } else {
                None
            },
            None => None,
        },
    }
}

/// A resolved operation: its domain and its bare operation name.
#[derive(Debug, PartialEq)]
pub struct ResolvedOperation {
    pub domain: Domain,
    pub operation: String,
}

/// Finds the first position of `c` in `s`.
#[verifier::loop_isolation(false)]
fn find_char_at(s: &str, c: char) -> (r: Option<usize>)
    ensures
        match r {
            Some(i) => find_char(s@, c) == Some(i as int) && i < s@.len(),
            None => find_char(s@, c) is None,
        },
{
    let n = s.unicode_len();
    let mut i: usize = 0;
    while i < n
        invariant
            n == s@.len(),
            i <= n,
            forall|j: int| 0 <= j < i ==> s@[j] != c,
        decreases n - i,
    {
        if s.get_char(i) == c {
            proof {
                lemma_find_char_first(s@, c, i as int);
            }
            return Some(i);
        }
        i = i + 1;
    }
    proof {
        lemma_find_char_none(s@, c);
    }
    None
}

/// Maps a domain token to its domain.
fn domain_token(t: &str) -> (r: Option<Domain>)
    ensures
        r == domain_of_token(t@),
{
    if str_eq(t, "core") {
        Some(Domain::Core)
    } else if str_eq(t, "http") || str_eq(t, "http_server") || str_eq(t, "httpclient") {
        Some(Domain::Http)
    } else if str_eq(t, "keyvalue") {
        Some(Domain::KeyValue)
    } else if str_eq(t, "messaging") {
        Some(Domain::Messaging)
    } else if str_eq(t, "blobstore") {
        Some(Domain::BlobStore)
    } else if str_eq(t, "eventstreams") {
        Some(Domain::EventStreams)
    } else if str_eq(t, "extras") {
        Some(Domain::Extras)
    } else if str_eq(t, "logging") {
        Some(Domain::Logging)
    } else {
        None
    }
}

/// Whether `op` names an operation of domain `d`.
pub fn op_in_domain(d: Domain, op: &str) -> (r: bool)
    ensures
        r == domain_has_op(d, op@),
{
    match d {
        Domain::Core => str_eq(op, "Initialize") || str_eq(op, "Configure") || str_eq(
            op,
            "IdentifyCapability",
        ) || str_eq(op, "HealthRequest") || str_eq(op, "PerformLiveUpdate") || str_eq(
            op,
            "RemoveActor",
        ),
        Domain::Http => str_eq(op, "HandleRequest") || str_eq(op, "PerformRequest"),
        Domain::KeyValue => str_eq(op, "Add") || str_eq(op, "Get") || str_eq(op, "Set") || str_eq(
            op,
            "Del",
        ) || str_eq(op, "Clear") || str_eq(op, "Range") || str_eq(op, "Push") || str_eq(
            op,
            "ListItemDelete",
        ) || str_eq(op, "SetAdd") || str_eq(op, "SetRemove") || str_eq(op, "SetUnion") || str_eq(
            op,
            "SetIntersection",
        ) || str_eq(op, "SetQuery") || str_eq(op, "KeyExists"),
        Domain::Messaging => str_eq(op, "Publish") || str_eq(op, "DeliverMessage") || str_eq(
            op,
            "Request",
        ),
        Domain::BlobStore => str_eq(op, "CreateContainer") || str_eq(op, "RemoveContainer")
            || str_eq(op, "RemoveObject") || str_eq(op, "ListObjects") || str_eq(
            op,
            "UploadChunk",
        ) || str_eq(op, "StartDownload") || str_eq(op, "StartUpload") || str_eq(
            op,
            "ReceiveChunk",
        ) || str_eq(op, "GetObjectInfo"),
        Domain::EventStreams => str_eq(op, "WriteEvent") || str_eq(op, "DeliverEvent") || str_eq(
            op,
            "QueryStream",
        ),
        Domain::Extras => str_eq(op, "RequestGuid") || str_eq(op, "RequestSequence") || str_eq(
            op,
            "RequestRandom",
        ),
        Domain::Logging => str_eq(op, "WriteLog"),
    }
}

/// Resolves an operation string, flat or namespaced, to its domain and
/// operation name.
///
/// A namespaced string resolves on its own; a flat string resolves only
/// against the given domain context. A string that does not resolve is
/// rejected as an unknown operation, exactly when [`resolve_model`] says
/// so.
pub fn parse_operation(op: &str, context: Option<Domain>) -> (r: Result<ResolvedOperation, Error>)
    ensures
        match r {
            Ok(res) => resolve_model(op@, context) == Some((res.domain, res.operation@)),
            Err(e) => resolve_model(op@, context) is None && e == Error::UnknownOperation,
        },
{
    let n = op.unicode_len();
    match find_char_at(op, '!') {
        Some(i) => {
            let cap = op.substring_char(0, i);
            let opname = op.substring_char(i + 1, n);
            let tok = match find_char_at(cap, ':') {
                Some(j) => cap.substring_char(j + 1, i),
                None => cap,
            };
            match domain_token(tok) {
                Some(d) => {
                    if op_in_domain(d, opname) {
                        Ok(ResolvedOperation { domain: d, operation: String::from_str(opname) })
                    } else {
                        Err(Error::UnknownOperation)
                    }
                },
                None => Err(Error::UnknownOperation),
            }
        },
        None => match context {
            Some(d) => {
                if op_in_domain(d, op) {
                    Ok(ResolvedOperation { domain: d, operation: String::from_str(op) })
                } else {
                    Err(Error::UnknownOperation)
                }
            },
            None => Err(Error::UnknownOperation),
        },
    }
}

} // verus!
