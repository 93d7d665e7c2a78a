//! Operation resolution: flat and namespaced names, and the distinct
//! unknown-operation failure.

use wascc_codec::error::Error;
use wascc_codec::registry::{op_in_domain, parse_operation, Domain};

#[test]
fn namespaced_name_resolves_without_context() {
    let r = parse_operation("wascc:keyvalue!Get", None).unwrap();
    assert_eq!(r.domain, Domain::KeyValue);
    assert_eq!(r.operation, "Get");
}

#[test]
fn flat_name_resolves_with_domain_context() {
    let r = parse_operation("Get", Some(Domain::KeyValue)).unwrap();
    assert_eq!(r.domain, Domain::KeyValue);
    assert_eq!(r.operation, "Get");
}

#[test]
fn bogus_capability_yields_unknown_operation() {
    assert_eq!(parse_operation("bogus!Nope", None), Err(Error::UnknownOperation));
}

#[test]
fn flat_name_without_context_is_unknown() {
    assert_eq!(parse_operation("Get", None), Err(Error::UnknownOperation));
}

#[test]
fn operation_must_belong_to_its_domain() {
    // "Publish" is a messaging operation, not a key-value one.
    assert_eq!(parse_operation("wascc:keyvalue!Publish", None), Err(Error::UnknownOperation));
    assert!(parse_operation("wascc:messaging!Publish", None).is_ok());
    assert_eq!(parse_operation("Publish", Some(Domain::KeyValue)), Err(Error::UnknownOperation));
}

#[test]
fn every_domain_resolves_its_own_operations() {
    for (name, d, op) in [
        ("wascc:core!HealthRequest", Domain::Core, "HealthRequest"),
        ("wascc:http_server!HandleRequest", Domain::Http, "HandleRequest"),
        ("wascc:httpclient!PerformRequest", Domain::Http, "PerformRequest"),
        ("wascc:messaging!Request", Domain::Messaging, "Request"),
        ("wascc:blobstore!StartDownload", Domain::BlobStore, "StartDownload"),
        ("wascc:eventstreams!QueryStream", Domain::EventStreams, "QueryStream"),
        ("wascc:extras!RequestRandom", Domain::Extras, "RequestRandom"),
        ("wascc:logging!WriteLog", Domain::Logging, "WriteLog"),
    ] {
        let r = parse_operation(name, None).unwrap();
        assert_eq!(r.domain, d);
        assert_eq!(r.operation, op);
    }
}

#[test]
fn operation_names_are_case_sensitive() {
    assert_eq!(parse_operation("wascc:keyvalue!get", None), Err(Error::UnknownOperation));
    assert!(!op_in_domain(Domain::KeyValue, "get"));
    assert!(op_in_domain(Domain::KeyValue, "Get"));
}

#[test]
fn capability_id_without_namespace_still_resolves() {
    let r = parse_operation("keyvalue!Del", None).unwrap();
    assert_eq!(r.domain, Domain::KeyValue);
    assert_eq!(r.operation, "Del");
}

#[test]
fn operation_constants_resolve_in_their_domains() {
    assert!(op_in_domain(Domain::KeyValue, wascc_codec::keyvalue::OP_LIST_DEL));
    assert!(op_in_domain(Domain::BlobStore, wascc_codec::blobstore::OP_RECEIVE_CHUNK));
    assert!(op_in_domain(Domain::Core, wascc_codec::lifecycle::OP_PERFORM_LIVE_UPDATE));
    assert!(op_in_domain(Domain::Messaging, wascc_codec::messaging::OP_PUBLISH_MESSAGE));
    assert!(op_in_domain(Domain::Extras, wascc_codec::extras::OP_REQUEST_GUID));
    assert!(op_in_domain(Domain::EventStreams, wascc_codec::eventstreams::OP_WRITE_EVENT));
    assert!(op_in_domain(Domain::Http, wascc_codec::http::OP_HANDLE_REQUEST));
    assert!(op_in_domain(Domain::Logging, wascc_codec::logging::OP_LOG));
}
