//! Round-trip checks: decoding the encoding of a record yields the record.

use wascc_codec::blobstore::{Blob, BlobList, Container, ContainerList, FileChunk, StreamRequest, Transfer};
use wascc_codec::eventstreams::{Event, StreamQuery, StreamResults, TimeRange, WriteResponse};
use wascc_codec::extras::{GeneratorRequest, GeneratorResult};
use wascc_codec::http::{Request, Response};
use wascc_codec::keyvalue::{AddRequest, AddResponse, GetRequest, GetResponse, ListRangeRequest, ListRangeResponse, SetIntersectionRequest, SetOperationResponse, SetRequest};
use wascc_codec::lifecycle::{CapabilityConfiguration, HealthRequest, LiveUpdate};
use wascc_codec::logging::WriteLogRequest;
use wascc_codec::messaging::{BrokerMessage, RequestMessage};

#[test]
fn file_chunk_sample_round_trips() {
    let s = FileChunk::sample();
    let bytes = s.encode().unwrap();
    let d = FileChunk::decode(&bytes).unwrap();
    assert_eq!(d, FileChunk::sample());
    assert_eq!(d.sequence_no, 5);
    assert_eq!(d.total_bytes, 53400);
    assert_eq!(d.chunk_bytes, vec![1, 2, 3, 4, 5]);
}

#[test]
fn container_list_sample_round_trips() {
    let s = ContainerList::sample();
    let bytes = s.encode().unwrap();
    let d = ContainerList::decode(&bytes).unwrap();
    assert_eq!(d, ContainerList::sample());
    assert_eq!(d.containers.len(), 1);
    assert_eq!(d.containers[0].id, "container");
}

#[test]
fn blob_list_round_trips() {
    let s = BlobList {
        blobs: vec![
            Blob { id: "a".to_string(), container: "c".to_string(), byte_size: 7 },
            Blob { id: "b".to_string(), container: "c".to_string(), byte_size: 0 },
        ],
    };
    let bytes = s.encode().unwrap();
    let d = BlobList::decode(&bytes).unwrap();
    assert_eq!(d.blobs.len(), 2);
    assert_eq!(d.blobs[0].id, "a");
    assert_eq!(d.blobs[1].byte_size, 0);
}

#[test]
fn stream_request_round_trips() {
    let s = StreamRequest {
        id: "blob".to_string(),
        container: "container".to_string(),
        chunk_size: 4096,
    };
    let bytes = s.encode().unwrap();
    assert_eq!(StreamRequest::decode(&bytes).unwrap(), s);
}

#[test]
fn transfer_round_trips() {
    let s = Transfer::plan("blob".to_string(), "container".to_string(), 1024, 53400).unwrap();
    let bytes = s.encode().unwrap();
    let d = Transfer::decode(&bytes).unwrap();
    assert_eq!(d.total_chunks, 53);
    assert_eq!(d, Transfer::plan("blob".to_string(), "container".to_string(), 1024, 53400).unwrap());
}

#[test]
fn stream_query_sample_round_trips() {
    let s = StreamQuery::sample();
    let bytes = s.encode().unwrap();
    let d = StreamQuery::decode(&bytes).unwrap();
    assert_eq!(d, StreamQuery::sample());
    assert_eq!(d.range, Some(TimeRange { min_time: 0, max_time: 1000 }));
    assert_eq!(d.count, 42);
}

#[test]
fn stream_query_without_range_round_trips() {
    let s = StreamQuery { stream_id: "s2".to_string(), range: None, count: 1 };
    let bytes = s.encode().unwrap();
    assert_eq!(StreamQuery::decode(&bytes).unwrap(), s);
}

#[test]
fn stream_results_round_trips() {
    let s = StreamResults {
        events: vec![Event {
            event_id: "e1".to_string(),
            stream: "s".to_string(),
            values: vec![("k".to_string(), "v".to_string())],
        }],
    };
    let bytes = s.encode().unwrap();
    let d = StreamResults::decode(&bytes).unwrap();
    assert_eq!(d, s);
}

#[test]
fn write_response_round_trips() {
    let s = WriteResponse { event_id: "ev-77".to_string() };
    let bytes = s.encode().unwrap();
    assert_eq!(WriteResponse::decode(&bytes).unwrap(), s);
}

#[test]
fn generator_result_sample_round_trips() {
    let s = GeneratorResult::sample();
    let bytes = s.encode().unwrap();
    let d = GeneratorResult::decode(&bytes).unwrap();
    assert_eq!(d, GeneratorResult::sample());
    assert_eq!(d.guid, Some("insert_generated_guid_here".to_string()));
}

#[test]
fn request_sample_round_trips() {
    let s = Request::sample();
    let bytes = s.encode().unwrap();
    let d = Request::decode(&bytes).unwrap();
    assert_eq!(d, Request::sample());
    assert_eq!(d.body, b"This is the body of a request".to_vec());
    assert_eq!(d.header[0], ("accept".to_string(), "application/json".to_string()));
    assert_eq!(d.header[1], ("dummy".to_string(), "value".to_string()));
}

#[test]
fn response_sample_round_trips() {
    let s = Response::sample();
    let bytes = s.encode().unwrap();
    let d = Response::decode(&bytes).unwrap();
    assert_eq!(d, Response::sample());
    assert_eq!(d.status_code, 200);
    assert_eq!(d.status, "OK");
    assert_eq!(d.header[0], ("accept".to_string(), "application/json".to_string()));
    assert_eq!(d.header[1], ("dummy".to_string(), "value".to_string()));
}

#[test]
fn response_shortcuts_have_expected_fields() {
    assert_eq!(Response::ok().status_code, 200);
    assert_eq!(Response::not_found().status_code, 404);
    assert_eq!(Response::not_found().status, "Not Found");
    assert_eq!(Response::bad_request().status_code, 400);
    let ise = Response::internal_server_error("boom");
    assert_eq!(ise.status_code, 500);
    assert_eq!(ise.body, b"boom".to_vec());
    let dflt = Response::default();
    assert_eq!(dflt.status_code, 0);
    assert_eq!(dflt.status, "");
}

#[test]
fn keyvalue_records_round_trip() {
    let g = GetRequest { key: "k1".to_string() };
    assert_eq!(GetRequest::decode(&g.encode().unwrap()).unwrap(), g);

    let s = SetRequest { key: "k1".to_string(), value: "v1".to_string(), expires_s: 60 };
    assert_eq!(SetRequest::decode(&s.encode().unwrap()).unwrap(), s);

    let a = AddRequest { key: "ctr".to_string(), value: -12 };
    assert_eq!(AddRequest::decode(&a.encode().unwrap()).unwrap(), a);

    let ar = AddResponse { value: -2147483648 };
    assert_eq!(AddResponse::decode(&ar.encode().unwrap()).unwrap(), ar);

    let lr = ListRangeRequest { key: "l".to_string(), start: -1, stop: 25 };
    assert_eq!(ListRangeRequest::decode(&lr.encode().unwrap()).unwrap(), lr);

    let lrr = ListRangeResponse { values: vec!["a".to_string(), "b".to_string()] };
    assert_eq!(ListRangeResponse::decode(&lrr.encode().unwrap()).unwrap(), lrr);

    let si = SetIntersectionRequest { keys: vec!["s1".to_string(), "s2".to_string()] };
    assert_eq!(SetIntersectionRequest::decode(&si.encode().unwrap()).unwrap(), si);

    let so = SetOperationResponse { new_count: 3 };
    assert_eq!(SetOperationResponse::decode(&so.encode().unwrap()).unwrap(), so);
}

#[test]
fn lifecycle_records_round_trip() {
    let lu = LiveUpdate { new_module: vec![0, 159, 146, 150] };
    assert_eq!(LiveUpdate::decode(&lu.encode().unwrap()).unwrap(), lu);

    let hr = HealthRequest { placeholder: true };
    assert_eq!(HealthRequest::decode(&hr.encode().unwrap()).unwrap(), hr);

    let cc = CapabilityConfiguration {
        module: "MABCDE".to_string(),
        values: vec![("RETRIES".to_string(), "3".to_string())],
    };
    assert_eq!(CapabilityConfiguration::decode(&cc.encode().unwrap()).unwrap(), cc);
}

#[test]
fn write_log_request_sample_round_trips() {
    let s = WriteLogRequest::sample();
    let bytes = s.encode().unwrap();
    let d = WriteLogRequest::decode(&bytes).unwrap();
    assert_eq!(d, WriteLogRequest::sample());
    assert_eq!(d.level, 4);
}

#[test]
fn messaging_records_round_trip() {
    let s = RequestMessage::sample();
    let bytes = s.encode().unwrap();
    let d = RequestMessage::decode(&bytes).unwrap();
    assert_eq!(d, RequestMessage::sample());
    assert_eq!(d.timeout_ms, 100);

    let bm = BrokerMessage {
        subject: "events.topic".to_string(),
        reply_to: "".to_string(),
        body: vec![9, 8, 7],
    };
    assert_eq!(BrokerMessage::decode(&bm.encode().unwrap()).unwrap(), bm);
}

#[test]
fn non_ascii_text_round_trips() {
    let g = GetRequest { key: "clé-\u{1F511}".to_string() };
    assert_eq!(GetRequest::decode(&g.encode().unwrap()).unwrap(), g);
}

#[test]
fn generator_request_round_trips_with_edge_numbers() {
    let s = GeneratorRequest { guid: false, sequence: false, random: true, min: 0, max: u32::MAX };
    assert_eq!(GeneratorRequest::decode(&s.encode().unwrap()).unwrap(), s);
}

#[test]
fn integer_extremes_round_trip() {
    let r = RequestMessage { subject: "s".to_string(), body: vec![], timeout_ms: i64::MIN };
    assert_eq!(RequestMessage::decode(&r.encode().unwrap()).unwrap(), r);
    let r2 = RequestMessage { subject: "s".to_string(), body: vec![], timeout_ms: i64::MAX };
    assert_eq!(RequestMessage::decode(&r2.encode().unwrap()).unwrap(), r2);
    let fc = FileChunk {
        sequence_no: u64::MAX,
        container: "".to_string(),
        id: "".to_string(),
        total_bytes: u64::MAX,
        chunk_size: 1,
        chunk_bytes: vec![],
    };
    assert_eq!(FileChunk::decode(&fc.encode().unwrap()).unwrap(), fc);
}
