//! Round trips for the remaining record shapes of each domain, and the
//! null-dispatcher behavior.

use wascc_codec::blobstore::{Blob, Container};
use wascc_codec::capabilities::{Dispatcher, NullDispatcher};
use wascc_codec::error::Error;
use wascc_codec::eventstreams::{Event, TimeRange};
use wascc_codec::keyvalue::{DelRequest, DelResponse, KeyExistsQuery, ListClearRequest, ListDelItemRequest, ListPushRequest, ListResponse, SetAddRequest, SetQueryRequest, SetQueryResponse, SetRemoveRequest, SetResponse, SetUnionRequest};

#[test]
fn container_and_blob_round_trip() {
    let c = Container { id: "photos".to_string() };
    assert_eq!(Container::decode(&c.encode().unwrap()).unwrap(), c);
    let b = Blob { id: "img-1".to_string(), container: "photos".to_string(), byte_size: 4096 };
    assert_eq!(Blob::decode(&b.encode().unwrap()).unwrap(), b);
}

#[test]
fn event_and_time_range_round_trip() {
    let e = Event {
        event_id: "evt".to_string(),
        stream: "orders".to_string(),
        values: vec![("total".to_string(), "12".to_string()), ("ccy".to_string(), "EUR".to_string())],
    };
    assert_eq!(Event::decode(&e.encode().unwrap()).unwrap(), e);
    let t = TimeRange { min_time: 10, max_time: 20 };
    assert_eq!(TimeRange::decode(&t.encode().unwrap()).unwrap(), t);
}

#[test]
fn remaining_keyvalue_records_round_trip() {
    let d = DelRequest { key: "k".to_string() };
    assert_eq!(DelRequest::decode(&d.encode().unwrap()).unwrap(), d);

    let dr = DelResponse { key: "k".to_string() };
    assert_eq!(DelResponse::decode(&dr.encode().unwrap()).unwrap(), dr);

    let sr = SetResponse { value: "v".to_string() };
    assert_eq!(SetResponse::decode(&sr.encode().unwrap()).unwrap(), sr);

    let lp = ListPushRequest { key: "l".to_string(), value: "item".to_string() };
    assert_eq!(ListPushRequest::decode(&lp.encode().unwrap()).unwrap(), lp);

    let ld = ListDelItemRequest { key: "l".to_string(), value: "item".to_string() };
    assert_eq!(ListDelItemRequest::decode(&ld.encode().unwrap()).unwrap(), ld);

    let lc = ListClearRequest { key: "l".to_string() };
    assert_eq!(ListClearRequest::decode(&lc.encode().unwrap()).unwrap(), lc);

    let lr = ListResponse { new_count: -1 };
    assert_eq!(ListResponse::decode(&lr.encode().unwrap()).unwrap(), lr);

    let sa = SetAddRequest { key: "s".to_string(), value: "m".to_string() };
    assert_eq!(SetAddRequest::decode(&sa.encode().unwrap()).unwrap(), sa);

    let sm = SetRemoveRequest { key: "s".to_string(), value: "m".to_string() };
    assert_eq!(SetRemoveRequest::decode(&sm.encode().unwrap()).unwrap(), sm);

    let sq = SetQueryRequest { key: "s".to_string() };
    assert_eq!(SetQueryRequest::decode(&sq.encode().unwrap()).unwrap(), sq);

    let sqr = SetQueryResponse { values: vec!["a".to_string()] };
    assert_eq!(SetQueryResponse::decode(&sqr.encode().unwrap()).unwrap(), sqr);

    let su = SetUnionRequest { keys: vec![] };
    assert_eq!(SetUnionRequest::decode(&su.encode().unwrap()).unwrap(), su);

    let ke = KeyExistsQuery { key: "k".to_string() };
    assert_eq!(KeyExistsQuery::decode(&ke.encode().unwrap()).unwrap(), ke);
}

#[test]
fn null_dispatcher_reports_unavailable() {
    let d = NullDispatcher::new();
    assert_eq!(d.dispatch("Publish", b"payload"), Err(Error::DispatchUnavailable));
    let d2 = NullDispatcher::default();
    assert_eq!(d2.dispatch("Get", &[]), Err(Error::DispatchUnavailable));
}
