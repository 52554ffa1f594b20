use couchbase::{
    Bucket, Command, CommandFamily, CouchbaseError, Delivery, Event, Instance, InstanceState,
    PendingTable, PumpAction, PumpPhase, RawResponse, SharedBucket, Slot, StoreMode,
};
use couchbase::text::decode_text;

const KEY_EXISTS: u16 = 12;

fn connected() -> Bucket {
    Bucket::new("couchbase://127.0.0.1", "Administrator", "password", 0, 0).unwrap()
}

fn store_ok(key: &str, version: &str) -> RawResponse {
    RawResponse {
        status: 0,
        key: key.as_bytes().to_vec(),
        value: None,
        version: version.as_bytes().to_vec(),
        is_final: true,
    }
}

fn row(text: &[u8], is_final: bool) -> RawResponse {
    RawResponse { status: 0, key: Vec::new(), value: Some(text.to_vec()), version: Vec::new(), is_final }
}

fn done(e: &Event) -> &Result<couchbase::Document, CouchbaseError> {
    match &e.delivery {
        Delivery::Done(r) => r,
        other => panic!("expected a single result, got {:?}", other),
    }
}

#[test]
fn upsert_resolves_with_id_and_version() {
    let mut b = connected();
    let coll = b.default_collection();
    assert_eq!(coll.name, "_default");
    let cmd = coll.upsert("k1", "v1");
    assert_eq!(cmd.family(), CommandFamily::Store);
    let c = b.submit(&cmd).unwrap();
    assert!(b.instance.wake);
    assert_eq!(b.instance.pump_wake(), PumpAction::Dispatch);
    assert!(b.instance.on_response(c, &store_ok("k1", "c1")));
    let events = b.instance.table.take_events();
    assert_eq!(events.len(), 1);
    assert_eq!(events[0].cookie, c);
    let d = done(&events[0]).as_ref().unwrap();
    assert_eq!(d.id, "k1");
    assert_eq!(d.version, "c1");
    assert_eq!(d.value, None);
}

#[test]
fn upsert_key_exists_is_operation_error() {
    let mut b = connected();
    let cmd = b.default_collection().upsert("k1", "v1");
    let c = b.submit(&cmd).unwrap();
    let mut resp = store_ok("k1", "");
    resp.status = KEY_EXISTS;
    assert!(b.instance.on_response(c, &resp));
    let events = b.instance.table.take_events();
    assert_eq!(done(&events[0]), &Err(CouchbaseError::OperationError(KEY_EXISTS)));
}

#[test]
fn get_returns_value_text() {
    let mut b = connected();
    let c = b.submit(&b.default_collection().get("airport_999")).unwrap();
    let resp = RawResponse {
        status: 0,
        key: b"airport_999".to_vec(),
        value: Some(b"{\"icao\":\"LOWW\"}".to_vec()),
        version: b"17".to_vec(),
        is_final: true,
    };
    b.instance.on_response(c, &resp);
    let events = b.instance.table.take_events();
    let d = done(&events[0]).as_ref().unwrap();
    assert_eq!(d.id, "airport_999");
    assert_eq!(d.value.as_deref(), Some("{\"icao\":\"LOWW\"}"));
    assert_eq!(d.version, "17");
}

#[test]
fn invalid_key_bytes_give_decoding_error() {
    let mut b = connected();
    let c = b.submit(&b.default_collection().get("k")).unwrap();
    let resp = RawResponse {
        status: 0,
        key: vec![0x6b, 0xff, 0xfe],
        value: Some(b"v".to_vec()),
        version: b"c1".to_vec(),
        is_final: true,
    };
    assert!(b.instance.on_response(c, &resp));
    let events = b.instance.table.take_events();
    assert_eq!(done(&events[0]), &Err(CouchbaseError::DecodingError));
    assert_eq!(b.instance.table.slot(c), Slot::Free);
}

#[test]
fn invalid_value_bytes_give_decoding_error() {
    let mut b = connected();
    let c = b.submit(&b.default_collection().get("k")).unwrap();
    let resp = RawResponse {
        status: 0,
        key: b"k".to_vec(),
        value: Some(vec![0xed, 0xa0, 0x80]),
        version: b"c1".to_vec(),
        is_final: true,
    };
    b.instance.on_response(c, &resp);
    let events = b.instance.table.take_events();
    assert_eq!(done(&events[0]), &Err(CouchbaseError::DecodingError));
}

#[test]
fn utf8_decoding_edges() {
    assert_eq!(decode_text(b""), Some(String::new()));
    assert_eq!(decode_text("Wien ö €  𝄞".as_bytes()), Some("Wien ö €  𝄞".to_string()));
    assert_eq!(decode_text(&[0xc0, 0x80]), None);
    assert_eq!(decode_text(&[0xe2, 0x82]), None);
    assert_eq!(decode_text(&[0xf4, 0x90, 0x80, 0x80]), None);
    assert_eq!(decode_text(&[0x80]), None);
}

#[test]
fn concurrent_submissions_all_resolve_once() {
    let mut b = connected();
    let coll = b.default_collection();
    let cmds = vec![
        coll.get("a"),
        coll.insert("b", "1"),
        coll.replace("c", "2"),
        coll.remove("d"),
        coll.upsert("e", "3"),
    ];
    let mut cookies = Vec::new();
    for cmd in &cmds {
        cookies.push(b.submit(cmd).unwrap());
    }
    for i in 0..cookies.len() {
        for j in 0..i {
            assert_ne!(cookies[i], cookies[j]);
        }
    }
    assert_eq!(b.instance.table.outstanding(), 5);
    let keys = ["a", "b", "c", "d", "e"];
    // the engine answers in an order of its own
    for &i in &[3usize, 0, 4, 1, 2] {
        assert!(b.instance.on_response(cookies[i], &store_ok(keys[i], "v")));
    }
    // a repeated callback for a resolved cookie delivers nothing
    assert!(!b.instance.on_response(cookies[0], &store_ok("a", "v")));
    assert!(!b.instance.on_response(99, &store_ok("z", "v")));
    let events = b.instance.table.take_events();
    assert_eq!(events.len(), 5);
    let order = [3usize, 0, 4, 1, 2];
    for (e, &i) in events.iter().zip(order.iter()) {
        assert_eq!(e.cookie, cookies[i]);
        assert_eq!(done(e).as_ref().unwrap().id, keys[i]);
    }
    assert_eq!(b.instance.table.outstanding(), 0);
}

#[test]
fn freed_cookie_is_reused() {
    let mut b = connected();
    let coll = b.default_collection();
    let c0 = b.submit(&coll.get("a")).unwrap();
    let c1 = b.submit(&coll.get("b")).unwrap();
    assert_eq!((c0, c1), (0, 1));
    b.instance.on_response(c0, &store_ok("a", "v"));
    let c2 = b.submit(&coll.get("c")).unwrap();
    assert_eq!(c2, 0);
    assert_eq!(b.instance.table.slot(c1), Slot::Pending(CommandFamily::Get));
}

#[test]
fn stream_delivers_rows_then_one_end() {
    let mut b = connected();
    let c = b.submit(&b.query("SELECT 1")).unwrap();
    for r in [b"{\"a\":1}".as_slice(), b"{\"a\":2}", b"{\"a\":3}"] {
        assert!(b.instance.on_response(c, &row(r, false)));
        assert_eq!(b.instance.table.slot(c), Slot::Pending(CommandFamily::StatementQuery));
    }
    assert!(b.instance.on_response(c, &row(b"{\"status\":\"success\"}", true)));
    assert_eq!(b.instance.table.slot(c), Slot::Free);
    assert!(!b.instance.on_response(c, &row(b"late", false)));
    let events = b.instance.table.take_events();
    assert_eq!(events.len(), 4);
    let texts: Vec<String> = events[..3]
        .iter()
        .map(|e| match &e.delivery {
            Delivery::Row(s) => s.clone(),
            other => panic!("expected a row, got {:?}", other),
        })
        .collect();
    assert_eq!(texts, vec!["{\"a\":1}", "{\"a\":2}", "{\"a\":3}"]);
    match &events[3].delivery {
        Delivery::End(Ok(meta)) => assert_eq!(meta, "{\"status\":\"success\"}"),
        other => panic!("expected the end, got {:?}", other),
    }
}

#[test]
fn stream_with_no_rows_and_errors() {
    let mut b = connected();
    let c = b.submit(&b.view_query("beers", "by_name")).unwrap();
    b.instance.on_response(c, &row(b"", true));
    let mut failing = row(b"", false);
    failing.status = 5;
    let c2 = b.submit(&b.query("SELECT x")).unwrap();
    b.instance.on_response(c2, &failing);
    let c3 = b.submit(&b.query("SELECT y")).unwrap();
    b.instance.on_response(c3, &row(&[0xff], false));
    let events = b.instance.table.take_events();
    assert!(matches!(&events[0].delivery, Delivery::End(Ok(m)) if m.is_empty()));
    assert!(matches!(&events[1].delivery, Delivery::End(Err(CouchbaseError::OperationError(5)))));
    assert!(matches!(&events[2].delivery, Delivery::End(Err(CouchbaseError::DecodingError))));
    assert_eq!(b.instance.table.outstanding(), 0);
    // the failed streams keep their cookies until the engine's final record
    // the first stream's final record freed its cookie for the second
    assert_eq!(c2, c);
    assert_eq!(b.instance.table.slot(c2), Slot::Draining);
    assert_eq!(b.instance.table.slot(c3), Slot::Draining);
}

#[test]
fn failed_stream_cookie_not_reused_before_final() {
    let mut b = connected();
    let q = b.submit(&b.query("SELECT 1")).unwrap();
    assert!(b.instance.on_response(q, &row(&[0xff], false)));
    assert_eq!(b.instance.table.slot(q), Slot::Draining);
    let g = b.submit(&b.default_collection().get("k")).unwrap();
    assert_ne!(g, q);
    // the engine goes on with the old query's rows: nothing is delivered
    assert!(!b.instance.on_response(q, &row(b"{\"a\":2}", false)));
    assert!(!b.instance.on_response(q, &row(b"{\"meta\":1}", true)));
    assert_eq!(b.instance.table.slot(q), Slot::Free);
    assert!(b.instance.on_response(g, &store_ok("k", "c3")));
    let events = b.instance.table.take_events();
    assert_eq!(events.len(), 2);
    assert!(matches!(&events[0].delivery, Delivery::End(Err(CouchbaseError::DecodingError))));
    assert_eq!(events[1].cookie, g);
    assert_eq!(done(&events[1]).as_ref().unwrap().id, "k");
    // the freed cookie is now handed out again
    assert_eq!(b.submit(&b.query("SELECT 2")).unwrap(), q);
}

#[test]
fn draining_stream_is_released_by_shutdown_without_delivery() {
    let mut b = connected();
    let q = b.submit(&b.query("SELECT 1")).unwrap();
    let mut failing = row(b"", false);
    failing.status = 5;
    b.instance.on_response(q, &failing);
    assert_eq!(b.instance.table.take_events().len(), 1);
    assert_eq!(b.close(), Ok(()));
    assert_eq!(b.instance.table.slot(q), Slot::Free);
    assert_eq!(b.instance.table.take_events().len(), 0);
}

#[test]
fn refused_schedule_resolves_with_status() {
    let mut b = connected();
    let g = b.submit(&b.default_collection().get("k")).unwrap();
    let q = b.submit(&b.query("SELECT 1")).unwrap();
    assert!(!b.instance.refuse(g, 0));
    assert!(b.instance.refuse(g, 4));
    assert!(b.instance.refuse(q, 9));
    assert!(!b.instance.refuse(q, 9));
    assert_eq!(b.instance.table.slot(g), Slot::Free);
    assert_eq!(b.instance.table.slot(q), Slot::Free);
    let events = b.instance.table.take_events();
    assert_eq!(done(&events[0]), &Err(CouchbaseError::OperationError(4)));
    assert!(matches!(&events[1].delivery, Delivery::End(Err(CouchbaseError::OperationError(9)))));
}

#[test]
fn submit_after_shutdown_fails_fast() {
    let mut b = connected();
    assert_eq!(b.close(), Ok(()));
    let cmd = b.default_collection().get("k");
    assert_eq!(b.submit(&cmd), Err(CouchbaseError::ShutdownError));
    assert_eq!(b.instance.table.slots.len(), 0);
    assert_eq!(b.close(), Err(CouchbaseError::ShutdownError));
}

#[test]
fn shutdown_resolves_outstanding_and_orders_teardown() {
    let mut b = connected();
    let coll = b.default_collection();
    let g = b.submit(&coll.get("a")).unwrap();
    let q = b.submit(&b.query("SELECT 1")).unwrap();
    let u = b.submit(&coll.upsert("b", "2")).unwrap();
    b.instance.on_response(u, &store_ok("b", "c9"));
    let mut trace: Vec<&str> = Vec::new();
    assert_eq!(b.close(), Ok(()));
    trace.push("signal");
    assert!(!b.instance.destroy());
    assert!(!b.instance.pump_joined());
    assert_eq!(b.instance.pump_wake(), PumpAction::Exit);
    trace.push("pump exits");
    assert!(!b.instance.destroy());
    assert!(b.instance.pump_joined());
    trace.push("joined");
    assert!(b.instance.destroy());
    trace.push("destroyed");
    assert_eq!(trace, vec!["signal", "pump exits", "joined", "destroyed"]);
    assert_eq!(b.instance.state, InstanceState::Destroyed);
    assert!(!b.instance.destroy());
    let events = b.instance.table.take_events();
    assert_eq!(events.len(), 3);
    assert_eq!(events[0].cookie, u);
    assert_eq!((events[1].cookie, events[2].cookie), (g, q));
    assert_eq!(done(&events[1]), &Err(CouchbaseError::ShutdownError));
    assert!(matches!(&events[2].delivery, Delivery::End(Err(CouchbaseError::ShutdownError))));
    // a callback that races the teardown finds nothing to resolve
    assert!(!b.instance.on_response(g, &store_ok("a", "v")));
}

#[test]
fn pump_parks_without_work_and_batches_wakes() {
    let mut b = connected();
    assert_eq!(b.instance.pump_wake(), PumpAction::Park);
    assert_eq!(b.instance.pump, PumpPhase::Parked);
    let coll = b.default_collection();
    b.submit(&coll.get("a")).unwrap();
    b.submit(&coll.get("b")).unwrap();
    assert_eq!(b.instance.pump_wake(), PumpAction::Dispatch);
    assert_eq!(b.instance.pump, PumpPhase::Dispatching);
    assert_eq!(b.instance.pump_wake(), PumpAction::Park);
}

#[test]
fn connect_errors() {
    assert!(matches!(
        Instance::connect("couchbase://h", "u", "p", 3, 0),
        Err(CouchbaseError::ControlError(3))
    ));
    assert!(matches!(
        Bucket::new("couchbase://h", "u", "p", 0, 22),
        Err(CouchbaseError::ConnectError(22))
    ));
    assert!(matches!(
        SharedBucket::new("couchbase://h", "u", "p", 7, 22),
        Err(CouchbaseError::ControlError(7))
    ));
    let b = SharedBucket::new("couchbase://h", "u", "p", 0, 0).unwrap();
    assert_eq!(b.instance.params.connection_string, "couchbase://h");
    assert_eq!(b.instance.state, InstanceState::Connected);
    assert_eq!(b.default_collection().name, "_default");
}

#[test]
fn facade_builds_commands() {
    let b = connected();
    let coll = b.default_collection();
    assert!(matches!(coll.insert("i", "x"), Command::Store(StoreMode::Insert, ref i, ref x) if i == "i" && x == "x"));
    assert!(matches!(coll.replace("i", "x"), Command::Store(StoreMode::Replace, ..)));
    assert!(matches!(coll.remove("i"), Command::Remove(ref i) if i == "i"));
    assert_eq!(b.query("SELECT 1").family(), CommandFamily::StatementQuery);
    assert_eq!(b.view_query("d", "v").family(), CommandFamily::ViewQuery);
    let shared = SharedBucket::new("couchbase://h", "u", "p", 0, 0).unwrap();
    let sc = shared.default_collection();
    assert!(matches!(sc.upsert("k", "v"), Command::Store(StoreMode::Upsert, ..)));
    assert!(matches!(sc.get("k"), Command::Get(ref k) if k == "k"));
}

#[test]
fn shared_bucket_round_trip() {
    let mut b = SharedBucket::new("couchbase://h", "u", "p", 0, 0).unwrap();
    let c = b.submit(&b.default_collection().remove("k")).unwrap();
    let mut t = PendingTable::new();
    assert_eq!(t.register(CommandFamily::Remove), 0);
    assert!(b.instance.on_response(c, &store_ok("k", "c2")));
    assert_eq!(b.instance.table.take_events().len(), 1);
    assert_eq!(b.close(), Ok(()));
    assert_eq!(b.submit(&b.default_collection().get("k")), Err(CouchbaseError::ShutdownError));
    t.cancel_all();
    assert_eq!(t.take_events().len(), 1);
}
