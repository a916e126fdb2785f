use pi_forwarder::batch::{
    batch_body, confirms, encode_points, request, row_text, DataPoint, EncodedPoint,
};
use pi_forwarder::fields::split_fields;
use pi_forwarder::queries::{batch_query, concat_parts, insert_query, setup_batch, table_query};
use pi_forwarder::record::record;
use pi_forwarder::text::decimal;
use pi_forwarder::upload::{BatchTurn, Batching, Ending, Selection, Upload, UploadReport, UploadStage};

fn encoded(timestamp: &str, blob: &str) -> EncodedPoint {
    EncodedPoint { timestamp: timestamp.to_string(), blob: blob.to_string() }
}

fn point(timestamp: &str, json: &str) -> DataPoint {
    DataPoint {
        timestamp: timestamp.to_string(),
        sensor_blob: serde_json::from_str(json).unwrap(),
    }
}

fn to_send(upload: &mut Upload, rows: Vec<DataPoint>) {
    upload.report(UploadReport::Begun(true));
    upload.report(UploadReport::Selected(Selection::Rows(rows)));
}

#[test]
fn decimals() {
    assert_eq!(decimal(0), "0");
    assert_eq!(decimal(9), "9");
    assert_eq!(decimal(10), "10");
    assert_eq!(decimal(1_234_567_890), "1234567890");
    assert_eq!(decimal(u128::MAX), u128::MAX.to_string());
}

#[test]
fn body_of_some_records() {
    assert_eq!(batch_body(&Vec::new()), "{\"datapoints\":[]}");
    assert_eq!(
        batch_body(&vec![encoded("t1", "{\"a\":1}")]),
        "{\"datapoints\":[{\"id\":1,\"datetime\":\"t1\",\"data_blob\":{\"a\":1}}]}"
    );
    assert_eq!(
        batch_body(&vec![encoded("t1", "{}"), encoded("t2", "null"), encoded("t3", "[]")]),
        "{\"datapoints\":[{\"id\":1,\"datetime\":\"t1\",\"data_blob\":{}},\
         {\"id\":1,\"datetime\":\"t2\",\"data_blob\":null},\
         {\"id\":1,\"datetime\":\"t3\",\"data_blob\":[]}]}"
    );
}

#[test]
fn sensor_objects_become_compact_json() {
    let points = vec![point("t", "{ \"b\": [1, 2.5],  \"a\": \"x\" }"), point("u", " null ")];
    let r = encode_points(&points).unwrap();
    assert_eq!(r.len(), 2);
    assert_eq!(r[0].timestamp, "t");
    assert_eq!(r[0].blob, "{\"a\":\"x\",\"b\":[1,2.5]}");
    assert_eq!(r[1].timestamp, "u");
    assert_eq!(r[1].blob, "null");
}

#[test]
fn rows_are_text() {
    assert_eq!(row_text(b"{\"a\": 1}".to_vec()), Ok("{\"a\": 1}".to_string()));
    assert_eq!(row_text("\u{20ac}5".as_bytes().to_vec()), Ok("\u{20ac}5".to_string()));
    assert_eq!(row_text(Vec::new()), Ok(String::new()));
    assert_eq!(row_text(vec![b'a', 0xff]), Err(vec![b'a', 0xff]));
    assert_eq!(row_text(vec![0xe2, 0x82]), Err(vec![0xe2, 0x82]));
}

#[test]
fn request_announces_the_body() {
    assert_eq!(
        request("/batch", "{}"),
        "POST /batch HTTP/1.1\r\nContent-Type: application/json\r\nContent-Length: 2\r\n\r\n{}"
    );
    let r = request("/x", "\u{e9}\u{20ac}");
    assert!(r.contains("Content-Length: 5\r\n\r\n"));
    let body = "a".repeat(12_345);
    let r = request("/x", &body);
    let at = r.find("\r\n\r\n").unwrap() + 4;
    assert_eq!(r.as_bytes().len() - at, 12_345);
    assert!(r[..at].ends_with("Content-Length: 12345\r\n\r\n"));
}

#[test]
fn confirmations() {
    assert!(confirms(b"HTTP/1.1 204"));
    assert!(confirms(b"HTTP/1.1 204 No Content\r\n\r\n\0\0\0"));
    assert!(!confirms(b"HTTP/1.1 200 OK"));
    assert!(!confirms(b"HTTP/1.0 204"));
    assert!(!confirms(b"HTTP/1.1 20"));
    assert!(!confirms(b""));
    assert!(!confirms(&[0u8; 128]));
}

#[test]
fn confirmed_batch_is_committed() {
    let mut upload = Upload::new("/sessions-sensors-data/batch".to_string(), 10_000);
    assert_eq!(upload.stage, UploadStage::Begin);
    upload.report(UploadReport::Begun(true));
    assert_eq!(upload.stage, UploadStage::Select(10_000));
    let rows = vec![point("t1", "{\"a\": 1}"), point("t2", "{\"a\": 2}")];
    upload.report(UploadReport::Selected(Selection::Rows(rows)));
    assert_eq!(upload.stage, UploadStage::Connect);
    let body = "{\"datapoints\":[{\"id\":1,\"datetime\":\"t1\",\"data_blob\":{\"a\":1}},\
        {\"id\":1,\"datetime\":\"t2\",\"data_blob\":{\"a\":2}}]}";
    assert_eq!(
        upload.request,
        format!(
            "POST /sessions-sensors-data/batch HTTP/1.1\r\nContent-Type: application/json\r\n\
             Content-Length: {}\r\n\r\n{}",
            body.len(),
            body
        )
    );
    upload.report(UploadReport::Connected(true));
    assert_eq!(upload.stage, UploadStage::Send);
    upload.report(UploadReport::Sent(true));
    assert_eq!(upload.stage, UploadStage::Flush);
    upload.report(UploadReport::Flushed(false));
    assert_eq!(upload.stage, UploadStage::Receive);
    upload.report(UploadReport::Received(b"HTTP/1.1 204 No Content".to_vec()));
    assert_eq!(upload.stage, UploadStage::Commit);
    upload.report(UploadReport::Committed(true));
    assert_eq!(upload.stage, UploadStage::Over(Ending::Committed));
}

#[test]
fn endings_before_the_request() {
    let mut u = Upload::new(String::new(), 5);
    u.report(UploadReport::Begun(false));
    assert_eq!(u.stage, UploadStage::Over(Ending::NoTransaction));
    let mut u = Upload::new(String::new(), 5);
    u.report(UploadReport::Begun(true));
    u.report(UploadReport::Selected(Selection::Unprepared));
    assert_eq!(u.stage, UploadStage::Over(Ending::NoSelection));
    let mut u = Upload::new(String::new(), 5);
    u.report(UploadReport::Begun(true));
    u.report(UploadReport::Selected(Selection::Unreadable));
    assert_eq!(u.stage, UploadStage::Over(Ending::Nothing));
    let mut u = Upload::new(String::new(), 5);
    to_send(&mut u, Vec::new());
    assert_eq!(u.stage, UploadStage::Over(Ending::Nothing));
    assert_eq!(u.request, "");
}

#[test]
fn endings_after_the_request() {
    let mut u = Upload::new("/x".to_string(), 5);
    to_send(&mut u, vec![point("t", "1")]);
    u.report(UploadReport::Connected(false));
    assert_eq!(u.stage, UploadStage::Over(Ending::Unreachable));

    let mut u = Upload::new("/x".to_string(), 5);
    to_send(&mut u, vec![point("t", "1")]);
    u.report(UploadReport::Connected(true));
    u.report(UploadReport::Sent(false));
    assert_eq!(u.stage, UploadStage::Over(Ending::Unsent));

    let mut u = Upload::new("/x".to_string(), 5);
    to_send(&mut u, vec![point("t", "1")]);
    u.report(UploadReport::Connected(true));
    u.report(UploadReport::Sent(true));
    u.report(UploadReport::Flushed(true));
    u.report(UploadReport::Received(vec![0; 128]));
    assert_eq!(u.stage, UploadStage::Over(Ending::Unconfirmed));
    u.report(UploadReport::Received(b"HTTP/1.1 204".to_vec()));
    assert_eq!(u.stage, UploadStage::Over(Ending::Unconfirmed));

    let mut u = Upload::new("/x".to_string(), 5);
    to_send(&mut u, vec![point("t", "1")]);
    u.report(UploadReport::Connected(true));
    u.report(UploadReport::Sent(true));
    u.report(UploadReport::Flushed(true));
    u.report(UploadReport::Received(b"HTTP/1.1 204".to_vec()));
    u.report(UploadReport::Committed(false));
    assert_eq!(u.stage, UploadStage::Over(Ending::Uncommitted));
}

#[test]
fn stray_reports_change_nothing() {
    let mut u = Upload::new("/x".to_string(), 5);
    u.report(UploadReport::Received(b"HTTP/1.1 204".to_vec()));
    u.report(UploadReport::Committed(true));
    assert_eq!(u.stage, UploadStage::Begin);
}

#[test]
fn stored_record_goes_into_the_batch() {
    let parts = vec![split_fields(b"1"), split_fields(b"2,3"), split_fields(b"4,5,6,7,8,9")];
    let stored = record("2025-01-02 03:04:05.000000006", &parts);
    let text = row_text(stored.to_vec()).unwrap();
    let row: serde_json::Value = serde_json::from_str(&text).unwrap();
    let p = DataPoint {
        timestamp: row["timestamp"].as_str().unwrap().to_string(),
        sensor_blob: row["sensor_blob"].clone(),
    };
    let body = batch_body(&encode_points(&vec![p]).unwrap());
    let sent: serde_json::Value = serde_json::from_str(&body).unwrap();
    assert_eq!(sent["datapoints"][0]["id"], 1);
    assert_eq!(sent["datapoints"][0]["datetime"], "2025-01-02 03:04:05.000000006");
    assert_eq!(sent["datapoints"][0]["data_blob"], row["sensor_blob"]);
    assert_eq!(sent["datapoints"][0]["data_blob"]["gyro_x"], 7);
}

#[test]
fn statements() {
    assert_eq!(
        table_query(),
        "CREATE TABLE IF NOT EXISTS sensor_data (id INTEGER PRIMARY KEY AUTOINCREMENT, \
         data BLOB NOT NULL)"
    );
    assert_eq!(insert_query(), "INSERT INTO sensor_data (data) VALUES (?1)");
    assert_eq!(
        batch_query(),
        "DELETE FROM sensor_data WHERE id IN (SELECT id FROM sensor_data LIMIT ?1) RETURNING *"
    );
    assert_eq!(setup_batch(), format!("PRAGMA journal_mode=WAL; {};", table_query()));
    assert_eq!(concat_parts(&["a", "", "bc"]), "abc");
    assert_eq!(concat_parts(&[]), "");
}

#[test]
fn statements_run() {
    let mut db = rusqlite::Connection::open_in_memory().unwrap();
    db.execute_batch(&setup_batch()).unwrap();
    for i in 0..5u8 {
        db.execute(&insert_query(), rusqlite::params_from_iter([vec![i]])).unwrap();
    }
    let count = |db: &rusqlite::Connection| -> i64 {
        db.query_row("SELECT COUNT(*) FROM sensor_data", [], |row| row.get(0)).unwrap()
    };
    {
        let tx = db.transaction().unwrap();
        let taken: Vec<Vec<u8>> = tx
            .prepare(&batch_query())
            .unwrap()
            .query_map([3], |row| row.get::<_, Vec<u8>>(1))
            .unwrap()
            .map(|r| r.unwrap())
            .collect();
        assert_eq!(taken.len(), 3);
    }
    assert_eq!(count(&db), 5);
}

#[test]
fn interval_passes_before_each_attempt() {
    let mut batching = Batching::new(10);
    for _ in 0..3 {
        assert_eq!(batching.next(), BatchTurn::Sleep(10));
        assert_eq!(batching.next(), BatchTurn::Attempt);
    }
    assert_eq!(batching.interval, 10);
    assert_eq!(Batching::new(0).next(), BatchTurn::Sleep(0));
}

#[test]
fn encodable_records_leave_no_fault() {
    let mut upload = Upload::new("/x".to_string(), 5);
    upload.report(UploadReport::Begun(true));
    upload.report(UploadReport::Selected(Selection::Rows(vec![point("t", "{}")])));
    assert_eq!(upload.stage, UploadStage::Connect);
    assert_eq!(upload.fault, "");
}

#[test]
fn batch_is_asked_for_with_its_limit() {
    for count in [0, 1, 10_000, usize::MAX] {
        let mut upload = Upload::new("/x".to_string(), count);
        upload.report(UploadReport::Begun(true));
        assert_eq!(upload.stage, UploadStage::Select(count));
        assert_eq!(upload.count, count);
    }
    let mut upload = Upload::new("/x".to_string(), 2);
    upload.report(UploadReport::Begun(true));
    upload.report(UploadReport::Selected(Selection::Rows(vec![point("t", "1"), point("u", "2")])));
    assert_eq!(upload.stage, UploadStage::Connect);
    assert_eq!(upload.body.matches("\"id\":1").count(), 2);
    assert!(upload.request.ends_with(&upload.body));
}
