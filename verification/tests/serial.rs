use bytes::Bytes;
use pi_forwarder::batch::row_text;
use pi_forwarder::clock::timestamp;
use pi_forwarder::fields::split_fields;
use pi_forwarder::layout::{read_entry, EntryFault, Scalar, SensorEntry, SensorTable};
use pi_forwarder::record::{get_part, null_data, record};
use pi_forwarder::serial::{Collector, Report, Stage};
use pi_forwarder::setup::{Setup, SetupStep};

fn text(s: &str) -> Scalar {
    Scalar::Text(s.to_string())
}

fn entry(port: &str, rate: i64, name: &str, size: i64) -> SensorEntry {
    SensorEntry::List(vec![text(port), Scalar::Integer(rate), text(name), Scalar::Integer(size)])
}

fn strings(fields: &[Bytes]) -> Vec<String> {
    fields.iter().map(|b| String::from_utf8(b.to_vec()).unwrap()).collect()
}

fn table(sensors: &[(&str, usize)]) -> SensorTable {
    let mut t = SensorTable::new();
    for (name, size) in sensors {
        t.add(name.to_string(), *size);
    }
    t
}

#[test]
fn entry_without_faults() {
    let spec = read_entry(&entry("/dev/ttyUSB0", 9600, "imu", 64)).ok().unwrap();
    assert_eq!(spec.port, "/dev/ttyUSB0");
    assert_eq!(spec.baud_rate, 9600);
    assert_eq!(spec.name, "imu");
    assert_eq!(spec.size, 64);
}

#[test]
fn entry_numbers_wrap() {
    let spec = read_entry(&entry("p", -1, "n", -1)).ok().unwrap();
    assert_eq!(spec.baud_rate, u32::MAX);
    assert_eq!(spec.size, usize::MAX);
    let spec = read_entry(&entry("p", 4_294_967_296 + 7, "n", 0)).ok().unwrap();
    assert_eq!(spec.baud_rate, 7);
    assert_eq!(spec.size, 0);
}

#[test]
fn entry_faults_are_all_reported() {
    assert_eq!(read_entry(&SensorEntry::Other).err().unwrap(), vec![EntryFault::NotAList]);
    let wrong = SensorEntry::List(vec![Scalar::Integer(1), text("x"), Scalar::Other, text("y")]);
    assert_eq!(
        read_entry(&wrong).err().unwrap(),
        vec![EntryFault::Port, EntryFault::BaudRate, EntryFault::Name, EntryFault::Size]
    );
    let one = SensorEntry::List(vec![text("p"), text("fast"), text("n"), Scalar::Integer(3)]);
    let faults = read_entry(&one).err().unwrap();
    assert_eq!(faults, vec![EntryFault::BaudRate]);
    assert_eq!(faults[0].message(), "Failed to parse a sensor baud rate as an integer.");
}

#[test]
fn fault_messages() {
    assert_eq!(
        EntryFault::NotAList.message(),
        "Failed to parse one of the sensor configurations as an array."
    );
    assert_eq!(EntryFault::Port.message(), "Failed to parse a sensor serial port as a string.");
    assert_eq!(EntryFault::Name.message(), "Failed to parse a sensor name as a str.");
    assert_eq!(EntryFault::Size.message(), "Failed to parse a sensor data size as an integer.");
}

#[test]
fn setup_skips_what_cannot_be_connected() {
    let mut setup = Setup::new(vec![
        entry("a", 1, "force", 4),
        SensorEntry::Other,
        entry("b", 2, "gone", 100),
        entry("c", 3, "imu", 10),
    ]);
    let mut log: Vec<String> = Vec::new();
    loop {
        match setup.next() {
            SetupStep::Open(spec) => {
                log.push(format!("open {} {}", spec.port, spec.baud_rate));
                assert!(setup.has_room());
                setup.opened(spec.port != "b");
            }
            SetupStep::Skip(faults) => log.push(format!("skip {:?}", faults)),
            SetupStep::Done => break,
        }
    }
    assert_eq!(log, vec!["open a 1", "skip [NotAList]", "open b 2", "open c 3"]);
    let sensors: Vec<(String, usize, usize)> =
        setup.table.sensors.iter().map(|s| (s.name.clone(), s.offset, s.size)).collect();
    assert_eq!(sensors, vec![("force".to_string(), 0, 4), ("imu".to_string(), 4, 10)]);
    assert_eq!(setup.table.total, 14);
}

#[test]
fn unanswered_port_counts_as_not_opened() {
    let mut setup = Setup::new(vec![entry("a", 1, "x", 4), entry("b", 1, "y", 4)]);
    assert!(matches!(setup.next(), SetupStep::Open(_)));
    assert!(matches!(setup.next(), SetupStep::Open(_)));
    setup.opened(true);
    assert!(matches!(setup.next(), SetupStep::Done));
    assert_eq!(setup.table.sensors.len(), 1);
    assert_eq!(setup.table.sensors[0].name, "y");
    assert_eq!(setup.table.sensors[0].offset, 0);
}

#[test]
fn short_list_is_noticed_at_its_turn() {
    let short = SensorEntry::List(vec![Scalar::Text("b".to_string()), Scalar::Integer(1)]);
    let mut setup = Setup::new(vec![entry("a", 1, "x", 4), SensorEntry::Other, short]);
    assert!(setup.next_is_complete());
    assert!(matches!(setup.next(), SetupStep::Open(_)));
    setup.opened(true);
    assert!(setup.next_is_complete());
    assert!(matches!(setup.next(), SetupStep::Skip(_)));
    assert!(!setup.next_is_complete());
    assert_eq!(setup.table.sensors.len(), 1);
    assert!(Setup::new(Vec::new()).next_is_complete());
}

#[test]
fn table_room_is_limited() {
    let t = table(&[("a", 10)]);
    assert!(t.fits(1_000));
    assert!(!t.fits(usize::MAX));
    assert!(!t.fits(isize::MAX as usize));
}

#[test]
fn parts_follow_each_other() {
    let t = table(&[("a", 3), ("b", 0), ("c", 5)]);
    let offsets: Vec<usize> = t.sensors.iter().map(|s| s.offset).collect();
    assert_eq!(offsets, vec![0, 3, 3]);
    assert_eq!(t.total, 8);
}

#[test]
fn readings_split_at_commas() {
    assert_eq!(strings(&split_fields(b"1.5,2,-3")), vec!["1.5", "2", "-3"]);
    assert_eq!(strings(&split_fields(b"")), vec![""]);
    assert_eq!(strings(&split_fields(b",")), vec!["", ""]);
    assert_eq!(strings(&split_fields(b"a,,b,")), vec!["a", "", "b", ""]);
    assert_eq!(strings(&split_fields(b"plain")), vec!["plain"]);
}

#[test]
fn split_agrees_with_std() {
    let inputs: [&[u8]; 5] = [b"", b"1,2,3", b",,", b"no comma", b"end,"];
    for input in inputs {
        let expected: Vec<Vec<u8>> =
            input.split(|b| *b == b',').map(|part| part.to_vec()).collect();
        let got: Vec<Vec<u8>> = split_fields(input).iter().map(|b| b.to_vec()).collect();
        assert_eq!(got, expected);
        assert_eq!(got.join(&b','), input.to_vec());
    }
}

#[test]
fn missing_parts_are_null() {
    let parts = vec![split_fields(b"7"), split_fields(b"8,9")];
    assert_eq!(&get_part(&parts, 1, 1)[..], b"9");
    assert_eq!(&get_part(&parts, 0, 1)[..], b"null");
    assert_eq!(&get_part(&parts, 2, 0)[..], b"null");
    assert_eq!(&null_data()[..], b"null");
}

#[test]
fn record_of_three_sensors() {
    let parts = vec![split_fields(b"10"), split_fields(b"20,21"), split_fields(b"1,2,3,4,5,6")];
    let r = record("2025-01-02 03:04:05.000000006", &parts);
    let expected = "{\"timestamp\": \"2025-01-02 03:04:05.000000006\", \"sensor_blob\": \
        {\"lat\": null, \"lon\": null, \"accel_x\": 1, \"accel_y\": 2, \"accel_z\": 3, \
        \"gyro_x\": 4, \"gyro_y\": 5, \"gyro_z\": 6, \"mag_x\": null, \"mag_y\": null, \
        \"mag_z\": null, \"force\": 10, \"linear\": 20, \"string\": 21}}";
    assert_eq!(String::from_utf8(r.to_vec()).unwrap(), expected);
}

#[test]
fn record_without_sensors_is_null() {
    let r = record("t", &Vec::new());
    let expected = "{\"timestamp\": \"t\", \"sensor_blob\": {\"lat\": null, \"lon\": null, \
        \"accel_x\": null, \"accel_y\": null, \"accel_z\": null, \"gyro_x\": null, \
        \"gyro_y\": null, \"gyro_z\": null, \"mag_x\": null, \"mag_y\": null, \"mag_z\": null, \
        \"force\": null, \"linear\": null, \"string\": null}}";
    assert_eq!(&r[..], expected.as_bytes());
}

#[test]
fn record_is_json() {
    let parts = vec![split_fields(b"1.25"), split_fields(b"2"), split_fields(b"3,4")];
    let r = record("now", &parts);
    let value: serde_json::Value = serde_json::from_slice(&r).unwrap();
    assert_eq!(value["timestamp"], "now");
    assert_eq!(value["sensor_blob"]["force"], 1.25);
    assert_eq!(value["sensor_blob"]["linear"], 2);
    assert_eq!(value["sensor_blob"]["string"], serde_json::Value::Null);
    assert_eq!(value["sensor_blob"]["accel_y"], 4);
}

#[test]
fn text_readings_make_a_text_record() {
    let parts = vec![split_fields("\u{e9},\u{20ac}".as_bytes())];
    let text = row_text(record("t", &parts).to_vec()).unwrap();
    assert!(text.contains("\"force\": \u{e9}, "));
    let parts = vec![split_fields(&[0xff, b',', b'1'])];
    let bytes = record("t", &parts).to_vec();
    assert_eq!(row_text(bytes.clone()), Err(bytes));
}

#[test]
fn timestamp_has_its_shape() {
    let t = timestamp();
    let shape: String =
        t.chars().map(|c| if c.is_ascii_digit() { 'd' } else { c }).collect();
    assert_eq!(shape, "dddd-dd-dd dd:dd:dd.ddddddddd");
    assert!(&t[0..4] >= "2024");
    let later = timestamp();
    assert!(t <= later);
}

#[test]
fn collection_of_every_sensor() {
    let mut c = Collector::new(table(&[("force", 2), ("linear", 5), ("imu", 11)]));
    c.begin();
    for i in 0..3usize {
        assert_eq!(c.stage, Stage::Poll(i));
        assert!(c.report(Report::Polled(Ok(1))).is_ok());
    }
    let readings: [&[u8]; 3] = [b"42", b"7,-13", b"1,2,3,4,5,6"];
    for (i, reading) in readings.iter().enumerate() {
        assert_eq!(c.stage, Stage::Read(i));
        let region = c.region();
        assert_eq!(region, &vec![0u8; reading.len()][..]);
        region.copy_from_slice(reading);
        assert!(c.report(Report::Read(Ok(reading.len()))).is_ok());
    }
    assert_eq!(c.stage, Stage::Complete);
    let r = c.finish("2025-01-02 03:04:05.000000006");
    let value: serde_json::Value = serde_json::from_slice(&r).unwrap();
    assert_eq!(value["timestamp"], "2025-01-02 03:04:05.000000006");
    assert_eq!(value["sensor_blob"]["force"], 42);
    assert_eq!(value["sensor_blob"]["linear"], 7);
    assert_eq!(value["sensor_blob"]["string"], -13);
    assert_eq!(value["sensor_blob"]["gyro_z"], 6);
    assert_eq!(value["sensor_blob"]["lat"], serde_json::Value::Null);
    let stamped = c.complete();
    assert_eq!(c.stage, Stage::Idle);
    assert_eq!(stamped.len(), r.len());
    assert_eq!(&stamped[stamped.len() - 40..], &r[r.len() - 40..]);
    assert_ne!(stamped, r);
}

#[test]
fn short_reading_leaves_zeros() {
    let mut c = Collector::new(table(&[("force", 3)]));
    c.begin();
    assert!(c.report(Report::Polled(Ok(9))).is_ok());
    c.region()[0] = b'5';
    assert!(c.report(Report::Read(Ok(1))).is_ok());
    let r = c.finish("2025-01-02 03:04:05.000000006");
    let text = String::from_utf8(r.to_vec()).unwrap();
    assert!(text.contains("\"force\": 5\0\0, "));
    c.begin();
    assert!(c.report(Report::Polled(Ok(9))).is_ok());
    assert_eq!(c.region(), &[0u8, 0, 0][..]);
}

#[test]
fn first_failure_ends_the_collection() {
    let mut c = Collector::new(table(&[("a", 1), ("b", 1)]));
    c.begin();
    assert!(c.report(Report::Polled(Ok(3))).is_ok());
    assert_eq!(
        c.report(Report::Polled(Ok(0))),
        Err("Port 'b' has no data avaliable, reported: 0".to_string())
    );
    assert_eq!(c.stage, Stage::Idle);
    c.begin();
    assert_eq!(c.stage, Stage::Poll(0));
    assert_eq!(
        c.report(Report::Polled(Err("gone".to_string()))),
        Err("Failed to check bytes on port 'a': gone".to_string())
    );
    c.begin();
    assert!(c.report(Report::Polled(Ok(1))).is_ok());
    assert!(c.report(Report::Polled(Ok(1))).is_ok());
    assert!(c.report(Report::Read(Ok(1))).is_ok());
    assert_eq!(
        c.report(Report::Read(Err("timeout".to_string()))),
        Err("Failed to read from sensor 'b': timeout".to_string())
    );
    assert_eq!(c.stage, Stage::Idle);
}

#[test]
fn collection_from_no_sensor_is_complete() {
    let mut c = Collector::new(SensorTable::new());
    c.begin();
    assert_eq!(c.stage, Stage::Complete);
}
