use bytes::Bytes;
use pi_forwarder::cycle::{source, Cycle, CycleStage, Source};
use pi_forwarder::layout::SensorTable;
use pi_forwarder::link::{classify, welcome, Admission, Gate, Incoming, Role, SensorSlot};
use pi_forwarder::pacing::{Pacer, Wait, SPIN_TIME, TARGET_INTERVAL};
use pi_forwarder::timing::{summarize, Spread, TimingLog, TimingReport};

const MILLI: u64 = 1_000_000;

fn binary(data: &'static [u8]) -> Incoming {
    Incoming::Binary(Bytes::from_static(data))
}

#[test]
fn first_message_tells_the_role() {
    assert_eq!(classify(&binary(b"S")), Role::Sensors);
    assert_eq!(classify(&binary(b"Sensors here")), Role::Sensors);
    assert_eq!(classify(&binary(b"s")), Role::Client);
    assert_eq!(classify(&binary(b"client")), Role::Client);
    assert_eq!(classify(&binary(b"")), Role::Client);
    assert_eq!(classify(&Incoming::Other), Role::Stranger);
    assert_eq!(classify(&Incoming::Failed("reset".to_string())), Role::Nobody);
}

#[test]
fn only_one_sensor_connection() {
    let mut slot: SensorSlot<u32> = SensorSlot::new();
    assert_eq!(slot.gate(), Gate::Closed);
    assert_eq!(slot.offer(1), None);
    assert_eq!(slot.gate(), Gate::Open);
    assert_eq!(slot.offer(2), Some(2));
    assert_eq!(slot.socket, Some(1));
    assert!(slot.connected);
}

#[test]
fn lost_connection_can_be_replaced() {
    let mut slot: SensorSlot<u32> = SensorSlot::new();
    slot.offer(1);
    assert_eq!(
        slot.receive(Incoming::Failed("reset".to_string())),
        Err("Sensors disconnected: reset".to_string())
    );
    assert_eq!(slot.gate(), Gate::Closed);
    assert_eq!(slot.socket, None);
    assert_eq!(slot.offer(2), None);
    assert_eq!(slot.socket, Some(2));
}

#[test]
fn sensor_messages() {
    let mut slot: SensorSlot<u32> = SensorSlot::new();
    slot.offer(1);
    assert_eq!(slot.receive(binary(b"data")), Ok(Bytes::from_static(b"data")));
    assert_eq!(
        slot.receive(Incoming::Other),
        Err("Recieved unexpected message type from sensors.".to_string())
    );
    assert_eq!(slot.gate(), Gate::Open);
    let broken: SensorSlot<u32> = SensorSlot { socket: None, connected: true };
    assert_eq!(broken.gate(), Gate::Missing);
}

#[test]
fn new_connections_find_their_place() {
    let mut slot: SensorSlot<u32> = SensorSlot::new();
    assert!(matches!(welcome(&mut slot, binary(b"hello"), 1), Admission::Client(1)));
    assert!(matches!(welcome(&mut slot, binary(b""), 2), Admission::Client(2)));
    assert!(matches!(welcome(&mut slot, Incoming::Other, 3), Admission::Stranger));
    match welcome(&mut slot, Incoming::Failed("reset".to_string()), 4) {
        Admission::Failed(e) => assert_eq!(e, "reset"),
        _ => panic!("the first message was not read"),
    }
    assert_eq!(slot.socket, None);
    assert!(!slot.connected);
    assert!(matches!(welcome(&mut slot, binary(b"S"), 5), Admission::Taken));
    assert_eq!(slot.socket, Some(5));
    assert!(slot.connected);
    assert!(matches!(welcome(&mut slot, binary(b"S"), 6), Admission::Rejected(6)));
    assert_eq!(slot.socket, Some(5));
}

#[test]
fn source_of_the_data() {
    let mut table = SensorTable::new();
    assert_eq!(source(&table), Source::Socket);
    table.add("a".to_string(), 1);
    assert_eq!(source(&table), Source::Serial);
}

#[test]
fn cycle_without_sensors_starts_over() {
    let mut cycle = Cycle::new(Source::Socket, Some(TimingLog::new(1)), 7);
    assert_eq!(cycle.stage, CycleStage::Begin);
    cycle.begin(8);
    assert_eq!(cycle.stage, CycleStage::Acquire);
    assert_eq!(cycle.approach(Gate::Closed), None);
    assert_eq!(cycle.stage, CycleStage::Begin);
    assert_eq!(cycle.pacer.due, 7);
    assert!(cycle.timing.unwrap().samples.is_empty());
}

#[test]
fn missing_connection_is_reported() {
    let mut cycle = Cycle::new(Source::Socket, None, 0);
    cycle.begin(0);
    assert_eq!(
        cycle.approach(Gate::Missing),
        Some("Failed to recieve data: Expected socket connection is missing".to_string())
    );
    assert_eq!(cycle.stage, CycleStage::Pace);
}

#[test]
fn messages_are_broadcast_and_then_stored() {
    let mut slot: SensorSlot<u32> = SensorSlot::new();
    slot.offer(1);
    let mut cycle = Cycle::new(Source::Socket, None, 0);
    let mut broadcast: Vec<Bytes> = Vec::new();
    let mut stored: Vec<Bytes> = Vec::new();
    let mut said: Vec<String> = Vec::new();
    let mut now = 0;
    for message in [
        binary(b"first"),
        Incoming::Other,
        binary(b""),
        binary(b"first"),
        Incoming::Failed("reset".to_string()),
    ] {
        cycle.begin(now);
        assert_eq!(cycle.approach(slot.gate()), None);
        assert_eq!(cycle.stage, CycleStage::Receive);
        said.extend(cycle.receive(&mut slot, message));
        if cycle.stage == CycleStage::Broadcast {
            broadcast.push(cycle.broadcast());
            assert_eq!(cycle.stage, CycleStage::Store);
            stored.push(cycle.store());
        }
        assert_eq!(cycle.stage, CycleStage::Pace);
        cycle.pace(now);
        now += 2 * TARGET_INTERVAL;
        assert!(cycle.spin(now));
    }
    let expected: Vec<&[u8]> = vec![b"first", b"", b"first"];
    assert_eq!(broadcast, expected);
    assert_eq!(stored, expected);
    assert_eq!(
        said,
        [
            "Failed to recieve data: Recieved unexpected message type from sensors.",
            "Failed to recieve data: Sensors disconnected: reset",
        ]
    );
    assert_eq!(slot.gate(), Gate::Closed);
}

#[test]
fn collected_data_is_forwarded_and_timed() {
    let mut cycle = Cycle::new(Source::Serial, Some(TimingLog::new(2)), 0);
    cycle.begin(3 * MILLI);
    assert_eq!(cycle.collected(Ok(Bytes::from_static(b"abc"))), None);
    assert_eq!(&cycle.broadcast()[..], b"abc");
    assert_eq!(&cycle.store()[..], b"abc");
    assert_eq!(cycle.stage, CycleStage::Time);
    assert_eq!(cycle.time(5 * MILLI), None);
    assert_eq!(cycle.pace(5 * MILLI), None);
    assert!(cycle.spin(15 * MILLI));
    cycle.begin(15 * MILLI);
    assert_eq!(
        cycle.collected(Err("no luck".to_string())),
        Some("Failed to recieve data: no luck".to_string())
    );
    assert_eq!(cycle.stage, CycleStage::Time);
    assert_eq!(
        cycle.time(19 * MILLI).unwrap().message(),
        "2 cycles took 0 total seconds. Min: 2, Max: 4, Avg: 3"
    );
    assert_eq!(cycle.stage, CycleStage::Pace);
}

#[test]
fn cycles_end_at_their_deadlines() {
    let mut cycle = Cycle::new(Source::Serial, None, 0);
    let mut work = |cycle: &mut Cycle, done: u64| {
        cycle.begin(0);
        cycle.collected(Err(String::new()));
        cycle.pace(done)
    };
    assert_eq!(work(&mut cycle, 4 * MILLI), None);
    assert_eq!(cycle.until, 14_000_000);
    assert!(!cycle.spin(14 * MILLI - 1));
    assert_eq!(cycle.stage, CycleStage::Spin);
    assert!(cycle.spin(14 * MILLI));
    assert_eq!(work(&mut cycle, 16 * MILLI), Some(7_500_000));
    assert_eq!(cycle.until, 24_000_000);
    assert!(cycle.spin(24 * MILLI + 5));
    assert_eq!(work(&mut cycle, 33_900_000), None);
    assert_eq!(cycle.until, 34_000_000);
    assert!(cycle.spin(34 * MILLI));
    assert_eq!(work(&mut cycle, 50 * MILLI), None);
    assert_eq!(cycle.until, 60_000_000);
}

#[test]
fn late_cycle_ends_an_interval_from_now() {
    let mut p = Pacer::new(1_000);
    assert_eq!(p.wait(1_000), Wait { sleep: None, until: 10_001_000 });
    assert_eq!(p.due, 20_001_000);
    assert_eq!(TARGET_INTERVAL, 10_000_000);
}

#[test]
fn early_cycle_sleeps_and_then_spins() {
    let mut p = Pacer { due: 20_000_000 };
    assert_eq!(p.wait(12 * MILLI), Wait { sleep: Some(7_500_000), until: 20_000_000 });
    assert_eq!(p.due, 30_000_000);
    assert_eq!(p.wait(30 * MILLI - SPIN_TIME), Wait { sleep: None, until: 30_000_000 });
    assert_eq!(p.wait(40 * MILLI - SPIN_TIME - 1), Wait { sleep: Some(1), until: 40_000_000 });
}

#[test]
fn deadlines_beyond_the_clock() {
    let mut p = Pacer::new(0);
    let w = p.wait(u64::MAX);
    assert_eq!(w.until, u64::MAX as u128 + 10_000_000);
}

#[test]
fn spread_of_many_samples() {
    let samples: Vec<u64> = (1..=10_000).rev().collect();
    assert_eq!(summarize(&samples), Spread { shortest: 1, longest: 10_000, total: 50_005_000 });
    assert_eq!(summarize(&vec![7]), Spread { shortest: 7, longest: 7, total: 7 });
    assert_eq!(summarize(&Vec::new()), Spread { shortest: u64::MAX, longest: 0, total: 0 });
    assert_eq!(
        summarize(&vec![u64::MAX; 3]),
        Spread { shortest: u64::MAX, longest: u64::MAX, total: 3 * u64::MAX as u128 }
    );
}

#[test]
fn parts_merge_to_the_whole() {
    let a = summarize(&vec![5, 9]);
    let b = summarize(&vec![2, 7, 8]);
    assert_eq!(a.merge(b), summarize(&vec![5, 9, 2, 7, 8]));
    assert_eq!(Spread::empty().merge(a), a);
    assert_eq!(Spread::empty().absorb(4).absorb(6), summarize(&vec![4, 6]));
}

#[test]
fn report_after_every_interval() {
    let mut log = TimingLog::new(3);
    assert!(log.samples.capacity() >= 3);
    assert_eq!(log.record(2 * MILLI), None);
    assert_eq!(log.record(1_000 * MILLI), None);
    let report = log.record(1_500 * MILLI + 999_999).unwrap();
    assert_eq!(
        report,
        TimingReport {
            cycles: 3,
            total_seconds: 2,
            shortest_millis: 2,
            longest_millis: 1_500,
            average_millis: 834,
        }
    );
    assert_eq!(
        report.message(),
        "3 cycles took 2 total seconds. Min: 2, Max: 1500, Avg: 834"
    );
    assert!(log.samples.is_empty());
    assert_eq!(log.record(5), None);
}

#[test]
fn room_for_samples() {
    assert!(TimingLog::has_room_for(0));
    assert!(TimingLog::has_room_for(isize::MAX as usize / 8));
    assert!(!TimingLog::has_room_for(isize::MAX as usize / 8 + 1));
    assert!(TimingLog::new(3_000).samples.capacity() >= 3_000);
}
