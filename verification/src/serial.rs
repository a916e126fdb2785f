//! Collecting one reading from every serial sensor.
use crate::fields::split_fields;
use crate::layout::SensorTable;
use crate::packet::contents_mut;
use crate::record::record;
use crate::text::decimal;
use bytes::{Bytes, BytesMut};
use vstd::prelude::*;
use vstd::string::StringExecFns;
use vstd::utf8::*;

verus! {

/// How far a collection has come. First every sensor is asked whether it has data, then every
/// sensor is read.
#[derive(Clone, Copy, PartialEq, Eq, Structural, Debug)]
pub enum Stage {
    /// Nothing is being collected.
    Idle,
    /// The sensor at this position is to be asked how many bytes it has.
    Poll(usize),
    /// The sensor at this position is to be read.
    Read(usize),
    /// Every sensor has been read.
    Complete,
}

/// What a sensor's port answered.
pub enum Report {
    /// How many bytes wait on the port, or why that could not be found out.
    Polled(Result<u32, String>),
    /// How many bytes were read, or why none could be.
    Read(Result<usize, String>),
}

/// Why a collection ends with this answer of the sensor called `name`, if it does.
pub open spec fn report_error(name: Seq<char>, report: Report) -> Option<Seq<char>> {
    match report {
        Report::Polled(Ok(n)) => if n == 0 {
            Some(
                "Port '"@ + name + "' has no data avaliable, reported: "@ + crate::text::digits(
                    n as nat,
                ),
            )
        } else {
            None
        },
        Report::Polled(Err(e)) => Some("Failed to check bytes on port '"@ + name + "': "@ + e@),
        Report::Read(Ok(_)) => None,
        Report::Read(Err(e)) => Some("Failed to read from sensor '"@ + name + "': "@ + e@),
    }
}

/// The first stage of a collection from `n` sensors.
pub open spec fn first_stage(n: nat) -> Stage {
    if n == 0 {
        Stage::Complete
    } else {
        Stage::Poll(0)
    }
}

/// The stage that follows when the sensor of this stage gave no reason to end.
pub open spec fn following_stage(n: nat, stage: Stage) -> Stage {
    match stage {
        Stage::Idle => Stage::Idle,
        Stage::Poll(i) => if i + 1 < n {
            Stage::Poll((i + 1) as usize)
        } else {
            Stage::Read(0)
        },
        Stage::Read(i) => if i + 1 < n {
            Stage::Read((i + 1) as usize)
        } else {
            Stage::Complete
        },
        Stage::Complete => Stage::Complete,
    }
}

/// The sensor that a stage waits for.
pub open spec fn awaited(stage: Stage) -> Option<int> {
    match stage {
        Stage::Poll(i) => Some(i as int),
        Stage::Read(i) => Some(i as int),
        _ => None,
    }
}

/// The answer is the one that the stage waits for.
pub open spec fn answers(stage: Stage, report: Report) -> bool {
    match report {
        Report::Polled(_) => stage is Poll,
        Report::Read(_) => stage is Read,
    }
}

/// What an answer leads to: the next stage, and the error where the collection ends with it.
pub open spec fn next(names: Seq<Seq<char>>, stage: Stage, report: Report) -> (
    Stage,
    Option<Seq<char>>,
) {
    match awaited(stage) {
        Some(i) if answers(stage, report) => match report_error(names[i], report) {
            Some(error) => (Stage::Idle, Some(error)),
            None => (following_stage(names.len(), stage), None),
        },
        _ => (Stage::Idle, None),
    }
}

/// The stage that a series of answers leads to.
pub open spec fn run(names: Seq<Seq<char>>, stage: Stage, reports: Seq<Report>) -> Stage
    decreases reports.len(),
{
    if reports.len() == 0 {
        stage
    } else {
        next(names, run(names, stage, reports.drop_last()), reports.last()).0
    }
}

/// The names of the sensors.
pub open spec fn names(table: SensorTable) -> Seq<Seq<char>> {
    table.sensors@.map_values(|s: crate::layout::SensorSlice| s.name@)
}

/// The part of the buffer that takes the reading of sensor `i`.
pub open spec fn part_of(table: SensorTable, buffer: Seq<u8>, i: int) -> Seq<u8> {
    buffer.subrange(
        table.sensors@[i].offset as int,
        table.sensors@[i].offset + table.sensors@[i].size,
    )
}

/// The fields of every sensor's reading.
pub open spec fn collected(table: SensorTable, buffer: Seq<u8>) -> Seq<Seq<Seq<u8>>> {
    Seq::new(table.sensors@.len(), |i: int| crate::fields::split(part_of(table, buffer, i)))
}

proof fn part_is_inside(table: SensorTable, i: int)
    requires
        table.wf(),
        0 <= i < table.sensors@.len(),
    ensures
        table.sensors@[i].offset + table.sensors@[i].size <= table.total,
{
    crate::layout::parts_tile_the_buffer(table);
}

/// Why the collection ends with this answer, if it does.
pub fn report_failure(name: &str, report: &Report) -> (r: Option<String>)
    ensures
        report_error(name@, *report) == match r {
            Some(m) => Some(m@),
            None => None,
        },
{
    match report {
        Report::Polled(Ok(n)) => if *n == 0 {
            let mut m = "Port '".to_owned();
            m.append(name);
            m.append("' has no data avaliable, reported: ");
            m.append(decimal(*n as u128).as_str());
            Some(m)
        } else {
            None
        },
        Report::Polled(Err(e)) => {
            let mut m = "Failed to check bytes on port '".to_owned();
            m.append(name);
            m.append("': ");
            m.append(e.as_str());
            Some(m)
        },
        Report::Read(Ok(_)) => None,
        Report::Read(Err(e)) => {
            let mut m = "Failed to read from sensor '".to_owned();
            m.append(name);
            m.append("': ");
            m.append(e.as_str());
            Some(m)
        },
    }
}

/// The serial sensors, the buffer for their readings, and how far the collection has come.
pub struct Collector {
    pub table: SensorTable,
    pub buffer: BytesMut,
    pub stage: Stage,
    /// What the ports have answered in this collection.
    pub reports: Ghost<Seq<Report>>,
}

impl Collector {
    /// What the buffer holds.
    pub open spec fn held(self) -> Seq<u8> {
        crate::packet::buffer_of(self.buffer)
    }

    /// While something is being collected the buffer has room for every sensor's reading, the
    /// sensor that is waited for is there, and it is the one that the answers have led to.
    pub open spec fn wf(self) -> bool {
        &&& self.table.wf()
        &&& self.stage != Stage::Idle ==> self.held().len() == self.table.total
        &&& awaited(self.stage) matches Some(i) ==> i < self.table.sensors@.len()
        &&& self.stage != Stage::Idle ==> self.stage == run(
            names(self.table),
            first_stage(self.table.sensors@.len()),
            self.reports@,
        )
    }

    /// Nothing is being collected yet.
    pub fn new(table: SensorTable) -> (c: Collector)
        requires
            table.wf(),
        ensures
            c.wf(),
            c.table == table,
            c.stage == Stage::Idle,
    {
        let buffer = BytesMut::with_capacity(table.total);
        Collector { table, buffer, stage: Stage::Idle, reports: Ghost(Seq::empty()) }
    }

    /// Starts a collection: the buffer is filled with zeros, and the first sensor is to be asked.
    pub fn begin(&mut self)
        requires
            old(self).wf(),
        ensures
            final(self).wf(),
            final(self).table == old(self).table,
            final(self).held() == Seq::new(old(self).table.total as nat, |i: int| 0u8),
            final(self).stage == first_stage(old(self).table.sensors@.len()),
            final(self).reports@ == Seq::<Report>::empty(),
            old(self).table.sensors@.len() == 0 ==> final(self).stage == Stage::Complete,
            old(self).table.sensors@.len() > 0 ==> final(self).stage == Stage::Poll(0),
            crate::packet::buffer_of(final(self).buffer).len() == old(self).table.total,
            forall|i: int|
                0 <= i < old(self).table.total ==> #[trigger] crate::packet::buffer_of(
                    final(self).buffer,
                )[i] == 0,
    {
        proof {
            self.reports@ = Seq::empty();
        }
        self.buffer.clear();
        self.buffer.resize(self.table.total, 0);
        proof {
            assert(self.held() == Seq::new(self.table.total as nat, |i: int| 0u8));
        }
        self.stage = if self.table.sensors.len() == 0 {
            Stage::Complete
        } else {
            Stage::Poll(0)
        };
    }

    /// Takes note of what the port of the awaited sensor answered. The error is returned where
    /// the collection ends with it.
    pub fn report(&mut self, report: Report) -> (r: Result<(), String>)
        requires
            old(self).wf(),
            answers(old(self).stage, report),
        ensures
            final(self).wf(),
            final(self).table == old(self).table,
            final(self).held() == old(self).held(),
            next(names(old(self).table), old(self).stage, report) == match r {
                Ok(()) => (final(self).stage, None),
                Err(e) => (final(self).stage, Some(e@)),
            },
            final(self).reports@ == old(self).reports@.push(report),
            final(self).buffer == old(self).buffer,
            old(self).stage matches Stage::Poll(i) ==> ({
                let name = old(self).table.sensors@[i as int].name@;
                &&& (report matches Report::Polled(Ok(n)) && n > 0) ==> r is Ok && final(self).stage
                    == if i + 1 < old(self).table.sensors@.len() {
                    Stage::Poll((i + 1) as usize)
                } else {
                    Stage::Read(0)
                }
                &&& (report matches Report::Polled(Ok(n)) && n == 0) ==> final(self).stage
                    == Stage::Idle && (r matches Err(m) && m@ == "Port '"@ + name
                    + "' has no data avaliable, reported: "@ + crate::text::digits(0))
                &&& report matches Report::Polled(Err(e)) ==> final(self).stage == Stage::Idle && (
                r matches Err(m) && m@ == "Failed to check bytes on port '"@ + name + "': "@ + e@)
            }),
            old(self).stage matches Stage::Read(i) ==> ({
                let name = old(self).table.sensors@[i as int].name@;
                &&& report matches Report::Read(Ok(_)) ==> r is Ok && final(self).stage == if i + 1
                    < old(self).table.sensors@.len() {
                    Stage::Read((i + 1) as usize)
                } else {
                    Stage::Complete
                }
                &&& report matches Report::Read(Err(e)) ==> final(self).stage == Stage::Idle && (
                r matches Err(m) && m@ == "Failed to read from sensor '"@ + name + "': "@ + e@)
            }),
    {
        proof {
            run_takes_one_more_answer(
                names(self.table),
                first_stage(self.table.sensors@.len()),
                self.reports@,
                report,
            );
            self.reports@ = self.reports@.push(report);
        }
        let n = self.table.sensors.len();
        let i: usize = match self.stage {
            Stage::Poll(i) => i,
            Stage::Read(i) => i,
            _ => 0,
        };
        match report_failure(self.table.sensors[i].name.as_str(), &report) {
            Some(error) => {
                self.stage = Stage::Idle;
                Err(error)
            },
            None => {
                self.stage = match self.stage {
                    Stage::Poll(_) => if i + 1 < n {
                        Stage::Poll(i + 1)
                    } else {
                        Stage::Read(0)
                    },
                    _ => if i + 1 < n {
                        Stage::Read(i + 1)
                    } else {
                        Stage::Complete
                    },
                };
                Ok(())
            },
        }
    }

    /// Lends the part of the buffer that takes the reading of the sensor that is to be read.
    /// Nothing else of the buffer can be written through it.
    pub fn region(&mut self) -> (r: &mut [u8])
        requires
            old(self).wf(),
            old(self).stage is Read,
        ensures
            ({
                let sensor = old(self).table.sensors@[awaited(old(self).stage)->0];
                &&& r@ == part_of(old(self).table, old(self).held(), awaited(old(self).stage)->0)
                &&& r@.len() == sensor.size
                &&& final(self).held() == old(self).held().take(sensor.offset as int) + final(r)@
                    + old(self).held().skip(sensor.offset + sensor.size)
            }),
            final(self).wf(),
            final(self).table == old(self).table,
            final(self).stage == old(self).stage,
            final(self).reports@ == old(self).reports@,
            old(self).stage matches Stage::Read(i) && ({
                let sensor = old(self).table.sensors@[i as int];
                let before = crate::packet::buffer_of(old(self).buffer);
                let after = crate::packet::buffer_of(final(self).buffer);
                &&& r@ == before.subrange(sensor.offset as int, sensor.offset + sensor.size)
                &&& after == before.take(sensor.offset as int) + final(r)@ + before.skip(
                    sensor.offset + sensor.size,
                )
            }),
    {
        let i: usize = match self.stage {
            Stage::Read(i) => i,
            _ => 0,
        };
        proof {
            part_is_inside(self.table, i as int);
        }
        let ghost before = self.held();
        let offset: usize = self.table.sensors[i].offset;
        let size: usize = self.table.sensors[i].size;
        let all = contents_mut(&mut self.buffer);
        let (head, from) = all.split_at_mut(offset);
        let (region, tail) = from.split_at_mut(size);
        proof {
            assert(head@ == before.take(offset as int));
            assert(region@ == before.subrange(offset as int, offset + size));
            assert(tail@ == before.skip(offset + size));
        }
        region
    }
}

impl Collector {
    /// The record of what was collected, under the given timestamp.
    pub fn finish(&self, timestamp: &str) -> (r: Bytes)
        requires
            self.wf(),
            self.stage is Complete,
            encode_utf8(timestamp@).len() <= crate::clock::TIMESTAMP_SIZE,
        ensures
            crate::packet::bytes_of(r) == crate::record::record_bytes(
                timestamp@,
                collected(self.table, self.held()),
            ),
            crate::packet::bytes_of(r) == crate::record::record_bytes(
                timestamp@,
                Seq::new(
                    self.table.sensors@.len(),
                    |i: int|
                        crate::fields::split(
                            crate::packet::buffer_of(self.buffer).subrange(
                                self.table.sensors@[i].offset as int,
                                self.table.sensors@[i].offset + self.table.sensors@[i].size,
                            ),
                        ),
                ),
            ),
    {
        proof {
            collected_reads(self.table, self.held());
        }
        let bytes = self.buffer.clone().freeze();
        let all: &[u8] = &bytes;
        let n = self.table.sensors.len();
        let mut parts: Vec<Vec<Bytes>> = Vec::new();
        let mut i: usize = 0;
        while i < n
            invariant
                self.table.wf(),
                n == self.table.sensors@.len(),
                all@ == self.held(),
                all@.len() == self.table.total,
                i <= n,
                parts@.len() == i,
                forall|k: int|
                    0 <= k < i ==> crate::fields::views(#[trigger] parts@[k]@)
                        == crate::fields::split(part_of(self.table, self.held(), k)),
            decreases n - i,
        {
            proof {
                part_is_inside(self.table, i as int);
            }
            let sensor = &self.table.sensors[i];
            let reading = vstd::slice::slice_subrange(
                all,
                sensor.offset,
                sensor.offset + sensor.size,
            );
            parts.push(split_fields(reading));
            i = i + 1;
        }
        proof {
            assert(crate::record::part_views(parts@) == collected(self.table, self.held()));
            record_fits(self.table, self.held(), timestamp@);
        }
        record(timestamp, &parts)
    }

    /// Ends the collection with the record of what was collected, under the current time.
    pub fn complete(&mut self) -> (r: Bytes)
        requires
            old(self).wf(),
            old(self).stage is Complete,
        ensures
            final(self).wf(),
            final(self).table == old(self).table,
            final(self).held() == old(self).held(),
            final(self).stage == Stage::Idle,
            exists|timestamp: Seq<char>| #[trigger]
                crate::clock::is_timestamp(timestamp) && crate::packet::bytes_of(r)
                    == crate::record::record_bytes(
                    timestamp,
                    collected(old(self).table, old(self).held()),
                ),
            exists|timestamp: Seq<char>| #[trigger]
                crate::clock::is_timestamp(timestamp) && crate::packet::bytes_of(r)
                    == crate::record::record_bytes(
                    timestamp,
                    Seq::new(
                        old(self).table.sensors@.len(),
                        |i: int|
                            crate::fields::split(
                                crate::packet::buffer_of(old(self).buffer).subrange(
                                    old(self).table.sensors@[i].offset as int,
                                    old(self).table.sensors@[i].offset + old(self).table.sensors@[i].size,
                                ),
                            ),
                    ),
                ),
            final(self).buffer == old(self).buffer,
    {
        proof {
            collected_reads(self.table, self.held());
        }
        let timestamp = crate::clock::timestamp();
        proof {
            crate::clock::timestamp_is_plain(timestamp@);
        }
        let r = self.finish(timestamp.as_str());
        self.stage = Stage::Idle;
        r
    }
}

/// The readings of the first `m` sensors together.
spec fn reading_sum(parts: Seq<Seq<Seq<u8>>>, m: int) -> int
    decreases m,
{
    if m <= 0 {
        0
    } else {
        reading_sum(parts, m - 1) + crate::record::reading_len(parts, m - 1)
    }
}

proof fn readings_fit(table: SensorTable, buffer: Seq<u8>, m: int)
    requires
        table.wf(),
        buffer.len() == table.total,
        0 <= m <= table.sensors@.len(),
    ensures
        reading_sum(collected(table, buffer), m) <= crate::layout::size_sum(table.sensors@, m),
    decreases m,
{
    if m > 0 {
        readings_fit(table, buffer, m - 1);
        part_is_inside(table, m - 1);
        crate::fields::split_keeps_length(part_of(table, buffer, m - 1));
    }
}

/// There is room for the record of any collection.
proof fn record_fits(table: SensorTable, buffer: Seq<u8>, timestamp: Seq<char>)
    requires
        table.wf(),
        buffer.len() == table.total,
        encode_utf8(timestamp).len() <= crate::clock::TIMESTAMP_SIZE,
    ensures
        crate::record::record_bytes(timestamp, collected(table, buffer)).len()
            <= crate::packet::buffer_limit(),
{
    let parts = collected(table, buffer);
    crate::record::record_len_bound(timestamp, parts);
    let n = table.sensors@.len() as int;
    let m = if n < 3 {
        n
    } else {
        3
    };
    readings_fit(table, buffer, m);
    crate::layout::size_sum_grows(table.sensors@, m, n);
    reveal_with_fuel(reading_sum, 4);
}

/// The reading of each sensor is its own part of the buffer, from its offset on and as long as its
/// size, cut into fields.
pub proof fn collected_reads(table: SensorTable, buffer: Seq<u8>)
    ensures
        collected(table, buffer) == Seq::new(
            table.sensors@.len(),
            |i: int|
                crate::fields::split(
                    buffer.subrange(
                        table.sensors@[i].offset as int,
                        table.sensors@[i].offset + table.sensors@[i].size,
                    ),
                ),
        ),
{
}

/// A sensor that is asked and has data is followed by the next, and the last by the first one to be
/// read; one that has none, or cannot be asked, ends the collection.
pub proof fn asking_a_sensor(names: Seq<Seq<char>>, i: usize, count: u32, e: String)
    requires
        i < names.len() <= usize::MAX,
    ensures
        next(names, Stage::Poll(i), Report::Polled(Ok(count))) == if count > 0 {
            (
                if i + 1 < names.len() {
                    Stage::Poll((i + 1) as usize)
                } else {
                    Stage::Read(0)
                },
                None,
            )
        } else {
            (
                Stage::Idle,
                Some(
                    "Port '"@ + names[i as int] + "' has no data avaliable, reported: "@
                        + crate::text::digits(0),
                ),
            )
        },
        next(names, Stage::Poll(i), Report::Polled(Err(e))) == (
            Stage::Idle,
            Some("Failed to check bytes on port '"@ + names[i as int] + "': "@ + e@),
        ),
        first_stage(names.len()) == Stage::Poll(0),
        first_stage(0) == Stage::Complete,
{
}

/// A sensor that is read is followed by the next, and the last completes the collection, however
/// many bytes were read; one that cannot be read ends it.
pub proof fn reading_a_sensor(names: Seq<Seq<char>>, i: usize, count: usize, e: String)
    requires
        i < names.len() <= usize::MAX,
    ensures
        next(names, Stage::Read(i), Report::Read(Ok(count))) == (
            if i + 1 < names.len() {
                Stage::Read((i + 1) as usize)
            } else {
                Stage::Complete
            },
            None::<Seq<char>>,
        ),
        next(names, Stage::Read(i), Report::Read(Err(e))) == (
            Stage::Idle,
            Some("Failed to read from sensor '"@ + names[i as int] + "': "@ + e@),
        ),
{
}

/// Every sensor counts, under its own name.
pub proof fn every_sensor_is_named(table: SensorTable)
    ensures
        names(table).len() == table.sensors@.len(),
        forall|i: int|
            0 <= i < table.sensors@.len() ==> #[trigger] names(table)[i]
                == table.sensors@[i].name@,
{
}

/// A record is made only once every sensor has said, in order, that it has at least one byte, and
/// then, in order, was read.
pub proof fn record_needs_data_of_every_sensor(collector: Collector)
    requires
        collector.wf(),
        collector.table.sensors@.len() > 0,
        collector.stage is Complete,
    ensures
        ({
            let n = collector.table.sensors@.len();
            &&& collector.reports@.len() == 2 * n
            &&& forall|k: int|
                0 <= k < n ==> ((#[trigger] collector.reports@[k]) matches Report::Polled(Ok(count))
                    && count > 0)
            &&& forall|k: int|
                n <= k < 2 * n ==> ((#[trigger] collector.reports@[k]) matches Report::Read(Ok(_)))
        }),
{
    record_needs_every_sensor(collector);
    let n = collector.table.sensors@.len();
    assert forall|k: int| 0 <= k < n implies ((
    #[trigger] collector.reports@[k]) matches Report::Polled(Ok(count)) && count > 0) by {
        assert(is_good(n, k, collector.reports@[k]));
    }
    assert forall|k: int| n <= k < 2 * n implies ((
    #[trigger] collector.reports@[k]) matches Report::Read(Ok(_))) by {
        assert(is_good(n, k, collector.reports@[k]));
    }
}

/// One more answer leads to the stage that `Collector::report` goes to.
pub proof fn run_takes_one_more_answer(
    names: Seq<Seq<char>>,
    stage: Stage,
    reports: Seq<Report>,
    report: Report,
)
    ensures
        run(names, stage, reports.push(report)) == next(
            names,
            run(names, stage, reports),
            report,
        ).0,
        run(names, stage, Seq::empty()) == stage,
{
    assert(reports.push(report).drop_last() =~= reports);
}

/// A record is made only once every sensor had data on its port and every sensor was read, in
/// order, since the collection was started.
pub proof fn record_needs_every_sensor(collector: Collector)
    requires
        collector.wf(),
        collector.table.sensors@.len() > 0,
        collector.stage is Complete,
    ensures
        ({
            let n = collector.table.sensors@.len();
            &&& collector.reports@.len() == 2 * n
            &&& forall|k: int| 0 <= k < 2 * n ==> is_good(n, k, #[trigger] collector.reports@[k])
        }),
{
    assert(names(collector.table).len() == collector.table.sensors.len());
    complete_needs_every_sensor(names(collector.table), collector.reports@);
}

/// The stage that a collection from `n` sensors is in after `k` good answers.
pub open spec fn stage_after(n: nat, k: int) -> Stage {
    if k < n {
        Stage::Poll(k as usize)
    } else if k < 2 * n {
        Stage::Read((k - n) as usize)
    } else {
        Stage::Complete
    }
}

/// The answer that keeps a collection from `n` sensors going after `k` good ones: data on the
/// port for each sensor first, and then that it was read.
pub open spec fn is_good(n: nat, k: int, report: Report) -> bool {
    if k < n {
        report matches Report::Polled(Ok(count)) && count > 0
    } else {
        report matches Report::Read(Ok(_))
    }
}

/// As long as every answer is good, the sensors are asked in order, and then read in order.
pub proof fn good_answers_advance(names: Seq<Seq<char>>, reports: Seq<Report>)
    requires
        names.len() <= usize::MAX,
        reports.len() <= 2 * names.len(),
        forall|k: int| 0 <= k < reports.len() ==> is_good(names.len(), k, #[trigger] reports[k]),
    ensures
        run(names, first_stage(names.len()), reports) == stage_after(
            names.len(),
            reports.len() as int,
        ),
    decreases reports.len(),
{
    if reports.len() > 0 {
        let k = reports.len() - 1;
        assert forall|i: int| 0 <= i < k implies is_good(
            names.len(),
            i,
            #[trigger] reports.drop_last()[i],
        ) by {
            assert(reports.drop_last()[i] == reports[i]);
        }
        good_answers_advance(names, reports.drop_last());
        assert(is_good(names.len(), k, reports[k]));
    }
}

/// A collection is complete if and only if every sensor had data on its port and every sensor
/// could be read.
pub proof fn complete_needs_every_sensor(names: Seq<Seq<char>>, reports: Seq<Report>)
    requires
        0 < names.len() <= usize::MAX,
    ensures
        run(names, first_stage(names.len()), reports) is Complete <==> {
            &&& reports.len() == 2 * names.len()
            &&& forall|k: int|
                0 <= k < reports.len() ==> is_good(names.len(), k, #[trigger] reports[k])
        },
{
    if reports.len() == 2 * names.len() && (forall|k: int|
        0 <= k < reports.len() ==> is_good(names.len(), k, #[trigger] reports[k])) {
        good_answers_advance(names, reports);
    } else {
        not_idle_means_good(names, reports);
    }
}

/// A collection that has not ended was given good answers only.
proof fn not_idle_means_good(names: Seq<Seq<char>>, reports: Seq<Report>)
    requires
        0 < names.len() <= usize::MAX,
    ensures
        run(names, first_stage(names.len()), reports) != Stage::Idle ==> {
            &&& reports.len() <= 2 * names.len()
            &&& run(names, first_stage(names.len()), reports) == stage_after(
                names.len(),
                reports.len() as int,
            )
            &&& forall|k: int|
                0 <= k < reports.len() ==> is_good(names.len(), k, #[trigger] reports[k])
        },
    decreases reports.len(),
{
    if reports.len() > 0 {
        let k = reports.len() - 1;
        not_idle_means_good(names, reports.drop_last());
        if run(names, first_stage(names.len()), reports) != Stage::Idle {
            assert(is_good(names.len(), k, reports[k]));
            assert forall|i: int| 0 <= i < reports.len() implies is_good(
                names.len(),
                i,
                #[trigger] reports[i],
            ) by {
                if i < k {
                    assert(is_good(names.len(), i, reports.drop_last()[i]));
                }
            }
        }
    }
}

/// The first answer that is not good ends the collection, with the error of the sensor that gave
/// it.
pub proof fn first_failure_is_reported(names: Seq<Seq<char>>, reports: Seq<Report>, failure: Report)
    requires
        0 < names.len() <= usize::MAX,
        reports.len() < 2 * names.len(),
        forall|k: int| 0 <= k < reports.len() ==> is_good(names.len(), k, #[trigger] reports[k]),
        answers(stage_after(names.len(), reports.len() as int), failure),
        !is_good(names.len(), reports.len() as int, failure),
    ensures
        ({
            let sensor = reports.len() % names.len();
            &&& report_error(names[sensor as int], failure) is Some
            &&& next(names, run(names, first_stage(names.len()), reports), failure) == (
                Stage::Idle,
                report_error(names[sensor as int], failure),
            )
        }),
{
    good_answers_advance(names, reports);
    let n = names.len() as int;
    let k = reports.len() as int;
    if k < n {
        vstd::arithmetic::div_mod::lemma_small_mod(k as nat, n as nat);
    } else {
        vstd::arithmetic::div_mod::lemma_mod_add_multiples_vanish(k - n, n);
        vstd::arithmetic::div_mod::lemma_small_mod((k - n) as nat, n as nat);
    }
}

/// What one sensor delivers changes the reading of no other sensor.
pub proof fn readings_stay_apart(
    table: SensorTable,
    buffer: Seq<u8>,
    i: int,
    delivered: Seq<u8>,
    j: int,
)
    requires
        table.wf(),
        buffer.len() == table.total,
        0 <= i < table.sensors@.len(),
        0 <= j < table.sensors@.len(),
        delivered.len() == table.sensors@[i].size,
    ensures
        ({
            let sensor = table.sensors@[i];
            let after = buffer.take(sensor.offset as int) + delivered + buffer.skip(
                sensor.offset + sensor.size,
            );
            &&& part_of(table, after, i) == delivered
            &&& i != j ==> part_of(table, after, j) == part_of(table, buffer, j)
        }),
{
    crate::layout::parts_tile_the_buffer(table);
    let a = table.sensors@[i];
    let b = table.sensors@[j];
    splice_keeps_the_rest(buffer, a.offset as int, delivered, b.offset as int, b.size as int);
}

/// The buffer once the first `n` sensors have each delivered a reading.
pub open spec fn filled(
    table: SensorTable,
    buffer: Seq<u8>,
    delivered: Seq<Seq<u8>>,
    n: int,
) -> Seq<u8>
    decreases n,
{
    if n <= 0 {
        buffer
    } else {
        let before = filled(table, buffer, delivered, n - 1);
        let sensor = table.sensors@[n - 1];
        before.take(sensor.offset as int) + delivered[n - 1] + before.skip(
            sensor.offset + sensor.size,
        )
    }
}

/// When every sensor has been read, the record is made from exactly what each of them delivered.
pub proof fn collected_is_what_was_delivered(
    table: SensorTable,
    buffer: Seq<u8>,
    delivered: Seq<Seq<u8>>,
)
    requires
        table.wf(),
        buffer.len() == table.total,
        delivered.len() == table.sensors@.len(),
        forall|i: int|
            0 <= i < delivered.len() ==> (#[trigger] delivered[i]).len() == table.sensors@[i].size,
    ensures
        collected(table, filled(table, buffer, delivered, delivered.len() as int)) == Seq::new(
            delivered.len(),
            |i: int| crate::fields::split(delivered[i]),
        ),
{
    let n = delivered.len() as int;
    filled_parts(table, buffer, delivered, n);
    let after = filled(table, buffer, delivered, n);
    assert forall|i: int| 0 <= i < n implies collected(table, after)[i] == crate::fields::split(
        delivered[i],
    ) by {
        assert(part_of(table, after, i) == delivered[i]);
    }
    assert(collected(table, after) =~= Seq::new(
        delivered.len(),
        |i: int| crate::fields::split(delivered[i]),
    ));
}

proof fn filled_parts(table: SensorTable, buffer: Seq<u8>, delivered: Seq<Seq<u8>>, n: int)
    requires
        table.wf(),
        buffer.len() == table.total,
        delivered.len() == table.sensors@.len(),
        forall|i: int|
            0 <= i < delivered.len() ==> (#[trigger] delivered[i]).len() == table.sensors@[i].size,
        0 <= n <= delivered.len(),
    ensures
        filled(table, buffer, delivered, n).len() == table.total,
        forall|i: int|
            0 <= i < n ==> #[trigger] part_of(table, filled(table, buffer, delivered, n), i)
                == delivered[i],
    decreases n,
{
    if n > 0 {
        filled_parts(table, buffer, delivered, n - 1);
        part_is_inside(table, n - 1);
        let before = filled(table, buffer, delivered, n - 1);
        let after = filled(table, buffer, delivered, n);
        assert(delivered[n - 1].len() == table.sensors@[n - 1].size);
        assert forall|i: int| 0 <= i < n implies #[trigger] part_of(table, after, i)
            == delivered[i] by {
            readings_stay_apart(table, before, n - 1, delivered[n - 1], i);
            if i < n - 1 {
                assert(part_of(table, before, i) == delivered[i]);
            }
        }
    }
}

/// Readings that are text make a record that is text.
pub proof fn text_readings_make_a_text_record(
    table: SensorTable,
    buffer: Seq<u8>,
    timestamp: Seq<char>,
)
    requires
        forall|i: int|
            0 <= i < table.sensors@.len() ==> valid_utf8(#[trigger] part_of(table, buffer, i)),
    ensures
        valid_utf8(crate::record::record_bytes(timestamp, collected(table, buffer))),
{
    let parts = collected(table, buffer);
    assert forall|i: int, j: int|
        0 <= i < parts.len() && 0 <= j < parts[i].len() implies valid_utf8(
        #[trigger] parts[i][j],
    ) by {
        assert(valid_utf8(part_of(table, buffer, i)));
        crate::fields::fields_of_text_are_text(part_of(table, buffer, i));
    }
    crate::record::record_of_text_is_text(timestamp, parts);
}

proof fn splice_keeps_the_rest(
    buffer: Seq<u8>,
    offset: int,
    delivered: Seq<u8>,
    start: int,
    size: int,
)
    requires
        0 <= offset,
        offset + delivered.len() <= buffer.len(),
        0 <= start,
        0 <= size,
        start + size <= buffer.len(),
    ensures
        ({
            let after = buffer.take(offset) + delivered + buffer.skip(offset + delivered.len());
            &&& after.subrange(offset, offset + delivered.len()) == delivered
            &&& (start + size <= offset || offset + delivered.len() <= start) ==> after.subrange(
                start,
                start + size,
            ) == buffer.subrange(start, start + size)
        }),
{
    let after = buffer.take(offset) + delivered + buffer.skip(offset + delivered.len());
    assert(after.subrange(offset, offset + delivered.len()) =~= delivered);
    if start + size <= offset || offset + delivered.len() <= start {
        assert(after.subrange(start, start + size) =~= buffer.subrange(start, start + size));
    }
}

} // verus!
