//! The serial sensors of the configuration, and where the reading of each stands in the buffer.
use vstd::prelude::*;

verus! {

/// An element of a sensor's configuration.
pub enum Scalar {
    Text(String),
    Integer(i64),
    Other,
}

/// The configuration of one sensor. It is meant to be a list of the serial port, the baud rate,
/// the name, and the size of a reading.
pub enum SensorEntry {
    List(Vec<Scalar>),
    Other,
}

/// What is wrong with the configuration of a sensor.
#[derive(Clone, Copy, PartialEq, Eq, Structural, Debug)]
pub enum EntryFault {
    NotAList,
    Port,
    BaudRate,
    Name,
    Size,
}

/// A sensor as it is configured.
pub struct SensorSpec {
    pub port: String,
    pub baud_rate: u32,
    pub name: String,
    pub size: usize,
}

/// The text of an element, where it is one.
pub open spec fn text_of(s: Scalar) -> Option<Seq<char>> {
    match s {
        Scalar::Text(t) => Some(t@),
        _ => None,
    }
}

/// The integer of an element, where it is one.
pub open spec fn integer_of(s: Scalar) -> Option<int> {
    match s {
        Scalar::Integer(i) => Some(i as int),
        _ => None,
    }
}

/// `fault`, where it applies.
pub open spec fn fault_if(applies: bool, fault: EntryFault) -> Seq<EntryFault> {
    if applies {
        seq![fault]
    } else {
        seq![]
    }
}

/// What is wrong with the elements of a sensor's list, in their order.
pub open spec fn list_faults(list: Seq<Scalar>) -> Seq<EntryFault> {
    fault_if(text_of(list[0]) is None, EntryFault::Port) + fault_if(
        integer_of(list[1]) is None,
        EntryFault::BaudRate,
    ) + fault_if(text_of(list[2]) is None, EntryFault::Name) + fault_if(
        integer_of(list[3]) is None,
        EntryFault::Size,
    )
}

/// What is wrong with the configuration of a sensor.
pub open spec fn entry_faults(entry: SensorEntry) -> Seq<EntryFault> {
    match entry {
        SensorEntry::List(list) => list_faults(list@),
        SensorEntry::Other => seq![EntryFault::NotAList],
    }
}

/// A list has an element for each of the four things that it is meant to hold.
pub open spec fn entry_is_complete(entry: SensorEntry) -> bool {
    entry matches SensorEntry::List(list) ==> list@.len() >= 4
}

/// `spec` is what a list without faults says. A baud rate or a size that its type does not hold
/// is taken modulo the type's range.
pub open spec fn spec_says(spec: SensorSpec, list: Seq<Scalar>) -> bool {
    &&& text_of(list[0]) == Some(spec.port@)
    &&& integer_of(list[1]) is Some
    &&& spec.baud_rate == integer_of(list[1])->0 % 0x1_0000_0000
    &&& text_of(list[2]) == Some(spec.name@)
    &&& integer_of(list[3]) is Some
    &&& spec.size == integer_of(list[3])->0 % (usize::MAX + 1)
}

/// What is wrong with a list is told element by element, in their order: the port and the name are
/// to be texts, the baud rate and the size integers.
pub proof fn faults_read(list: Vec<Scalar>)
    ensures
        entry_faults(SensorEntry::List(list)) == (if list@[0] is Text {
                Seq::<EntryFault>::empty()
            } else {
                seq![EntryFault::Port]
            }) + (if list@[1] is Integer {
                Seq::<EntryFault>::empty()
            } else {
                seq![EntryFault::BaudRate]
            }) + (if list@[2] is Text {
                Seq::<EntryFault>::empty()
            } else {
                seq![EntryFault::Name]
            }) + (if list@[3] is Integer {
                Seq::<EntryFault>::empty()
            } else {
                seq![EntryFault::Size]
            }),
        entry_faults(SensorEntry::Other) == seq![EntryFault::NotAList],
        entry_faults(SensorEntry::List(list)).len() == 0 <==> list@[0] is Text && list@[1] is Integer
            && list@[2] is Text && list@[3] is Integer,
        entry_is_complete(SensorEntry::List(list)) <==> list@.len() >= 4,
        entry_is_complete(SensorEntry::Other),
{
}

/// What a list says of a sensor, element by element. A baud rate wraps at 32 bits, and a size at
/// those of the machine.
pub proof fn spec_reads(spec: SensorSpec, list: Seq<Scalar>)
    ensures
        spec_says(spec, list) <==> {
            &&& list[0] matches Scalar::Text(port) && spec.port@ == port@
            &&& list[1] matches Scalar::Integer(rate) && spec.baud_rate == rate as int
                % 0x1_0000_0000
            &&& list[2] matches Scalar::Text(name) && spec.name@ == name@
            &&& list[3] matches Scalar::Integer(size) && spec.size == size as int % (usize::MAX + 1)
        },
{
}

impl EntryFault {
    /// What is said of the fault.
    pub fn message(self) -> (m: &'static str)
        ensures
            m@ == match self {
                EntryFault::NotAList =>
                    "Failed to parse one of the sensor configurations as an array."@,
                EntryFault::Port => "Failed to parse a sensor serial port as a string."@,
                EntryFault::BaudRate => "Failed to parse a sensor baud rate as an integer."@,
                EntryFault::Name => "Failed to parse a sensor name as a str."@,
                EntryFault::Size => "Failed to parse a sensor data size as an integer."@,
            },
    {
        match self {
            EntryFault::NotAList => "Failed to parse one of the sensor configurations as an array.",
            EntryFault::Port => "Failed to parse a sensor serial port as a string.",
            EntryFault::BaudRate => "Failed to parse a sensor baud rate as an integer.",
            EntryFault::Name => "Failed to parse a sensor name as a str.",
            EntryFault::Size => "Failed to parse a sensor data size as an integer.",
        }
    }
}

fn as_text(s: &Scalar) -> (t: Option<String>)
    ensures
        text_of(*s) == match t {
            Some(t) => Some(t@),
            None => None,
        },
{
    match s {
        Scalar::Text(t) => Some(t.clone()),
        _ => None,
    }
}

fn as_integer(s: &Scalar) -> (n: Option<i64>)
    ensures
        integer_of(*s) == match n {
            Some(n) => Some(n as int),
            None => None,
        },
{
    match s {
        Scalar::Integer(n) => Some(*n),
        _ => None,
    }
}

fn as_baud_rate(n: i64) -> (rate: u32)
    ensures
        rate == n as int % 0x1_0000_0000,
{
    assert(n as u32 == n % 0x1_0000_0000) by (bit_vector);
    #[verifier::truncate]
    (n as u32)
}

fn as_size(n: i64) -> (size: usize)
    ensures
        size == n as int % (usize::MAX + 1),
{
    assert(usize::BITS == 64 ==> n as usize == (n as int) % 0x1_0000_0000_0000_0000) by (bit_vector);
    assert(usize::BITS == 32 ==> n as usize == (n as int) % 0x1_0000_0000) by (bit_vector);
    #[verifier::truncate]
    (n as usize)
}

/// Reads the configuration of a sensor. Every fault that it has is reported.
pub fn read_entry(entry: &SensorEntry) -> (r: Result<SensorSpec, Vec<EntryFault>>)
    requires
        entry_is_complete(*entry),
    ensures
        r is Ok <==> entry_faults(*entry).len() == 0,
        r matches Ok(spec) ==> entry matches SensorEntry::List(list) && spec_says(spec, list@),
        r matches Err(faults) ==> faults@ == entry_faults(*entry),
        r is Ok <==> (entry matches SensorEntry::List(list) && list@[0] is Text
            && list@[1] is Integer && list@[2] is Text && list@[3] is Integer),
        r matches Ok(spec) ==> (entry matches SensorEntry::List(list) && ({
            &&& list@[0] matches Scalar::Text(port) && spec.port@ == port@
            &&& list@[1] matches Scalar::Integer(rate) && spec.baud_rate == rate as int
                % 0x1_0000_0000
            &&& list@[2] matches Scalar::Text(name) && spec.name@ == name@
            &&& list@[3] matches Scalar::Integer(size) && spec.size == size as int % (usize::MAX
                + 1)
        })),
        r matches Err(faults) ==> (entry is Other ==> faults@ == seq![EntryFault::NotAList]),
        r matches Err(faults) ==> (entry matches SensorEntry::List(list) ==> faults@ == (if list@[0] is Text {
                Seq::<EntryFault>::empty()
            } else {
                seq![EntryFault::Port]
            }) + (if list@[1] is Integer {
                Seq::<EntryFault>::empty()
            } else {
                seq![EntryFault::BaudRate]
            }) + (if list@[2] is Text {
                Seq::<EntryFault>::empty()
            } else {
                seq![EntryFault::Name]
            }) + (if list@[3] is Integer {
                Seq::<EntryFault>::empty()
            } else {
                seq![EntryFault::Size]
            })),
{
    let list = match entry {
        SensorEntry::List(list) => list,
        SensorEntry::Other => {
            let mut faults: Vec<EntryFault> = Vec::new();
            faults.push(EntryFault::NotAList);
            return Err(faults);
        },
    };
    let mut faults: Vec<EntryFault> = Vec::new();
    let port = as_text(&list[0]);
    if port.is_none() {
        faults.push(EntryFault::Port);
    }
    let baud_rate = as_integer(&list[1]);
    if baud_rate.is_none() {
        faults.push(EntryFault::BaudRate);
    }
    let name = as_text(&list[2]);
    if name.is_none() {
        faults.push(EntryFault::Name);
    }
    let size = as_integer(&list[3]);
    if size.is_none() {
        faults.push(EntryFault::Size);
    }
    proof {
        assert(faults@ == list_faults(list@));
    }
    match (port, baud_rate, name, size) {
        (Some(port), Some(rate), Some(name), Some(size)) => Ok(
            SensorSpec { port, baud_rate: as_baud_rate(rate), name, size: as_size(size) },
        ),
        _ => Err(faults),
    }
}

/// A connected sensor: its name, and the part of the buffer that takes its reading.
pub struct SensorSlice {
    pub name: String,
    pub offset: usize,
    pub size: usize,
}

/// The connected sensors, in the order in which they were connected.
pub struct SensorTable {
    pub sensors: Vec<SensorSlice>,
    pub total: usize,
}

/// The sizes of the first `n` sensors together.
pub open spec fn size_sum(sensors: Seq<SensorSlice>, n: int) -> int
    decreases n,
{
    if n <= 0 {
        0
    } else {
        size_sum(sensors, n - 1) + sensors[n - 1].size
    }
}

/// The room that a record needs beside the readings that it is made from.
pub const RECORD_SPARE: usize = 512;

/// The most bytes that the readings of all sensors may take together, so that a buffer holds them
/// and the record made from them.
pub open spec fn table_limit() -> int {
    crate::packet::buffer_limit() - RECORD_SPARE
}

/// The names and the sizes of the sensors.
pub open spec fn named_sizes(sensors: Seq<SensorSlice>) -> Seq<(Seq<char>, int)> {
    sensors.map_values(|s: SensorSlice| (s.name@, s.size as int))
}

proof fn size_sum_depends_on_prefix(a: Seq<SensorSlice>, b: Seq<SensorSlice>, n: int)
    requires
        n <= a.len(),
        n <= b.len(),
        forall|i: int| 0 <= i < n ==> a[i] == b[i],
    ensures
        size_sum(a, n) == size_sum(b, n),
    decreases n,
{
    if n > 0 {
        size_sum_depends_on_prefix(a, b, n - 1);
    }
}

/// The sizes of the first sensors together are at most those of more sensors.
pub proof fn size_sum_grows(sensors: Seq<SensorSlice>, m: int, n: int)
    requires
        0 <= m <= n <= sensors.len(),
    ensures
        0 <= size_sum(sensors, m) <= size_sum(sensors, n),
    decreases n,
{
    if m < n {
        size_sum_grows(sensors, m, n - 1);
    } else if m > 0 {
        size_sum_grows(sensors, m - 1, m - 1);
    }
}

impl SensorTable {
    /// Each sensor's part of the buffer starts where the parts of the sensors before it end, and
    /// the buffer ends with the part of the last one.
    pub open spec fn wf(self) -> bool {
        &&& forall|i: int|
            0 <= i < self.sensors@.len() ==> self.sensors@[i].offset == #[trigger] size_sum(
                self.sensors@,
                i,
            )
        &&& self.total == size_sum(self.sensors@, self.sensors@.len() as int)
        &&& self.total <= table_limit()
    }

    /// A table without sensors.
    pub fn new() -> (t: SensorTable)
        ensures
            t.wf(),
            t.sensors@.len() == 0,
            t.total == 0,
    {
        SensorTable { sensors: Vec::new(), total: 0 }
    }

    /// Whether there is room for the reading of one more sensor.
    pub fn fits(&self, size: usize) -> (r: bool)
        requires
            self.wf(),
        ensures
            r == (self.total + size <= table_limit()),
            r == (self.total + size <= isize::MAX as int / 2 - 512),
    {
        let limit: usize = isize::MAX as usize / 2 - RECORD_SPARE;
        size <= limit - self.total
    }

    /// Adds a sensor behind the others.
    pub fn add(&mut self, name: String, size: usize)
        requires
            old(self).wf(),
            old(self).total + size <= table_limit(),
        ensures
            final(self).wf(),
            final(self).sensors@ == old(self).sensors@.push(
                SensorSlice { name, offset: old(self).total, size },
            ),
            final(self).total == old(self).total + size,
    {
        let ghost before = self.sensors@;
        self.sensors.push(SensorSlice { name, offset: self.total, size });
        self.total = self.total + size;
        proof {
            let after = self.sensors@;
            assert forall|i: int| 0 <= i <= before.len() implies size_sum(before, i) == size_sum(
                after,
                i,
            ) by {
                size_sum_depends_on_prefix(before, after, i);
            }
            assert forall|i: int| 0 <= i < after.len() implies after[i].offset
                == #[trigger] size_sum(after, i) by {
                assert(size_sum(before, i) == size_sum(after, i));
                if i < before.len() {
                    assert(after[i] == before[i]);
                }
            }
        }
    }
}

/// The readings of all sensors may take half of what a buffer can be long, but for 512 bytes.
pub proof fn room_for_readings()
    ensures
        table_limit() == isize::MAX as int / 2 - 512,
{
}

/// Each sensor keeps its name and its size.
pub proof fn every_sensor_keeps_its_size(sensors: Seq<SensorSlice>)
    ensures
        named_sizes(sensors).len() == sensors.len(),
        forall|i: int|
            0 <= i < sensors.len() ==> #[trigger] named_sizes(sensors)[i] == (
                sensors[i].name@,
                sensors[i].size as int,
            ),
{
}

/// The sensors share the buffer without overlap and without gap: the first part starts at the
/// beginning, each part ends where the next one starts, and the last one ends with the buffer.
pub proof fn parts_tile_the_buffer(table: SensorTable)
    requires
        table.wf(),
    ensures
        table.sensors@.len() == 0 ==> table.total == 0,
        table.sensors@.len() > 0 ==> table.sensors@[0].offset == 0,
        table.sensors@.len() > 0 ==> table.sensors@.last().offset + table.sensors@.last().size
            == table.total,
        forall|i: int, j: int|
            0 <= i && j == i + 1 && j < table.sensors@.len() ==> (
            #[trigger] table.sensors@[i]).offset + table.sensors@[i].size == (
            #[trigger] table.sensors@[j]).offset,
        forall|i: int, j: int|
            0 <= i < j < table.sensors@.len() ==> (#[trigger] table.sensors@[i]).offset
                + table.sensors@[i].size <= (#[trigger] table.sensors@[j]).offset,
        forall|i: int|
            0 <= i < table.sensors@.len() ==> (#[trigger] table.sensors@[i]).offset
                + table.sensors@[i].size <= table.total,
{
    let sensors = table.sensors@;
    assert forall|i: int| 0 <= i < sensors.len() implies (#[trigger] sensors[i]).offset == size_sum(
        sensors,
        i,
    ) && sensors[i].offset + sensors[i].size == size_sum(sensors, i + 1) && sensors[i].offset
        + sensors[i].size <= table.total by {
        assert(sensors[i].offset == size_sum(sensors, i));
        size_sum_grows(sensors, i + 1, sensors.len() as int);
    }
    assert forall|i: int, j: int| 0 <= i < j < sensors.len() implies (#[trigger] sensors[i]).offset
        + sensors[i].size <= (#[trigger] sensors[j]).offset by {
        size_sum_grows(sensors, i + 1, j);
    }
}

} // verus!
