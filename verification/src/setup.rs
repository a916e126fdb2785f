//! Connecting the serial sensors of the configuration, one after the other.
use crate::layout::{read_entry, EntryFault, Scalar, SensorEntry, SensorSpec, SensorTable};
use vstd::prelude::*;

verus! {

/// What to do next.
pub enum SetupStep {
    /// Open the serial port of this sensor, and say whether that worked.
    Open(SensorSpec),
    /// The configuration of a sensor is faulty: it is passed over.
    Skip(Vec<EntryFault>),
    /// Every sensor has had its turn.
    Done,
}

/// A sensor whose port is being opened.
pub struct Pending {
    pub name: String,
    pub size: usize,
}

/// The sensors of the configuration, and how far connecting them has come.
pub struct Setup {
    pub entries: Vec<SensorEntry>,
    pub position: usize,
    pub pending: Option<Pending>,
    pub table: SensorTable,
    /// For each sensor that had its turn, whether its port could be opened.
    pub answers: Ghost<Seq<bool>>,
}

/// The name and the size that a configuration without faults gives a sensor.
pub open spec fn configured(entry: SensorEntry) -> (Seq<char>, int) {
    match entry {
        SensorEntry::List(list) => (
            crate::layout::text_of(list@[2])->0,
            crate::layout::integer_of(list@[3])->0 % (usize::MAX + 1),
        ),
        SensorEntry::Other => (Seq::empty(), 0),
    }
}

/// The sensors that get connected, in order: those whose configuration has no fault and whose
/// port could be opened.
pub open spec fn connected(entries: Seq<SensorEntry>, answers: Seq<bool>) -> Seq<(Seq<char>, int)>
    decreases answers.len(),
{
    if answers.len() == 0 {
        Seq::empty()
    } else {
        let before = connected(entries, answers.drop_last());
        let entry = entries[answers.len() - 1];
        if answers.last() && crate::layout::entry_faults(entry).len() == 0 {
            before.push(configured(entry))
        } else {
            before
        }
    }
}

impl Setup {
    /// The sensors that had their turn are in the table if and only if they could be connected.
    pub open spec fn wf(self) -> bool {
        &&& self.table.wf()
        &&& self.position <= self.entries@.len()
        &&& self.position == self.answers@.len() + if self.pending is Some {
            1int
        } else {
            0int
        }
        &&& forall|i: int|
            0 <= i < self.position ==> crate::layout::entry_is_complete(#[trigger] self.entries@[i])
        &&& crate::layout::named_sizes(self.table.sensors@) == connected(
            self.entries@,
            self.answers@,
        )
        &&& self.pending matches Some(p) ==> {
            let entry = self.entries@[self.position - 1];
            crate::layout::entry_faults(entry).len() == 0 && configured(entry) == (
                p.name@,
                p.size as int,
            )
        }
    }

    /// The answers so far, where a port that is being opened counts as not opened.
    pub open spec fn settled(self) -> Seq<bool> {
        if self.pending is Some {
            self.answers@.push(false)
        } else {
            self.answers@
        }
    }

    /// Nothing is connected yet.
    pub fn new(entries: Vec<SensorEntry>) -> (s: Setup)
        ensures
            s.wf(),
            s.entries == entries,
            s.position == 0,
            s.pending is None,
            s.table.sensors@.len() == 0,
            s.answers@.len() == 0,
    {
        let s = Setup {
            entries,
            position: 0,
            pending: None,
            table: SensorTable::new(),
            answers: Ghost(Seq::empty()),
        };
        proof {
            assert(crate::layout::named_sizes(s.table.sensors@) == connected(
                s.entries@,
                s.answers@,
            ));
        }
        s
    }

    /// Whether the configuration of the next sensor, if there is one, has all its elements.
    pub open spec fn can_go_on(self) -> bool {
        self.position < self.entries@.len() ==> crate::layout::entry_is_complete(
            self.entries@[self.position as int],
        )
    }

    /// Whether the configuration of the next sensor, if there is one, has all its elements.
    pub fn next_is_complete(&self) -> (r: bool)
        requires
            self.wf(),
        ensures
            r == self.can_go_on(),
    {
        if self.position == self.entries.len() {
            return true;
        }
        match &self.entries[self.position] {
            SensorEntry::List(list) => list.len() >= 4,
            SensorEntry::Other => true,
        }
    }

    /// Turns to the next sensor. One whose port is still being opened counts as not opened.
    pub fn next(&mut self) -> (step: SetupStep)
        requires
            old(self).wf(),
            old(self).can_go_on(),
        ensures
            final(self).wf(),
            final(self).entries == old(self).entries,
            final(self).table == old(self).table,
            match step {
                SetupStep::Done => {
                    &&& old(self).position == old(self).entries@.len()
                    &&& final(self).position == old(self).position
                    &&& final(self).pending is None
                    &&& final(self).answers@ == old(self).settled()
                },
                SetupStep::Open(spec) => {
                    &&& old(self).position < old(self).entries@.len()
                    &&& final(self).position == old(self).position + 1
                    &&& crate::layout::entry_faults(
                        old(self).entries@[old(self).position as int],
                    ).len() == 0
                    &&& old(self).entries@[old(self).position as int] matches SensorEntry::List(list)
                        && crate::layout::spec_says(spec, list@)
                    &&& final(self).pending is Some
                    &&& final(self).answers@ == old(self).settled()
                },
                SetupStep::Skip(faults) => {
                    &&& old(self).position < old(self).entries@.len()
                    &&& final(self).position == old(self).position + 1
                    &&& faults@ == crate::layout::entry_faults(
                        old(self).entries@[old(self).position as int],
                    )
                    &&& faults@.len() > 0
                    &&& final(self).pending is None
                    &&& final(self).answers@ == old(self).settled().push(false)
                },
            },
            step is Done <==> old(self).position >= old(self).entries@.len(),
            old(self).position < old(self).entries@.len() ==> (step is Open <==> (old(
                self,
            ).entries@[old(self).position as int] matches SensorEntry::List(list)
                && list@[0] is Text && list@[1] is Integer && list@[2] is Text
                && list@[3] is Integer)),
            step matches SetupStep::Open(spec) ==> (old(self).entries@[old(
                self,
            ).position as int] matches SensorEntry::List(list) && ({
                &&& list@[0] matches Scalar::Text(port) && spec.port@ == port@
                &&& list@[1] matches Scalar::Integer(rate) && spec.baud_rate == rate as int
                    % 0x1_0000_0000
                &&& list@[2] matches Scalar::Text(name) && spec.name@ == name@
                &&& list@[3] matches Scalar::Integer(size) && spec.size == size as int % (usize::MAX
                    + 1)
                &&& final(self).pending matches Some(p) && p.name@ == spec.name@ && p.size
                    == spec.size
            })),
    {
        proof {
            let before = self.answers@;
            let settled = self.settled();
            assert(before.push(false).drop_last() =~= before);
            assert(settled.push(false).drop_last() =~= settled);
            assert(connected(self.entries@, settled) == connected(self.entries@, before));
            assert(connected(self.entries@, settled.push(false)) == connected(
                self.entries@,
                settled,
            ));
            self.answers@ = settled;
        }
        self.pending = None;
        if self.position == self.entries.len() {
            return SetupStep::Done;
        }
        proof {
            if let SensorEntry::List(list) = self.entries@[self.position as int] {
                crate::layout::faults_read(list);
            }
        }
        let read = read_entry(&self.entries[self.position]);
        self.position = self.position + 1;
        match read {
            Ok(spec) => {
                self.pending = Some(Pending { name: spec.name.clone(), size: spec.size });
                SetupStep::Open(spec)
            },
            Err(faults) => {
                proof {
                    self.answers@ = self.answers@.push(false);
                }
                SetupStep::Skip(faults)
            },
        }
    }

    /// Whether the buffer has room for the reading of the sensor whose port is being opened.
    pub fn has_room(&self) -> (r: bool)
        requires
            self.wf(),
        ensures
            r == match self.pending {
                Some(p) => self.table.total + p.size <= crate::layout::table_limit(),
                None => true,
            },
            self.pending matches Some(p) ==> r == (self.table.total + p.size <= isize::MAX as int / 2
                - 512),
    {
        match &self.pending {
            Some(p) => self.table.fits(p.size),
            None => true,
        }
    }

    /// Takes note of whether the port could be opened. If so the sensor joins the table, behind
    /// the others.
    pub fn opened(&mut self, success: bool)
        requires
            old(self).wf(),
            success ==> (old(self).pending matches Some(p) ==> old(self).table.total + p.size
                <= crate::layout::table_limit()),
        ensures
            final(self).wf(),
            final(self).entries == old(self).entries,
            final(self).position == old(self).position,
            final(self).pending is None,
            match old(self).pending {
                Some(p) => {
                    &&& final(self).answers@ == old(self).answers@.push(success)
                    &&& success ==> final(self).table.sensors@ == old(self).table.sensors@.push(
                        crate::layout::SensorSlice {
                            name: p.name,
                            offset: old(self).table.total,
                            size: p.size,
                        },
                    )
                    &&& success ==> final(self).table.total == old(self).table.total + p.size
                    &&& !success ==> final(self).table == old(self).table
                },
                None => final(self).answers == old(self).answers && final(self).table == old(
                    self,
                ).table,
            },
    {
        match self.pending.take() {
            Some(p) => {
                proof {
                    let before = self.answers@;
                    assert(before.push(success).drop_last() =~= before);
                    self.answers@ = before.push(success);
                }
                if success {
                    self.table.add(p.name, p.size);
                }
                proof {
                    if success {
                        assert(crate::layout::named_sizes(self.table.sensors@)
                            == crate::layout::named_sizes(old(self).table.sensors@).push(
                            (p.name@, p.size as int),
                        ));
                    }
                }
            },
            None => {},
        }
    }
}

/// A sensor gets connected exactly if its configuration lists a text, an integer, a text and an
/// integer, and its port could be opened; then it joins the others, behind them, under its name and
/// with its size. Any other changes nothing.
pub proof fn connecting_one_more_sensor(
    entries: Seq<SensorEntry>,
    answers: Seq<bool>,
    answer: bool,
)
    requires
        answers.len() < entries.len(),
    ensures
        connected(entries, Seq::empty()) == Seq::<(Seq<char>, int)>::empty(),
        connected(entries, answers.push(answer)) == match entries[answers.len() as int] {
            SensorEntry::List(list) => if answer && list@[0] is Text && list@[1] is Integer
                && list@[2] is Text && list@[3] is Integer {
                connected(entries, answers).push(
                    (list@[2]->Text_0@, list@[3]->Integer_0 as int % (usize::MAX + 1)),
                )
            } else {
                connected(entries, answers)
            },
            SensorEntry::Other => connected(entries, answers),
        },
{
    assert(answers.push(answer).drop_last() =~= answers);
    if let SensorEntry::List(list) = entries[answers.len() as int] {
        crate::layout::faults_read(list);
    }
}

/// Once every sensor has had its turn, the table holds exactly the sensors whose configuration
/// has no fault and whose port could be opened, in the order of the configuration, and their
/// parts follow each other in the buffer.
pub proof fn finished_setup_holds_the_connected_sensors(setup: Setup)
    requires
        setup.wf(),
        setup.position == setup.entries@.len(),
        setup.pending is None,
    ensures
        setup.answers@.len() == setup.entries@.len(),
        crate::layout::named_sizes(setup.table.sensors@) == connected(
            setup.entries@,
            setup.answers@,
        ),
        forall|i: int|
            0 <= i < setup.table.sensors@.len() ==> setup.table.sensors@[i].offset
                == #[trigger] crate::layout::size_sum(setup.table.sensors@, i),
{
}

} // verus!
