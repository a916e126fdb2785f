//! The cycles. Each takes its data from the sensors, broadcasts it, stores it, is timed, and is
//! waited for until its deadline.
use crate::layout::SensorTable;
use crate::link::{Gate, Incoming, SensorSlot, SlotEvent};
use crate::pacing::{Pacer, TARGET_INTERVAL};
use crate::timing::{TimingLog, TimingReport};
use bytes::Bytes;
use vstd::prelude::*;
use vstd::string::StringExecFns;

verus! {

/// Where the data of the cycles comes from.
#[derive(Clone, Copy, PartialEq, Eq, Structural, Debug)]
pub enum Source {
    /// The serial sensors.
    Serial,
    /// The websocket connection of the sensors.
    Socket,
}

/// Serial sensors are read where there are any, and else the websocket.
pub fn source(table: &SensorTable) -> (s: Source)
    ensures
        s == if table.sensors@.len() > 0 {
            Source::Serial
        } else {
            Source::Socket
        },
{
    if table.sensors.len() > 0 {
        Source::Serial
    } else {
        Source::Socket
    }
}

/// What is to be done next.
#[derive(Clone, Copy, PartialEq, Eq, Structural, Debug)]
pub enum CycleStage {
    /// Start a cycle.
    Begin,
    /// Collect from the serial sensors, or find out whether the websocket can be read.
    Acquire,
    /// Read the websocket.
    Receive,
    /// Send the data to every client.
    Broadcast,
    /// Store the data.
    Store,
    /// Take the time of the cycle.
    Time,
    /// Find out how to wait for the deadline.
    Pace,
    /// Stay awake until the deadline.
    Spin,
}

/// What the cycles have done so far.
pub struct History {
    /// What was read from the websocket.
    pub messages: Seq<Incoming>,
    /// The data that was acquired.
    pub received: Seq<Seq<u8>>,
    /// The data that was handed out to be broadcast.
    pub broadcast: Seq<Seq<u8>>,
    /// The data that was handed out to be stored.
    pub stored: Seq<Seq<u8>>,
    /// When the first cycle was due.
    pub first: u64,
    /// When the work of each cycle was done.
    pub works: Seq<u64>,
    /// When each cycle ended.
    pub ends: Seq<u64>,
}

/// The data of the binary messages, in order.
pub open spec fn payloads(messages: Seq<Incoming>) -> Seq<Seq<u8>>
    decreases messages.len(),
{
    if messages.len() == 0 {
        Seq::empty()
    } else {
        let before = payloads(messages.drop_last());
        match messages.last() {
            Incoming::Binary(data) => before.push(crate::packet::bytes_of(data)),
            _ => before,
        }
    }
}

/// The cycles: what is to be done next, and what that takes.
pub struct Cycle {
    pub source: Source,
    pub stage: CycleStage,
    /// The data on its way to the clients and the store.
    pub payload: Option<Bytes>,
    /// When the cycle started.
    pub started: u64,
    pub pacer: Pacer,
    /// The deadline that is waited for.
    pub until: u128,
    /// The times of the cycles, where they are taken.
    pub timing: Option<TimingLog>,
    pub history: Ghost<History>,
}

/// What follows once the data of a cycle has been seen to.
pub open spec fn after_delivery(timing: Option<TimingLog>) -> CycleStage {
    if timing is Some {
        CycleStage::Time
    } else {
        CycleStage::Pace
    }
}

/// What is said where a cycle got no data.
pub open spec fn failure_text(reason: Seq<char>) -> Seq<char> {
    "Failed to recieve data: "@ + reason
}

fn failure_message(reason: &str) -> (m: String)
    ensures
        m@ == failure_text(reason@),
{
    let mut m = "Failed to recieve data: ".to_owned();
    m.append(reason);
    m
}

/// What acquiring `outcome` makes of a cycle. Data is next broadcast. Without data there is nothing
/// to broadcast or store, and the reason is given.
pub open spec fn acquires(
    before: Cycle,
    messages: Seq<Incoming>,
    outcome: Result<Bytes, Seq<char>>,
    after: Cycle,
    said: Option<String>,
) -> bool {
    match outcome {
        Ok(data) => {
            let received = before.history@.received.push(crate::packet::bytes_of(data));
            &&& after == Cycle {
                stage: CycleStage::Broadcast,
                payload: Some(data),
                history: Ghost(History { messages, received, ..before.history@ }),
                ..before
            }
            &&& said is None
        },
        Err(reason) => {
            &&& after == Cycle {
                stage: after_delivery(before.timing),
                history: Ghost(History { messages, ..before.history@ }),
                ..before
            }
            &&& said matches Some(m) && m@ == failure_text(reason)
        },
    }
}

impl Cycle {
    /// What is stored is what was broadcast, in the same order and never ahead of it; what is
    /// broadcast is what was acquired, and so from the websocket what the binary messages held.
    pub open spec fn delivers_in_order(self) -> bool {
        let h = self.history@;
        &&& match (self.stage, self.payload) {
            (CycleStage::Broadcast, Some(data)) => {
                &&& h.received == h.broadcast.push(crate::packet::bytes_of(data))
                &&& h.broadcast == h.stored
            },
            (CycleStage::Broadcast, None) => false,
            (CycleStage::Store, Some(data)) => {
                &&& h.received == h.broadcast
                &&& h.broadcast == h.stored.push(crate::packet::bytes_of(data))
            },
            (CycleStage::Store, None) => false,
            _ => h.received == h.broadcast && h.broadcast == h.stored,
        }
        &&& self.source is Socket ==> h.received == payloads(h.messages)
    }

    /// The deadlines follow from when the work was done, and no cycle ended before its deadline.
    pub open spec fn keeps_time(self) -> bool {
        let h = self.history@;
        let n = h.works.len() as int;
        &&& h.ends.len() == if self.stage is Spin {
            n - 1
        } else {
            n
        }
        &&& self.pacer.due == if n == 0 {
            h.first as int
        } else {
            crate::pacing::deadline(h.first as int, h.works, n - 1) + TARGET_INTERVAL
        }
        &&& self.stage is Spin ==> self.pacer.due == self.until + TARGET_INTERVAL
        &&& self.pacer.due <= u64::MAX + if self.stage is Spin {
            3 * TARGET_INTERVAL
        } else {
            TARGET_INTERVAL as int
        }
        &&& forall|i: int|
            0 <= i < h.ends.len() ==> (#[trigger] h.ends[i]) >= crate::pacing::deadline(
                h.first as int,
                h.works,
                i,
            )
    }

    /// The cycles have gone on as they should.
    pub open spec fn wf(self) -> bool {
        &&& self.delivers_in_order()
        &&& self.keeps_time()
        &&& self.stage is Time ==> self.timing is Some
        &&& self.stage is Receive ==> self.source is Socket
    }

    /// No cycle has started. The first is due now.
    pub fn new(source: Source, timing: Option<TimingLog>, now: u64) -> (c: Cycle)
        ensures
            c.wf(),
            c.source == source,
            c.stage == CycleStage::Begin,
            c.timing == timing,
            c.pacer.due == now,
            c.history@ == (History {
                messages: Seq::empty(),
                received: Seq::empty(),
                broadcast: Seq::empty(),
                stored: Seq::empty(),
                first: now,
                works: Seq::empty(),
                ends: Seq::empty(),
            }),
    {
        let history = Ghost(
            History {
                messages: Seq::empty(),
                received: Seq::empty(),
                broadcast: Seq::empty(),
                stored: Seq::empty(),
                first: now,
                works: Seq::empty(),
                ends: Seq::empty(),
            },
        );
        Cycle {
            source,
            stage: CycleStage::Begin,
            payload: None,
            started: now,
            pacer: Pacer::new(now),
            until: now as u128,
            timing,
            history,
        }
    }

    /// Starts a cycle.
    pub fn begin(&mut self, now: u64)
        requires
            old(self).wf(),
            old(self).stage is Begin,
        ensures
            final(self).wf(),
            *final(self) == (Cycle { stage: CycleStage::Acquire, started: now, ..*old(self) }),
    {
        self.started = now;
        self.stage = CycleStage::Acquire;
    }

    fn take_outcome(&mut self, outcome: Result<Bytes, String>) -> (said: Option<String>)
        ensures
            acquires(
                *old(self),
                old(self).history@.messages,
                crate::link::outcome_view(outcome),
                *final(self),
                said,
            ),
    {
        match outcome {
            Ok(data) => {
                proof {
                    let received = self.history@.received.push(crate::packet::bytes_of(data));
                    self.history@ = History { received, ..self.history@ };
                }
                self.payload = Some(data);
                self.stage = CycleStage::Broadcast;
                None
            },
            Err(e) => {
                self.stage = if self.timing.is_some() {
                    CycleStage::Time
                } else {
                    CycleStage::Pace
                };
                Some(failure_message(e.as_str()))
            },
        }
    }

    /// Takes what was collected from the serial sensors.
    pub fn collected(&mut self, outcome: Result<Bytes, String>) -> (said: Option<String>)
        requires
            old(self).wf(),
            old(self).stage is Acquire,
            old(self).source is Serial,
        ensures
            final(self).wf(),
            acquires(
                *old(self),
                old(self).history@.messages,
                crate::link::outcome_view(outcome),
                *final(self),
                said,
            ),
            final(self).source == old(self).source,
            final(self).started == old(self).started,
            final(self).pacer == old(self).pacer,
            final(self).until == old(self).until,
            final(self).timing == old(self).timing,
            outcome matches Ok(data) ==> {
                &&& final(self).stage == CycleStage::Broadcast
                &&& final(self).payload == Some(data)
                &&& final(self).history@.received == old(self).history@.received.push(
                    crate::packet::bytes_of(data),
                )
                &&& said is None
            },
            outcome matches Err(e) ==> {
                &&& final(self).stage == if old(self).timing is Some {
                    CycleStage::Time
                } else {
                    CycleStage::Pace
                }
                &&& final(self).history@.received == old(self).history@.received
                &&& said matches Some(m) && m@ == "Failed to recieve data: "@ + e@
            },
            final(self).history@.messages == old(self).history@.messages,
            final(self).history@.broadcast == old(self).history@.broadcast,
            final(self).history@.stored == old(self).history@.stored,
    {
        self.take_outcome(outcome)
    }

    /// Finds out whether the websocket can be read. Where the sensors are not connected the cycle
    /// starts over at once: it is neither timed nor waited for.
    pub fn approach(&mut self, gate: Gate) -> (said: Option<String>)
        requires
            old(self).wf(),
            old(self).stage is Acquire,
            old(self).source is Socket,
        ensures
            final(self).wf(),
            match gate {
                Gate::Closed => {
                    &&& *final(self) == (Cycle { stage: CycleStage::Begin, ..*old(self) })
                    &&& said is None
                },
                Gate::Missing => acquires(
                    *old(self),
                    old(self).history@.messages,
                    Err("Expected socket connection is missing"@),
                    *final(self),
                    said,
                ),
                Gate::Open => {
                    &&& *final(self) == (Cycle { stage: CycleStage::Receive, ..*old(self) })
                    &&& said is None
                },
            },
            final(self).source == old(self).source,
            final(self).started == old(self).started,
            final(self).pacer == old(self).pacer,
            final(self).until == old(self).until,
            final(self).timing == old(self).timing,
            final(self).payload == old(self).payload,
            final(self).history@ == old(self).history@,
            gate is Closed ==> final(self).stage == CycleStage::Begin && said is None,
            gate is Open ==> final(self).stage == CycleStage::Receive && said is None,
            gate is Missing ==> {
                &&& final(self).stage == if old(self).timing is Some {
                    CycleStage::Time
                } else {
                    CycleStage::Pace
                }
                &&& said matches Some(m) && m@ == "Failed to recieve data: "@
                    + "Expected socket connection is missing"@
            },
    {
        match gate {
            Gate::Closed => {
                self.stage = CycleStage::Begin;
                None
            },
            Gate::Missing => self.take_outcome(
                Err("Expected socket connection is missing".to_owned()),
            ),
            Gate::Open => {
                self.stage = CycleStage::Receive;
                None
            },
        }
    }

    /// Takes what was read from the websocket. The data of a binary message is next broadcast; any
    /// other message brings none, and a connection that cannot be read is given up.
    pub fn receive<S>(&mut self, slot: &mut SensorSlot<S>, message: Incoming) -> (said: Option<
        String,
    >)
        requires
            old(self).wf(),
            old(self).stage is Receive,
        ensures
            final(self).wf(),
            *final(slot) == crate::link::after(*old(slot), SlotEvent::Received(message)),
            acquires(
                *old(self),
                old(self).history@.messages.push(message),
                crate::link::received(message),
                *final(self),
                said,
            ),
            final(self).source == old(self).source,
            final(self).started == old(self).started,
            final(self).pacer == old(self).pacer,
            final(self).until == old(self).until,
            final(self).timing == old(self).timing,
            message matches Incoming::Binary(data) ==> {
                &&& final(self).stage == CycleStage::Broadcast
                &&& final(self).payload == Some(data)
                &&& final(self).history@.received == old(self).history@.received.push(
                    crate::packet::bytes_of(data),
                )
                &&& said is None
                &&& *final(slot) == *old(slot)
            },
            !(message is Binary) ==> {
                &&& final(self).stage == if old(self).timing is Some {
                    CycleStage::Time
                } else {
                    CycleStage::Pace
                }
                &&& final(self).history@.received == old(self).history@.received
            },
            message is Other ==> (said matches Some(m) && m@ == "Failed to recieve data: "@
                + "Recieved unexpected message type from sensors."@) && *final(slot) == *old(slot),
            message matches Incoming::Failed(reason) ==> (said matches Some(m) && m@
                == "Failed to recieve data: "@ + ("Sensors disconnected: "@ + reason@)),
            message is Failed ==> final(slot).socket is None && !final(slot).connected,
            final(self).history@.messages == old(self).history@.messages.push(message),
            final(self).history@.broadcast == old(self).history@.broadcast,
            final(self).history@.stored == old(self).history@.stored,
    {
        let ghost before = self.history@.messages;
        proof {
            assert(before.push(message).drop_last() =~= before);
            self.history@ = History { messages: before.push(message), ..self.history@ };
        }
        let outcome = slot.receive(message);
        self.take_outcome(outcome)
    }

    /// The data to send to every client. It is handed out once, before it is handed out to be
    /// stored.
    pub fn broadcast(&mut self) -> (data: Bytes)
        requires
            old(self).wf(),
            old(self).stage is Broadcast,
        ensures
            final(self).wf(),
            old(self).payload matches Some(payload) && crate::packet::bytes_of(data)
                == crate::packet::bytes_of(payload),
            final(self).history@ == (History {
                broadcast: old(self).history@.broadcast.push(crate::packet::bytes_of(data)),
                ..old(self).history@
            }),
            *final(self) == (Cycle {
                stage: CycleStage::Store,
                history: final(self).history,
                ..*old(self)
            }),
    {
        let data = self.payload.as_ref().unwrap().clone();
        proof {
            let broadcast = self.history@.broadcast.push(crate::packet::bytes_of(data));
            self.history@ = History { broadcast, ..self.history@ };
        }
        self.stage = CycleStage::Store;
        data
    }

    /// The data to store, which has been broadcast. It is handed out once.
    pub fn store(&mut self) -> (data: Bytes)
        requires
            old(self).wf(),
            old(self).stage is Store,
        ensures
            final(self).wf(),
            old(self).payload == Some(data),
            final(self).stage == if old(self).timing is Some {
                CycleStage::Time
            } else {
                CycleStage::Pace
            },
            final(self).history@ == (History {
                stored: old(self).history@.stored.push(crate::packet::bytes_of(data)),
                ..old(self).history@
            }),
            *final(self) == (Cycle {
                stage: after_delivery(old(self).timing),
                payload: None,
                history: final(self).history,
                ..*old(self)
            }),
    {
        let data = self.payload.take().unwrap();
        proof {
            let stored = self.history@.stored.push(crate::packet::bytes_of(data));
            self.history@ = History { stored, ..self.history@ };
        }
        self.stage = if self.timing.is_some() {
            CycleStage::Time
        } else {
            CycleStage::Pace
        };
        data
    }

    /// Takes the time of the cycle, from its start until now. With the last cycle of a summary the
    /// summary is returned.
    pub fn time(&mut self, now: u64) -> (r: Option<TimingReport>)
        requires
            old(self).wf(),
            old(self).stage is Time,
            old(self).timing matches Some(timing) && timing.interval > 0,
        ensures
            final(self).wf(),
            *final(self) == (Cycle {
                stage: CycleStage::Pace,
                timing: final(self).timing,
                ..*old(self)
            }),
            old(self).timing matches Some(before) && final(self).timing matches Some(after)
                && crate::timing::takes_note(
                before,
                if now > old(self).started {
                    (now - old(self).started) as u64
                } else {
                    0
                },
                after,
                r,
            ),
            old(self).timing matches Some(before) && final(self).timing matches Some(after) && ({
                let elapsed: int = if now > old(self).started {
                    now - old(self).started
                } else {
                    0
                };
                &&& after.interval == before.interval
                &&& before.samples@.len() + 1 < before.interval ==> r is None && after.samples@
                    == before.samples@.push(elapsed as u64)
                &&& before.samples@.len() + 1 >= before.interval ==> r is Some
                    && after.samples@.len() == 0
            }),
    {
        let elapsed: u64 = if now > self.started {
            now - self.started
        } else {
            0
        };
        self.stage = CycleStage::Pace;
        match self.timing.take() {
            Some(mut timing) => {
                let r = timing.record(elapsed);
                self.timing = Some(timing);
                r
            },
            None => None,
        }
    }

    /// The work of the cycle is done: sets its deadline, and returns how long to sleep, if at all,
    /// before staying awake until then.
    pub fn pace(&mut self, now: u64) -> (sleep: Option<u128>)
        requires
            old(self).wf(),
            old(self).stage is Pace,
        ensures
            final(self).wf(),
            crate::pacing::sleep_of(now as int, old(self).pacer.due as int) == match sleep {
                Some(nanos) => Some(nanos as int),
                None => None,
            },
            final(self).until == crate::pacing::deadline_of(
                now as int,
                old(self).pacer.due as int,
            ),
            now >= old(self).pacer.due ==> final(self).until == now + 10_000_000 && sleep is None,
            now < old(self).pacer.due ==> final(self).until == old(self).pacer.due,
            now < old(self).pacer.due ==> sleep == if now + 500_000 < old(self).pacer.due {
                Some((old(self).pacer.due - 500_000 - now) as u128)
            } else {
                None
            },
            final(self).pacer.due == final(self).until + 10_000_000,
            final(self).history@ == (History {
                works: old(self).history@.works.push(now),
                ..old(self).history@
            }),
            final(self).until == crate::pacing::deadline(
                final(self).history@.first as int,
                final(self).history@.works,
                old(self).history@.works.len() as int,
            ),
            *final(self) == (Cycle {
                stage: CycleStage::Spin,
                until: final(self).until,
                pacer: final(self).pacer,
                history: final(self).history,
                ..*old(self)
            }),
    {
        let wait = self.pacer.wait(now);
        self.until = wait.until;
        self.stage = CycleStage::Spin;
        proof {
            let first = self.history@.first as int;
            let before = self.history@.works;
            let works = before.push(now);
            let n = before.len() as int;
            assert forall|i: int| 0 <= i < n implies #[trigger] crate::pacing::deadline(
                first,
                works,
                i,
            ) == crate::pacing::deadline(first, before, i) by {
                crate::pacing::deadline_depends_on_the_past(first, works, before, i);
            }
            if n > 0 {
                assert(crate::pacing::deadline(first, works, n - 1) == crate::pacing::deadline(
                    first,
                    before,
                    n - 1,
                ));
            }
            assert(works[n] == now);
            self.history@ = History { works, ..self.history@ };
        }
        wait.sleep
    }

    /// Whether the cycle is over, which it is once its deadline has come. Then another can start.
    pub fn spin(&mut self, now: u64) -> (over: bool)
        requires
            old(self).wf(),
            old(self).stage is Spin,
        ensures
            final(self).wf(),
            over == (now >= old(self).until),
            over ==> final(self).history@ == (History {
                ends: old(self).history@.ends.push(now),
                ..old(self).history@
            }) && *final(self) == (Cycle {
                stage: CycleStage::Begin,
                history: final(self).history,
                ..*old(self)
            }),
            !over ==> *final(self) == *old(self),
    {
        if (now as u128) < self.until {
            return false;
        }
        proof {
            let ends = self.history@.ends.push(now);
            self.history@ = History { ends, ..self.history@ };
        }
        self.stage = CycleStage::Begin;
        true
    }
}

/// Every binary message brings exactly its bytes, whatever it holds; no other message brings
/// anything.
pub proof fn every_binary_message_is_a_payload(
    messages: Seq<Incoming>,
    data: Bytes,
    reason: String,
)
    ensures
        payloads(Seq::empty()) == Seq::<Seq<u8>>::empty(),
        payloads(messages.push(Incoming::Binary(data))) == payloads(messages).push(
            crate::packet::bytes_of(data),
        ),
        payloads(messages.push(Incoming::Other)) == payloads(messages),
        payloads(messages.push(Incoming::Failed(reason))) == payloads(messages),
{
    assert(messages.push(Incoming::Binary(data)).drop_last() =~= messages);
    assert(messages.push(Incoming::Other).drop_last() =~= messages);
    assert(messages.push(Incoming::Failed(reason)).drop_last() =~= messages);
}

/// There are as many payloads as there are binary messages.
pub proof fn payloads_count_the_binary_messages(messages: Seq<Incoming>)
    ensures
        payloads(messages).len() == messages.filter(|m: Incoming| m is Binary).len(),
    decreases messages.len(),
{
    reveal(Seq::filter);
    if messages.len() > 0 {
        payloads_count_the_binary_messages(messages.drop_last());
    }
}

/// Forwarding keeps everything in order: at every moment what was stored is the beginning of what
/// was broadcast, and that the beginning of what was acquired, at most one payload behind. Between
/// two cycles they are the same, so every payload goes out once and unchanged. From the websocket
/// it is what the binary messages of the sensors held: other messages lead to none.
pub proof fn payloads_go_out_once_and_in_order(cycle: Cycle)
    requires
        cycle.wf(),
    ensures
        cycle.history@.stored.is_prefix_of(cycle.history@.broadcast),
        cycle.history@.broadcast.is_prefix_of(cycle.history@.received),
        cycle.history@.received.len() <= cycle.history@.stored.len() + 1,
        cycle.source is Socket ==> cycle.history@.received == payloads(cycle.history@.messages),
        cycle.stage is Begin ==> {
            &&& cycle.history@.broadcast == cycle.history@.received
            &&& cycle.history@.stored == cycle.history@.received
        },
{
}

/// No cycle ends before its deadline. The first deadline is an interval after the work of the first
/// cycle was done. Each other is an interval after the one before, or, where the work was not done
/// by then, an interval after the work was done. Cycles that start over do not count.
pub proof fn cycles_end_at_their_deadlines(cycle: Cycle, i: int)
    requires
        cycle.wf(),
        0 <= i < cycle.history@.ends.len(),
    ensures
        ({
            let h = cycle.history@;
            let d = |k: int| crate::pacing::deadline(h.first as int, h.works, k);
            &&& h.ends[i] >= d(i)
            &&& h.works[0] >= h.first ==> d(0) == h.works[0] + TARGET_INTERVAL
            &&& i > 0 && h.works[i] < d(i - 1) + TARGET_INTERVAL ==> d(i) == d(i - 1)
                + TARGET_INTERVAL
            &&& i > 0 && h.works[i] >= d(i - 1) + TARGET_INTERVAL ==> d(i) == h.works[i]
                + TARGET_INTERVAL
        }),
{
}

} // verus!
