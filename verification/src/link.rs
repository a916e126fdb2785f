//! Websocket connections: who has connected, and what the sensors' connection delivers.
use bytes::Bytes;
use vstd::prelude::*;
use vstd::string::StringExecFns;

verus! {

/// The byte with which the first message of the sensors starts.
pub const SENSOR_GREETING: u8 = 83;

/// What was read from a websocket.
pub enum Incoming {
    /// A binary message.
    Binary(Bytes),
    /// A message of another kind.
    Other,
    /// Nothing: the reason is given.
    Failed(String),
}

/// Who has connected.
#[derive(Clone, Copy, PartialEq, Eq, Structural, Debug)]
pub enum Role {
    /// The sensors.
    Sensors,
    /// A client that the data is broadcast to.
    Client,
    /// Someone who did not introduce themselves with a binary message.
    Stranger,
    /// Nobody: the first message could not be read.
    Nobody,
}

/// Who has connected with this first message.
pub open spec fn role_of(first: Incoming) -> Role {
    match first {
        Incoming::Binary(data) => {
            let bytes = crate::packet::bytes_of(data);
            if bytes.len() > 0 && bytes[0] == SENSOR_GREETING {
                Role::Sensors
            } else {
                Role::Client
            }
        },
        Incoming::Other => Role::Stranger,
        Incoming::Failed(_) => Role::Nobody,
    }
}

/// Tells who has connected from the first message.
pub fn classify(first: &Incoming) -> (role: Role)
    ensures
        role == role_of(*first),
        role is Sensors <==> (first matches Incoming::Binary(data) && crate::packet::bytes_of(
            *data,
        ).len() > 0 && crate::packet::bytes_of(*data)[0] == 83),
        role is Client <==> (first matches Incoming::Binary(data) && !(crate::packet::bytes_of(
            *data,
        ).len() > 0 && crate::packet::bytes_of(*data)[0] == 83)),
        role is Stranger <==> first is Other,
        role is Nobody <==> first is Failed,
{
    match first {
        Incoming::Binary(data) => {
            let bytes: &[u8] = data;
            if bytes.len() > 0 && bytes[0] == SENSOR_GREETING {
                Role::Sensors
            } else {
                Role::Client
            }
        },
        Incoming::Other => Role::Stranger,
        Incoming::Failed(_) => Role::Nobody,
    }
}

/// Whether the sensors can be read.
#[derive(Clone, Copy, PartialEq, Eq, Structural, Debug)]
pub enum Gate {
    /// The sensors are not connected: there is nothing to do.
    Closed,
    /// The sensors count as connected, but there is no connection.
    Missing,
    /// The sensors can be read.
    Open,
}

/// The one place for a connection of the sensors.
pub struct SensorSlot<S> {
    pub socket: Option<S>,
    pub connected: bool,
}

/// What happens to the place for the sensors' connection.
pub enum SlotEvent<S> {
    /// A connection is offered.
    Offered(S),
    /// The connection was read.
    Received(Incoming),
}

/// What an event makes of the place for the sensors' connection: a connection is taken where there
/// is none, and given up when it cannot be read.
pub open spec fn after<S>(slot: SensorSlot<S>, event: SlotEvent<S>) -> SensorSlot<S> {
    match event {
        SlotEvent::Offered(socket) => if slot.socket is None {
            SensorSlot { socket: Some(socket), connected: true }
        } else {
            slot
        },
        SlotEvent::Received(Incoming::Failed(_)) => SensorSlot { socket: None, connected: false },
        SlotEvent::Received(_) => slot,
    }
}

/// What a series of events makes of the place for the sensors' connection.
pub open spec fn run<S>(slot: SensorSlot<S>, events: Seq<SlotEvent<S>>) -> SensorSlot<S>
    decreases events.len(),
{
    if events.len() == 0 {
        slot
    } else {
        after(run(slot, events.drop_last()), events.last())
    }
}

/// What the sensors' connection delivered with a message: the data, or why there is none.
pub open spec fn received(message: Incoming) -> Result<Bytes, Seq<char>> {
    match message {
        Incoming::Binary(data) => Ok(data),
        Incoming::Other => Err("Recieved unexpected message type from sensors."@),
        Incoming::Failed(reason) => Err("Sensors disconnected: "@ + reason@),
    }
}

/// Data, or the text that says why there is none.
pub open spec fn outcome_view(outcome: Result<Bytes, String>) -> Result<Bytes, Seq<char>> {
    match outcome {
        Ok(data) => Ok(data),
        Err(e) => Err(e@),
    }
}

impl<S> SensorSlot<S> {
    /// The sensors count as connected if and only if there is a connection.
    pub open spec fn wf(self) -> bool {
        self.connected <==> self.socket is Some
    }

    /// The sensors are not connected.
    pub fn new() -> (s: SensorSlot<S>)
        ensures
            s.wf(),
            s.socket is None,
            !s.connected,
    {
        SensorSlot { socket: None, connected: false }
    }

    /// Offers a connection of the sensors. It is taken if there is none yet, and else handed back.
    pub fn offer(&mut self, socket: S) -> (rejected: Option<S>)
        ensures
            *final(self) == after(*old(self), SlotEvent::Offered(socket)),
            old(self).socket is None ==> final(self).socket == Some(socket)
                && final(self).connected,
            old(self).socket is Some ==> *final(self) == *old(self),
            rejected == if old(self).socket is Some {
                Some(socket)
            } else {
                None
            },
    {
        if self.socket.is_some() {
            Some(socket)
        } else {
            self.socket = Some(socket);
            self.connected = true;
            None
        }
    }

    /// Whether the sensors can be read.
    pub fn gate(&self) -> (g: Gate)
        ensures
            g == if !self.connected {
                Gate::Closed
            } else if self.socket is None {
                Gate::Missing
            } else {
                Gate::Open
            },
            self.wf() ==> g != Gate::Missing,
    {
        if !self.connected {
            Gate::Closed
        } else if self.socket.is_none() {
            Gate::Missing
        } else {
            Gate::Open
        }
    }

    /// Takes what was read from the sensors. A connection that cannot be read is given up. Where
    /// there is no data the reason is returned.
    pub fn receive(&mut self, incoming: Incoming) -> (r: Result<Bytes, String>)
        ensures
            *final(self) == after(*old(self), SlotEvent::Received(incoming)),
            outcome_view(r) == received(incoming),
            incoming matches Incoming::Binary(data) ==> r == Ok::<Bytes, String>(data),
            incoming is Other ==> (r matches Err(e) && e@
                == "Recieved unexpected message type from sensors."@),
            incoming matches Incoming::Failed(reason) ==> (r matches Err(e) && e@
                == "Sensors disconnected: "@ + reason@),
            incoming is Failed ==> final(self).socket is None && !final(self).connected,
            !(incoming is Failed) ==> *final(self) == *old(self),
    {
        match incoming {
            Incoming::Binary(data) => Ok(data),
            Incoming::Other => Err("Recieved unexpected message type from sensors.".to_owned()),
            Incoming::Failed(reason) => {
                self.connected = false;
                self.socket = None;
                let mut e = "Sensors disconnected: ".to_owned();
                e.append(reason.as_str());
                Err(e)
            },
        }
    }
}

/// What becomes of a new connection.
pub enum Admission<S> {
    /// It is the connection of the sensors.
    Taken,
    /// The sensors are connected already: this is the connection to close.
    Rejected(S),
    /// It is the connection of a client.
    Client(S),
    /// It is dropped: it did not introduce itself.
    Stranger,
    /// It is dropped: its first message could not be read, for this reason.
    Failed(String),
}

/// What becomes of a new connection with this first message.
pub open spec fn admission<S>(slot: SensorSlot<S>, first: Incoming, socket: S) -> Admission<S> {
    match (role_of(first), first) {
        (Role::Sensors, _) => if slot.socket is None {
            Admission::Taken
        } else {
            Admission::Rejected(socket)
        },
        (Role::Client, _) => Admission::Client(socket),
        (_, Incoming::Failed(reason)) => Admission::Failed(reason),
        _ => Admission::Stranger,
    }
}

/// Finds the place of a new connection by its first message. The slot changes only where the
/// connection is taken.
pub fn welcome<S>(slot: &mut SensorSlot<S>, first: Incoming, socket: S) -> (a: Admission<S>)
    ensures
        a == admission(*old(slot), first, socket),
        a is Taken ==> *final(slot) == after(*old(slot), SlotEvent::Offered(socket)),
        a is Taken ==> final(slot).socket == Some(socket) && final(slot).connected,
        !(a is Taken) ==> *final(slot) == *old(slot),
        a is Taken <==> role_of(first) is Sensors && old(slot).socket is None,
        a is Rejected <==> role_of(first) is Sensors && old(slot).socket is Some,
        a is Client <==> role_of(first) is Client,
        a is Stranger <==> first is Other,
        a is Failed <==> first is Failed,
        first matches Incoming::Binary(data) ==> ({
            let bytes = crate::packet::bytes_of(data);
            let greets = bytes.len() > 0 && bytes[0] == 83;
            &&& greets && old(slot).socket is None ==> a is Taken && final(slot).socket == Some(
                socket,
            ) && final(slot).connected
            &&& greets && old(slot).socket is Some ==> a == Admission::Rejected(socket)
                && *final(slot) == *old(slot)
            &&& !greets ==> a == Admission::Client(socket) && *final(slot) == *old(slot)
        }),
        first is Other ==> a == Admission::<S>::Stranger,
        first matches Incoming::Failed(reason) ==> a == Admission::<S>::Failed(reason),
{
    let role = classify(&first);
    match (role, first) {
        (Role::Sensors, _) => match slot.offer(socket) {
            Some(rejected) => Admission::Rejected(rejected),
            None => Admission::Taken,
        },
        (Role::Client, _) => Admission::Client(socket),
        (_, Incoming::Failed(reason)) => Admission::Failed(reason),
        _ => Admission::Stranger,
    }
}

/// A connection is the sensors' exactly if its first message is binary, not empty and starts with
/// the letter S. With any other first byte, or none, a binary message makes it a client's. What
/// follows the first byte makes no difference.
pub proof fn first_byte_tells_the_sensors(data: Bytes, other: Bytes)
    ensures
        role_of(Incoming::Binary(data)) is Sensors <==> crate::packet::bytes_of(data).len() > 0
            && crate::packet::bytes_of(data)[0] == 83,
        role_of(Incoming::Binary(data)) is Client <==> crate::packet::bytes_of(data).len() == 0
            || crate::packet::bytes_of(data)[0] != 83,
        crate::packet::bytes_of(data).len() > 0 && crate::packet::bytes_of(other).len() > 0
            && crate::packet::bytes_of(data)[0] == crate::packet::bytes_of(other)[0] ==> role_of(
            Incoming::Binary(data),
        ) == role_of(Incoming::Binary(other)),
{
}

/// Only the sensors and the clients introduce themselves with a binary message.
pub proof fn other_messages_introduce_nobody(reason: String)
    ensures
        role_of(Incoming::Other) is Stranger,
        role_of(Incoming::Failed(reason)) is Nobody,
{
}

/// A new connection takes the place of the sensors exactly if it greets as they do and the place is
/// free. If it is not, the connection is turned away. Whoever does not greet so is a client.
pub proof fn place_of_a_new_connection<S>(slot: SensorSlot<S>, data: Bytes, socket: S)
    ensures
        ({
            let bytes = crate::packet::bytes_of(data);
            let greets = bytes.len() > 0 && bytes[0] == 83;
            let a = admission(slot, Incoming::Binary(data), socket);
            &&& a is Taken <==> greets && slot.socket is None
            &&& a == Admission::Rejected(socket) <==> greets && slot.socket is Some
            &&& a == Admission::Client(socket) <==> !greets
        }),
{
}

/// Whatever a binary message holds, and however much, receiving it gives exactly its bytes and
/// leaves the connection as it is. Only a failed read ends the connection.
pub proof fn every_binary_message_is_delivered<S>(
    slot: SensorSlot<S>,
    data: Bytes,
    reason: String,
    socket: S,
)
    ensures
        received(Incoming::Binary(data)) == Ok::<Bytes, Seq<char>>(data),
        received(Incoming::Other) is Err,
        received(Incoming::Failed(reason)) is Err,
        after(slot, SlotEvent::Received(Incoming::Binary(data))) == slot,
        after(slot, SlotEvent::Received(Incoming::Other)) == slot,
        after(slot, SlotEvent::Received(Incoming::Failed(reason))).socket is None,
        !after(slot, SlotEvent::Received(Incoming::Failed(reason))).connected,
        slot.socket is None ==> after(slot, SlotEvent::Offered(socket)).socket == Some(socket)
            && after(slot, SlotEvent::Offered(socket)).connected,
        slot.socket is Some ==> after(slot, SlotEvent::Offered(socket)) == slot,
{
}

/// One more event does to the place for the sensors' connection what `after` says, as `offer` and
/// `receive` do.
pub proof fn run_takes_one_more_event<S>(
    slot: SensorSlot<S>,
    events: Seq<SlotEvent<S>>,
    event: SlotEvent<S>,
)
    ensures
        run(slot, events.push(event)) == after(run(slot, events), event),
        run(slot, Seq::empty()) == slot,
{
    assert(events.push(event).drop_last() =~= events);
}

/// However connections are offered and read, the sensors count as connected if and only if there
/// is a connection: it never happens that they count as connected and cannot be read.
pub proof fn slot_stays_consistent<S>(slot: SensorSlot<S>, events: Seq<SlotEvent<S>>)
    requires
        slot.wf(),
    ensures
        run(slot, events).wf(),
    decreases events.len(),
{
    if events.len() > 0 {
        slot_stays_consistent(slot, events.drop_last());
    }
}

/// There is never more than one connection of the sensors: as long as the one that there is can be
/// read, it stays, and none that is offered takes its place.
pub proof fn first_connection_stays<S>(slot: SensorSlot<S>, events: Seq<SlotEvent<S>>)
    requires
        slot.wf(),
        slot.socket is Some,
        forall|k: int|
            0 <= k < events.len() ==> !((#[trigger] events[k]) matches SlotEvent::Received(
                Incoming::Failed(_),
            )),
    ensures
        run(slot, events) == slot,
    decreases events.len(),
{
    if events.len() > 0 {
        let init = events.drop_last();
        assert forall|k: int| 0 <= k < init.len() implies !((
        #[trigger] init[k]) matches SlotEvent::Received(Incoming::Failed(_))) by {
            assert(init[k] == events[k]);
        }
        first_connection_stays(slot, init);
        assert(!(events[events.len() - 1] matches SlotEvent::Received(Incoming::Failed(_))));
    }
}

/// Once the connection of the sensors is lost, the next one that is offered is taken.
pub proof fn lost_connection_makes_room<S>(slot: SensorSlot<S>, reason: String, next: S)
    ensures
        run(
            slot,
            seq![SlotEvent::Received(Incoming::Failed(reason)), SlotEvent::Offered(next)],
        ) == (SensorSlot { socket: Some(next), connected: true }),
{
    let events = seq![SlotEvent::Received(Incoming::Failed(reason)), SlotEvent::Offered(next)];
    assert(events.drop_last() == seq![events[0]]);
    assert(seq![events[0]].drop_last() == Seq::<SlotEvent<S>>::empty());
    assert(run(slot, seq![events[0]]) == after(slot, events[0])) by {
        reveal_with_fuel(run, 2);
    }
}

} // verus!
