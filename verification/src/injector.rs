//! The protocol that types a payload into one device.
//!
//! The injector decides; its caller acts. The caller asks for the pending
//! [`Action`], performs it against the operating system, and reports what
//! happened as an [`Event`]. One injector serves one device and holds no
//! state beyond it, so a failure on one device leaves every other untouched.

use crate::encoding::nul_free;
use crate::error::Error;
use crate::payload::Payload;
use vstd::prelude::*;

verus! {

/// Where an injection stands. An opened device is `Writing` from its first
/// byte on, or `Done` at once if there is nothing to type.
#[derive(Clone, Copy, Debug, PartialEq, Eq, Structural)]
pub enum Phase {
    /// The device has not been opened yet.
    NotOpened,
    /// The device is open and a byte is waiting to be inserted.
    Writing,
    /// Every byte has been inserted.
    Done,
    /// The injection was given up for the reason held; nothing more is written.
    Failed(Error),
}

/// What the operating system answered to the pending action.
#[derive(Clone, Copy, Debug, PartialEq, Eq, Structural)]
pub enum Event {
    /// The device was opened for writing.
    Opened,
    /// The device could not be opened.
    OpenFailed,
    /// The byte was inserted into the input queue.
    Inserted,
    /// The insert operation failed with the error number held.
    InsertFailed(i32),
}

/// What the caller is to do next.
#[derive(Clone, Copy, Debug, PartialEq, Eq)]
pub enum Action {
    /// Open the device for writing only.
    Open,
    /// Insert the byte held into the input queue of the opened device.
    Insert(u8),
    /// Stop: the injection has ended with the outcome held.
    Finish(Result<(), Error>),
}

/// The mathematical model of an injector: the payload it types, the phase it
/// is in, and how many bytes have reached the input queue.
pub struct Machine {
    pub payload: Seq<u8>,
    pub phase: Phase,
    pub written: nat,
}

impl Machine {
    /// The machine before anything has happened.
    pub open spec fn initial(payload: Seq<u8>) -> Machine {
        Machine { payload, phase: Phase::NotOpened, written: 0 }
    }

    /// The count of written bytes fits the phase, and a failure is one that
    /// opening or inserting can end in.
    pub open spec fn wf(self) -> bool {
        &&& nul_free(self.payload)
        &&& self.written <= self.payload.len()
        &&& match self.phase {
            Phase::NotOpened => self.written == 0,
            Phase::Writing => self.written < self.payload.len(),
            Phase::Done => self.written == self.payload.len(),
            Phase::Failed(e) => {
                &&& e != Error::InvalidPayload
                &&& e == Error::IOError ==> self.written == 0
                &&& e != Error::IOError ==> self.written < self.payload.len()
            },
        }
    }

    /// The machine with `count` bytes written: still writing while bytes
    /// remain, done when none does.
    pub open spec fn at(self, count: nat) -> Machine {
        Machine {
            payload: self.payload,
            phase: if count < self.payload.len() {
                Phase::Writing
            } else {
                Phase::Done
            },
            written: count,
        }
    }

    /// The machine given up for `reason`.
    pub open spec fn failed(self, reason: Error) -> Machine {
        Machine { payload: self.payload, phase: Phase::Failed(reason), written: self.written }
    }

    /// Whether the injection has ended, and how.
    pub open spec fn outcome(self) -> Option<Result<(), Error>> {
        match self.phase {
            Phase::Done => Some(Ok(())),
            Phase::Failed(e) => Some(Err(e)),
            _ => None,
        }
    }

    /// The pending action.
    pub open spec fn action(self) -> Action {
        match self.phase {
            Phase::NotOpened => Action::Open,
            Phase::Writing => Action::Insert(self.payload[self.written as int]),
            Phase::Done => Action::Finish(Ok(())),
            Phase::Failed(e) => Action::Finish(Err(e)),
        }
    }

    /// Whether `event` answers the pending action.
    pub open spec fn accepts(self, event: Event) -> bool {
        match self.phase {
            Phase::NotOpened => event == Event::Opened || event == Event::OpenFailed,
            Phase::Writing => event == Event::Inserted || event is InsertFailed,
            _ => false,
        }
    }

    /// The machine after `event`. An event that does not answer the pending
    /// action changes nothing.
    pub open spec fn next(self, event: Event) -> Machine {
        match (self.phase, event) {
            (Phase::NotOpened, Event::Opened) => self.at(0),
            (Phase::NotOpened, Event::OpenFailed) => self.failed(Error::IOError),
            (Phase::Writing, Event::Inserted) => self.at(self.written + 1),
            (Phase::Writing, Event::InsertFailed(code)) => self.failed(Error::of_errno(code)),
            _ => self,
        }
    }

    /// The machine after a sequence of events, taken in order.
    pub open spec fn run(self, events: Seq<Event>) -> Machine
        decreases events.len(),
    {
        if events.len() == 0 {
            self
        } else {
            self.run(events.drop_last()).next(events.last())
        }
    }

    /// The bytes that have reached the input queue so far.
    pub open spec fn typed(self) -> Seq<u8> {
        self.payload.take(self.written as int)
    }

    /// The events of an injection in which nothing fails: the device opens,
    /// and each of `count` bytes is inserted.
    pub open spec fn unfailing(count: nat) -> Seq<Event> {
        seq![Event::Opened] + Seq::new(count, |i: int| Event::Inserted)
    }

    /// Every event leaves a well-formed machine well-formed and its payload
    /// as it was.
    pub proof fn lemma_next_wf(self, event: Event)
        requires
            self.wf(),
        ensures
            self.next(event).wf(),
            self.next(event).payload == self.payload,
    {
    }

    /// Bytes are typed in payload order, one per event at most: an event types
    /// a byte only if it confirms the pending insertion, and then it is the
    /// byte of that action, the next of the payload.
    pub proof fn lemma_next_typed(self, event: Event)
        requires
            self.wf(),
        ensures
            self.phase == Phase::Writing && event == Event::Inserted ==> {
                &&& self.action() == Action::Insert(self.payload[self.written as int])
                &&& self.next(event).typed() == self.typed().push(self.payload[self.written as int])
            },
            !(self.phase == Phase::Writing && event == Event::Inserted) ==> self.next(
                event,
            ).typed() == self.typed(),
    {
        if self.phase == Phase::Writing && event == Event::Inserted {
            assert(self.payload.take(self.written as int + 1) =~= self.payload.take(
                self.written as int,
            ).push(self.payload[self.written as int]));
        }
    }

    /// An injection that has ended stays as it is, whatever is reported to it.
    pub proof fn lemma_ended_stays(self, events: Seq<Event>)
        requires
            self.outcome() is Some,
        ensures
            self.run(events) == self,
        decreases events.len(),
    {
        if events.len() > 0 {
            self.lemma_ended_stays(events.drop_last());
        }
    }

    /// Whatever is reported, what has been typed stays typed, and what is
    /// typed is a prefix of the payload: nothing is typed out of order, and
    /// nothing beyond the payload.
    pub proof fn lemma_run_typed(self, events: Seq<Event>)
        requires
            self.wf(),
        ensures
            self.run(events).wf(),
            self.run(events).payload == self.payload,
            self.typed().is_prefix_of(self.run(events).typed()),
            self.run(events).typed().is_prefix_of(self.payload),
        decreases events.len(),
    {
        if events.len() > 0 {
            let before = self.run(events.drop_last());
            self.lemma_run_typed(events.drop_last());
            before.lemma_next_wf(events.last());
            before.lemma_next_typed(events.last());
        }
    }

    /// Once the device has opened and `count` bytes have been inserted, the
    /// machine stands at `count`: writing while bytes remain, done when the
    /// whole payload is typed.
    pub proof fn lemma_unfailing(payload: Seq<u8>, count: nat)
        requires
            count <= payload.len(),
        ensures
            Machine::initial(payload).run(Machine::unfailing(count)) == Machine::initial(
                payload,
            ).at(count),
            Machine::initial(payload).run(Machine::unfailing(count)).typed() == payload.take(
                count as int,
            ),
        decreases count,
    {
        let start = Machine::initial(payload);
        let events = Machine::unfailing(count);
        if count == 0 {
            assert(events.drop_last() =~= Seq::<Event>::empty());
            assert(start.run(events.drop_last()) == start);
        } else {
            Machine::lemma_unfailing(payload, (count - 1) as nat);
            assert(events.drop_last() =~= Machine::unfailing((count - 1) as nat));
            assert(events.last() == Event::Inserted);
        }
    }

    /// An injection in which nothing fails ends in success with the whole
    /// payload typed.
    pub proof fn lemma_unfailing_ends_done(payload: Seq<u8>)
        ensures
            Machine::initial(payload).run(Machine::unfailing(payload.len())).outcome() == Some(
                Ok::<(), Error>(()),
            ),
            Machine::initial(payload).run(Machine::unfailing(payload.len())).typed() == payload,
    {
        Machine::lemma_unfailing(payload, payload.len());
        assert(payload.take(payload.len() as int) =~= payload);
    }

    /// A device that cannot be opened fails the injection with `IOError`,
    /// and nothing is typed.
    pub proof fn lemma_open_failure(payload: Seq<u8>)
        ensures
            Machine::initial(payload).next(Event::OpenFailed).outcome() == Some(
                Err::<(), Error>(Error::IOError),
            ),
            Machine::initial(payload).next(Event::OpenFailed).typed() == Seq::<u8>::empty(),
    {
        assert(payload.take(0) =~= Seq::<u8>::empty());
    }

    /// An insertion that fails after `count` bytes ends the injection with the
    /// outcome that its error number stands for, and leaves exactly those
    /// `count` bytes typed.
    pub proof fn lemma_insert_failure(payload: Seq<u8>, count: nat, code: i32)
        requires
            count < payload.len(),
        ensures
            Machine::initial(payload).run(
                Machine::unfailing(count).push(Event::InsertFailed(code)),
            ).outcome() == Some(Err::<(), Error>(Error::of_errno(code))),
            Machine::initial(payload).run(
                Machine::unfailing(count).push(Event::InsertFailed(code)),
            ).typed() == payload.take(count as int),
    {
        let events = Machine::unfailing(count).push(Event::InsertFailed(code));
        Machine::lemma_unfailing(payload, count);
        assert(events.drop_last() =~= Machine::unfailing(count));
        assert(events.last() == Event::InsertFailed(code));
    }

    /// Typing is not idempotent. An injector keeps no memory of earlier
    /// injections, so a second unfailing injection of a payload puts its bytes
    /// into the input queue once more, behind those of the first.
    pub proof fn lemma_repeat_types_again(payload: Seq<u8>, queue: Seq<u8>)
        requires
            payload.len() > 0,
        ensures
            ({
                let typed = Machine::initial(payload).run(
                    Machine::unfailing(payload.len()),
                ).typed();
                let once = queue + typed;
                let twice = once + typed;
                &&& once == queue + payload
                &&& twice == queue + payload + payload
                &&& twice != once
            }),
    {
        Machine::lemma_unfailing_ends_done(payload);
        assert((queue + payload + payload).len() != (queue + payload).len());
    }
}

/// The injector for one device.
pub struct Injector<'a> {
    payload: &'a Payload,
    phase: Phase,
    written: usize,
}

impl<'a> View for Injector<'a> {
    type V = Machine;

    closed spec fn view(&self) -> Machine {
        Machine { payload: self.payload@, phase: self.phase, written: self.written as nat }
    }
}

impl<'a> Injector<'a> {
    #[verifier::type_invariant]
    spec fn inv(&self) -> bool {
        self@.wf()
    }

    /// An injector that has yet to open its device.
    pub fn new(payload: &'a Payload) -> (injector: Self)
        ensures
            injector@ == Machine::initial(payload@),
            injector@.wf(),
    {
        proof {
            use_type_invariant(payload);
            payload.lemma_terminator();
        }
        Injector { payload, phase: Phase::NotOpened, written: 0 }
    }

    /// The phase the injection is in.
    pub fn phase(&self) -> (phase: Phase)
        ensures
            phase == self@.phase,
    {
        self.phase
    }

    /// How many bytes have reached the input queue.
    pub fn written(&self) -> (count: usize)
        ensures
            count == self@.written,
            count <= self@.payload.len(),
    {
        proof {
            use_type_invariant(self);
        }
        self.written
    }

    /// The pending action: what the caller is to do next.
    pub fn action(&self) -> (action: Action)
        ensures
            self@.wf(),
            action == self@.action(),
            action matches Action::Insert(byte) ==> byte != 0u8,
    {
        proof {
            use_type_invariant(self);
        }
        match self.phase {
            Phase::NotOpened => Action::Open,
            Phase::Writing => match self.payload.get(self.written) {
                Some(byte) => Action::Insert(byte),
                // While writing, a byte always remains; this arm is never taken.
                None => Action::Finish(Ok(())),
            },
            Phase::Done => Action::Finish(Ok(())),
            Phase::Failed(e) => Action::Finish(Err(e)),
        }
    }

    /// Whether the injection has ended, and how.
    pub fn outcome(&self) -> (outcome: Option<Result<(), Error>>)
        ensures
            outcome == self@.outcome(),
    {
        match self.phase {
            Phase::Done => Some(Ok(())),
            Phase::Failed(e) => Some(Err(e)),
            _ => None,
        }
    }

    /// Takes in what the operating system answered to the pending action.
    /// Returns whether the event answered it; one that does not is ignored.
    pub fn handle(&mut self, event: Event) -> (accepted: bool)
        ensures
            final(self)@ == old(self)@.next(event),
            final(self)@.wf(),
            accepted == old(self)@.accepts(event),
    {
        proof {
            use_type_invariant(&*self);
        }
        let payload = self.payload;
        let len = payload.len();
        let written = self.written;
        match (self.phase, event) {
            (Phase::NotOpened, Event::Opened) => {
                *self = Injector { payload, phase: phase_at(0, len), written: 0 };
                true
            },
            (Phase::NotOpened, Event::OpenFailed) => {
                *self = Injector { payload, phase: Phase::Failed(Error::IOError), written };
                true
            },
            (Phase::Writing, Event::Inserted) => {
                *self = Injector { payload, phase: phase_at(written + 1, len), written: written + 1 };
                true
            },
            (Phase::Writing, Event::InsertFailed(code)) => {
                *self = Injector { payload, phase: Phase::Failed(Error::from_errno(code)), written };
                true
            },
            _ => false,
        }
    }
}

/// The phase of an opened device with `count` of `len` bytes written.
fn phase_at(count: usize, len: usize) -> (phase: Phase)
    ensures
        phase == (if count < len {
            Phase::Writing
        } else {
            Phase::Done
        }),
{
    if count < len {
        Phase::Writing
    } else {
        Phase::Done
    }
}

} // verus!
