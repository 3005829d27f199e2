//! Copying what arrives on one connection to another.

use crate::receive::ReadEvent;
use vstd::prelude::*;

verus! {

/// How many bytes are copied at a time, at most.
pub const PUMP_LEN: usize = 65535;

/// What the copying has done next.
pub enum PumpAction<B> {
    /// Read from the source.
    Read,
    /// Write these bytes to the destination.
    Write(B),
    /// Tell the destination that nothing more comes.
    ShutDown,
}

/// What became of it.
pub enum PumpEvent<B> {
    /// The read came to this; with what it failed, if it did, changes nothing.
    Read(ReadEvent<B, ()>),
    /// Everything was written, or was not.
    Written(bool),
}

impl View for PumpAction<Vec<u8>> {
    type V = PumpAction<Seq<u8>>;

    open spec fn view(&self) -> PumpAction<Seq<u8>> {
        match self {
            PumpAction::Read => PumpAction::Read,
            PumpAction::Write(b) => PumpAction::Write(b@),
            PumpAction::ShutDown => PumpAction::ShutDown,
        }
    }
}

impl View for PumpEvent<Vec<u8>> {
    type V = PumpEvent<Seq<u8>>;

    open spec fn view(&self) -> PumpEvent<Seq<u8>> {
        match self {
            PumpEvent::Read(e) => PumpEvent::Read(e@),
            PumpEvent::Written(ok) => PumpEvent::Written(*ok),
        }
    }
}

/// Where the copying stands.
#[derive(Clone, Copy, Debug, PartialEq, Eq, Structural)]
pub enum Pump {
    /// It reads.
    Reading,
    /// It writes.
    Writing,
    /// It has ended.
    Ended,
}

/// Begins the copying.
pub fn pump() -> (r: (Pump, PumpAction<Vec<u8>>))
    ensures
        r.0 == Pump::Reading,
        r.1@ == PumpAction::<Seq<u8>>::Read,
{
    (Pump::Reading, PumpAction::Read)
}

impl Pump {
    /// Whether `event` can come next.
    pub open spec fn expects(self, event: PumpEvent<Seq<u8>>) -> bool {
        match self {
            Pump::Reading => event is Read,
            Pump::Writing => event is Written,
            Pump::Ended => false,
        }
    }

    /// Where the copying stands after `event`, and what it has done next. What was read is
    /// written; the end of the source, and any failure, end the copying.
    pub open spec fn next(self, event: PumpEvent<Seq<u8>>) -> (Pump, PumpAction<Seq<u8>>) {
        match (self, event) {
            (Pump::Reading, PumpEvent::Read(ReadEvent::Data(d))) => if d.len() > 0 {
                (Pump::Writing, PumpAction::Write(d))
            } else {
                (Pump::Ended, PumpAction::ShutDown)
            },
            (Pump::Writing, PumpEvent::Written(true)) => (Pump::Reading, PumpAction::Read),
            _ => (Pump::Ended, PumpAction::ShutDown),
        }
    }

    /// Whether `event` can come next.
    pub fn accepts(&self, event: &PumpEvent<Vec<u8>>) -> (r: bool)
        ensures
            r == self.expects(event@),
    {
        match (self, event) {
            (Pump::Reading, PumpEvent::Read(_)) => true,
            (Pump::Writing, PumpEvent::Written(_)) => true,
            _ => false,
        }
    }

    /// Goes on after `event`.
    pub fn advance(self, event: PumpEvent<Vec<u8>>) -> (r: (Pump, PumpAction<Vec<u8>>))
        requires
            self.expects(event@),
        ensures
            (r.0, r.1@) == self.next(event@),
    {
        match (self, event) {
            (Pump::Reading, PumpEvent::Read(ReadEvent::Data(d))) => {
                if d.len() > 0 {
                    (Pump::Writing, PumpAction::Write(d))
                } else {
                    (Pump::Ended, PumpAction::ShutDown)
                }
            },
            (Pump::Writing, PumpEvent::Written(true)) => (Pump::Reading, PumpAction::Read),
            _ => (Pump::Ended, PumpAction::ShutDown),
        }
    }
}

/// Where the copying stands after `events`, counted from its beginning.
pub open spec fn pump_after(events: Seq<PumpEvent<Seq<u8>>>) -> Pump
    decreases events.len(),
{
    if events.len() == 0 {
        Pump::Reading
    } else {
        pump_after(events.drop_last()).next(events.last()).0
    }
}

/// Whether `events` can be what happens, one after another, from the beginning of the copying.
pub open spec fn pump_possible(events: Seq<PumpEvent<Seq<u8>>>) -> bool
    decreases events.len(),
{
    events.len() > 0 ==> {
        &&& pump_possible(events.drop_last())
        &&& pump_after(events.drop_last()).expects(events.last())
    }
}

/// Everything that arrived.
pub open spec fn pump_read(events: Seq<PumpEvent<Seq<u8>>>) -> Seq<u8>
    decreases events.len(),
{
    if events.len() == 0 {
        Seq::empty()
    } else {
        pump_read(events.drop_last()) + match events.last() {
            PumpEvent::Read(ReadEvent::Data(d)) => d,
            _ => Seq::empty(),
        }
    }
}

/// Everything that was handed on to be written.
pub open spec fn pump_written(events: Seq<PumpEvent<Seq<u8>>>) -> Seq<u8>
    decreases events.len(),
{
    if events.len() == 0 {
        Seq::empty()
    } else {
        pump_written(events.drop_last()) + match pump_after(events.drop_last()).next(
            events.last(),
        ).1 {
            PumpAction::Write(b) => b,
            _ => Seq::empty(),
        }
    }
}

/// What arrives is handed on byte for byte and in order.
pub proof fn law_everything_read_is_written(events: Seq<PumpEvent<Seq<u8>>>)
    requires
        pump_possible(events),
    ensures
        pump_written(events) == pump_read(events),
    decreases events.len(),
{
    if events.len() > 0 {
        law_everything_read_is_written(events.drop_last());
        assert(pump_written(events) =~= pump_read(events));
    }
}

/// The destination is told that nothing more comes when the copying ends, then only, and nothing
/// happens after that.
pub proof fn law_destination_is_told_at_the_end(
    state: Pump,
    event: PumpEvent<Seq<u8>>,
    later: PumpEvent<Seq<u8>>,
)
    requires
        state.expects(event),
    ensures
        state.next(event).1 is ShutDown <==> state.next(event).0 == Pump::Ended,
        state.next(event).0 == Pump::Ended ==> !state.next(event).0.expects(later),
{
}

/// The copying waits for the outcome of what it has had done, whatever that is, and for nothing
/// else; once it has ended it waits for nothing.
pub proof fn law_copying_waits_for_the_outcome_of_its_action(
    state: Pump,
    event: PumpEvent<Seq<u8>>,
    later: PumpEvent<Seq<u8>>,
)
    requires
        state.expects(event),
    ensures
        match state.next(event).1 {
            PumpAction::Read => state.next(event).0.expects(later) <==> later is Read,
            PumpAction::Write(_) => state.next(event).0.expects(later) <==> later is Written,
            PumpAction::ShutDown => !state.next(event).0.expects(later),
        },
        Pump::Reading.expects(later) <==> later is Read,
{
}

/// The end of the source and a failure end the copying, and nothing else does: whatever arrives
/// is written as it is, and when all of it has been, the next read follows.
pub proof fn law_copying_goes_on_until_the_source_ends(state: Pump, event: PumpEvent<Seq<u8>>)
    requires
        state.expects(event),
    ensures
        match event {
            PumpEvent::Read(ReadEvent::Data(d)) => if d.len() > 0 {
                state.next(event).1 == PumpAction::Write(d)
            } else {
                state.next(event).1 is ShutDown
            },
            PumpEvent::Read(ReadEvent::Failed(_)) => state.next(event).1 is ShutDown,
            PumpEvent::Written(ok) => if ok {
                state.next(event).1 is Read
            } else {
                state.next(event).1 is ShutDown
            },
        },
{
}

/// Actions and events stand for the same bytes in the model as in the program.
pub proof fn law_bytes_are_those_of_the_model(
    action: PumpAction<Vec<u8>>,
    event: PumpEvent<Vec<u8>>,
)
    ensures
        match action {
            PumpAction::Read => action@ is Read,
            PumpAction::Write(b) => action@ == PumpAction::Write(b@),
            PumpAction::ShutDown => action@ is ShutDown,
        },
        match event {
            PumpEvent::Read(ReadEvent::Data(d)) => event@ == PumpEvent::Read(ReadEvent::Data(d@)),
            PumpEvent::Read(ReadEvent::Failed(_)) => event@ matches PumpEvent::Read(e) && e is Failed,
            PumpEvent::Written(ok) => event@ == PumpEvent::<Seq<u8>>::Written(ok),
        },
{
}

/// Up to 65535 bytes are copied at a time.
pub proof fn law_reads_take_65535_bytes(data: Seq<u8>)
    ensures
        data.len() <= PUMP_LEN <==> data.len() <= 65535,
{
}

} // verus!
