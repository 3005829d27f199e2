//! DNS over UDP: the loop that answers datagrams.

use crate::listen::IoKind;
use crate::stop::{is_stopped, StopFlag};
use vstd::prelude::*;

verus! {

/// How many bytes of a datagram are received; the rest of a longer one is lost.
pub const DATAGRAM_LEN: usize = 4096;

/// What the loop has done next. `P` is an address that datagrams come from.
pub enum UdpAction<P, B> {
    /// Receive a datagram.
    Receive,
    /// Have this query answered.
    Resolve(B),
    /// Send these bytes to that address.
    Send(B, P),
    /// End the loop.
    Stop,
}

/// What became of it.
pub enum UdpEvent<P, B> {
    /// These bytes came from that address.
    Received(B, P),
    /// Nothing was received.
    RecvFailed(IoKind),
    /// This is the answer.
    Resolved(B),
    /// There is no answer.
    ResolveFailed,
    /// The bytes were sent, or could not be.
    Sent,
}

impl<P> View for UdpAction<P, Vec<u8>> {
    type V = UdpAction<P, Seq<u8>>;

    open spec fn view(&self) -> UdpAction<P, Seq<u8>> {
        match self {
            UdpAction::Receive => UdpAction::Receive,
            UdpAction::Resolve(q) => UdpAction::Resolve(q@),
            UdpAction::Send(a, p) => UdpAction::Send(a@, *p),
            UdpAction::Stop => UdpAction::Stop,
        }
    }
}

impl<P> View for UdpEvent<P, Vec<u8>> {
    type V = UdpEvent<P, Seq<u8>>;

    open spec fn view(&self) -> UdpEvent<P, Seq<u8>> {
        match self {
            UdpEvent::Received(q, p) => UdpEvent::Received(q@, *p),
            UdpEvent::RecvFailed(k) => UdpEvent::RecvFailed(*k),
            UdpEvent::Resolved(a) => UdpEvent::Resolved(a@),
            UdpEvent::ResolveFailed => UdpEvent::ResolveFailed,
            UdpEvent::Sent => UdpEvent::Sent,
        }
    }
}

/// Where the loop stands.
pub enum UdpLoop<P> {
    /// It waits for a datagram.
    Receiving,
    /// A query that came from there is being answered.
    Resolving(P),
    /// An answer is being sent.
    Sending,
    /// It has ended.
    Stopped,
}

/// Whether a failure to receive is out of the ordinary; that nothing came in time is not.
pub fn worth_a_warning(kind: IoKind) -> (r: bool)
    ensures
        r == (kind != IoKind::WouldBlock && kind != IoKind::TimedOut),
{
    match kind {
        IoKind::WouldBlock => false,
        IoKind::TimedOut => false,
        IoKind::Other => true,
    }
}

impl<P> UdpLoop<P> {
    /// What the loop does at its head.
    pub open spec fn at_head(stopped: bool) -> (UdpLoop<P>, UdpAction<P, Seq<u8>>) {
        if stopped {
            (UdpLoop::Stopped, UdpAction::Stop)
        } else {
            (UdpLoop::Receiving, UdpAction::Receive)
        }
    }

    /// Whether `event` can come next.
    pub open spec fn expects(self, event: UdpEvent<P, Seq<u8>>) -> bool {
        match self {
            UdpLoop::Receiving => event is Received || event is RecvFailed,
            UdpLoop::Resolving(_) => event is Resolved || event is ResolveFailed,
            UdpLoop::Sending => event is Sent,
            UdpLoop::Stopped => false,
        }
    }

    /// Where the loop stands after `event`, and what it has done next. An answer goes to where
    /// the query came from; a query without an answer is dropped.
    pub open spec fn next(self, stopped: bool, event: UdpEvent<P, Seq<u8>>) -> (
        UdpLoop<P>,
        UdpAction<P, Seq<u8>>,
    ) {
        match (self, event) {
            (UdpLoop::Receiving, UdpEvent::Received(query, peer)) => (
                UdpLoop::Resolving(peer),
                UdpAction::Resolve(query),
            ),
            (UdpLoop::Resolving(peer), UdpEvent::Resolved(answer)) => (
                UdpLoop::Sending,
                UdpAction::Send(answer, peer),
            ),
            _ => Self::at_head(stopped),
        }
    }

    /// Whether `event` can come next.
    pub fn accepts(&self, event: &UdpEvent<P, Vec<u8>>) -> (r: bool)
        ensures
            r == self.expects(event@),
    {
        match (self, event) {
            (UdpLoop::Receiving, UdpEvent::Received(_, _)) => true,
            (UdpLoop::Receiving, UdpEvent::RecvFailed(_)) => true,
            (UdpLoop::Resolving(_), UdpEvent::Resolved(_)) => true,
            (UdpLoop::Resolving(_), UdpEvent::ResolveFailed) => true,
            (UdpLoop::Sending, UdpEvent::Sent) => true,
            _ => false,
        }
    }

    fn head(stop: &StopFlag) -> (r: (UdpLoop<P>, UdpAction<P, Vec<u8>>))
        ensures
            (r.0, r.1@) == Self::at_head(stop@),
    {
        if is_stopped(stop) {
            (UdpLoop::Stopped, UdpAction::Stop)
        } else {
            (UdpLoop::Receiving, UdpAction::Receive)
        }
    }

    /// Goes on after `event`.
    pub fn advance(self, stop: &StopFlag, event: UdpEvent<P, Vec<u8>>) -> (r: (
        UdpLoop<P>,
        UdpAction<P, Vec<u8>>,
    ))
        requires
            self.expects(event@),
        ensures
            (r.0, r.1@) == self.next(stop@, event@),
    {
        match (self, event) {
            (UdpLoop::Receiving, UdpEvent::Received(query, peer)) => {
                (UdpLoop::Resolving(peer), UdpAction::Resolve(query))
            },
            (UdpLoop::Resolving(peer), UdpEvent::Resolved(answer)) => {
                (UdpLoop::Sending, UdpAction::Send(answer, peer))
            },
            _ => Self::head(stop),
        }
    }
}

/// Begins the loop.
pub fn udp_loop<P>(stop: &StopFlag) -> (r: (UdpLoop<P>, UdpAction<P, Vec<u8>>))
    ensures
        (r.0, r.1@) == UdpLoop::<P>::at_head(stop@),
{
    UdpLoop::head(stop)
}

/// An event, and whether the loop was asked to stop by then.
pub type Moment<P> = (bool, UdpEvent<P, Seq<u8>>);

/// Where a loop that began by receiving stands after `moments`.
pub open spec fn loop_after<P>(moments: Seq<Moment<P>>) -> UdpLoop<P>
    decreases moments.len(),
{
    if moments.len() == 0 {
        UdpLoop::Receiving
    } else {
        loop_after(moments.drop_last()).next(moments.last().0, moments.last().1).0
    }
}

/// Whether `moments` can be what happens in a loop, one after another, from its beginning.
pub open spec fn loop_possible<P>(moments: Seq<Moment<P>>) -> bool
    decreases moments.len(),
{
    moments.len() > 0 ==> {
        &&& loop_possible(moments.drop_last())
        &&& loop_after(moments.drop_last()).expects(moments.last().1)
    }
}

/// What the loop has had sent, and where to.
pub open spec fn loop_sent<P>(moments: Seq<Moment<P>>) -> Seq<(Seq<u8>, P)>
    decreases moments.len(),
{
    if moments.len() == 0 {
        Seq::empty()
    } else {
        loop_sent(moments.drop_last()) + match loop_after(moments.drop_last()).next(
            moments.last().0,
            moments.last().1,
        ).1 {
            UdpAction::Send(answer, peer) => seq![(answer, peer)],
            _ => Seq::empty(),
        }
    }
}

/// What was received.
pub open spec fn loop_received<P>(moments: Seq<Moment<P>>) -> Seq<Seq<u8>>
    decreases moments.len(),
{
    if moments.len() == 0 {
        Seq::empty()
    } else {
        loop_received(moments.drop_last()) + match moments.last().1 {
            UdpEvent::Received(query, _) => seq![query],
            _ => Seq::empty(),
        }
    }
}

/// What the loop has had answered.
pub open spec fn loop_resolved<P>(moments: Seq<Moment<P>>) -> Seq<Seq<u8>>
    decreases moments.len(),
{
    if moments.len() == 0 {
        Seq::empty()
    } else {
        loop_resolved(moments.drop_last()) + match loop_after(moments.drop_last()).next(
            moments.last().0,
            moments.last().1,
        ).1 {
            UdpAction::Resolve(query) => seq![query],
            _ => Seq::empty(),
        }
    }
}

/// What the loop has had answered is what it received: every datagram as it came, once, and in
/// order.
pub proof fn law_every_datagram_is_resolved_once<P>(moments: Seq<Moment<P>>)
    requires
        loop_possible(moments),
    ensures
        loop_resolved(moments) == loop_received(moments),
    decreases moments.len(),
{
    if moments.len() > 0 {
        law_every_datagram_is_resolved_once(moments.drop_last());
        assert(loop_resolved(moments) =~= loop_received(moments));
    }
}

/// Each answer that came right after a query, with the address that the query came from.
pub open spec fn loop_answered<P>(moments: Seq<Moment<P>>) -> Seq<(Seq<u8>, P)>
    decreases moments.len(),
{
    if moments.len() < 2 {
        Seq::empty()
    } else {
        loop_answered(moments.drop_last()) + match (
            moments[moments.len() - 2].1,
            moments.last().1,
        ) {
            (UdpEvent::Received(_, peer), UdpEvent::Resolved(answer)) => seq![(answer, peer)],
            _ => Seq::empty(),
        }
    }
}

proof fn lemma_resolving_is_after_received<P>(moments: Seq<Moment<P>>)
    requires
        loop_possible(moments),
    ensures
        loop_after(moments) matches UdpLoop::Resolving(p) ==> moments.len() > 0 && (
        moments.last().1 matches UdpEvent::Received(_, peer) && peer == p),
        moments.len() > 0 && moments.last().1 is Received ==> loop_after(moments) is Resolving,
{
}

/// What the loop sends is the answers, each to the address that its query came from, in the
/// order of the queries; for a query without an answer nothing is sent.
pub proof fn law_answers_go_to_those_who_asked<P>(moments: Seq<Moment<P>>)
    requires
        loop_possible(moments),
    ensures
        loop_sent(moments) == loop_answered(moments),
    decreases moments.len(),
{
    if moments.len() > 0 {
        let before = moments.drop_last();
        law_answers_go_to_those_who_asked(before);
        lemma_resolving_is_after_received(before);
        if moments.len() > 1 {
            assert(before.last() == moments[moments.len() - 2]);
        }
        assert(loop_sent(moments) =~= loop_answered(moments));
    }
}

/// A loop that was asked to stop receives no datagram any more; one that was not never ends.
pub proof fn law_stopped_loop_receives_nothing<P>(state: UdpLoop<P>, event: UdpEvent<P, Seq<u8>>)
    requires
        state.expects(event),
    ensures
        !(state.next(true, event).1 is Receive),
        !(state.next(false, event).1 is Stop),
        UdpLoop::<P>::at_head(true).1 is Stop,
{
}

/// The loop waits for the outcome of what it has had done, whatever that is, and for nothing
/// else; once it has ended it waits for nothing. It has ended exactly when it says so.
pub proof fn law_loop_waits_for_the_outcome_of_its_action<P>(
    state: UdpLoop<P>,
    stopped: bool,
    event: UdpEvent<P, Seq<u8>>,
    later: UdpEvent<P, Seq<u8>>,
)
    requires
        state.expects(event),
    ensures
        ({
            let (after, action) = state.next(stopped, event);
            &&& match action {
                UdpAction::Receive => after.expects(later) <==> later is Received
                    || later is RecvFailed,
                UdpAction::Resolve(_) => after.expects(later) <==> later is Resolved
                    || later is ResolveFailed,
                UdpAction::Send(_, _) => after.expects(later) <==> later is Sent,
                UdpAction::Stop => !after.expects(later),
            }
            &&& after is Stopped <==> action is Stop
        }),
        !(state.next(false, event).0 is Stopped),
{
}

/// The loop begins by waiting for a datagram, unless it was asked to stop by then.
pub proof fn law_loop_begins_by_receiving<P>(event: UdpEvent<P, Seq<u8>>)
    ensures
        UdpLoop::<P>::at_head(false).1 is Receive,
        UdpLoop::<P>::at_head(false).0.expects(event) <==> event is Received
            || event is RecvFailed,
        UdpLoop::<P>::at_head(true).1 is Stop,
        !UdpLoop::<P>::at_head(true).0.expects(event),
{
}

/// Every datagram is answered as it came, however long it is; its answer is sent as it is to
/// where the datagram came from; and after that, unless it was asked to stop, the loop receives
/// the next one. So it does where there is no answer, and where nothing was received. Once it was
/// asked to stop, a datagram that was received is still answered.
pub proof fn law_loop_goes_on_after_every_datagram<P>(
    state: UdpLoop<P>,
    query: Seq<u8>,
    peer: P,
    answer: Seq<u8>,
    kind: IoKind,
    now: bool,
    soon: bool,
    later: bool,
)
    requires
        state.expects(UdpEvent::Received(query, peer)),
    ensures
        ({
            let (resolving, first) = state.next(now, UdpEvent::Received(query, peer));
            let (sending, second) = resolving.next(soon, UdpEvent::Resolved(answer));
            let (after, third) = sending.next(later, UdpEvent::Sent);
            let (dropped, instead) = resolving.next(soon, UdpEvent::ResolveFailed);
            let (again, retry) = state.next(now, UdpEvent::RecvFailed(kind));
            &&& first == UdpAction::<P, Seq<u8>>::Resolve(query)
            &&& resolving.expects(UdpEvent::Resolved(answer))
            &&& resolving.expects(UdpEvent::ResolveFailed)
            &&& second == UdpAction::Send(answer, peer)
            &&& sending.expects(UdpEvent::Sent)
            &&& if later {
                third is Stop && after is Stopped
            } else {
                third is Receive && after.expects(UdpEvent::Received(query, peer))
            }
            &&& if soon {
                instead is Stop && dropped is Stopped
            } else {
                instead is Receive && dropped.expects(UdpEvent::Received(query, peer))
            }
            &&& state.expects(UdpEvent::RecvFailed(kind))
            &&& if now {
                retry is Stop && again is Stopped
            } else {
                retry is Receive && again.expects(UdpEvent::Received(query, peer))
            }
        }),
{
}

/// Actions and events stand for the same bytes and the same address in the model as in the
/// program.
pub proof fn law_bytes_are_those_of_the_model<P>(
    action: UdpAction<P, Vec<u8>>,
    event: UdpEvent<P, Vec<u8>>,
)
    ensures
        match action {
            UdpAction::Receive => action@ is Receive,
            UdpAction::Resolve(q) => action@ == UdpAction::<P, Seq<u8>>::Resolve(q@),
            UdpAction::Send(a, p) => action@ == UdpAction::Send(a@, p),
            UdpAction::Stop => action@ is Stop,
        },
        match event {
            UdpEvent::Received(q, p) => event@ == UdpEvent::Received(q@, p),
            UdpEvent::RecvFailed(k) => event@ == UdpEvent::<P, Seq<u8>>::RecvFailed(k),
            UdpEvent::Resolved(a) => event@ == UdpEvent::<P, Seq<u8>>::Resolved(a@),
            UdpEvent::ResolveFailed => event@ is ResolveFailed,
            UdpEvent::Sent => event@ is Sent,
        },
{
}

/// A datagram of up to 4096 bytes is received whole.
pub proof fn law_datagrams_of_4096_bytes_fit(datagram: Seq<u8>)
    ensures
        datagram.len() <= DATAGRAM_LEN <==> datagram.len() <= 4096,
{
}

} // verus!
