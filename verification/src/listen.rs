//! The loops that accept connections.

use crate::addr::SocketAddress;
use crate::stop::{is_stopped, StopFlag};
use vstd::prelude::*;

verus! {

/// What kind of error a socket call came back with, as far as the loops tell them apart.
#[derive(Clone, Copy, Debug, PartialEq, Eq, Structural)]
pub enum IoKind {
    /// There was nothing to take.
    WouldBlock,
    /// Nothing came in time.
    TimedOut,
    /// Anything else.
    Other,
}

/// How long a loop that found no connection waits, in milliseconds.
pub const ACCEPT_PAUSE_MS: u64 = 100;

/// What an accepting loop has done next.
#[derive(Debug, PartialEq, Eq)]
pub enum AcceptAction<C> {
    /// Accept a connection.
    Accept,
    /// Serve this connection, on the side.
    Serve(C),
    /// Wait so many milliseconds.
    Sleep(u64),
    /// End the loop.
    Stop,
}

/// What became of it. `A` is what is known of a connection.
#[derive(Debug, PartialEq, Eq)]
pub enum AcceptEvent<A> {
    /// The loop begins, or a connection is being served, or the wait is over.
    Ready,
    /// A connection was accepted.
    Accepted(A),
    /// None was.
    Failed(IoKind),
}

/// The two ends of a connection to the HTTPS relay.
#[derive(Clone, Copy, Debug, PartialEq, Eq)]
pub struct Ends {
    /// Where it comes from.
    pub peer: SocketAddress,
    /// Where it arrived.
    pub local: SocketAddress,
}

/// What a loop does at its head.
pub open spec fn at_head<C>(stopped: bool) -> AcceptAction<C> {
    if stopped {
        AcceptAction::Stop
    } else {
        AcceptAction::Accept
    }
}

/// What the loop of the DNS proxy does after `event`. Each connection is served; with none to
/// take the loop waits; after any other error it goes on at once.
pub open spec fn tcp_loop_next<A>(stopped: bool, event: AcceptEvent<A>) -> AcceptAction<A> {
    match event {
        AcceptEvent::Ready => at_head(stopped),
        AcceptEvent::Accepted(a) => AcceptAction::Serve(a),
        AcceptEvent::Failed(IoKind::WouldBlock) => AcceptAction::Sleep(ACCEPT_PAUSE_MS),
        AcceptEvent::Failed(_) => at_head(stopped),
    }
}

/// What the loop of the HTTPS relay does after `event`: as that of the DNS proxy, but for a
/// connection of which it is not known where it arrived, which is let go.
pub open spec fn https_loop_next(
    stopped: bool,
    event: AcceptEvent<(SocketAddress, Option<SocketAddress>)>,
) -> AcceptAction<Ends> {
    match event {
        AcceptEvent::Ready => at_head(stopped),
        AcceptEvent::Accepted((peer, Some(local))) => AcceptAction::Serve(Ends { peer, local }),
        AcceptEvent::Accepted((_, None)) => at_head(stopped),
        AcceptEvent::Failed(IoKind::WouldBlock) => AcceptAction::Sleep(ACCEPT_PAUSE_MS),
        AcceptEvent::Failed(_) => at_head(stopped),
    }
}

/// One round of the loop of the DNS proxy.
pub fn tcp_loop<A>(stop: &StopFlag, event: AcceptEvent<A>) -> (r: AcceptAction<A>)
    ensures
        r == tcp_loop_next(stop@, event),
{
    match event {
        AcceptEvent::Accepted(a) => AcceptAction::Serve(a),
        AcceptEvent::Failed(IoKind::WouldBlock) => AcceptAction::Sleep(ACCEPT_PAUSE_MS),
        _ => if is_stopped(stop) {
            AcceptAction::Stop
        } else {
            AcceptAction::Accept
        },
    }
}

/// One round of the loop of the HTTPS relay. The second half of what is known of a connection is
/// where it arrived, if that could be told.
pub fn https_loop(
    stop: &StopFlag,
    event: AcceptEvent<(SocketAddress, Option<SocketAddress>)>,
) -> (r: AcceptAction<Ends>)
    ensures
        r == https_loop_next(stop@, event),
{
    match event {
        AcceptEvent::Accepted((peer, Some(local))) => AcceptAction::Serve(Ends { peer, local }),
        AcceptEvent::Failed(IoKind::WouldBlock) => AcceptAction::Sleep(ACCEPT_PAUSE_MS),
        _ => if is_stopped(stop) {
            AcceptAction::Stop
        } else {
            AcceptAction::Accept
        },
    }
}

/// A loop that was asked to stop accepts no connection any more; one that was not never ends.
pub proof fn law_stopped_loops_accept_nothing<A>(
    tcp: AcceptEvent<A>,
    https: AcceptEvent<(SocketAddress, Option<SocketAddress>)>,
)
    ensures
        !(tcp_loop_next(true, tcp) is Accept),
        !(https_loop_next(true, https) is Accept),
        !(tcp_loop_next(false, tcp) is Stop),
        !(https_loop_next(false, https) is Stop),
        tcp_loop_next(true, AcceptEvent::<A>::Ready) is Stop,
        https_loop_next(true, AcceptEvent::Ready) is Stop,
{
}

/// Every connection that is accepted is served, whether or not the loop was asked to stop
/// meanwhile; one of the HTTPS relay with the two ends that are known of it, and only if both
/// are.
pub proof fn law_every_connection_is_served<A>(
    stopped: bool,
    connection: A,
    peer: SocketAddress,
    local: SocketAddress,
)
    ensures
        tcp_loop_next(stopped, AcceptEvent::Accepted(connection)) == AcceptAction::Serve(
            connection,
        ),
        https_loop_next(stopped, AcceptEvent::Accepted((peer, Some(local)))) matches
            AcceptAction::Serve(ends) && ends.peer == peer && ends.local == local,
        !(https_loop_next(stopped, AcceptEvent::Accepted((peer, None))) is Serve),
{
}

/// A loop that has nothing to serve waits a tenth of a second if there was no connection to take,
/// and only then. In all other cases it accepts the next connection, or ends if it was asked to.
pub proof fn law_loops_wait_only_for_a_connection<A>(
    stopped: bool,
    kind: IoKind,
    peer: SocketAddress,
)
    ensures
        ({
            let tcp = tcp_loop_next(stopped, AcceptEvent::<A>::Failed(kind));
            let https = https_loop_next(stopped, AcceptEvent::Failed(kind));
            let at_first = tcp_loop_next(stopped, AcceptEvent::<A>::Ready);
            let at_last = https_loop_next(stopped, AcceptEvent::Ready);
            let let_go = https_loop_next(stopped, AcceptEvent::Accepted((peer, None)));
            &&& kind == IoKind::WouldBlock ==> tcp == AcceptAction::<A>::Sleep(100) && https
                == AcceptAction::<Ends>::Sleep(100)
            &&& kind != IoKind::WouldBlock && stopped ==> tcp is Stop && https is Stop
            &&& kind != IoKind::WouldBlock && !stopped ==> tcp is Accept && https is Accept
            &&& stopped ==> at_first is Stop && at_last is Stop && let_go is Stop
            &&& !stopped ==> at_first is Accept && at_last is Accept && let_go is Accept
        }),
{
}

} // verus!
