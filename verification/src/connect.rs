//! Connections upstream, each from one of the reserved source ports.

use crate::addr::SocketV4;
use crate::ports::Ports;
use vstd::prelude::*;

verus! {

/// Hands out numbers, one after another, to pick source ports by. After the highest number it
/// starts over.
pub struct PortCounter {
    next: u32,
}

/// The number after `n`.
pub open spec fn after(n: u32) -> u32 {
    if n == u32::MAX {
        0
    } else {
        (n + 1) as u32
    }
}

/// The number that comes `k` numbers after `n`.
pub open spec fn further(n: u32, k: nat) -> u32
    decreases k,
{
    if k == 0 {
        n
    } else {
        after(further(n, (k - 1) as nat))
    }
}

proof fn lemma_further_is_a_sum(n: u32, k: nat)
    requires
        n + k <= u32::MAX,
    ensures
        further(n, k) == n + k,
    decreases k,
{
    if k > 0 {
        lemma_further_is_a_sum(n, (k - 1) as nat);
    }
}

impl View for PortCounter {
    type V = u32;

    closed spec fn view(&self) -> u32 {
        self.next
    }
}

impl PortCounter {
    /// A counter whose first number is zero.
    pub fn new() -> (r: PortCounter)
        ensures
            r@ == 0,
    {
        PortCounter { next: 0 }
    }

    /// Takes the next number.
    pub fn take(&mut self) -> (r: u32)
        ensures
            r == old(self)@,
            final(self)@ == after(old(self)@),
    {
        let n: u32 = self.next;
        self.next = n.wrapping_add(1);
        n
    }
}

/// The source port that the number `n` picks.
pub open spec fn port_picked(ports: Ports, n: u32) -> int {
    ports.upstream_base + (n as int) % (ports.upstream_count as int)
}

/// The source port that the number `n` picks: the reserved ports in turn.
pub fn reserved_port(ports: &Ports, n: u32) -> (r: u16)
    requires
        ports.wf(),
        ports.upstream_count > 0,
    ensures
        r == port_picked(*ports, n),
        ports.reserves(r as int),
{
    let count: u32 = ports.upstream_count as u32;
    let offset: u32 = n % count;
    ports.upstream_base + offset as u16
}

/// As many numbers in a row as there are reserved ports, not running past the highest number,
/// pick every reserved port, and none of them twice.
pub proof fn law_numbers_in_a_row_pick_each_port_once(ports: Ports, first: u32, port: int)
    requires
        ports.wf(),
        first + ports.upstream_count - 1 <= u32::MAX,
        ports.reserves(port),
    ensures
        exists|k: nat|
            k < ports.upstream_count && #[trigger] port_picked(ports, further(first, k)) == port,
        forall|j: nat, k: nat|
            j < ports.upstream_count && k < ports.upstream_count && #[trigger] port_picked(
                ports,
                further(first, j),
            ) == #[trigger] port_picked(ports, further(first, k)) ==> j == k,
{
    let count = ports.upstream_count as int;
    let want = port - ports.upstream_base;
    let have = first as int % count;
    let k = if want >= have {
        want - have
    } else {
        want - have + count
    };
    assert((first + k) % count == want) by (nonlinear_arith)
        requires
            count > 0,
            have == first as int % count,
            0 <= want < count,
            k == want - have || k == want - have + count,
    {
        let q = first as int / count;
        assert(first as int == q * count + have);
        if k == want - have {
            assert(first + k == q * count + want);
            vstd::arithmetic::div_mod::lemma_fundamental_div_mod_converse(
                first + k,
                count,
                q,
                want,
            );
        } else {
            assert(first + k == (q + 1) * count + want);
            vstd::arithmetic::div_mod::lemma_fundamental_div_mod_converse(
                first + k,
                count,
                q + 1,
                want,
            );
        }
    }
    lemma_further_is_a_sum(first, k as nat);
    assert(port_picked(ports, further(first, k as nat)) == port);
    assert forall|j: nat, k: nat|
        j < ports.upstream_count && k < ports.upstream_count && #[trigger] port_picked(
            ports,
            further(first, j),
        ) == #[trigger] port_picked(ports, further(first, k)) implies j == k by {
        lemma_further_is_a_sum(first, j);
        lemma_further_is_a_sum(first, k);
        let a = first + j;
        let b = first + k;
        assert(a % count == b % count);
        assert(a == b) by (nonlinear_arith)
            requires
                count > 0,
                a % count == b % count,
                -count < a - b < count,
        {
            assert(a == (a / count) * count + a % count);
            assert(b == (b / count) * count + b % count);
            assert(a - b == (a / count - b / count) * count);
        }
    }
}

/// Why there is no connection upstream.
pub enum ConnectError<S> {
    /// No socket could be made.
    NoSocket,
    /// No reserved port could be bound; what was said of the last one tried.
    NoFreePort(Option<S>),
    /// The server could not be reached.
    Unreachable(SocketV4),
}

impl View for ConnectError<String> {
    type V = ConnectError<Seq<char>>;

    open spec fn view(&self) -> ConnectError<Seq<char>> {
        match self {
            ConnectError::NoSocket => ConnectError::NoSocket,
            ConnectError::NoFreePort(Some(e)) => ConnectError::NoFreePort(Some(e@)),
            ConnectError::NoFreePort(None) => ConnectError::NoFreePort(None),
            ConnectError::Unreachable(server) => ConnectError::Unreachable(*server),
        }
    }
}

impl ConnectError<Seq<char>> {
    /// The error in words.
    pub open spec fn words(self) -> Seq<char> {
        match self {
            ConnectError::NoSocket => "creating upstream socket"@,
            ConnectError::NoFreePort(Some(e)) => "no free upstream port in reserved range (Some("@
                + e + "))"@,
            ConnectError::NoFreePort(None) => "no free upstream port in reserved range (None)"@,
            ConnectError::Unreachable(server) => "connecting upstream "@ + server.written(),
        }
    }
}

impl ConnectError<String> {
    /// The error in words.
    pub fn message(&self) -> (r: String)
        ensures
            r@ == self@.words(),
    {
        match self {
            ConnectError::NoSocket => "creating upstream socket".to_owned(),
            ConnectError::NoFreePort(Some(e)) => {
                let mut out = "no free upstream port in reserved range (Some(".to_owned();
                out.append(e.as_str());
                out.append("))");
                out
            },
            ConnectError::NoFreePort(None) => {
                "no free upstream port in reserved range (None)".to_owned()
            },
            ConnectError::Unreachable(server) => {
                let mut out = "connecting upstream ".to_owned();
                out.append(server.to_text().as_str());
                out
            },
        }
    }
}

/// What became of an attempt to connect from one port.
pub enum ConnectEvent<S> {
    /// No socket could be made.
    SocketFailed,
    /// The port could not be bound; what was said of it.
    BindFailed(S),
    /// The port was bound, and the server could not be reached.
    ConnectFailed,
    /// The connection stands.
    Connected,
}

impl View for ConnectEvent<String> {
    type V = ConnectEvent<Seq<char>>;

    open spec fn view(&self) -> ConnectEvent<Seq<char>> {
        match self {
            ConnectEvent::SocketFailed => ConnectEvent::SocketFailed,
            ConnectEvent::BindFailed(said) => ConnectEvent::BindFailed(said@),
            ConnectEvent::ConnectFailed => ConnectEvent::ConnectFailed,
            ConnectEvent::Connected => ConnectEvent::Connected,
        }
    }
}

/// How connecting goes on.
pub enum ConnectStep<S> {
    /// Try from this port.
    Attempt(u16),
    /// The connection stands.
    Connected,
    /// There is no connection.
    Failed(ConnectError<S>),
}

impl View for ConnectStep<String> {
    type V = ConnectStep<Seq<char>>;

    open spec fn view(&self) -> ConnectStep<Seq<char>> {
        match self {
            ConnectStep::Attempt(port) => ConnectStep::Attempt(*port),
            ConnectStep::Connected => ConnectStep::Connected,
            ConnectStep::Failed(e) => ConnectStep::Failed(e@),
        }
    }
}

/// A connection upstream in the making.
pub struct Connector {
    /// The port plan.
    pub ports: Ports,
    /// Where to.
    pub server: SocketV4,
    /// From how many ports it was tried, the present one included.
    pub tried: u32,
    /// Whether it stands or was given up, and nothing is left to try.
    pub ended: bool,
}

impl Connector {
    /// It was tried from no more ports than there are.
    pub open spec fn wf(self) -> bool {
        &&& self.ports.wf()
        &&& self.tried <= self.ports.upstream_count
    }

    /// A connector before its first attempt.
    pub open spec fn fresh(ports: Ports, server: SocketV4) -> Connector {
        Connector { ports, server, tried: 0, ended: false }
    }

    /// The connector once nothing is left to try.
    pub open spec fn at_end(self) -> Connector {
        Connector { ended: true, ..self }
    }

    /// The connector after one more attempt, the number that is next then, and the attempt, if
    /// the next number is `next` and there are ports left to try. Otherwise connecting ends
    /// because of what was `said` of the last port, if one was tried.
    pub open spec fn try_another(self, next: u32, said: Option<Seq<char>>) -> (
        Connector,
        u32,
        ConnectStep<Seq<char>>,
    ) {
        if self.tried < self.ports.upstream_count {
            (
                Connector { tried: (self.tried + 1) as u32, ..self },
                after(next),
                ConnectStep::Attempt(port_picked(self.ports, next) as u16),
            )
        } else {
            (self.at_end(), next, ConnectStep::Failed(ConnectError::NoFreePort(said)))
        }
    }

    /// The connector after the present attempt came to `event`, the number that is next then,
    /// and how connecting goes on. A port that could not be bound has the next one tried, until
    /// as many were tried as there are; anything else ends it.
    pub open spec fn next(self, next: u32, event: ConnectEvent<Seq<char>>) -> (
        Connector,
        u32,
        ConnectStep<Seq<char>>,
    ) {
        match event {
            ConnectEvent::SocketFailed => (
                self.at_end(),
                next,
                ConnectStep::Failed(ConnectError::NoSocket),
            ),
            ConnectEvent::BindFailed(said) => self.try_another(next, Some(said)),
            ConnectEvent::ConnectFailed => (
                self.at_end(),
                next,
                ConnectStep::Failed(ConnectError::Unreachable(self.server)),
            ),
            ConnectEvent::Connected => (self.at_end(), next, ConnectStep::Connected),
        }
    }

    fn attempt(&mut self, counter: &mut PortCounter, said: Option<String>) -> (r: ConnectStep<
        String,
    >)
        requires
            old(self).wf(),
        ensures
            final(self).wf(),
            (*final(self), final(counter)@, r@) == old(self).try_another(
                old(counter)@,
                match said {
                    Some(s) => Some(s@),
                    None => None,
                },
            ),
    {
        if self.tried < self.ports.upstream_count as u32 {
            self.tried += 1;
            ConnectStep::Attempt(reserved_port(&self.ports, counter.take()))
        } else {
            self.ended = true;
            ConnectStep::Failed(ConnectError::NoFreePort(said))
        }
    }

    /// Goes on after the present attempt came to `event`.
    pub fn advance(&mut self, counter: &mut PortCounter, event: ConnectEvent<String>) -> (r:
        ConnectStep<String>)
        requires
            old(self).wf(),
            !old(self).ended,
        ensures
            final(self).wf(),
            (*final(self), final(counter)@, r@) == old(self).next(old(counter)@, event@),
            !final(self).ended <==> r is Attempt,
    {
        match event {
            ConnectEvent::SocketFailed => {
                self.ended = true;
                ConnectStep::Failed(ConnectError::NoSocket)
            },
            ConnectEvent::BindFailed(said) => self.attempt(counter, Some(said)),
            ConnectEvent::ConnectFailed => {
                self.ended = true;
                ConnectStep::Failed(ConnectError::Unreachable(self.server))
            },
            ConnectEvent::Connected => {
                self.ended = true;
                ConnectStep::Connected
            },
        }
    }
}

/// Begins a connection to `server`: what is to be kept, and what to do first.
pub fn connect_reserved(ports: &Ports, server: SocketV4, counter: &mut PortCounter) -> (r: (
    Connector,
    ConnectStep<String>,
))
    requires
        ports.wf(),
    ensures
        r.0.wf(),
        (r.0, final(counter)@, r.1@) == Connector::fresh(*ports, server).try_another(
            old(counter)@,
            None,
        ),
        !r.0.ended <==> r.1 is Attempt,
{
    let mut connector = Connector { ports: *ports, server, tried: 0, ended: false };
    let step = connector.attempt(counter, None);
    (connector, step)
}

/// Connecting goes on to another port only after one that could not be bound, and while there
/// are ports that were not tried. Whenever it does not go on it has ended, and it is only while
/// it has not that anything more can come of it.
pub proof fn law_attempts_end_with_anything_but_a_refused_port(
    connector: Connector,
    next: u32,
    event: ConnectEvent<Seq<char>>,
)
    requires
        connector.wf(),
        !connector.ended,
    ensures
        connector.next(next, event).2 is Attempt <==> event is BindFailed && connector.tried
            < connector.ports.upstream_count,
        connector.next(next, event).2 is Attempt <==> !connector.next(next, event).0.ended,
        !(connector.next(next, event).2 is Attempt) ==> connector.next(next, event).1 == next,
{
}

/// Where a connection stands after its first ports could not be bound, one for each of `said`,
/// if it takes its numbers from `first` on and nobody else takes any.
pub open spec fn refused(ports: Ports, server: SocketV4, first: u32, said: Seq<Seq<char>>) -> (
    Connector,
    u32,
    ConnectStep<Seq<char>>,
)
    decreases said.len(),
{
    if said.len() == 0 {
        Connector::fresh(ports, server).try_another(first, None)
    } else {
        let before = refused(ports, server, first, said.drop_last());
        before.0.next(before.1, ConnectEvent::BindFailed(said.last()))
    }
}

/// A connection that finds no port free, and that nobody else takes numbers from, tries as many
/// ports as are reserved, one after another by the numbers in a row, and then ends because of
/// what was said of the last one.
pub proof fn law_connecting_gives_up_after_all_ports(
    ports: Ports,
    server: SocketV4,
    first: u32,
    said: Seq<Seq<char>>,
)
    requires
        ports.wf(),
        said.len() <= ports.upstream_count,
    ensures
        refused(ports, server, first, said).2 == if said.len() < ports.upstream_count {
            ConnectStep::Attempt(port_picked(ports, further(first, said.len())) as u16)
        } else if said.len() > 0 {
            ConnectStep::Failed(ConnectError::NoFreePort(Some(said.last())))
        } else {
            ConnectStep::Failed(ConnectError::NoFreePort(None))
        },
        said.len() < ports.upstream_count ==> {
            &&& refused(ports, server, first, said).0 == (Connector {
                ports,
                server,
                tried: (said.len() + 1) as u32,
                ended: false,
            })
            &&& refused(ports, server, first, said).1 == further(first, said.len() + 1)
        },
    decreases said.len(),
{
    if said.len() > 0 {
        law_connecting_gives_up_after_all_ports(ports, server, first, said.drop_last());
    } else {
        reveal_with_fuel(further, 2);
    }
}

/// The counter hands out every number in turn, and zero after the highest.
pub proof fn law_numbers_follow_one_another(n: u32, k: nat)
    ensures
        after(n) == (n + 1) % 0x1_0000_0000,
        further(n, k) == (n + k) % 0x1_0000_0000,
    decreases k,
{
    if k > 0 {
        law_numbers_follow_one_another(n, (k - 1) as nat);
        let before = further(n, (k - 1) as nat);
        assert(after(before) == (before + 1) % 0x1_0000_0000);
    }
}

/// The numbers from zero on pick the reserved ports in turn: the first, then each time the next,
/// and after the last the first again.
pub proof fn law_ports_are_picked_in_turn(ports: Ports, n: u32)
    requires
        ports.upstream_count > 0,
        n < u32::MAX,
    ensures
        port_picked(ports, 0) == ports.upstream_base,
        port_picked(ports, (n + 1) as u32) == if port_picked(ports, n) == ports.upstream_base
            + ports.upstream_count - 1 {
            ports.upstream_base as int
        } else {
            port_picked(ports, n) + 1
        },
{
    let count = ports.upstream_count as int;
    let at = n as int % count;
    assert((n + 1) % count == if at == count - 1 {
        0
    } else {
        at + 1
    }) by (nonlinear_arith)
        requires
            count > 0,
            at == n as int % count,
    {
        let q = n as int / count;
        assert(n as int == q * count + at);
        if at == count - 1 {
            assert(n + 1 == (q + 1) * count + 0);
            vstd::arithmetic::div_mod::lemma_fundamental_div_mod_converse(n + 1, count, q + 1, 0);
        } else {
            assert(n + 1 == q * count + (at + 1));
            vstd::arithmetic::div_mod::lemma_fundamental_div_mod_converse(
                n + 1,
                count,
                q,
                at + 1,
            );
        }
    }
    assert(0int % count == 0) by (nonlinear_arith)
        requires
            count > 0,
    ;
}

/// What an attempt comes to decides how connecting goes on, and the plan and the server stay what
/// they were. That no socket could be made, and that the server was not reached, end it with that
/// error, and a connection ends it. A port that could not be bound has another tried, that which
/// the next number picks, for as long as fewer were tried than there are; with the last one it
/// ends because of what was said of that.
pub proof fn law_each_outcome_of_an_attempt(
    connector: Connector,
    next: u32,
    event: ConnectEvent<Seq<char>>,
)
    requires
        connector.wf(),
        !connector.ended,
    ensures
        ({
            let (then, number, step) = connector.next(next, event);
            &&& then.ports == connector.ports
            &&& then.server == connector.server
            &&& match event {
                ConnectEvent::SocketFailed => step matches ConnectStep::Failed(e)
                    && e is NoSocket,
                ConnectEvent::ConnectFailed => step == ConnectStep::<Seq<char>>::Failed(
                    ConnectError::Unreachable(connector.server),
                ),
                ConnectEvent::Connected => step is Connected,
                ConnectEvent::BindFailed(said) => if connector.tried
                    < connector.ports.upstream_count {
                    &&& step matches ConnectStep::Attempt(port) && port
                        == connector.ports.upstream_base + next as int
                        % connector.ports.upstream_count as int
                    &&& then.tried == connector.tried + 1
                    &&& number == (next + 1) % 0x1_0000_0000
                } else {
                    step == ConnectStep::Failed(ConnectError::NoFreePort(Some(said)))
                },
            }
        }),
{
    let count = connector.ports.upstream_count as int;
    if count > 0 {
        assert(0 <= next as int % count < count) by (nonlinear_arith)
            requires
                count > 0,
        ;
    }
}

/// A connection begins with an attempt from the port that the next number picks, if there is any
/// port at all, and has ended otherwise.
pub proof fn law_first_attempt(ports: Ports, server: SocketV4, next: u32)
    requires
        ports.wf(),
    ensures
        ({
            let (then, number, step) = Connector::fresh(ports, server).try_another(next, None);
            &&& then.ports == ports
            &&& then.server == server
            &&& ports.upstream_count > 0 ==> {
                &&& step matches ConnectStep::Attempt(port) && port == ports.upstream_base
                    + next as int % ports.upstream_count as int
                &&& then.tried == 1 && !then.ended
                &&& number == (next + 1) % 0x1_0000_0000
            }
            &&& ports.upstream_count == 0 ==> {
                &&& step == ConnectStep::<Seq<char>>::Failed(ConnectError::NoFreePort(None))
                &&& then.ended && number == next
            }
        }),
{
    let count = ports.upstream_count as int;
    if count > 0 {
        assert(0 <= next as int % count < count) by (nonlinear_arith)
            requires
                count > 0,
        ;
    }
}

/// Every reason why there is no connection upstream, in words.
pub proof fn law_connect_errors_in_words(e: ConnectError<String>)
    ensures
        match e {
            ConnectError::NoSocket => e@.words() == "creating upstream socket"@,
            ConnectError::NoFreePort(Some(said)) => e@.words()
                == "no free upstream port in reserved range (Some("@ + said@ + "))"@,
            ConnectError::NoFreePort(None) => e@.words()
                == "no free upstream port in reserved range (None)"@,
            ConnectError::Unreachable(server) => e@.words() == "connecting upstream "@
                + server.written(),
        },
{
}

/// Steps and events stand for the same ports and texts in the model as in the program.
pub proof fn law_texts_are_those_of_the_model(
    step: ConnectStep<String>,
    event: ConnectEvent<String>,
)
    ensures
        match step {
            ConnectStep::Attempt(port) => step@ == ConnectStep::<Seq<char>>::Attempt(port),
            ConnectStep::Connected => step@ is Connected,
            ConnectStep::Failed(e) => step@ == ConnectStep::Failed(e@),
        },
        match event {
            ConnectEvent::SocketFailed => event@ is SocketFailed,
            ConnectEvent::BindFailed(said) => event@ == ConnectEvent::BindFailed(said@),
            ConnectEvent::ConnectFailed => event@ is ConnectFailed,
            ConnectEvent::Connected => event@ is Connected,
        },
{
}

} // verus!
