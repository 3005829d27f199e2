//! The HTTPS relay: one session with a client.

use crate::addr::SocketV4;
use crate::receive::ReadEvent;
use vstd::prelude::*;

verus! {

/// The first byte of a TLS record that carries a handshake.
pub const TLS_HANDSHAKE: u8 = 22;

/// How many bytes the first read from a client asks for.
pub const FIRST_READ_LEN: usize = 65535;

/// What a session has done next.
pub enum HttpsAction<B> {
    /// Find out where the client was going.
    FindDest,
    /// Connect to this server.
    Connect(SocketV4),
    /// Read what the client sends first.
    ReadFirst,
    /// Have this greeting cut into records, with pieces of it that are no shorter than the first
    /// bound and no longer than the second.
    Split(B, usize, usize),
    /// Write these bytes to the server.
    Write(B),
    /// Make a second handle on either connection.
    CloneHandles,
    /// Copy from each connection to the other, until both ways have ended.
    Pump,
    /// Close both connections.
    Close,
}

/// What became of it. `L` is a list of records.
pub enum HttpsEvent<B, L> {
    /// The client was going there, if it is known.
    Dest(Option<SocketV4>),
    /// The server was reached, or was not.
    Connected(bool),
    /// The first read came to this; with what it failed, if it did, changes nothing.
    First(ReadEvent<B, ()>),
    /// These are the records.
    Segments(L),
    /// Everything was written, or was not.
    Written(bool),
    /// The handles were made, or were not.
    Cloned(bool),
}

/// The bytes of each record of a list.
pub open spec fn records(list: Seq<Vec<u8>>) -> Seq<Seq<u8>> {
    list.map_values(|b: Vec<u8>| b@)
}

impl View for HttpsAction<Vec<u8>> {
    type V = HttpsAction<Seq<u8>>;

    open spec fn view(&self) -> HttpsAction<Seq<u8>> {
        match self {
            HttpsAction::FindDest => HttpsAction::FindDest,
            HttpsAction::Connect(server) => HttpsAction::Connect(*server),
            HttpsAction::ReadFirst => HttpsAction::ReadFirst,
            HttpsAction::Split(b, min, max) => HttpsAction::Split(b@, *min, *max),
            HttpsAction::Write(b) => HttpsAction::Write(b@),
            HttpsAction::CloneHandles => HttpsAction::CloneHandles,
            HttpsAction::Pump => HttpsAction::Pump,
            HttpsAction::Close => HttpsAction::Close,
        }
    }
}

/// An event in terms of bytes.
pub type HttpsHappening = HttpsEvent<Seq<u8>, Seq<Seq<u8>>>;

impl View for HttpsEvent<Vec<u8>, Vec<Vec<u8>>> {
    type V = HttpsHappening;

    open spec fn view(&self) -> HttpsHappening {
        match self {
            HttpsEvent::Dest(d) => HttpsEvent::Dest(*d),
            HttpsEvent::Connected(ok) => HttpsEvent::Connected(*ok),
            HttpsEvent::First(e) => HttpsEvent::First(e@),
            HttpsEvent::Segments(l) => HttpsEvent::Segments(records(l@)),
            HttpsEvent::Written(ok) => HttpsEvent::Written(*ok),
            HttpsEvent::Cloned(ok) => HttpsEvent::Cloned(*ok),
        }
    }
}

/// Where a session stands. `L` is a list of records.
pub enum HttpsState<L> {
    /// It is being found out where the client was going.
    Looking,
    /// The server is being reached.
    Connecting,
    /// What the client sends first is being read.
    Reading,
    /// A greeting is being cut.
    Splitting,
    /// A record is being written; these are left.
    Writing(L),
    /// The second handles are being made.
    Cloning,
    /// Both ways are being copied.
    Pumping,
    /// The connections are closed.
    Closed,
}

impl View for HttpsState<Vec<Vec<u8>>> {
    type V = HttpsState<Seq<Seq<u8>>>;

    open spec fn view(&self) -> HttpsState<Seq<Seq<u8>>> {
        match self {
            HttpsState::Looking => HttpsState::Looking,
            HttpsState::Connecting => HttpsState::Connecting,
            HttpsState::Reading => HttpsState::Reading,
            HttpsState::Splitting => HttpsState::Splitting,
            HttpsState::Writing(l) => HttpsState::Writing(records(l@)),
            HttpsState::Cloning => HttpsState::Cloning,
            HttpsState::Pumping => HttpsState::Pumping,
            HttpsState::Closed => HttpsState::Closed,
        }
    }
}

/// How long the pieces are that a greeting is cut into.
#[derive(Clone, Copy, Debug, PartialEq, Eq)]
pub struct Cut {
    /// The least length.
    pub min: usize,
    /// The greatest length.
    pub max: usize,
}

/// One session with a client.
pub struct HttpsSession {
    /// How its greeting is cut.
    pub cut: Cut,
    /// Where it stands.
    pub state: HttpsState<Vec<Vec<u8>>>,
}

/// Whether what a client sends first starts a TLS handshake.
pub open spec fn greets(first: Seq<u8>) -> bool {
    first.len() > 0 && first[0] == TLS_HANDSHAKE
}

impl HttpsState<Seq<Seq<u8>>> {
    /// Whether `event` can come next.
    pub open spec fn expects(self, event: HttpsHappening) -> bool {
        match self {
            HttpsState::Looking => event is Dest,
            HttpsState::Connecting => event is Connected,
            HttpsState::Reading => event is First,
            HttpsState::Splitting => event is Segments,
            HttpsState::Writing(_) => event is Written,
            HttpsState::Cloning => event is Cloned,
            HttpsState::Pumping => false,
            HttpsState::Closed => false,
        }
    }

    /// What a session does that has these records left to write.
    pub open spec fn write_on(left: Seq<Seq<u8>>) -> (
        HttpsState<Seq<Seq<u8>>>,
        HttpsAction<Seq<u8>>,
    ) {
        if left.len() == 0 {
            (HttpsState::Cloning, HttpsAction::CloneHandles)
        } else {
            (HttpsState::Writing(left.drop_first()), HttpsAction::Write(left.first()))
        }
    }

    /// Where the session stands after `event`, and what it has done next. What the client sends
    /// first is written to the server: cut into records within the bounds of `cut` where it
    /// starts a TLS handshake, as it is where it does not. Then both ways are copied. Whatever
    /// fails closes the connections.
    pub open spec fn next(self, cut: Cut, event: HttpsHappening) -> (
        HttpsState<Seq<Seq<u8>>>,
        HttpsAction<Seq<u8>>,
    ) {
        match (self, event) {
            (HttpsState::Looking, HttpsEvent::Dest(Some(server))) => (
                HttpsState::Connecting,
                HttpsAction::Connect(server),
            ),
            (HttpsState::Connecting, HttpsEvent::Connected(true)) => (
                HttpsState::Reading,
                HttpsAction::ReadFirst,
            ),
            (HttpsState::Reading, HttpsEvent::First(ReadEvent::Data(first))) => if first.len()
                == 0 {
                (HttpsState::Closed, HttpsAction::Close)
            } else if greets(first) {
                (HttpsState::Splitting, HttpsAction::Split(first, cut.min, cut.max))
            } else {
                (HttpsState::Writing(Seq::empty()), HttpsAction::Write(first))
            },
            (HttpsState::Splitting, HttpsEvent::Segments(list)) => Self::write_on(list),
            (HttpsState::Writing(left), HttpsEvent::Written(true)) => Self::write_on(left),
            (HttpsState::Cloning, HttpsEvent::Cloned(true)) => (
                HttpsState::Pumping,
                HttpsAction::Pump,
            ),
            _ => (HttpsState::Closed, HttpsAction::Close),
        }
    }
}

/// Begins a session: it is found out where the client was going. Its greeting is to be cut into
/// pieces of `split_min` to `split_max` bytes.
pub fn serve_https_client(split_min: usize, split_max: usize) -> (r: (
    HttpsSession,
    HttpsAction<Vec<u8>>,
))
    ensures
        r.0.cut == (Cut { min: split_min, max: split_max }),
        r.0.state@ == HttpsState::<Seq<Seq<u8>>>::Looking,
        r.1@ == HttpsAction::<Seq<u8>>::FindDest,
{
    let cut = Cut { min: split_min, max: split_max };
    (HttpsSession { cut, state: HttpsState::Looking }, HttpsAction::FindDest)
}

fn write_next(mut left: Vec<Vec<u8>>) -> (r: (HttpsState<Vec<Vec<u8>>>, HttpsAction<Vec<u8>>))
    ensures
        (r.0@, r.1@) == HttpsState::<Seq<Seq<u8>>>::write_on(records(left@)),
{
    if left.len() == 0 {
        (HttpsState::Cloning, HttpsAction::CloneHandles)
    } else {
        let ghost all = left@;
        let record = left.remove(0);
        assert(records(left@) =~= records(all).drop_first());
        (HttpsState::Writing(left), HttpsAction::Write(record))
    }
}

impl HttpsSession {
    /// Whether `event` can come next.
    pub fn accepts(&self, event: &HttpsEvent<Vec<u8>, Vec<Vec<u8>>>) -> (r: bool)
        ensures
            r == self.state@.expects(event@),
    {
        match (&self.state, event) {
            (HttpsState::Looking, HttpsEvent::Dest(_)) => true,
            (HttpsState::Connecting, HttpsEvent::Connected(_)) => true,
            (HttpsState::Reading, HttpsEvent::First(_)) => true,
            (HttpsState::Splitting, HttpsEvent::Segments(_)) => true,
            (HttpsState::Writing(_), HttpsEvent::Written(_)) => true,
            (HttpsState::Cloning, HttpsEvent::Cloned(_)) => true,
            _ => false,
        }
    }

    /// Goes on after `event`.
    pub fn advance(self, event: HttpsEvent<Vec<u8>, Vec<Vec<u8>>>) -> (r: (
        HttpsSession,
        HttpsAction<Vec<u8>>,
    ))
        requires
            self.state@.expects(event@),
        ensures
            r.0.cut == self.cut,
            (r.0.state@, r.1@) == self.state@.next(self.cut, event@),
    {
        let cut = self.cut;
        let (state, action) = match (self.state, event) {
            (HttpsState::Looking, HttpsEvent::Dest(Some(server))) => {
                (HttpsState::Connecting, HttpsAction::Connect(server))
            },
            (HttpsState::Connecting, HttpsEvent::Connected(true)) => {
                (HttpsState::Reading, HttpsAction::ReadFirst)
            },
            (HttpsState::Reading, HttpsEvent::First(ReadEvent::Data(first))) => {
                if first.len() == 0 {
                    (HttpsState::Closed, HttpsAction::Close)
                } else if first[0] == TLS_HANDSHAKE {
                    (HttpsState::Splitting, HttpsAction::Split(first, cut.min, cut.max))
                } else {
                    let none: Vec<Vec<u8>> = Vec::new();
                    assert(records(none@) =~= Seq::empty());
                    (HttpsState::Writing(none), HttpsAction::Write(first))
                }
            },
            (HttpsState::Splitting, HttpsEvent::Segments(list)) => write_next(list),
            (HttpsState::Writing(left), HttpsEvent::Written(true)) => write_next(left),
            (HttpsState::Cloning, HttpsEvent::Cloned(true)) => {
                (HttpsState::Pumping, HttpsAction::Pump)
            },
            _ => (HttpsState::Closed, HttpsAction::Close),
        };
        (HttpsSession { cut, state }, action)
    }
}

/// Where a session stands after `events`, counted from its beginning.
pub open spec fn relay_after(cut: Cut, events: Seq<HttpsHappening>) -> HttpsState<Seq<Seq<u8>>>
    decreases events.len(),
{
    if events.len() == 0 {
        HttpsState::Looking
    } else {
        relay_after(cut, events.drop_last()).next(cut, events.last()).0
    }
}

/// Whether `events` can be what happens in a session, one after another, from its beginning.
pub open spec fn relay_possible(cut: Cut, events: Seq<HttpsHappening>) -> bool
    decreases events.len(),
{
    events.len() > 0 ==> {
        &&& relay_possible(cut, events.drop_last())
        &&& relay_after(cut, events.drop_last()).expects(events.last())
    }
}

/// What the session has had written to the server, write by write.
pub open spec fn relay_written(cut: Cut, events: Seq<HttpsHappening>) -> Seq<Seq<u8>>
    decreases events.len(),
{
    if events.len() == 0 {
        Seq::empty()
    } else {
        relay_written(cut, events.drop_last()) + match relay_after(cut, events.drop_last()).next(
            cut,
            events.last(),
        ).1 {
            HttpsAction::Write(b) => seq![b],
            _ => Seq::empty(),
        }
    }
}

/// What is to be written to the server on account of what the client sent first: the records
/// that its greeting was cut into, or what it sent where that is no greeting.
pub open spec fn relay_due(events: Seq<HttpsHappening>) -> Seq<Seq<u8>>
    decreases events.len(),
{
    if events.len() == 0 {
        Seq::empty()
    } else {
        match events.last() {
            HttpsEvent::First(ReadEvent::Data(first)) => if first.len() > 0 && first[0] != 22 {
                seq![first]
            } else {
                Seq::empty()
            },
            HttpsEvent::Segments(list) => list,
            _ => relay_due(events.drop_last()),
        }
    }
}

proof fn lemma_relay_left(cut: Cut, events: Seq<HttpsHappening>)
    requires
        relay_possible(cut, events),
    ensures
        match relay_after(cut, events) {
            HttpsState::Writing(left) => relay_due(events) == relay_written(cut, events) + left,
            HttpsState::Cloning => relay_due(events) == relay_written(cut, events),
            HttpsState::Pumping => relay_due(events) == relay_written(cut, events),
            HttpsState::Closed => relay_written(cut, events).is_prefix_of(relay_due(events)),
            _ => relay_written(cut, events).len() == 0 && relay_due(events).len() == 0,
        },
    decreases events.len(),
{
    if events.len() > 0 {
        let before = events.drop_last();
        lemma_relay_left(cut, before);
        match (relay_after(cut, before), events.last()) {
            (HttpsState::Reading, HttpsEvent::First(ReadEvent::Data(first))) => {
                assert(relay_written(cut, events) + Seq::<Seq<u8>>::empty() =~= relay_written(
                    cut,
                    events,
                ));
                if first.len() > 0 && first[0] != 22 {
                    assert(relay_written(cut, events) =~= relay_due(events));
                }
            },
            (HttpsState::Splitting, HttpsEvent::Segments(list)) => {
                if list.len() > 0 {
                    assert(relay_written(cut, events) + list.drop_first() =~= list);
                } else {
                    assert(relay_written(cut, events) =~= list);
                }
            },
            (HttpsState::Writing(left), HttpsEvent::Written(true)) => {
                if left.len() > 0 {
                    assert(relay_written(cut, events) + left.drop_first() =~= relay_written(
                        cut,
                        before,
                    ) + left);
                } else {
                    assert(relay_written(cut, events) =~= relay_due(events));
                }
            },
            _ => {
                assert(relay_written(cut, events) =~= relay_written(cut, before));
                if let HttpsState::Writing(left) = relay_after(cut, before) {
                    let all = relay_written(cut, before) + left;
                    assert(relay_written(cut, before) =~= all.subrange(
                        0,
                        relay_written(cut, before).len() as int,
                    ));
                }
            },
        }
    }
}

/// Once both ways are copied, the server has been sent exactly what is due to it on account of
/// what the client sent first: the records of its greeting, whole and in order, or what it sent,
/// where that is no greeting. At no time has it been sent anything else.
pub proof fn law_first_flight_is_written_whole_and_in_order(cut: Cut, events: Seq<HttpsHappening>)
    requires
        relay_possible(cut, events),
    ensures
        relay_after(cut, events) is Cloning || relay_after(cut, events) is Pumping
            ==> relay_written(cut, events) == relay_due(events),
        relay_written(cut, events).is_prefix_of(relay_due(events)),
{
    lemma_relay_left(cut, events);
    if let HttpsState::Writing(left) = relay_after(cut, events) {
        assert(relay_written(cut, events) =~= relay_due(events).subrange(
            0,
            relay_written(cut, events).len() as int,
        ));
    }
    assert(relay_written(cut, events) =~= relay_written(cut, events).subrange(
        0,
        relay_written(cut, events).len() as int,
    ));
}

/// Whatever fails, and a client that sends nothing, close the connections: nothing is written on
/// account of it, and nothing happens after it.
pub proof fn law_failure_closes_the_connections(
    cut: Cut,
    events: Seq<HttpsHappening>,
    failure: HttpsHappening,
    later: HttpsHappening,
)
    requires
        relay_possible(cut, events.push(failure)),
        match failure {
            HttpsEvent::Dest(dest) => dest is None,
            HttpsEvent::Connected(ok) => !ok,
            HttpsEvent::First(ReadEvent::Data(first)) => first.len() == 0,
            HttpsEvent::First(ReadEvent::Failed(_)) => true,
            HttpsEvent::Segments(_) => false,
            HttpsEvent::Written(ok) => !ok,
            HttpsEvent::Cloned(ok) => !ok,
        },
    ensures
        relay_after(cut, events).next(cut, failure).1 is Close,
        relay_written(cut, events.push(failure)) == relay_written(cut, events),
        !relay_possible(cut, events.push(failure).push(later)),
{
    let all = events.push(failure);
    assert(all.drop_last() =~= events);
    assert(all.push(later).drop_last() =~= all);
    assert(relay_written(cut, all) =~= relay_written(cut, events));
}

/// What a client sends first is cut if its first byte is 22, with which a TLS handshake starts,
/// however long it is, and is written as it is if it starts with any other byte. It is handed on
/// whole in either case, and a greeting together with the bounds of the session.
pub proof fn law_first_byte_alone_decides_what_is_cut(
    cut: Cut,
    first: Seq<u8>,
    list: Seq<Seq<u8>>,
    ok: bool,
)
    requires
        first.len() > 0,
    ensures
        ({
            let (state, action) = HttpsState::<Seq<Seq<u8>>>::Reading.next(
                cut,
                HttpsEvent::First(ReadEvent::Data(first)),
            );
            &&& first[0] == 22 ==> {
                &&& action == HttpsAction::Split(first, cut.min, cut.max)
                &&& state.expects(HttpsEvent::Segments(list))
            }
            &&& first[0] != 22 ==> {
                &&& action == HttpsAction::Write(first)
                &&& state.expects(HttpsEvent::Written(ok))
                &&& state.next(cut, HttpsEvent::Written(true)).1 is CloneHandles
            }
        }),
{
}

/// A session waits for the outcome of what it has had done, whatever that is, and for nothing
/// else; once it has closed the connections, or has had both ways copied, it waits for nothing.
pub proof fn law_session_waits_for_the_outcome_of_its_action(
    cut: Cut,
    state: HttpsState<Seq<Seq<u8>>>,
    event: HttpsHappening,
    later: HttpsHappening,
)
    requires
        state.expects(event),
    ensures
        ({
            let (after, action) = state.next(cut, event);
            match action {
                HttpsAction::FindDest => false,
                HttpsAction::Connect(_) => after.expects(later) <==> later is Connected,
                HttpsAction::ReadFirst => after.expects(later) <==> later is First,
                HttpsAction::Split(_, _, _) => after.expects(later) <==> later is Segments,
                HttpsAction::Write(_) => after.expects(later) <==> later is Written,
                HttpsAction::CloneHandles => after.expects(later) <==> later is Cloned,
                HttpsAction::Pump => !after.expects(later),
                HttpsAction::Close => !after.expects(later),
            }
        }),
        HttpsState::<Seq<Seq<u8>>>::Looking.expects(later) <==> later is Dest,
        state.next(cut, event).0 is Closed <==> state.next(cut, event).1 is Close,
        state.next(cut, event).0 is Pumping <==> state.next(cut, event).1 is Pump,
{
}

/// A session closes the connections on a failure, and on a client that sends nothing, and on
/// nothing else. A success takes it one step further: from the destination to the connection
/// there, to the first read, to the records one by one, to the handles, to the copying.
pub proof fn law_success_leads_on(
    cut: Cut,
    state: HttpsState<Seq<Seq<u8>>>,
    event: HttpsHappening,
)
    requires
        state.expects(event),
    ensures
        ({
            let action = state.next(cut, event).1;
            match event {
                HttpsEvent::Dest(Some(server)) => action == HttpsAction::<Seq<u8>>::Connect(server),
                HttpsEvent::Dest(None) => action is Close,
                HttpsEvent::Connected(ok) => if ok {
                    action is ReadFirst
                } else {
                    action is Close
                },
                HttpsEvent::First(ReadEvent::Data(first)) => action is Close <==> first.len() == 0,
                HttpsEvent::First(ReadEvent::Failed(_)) => action is Close,
                HttpsEvent::Segments(list) => if list.len() > 0 {
                    action == HttpsAction::Write(list[0])
                } else {
                    action is CloneHandles
                },
                HttpsEvent::Written(ok) => if ok {
                    action is Write || action is CloneHandles
                } else {
                    action is Close
                },
                HttpsEvent::Cloned(ok) => if ok {
                    action is Pump
                } else {
                    action is Close
                },
            }
        }),
{
}

/// The `i`th record that a greeting was cut into is what is written after `i` records have been:
/// a session that has them all to write writes each one as it is, and makes the handles after
/// the last.
pub proof fn law_records_are_written_one_by_one(
    cut: Cut,
    before: Seq<HttpsHappening>,
    list: Seq<Seq<u8>>,
    i: nat,
)
    requires
        relay_possible(cut, before.push(HttpsEvent::Segments(list))),
        i <= list.len(),
    ensures
        ({
            let so_far = before.push(HttpsEvent::Segments(list)) + Seq::new(
                i,
                |k: int| HttpsEvent::Written(true),
            );
            &&& relay_possible(cut, so_far)
            &&& i < list.len() ==> relay_after(cut, so_far) == HttpsState::Writing(
                list.skip(i as int + 1),
            ) && relay_written(cut, so_far) == list.take(i as int + 1)
            &&& i == list.len() ==> relay_after(cut, so_far) is Cloning && relay_written(
                cut,
                so_far,
            ) == list
        }),
    decreases i,
{
    let start = before.push(HttpsEvent::Segments(list));
    let so_far = start + Seq::new(i, |k: int| HttpsEvent::Written(true));
    assert(start.drop_last() =~= before);
    if i == 0 {
        assert(so_far =~= start);
        lemma_relay_left(cut, before);
        lemma_relay_left(cut, start);
        if list.len() > 0 {
            assert(list.drop_first() =~= list.skip(1));
            assert(relay_written(cut, start) =~= list.take(1));
        } else {
            assert(relay_written(cut, start) =~= list);
        }
    } else {
        let shorter = start + Seq::new((i - 1) as nat, |k: int| HttpsEvent::Written(true));
        law_records_are_written_one_by_one(cut, before, list, (i - 1) as nat);
        assert(so_far.drop_last() =~= shorter);
        assert(so_far.last() == HttpsEvent::<Seq<u8>, Seq<Seq<u8>>>::Written(true));
        let left = list.skip(i as int);
        if i < list.len() {
            assert(left.drop_first() =~= list.skip(i as int + 1));
            assert(left.first() == list[i as int]);
            assert(relay_written(cut, so_far) =~= list.take(i as int + 1));
        } else {
            assert(relay_written(cut, so_far) =~= list);
        }
    }
}

/// Actions and events stand for the same bytes in the model as in the program.
pub proof fn law_bytes_are_those_of_the_model(
    action: HttpsAction<Vec<u8>>,
    event: HttpsEvent<Vec<u8>, Vec<Vec<u8>>>,
    i: int,
)
    ensures
        match action {
            HttpsAction::FindDest => action@ is FindDest,
            HttpsAction::Connect(server) => action@ == HttpsAction::<Seq<u8>>::Connect(server),
            HttpsAction::ReadFirst => action@ is ReadFirst,
            HttpsAction::Split(b, min, max) => action@ == HttpsAction::Split(b@, min, max),
            HttpsAction::Write(b) => action@ == HttpsAction::Write(b@),
            HttpsAction::CloneHandles => action@ is CloneHandles,
            HttpsAction::Pump => action@ is Pump,
            HttpsAction::Close => action@ is Close,
        },
        match event {
            HttpsEvent::Dest(dest) => event@ matches HttpsEvent::Dest(d) && d == dest,
            HttpsEvent::Connected(ok) => event@ matches HttpsEvent::Connected(b) && b == ok,
            HttpsEvent::First(read) => event@ matches HttpsEvent::First(e) && match read {
                ReadEvent::Data(d) => e == ReadEvent::<Seq<u8>, ()>::Data(d@),
                ReadEvent::Failed(_) => e is Failed,
            },
            HttpsEvent::Segments(list) => event@ matches HttpsEvent::Segments(l) && {
                &&& l.len() == list@.len()
                &&& 0 <= i < l.len() ==> l[i] == list@[i]@
            },
            HttpsEvent::Written(ok) => event@ matches HttpsEvent::Written(b) && b == ok,
            HttpsEvent::Cloned(ok) => event@ matches HttpsEvent::Cloned(b) && b == ok,
        },
{
}

/// A greeting of up to 65535 bytes can come in one read.
pub proof fn law_first_read_takes_65535_bytes(first: Seq<u8>)
    ensures
        first.len() <= FIRST_READ_LEN <==> first.len() <= 65535,
{
}

} // verus!
