//! DNS over TCP: one session with a client.

use crate::bytes::u16_at;
use crate::framing::frame;
use crate::receive::{recv_exactly, ReadEvent, Receiver, RecvStep};
use crate::{bytes, framing};
use vstd::prelude::*;

verus! {

/// What a session has done next.
pub enum TcpAction<B> {
    /// Read from the client, this many bytes at most.
    Read(usize),
    /// Have this query answered.
    Resolve(B),
    /// Write these bytes to the client.
    Write(B),
    /// Close the connection.
    Close,
}

/// What became of it.
pub enum TcpEvent<B> {
    /// The read came to this; with what it failed, if it did, changes nothing.
    Read(ReadEvent<B, ()>),
    /// This is the answer.
    Resolved(B),
    /// There is no answer.
    ResolveFailed,
    /// Everything was written.
    Written,
    /// Not everything could be written.
    WriteFailed,
}

impl View for TcpAction<Vec<u8>> {
    type V = TcpAction<Seq<u8>>;

    open spec fn view(&self) -> TcpAction<Seq<u8>> {
        match self {
            TcpAction::Read(n) => TcpAction::Read(*n),
            TcpAction::Resolve(q) => TcpAction::Resolve(q@),
            TcpAction::Write(b) => TcpAction::Write(b@),
            TcpAction::Close => TcpAction::Close,
        }
    }
}

impl View for TcpEvent<Vec<u8>> {
    type V = TcpEvent<Seq<u8>>;

    open spec fn view(&self) -> TcpEvent<Seq<u8>> {
        match self {
            TcpEvent::Read(e) => TcpEvent::Read(e@),
            TcpEvent::Resolved(a) => TcpEvent::Resolved(a@),
            TcpEvent::ResolveFailed => TcpEvent::ResolveFailed,
            TcpEvent::Written => TcpEvent::Written,
            TcpEvent::WriteFailed => TcpEvent::WriteFailed,
        }
    }
}

/// Where a session stands.
pub enum TcpState {
    /// A query is arriving; these bytes of it are there, its length among them.
    Reading(Seq<u8>),
    /// A query is being answered.
    Resolving,
    /// An answer is being written.
    Writing,
    /// The connection is closed.
    Closed,
}

impl TcpState {
    /// Whether `event` can come next: it belongs to what the session waits for, and no read
    /// brings more than was asked for.
    pub open spec fn expects(self, event: TcpEvent<Seq<u8>>) -> bool {
        match (self, event) {
            (TcpState::Reading(got), TcpEvent::Read(ReadEvent::Data(d))) => d.len()
                <= framing::frame_missing(got),
            (TcpState::Reading(_), TcpEvent::Read(ReadEvent::Failed(_))) => true,
            (TcpState::Resolving, TcpEvent::Resolved(_)) => true,
            (TcpState::Resolving, TcpEvent::ResolveFailed) => true,
            (TcpState::Writing, TcpEvent::Written) => true,
            (TcpState::Writing, TcpEvent::WriteFailed) => true,
            _ => false,
        }
    }

    /// Where the session stands after `event`, and what it has done next. A query that is whole
    /// is answered, its answer is written after its length, and then the next query is read.
    /// Whatever fails, and the end of the stream, closes the connection.
    pub open spec fn next(self, event: TcpEvent<Seq<u8>>) -> (TcpState, TcpAction<Seq<u8>>) {
        match (self, event) {
            (TcpState::Reading(got), TcpEvent::Read(ReadEvent::Data(d))) => {
                let now = got + d;
                if d.len() == 0 {
                    (TcpState::Closed, TcpAction::Close)
                } else if framing::frame_whole(now) {
                    (TcpState::Resolving, TcpAction::Resolve(framing::frame_body(now)))
                } else {
                    (
                        TcpState::Reading(now),
                        TcpAction::Read(framing::frame_missing(now) as usize),
                    )
                }
            },
            (TcpState::Resolving, TcpEvent::Resolved(answer)) => (
                TcpState::Writing,
                TcpAction::Write(framing::framed(answer)),
            ),
            (TcpState::Writing, TcpEvent::Written) => (
                TcpState::Reading(Seq::empty()),
                TcpAction::Read(2),
            ),
            _ => (TcpState::Closed, TcpAction::Close),
        }
    }
}

enum Phase {
    Length(Receiver),
    Query(Receiver),
    Resolving,
    Writing,
    Closed,
}

/// One session with a client.
pub struct TcpSession {
    phase: Phase,
}

impl View for TcpSession {
    type V = TcpState;

    closed spec fn view(&self) -> TcpState {
        match self.phase {
            Phase::Length(r) => TcpState::Reading(r.got()),
            Phase::Query(r) => TcpState::Reading(bytes::big_endian(r.want() as u16) + r.got()),
            Phase::Resolving => TcpState::Resolving,
            Phase::Writing => TcpState::Writing,
            Phase::Closed => TcpState::Closed,
        }
    }
}

/// Begins a session: the length of the first query is read.
pub fn serve_tcp_client() -> (r: (TcpSession, TcpAction<Vec<u8>>))
    ensures
        r.0.wf(),
        r.0@ == TcpState::Reading(Seq::empty()),
        r.1@ == TcpAction::<Seq<u8>>::Read(2),
{
    let (receiver, _) = recv_exactly::<()>(2);
    (TcpSession { phase: Phase::Length(receiver) }, TcpAction::Read(2))
}

impl TcpSession {
    /// What arrives is part of a length, or of a query whose length is known.
    pub closed spec fn wf(self) -> bool {
        match self.phase {
            Phase::Length(r) => r.wf() && r.want() == 2 && r.missing() > 0,
            Phase::Query(r) => r.wf() && r.want() <= u16::MAX && r.missing() > 0,
            _ => true,
        }
    }

    /// Whether `event` can come next.
    pub fn accepts(&self, event: &TcpEvent<Vec<u8>>) -> (r: bool)
        requires
            self.wf(),
        ensures
            r == self@.expects(event@),
    {
        match (&self.phase, event) {
            (Phase::Length(receiver), TcpEvent::Read(ReadEvent::Data(d))) => {
                d.len() <= receiver.still_missing()
            },
            (Phase::Query(receiver), TcpEvent::Read(ReadEvent::Data(d))) => {
                proof {
                    lemma_query_missing(*receiver);
                }
                d.len() <= receiver.still_missing()
            },
            (Phase::Length(_), TcpEvent::Read(ReadEvent::Failed(_))) => true,
            (Phase::Query(_), TcpEvent::Read(ReadEvent::Failed(_))) => true,
            (Phase::Resolving, TcpEvent::Resolved(_)) => true,
            (Phase::Resolving, TcpEvent::ResolveFailed) => true,
            (Phase::Writing, TcpEvent::Written) => true,
            (Phase::Writing, TcpEvent::WriteFailed) => true,
            _ => false,
        }
    }

    /// Goes on after `event`.
    pub fn advance(&mut self, event: TcpEvent<Vec<u8>>) -> (r: TcpAction<Vec<u8>>)
        requires
            old(self).wf(),
            old(self)@.expects(event@),
        ensures
            final(self).wf(),
            (final(self)@, r@) == old(self)@.next(event@),
    {
        let mut phase = Phase::Closed;
        std::mem::swap(&mut phase, &mut self.phase);
        match (phase, event) {
            (Phase::Length(receiver), TcpEvent::Read(read)) => self.length_read(receiver, read),
            (Phase::Query(receiver), TcpEvent::Read(read)) => self.query_read(receiver, read),
            (Phase::Resolving, TcpEvent::Resolved(answer)) => {
                self.phase = Phase::Writing;
                TcpAction::Write(frame(&answer))
            },
            (Phase::Writing, TcpEvent::Written) => {
                let (receiver, _) = recv_exactly::<()>(2);
                self.phase = Phase::Length(receiver);
                TcpAction::Read(2)
            },
            _ => TcpAction::Close,
        }
    }

    fn length_read(
        &mut self,
        mut receiver: Receiver,
        read: ReadEvent<Vec<u8>, ()>,
    ) -> (r: TcpAction<Vec<u8>>)
        requires
            old(self).phase is Closed,
            receiver.wf(),
            receiver.want() == 2,
            receiver.missing() > 0,
            TcpState::Reading(receiver.got()).expects(TcpEvent::Read(read@)),
        ensures
            final(self).wf(),
            (final(self)@, r@) == TcpState::Reading(receiver.got()).next(TcpEvent::Read(read@)),
    {
        let step = receiver.received(read);
        match step {
            RecvStep::Read(n) => {
                self.phase = Phase::Length(receiver);
                TcpAction::Read(n)
            },
            RecvStep::Failed(_) => TcpAction::Close,
            RecvStep::Done => {
                if receiver.still_missing() > 0 {
                    return TcpAction::Close;
                }
                let header = receiver.into_bytes();
                let length: u16 = u16_at(&header, 0);
                assert(header@.skip(0) =~= header@);
                assert(bytes::big_endian(length) =~= header@);
                let (query, first) = recv_exactly::<()>(length as usize);
                assert(bytes::big_endian(length) + query.got() =~= header@);
                proof {
                    lemma_query_missing(query);
                }
                match first {
                    RecvStep::Read(n) => {
                        self.phase = Phase::Query(query);
                        TcpAction::Read(n)
                    },
                    _ => {
                        self.phase = Phase::Resolving;
                        TcpAction::Resolve(query.into_bytes())
                    },
                }
            },
        }
    }

    fn query_read(
        &mut self,
        mut receiver: Receiver,
        read: ReadEvent<Vec<u8>, ()>,
    ) -> (r: TcpAction<Vec<u8>>)
        requires
            old(self).phase is Closed,
            receiver.wf(),
            receiver.want() <= u16::MAX,
            receiver.missing() > 0,
            TcpState::Reading(
                bytes::big_endian(receiver.want() as u16) + receiver.got(),
            ).expects(TcpEvent::Read(read@)),
        ensures
            final(self).wf(),
            (final(self)@, r@) == TcpState::Reading(
                bytes::big_endian(receiver.want() as u16) + receiver.got(),
            ).next(TcpEvent::Read(read@)),
    {
        proof {
            lemma_query_missing(receiver);
        }
        let ghost header = bytes::big_endian(receiver.want() as u16);
        let ghost before = receiver.got();
        let step = receiver.received(read);
        proof {
            lemma_query_missing(receiver);
            if let ReadEvent::Data(d) = read@ {
                assert(header + before + d =~= header + receiver.got());
            }
        }
        match step {
            RecvStep::Read(n) => {
                self.phase = Phase::Query(receiver);
                TcpAction::Read(n)
            },
            RecvStep::Failed(_) => TcpAction::Close,
            RecvStep::Done => {
                if receiver.still_missing() > 0 {
                    return TcpAction::Close;
                }
                self.phase = Phase::Resolving;
                TcpAction::Resolve(receiver.into_bytes())
            },
        }
    }
}

proof fn lemma_query_missing(r: Receiver)
    requires
        r.wf(),
        r.want() <= u16::MAX,
    ensures
        framing::frame_missing(bytes::big_endian(r.want() as u16) + r.got()) == r.missing(),
        r.missing() == 0 ==> framing::frame_body(bytes::big_endian(r.want() as u16) + r.got())
            == r.got(),
{
    let s = bytes::big_endian(r.want() as u16) + r.got();
    assert(s[0] == bytes::big_endian(r.want() as u16)[0]);
    assert(s[1] == bytes::big_endian(r.want() as u16)[1]);
    if r.missing() == 0 {
        assert(framing::frame_body(s) =~= r.got());
    }
}

/// Where a session stands after `events`, counted from its beginning.
pub open spec fn session_after(events: Seq<TcpEvent<Seq<u8>>>) -> TcpState
    decreases events.len(),
{
    if events.len() == 0 {
        TcpState::Reading(Seq::empty())
    } else {
        session_after(events.drop_last()).next(events.last()).0
    }
}

/// Whether `events` can be what happens in a session, one after another, from its beginning.
pub open spec fn session_possible(events: Seq<TcpEvent<Seq<u8>>>) -> bool
    decreases events.len(),
{
    events.len() > 0 ==> {
        &&& session_possible(events.drop_last())
        &&& session_after(events.drop_last()).expects(events.last())
    }
}

/// Everything that the client sent.
pub open spec fn session_received(events: Seq<TcpEvent<Seq<u8>>>) -> Seq<u8>
    decreases events.len(),
{
    if events.len() == 0 {
        Seq::empty()
    } else {
        session_received(events.drop_last()) + match events.last() {
            TcpEvent::Read(ReadEvent::Data(d)) => d,
            _ => Seq::empty(),
        }
    }
}

/// The queries that the session has had answered.
pub open spec fn session_queries(events: Seq<TcpEvent<Seq<u8>>>) -> Seq<Seq<u8>>
    decreases events.len(),
{
    if events.len() == 0 {
        Seq::empty()
    } else {
        session_queries(events.drop_last()) + match session_after(events.drop_last()).next(
            events.last(),
        ).1 {
            TcpAction::Resolve(query) => seq![query],
            _ => Seq::empty(),
        }
    }
}

/// The answers that came.
pub open spec fn session_answers(events: Seq<TcpEvent<Seq<u8>>>) -> Seq<Seq<u8>>
    decreases events.len(),
{
    if events.len() == 0 {
        Seq::empty()
    } else {
        session_answers(events.drop_last()) + match events.last() {
            TcpEvent::Resolved(answer) => seq![answer],
            _ => Seq::empty(),
        }
    }
}

/// Everything that the session has had written to the client.
pub open spec fn session_written(events: Seq<TcpEvent<Seq<u8>>>) -> Seq<u8>
    decreases events.len(),
{
    if events.len() == 0 {
        Seq::empty()
    } else {
        session_written(events.drop_last()) + match session_after(events.drop_last()).next(
            events.last(),
        ).1 {
            TcpAction::Write(b) => b,
            _ => Seq::empty(),
        }
    }
}

/// What a session has not yet taken from the stream.
proof fn lemma_session_unfinished(events: Seq<TcpEvent<Seq<u8>>>)
    requires
        session_possible(events),
    ensures
        session_queries(events) == framing::messages(session_received(events)),
        session_after(events) matches TcpState::Reading(got) ==> {
            &&& got == framing::unfinished(session_received(events))
            &&& !framing::frame_whole(got)
        },
        session_after(events) is Resolving || session_after(events) is Writing
            ==> framing::unfinished(session_received(events)) == Seq::<u8>::empty(),
    decreases events.len(),
{
    if events.len() == 0 {
        assert(session_queries(events) =~= framing::messages(session_received(events)));
    } else {
        let before = events.drop_last();
        lemma_session_unfinished(before);
        let all = session_received(before);
        match (session_after(before), events.last()) {
            (TcpState::Reading(got), TcpEvent::Read(ReadEvent::Data(d))) => {
                let now = got + d;
                framing::law_messages_of_a_longer_stream(all, d);
                if framing::frame_whole(now) {
                    assert(now.skip(framing::frame_len(now)) =~= Seq::<u8>::empty());
                    assert(framing::messages(Seq::<u8>::empty()) =~= Seq::empty());
                    assert(framing::messages(now) =~= seq![framing::frame_body(now)]);
                    assert(framing::unfinished(Seq::<u8>::empty()) =~= Seq::empty());
                }
                assert(session_queries(events) =~= framing::messages(session_received(events)));
            },
            _ => {
                assert(session_received(events) =~= all);
                assert(session_queries(events) =~= session_queries(before));
            },
        }
    }
}

/// The queries that a session has answered are the messages on the client's stream, whole and in
/// order, however the stream is cut into reads.
pub proof fn law_queries_are_the_messages_of_the_stream(events: Seq<TcpEvent<Seq<u8>>>)
    requires
        session_possible(events),
    ensures
        session_queries(events) == framing::messages(session_received(events)),
{
    lemma_session_unfinished(events);
}

/// What a session writes is its answers in the order in which they came, each after its length,
/// and nothing else.
pub proof fn law_answers_are_written_in_order(events: Seq<TcpEvent<Seq<u8>>>)
    requires
        session_possible(events),
    ensures
        session_written(events) == framing::framed_all(session_answers(events)),
    decreases events.len(),
{
    if events.len() > 0 {
        let before = events.drop_last();
        law_answers_are_written_in_order(before);
        match events.last() {
            TcpEvent::Resolved(answer) => {
                framing::law_framed_all_of_one_more(session_answers(before), answer);
                assert(session_answers(events) =~= session_answers(before).push(answer));
            },
            _ => {
                assert(session_answers(events) =~= session_answers(before));
                assert(session_written(events) =~= session_written(before));
            },
        }
    }
}

/// No answer goes ahead of its query, and no query is read before the one ahead of it is
/// answered: there are as many answers as queries, or one query more.
pub proof fn law_one_query_at_a_time(events: Seq<TcpEvent<Seq<u8>>>)
    requires
        session_possible(events),
    ensures
        session_answers(events).len() <= session_queries(events).len() <= session_answers(
            events,
        ).len() + 1,
        session_after(events) is Reading || session_after(events) is Writing ==> session_queries(
            events,
        ).len() == session_answers(events).len(),
        session_after(events) is Resolving ==> session_queries(events).len() == session_answers(
            events,
        ).len() + 1,
    decreases events.len(),
{
    if events.len() > 0 {
        law_one_query_at_a_time(events.drop_last());
    }
}

/// A query without an answer, a read or write that fails, and the end of the stream close the
/// session: nothing is written on account of it, and nothing happens after it.
pub proof fn law_failure_ends_the_session(
    events: Seq<TcpEvent<Seq<u8>>>,
    failure: TcpEvent<Seq<u8>>,
    later: TcpEvent<Seq<u8>>,
)
    requires
        session_possible(events.push(failure)),
        match failure {
            TcpEvent::Read(ReadEvent::Data(d)) => d.len() == 0,
            TcpEvent::Read(ReadEvent::Failed(_)) => true,
            TcpEvent::ResolveFailed => true,
            TcpEvent::WriteFailed => true,
            _ => false,
        },
    ensures
        session_after(events).next(failure).1 is Close,
        session_written(events.push(failure)) == session_written(events),
        session_queries(events.push(failure)) == session_queries(events),
        !session_possible(events.push(failure).push(later)),
{
    let all = events.push(failure);
    assert(all.drop_last() =~= events);
    assert(all.push(later).drop_last() =~= all);
    assert(session_written(all) =~= session_written(events));
    assert(session_queries(all) =~= session_queries(events));
}

/// A session waits for the outcome of what it has had done, whatever that is, and for nothing
/// else: for what a read brings, up to as many bytes as it asked for; for an answer of any
/// length, or none; for the end of a write. Once it has closed the connection it waits for
/// nothing.
pub proof fn law_session_waits_for_the_outcome_of_its_action(
    state: TcpState,
    event: TcpEvent<Seq<u8>>,
    later: TcpEvent<Seq<u8>>,
)
    requires
        state.expects(event),
    ensures
        ({
            let (after, action) = state.next(event);
            match action {
                TcpAction::Read(n) => {
                    &&& n > 0
                    &&& after.expects(later) <==> match later {
                        TcpEvent::Read(ReadEvent::Data(d)) => d.len() <= n,
                        TcpEvent::Read(ReadEvent::Failed(_)) => true,
                        _ => false,
                    }
                },
                TcpAction::Resolve(_) => after.expects(later) <==> later is Resolved
                    || later is ResolveFailed,
                TcpAction::Write(_) => after.expects(later) <==> later is Written
                    || later is WriteFailed,
                TcpAction::Close => !after.expects(later),
            }
        }),
        state.next(event).0 is Closed <==> state.next(event).1 is Close,
{
}

/// A session begins by waiting for up to two bytes.
pub proof fn law_session_begins_with_a_length(event: TcpEvent<Seq<u8>>)
    ensures
        TcpState::Reading(Seq::empty()).expects(event) <==> match event {
            TcpEvent::Read(ReadEvent::Data(d)) => d.len() <= 2,
            TcpEvent::Read(ReadEvent::Failed(_)) => true,
            _ => false,
        },
{
}

/// Every answer is written, however long it is, after its length in two bytes. Then the session
/// waits for the end of the write, and once that has come it reads the next length, as at its
/// beginning.
pub proof fn law_session_goes_on_after_every_answer(state: TcpState, answer: Seq<u8>)
    requires
        state.expects(TcpEvent::Resolved(answer)),
    ensures
        ({
            let (after, action) = state.next(TcpEvent::Resolved(answer));
            &&& action matches TcpAction::Write(b) && {
                &&& b.len() == 2 + answer.len()
                &&& b[0] * 256 + b[1] == answer.len() % 65536
                &&& b.skip(2) == answer
            }
            &&& after.expects(TcpEvent::Written)
            &&& after.expects(TcpEvent::WriteFailed)
            &&& after.next(TcpEvent::Written) == (
                TcpState::Reading(Seq::empty()),
                TcpAction::<Seq<u8>>::Read(2),
            )
            &&& after.next(TcpEvent::WriteFailed).1 is Close
        }),
        state.next(TcpEvent::ResolveFailed).1 is Close,
{
    assert(framing::framed(answer).skip(2) =~= answer);
}

/// A read that brings something goes on as the bytes by then say: with fewer than two the rest
/// of the length is read, and then the rest of as many bytes as the first two of them count.
/// When these are there, they are what is answered, whatever their number. A read that brings
/// nothing, or fails, closes the connection.
pub proof fn law_length_decides_how_much_is_read(
    got: Seq<u8>,
    read: ReadEvent<Seq<u8>, ()>,
)
    requires
        TcpState::Reading(got).expects(TcpEvent::Read(read)),
    ensures
        ({
            let (after, action) = TcpState::Reading(got).next(TcpEvent::Read(read));
            match read {
                ReadEvent::Failed(_) => action is Close,
                ReadEvent::Data(d) => {
                    let now = got + d;
                    let whole = 2 + now[0] * 256 + now[1];
                    if d.len() == 0 {
                        action is Close
                    } else if now.len() < 2 {
                        after == TcpState::Reading(now) && (action matches TcpAction::Read(n) && n
                            == 2 - now.len())
                    } else if now.len() < whole {
                        after == TcpState::Reading(now) && (action matches TcpAction::Read(n) && n
                            == whole - now.len())
                    } else {
                        now.len() == whole && action == TcpAction::Resolve(now.skip(2))
                    }
                },
            }
        }),
{
    if let ReadEvent::Data(d) = read {
        let now = got + d;
        if got.len() >= 2 {
            assert(now[0] == got[0] && now[1] == got[1]);
        }
        if framing::frame_whole(now) {
            assert(framing::frame_body(now) =~= now.skip(2));
        }
    }
}

/// Actions and events stand for the same bytes in the model as in the program.
pub proof fn law_bytes_are_those_of_the_model(
    action: TcpAction<Vec<u8>>,
    event: TcpEvent<Vec<u8>>,
)
    ensures
        match action {
            TcpAction::Read(n) => action@ == TcpAction::<Seq<u8>>::Read(n),
            TcpAction::Resolve(q) => action@ == TcpAction::Resolve(q@),
            TcpAction::Write(b) => action@ == TcpAction::Write(b@),
            TcpAction::Close => action@ is Close,
        },
        match event {
            TcpEvent::Read(ReadEvent::Data(d)) => event@ == TcpEvent::Read(ReadEvent::Data(d@)),
            TcpEvent::Read(ReadEvent::Failed(_)) => event@ matches TcpEvent::Read(e) && e is Failed,
            TcpEvent::Resolved(a) => event@ == TcpEvent::Resolved(a@),
            TcpEvent::ResolveFailed => event@ is ResolveFailed,
            TcpEvent::Written => event@ is Written,
            TcpEvent::WriteFailed => event@ is WriteFailed,
        },
{
}

} // verus!
