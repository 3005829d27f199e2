//! Reading a stream until a known number of bytes has arrived.

use vstd::prelude::*;

verus! {

/// What a read of a stream came to. No data means that the stream has ended. `E` is what a read
/// fails with.
pub enum ReadEvent<B, E> {
    /// These bytes arrived.
    Data(B),
    /// The read failed.
    Failed(E),
}

impl<E> View for ReadEvent<Vec<u8>, E> {
    type V = ReadEvent<Seq<u8>, E>;

    open spec fn view(&self) -> ReadEvent<Seq<u8>, E> {
        match self {
            ReadEvent::Data(d) => ReadEvent::Data(d@),
            ReadEvent::Failed(e) => ReadEvent::Failed(*e),
        }
    }
}

/// How receiving goes on.
#[derive(Debug, PartialEq, Eq)]
pub enum RecvStep<E> {
    /// Read again, this many bytes at most.
    Read(usize),
    /// All bytes are there, or the stream has ended before.
    Done,
    /// A read failed, with this.
    Failed(E),
}

/// How receiving `want` bytes begins: where that is none, nothing is read.
pub open spec fn recv_first<E>(want: nat) -> RecvStep<E> {
    if want == 0 {
        RecvStep::Done
    } else {
        RecvStep::Read(want as usize)
    }
}

/// The bytes that are there after `event`, where `got` were there before, and how receiving
/// `want` bytes goes on.
pub open spec fn recv_next<E>(want: nat, got: Seq<u8>, event: ReadEvent<Seq<u8>, E>) -> (
    Seq<u8>,
    RecvStep<E>,
) {
    match event {
        ReadEvent::Failed(e) => (got, RecvStep::Failed(e)),
        ReadEvent::Data(d) => if d.len() == 0 || got.len() + d.len() >= want {
            (got + d, RecvStep::Done)
        } else {
            (got + d, RecvStep::Read((want - got.len() - d.len()) as usize))
        },
    }
}

/// A number of bytes on their way.
pub struct Receiver {
    want: usize,
    got: Vec<u8>,
}

impl Receiver {
    /// How many bytes there will be.
    pub closed spec fn want(self) -> nat {
        self.want as nat
    }

    /// The bytes that are there.
    pub closed spec fn got(self) -> Seq<u8> {
        self.got@
    }

    /// No more bytes are there than were asked for.
    pub open spec fn wf(self) -> bool {
        self.got().len() <= self.want() <= usize::MAX
    }

    /// How many bytes are still to come.
    pub open spec fn missing(self) -> int {
        self.want() - self.got().len()
    }

    /// How many bytes are still to come.
    pub fn still_missing(&self) -> (r: usize)
        requires
            self.wf(),
        ensures
            r == self.missing(),
    {
        self.want - self.got.len()
    }

    /// The bytes that are there.
    pub fn into_bytes(self) -> (r: Vec<u8>)
        ensures
            r@ == self.got(),
    {
        self.got
    }

    /// Goes on after a read of no more than the bytes still to come. A read that fails ends the
    /// receiving with what it failed with, whatever that is.
    pub fn received<E>(&mut self, event: ReadEvent<Vec<u8>, E>) -> (r: RecvStep<E>)
        requires
            old(self).wf(),
            event matches ReadEvent::Data(d) ==> d@.len() <= old(self).missing(),
        ensures
            final(self).wf(),
            final(self).want() == old(self).want(),
            (final(self).got(), r) == recv_next(old(self).want(), old(self).got(), event@),
    {
        match event {
            ReadEvent::Failed(e) => RecvStep::Failed(e),
            ReadEvent::Data(mut d) => {
                let ended = d.len() == 0;
                self.got.append(&mut d);
                let left: usize = self.want - self.got.len();
                if ended || left == 0 {
                    RecvStep::Done
                } else {
                    RecvStep::Read(left)
                }
            },
        }
    }
}

/// Begins to receive `want` bytes. Where that is none, nothing is read.
pub fn recv_exactly<E>(want: usize) -> (r: (Receiver, RecvStep<E>))
    ensures
        r.0.wf(),
        r.0.want() == want,
        r.0.got() == Seq::<u8>::empty(),
        r.1 == recv_first::<E>(want as nat),
{
    let step = if want == 0 {
        RecvStep::Done
    } else {
        RecvStep::Read(want)
    };
    (Receiver { want, got: Vec::new() }, step)
}

/// The bytes that are there after `reads`, or after as many of them as it takes to end the
/// receiving of `want` bytes, and how it goes on.
pub open spec fn recv_after<E>(want: nat, reads: Seq<ReadEvent<Seq<u8>, E>>) -> (
    Seq<u8>,
    RecvStep<E>,
)
    decreases reads.len(),
{
    if reads.len() == 0 {
        (Seq::empty(), recv_first(want))
    } else {
        let before = recv_after(want, reads.drop_last());
        if before.1 is Read {
            recv_next(want, before.0, reads.last())
        } else {
            before
        }
    }
}

/// Everything that `reads` brought.
pub open spec fn data_of<E>(reads: Seq<ReadEvent<Seq<u8>, E>>) -> Seq<u8>
    decreases reads.len(),
{
    if reads.len() == 0 {
        Seq::empty()
    } else {
        data_of(reads.drop_last()) + match reads.last() {
            ReadEvent::Data(d) => d,
            ReadEvent::Failed(_) => Seq::empty(),
        }
    }
}

/// Whether every one of `reads` brought data, and together they brought fewer than `want` bytes.
pub open spec fn short_of<E>(want: nat, reads: Seq<ReadEvent<Seq<u8>, E>>) -> bool
    decreases reads.len(),
{
    if reads.len() == 0 {
        want > 0
    } else {
        &&& short_of(want, reads.drop_last())
        &&& reads.last() matches ReadEvent::Data(d) && d.len() > 0
        &&& data_of(reads).len() < want
    }
}

/// Receiving goes on exactly as long as every read brings data and bytes are missing, and what
/// is there by then is everything that was read, in order. It then asks for all that is missing.
pub proof fn law_receiving_goes_on_while_bytes_are_missing<E>(
    want: nat,
    reads: Seq<ReadEvent<Seq<u8>, E>>,
)
    ensures
        recv_after(want, reads).1 is Read <==> short_of(want, reads),
        short_of(want, reads) ==> recv_after(want, reads).0 == data_of(reads),
        short_of(want, reads) && want <= usize::MAX ==> (recv_after(want, reads).1 matches
            RecvStep::Read(n) && n == want - data_of(reads).len()),
    decreases reads.len(),
{
    if reads.len() > 0 {
        law_receiving_goes_on_while_bytes_are_missing(want, reads.drop_last());
    }
}

/// The read that ends the receiving decides what it comes to. A read that fails before all bytes
/// are there ends it with what that read failed with, and nothing else makes it fail; otherwise
/// everything that was read is there, which is all that was wanted unless the stream has ended.
pub proof fn law_first_failed_read_is_what_receiving_fails_with<E>(
    want: nat,
    reads: Seq<ReadEvent<Seq<u8>, E>>,
    last: ReadEvent<Seq<u8>, E>,
    later: ReadEvent<Seq<u8>, E>,
)
    requires
        short_of(want, reads),
    ensures
        match last {
            ReadEvent::Failed(e) => recv_after(want, reads.push(last)).1 == RecvStep::Failed(e),
            ReadEvent::Data(d) => {
                let all = data_of(reads) + d;
                &&& !(recv_after(want, reads.push(last)).1 is Failed)
                &&& recv_after(want, reads.push(last)).0 == all
                &&& recv_after(want, reads.push(last)).1 is Done <==> d.len() == 0 || all.len()
                    >= want
            },
        },
        !(recv_after(want, reads.push(last)).1 is Read) ==> recv_after(
            want,
            reads.push(last).push(later),
        ) == recv_after(want, reads.push(last)),
{
    law_receiving_goes_on_while_bytes_are_missing(want, reads);
    assert(reads.push(last).drop_last() =~= reads);
    assert(reads.push(last).push(later).drop_last() =~= reads.push(last));
}

/// A read stands for the same bytes, or the same failure, in the model as in the program.
pub proof fn law_bytes_are_those_of_the_model<E>(read: ReadEvent<Vec<u8>, E>)
    ensures
        match read {
            ReadEvent::Data(d) => read@ == ReadEvent::<Seq<u8>, E>::Data(d@),
            ReadEvent::Failed(e) => read@ == ReadEvent::<Seq<u8>, E>::Failed(e),
        },
{
}

/// Where nothing is wanted nothing is read, whatever a read would have brought; the receiving is
/// done at once.
pub proof fn law_nothing_is_read_for_nothing<E>(reads: Seq<ReadEvent<Seq<u8>, E>>)
    ensures
        recv_after(0, reads) == (Seq::<u8>::empty(), RecvStep::<E>::Done),
    decreases reads.len(),
{
    if reads.len() > 0 {
        law_nothing_is_read_for_nothing(reads.drop_last());
    }
}

/// What each read adds is kept, whatever it comes to, and nothing of what was there is lost. A
/// read that brings nothing, and one that brings the last of the bytes, end the receiving.
pub proof fn law_each_read_adds_what_it_brought<E>(
    want: nat,
    got: Seq<u8>,
    event: ReadEvent<Seq<u8>, E>,
)
    requires
        got.len() <= want <= usize::MAX,
    ensures
        ({
            let (now, step) = recv_next(want, got, event);
            match event {
                ReadEvent::Failed(e) => now == got && step == RecvStep::<E>::Failed(e),
                ReadEvent::Data(d) => {
                    &&& now == got + d
                    &&& d.len() == 0 || now.len() >= want ==> step is Done
                    &&& d.len() > 0 && now.len() < want ==> (step matches RecvStep::Read(n) && n
                        + now.len() == want)
                },
            }
        }),
        recv_first::<E>(want) is Done <==> want == 0,
        recv_first::<E>(want) matches RecvStep::Read(n) ==> n == want,
        !(recv_first::<E>(want) is Failed),
{
}

} // verus!
