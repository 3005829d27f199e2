//! DNS messages on a TCP stream: each after two bytes that give its length.

use crate::bytes;
use crate::bytes::append_u16;
use vstd::prelude::*;

verus! {

/// `message` as it is written to a stream. Two bytes hold its length modulo 65536.
pub open spec fn framed(message: Seq<u8>) -> Seq<u8> {
    bytes::big_endian((message.len() % 65536) as u16) + message
}

/// `message` as it is written to a stream.
pub fn frame(message: &Vec<u8>) -> (r: Vec<u8>)
    ensures
        r@ == framed(message@),
{
    let mut out: Vec<u8> = Vec::new();
    append_u16(&mut out, (message.len() % 65536) as u16);
    out.extend_from_slice(message.as_slice());
    assert(out@ =~= framed(message@));
    out
}

/// How many bytes must still arrive, after those of `s`, for the message that `s` starts with:
/// for its length first, then for the message. Less than zero where `s` runs past the message.
pub open spec fn frame_missing(s: Seq<u8>) -> int {
    if s.len() < 2 {
        2 - s.len()
    } else {
        2 + bytes::big_endian_value(s) - s.len()
    }
}

/// Whether `s` starts with a whole message.
pub open spec fn frame_whole(s: Seq<u8>) -> bool {
    s.len() >= 2 && frame_missing(s) <= 0
}

/// How many bytes the message that `s` starts with takes on the stream.
pub open spec fn frame_len(s: Seq<u8>) -> int {
    2 + bytes::big_endian_value(s)
}

/// The message that `s` starts with.
pub open spec fn frame_body(s: Seq<u8>) -> Seq<u8> {
    s.subrange(2, frame_len(s))
}

/// The whole messages on the stream `s`, from its start.
pub open spec fn messages(s: Seq<u8>) -> Seq<Seq<u8>>
    decreases s.len(),
{
    if frame_whole(s) {
        seq![frame_body(s)] + messages(s.skip(frame_len(s)))
    } else {
        Seq::empty()
    }
}

/// What comes on the stream `s` after its last whole message.
pub open spec fn unfinished(s: Seq<u8>) -> Seq<u8>
    decreases s.len(),
{
    if frame_whole(s) {
        unfinished(s.skip(frame_len(s)))
    } else {
        s
    }
}

/// Several messages as they are written to a stream, one after another.
pub open spec fn framed_all(list: Seq<Seq<u8>>) -> Seq<u8>
    decreases list.len(),
{
    if list.len() == 0 {
        Seq::empty()
    } else {
        framed(list.first()) + framed_all(list.drop_first())
    }
}

/// A message of up to 65535 bytes that is written to a stream is the first to be read from it,
/// and what follows it on the stream is untouched.
pub proof fn law_framed_message_reads_back(message: Seq<u8>, rest: Seq<u8>)
    requires
        message.len() < 65536,
    ensures
        frame_whole(framed(message) + rest),
        frame_body(framed(message) + rest) == message,
        (framed(message) + rest).skip(frame_len(framed(message) + rest)) == rest,
{
    let s = framed(message) + rest;
    assert(s[0] == framed(message)[0] && s[1] == framed(message)[1]);
    assert(frame_body(s) =~= message);
    assert(s.skip(frame_len(s)) =~= rest);
}

/// Messages of up to 65535 bytes that are written to a stream one after another are read from it
/// in that order, and nothing else is.
pub proof fn law_framed_messages_read_back(list: Seq<Seq<u8>>)
    requires
        forall|i: int| 0 <= i < list.len() ==> (#[trigger] list[i]).len() < 65536,
    ensures
        messages(framed_all(list)) == list,
        unfinished(framed_all(list)) == Seq::<u8>::empty(),
    decreases list.len(),
{
    if list.len() > 0 {
        let rest = list.drop_first();
        assert forall|i: int| 0 <= i < rest.len() implies (#[trigger] rest[i]).len() < 65536 by {
            assert(rest[i] == list[i + 1]);
        }
        law_framed_messages_read_back(rest);
        law_framed_message_reads_back(list.first(), framed_all(rest));
        assert(seq![list.first()] + rest =~= list);
    } else {
        assert(messages(framed_all(list)) =~= list);
    }
}

/// What arrives later does not change the messages that were whole before; it adds to what was
/// unfinished.
pub proof fn law_messages_of_a_longer_stream(s: Seq<u8>, more: Seq<u8>)
    ensures
        messages(s + more) == messages(s) + messages(unfinished(s) + more),
        unfinished(s + more) == unfinished(unfinished(s) + more),
    decreases s.len(),
{
    if frame_whole(s) {
        let n = frame_len(s);
        assert((s + more)[0] == s[0] && (s + more)[1] == s[1]);
        assert(frame_whole(s + more));
        assert(frame_body(s + more) =~= frame_body(s));
        assert((s + more).skip(n) =~= s.skip(n) + more);
        law_messages_of_a_longer_stream(s.skip(n), more);
        assert(messages(s + more) =~= messages(s) + messages(unfinished(s) + more));
    } else {
        assert(messages(s) + messages(unfinished(s) + more) =~= messages(s + more));
    }
}

/// A message written after others stands after them on the stream.
pub proof fn law_framed_all_of_one_more(list: Seq<Seq<u8>>, message: Seq<u8>)
    ensures
        framed_all(list.push(message)) == framed_all(list) + framed(message),
    decreases list.len(),
{
    let longer = list.push(message);
    if list.len() == 0 {
        assert(longer.drop_first() =~= Seq::empty());
        assert(framed_all(longer.drop_first()) =~= Seq::empty());
        assert(framed_all(longer) =~= framed_all(list) + framed(message));
    } else {
        assert(longer.drop_first() =~= list.drop_first().push(message));
        law_framed_all_of_one_more(list.drop_first(), message);
        assert(framed_all(longer) =~= framed_all(list) + framed(message));
    }
}

/// A message stands on a stream as it is after two bytes, of which the first counts for 256, and
/// which tell its length as far as two bytes can.
pub proof fn law_length_stands_before_the_message(message: Seq<u8>)
    ensures
        framed(message).len() == message.len() + 2,
        framed(message)[0] * 256 + framed(message)[1] == message.len() % 65536,
        framed(message).skip(2) == message,
{
    assert(framed(message).skip(2) =~= message);
}

/// The first two bytes of a stream, of which the first counts for 256, tell how many bytes after
/// them its first message has, and that message is whole iff these are there.
pub proof fn law_first_two_bytes_tell_the_message(s: Seq<u8>)
    ensures
        s.len() < 2 ==> !frame_whole(s) && frame_missing(s) == 2 - s.len(),
        s.len() >= 2 ==> {
            let n = s[0] * 256 + s[1];
            &&& frame_whole(s) <==> s.len() - 2 >= n
            &&& frame_missing(s) == n - (s.len() - 2)
            &&& frame_len(s) == 2 + n
            &&& frame_whole(s) ==> frame_body(s) == s.skip(2).take(n)
        },
{
    if s.len() >= 2 {
        let n = s[0] * 256 + s[1];
        if s.len() - 2 >= n {
            assert(frame_body(s) =~= s.skip(2).take(n));
        }
    }
}

} // verus!
