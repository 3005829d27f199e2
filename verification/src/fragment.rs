//! Cutting the TLS record that carries a greeting into several records.

use crate::bytes;
use crate::bytes::{append_u16, u16_at};
use crate::https;
use vstd::prelude::*;

verus! {

/// How many bytes a record has before its content: its type, its version and its length.
pub const RECORD_HEAD_LEN: usize = 5;

/// The record that has the type and version of `head` and the content `piece`.
pub open spec fn record(head: Seq<u8>, piece: Seq<u8>) -> Seq<u8> {
    head.take(3) + bytes::big_endian(piece.len() as u16) + piece
}

/// How long the content of the record is that `hello` starts with.
pub open spec fn content_len(hello: Seq<u8>) -> int {
    bytes::big_endian_value(hello.skip(3))
}

/// Whether `hello` starts with a whole record that has content.
pub open spec fn starts_with_record(hello: Seq<u8>) -> bool {
    &&& hello.len() >= RECORD_HEAD_LEN
    &&& content_len(hello) > 0
    &&& hello.len() >= RECORD_HEAD_LEN + content_len(hello)
}

/// The content of the record that `hello` starts with.
pub open spec fn first_content(hello: Seq<u8>) -> Seq<u8> {
    hello.subrange(RECORD_HEAD_LEN as int, RECORD_HEAD_LEN + content_len(hello))
}

/// What follows the record that `hello` starts with.
pub open spec fn after_record(hello: Seq<u8>) -> Seq<u8> {
    hello.skip(RECORD_HEAD_LEN + content_len(hello))
}

/// `content` in pieces with these lengths, one after another, as far as it goes. What is left
/// when there are no more lengths is one piece, and a length of zero makes none.
pub open spec fn pieces(content: Seq<u8>, lengths: Seq<usize>) -> Seq<Seq<u8>>
    decreases lengths.len(),
{
    if content.len() == 0 {
        Seq::empty()
    } else if lengths.len() == 0 || lengths.first() >= content.len() {
        seq![content]
    } else if lengths.first() == 0 {
        pieces(content, lengths.drop_first())
    } else {
        seq![content.take(lengths.first() as int)] + pieces(
            content.skip(lengths.first() as int),
            lengths.drop_first(),
        )
    }
}

/// Each of `list` as the content of a record with the type and version of `head`.
pub open spec fn in_records(head: Seq<u8>, list: Seq<Seq<u8>>) -> Seq<Seq<u8>> {
    list.map_values(|piece: Seq<u8>| record(head, piece))
}

/// What is written in place of `hello`: the content of its first record in records of their own,
/// then what follows that record as it is. What does not start with a whole record with content
/// is left as it is.
pub open spec fn split(hello: Seq<u8>, lengths: Seq<usize>) -> Seq<Seq<u8>> {
    if !starts_with_record(hello) {
        seq![hello]
    } else if after_record(hello).len() == 0 {
        in_records(hello, pieces(first_content(hello), lengths))
    } else {
        in_records(hello, pieces(first_content(hello), lengths)).push(after_record(hello))
    }
}

/// The record that has the type and version of `hello`, and as content what lies in `hello` from
/// `from` up to `to`.
fn record_of(hello: &Vec<u8>, from: usize, to: usize) -> (r: Vec<u8>)
    requires
        3 <= from <= to <= hello.len(),
        to - from <= u16::MAX,
    ensures
        r@ == record(hello@, hello@.subrange(from as int, to as int)),
{
    let mut out: Vec<u8> = Vec::new();
    out.push(hello[0]);
    out.push(hello[1]);
    out.push(hello[2]);
    append_u16(&mut out, (to - from) as u16);
    let mut at: usize = from;
    while at < to
        invariant
            3 <= from <= at <= to <= hello.len(),
            out@ == hello@.take(3) + bytes::big_endian((to - from) as u16) + hello@.subrange(
                from as int,
                at as int,
            ),
        decreases to - at,
    {
        out.push(hello[at]);
        at += 1;
        assert(out@ =~= hello@.take(3) + bytes::big_endian((to - from) as u16) + hello@.subrange(
            from as int,
            at as int,
        ));
    }
    out
}

/// The greeting `hello` in several writes: the content of its first record in records of their
/// own, with these lengths, then what follows that record as it is.
pub fn split_hello(hello: &Vec<u8>, lengths: &Vec<usize>) -> (r: Vec<Vec<u8>>)
    ensures
        https::records(r@) == split(hello@, lengths@),
{
    let mut out: Vec<Vec<u8>> = Vec::new();
    if hello.len() < RECORD_HEAD_LEN {
        out.push(hello.clone());
        assert(https::records(out@) =~= split(hello@, lengths@));
        return out;
    }
    let length: usize = u16_at(hello, 3) as usize;
    if length == 0 || hello.len() - RECORD_HEAD_LEN < length {
        out.push(hello.clone());
        assert(https::records(out@) =~= split(hello@, lengths@));
        return out;
    }
    let end: usize = RECORD_HEAD_LEN + length;
    let mut at: usize = RECORD_HEAD_LEN;
    let mut i: usize = 0;
    let ghost all = pieces(first_content(hello@), lengths@);
    proof {
        assert(lengths@.skip(0) =~= lengths@);
        assert(https::records(out@) + in_records(hello@, all) =~= in_records(hello@, all));
    }
    while at < end
        invariant
            RECORD_HEAD_LEN <= at <= end <= hello.len(),
            end - RECORD_HEAD_LEN <= u16::MAX,
            i <= lengths.len(),
            https::records(out@) + in_records(
                hello@,
                pieces(hello@.subrange(at as int, end as int), lengths@.skip(i as int)),
            ) == in_records(hello@, all),
        decreases end - at, lengths.len() - i,
    {
        let ghost left = hello@.subrange(at as int, end as int);
        let ghost drawn = lengths@.skip(i as int);
        let ghost before = https::records(out@);
        if i == lengths.len() || lengths[i] >= end - at {
            proof {
                assert(drawn.len() == 0 || drawn.first() == lengths@[i as int]);
                assert(pieces(left, drawn) == seq![left]);
                assert(in_records(hello@, seq![left]) =~= seq![record(hello@, left)]);
                assert(hello@.subrange(end as int, end as int) =~= Seq::<u8>::empty());
                assert(pieces(Seq::<u8>::empty(), drawn) =~= Seq::empty());
                assert(in_records(hello@, Seq::empty()) =~= Seq::empty());
            }
            out.push(record_of(hello, at, end));
            assert(https::records(out@) =~= before.push(record(hello@, left)));
            assert(before.push(record(hello@, left)) =~= before + seq![record(hello@, left)]);
            at = end;
            assert(https::records(out@) + Seq::<Seq<u8>>::empty() =~= https::records(out@));
        } else {
            let n: usize = lengths[i];
            assert(drawn.first() == n);
            assert(drawn.drop_first() =~= lengths@.skip(i + 1));
            if n > 0 {
                let ghost piece = left.take(n as int);
                let ghost rest = left.skip(n as int);
                let ghost later = pieces(rest, drawn.drop_first());
                proof {
                    assert(piece =~= hello@.subrange(at as int, at + n));
                    assert(rest =~= hello@.subrange(at + n, end as int));
                    assert(in_records(hello@, seq![piece] + later) =~= seq![record(hello@, piece)]
                        + in_records(hello@, later));
                }
                out.push(record_of(hello, at, at + n));
                assert(https::records(out@) =~= before.push(record(hello@, piece)));
                assert(https::records(out@) + in_records(hello@, later) =~= before + (seq![
                    record(hello@, piece),
                ] + in_records(hello@, later)));
                at += n;
            }
            i += 1;
        }
    }
    proof {
        let none = hello@.subrange(end as int, end as int);
        assert(pieces(none, lengths@.skip(i as int)) =~= Seq::empty());
        assert(https::records(out@) =~= https::records(out@) + in_records(
            hello@,
            pieces(none, lengths@.skip(i as int)),
        ));
    }
    if end < hello.len() {
        let mut rest: Vec<u8> = Vec::new();
        let mut k: usize = end;
        while k < hello.len()
            invariant
                end <= k <= hello.len(),
                rest@ == hello@.subrange(end as int, k as int),
            decreases hello.len() - k,
        {
            rest.push(hello[k]);
            k += 1;
            assert(rest@ =~= hello@.subrange(end as int, k as int));
        }
        assert(rest@ =~= after_record(hello@));
        let ghost before = https::records(out@);
        out.push(rest);
        assert(https::records(out@) =~= before.push(after_record(hello@)));
    }
    out
}

/// Several byte strings one after another.
pub open spec fn flat(list: Seq<Seq<u8>>) -> Seq<u8>
    decreases list.len(),
{
    if list.len() == 0 {
        Seq::empty()
    } else {
        list.first() + flat(list.drop_first())
    }
}

/// The pieces of a content, put together again, are that content, and none of them is empty.
pub proof fn law_pieces_make_up_the_content(content: Seq<u8>, lengths: Seq<usize>)
    ensures
        flat(pieces(content, lengths)) == content,
        forall|i: int|
            0 <= i < pieces(content, lengths).len() ==> (#[trigger] pieces(
                content,
                lengths,
            )[i]).len() > 0,
    decreases lengths.len(),
{
    let list = pieces(content, lengths);
    if content.len() == 0 {
        assert(flat(list) =~= content);
    } else if lengths.len() == 0 || lengths.first() >= content.len() {
        assert(list.drop_first() =~= Seq::empty());
        assert(flat(list.drop_first()) =~= Seq::empty());
        assert(flat(list) =~= content);
    } else if lengths.first() == 0 {
        law_pieces_make_up_the_content(content, lengths.drop_first());
    } else {
        let n = lengths.first() as int;
        let later = pieces(content.skip(n), lengths.drop_first());
        law_pieces_make_up_the_content(content.skip(n), lengths.drop_first());
        assert(list.drop_first() =~= later);
        assert(flat(list) =~= content);
        assert forall|i: int| 0 <= i < list.len() implies (#[trigger] list[i]).len() > 0 by {
            if i > 0 {
                assert(list[i] == later[i - 1]);
            }
        }
    }
}

/// Where every length that is drawn lies within two bounds, and they are enough for the whole
/// content, every piece is within those bounds, but for the last, which may be shorter.
pub proof fn law_pieces_keep_within_bounds(
    content: Seq<u8>,
    lengths: Seq<usize>,
    min: usize,
    max: usize,
)
    requires
        1 <= min <= max,
        forall|i: int| 0 <= i < lengths.len() ==> min <= #[trigger] lengths[i] <= max,
        content.len() <= min * lengths.len(),
    ensures
        forall|i: int|
            0 <= i < pieces(content, lengths).len() ==> (#[trigger] pieces(
                content,
                lengths,
            )[i]).len() <= max,
        forall|i: int|
            0 <= i < pieces(content, lengths).len() - 1 ==> min <= (#[trigger] pieces(
                content,
                lengths,
            )[i]).len(),
    decreases lengths.len(),
{
    let list = pieces(content, lengths);
    if content.len() > 0 && lengths.len() > 0 && lengths.first() < content.len() {
        let n = lengths.first() as int;
        let rest = lengths.drop_first();
        assert forall|i: int| 0 <= i < rest.len() implies min <= #[trigger] rest[i] <= max by {
            assert(rest[i] == lengths[i + 1]);
        }
        assert(content.len() - n <= min * rest.len()) by (nonlinear_arith)
            requires
                content.len() <= min * lengths.len(),
                rest.len() == lengths.len() - 1,
                min <= n,
        ;
        let later = pieces(content.skip(n), rest);
        law_pieces_keep_within_bounds(content.skip(n), rest, min, max);
        law_pieces_make_up_the_content(content.skip(n), rest);
        assert(later.len() > 0);
        assert forall|i: int| 0 <= i < list.len() implies (#[trigger] list[i]).len() <= max && (i
            < list.len() - 1 ==> min <= list[i].len()) by {
            if i > 0 {
                assert(list[i] == later[i - 1]);
            }
        }
    } else if content.len() > 0 {
        assert(lengths.len() > 0) by (nonlinear_arith)
            requires
                0 < content.len() <= min * lengths.len(),
        ;
        assert(lengths.first() == lengths[0]);
    }
}

/// A cut greeting says what it said before. Each record keeps the type and version of the first,
/// tells the length of its content, and carries a piece; the pieces make up the content of the
/// first record, and what followed that record comes after them unchanged.
pub proof fn law_cut_greeting_says_the_same(hello: Seq<u8>, lengths: Seq<usize>, i: int)
    requires
        starts_with_record(hello),
    ensures
        ({
            let list = pieces(first_content(hello), lengths);
            let out = split(hello, lengths);
            &&& flat(list) == first_content(hello)
            &&& 0 <= i < list.len() ==> {
                &&& out[i].take(3) == hello.take(3)
                &&& content_len(out[i]) == list[i].len()
                &&& out[i].skip(RECORD_HEAD_LEN as int) == list[i]
            }
            &&& after_record(hello).len() > 0 ==> out.last() == after_record(hello) && out.len()
                == list.len() + 1
            &&& after_record(hello).len() == 0 ==> out.len() == list.len()
        }),
{
    let content = first_content(hello);
    let list = pieces(content, lengths);
    law_pieces_make_up_the_content(content, lengths);
    if 0 <= i < list.len() {
        lemma_piece_fits(content, lengths, i);
        let one = split(hello, lengths)[i];
        assert(one == record(hello, list[i]));
        assert(one.take(3) =~= hello.take(3));
        assert(one.skip(RECORD_HEAD_LEN as int) =~= list[i]);
        assert(one.skip(3)[0] == bytes::big_endian(list[i].len() as u16)[0]);
        assert(one.skip(3)[1] == bytes::big_endian(list[i].len() as u16)[1]);
    }
}

proof fn lemma_piece_fits(content: Seq<u8>, lengths: Seq<usize>, i: int)
    requires
        0 <= i < pieces(content, lengths).len(),
    ensures
        pieces(content, lengths)[i].len() <= content.len(),
    decreases lengths.len(),
{
    if content.len() > 0 && lengths.len() > 0 && lengths.first() < content.len() {
        let n = lengths.first() as int;
        if n == 0 {
            lemma_piece_fits(content, lengths.drop_first(), i);
        } else if i > 0 {
            lemma_piece_fits(content.skip(n), lengths.drop_first(), i - 1);
        }
    }
}

/// Where no length is zero, the pieces have the lengths in order, but for the last, which has
/// what is left: no more than its length, if there is one for it.
pub proof fn law_pieces_have_the_lengths(content: Seq<u8>, lengths: Seq<usize>, i: int)
    requires
        forall|k: int| 0 <= k < lengths.len() ==> #[trigger] lengths[k] > 0,
        0 <= i < pieces(content, lengths).len(),
    ensures
        ({
            let list = pieces(content, lengths);
            &&& list.len() <= lengths.len() + 1
            &&& i < list.len() - 1 ==> list[i].len() == lengths[i]
            &&& i < lengths.len() ==> list[i].len() <= lengths[i]
        }),
    decreases lengths.len(),
{
    if content.len() > 0 && lengths.len() > 0 && lengths.first() < content.len() {
        let n = lengths.first() as int;
        let rest = lengths.drop_first();
        let later = pieces(content.skip(n), rest);
        assert(lengths[0] > 0);
        assert forall|k: int| 0 <= k < rest.len() implies #[trigger] rest[k] > 0 by {
            assert(rest[k] == lengths[k + 1]);
        }
        law_pieces_make_up_the_content(content.skip(n), rest);
        assert(later.len() > 0);
        if i > 0 {
            law_pieces_have_the_lengths(content.skip(n), rest, i - 1);
            assert(pieces(content, lengths)[i] == later[i - 1]);
        } else {
            law_pieces_have_the_lengths(content.skip(n), rest, 0);
        }
    }
}

/// A length of zero changes nothing, wherever it stands.
pub proof fn law_zero_lengths_make_no_pieces(
    content: Seq<u8>,
    before: Seq<usize>,
    behind: Seq<usize>,
)
    ensures
        pieces(content, before + seq![0usize] + behind) == pieces(content, before + behind),
    decreases before.len(),
{
    let with = before + seq![0usize] + behind;
    let without = before + behind;
    if content.len() > 0 {
        if before.len() == 0 {
            assert(with.drop_first() =~= without);
        } else if before.first() < content.len() {
            assert(with.drop_first() =~= before.drop_first() + seq![0usize] + behind);
            assert(without.drop_first() =~= before.drop_first() + behind);
            law_zero_lengths_make_no_pieces(content, before.drop_first(), behind);
            law_zero_lengths_make_no_pieces(
                content.skip(before.first() as int),
                before.drop_first(),
                behind,
            );
        }
    }
}

/// A greeting is cut iff its fourth and fifth byte count at least one byte of content, of which
/// the fourth counts for 256, and that many bytes follow them, however long it is; otherwise it
/// is written as it is. Each record of a cut greeting starts with the first three bytes of the
/// greeting and the length of its content in two bytes, these contents put together are what the
/// first record carried, and whatever followed that comes last, as it is.
pub proof fn law_bytes_of_a_cut_greeting(hello: Seq<u8>, lengths: Seq<usize>, i: int)
    ensures
        ({
            let n = hello[3] * 256 + hello[4];
            let out = split(hello, lengths);
            if hello.len() < 5 || n == 0 || hello.len() < 5 + n {
                out == seq![hello]
            } else {
                let list = pieces(hello.subrange(5, 5 + n), lengths);
                &&& flat(list) == hello.subrange(5, 5 + n)
                &&& 0 <= i < list.len() ==> {
                    &&& out[i].len() == 5 + list[i].len()
                    &&& out[i].take(3) == hello.take(3)
                    &&& out[i][3] * 256 + out[i][4] == list[i].len()
                    &&& out[i].skip(5) == list[i]
                }
                &&& hello.len() > 5 + n ==> out.len() == list.len() + 1 && out.last()
                    == hello.skip(5 + n)
                &&& hello.len() == 5 + n ==> out.len() == list.len()
            }
        }),
{
    let n = hello[3] * 256 + hello[4];
    if hello.len() >= 5 {
        assert(hello.skip(3)[0] == hello[3] && hello.skip(3)[1] == hello[4]);
    }
    if starts_with_record(hello) {
        law_cut_greeting_says_the_same(hello, lengths, i);
        let list = pieces(first_content(hello), lengths);
        if 0 <= i < list.len() {
            lemma_piece_fits(first_content(hello), lengths, i);
            let one = split(hello, lengths)[i];
            assert(one == record(hello, list[i]));
        }
    }
}

} // verus!
