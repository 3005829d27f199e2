//! Plain text: white space, decimal numbers, words and joined arguments.

use vstd::prelude::*;

verus! {

/// The characters with the Unicode property `White_Space`.
pub open spec fn white_space(c: char) -> bool {
    let u = c as u32;
    ||| 0x9 <= u <= 0xd
    ||| u == 0x20
    ||| u == 0x85
    ||| u == 0xa0
    ||| u == 0x1680
    ||| 0x2000 <= u <= 0x200a
    ||| u == 0x2028
    ||| u == 0x2029
    ||| u == 0x202f
    ||| u == 0x205f
    ||| u == 0x3000
}

/// Whether `c` is white space.
pub fn is_white_space(c: char) -> (r: bool)
    ensures
        r == white_space(c),
{
    let u: u32 = c as u32;
    (0x9 <= u && u <= 0xd) || u == 0x20 || u == 0x85 || u == 0xa0 || u == 0x1680 || (0x2000 <= u
        && u <= 0x200a) || u == 0x2028 || u == 0x2029 || u == 0x202f || u == 0x205f || u == 0x3000
}

/// The characters of `s`, one by one.
pub fn to_chars(s: &str) -> (v: Vec<char>)
    ensures
        v@ == s@,
{
    let mut v: Vec<char> = Vec::new();
    for c in it: s.chars()
        invariant
            v@ == it.seq().take(it.index() as int),
            it.seq() == s@,
    {
        v.push(c);
    }
    v
}

/// `s` without the white space at either end.
pub open spec fn trim(s: Seq<char>) -> Seq<char>
    decreases s.len(),
{
    if s.len() > 0 && white_space(s.first()) {
        trim(s.drop_first())
    } else if s.len() > 0 && white_space(s.last()) {
        trim(s.drop_last())
    } else {
        s
    }
}

/// A copy of `text` without the white space at either end.
pub fn trimmed(text: &str) -> (r: String)
    ensures
        r@ == trim(text@),
{
    let chars = to_chars(text);
    let mut from: usize = 0;
    let mut to: usize = chars.len();
    assert(text@.subrange(0, to as int) =~= text@);
    while from < to && is_white_space(chars[from])
        invariant
            chars@ == text@,
            from <= to == chars.len(),
            trim(text@) == trim(text@.subrange(from as int, to as int)),
        decreases to - from,
    {
        assert(text@.subrange(from as int, to as int).drop_first() =~= text@.subrange(
            from + 1,
            to as int,
        ));
        from += 1;
    }
    while from < to && is_white_space(chars[to - 1])
        invariant
            chars@ == text@,
            from <= to <= chars.len(),
            from < to ==> !white_space(chars@[from as int]),
            trim(text@) == trim(text@.subrange(from as int, to as int)),
        decreases to - from,
    {
        assert(text@.subrange(from as int, to as int).drop_last() =~= text@.subrange(
            from as int,
            to - 1,
        ));
        to -= 1;
    }
    text.substring_char(from, to).to_owned()
}

/// Whether everything in `s` before `i` and from `j` on is white space.
pub open spec fn white_space_outside(s: Seq<char>, i: int, j: int) -> bool {
    &&& 0 <= i <= j <= s.len()
    &&& forall|k: int| 0 <= k < i || j <= k < s.len() ==> white_space(#[trigger] s[k])
}

/// Where trimming leaves off at either end.
proof fn lemma_trim_bounds(s: Seq<char>) -> (bounds: (int, int))
    ensures
        white_space_outside(s, bounds.0, bounds.1),
        trim(s) == s.subrange(bounds.0, bounds.1),
    decreases s.len(),
{
    if s.len() > 0 && white_space(s.first()) {
        let rest = s.drop_first();
        let (i, j) = lemma_trim_bounds(rest);
        assert(rest.subrange(i, j) =~= s.subrange(i + 1, j + 1));
        assert forall|k: int| 0 <= k < i + 1 || j + 1 <= k < s.len() implies white_space(
            #[trigger] s[k],
        ) by {
            if k > 0 {
                assert(white_space(rest[k - 1]));
            }
        }
        (i + 1, j + 1)
    } else if s.len() > 0 && white_space(s.last()) {
        let rest = s.drop_last();
        let (i, j) = lemma_trim_bounds(rest);
        assert(rest.subrange(i, j) =~= s.subrange(i, j));
        assert forall|k: int| 0 <= k < i || j <= k < s.len() implies white_space(
            #[trigger] s[k],
        ) by {
            if k < rest.len() {
                assert(white_space(rest[k]));
            }
        }
        (i, j)
    } else {
        assert(s.subrange(0, s.len() as int) =~= s);
        (0, s.len() as int)
    }
}

/// What trimming leaves has no white space at either end.
proof fn lemma_trim_ends(s: Seq<char>)
    ensures
        trim(s).len() > 0 ==> !white_space(trim(s).first()) && !white_space(trim(s).last()),
    decreases s.len(),
{
    if s.len() > 0 && white_space(s.first()) {
        lemma_trim_ends(s.drop_first());
    } else if s.len() > 0 && white_space(s.last()) {
        lemma_trim_ends(s.drop_last());
    }
}

/// Trimming takes white space away from the two ends, and as much of it as there is: what is
/// left neither starts nor ends with white space, and what went was white space alone.
pub proof fn law_trim_takes_all_outer_white_space(s: Seq<char>)
    ensures
        trim(s).len() > 0 ==> !white_space(trim(s).first()) && !white_space(trim(s).last()),
        exists|i: int, j: int| #[trigger]
            white_space_outside(s, i, j) && trim(s) == s.subrange(i, j),
{
    lemma_trim_ends(s);
    let (i, j) = lemma_trim_bounds(s);
    assert(white_space_outside(s, i, j));
}

/// The character that stands for the digit `d`.
pub open spec fn digit(d: nat) -> char {
    (48 + d) as char
}

/// `n` written in decimal, without leading zeros.
pub open spec fn decimal(n: nat) -> Seq<char>
    decreases n,
{
    if n < 10 {
        seq![digit(n)]
    } else {
        decimal(n / 10).push(digit(n % 10))
    }
}

/// The number that a row of decimal digits stands for.
pub open spec fn decimal_value(s: Seq<char>) -> nat
    decreases s.len(),
{
    if s.len() == 0 {
        0
    } else {
        decimal_value(s.drop_last()) * 10 + (s.last() as nat - 48) as nat
    }
}

/// The decimal text of a number reads back as that number.
pub proof fn law_decimal_reads_back(n: nat)
    ensures
        decimal_value(decimal(n)) == n,
        decimal(n).len() > 0,
        n > 0 ==> decimal(n).first() != '0',
    decreases n,
{
    if n < 10 {
        assert(decimal(n).drop_last() =~= Seq::<char>::empty());
        assert(decimal_value(Seq::<char>::empty()) == 0);
    } else {
        law_decimal_reads_back(n / 10);
        assert(decimal(n).drop_last() =~= decimal(n / 10));
    }
}

/// The one-character text of the digit `d`.
fn digit_text(d: u16) -> (r: &'static str)
    requires
        d < 10,
    ensures
        r@ == seq![digit(d as nat)],
{
    proof {
        reveal_strlit("0");
        reveal_strlit("1");
        reveal_strlit("2");
        reveal_strlit("3");
        reveal_strlit("4");
        reveal_strlit("5");
        reveal_strlit("6");
        reveal_strlit("7");
        reveal_strlit("8");
        reveal_strlit("9");
    }
    match d {
        0 => "0",
        1 => "1",
        2 => "2",
        3 => "3",
        4 => "4",
        5 => "5",
        6 => "6",
        7 => "7",
        8 => "8",
        _ => "9",
    }
}

/// Appends `n` in decimal to `out`.
pub fn append_decimal(out: &mut String, n: u16)
    ensures
        final(out)@ == old(out)@ + decimal(n as nat),
    decreases n,
{
    if n >= 10 {
        append_decimal(out, n / 10);
    }
    out.append(digit_text(n % 10));
}

/// The characters of each text of a list.
pub open spec fn texts(list: Seq<String>) -> Seq<Seq<char>> {
    list.map_values(|s: String| s@)
}

/// `parts` one after another, with one space between each two.
pub open spec fn joined(parts: Seq<Seq<char>>) -> Seq<char>
    decreases parts.len(),
{
    if parts.len() == 0 {
        Seq::empty()
    } else if parts.len() == 1 {
        parts[0]
    } else {
        joined(parts.drop_last()) + " "@ + parts.last()
    }
}

/// Joins `parts` with one space between each two.
pub fn join_with_spaces(parts: &Vec<String>) -> (r: String)
    ensures
        r@ == joined(texts(parts@)),
{
    let mut out = String::new();
    let ghost all = texts(parts@);
    for i in 0..parts.len()
        invariant
            all == texts(parts@),
            out@ == joined(all.take(i as int)),
    {
        assert(all.take(i + 1).drop_last() =~= all.take(i as int));
        if i > 0 {
            out.append(" ");
        }
        out.append(parts[i].as_str());
        assert(out@ =~= joined(all.take(i + 1)));
    }
    assert(all.take(parts.len() as int) =~= all);
    out
}

/// Whether the characters of `s` from `i` up to `j` are one of its words: a longest run that is
/// not empty and holds no white space.
pub open spec fn word_at(s: Seq<char>, i: int, j: int) -> bool {
    &&& 0 <= i < j <= s.len()
    &&& forall|k: int| i <= k < j ==> !white_space(#[trigger] s[k])
    &&& i == 0 || white_space(s[i - 1])
    &&& j == s.len() || white_space(s[j])
}

/// Whether `c` is an ASCII letter or digit.
pub open spec fn ascii_alphanumeric(c: char) -> bool {
    ||| '0' <= c <= '9'
    ||| 'A' <= c <= 'Z'
    ||| 'a' <= c <= 'z'
}

/// Whether `c` is an ASCII letter or digit.
pub fn is_ascii_alphanumeric(c: char) -> (r: bool)
    ensures
        r == ascii_alphanumeric(c),
{
    ('0' <= c && c <= '9') || ('A' <= c && c <= 'Z') || ('a' <= c && c <= 'z')
}

/// Whether `s` is how `n` is written in decimal: digits alone, at least one, no zero ahead of
/// others, and together they stand for `n`.
pub open spec fn numeral(s: Seq<char>, n: nat) -> bool {
    &&& s.len() > 0
    &&& forall|k: int| 0 <= k < s.len() ==> '0' <= #[trigger] s[k] <= '9'
    &&& s.len() == 1 || s[0] != '0'
    &&& decimal_value(s) == n
}

/// The decimal text of a number is the one way to write it in digits without a zero ahead.
pub proof fn law_decimal_is_a_numeral(n: nat)
    ensures
        numeral(decimal(n), n),
    decreases n,
{
    law_decimal_reads_back(n);
    if n >= 10 {
        law_decimal_is_a_numeral(n / 10);
        let front = decimal(n / 10);
        let all = decimal(n);
        assert forall|k: int| 0 <= k < all.len() implies '0' <= #[trigger] all[k] <= '9' by {
            if k < front.len() {
                assert(all[k] == front[k]);
            }
        }
    }
}

/// Where the part with this number begins when parts are joined with one space between them.
pub open spec fn part_start(parts: Seq<Seq<char>>, i: nat) -> nat
    decreases i,
{
    if i == 0 {
        0
    } else {
        part_start(parts, (i - 1) as nat) + parts[i - 1].len() + 1
    }
}

proof fn lemma_part_start_of_fewer(parts: Seq<Seq<char>>, i: nat)
    requires
        i < parts.len(),
    ensures
        part_start(parts.drop_last(), i) == part_start(parts, i),
    decreases i,
{
    if i > 0 {
        lemma_part_start_of_fewer(parts, (i - 1) as nat);
    }
}

proof fn lemma_part_start_grows(parts: Seq<Seq<char>>, i: nat, j: nat)
    requires
        i < j,
    ensures
        part_start(parts, i) + parts[i as int].len() + 1 <= part_start(parts, j),
    decreases j,
{
    if i + 1 < j {
        lemma_part_start_grows(parts, i, (j - 1) as nat);
    }
}

/// Joined parts are all there, whole and in order, with one space between each two and nothing
/// else.
pub proof fn law_joined_parts_stand_in_order(parts: Seq<Seq<char>>, i: nat)
    requires
        i < parts.len(),
    ensures
        joined(parts).len() == part_start(parts, parts.len()) - 1,
        joined(parts).subrange(
            part_start(parts, i) as int,
            (part_start(parts, i) + parts[i as int].len()) as int,
        ) == parts[i as int],
        i > 0 ==> joined(parts)[part_start(parts, i) - 1] == ' ',
    decreases parts.len(),
{
    reveal_strlit(" ");
    let all = joined(parts);
    let n = (parts.len() - 1) as nat;
    if n == 0 {
        assert(part_start(parts, 1) == part_start(parts, 0) + parts[0].len() + 1);
        assert(all.subrange(0, parts[0].len() as int) =~= parts[0]);
    } else {
        let fewer = parts.drop_last();
        law_joined_parts_stand_in_order(fewer, 0);
        lemma_part_start_of_fewer(parts, n);
        let front = joined(fewer);
        assert(front.len() == part_start(parts, n) - 1);
        assert(part_start(parts, parts.len()) == part_start(parts, n) + parts[n as int].len() + 1);
        if i == n {
            assert(all.subrange(
                part_start(parts, i) as int,
                (part_start(parts, i) + parts[i as int].len()) as int,
            ) =~= parts.last());
        } else {
            law_joined_parts_stand_in_order(fewer, i);
            lemma_part_start_of_fewer(parts, i);
            lemma_part_start_grows(parts, i, n);
            let from = part_start(parts, i) as int;
            let to = from + parts[i as int].len();
            assert(all.subrange(from, to) =~= front.subrange(from, to));
            if i > 0 {
                lemma_part_start_grows(parts, (i - 1) as nat, i);
                assert(all[from - 1] == front[from - 1]);
            }
        }
    }
}

/// The texts of a list are taken one by one.
pub proof fn law_texts_are_those_of_the_list(list: Seq<String>, i: int)
    ensures
        texts(list).len() == list.len(),
        0 <= i < list.len() ==> texts(list)[i] == list[i]@,
{
}

/// What stands between white space, and neither starts nor ends with any, is what trimming
/// leaves.
pub proof fn law_trim_finds_what_stands_between_white_space(
    before: Seq<char>,
    core: Seq<char>,
    behind: Seq<char>,
)
    requires
        forall|k: int| 0 <= k < before.len() ==> white_space(#[trigger] before[k]),
        forall|k: int| 0 <= k < behind.len() ==> white_space(#[trigger] behind[k]),
        core.len() > 0 ==> !white_space(core.first()) && !white_space(core.last()),
    ensures
        trim(before + core + behind) == core,
    decreases before.len() + behind.len(),
{
    let s = before + core + behind;
    if before.len() > 0 {
        assert(s.first() == before[0]);
        assert(s.drop_first() =~= before.drop_first() + core + behind);
        law_trim_finds_what_stands_between_white_space(before.drop_first(), core, behind);
    } else if behind.len() > 0 {
        assert(s.last() == behind[behind.len() - 1]);
        assert(s.drop_last() =~= before + core + behind.drop_last());
        law_trim_finds_what_stands_between_white_space(before, core, behind.drop_last());
        if white_space(s.first()) {
            assert(core.len() == 0);
            assert(s =~= behind);
            assert(s.drop_first() =~= before + core + behind.drop_first());
            law_trim_finds_what_stands_between_white_space(before, core, behind.drop_first());
        }
    } else {
        assert(s =~= core);
    }
}

} // verus!
