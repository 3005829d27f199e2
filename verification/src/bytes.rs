//! Numbers as bytes.

use vstd::prelude::*;

verus! {

/// The two bytes of `n`, the more significant one first.
pub open spec fn big_endian(n: u16) -> Seq<u8> {
    seq![(n / 256) as u8, (n % 256) as u8]
}

/// The number whose two bytes `s` starts with, the more significant one first.
pub open spec fn big_endian_value(s: Seq<u8>) -> int {
    s[0] * 256 + s[1]
}

/// The two bytes of a number read back as that number.
pub proof fn law_big_endian_reads_back(n: u16)
    ensures
        big_endian_value(big_endian(n)) == n,
{
}

/// Appends the two bytes of `n` to `out`.
pub fn append_u16(out: &mut Vec<u8>, n: u16)
    ensures
        final(out)@ == old(out)@ + big_endian(n),
{
    out.push((n / 256) as u8);
    out.push((n % 256) as u8);
    assert(out@ =~= old(out)@ + big_endian(n));
}

/// The number whose two bytes lie in `raw` from `at` on.
pub fn u16_at(raw: &Vec<u8>, at: usize) -> (r: u16)
    requires
        at + 2 <= raw.len(),
    ensures
        big_endian(r) == raw@.subrange(at as int, at + 2),
        r == big_endian_value(raw@.skip(at as int)),
{
    let r: u16 = raw[at] as u16 * 256 + raw[at + 1] as u16;
    assert(big_endian(r) =~= raw@.subrange(at as int, at + 2));
    r
}

/// A number takes two bytes, the first of which counts for 256.
pub proof fn law_first_byte_counts_for_256(n: u16)
    ensures
        big_endian(n).len() == 2,
        big_endian(n)[0] * 256 + big_endian(n)[1] == n,
{
}

} // verus!
