//! Socket addresses, as far as the proxies tell them apart.

use crate::text;
use crate::text::append_decimal;
use vstd::prelude::*;

verus! {

/// An IPv4 address with a port.
#[derive(Clone, Copy, Debug, PartialEq, Eq)]
pub struct SocketV4 {
    /// The four bytes of the address, in the order in which they are written.
    pub ip: [u8; 4],
    /// The port.
    pub port: u16,
}

/// An address of either family; nothing is done with those of IPv6.
#[derive(Clone, Copy, Debug, PartialEq, Eq)]
pub enum SocketAddress {
    /// IPv4.
    V4(SocketV4),
    /// IPv6.
    V6,
}

impl SocketV4 {
    /// The address as it is written: four numbers with dots between them, a colon, the port.
    pub open spec fn written(self) -> Seq<char> {
        text::decimal(self.ip@[0] as nat) + "."@ + text::decimal(self.ip@[1] as nat) + "."@
            + text::decimal(self.ip@[2] as nat) + "."@ + text::decimal(self.ip@[3] as nat) + ":"@
            + text::decimal(self.port as nat)
    }

    /// The address as it is written.
    pub fn to_text(&self) -> (r: String)
        ensures
            r@ == self.written(),
    {
        let mut out = String::new();
        append_decimal(&mut out, self.ip[0] as u16);
        assert(out@ =~= text::decimal(self.ip@[0] as nat));
        out.append(".");
        append_decimal(&mut out, self.ip[1] as u16);
        out.append(".");
        append_decimal(&mut out, self.ip[2] as u16);
        out.append(".");
        append_decimal(&mut out, self.ip[3] as u16);
        out.append(":");
        append_decimal(&mut out, self.port);
        out
    }
}

/// Whether `s` is `addr` as people write it: four numerals with dots between them, a colon, and
/// the numeral of the port.
pub open spec fn dotted(
    s: Seq<char>,
    addr: SocketV4,
    a: Seq<char>,
    b: Seq<char>,
    c: Seq<char>,
    d: Seq<char>,
    p: Seq<char>,
) -> bool {
    &&& text::numeral(a, addr.ip@[0] as nat)
    &&& text::numeral(b, addr.ip@[1] as nat)
    &&& text::numeral(c, addr.ip@[2] as nat)
    &&& text::numeral(d, addr.ip@[3] as nat)
    &&& text::numeral(p, addr.port as nat)
    &&& s == a + "."@ + b + "."@ + c + "."@ + d + ":"@ + p
}

/// The numbers read back from a written address are its bytes and its port.
pub proof fn law_written_address_reads_back(addr: SocketV4)
    ensures
        exists|
            a: Seq<char>,
            b: Seq<char>,
            c: Seq<char>,
            d: Seq<char>,
            p: Seq<char>,
        | #[trigger]
            dotted(addr.written(), addr, a, b, c, d, p),
{
    text::law_decimal_is_a_numeral(addr.ip@[0] as nat);
    text::law_decimal_is_a_numeral(addr.ip@[1] as nat);
    text::law_decimal_is_a_numeral(addr.ip@[2] as nat);
    text::law_decimal_is_a_numeral(addr.ip@[3] as nat);
    text::law_decimal_is_a_numeral(addr.port as nat);
    assert(dotted(
        addr.written(),
        addr,
        text::decimal(addr.ip@[0] as nat),
        text::decimal(addr.ip@[1] as nat),
        text::decimal(addr.ip@[2] as nat),
        text::decimal(addr.ip@[3] as nat),
        text::decimal(addr.port as nat),
    ));
}

} // verus!
