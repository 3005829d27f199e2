//! Asking the packet filter where a redirected connection was going.

use crate::addr::{SocketAddress, SocketV4};
use crate::bytes;
use crate::bytes::{append_u16, u16_at};
use vstd::prelude::*;

verus! {

/// The address family of IPv4.
pub const AF_INET: u8 = 2;

/// The protocol number of TCP.
pub const IPPROTO_TCP: u8 = 6;

/// The direction of a state made for traffic on its way out.
pub const PF_OUT: u8 = 1;

/// An address as the packet filter holds it; one of IPv4 takes the first four bytes.
#[derive(Clone, Copy, Debug, PartialEq, Eq)]
pub struct PfAddr {
    /// The bytes of the address.
    pub addr: [u8; 16],
}

impl Default for PfAddr {
    fn default() -> (r: PfAddr)
        ensures
            r.addr@ == Seq::new(16, |i: int| 0u8),
    {
        let r = PfAddr { addr: [0u8;16] };
        assert(r.addr@ =~= Seq::new(16, |i: int| 0u8));
        r
    }
}

/// A question to the packet filter's table of redirected connections, and its answer.
#[derive(Clone, Copy, Debug, PartialEq, Eq)]
pub struct PfiocNatlook {
    /// Source address of the connection as it is seen here.
    pub saddr: PfAddr,
    /// Destination address of the connection as it is seen here.
    pub daddr: PfAddr,
    /// Source address before the redirection.
    pub rsaddr: PfAddr,
    /// Destination address before the redirection.
    pub rdaddr: PfAddr,
    /// Source port of the connection as it is seen here.
    pub sport: u16,
    /// Destination port of the connection as it is seen here.
    pub dport: u16,
    /// Source port before the redirection.
    pub rsport: u16,
    /// Destination port before the redirection.
    pub rdport: u16,
    /// Address family.
    pub af: u8,
    /// Protocol number.
    pub proto: u8,
    /// Direction of the state that is looked for.
    pub direction: u8,
    /// Logging flags.
    pub log: u8,
}

/// How many bytes a lookup takes in memory.
pub const NATLOOK_LEN: usize = 76;

impl PfiocNatlook {
    /// The lookup as it lies in memory: the fields in order, ports in network byte order.
    pub open spec fn wire(self) -> Seq<u8> {
        self.saddr.addr@ + self.daddr.addr@ + self.rsaddr.addr@ + self.rdaddr.addr@
            + bytes::big_endian(self.sport) + bytes::big_endian(self.dport) + bytes::big_endian(
            self.rsport,
        ) + bytes::big_endian(self.rdport) + seq![
            self.af,
            self.proto,
            self.direction,
            self.log,
        ]
    }
}

impl Default for PfiocNatlook {
    fn default() -> (r: PfiocNatlook)
        ensures
            r.wire() == Seq::new(NATLOOK_LEN as nat, |i: int| 0u8),
            r.rsaddr.addr@ == Seq::new(16, |i: int| 0u8),
            r.rdaddr.addr@ == Seq::new(16, |i: int| 0u8),
            r.rsport == 0,
            r.rdport == 0,
            r.log == 0,
    {
        let r = PfiocNatlook {
            saddr: PfAddr::default(),
            daddr: PfAddr::default(),
            rsaddr: PfAddr::default(),
            rdaddr: PfAddr::default(),
            sport: 0,
            dport: 0,
            rsport: 0,
            rdport: 0,
            af: 0,
            proto: 0,
            direction: 0,
            log: 0,
        };
        assert(r.wire() =~= Seq::new(NATLOOK_LEN as nat, |i: int| 0u8));
        r
    }
}

/// The lookup whose parts lie one after another in `raw`, which is as long as a lookup.
fn parts_of(raw: &Vec<u8>) -> (r: PfiocNatlook)
    requires
        raw.len() == NATLOOK_LEN,
    ensures
        r.wire() == raw@,
{
    let r = PfiocNatlook {
        saddr: addr_at(raw, 0),
        daddr: addr_at(raw, 16),
        rsaddr: addr_at(raw, 32),
        rdaddr: addr_at(raw, 48),
        sport: u16_at(raw, 64),
        dport: u16_at(raw, 66),
        rsport: u16_at(raw, 68),
        rdport: u16_at(raw, 70),
        af: raw[72],
        proto: raw[73],
        direction: raw[74],
        log: raw[75],
    };
    assert(r.wire() =~= raw@);
    r
}

fn addr_at(raw: &Vec<u8>, at: usize) -> (r: PfAddr)
    requires
        at + 16 <= raw.len(),
    ensures
        r.addr@ == raw@.subrange(at as int, at + 16),
{
    let mut addr = [0u8;16];
    for i in 0..16usize
        invariant
            at + 16 <= raw.len(),
            forall|k: int| 0 <= k < i ==> addr@[k] == raw@[at + k],
    {
        addr[i] = raw[at + i];
    }
    assert(addr@ =~= raw@.subrange(at as int, at + 16));
    PfAddr { addr }
}

fn append_addr(out: &mut Vec<u8>, addr: &PfAddr)
    ensures
        final(out)@ == old(out)@ + addr.addr@,
{
    out.extend_from_slice(addr.addr.as_slice());
    assert(out@ =~= old(out)@ + addr.addr@);
}

impl PfiocNatlook {
    /// The lookup as it lies in memory.
    pub fn to_bytes(&self) -> (r: Vec<u8>)
        ensures
            r@ == self.wire(),
            r.len() == NATLOOK_LEN,
    {
        let mut out: Vec<u8> = Vec::new();
        append_addr(&mut out, &self.saddr);
        assert(out@ =~= self.saddr.addr@);
        append_addr(&mut out, &self.daddr);
        append_addr(&mut out, &self.rsaddr);
        append_addr(&mut out, &self.rdaddr);
        append_u16(&mut out, self.sport);
        append_u16(&mut out, self.dport);
        append_u16(&mut out, self.rsport);
        append_u16(&mut out, self.rdport);
        out.push(self.af);
        out.push(self.proto);
        out.push(self.direction);
        out.push(self.log);
        assert(out@ =~= self.wire());
        out
    }

    /// The lookup that lies in `raw`, if that is as long as one.
    pub fn from_bytes(raw: &Vec<u8>) -> (r: Option<PfiocNatlook>)
        ensures
            r is Some <==> raw.len() == NATLOOK_LEN,
            r matches Some(n) ==> n.wire() == raw@,
    {
        if raw.len() == NATLOOK_LEN {
            Some(parts_of(raw))
        } else {
            None
        }
    }
}

/// Two lookups that lie in memory alike agree in every field, so reading back what was written
/// loses nothing.
pub proof fn law_wire_tells_lookups_apart(a: PfiocNatlook, b: PfiocNatlook)
    requires
        a.wire() == b.wire(),
    ensures
        a.saddr.addr@ == b.saddr.addr@,
        a.daddr.addr@ == b.daddr.addr@,
        a.rsaddr.addr@ == b.rsaddr.addr@,
        a.rdaddr.addr@ == b.rdaddr.addr@,
        a.sport == b.sport,
        a.dport == b.dport,
        a.rsport == b.rsport,
        a.rdport == b.rdport,
        a.af == b.af,
        a.proto == b.proto,
        a.direction == b.direction,
        a.log == b.log,
{
    let w = a.wire();
    assert(a.saddr.addr@ =~= w.subrange(0, 16));
    assert(b.saddr.addr@ =~= w.subrange(0, 16));
    assert(a.daddr.addr@ =~= w.subrange(16, 32));
    assert(b.daddr.addr@ =~= w.subrange(16, 32));
    assert(a.rsaddr.addr@ =~= w.subrange(32, 48));
    assert(b.rsaddr.addr@ =~= w.subrange(32, 48));
    assert(a.rdaddr.addr@ =~= w.subrange(48, 64));
    assert(b.rdaddr.addr@ =~= w.subrange(48, 64));
    lemma_port_in_wire(a);
    lemma_port_in_wire(b);
}

proof fn lemma_port_in_wire(a: PfiocNatlook)
    ensures
        a.wire()[64] * 256 + a.wire()[65] == a.sport,
        a.wire()[66] * 256 + a.wire()[67] == a.dport,
        a.wire()[68] * 256 + a.wire()[69] == a.rsport,
        a.wire()[70] * 256 + a.wire()[71] == a.rdport,
        a.wire()[72] == a.af,
        a.wire()[73] == a.proto,
        a.wire()[74] == a.direction,
        a.wire()[75] == a.log,
{
}

/// The request number of the lookup: a call that reads and writes its argument, whose length
/// stands above the group `D` and the number 23 within it.
pub open spec fn natlook_request_number() -> nat {
    0xC000_0000 + NATLOOK_LEN as nat * 0x1_0000 + 0x44 * 0x100 + 23
}

/// The request number of the lookup.
pub fn diocnatlook_ioctl() -> (r: u64)
    ensures
        r == natlook_request_number(),
{
    0xC000_0000u64 + NATLOOK_LEN as u64 * 0x1_0000 + 0x44 * 0x100 + 23
}

/// Why the destination of a redirected connection is not known.
#[derive(Clone, Copy, Debug, PartialEq, Eq)]
pub enum DestError {
    /// One end of the connection has no IPv4 address.
    NotIpv4,
    /// The packet filter knows of no such connection.
    LookupFailed,
}

impl DestError {
    /// The error in words.
    pub open spec fn words(self) -> Seq<char> {
        match self {
            DestError::NotIpv4 => "only IPv4 transparent HTTPS is currently supported"@,
            DestError::LookupFailed => "DIOCNATLOOK failed"@,
        }
    }

    /// The error in words.
    pub fn message(&self) -> (r: String)
        ensures
            r@ == self.words(),
    {
        match self {
            DestError::NotIpv4 => "only IPv4 transparent HTTPS is currently supported".to_owned(),
            DestError::LookupFailed => "DIOCNATLOOK failed".to_owned(),
        }
    }
}

/// A lookup under way.
#[derive(Clone, Copy, Debug)]
pub struct DestLookup {
    /// What the packet filter is asked.
    pub request: PfiocNatlook,
    /// Whether it was asked before, for a state in the other direction.
    pub retried: bool,
}

/// How a lookup goes on.
#[derive(Clone, Copy, Debug)]
pub enum LookupStep {
    /// The connection was going there.
    Found(SocketV4),
    /// Ask again, with this.
    Retry(DestLookup),
    /// It is not known where the connection was going.
    Failed(DestError),
}

/// The bytes of an IPv4 address as the packet filter holds them.
pub open spec fn padded(ip: Seq<u8>) -> Seq<u8> {
    ip + Seq::new(12, |i: int| 0u8)
}

/// The question where a connection was going that is seen here as one from `client` to `local`:
/// both addresses, room for the answer, both ports, room again, and that it is a TCP connection
/// over IPv4 on its way out.
pub open spec fn question(client: SocketV4, local: SocketV4) -> Seq<u8> {
    padded(client.ip@) + padded(local.ip@) + Seq::new(32, |i: int| 0u8) + bytes::big_endian(
        client.port,
    ) + bytes::big_endian(local.port) + seq![0, 0, 0, 0] + seq![AF_INET, IPPROTO_TCP, PF_OUT, 0]
}

fn pad(ip: &[u8; 4]) -> (r: PfAddr)
    ensures
        r.addr@ == padded(ip@),
{
    let mut addr = [0u8;16];
    addr[0] = ip[0];
    addr[1] = ip[1];
    addr[2] = ip[2];
    addr[3] = ip[3];
    assert(addr@ =~= padded(ip@));
    PfAddr { addr }
}

/// Begins the lookup of where the connection from `client`, which arrived at `local`, was going.
pub fn original_dest(client: SocketAddress, local: SocketAddress) -> (r: Result<
    DestLookup,
    DestError,
>)
    ensures
        match (client, local) {
            (SocketAddress::V4(c), SocketAddress::V4(l)) => {
                &&& r matches Ok(lookup)
                &&& !lookup.retried
                &&& lookup.request.wire() == question(c, l)
            },
            _ => r == Err::<DestLookup, DestError>(DestError::NotIpv4),
        },
{
    match (client, local) {
        (SocketAddress::V4(c), SocketAddress::V4(l)) => {
            let request = PfiocNatlook {
                saddr: pad(&c.ip),
                daddr: pad(&l.ip),
                sport: c.port,
                dport: l.port,
                af: AF_INET,
                proto: IPPROTO_TCP,
                direction: PF_OUT,
                ..PfiocNatlook::default()
            };
            assert(request.wire() =~= question(c, l));
            Ok(DestLookup { request, retried: false })
        },
        _ => Err(DestError::NotIpv4),
    }
}

impl DestLookup {
    /// Goes on after the call that asked the packet filter returned `ret` and left `reply` in
    /// place of the request. A first refusal has it asked once more, for any direction.
    pub fn answered(self, ret: i32, reply: PfiocNatlook) -> (r: LookupStep)
        ensures
            if ret >= 0 {
                &&& r matches LookupStep::Found(server)
                &&& server.ip@ == reply.rdaddr.addr@.take(4)
                &&& server.port == reply.rdport
                &&& server.ip@ == reply.wire().subrange(48, 52)
                &&& server.port == reply.wire()[70] * 256 + reply.wire()[71]
            } else if self.retried {
                r == LookupStep::Failed(DestError::LookupFailed)
            } else {
                r == LookupStep::Retry(
                    (DestLookup {
                        request: (PfiocNatlook { direction: 0, ..reply }),
                        retried: true,
                    }),
                )
            },
            r matches LookupStep::Retry(again) ==> again.request.wire() == reply.wire().update(
                74,
                0,
            ),
            r is Retry <==> ret < 0 && !self.retried,
            r is Found <==> ret >= 0,
    {
        if ret < 0 {
            if self.retried {
                return LookupStep::Failed(DestError::LookupFailed);
            }
            let mut request = reply;
            request.direction = 0;
            assert(request.wire() =~= reply.wire().update(74, 0));
            return LookupStep::Retry(DestLookup { request, retried: true });
        }
        let addr = reply.rdaddr.addr;
        let ip: [u8; 4] = [addr[0], addr[1], addr[2], addr[3]];
        assert(ip@ =~= reply.rdaddr.addr@.take(4));
        assert(ip@ =~= reply.wire().subrange(48, 52));
        LookupStep::Found(SocketV4 { ip, port: reply.rdport })
    }
}

/// Where each field of a lookup lies in its 76 bytes: the four addresses take 16 bytes each, the
/// four ports two bytes each, of which the first counts for 256, and the rest one byte each.
pub proof fn law_where_the_fields_lie(lookup: PfiocNatlook)
    ensures
        ({
            let w = lookup.wire();
            &&& w.len() == 76
            &&& NATLOOK_LEN == 76
            &&& w.subrange(0, 16) == lookup.saddr.addr@
            &&& w.subrange(16, 32) == lookup.daddr.addr@
            &&& w.subrange(32, 48) == lookup.rsaddr.addr@
            &&& w.subrange(48, 64) == lookup.rdaddr.addr@
            &&& w[64] * 256 + w[65] == lookup.sport
            &&& w[66] * 256 + w[67] == lookup.dport
            &&& w[68] * 256 + w[69] == lookup.rsport
            &&& w[70] * 256 + w[71] == lookup.rdport
            &&& w[72] == lookup.af
            &&& w[73] == lookup.proto
            &&& w[74] == lookup.direction
            &&& w[75] == lookup.log
        }),
{
    lemma_port_in_wire(lookup);
    let w = lookup.wire();
    assert(w.subrange(0, 16) =~= lookup.saddr.addr@);
    assert(w.subrange(16, 32) =~= lookup.daddr.addr@);
    assert(w.subrange(32, 48) =~= lookup.rsaddr.addr@);
    assert(w.subrange(48, 64) =~= lookup.rdaddr.addr@);
}

/// What the packet filter is asked, byte by byte: the address of the client from the first byte
/// on and that of this end from the 17th on, their ports from the 65th byte on, then the numbers
/// of IPv4, of TCP and of the way out, and zero everywhere else.
pub proof fn law_question_tells_both_ends(client: SocketV4, local: SocketV4, k: int)
    ensures
        ({
            let q = question(client, local);
            &&& q.len() == 76
            &&& q.subrange(0, 4) == client.ip@
            &&& q.subrange(16, 20) == local.ip@
            &&& q[64] * 256 + q[65] == client.port
            &&& q[66] * 256 + q[67] == local.port
            &&& q[72] == 2 && q[73] == 6 && q[74] == 1
            &&& 4 <= k < 16 || 20 <= k < 64 || 68 <= k < 72 || k == 75 ==> q[k] == 0
        }),
{
    let q = question(client, local);
    assert(q.subrange(0, 4) =~= client.ip@);
    assert(q.subrange(16, 20) =~= local.ip@);
}

/// The question tells the connections of different clients apart.
pub proof fn law_question_tells_connections_apart(
    client: SocketV4,
    local: SocketV4,
    other: SocketV4,
    end: SocketV4,
)
    requires
        question(client, local) == question(other, end),
    ensures
        client.ip@ == other.ip@,
        client.port == other.port,
        local.ip@ == end.ip@,
        local.port == end.port,
{
    law_question_tells_both_ends(client, local, 0);
    law_question_tells_both_ends(other, end, 0);
}

/// Every reason why a destination is not known, in words.
pub proof fn law_dest_errors_in_words(e: DestError)
    ensures
        match e {
            DestError::NotIpv4 => e.words()
                == "only IPv4 transparent HTTPS is currently supported"@,
            DestError::LookupFailed => e.words() == "DIOCNATLOOK failed"@,
        },
{
}

} // verus!
