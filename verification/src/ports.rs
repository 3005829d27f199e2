//! The ports that the proxies listen on, and those set aside for connections upstream.

use vstd::prelude::*;

verus! {

/// The port plan of one run.
#[derive(Clone, Copy)]
pub struct Ports {
    /// Where both DNS proxies listen, over UDP and over TCP.
    pub tcp_proxy: u16,
    /// Where the HTTPS relay listens.
    pub https_proxy: u16,
    /// The first of the source ports for connections upstream.
    pub upstream_base: u16,
    /// How many source ports there are for connections upstream.
    pub upstream_count: u16,
}

impl Ports {
    /// The first number past the range set aside is a port number, and not zero.
    pub open spec fn wf(self) -> bool {
        1 <= self.upstream_base + self.upstream_count <= u16::MAX
    }

    /// The last of the source ports for connections upstream.
    pub open spec fn upstream_hi(self) -> int {
        self.upstream_base + self.upstream_count - 1
    }

    /// Whether `port` is one of the source ports for connections upstream.
    pub open spec fn reserves(self, port: int) -> bool {
        self.upstream_base <= port <= self.upstream_hi()
    }

    /// The plan with these ports, if the range set aside is a valid one.
    pub fn new(
        tcp_proxy: u16,
        https_proxy: u16,
        upstream_base: u16,
        upstream_count: u16,
    ) -> (r: Option<Ports>)
        ensures
            ({
                let plan = Ports { tcp_proxy, https_proxy, upstream_base, upstream_count };
                r == if plan.wf() {
                    Some(plan)
                } else {
                    None
                }
            }),
    {
        if upstream_base <= u16::MAX - upstream_count && upstream_base + upstream_count >= 1 {
            Some(Ports { tcp_proxy, https_proxy, upstream_base, upstream_count })
        } else {
            None
        }
    }

    /// The last of the source ports for connections upstream.
    pub fn last_upstream(&self) -> (r: u16)
        requires
            self.wf(),
        ensures
            r == self.upstream_hi(),
    {
        self.upstream_base + self.upstream_count - 1
    }
}

/// A port plan is valid exactly if its range of source ports ends below the highest port number,
/// and has an end.
pub proof fn law_valid_plans(ports: Ports, port: int)
    ensures
        ports.wf() <==> 1 <= ports.upstream_base + ports.upstream_count <= 65535,
        ports.upstream_hi() - ports.upstream_base == ports.upstream_count - 1,
        ports.reserves(port) <==> 0 <= port - ports.upstream_base < ports.upstream_count,
{
}

} // verus!
