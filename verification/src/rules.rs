//! The packet filter rules that send DNS and TLS traffic to the local proxies.

use crate::command::{lossy_text, CommandOutput};
use crate::ports::Ports;
use crate::text::{append_decimal, to_chars, trimmed};
use crate::{command, connect, text};
use vstd::prelude::*;

verus! {

/// Why the interface of the default route is not known.
pub enum RouteError<S> {
    /// `route` could not be run.
    NotRun,
    /// `route` failed; what it said.
    CommandFailed(S),
    /// The output of `route` names no interface.
    NoInterface,
}

impl View for RouteError<String> {
    type V = RouteError<Seq<char>>;

    open spec fn view(&self) -> RouteError<Seq<char>> {
        match self {
            RouteError::NotRun => RouteError::NotRun,
            RouteError::CommandFailed(s) => RouteError::CommandFailed(s@),
            RouteError::NoInterface => RouteError::NoInterface,
        }
    }
}

/// How many characters of `s` come before its first line feed.
pub open spec fn line_len(s: Seq<char>) -> nat
    decreases s.len(),
{
    if s.len() == 0 || s.first() == '\n' {
        0
    } else {
        1 + line_len(s.drop_first())
    }
}

/// What a line of the output of `route` names as the interface, if it does.
pub open spec fn interface_on_line(line: Seq<char>) -> Option<Seq<char>> {
    let entry = text::trim(line);
    if "interface:"@.is_prefix_of(entry) {
        Some(text::trim(entry.skip("interface:"@.len() as int)))
    } else {
        None
    }
}

/// The interface that the first line to name one names.
pub open spec fn interface_named(s: Seq<char>) -> Option<Seq<char>>
    decreases s.len(),
{
    let n = line_len(s) as int;
    if interface_on_line(s.take(n)) is Some {
        interface_on_line(s.take(n))
    } else if n < s.len() {
        interface_named(s.skip(n + 1))
    } else {
        None
    }
}

proof fn lemma_line_len(s: Seq<char>, n: int)
    requires
        0 <= n <= s.len(),
        forall|k: int| 0 <= k < n ==> s[k] != '\n',
        n < s.len() ==> s[n] == '\n',
    ensures
        line_len(s) == n,
    decreases n,
{
    if n > 0 {
        lemma_line_len(s.drop_first(), n - 1);
    }
}

/// What `line` names as the interface, if it does.
fn interface_of_line(line: &str) -> (r: Option<String>)
    ensures
        match r {
            Some(name) => interface_on_line(line@) == Some(name@),
            None => interface_on_line(line@) is None,
        },
{
    let entry = trimmed(line);
    let have = to_chars(entry.as_str());
    let want = to_chars("interface:");
    if have.len() < want.len() {
        return None;
    }
    for k in 0..want.len()
        invariant
            have@ == entry@,
            want@ == "interface:"@,
            want.len() <= have.len(),
            forall|m: int| 0 <= m < k ==> have@[m] == want@[m],
            entry@ == text::trim(line@),
    {
        if have[k] != want[k] {
            assert(!"interface:"@.is_prefix_of(entry@));
            return None;
        }
    }
    assert("interface:"@ =~= entry@.subrange(0, want.len() as int));
    assert(entry@.skip(want.len() as int) =~= entry@.subrange(
        want.len() as int,
        have.len() as int,
    ));
    Some(trimmed(entry.as_str().substring_char(want.len(), have.len())))
}

/// The interface that the output of `route` names: the rest of the first line that, without the
/// white space around it, starts with `interface:`.
pub fn interface_in(text: &str) -> (r: Option<String>)
    ensures
        match r {
            Some(name) => interface_named(text@) == Some(name@),
            None => interface_named(text@) is None,
        },
{
    let chars = to_chars(text);
    let mut from: usize = 0;
    assert(text@.skip(0) =~= text@);
    loop
        invariant
            chars@ == text@,
            from <= chars.len(),
            interface_named(text@) == interface_named(text@.skip(from as int)),
        decreases chars.len() - from,
    {
        let ghost rest = text@.skip(from as int);
        let mut to: usize = from;
        while to < chars.len() && chars[to] != '\n'
            invariant
                chars@ == text@,
                from <= to <= chars.len(),
                forall|k: int| from <= k < to ==> text@[k] != '\n',
            decreases chars.len() - to,
        {
            to += 1;
        }
        proof {
            assert forall|k: int| 0 <= k < to - from implies rest[k] != '\n' by {
                assert(rest[k] == text@[k + from]);
            }
            lemma_line_len(rest, to - from);
            assert(rest.take(to - from) =~= text@.subrange(from as int, to as int));
        }
        let found = interface_of_line(text.substring_char(from, to));
        if found.is_some() {
            return found;
        }
        if to == chars.len() {
            return None;
        }
        assert(rest.skip(to - from + 1) =~= text@.skip(to + 1));
        from = to + 1;
    }
}

/// What `route -n get default` tells of the interface of the default route.
pub open spec fn default_route(route: Option<CommandOutput>) -> Result<
    Seq<char>,
    RouteError<Seq<char>>,
> {
    match route {
        None => Err(RouteError::NotRun),
        Some(out) => if !out.success {
            Err(
                RouteError::CommandFailed(
                    text::trim(command::as_text(out.stderr@)),
                ),
            )
        } else {
            match interface_named(command::as_text(out.stdout@)) {
                Some(name) => Ok(name),
                None => Err(RouteError::NoInterface),
            }
        },
    }
}

/// The interface of the default route, from the outcome of `route -n get default`. `None` stands
/// for a command that could not be run.
pub fn default_interface(route: &Option<CommandOutput>) -> (r: Result<String, RouteError<String>>)
    ensures
        match r {
            Ok(name) => default_route(*route) == Ok::<Seq<char>, RouteError<Seq<char>>>(name@),
            Err(e) => default_route(*route) == Err::<Seq<char>, RouteError<Seq<char>>>(e@),
        },
{
    match route {
        None => Err(RouteError::NotRun),
        Some(out) => {
            if !out.success {
                let said = lossy_text(&out.stderr);
                return Err(RouteError::CommandFailed(trimmed(said.as_str())));
            }
            let stdout = lossy_text(&out.stdout);
            match interface_in(stdout.as_str()) {
                Some(name) => Ok(name),
                None => Err(RouteError::NoInterface),
            }
        },
    }
}

impl RouteError<String> {
    /// The error in words.
    pub fn message(&self) -> (r: String)
        ensures
            r@ == self@.words(),
    {
        match self {
            RouteError::NotRun => "detecting default route interface".to_owned(),
            RouteError::CommandFailed(said) => {
                let mut out = "route -n get default failed: ".to_owned();
                out.append(said.as_str());
                out
            },
            RouteError::NoInterface => "could not find default route interface".to_owned(),
        }
    }
}

impl RouteError<Seq<char>> {
    /// The error in words.
    pub open spec fn words(self) -> Seq<char> {
        match self {
            RouteError::NotRun => "detecting default route interface"@,
            RouteError::CommandFailed(said) => "route -n get default failed: "@ + said,
            RouteError::NoInterface => "could not find default route interface"@,
        }
    }
}

/// The rule that starts with `head` and leaves alone what comes from the reserved source ports.
pub open spec fn spare_sources(head: Seq<char>, ports: Ports) -> Seq<char> {
    head + " inet proto tcp from any port "@ + text::decimal(ports.upstream_base as nat) + ":"@
        + text::decimal(ports.upstream_hi() as nat) + " to any port 443\n"@
}

/// The rule that starts with `head` and leaves alone what goes to the local proxies.
pub open spec fn spare_proxies(head: Seq<char>, ports: Ports) -> Seq<char> {
    head + " inet proto tcp from any to any port {"@ + text::decimal(ports.tcp_proxy as nat)
        + ", "@ + text::decimal(ports.https_proxy as nat) + "}\n"@
}

/// The rule that starts with `head` and ends in the local port that traffic is sent to.
pub open spec fn redirect(head: Seq<char>, port: u16) -> Seq<char> {
    head + " -> 127.0.0.1 port "@ + text::decimal(port as nat) + "\n"@
}

/// The rule that makes what leaves through `iface` for port 443 pass the loopback interface.
pub open spec fn route_to_loopback(iface: Seq<char>) -> Seq<char> {
    "pass out on "@ + iface
        + " inet route-to (lo0 127.0.0.1) proto tcp from any to any port 443\n"@
}

/// The rules, in the order in which the packet filter reads them: what is left alone, then DNS
/// over UDP and TCP and TLS sent to the local proxies, then QUIC blocked, and TLS on its way out
/// through `iface` turned to the loopback interface.
pub open spec fn rules_text(ports: Ports, iface: Seq<char>) -> Seq<char> {
    spare_sources("no rdr"@, ports) + spare_sources("no rdr on lo0"@, ports) + spare_proxies(
        "no rdr"@,
        ports,
    ) + spare_proxies("no rdr on lo0"@, ports) + redirect(
        "rdr pass inet proto udp from any to any port 53"@,
        ports.tcp_proxy,
    ) + redirect("rdr pass inet proto tcp from any to any port 53"@, ports.tcp_proxy) + redirect(
        "rdr pass inet proto tcp from any to any port 443"@,
        ports.https_proxy,
    ) + redirect("rdr pass on lo0 inet proto tcp from any to any port 443"@, ports.https_proxy)
        + "block drop quick inet proto udp from any to any port 443\n"@ + route_to_loopback(iface)
}

fn spare_sources_line(head: &str, ports: &Ports) -> (r: String)
    requires
        ports.wf(),
    ensures
        r@ == spare_sources(head@, *ports),
{
    let mut out = head.to_owned();
    out.append(" inet proto tcp from any port ");
    append_decimal(&mut out, ports.upstream_base);
    out.append(":");
    append_decimal(&mut out, ports.last_upstream());
    out.append(" to any port 443\n");
    out
}

fn spare_proxies_line(head: &str, ports: &Ports) -> (r: String)
    ensures
        r@ == spare_proxies(head@, *ports),
{
    let mut out = head.to_owned();
    out.append(" inet proto tcp from any to any port {");
    append_decimal(&mut out, ports.tcp_proxy);
    out.append(", ");
    append_decimal(&mut out, ports.https_proxy);
    out.append("}\n");
    out
}

fn redirect_line(head: &str, port: u16) -> (r: String)
    ensures
        r@ == redirect(head@, port),
{
    let mut out = head.to_owned();
    out.append(" -> 127.0.0.1 port ");
    append_decimal(&mut out, port);
    out.append("\n");
    out
}

fn route_to_loopback_line(iface: &str) -> (r: String)
    ensures
        r@ == route_to_loopback(iface@),
{
    let mut out = "pass out on ".to_owned();
    out.append(iface);
    out.append(" inet route-to (lo0 127.0.0.1) proto tcp from any to any port 443\n");
    out
}

/// The rules for traffic that leaves through `iface`.
pub fn rules_for(ports: &Ports, iface: &str) -> (r: String)
    requires
        ports.wf(),
    ensures
        r@ == rules_text(*ports, iface@),
{
    let mut out = spare_sources_line("no rdr", ports);
    out.append(spare_sources_line("no rdr on lo0", ports).as_str());
    out.append(spare_proxies_line("no rdr", ports).as_str());
    out.append(spare_proxies_line("no rdr on lo0", ports).as_str());
    out.append(
        redirect_line("rdr pass inet proto udp from any to any port 53", ports.tcp_proxy).as_str(),
    );
    out.append(
        redirect_line("rdr pass inet proto tcp from any to any port 53", ports.tcp_proxy).as_str(),
    );
    out.append(
        redirect_line(
            "rdr pass inet proto tcp from any to any port 443",
            ports.https_proxy,
        ).as_str(),
    );
    out.append(
        redirect_line(
            "rdr pass on lo0 inet proto tcp from any to any port 443",
            ports.https_proxy,
        ).as_str(),
    );
    out.append("block drop quick inet proto udp from any to any port 443\n");
    out.append(route_to_loopback_line(iface).as_str());
    out
}

/// What the rules are, given what `route` told.
pub open spec fn rules_outcome(ports: Ports, route: Option<CommandOutput>) -> Result<
    Seq<char>,
    RouteError<Seq<char>>,
> {
    match default_route(route) {
        Ok(iface) => Ok(rules_text(ports, iface)),
        Err(e) => Err(e),
    }
}

/// The packet filter rules, given the outcome of `route -n get default`.
pub fn pf_rules(ports: &Ports, route: &Option<CommandOutput>) -> (r: Result<
    String,
    RouteError<String>,
>)
    requires
        ports.wf(),
    ensures
        match r {
            Ok(rules) => rules_outcome(*ports, *route) == Ok::<Seq<char>, RouteError<Seq<char>>>(
                rules@,
            ),
            Err(e) => rules_outcome(*ports, *route) == Err::<Seq<char>, RouteError<Seq<char>>>(e@),
        },
{
    match default_interface(route) {
        Ok(iface) => Ok(rules_for(ports, iface.as_str())),
        Err(e) => Err(e),
    }
}

/// The first two rules spare the traffic that leaves from the reserved source ports, on any
/// interface and on the loopback interface, and a connection upstream can leave from a port if
/// and only if it is one of those: none is redirected again, and nothing else is spared there.
pub proof fn law_connections_upstream_are_spared(ports: Ports, iface: Seq<char>, port: int)
    requires
        ports.wf(),
        ports.upstream_count > 0,
    ensures
        (spare_sources("no rdr"@, ports) + spare_sources("no rdr on lo0"@, ports)).is_prefix_of(
            rules_text(ports, iface),
        ),
        ports.upstream_base <= port <= ports.upstream_hi() <==> exists|n: u32| #[trigger]
            connect::port_picked(ports, n) == port,
{
    let opening = spare_sources("no rdr"@, ports) + spare_sources("no rdr on lo0"@, ports);
    let all = rules_text(ports, iface);
    assert(opening =~= all.subrange(0, opening.len() as int));
    if ports.reserves(port) {
        let n = (port - ports.upstream_base) as u32;
        assert(n as int % ports.upstream_count as int == n) by (nonlinear_arith)
            requires
                0 <= n < ports.upstream_count,
        ;
        assert(connect::port_picked(ports, n) == port);
    }
}

/// The first line of a text that names an interface decides: lines before it change nothing, and
/// neither do those after it.
pub proof fn law_first_line_to_name_an_interface_decides(line: Seq<char>, rest: Seq<char>)
    requires
        forall|k: int| 0 <= k < line.len() ==> line[k] != '\n',
    ensures
        interface_named(line + seq!['\n'] + rest) == if interface_on_line(line) is Some {
            interface_on_line(line)
        } else {
            interface_named(rest)
        },
        interface_named(line) == interface_on_line(line),
{
    let all = line + seq!['\n'] + rest;
    let n = line.len() as int;
    assert forall|k: int| 0 <= k < n implies all[k] != '\n' by {
        assert(all[k] == line[k]);
    }
    lemma_line_len(all, n);
    assert(all.take(n) =~= line);
    assert(all.skip(n + 1) =~= rest);
    lemma_line_len(line, n);
    assert(line.take(n) =~= line);
}

/// Whether `line` is `head`, then a rule for TCP connections from a range of ports to port 443,
/// where `a` and `b` are the texts of the first port and the last.
pub open spec fn spares_range(
    line: Seq<char>,
    head: Seq<char>,
    a: Seq<char>,
    b: Seq<char>,
) -> bool {
    line == head + " inet proto tcp from any port "@ + a + ":"@ + b + " to any port 443\n"@
}

/// The rules that spare the reserved source ports tell the range as it is: the numbers read back
/// from their text are its first port and its last, so a port is picked for a connection upstream
/// iff it lies between those numbers.
pub proof fn law_spared_range_reads_back(ports: Ports, head: Seq<char>, port: int)
    requires
        ports.wf(),
    ensures
        exists|a: Seq<char>, b: Seq<char>|
            {
                &&& #[trigger] spares_range(spare_sources(head, ports), head, a, b)
                &&& text::numeral(a, ports.upstream_base as nat)
                &&& text::numeral(b, (ports.upstream_base + ports.upstream_count - 1) as nat)
                &&& ports.upstream_count > 0 ==> (text::decimal_value(a) <= port
                    <= text::decimal_value(b) <==> exists|n: u32| #[trigger]
                    connect::port_picked(ports, n) == port)
            },
{
    let a = text::decimal(ports.upstream_base as nat);
    let b = text::decimal(ports.upstream_hi() as nat);
    text::law_decimal_is_a_numeral(ports.upstream_base as nat);
    text::law_decimal_is_a_numeral(ports.upstream_hi() as nat);
    if ports.upstream_count > 0 {
        law_connections_upstream_are_spared(ports, head, port);
    }
    assert(spares_range(spare_sources(head, ports), head, a, b));
}

/// Whether `s` is the ten rules, where `a` and `b` are the texts of the first and the last
/// reserved port, and `dns` and `https` those of the ports of the local proxies.
pub open spec fn reads_as_rules(
    s: Seq<char>,
    iface: Seq<char>,
    a: Seq<char>,
    b: Seq<char>,
    dns: Seq<char>,
    https: Seq<char>,
) -> bool {
    let sources = " inet proto tcp from any port "@ + a + ":"@ + b + " to any port 443\n"@;
    let proxies = " inet proto tcp from any to any port {"@ + dns + ", "@ + https + "}\n"@;
    s == "no rdr"@ + sources + ("no rdr on lo0"@ + sources) + ("no rdr"@ + proxies) + (
    "no rdr on lo0"@ + proxies) + ("rdr pass inet proto udp from any to any port 53"@
        + " -> 127.0.0.1 port "@ + dns + "\n"@) + (
    "rdr pass inet proto tcp from any to any port 53"@ + " -> 127.0.0.1 port "@ + dns + "\n"@) + (
    "rdr pass inet proto tcp from any to any port 443"@ + " -> 127.0.0.1 port "@ + https + "\n"@)
        + ("rdr pass on lo0 inet proto tcp from any to any port 443"@ + " -> 127.0.0.1 port "@
        + https + "\n"@) + "block drop quick inet proto udp from any to any port 443\n"@ + (
    "pass out on "@ + iface
        + " inet route-to (lo0 127.0.0.1) proto tcp from any to any port 443\n"@)
}

/// The rules tell the port plan as it is: the numbers read back from their text are the bounds of
/// the reserved range and the ports of the local proxies, DNS goes to the one and TLS to the
/// other, and the interface is the one that they are for.
pub proof fn law_rules_read_back(ports: Ports, iface: Seq<char>)
    requires
        ports.wf(),
    ensures
        exists|a: Seq<char>, b: Seq<char>, dns: Seq<char>, https: Seq<char>|
            {
                &&& #[trigger] reads_as_rules(rules_text(ports, iface), iface, a, b, dns, https)
                &&& text::numeral(a, ports.upstream_base as nat)
                &&& text::numeral(b, (ports.upstream_base + ports.upstream_count - 1) as nat)
                &&& text::numeral(dns, ports.tcp_proxy as nat)
                &&& text::numeral(https, ports.https_proxy as nat)
            },
{
    let a = text::decimal(ports.upstream_base as nat);
    let b = text::decimal(ports.upstream_hi() as nat);
    let dns = text::decimal(ports.tcp_proxy as nat);
    let https = text::decimal(ports.https_proxy as nat);
    text::law_decimal_is_a_numeral(ports.upstream_base as nat);
    text::law_decimal_is_a_numeral(ports.upstream_hi() as nat);
    text::law_decimal_is_a_numeral(ports.tcp_proxy as nat);
    text::law_decimal_is_a_numeral(ports.https_proxy as nat);
    let sources = " inet proto tcp from any port "@ + a + ":"@ + b + " to any port 443\n"@;
    let proxies = " inet proto tcp from any to any port {"@ + dns + ", "@ + https + "}\n"@;
    assert(spare_sources("no rdr"@, ports) =~= "no rdr"@ + sources);
    assert(spare_sources("no rdr on lo0"@, ports) =~= "no rdr on lo0"@ + sources);
    assert(spare_proxies("no rdr"@, ports) =~= "no rdr"@ + proxies);
    assert(spare_proxies("no rdr on lo0"@, ports) =~= "no rdr on lo0"@ + proxies);
    assert(reads_as_rules(rules_text(ports, iface), iface, a, b, dns, https));
}

/// Whether `line` holds the word `interface:` from `i` on, and nothing but white space before.
pub open spec fn names_interface_at(line: Seq<char>, i: int) -> bool {
    &&& 0 <= i <= line.len() - 10
    &&& forall|k: int| 0 <= k < i ==> text::white_space(#[trigger] line[k])
    &&& line.subrange(i, i + 10) == "interface:"@
}

/// What follows `interface:` on a line, without the white space around it, is the interface,
/// whatever it is and whatever white space there is.
pub proof fn law_interface_is_what_follows_the_word(
    before: Seq<char>,
    gap: Seq<char>,
    name: Seq<char>,
    behind: Seq<char>,
)
    requires
        forall|k: int| 0 <= k < before.len() ==> text::white_space(#[trigger] before[k]),
        forall|k: int| 0 <= k < gap.len() ==> text::white_space(#[trigger] gap[k]),
        forall|k: int| 0 <= k < behind.len() ==> text::white_space(#[trigger] behind[k]),
        name.len() > 0 ==> !text::white_space(name.first()) && !text::white_space(name.last()),
    ensures
        interface_on_line(before + "interface:"@ + gap + name + behind) == Some(name),
{
    reveal_strlit("interface:");
    let word = "interface:"@;
    let line = before + word + gap + name + behind;
    let none = Seq::<char>::empty();
    if name.len() > 0 {
        let core = word + gap + name;
        assert(line =~= before + core + behind);
        text::law_trim_finds_what_stands_between_white_space(before, core, behind);
        assert(word =~= core.subrange(0, word.len() as int));
        assert(core.skip(word.len() as int) =~= gap + name + none);
        text::law_trim_finds_what_stands_between_white_space(gap, name, none);
    } else {
        assert(line =~= before + word + (gap + behind));
        text::law_trim_finds_what_stands_between_white_space(before, word, gap + behind);
        assert(word =~= word.subrange(0, word.len() as int));
        assert(word.skip(word.len() as int) =~= none);
        assert(text::trim(none) =~= name);
    }
}

/// A line names an interface iff it starts with `interface:`, white space aside.
pub proof fn law_lines_that_name_an_interface(line: Seq<char>)
    ensures
        interface_on_line(line) is Some <==> exists|i: int| #[trigger] names_interface_at(line, i),
{
    reveal_strlit("interface:");
    let word = "interface:"@;
    if interface_on_line(line) is Some {
        text::law_trim_takes_all_outer_white_space(line);
        let (i, j) = choose|i: int, j: int| #[trigger]
            text::white_space_outside(line, i, j) && text::trim(line) == line.subrange(i, j);
        let entry = text::trim(line);
        assert(word =~= entry.subrange(0, 10));
        assert(entry.subrange(0, 10) =~= line.subrange(i, i + 10));
        assert(names_interface_at(line, i));
    }
    if exists|i: int| #[trigger] names_interface_at(line, i) {
        let i = choose|i: int| #[trigger] names_interface_at(line, i);
        let before = line.take(i);
        let rest = line.skip(i + 10);
        text::law_trim_takes_all_outer_white_space(rest);
        let (from, to) = choose|from: int, to: int| #[trigger]
            text::white_space_outside(rest, from, to) && text::trim(rest) == rest.subrange(
                from,
                to,
            );
        let gap = rest.take(from);
        let name = rest.subrange(from, to);
        let behind = rest.skip(to);
        assert(line =~= before + word + gap + name + behind);
        law_interface_is_what_follows_the_word(before, gap, name, behind);
    }
}

/// The default route is known iff `route` ran, succeeded, and named an interface on its standard
/// output, whatever it wrote besides. Otherwise what is wrong is that it could not be run, what
/// it wrote to its standard error, or that it named none.
pub proof fn law_default_route_is_what_route_named(route: Option<CommandOutput>)
    ensures
        match route {
            None => default_route(route) matches Err(e) && e is NotRun,
            Some(out) => if !out.success {
                default_route(route) matches Err(RouteError::CommandFailed(said)) && said
                    == text::trim(command::as_text(out.stderr@))
            } else {
                match interface_named(command::as_text(out.stdout@)) {
                    Some(name) => default_route(route) matches Ok(iface) && iface == name,
                    None => default_route(route) matches Err(e) && e is NoInterface,
                }
            },
        },
{
}

/// There are rules iff the default route is known, and they are those for its interface.
pub proof fn law_rules_are_for_the_default_route(ports: Ports, route: Option<CommandOutput>)
    ensures
        match default_route(route) {
            Ok(iface) => rules_outcome(ports, route) matches Ok(rules) && rules == rules_text(
                ports,
                iface,
            ),
            Err(e) => rules_outcome(ports, route) matches Err(told) && told == e,
        },
{
}

/// Every reason why the default route is not known, in words.
pub proof fn law_route_errors_in_words(e: RouteError<String>)
    ensures
        match e {
            RouteError::NotRun => e@.words() == "detecting default route interface"@,
            RouteError::CommandFailed(said) => e@.words() == "route -n get default failed: "@
                + said@,
            RouteError::NoInterface => e@.words() == "could not find default route interface"@,
        },
{
}

} // verus!
