//! Starting the proxy, keeping it running, and stopping it.

use crate::anchor::PfAnchor;
use crate::command::strict_text;
use crate::plan::{Plan, Step};
use crate::stop::{is_stopped, request_stop, StopFlag};
use crate::text::trimmed;
use crate::{anchor, plan, text};
use vstd::prelude::*;

verus! {

/// What the program runs on.
#[derive(Clone, Copy, Debug, PartialEq, Eq, Structural)]
pub enum Platform {
    /// Windows.
    Windows,
    /// macOS.
    MacOs,
    /// Anything else.
    Other,
}

/// What is known of the privileges that the program runs with.
pub enum Privileges {
    /// On Windows: what `IsUserAnAdmin` returned.
    Windows(i32),
    /// On macOS: what `id -u` wrote to its standard output, if it could be run.
    MacOs(Option<Vec<u8>>),
    /// Elsewhere nothing is asked.
    Other,
}

/// Whether the program may do what it is for. On macOS `id -u` must have told the user zero.
pub open spec fn privileged(known: Privileges) -> bool {
    match known {
        Privileges::Windows(answer) => answer != 0,
        Privileges::MacOs(Some(stdout)) => vstd::utf8::valid_utf8(stdout@) && text::trim(
            vstd::utf8::decode_utf8(stdout@),
        ) == "0"@,
        Privileges::MacOs(None) => false,
        Privileges::Other => true,
    }
}

/// Whether the program may do what it is for.
pub fn is_admin(known: Privileges) -> (r: bool)
    ensures
        r == privileged(known),
{
    match known {
        Privileges::Windows(answer) => answer != 0,
        Privileges::MacOs(Some(stdout)) => {
            match strict_text(stdout) {
                Some(uid) => trimmed(uid.as_str()) == "0".to_owned(),
                None => false,
            }
        },
        Privileges::MacOs(None) => false,
        Privileges::Other => true,
    }
}

/// A step that must succeed.
pub open spec fn must<T>(action: T) -> Step<T> {
    Step { action, must_succeed: true }
}

/// A step after which the plan goes on whatever it came to.
pub open spec fn may<T>(action: T) -> Step<T> {
    Step { action, must_succeed: false }
}

fn must_step<T>(action: T) -> (r: Step<T>)
    ensures
        r == must(action),
{
    Step { action, must_succeed: true }
}

fn may_step<T>(action: T) -> (r: Step<T>)
    ensures
        r == may(action),
{
    Step { action, must_succeed: false }
}

/// A step of putting the proxies to work on macOS.
#[derive(Clone, Copy, Debug, PartialEq, Eq, Structural)]
pub enum StartStep {
    /// The DNS proxy listens for datagrams.
    UdpProxy,
    /// The DNS proxy listens for connections.
    TcpProxy,
    /// The table of redirected connections is opened.
    OpenNat,
    /// The HTTPS relay listens.
    HttpsRelay,
    /// The packet filter rules are put in place.
    InstallAnchor,
}

/// The steps of putting the proxies to work, in order.
pub open spec fn start_steps(dpi_bypass: bool) -> Seq<Step<StartStep>> {
    if dpi_bypass {
        seq![
            must(StartStep::UdpProxy),
            must(StartStep::TcpProxy),
            must(StartStep::OpenNat),
            must(StartStep::HttpsRelay),
            must(StartStep::InstallAnchor),
        ]
    } else {
        seq![
            must(StartStep::UdpProxy),
            must(StartStep::TcpProxy),
            must(StartStep::OpenNat),
            must(StartStep::InstallAnchor),
        ]
    }
}

/// Begins to put the proxies to work. The HTTPS relay is among them if `dpi_bypass` is on.
pub fn start<E>(stop: &mut StopFlag, dpi_bypass: bool) -> (r: Plan<StartStep, E>)
    ensures
        !final(stop)@,
        r.wf(),
        r.steps() == start_steps(dpi_bypass),
        r.progress() == (plan::Progress { at: 0, failed: false }),
{
    stop.reset();
    let mut steps: Vec<Step<StartStep>> = Vec::new();
    steps.push(must_step(StartStep::UdpProxy));
    steps.push(must_step(StartStep::TcpProxy));
    steps.push(must_step(StartStep::OpenNat));
    if dpi_bypass {
        steps.push(must_step(StartStep::HttpsRelay));
    }
    steps.push(must_step(StartStep::InstallAnchor));
    assert(steps@ =~= start_steps(dpi_bypass));
    Plan::new(steps)
}

/// The rules come last: when they are to be put in place, every other step is behind the plan and
/// has succeeded. The HTTPS relay is one of those steps if the bypass is on, and only then.
pub proof fn law_rules_come_after_every_other_step(dpi_bypass: bool, outcomes: Seq<bool>, n: nat)
    requires
        outcomes.len() == start_steps(dpi_bypass).len(),
    ensures
        ({
            let steps = start_steps(dpi_bypass);
            let p = plan::carried_out(steps, outcomes, n);
            &&& p.at < steps.len() && steps[p.at].action == StartStep::InstallAnchor ==> {
                &&& p.at == steps.len() - 1
                &&& forall|i: int| 0 <= i < p.at ==> #[trigger] outcomes[i]
            }
            &&& p.at < steps.len() - 1 ==> steps[p.at].action != StartStep::InstallAnchor
            &&& dpi_bypass <==> exists|i: int|
                0 <= i < steps.len() - 1 && (#[trigger] steps[i]).action == StartStep::HttpsRelay
        }),
{
    let steps = start_steps(dpi_bypass);
    plan::law_plan_stops_at_the_first_failure(steps, outcomes, n);
    let p = plan::carried_out(steps, outcomes, n);
    assert forall|i: int| 0 <= i < p.at implies #[trigger] outcomes[i] by {
        assert(steps[i].must_succeed);
    }
    if dpi_bypass {
        assert(steps[3].action == StartStep::HttpsRelay);
    }
}

/// A step of running on a platform.
#[derive(Clone, Copy, Debug, PartialEq, Eq, Structural)]
pub enum PlatformStep {
    /// On Windows: the DNS proxy listens.
    TcpServer,
    /// On Windows: the HTTPS relay listens.
    HttpsServer,
    /// On Windows: the packet diverter is opened.
    OpenDiverter,
    /// On Windows: packets are captured, on the side.
    Capture,
    /// On macOS: the proxies are put to work.
    StartRuntime,
    /// An interrupt is made to ask for a stop.
    HandleInterrupt,
    /// The program waits until it is asked to stop.
    AwaitStop,
    /// On macOS: the rules are taken away.
    DropRuntime,
}

/// That the program does not run on this platform.
#[derive(Clone, Copy, Debug, PartialEq, Eq, Structural)]
pub struct Unsupported;

impl Unsupported {
    /// The error in words.
    pub fn message(&self) -> (r: String)
        ensures
            r@ == "FreeGSM currently supports Windows and macOS only"@,
    {
        "FreeGSM currently supports Windows and macOS only".to_owned()
    }
}

/// The steps of running on `platform`, in order.
pub open spec fn platform_steps(platform: Platform, dpi_bypass: bool) -> Option<
    Seq<Step<PlatformStep>>,
> {
    match platform {
        Platform::Windows => Some(
            seq![must(PlatformStep::TcpServer)] + (if dpi_bypass {
                seq![must(PlatformStep::HttpsServer)]
            } else {
                Seq::empty()
            }) + seq![
                must(PlatformStep::OpenDiverter),
                must(PlatformStep::Capture),
                may(PlatformStep::HandleInterrupt),
                may(PlatformStep::AwaitStop),
            ],
        ),
        Platform::MacOs => Some(
            seq![
                must(PlatformStep::StartRuntime),
                may(PlatformStep::HandleInterrupt),
                may(PlatformStep::AwaitStop),
                may(PlatformStep::DropRuntime),
            ],
        ),
        Platform::Other => None,
    }
}

/// Begins to run on `platform`. That an interrupt cannot be made to ask for a stop ends nothing.
pub fn start_platform<E>(platform: Platform, dpi_bypass: bool) -> (r: Result<
    Plan<PlatformStep, E>,
    Unsupported,
>)
    ensures
        match r {
            Ok(p) => {
                &&& p.wf()
                &&& platform_steps(platform, dpi_bypass) == Some(p.steps())
                &&& p.progress() == (plan::Progress { at: 0, failed: false })
            },
            Err(_) => platform_steps(platform, dpi_bypass) is None,
        },
{
    let mut steps: Vec<Step<PlatformStep>> = Vec::new();
    match platform {
        Platform::Windows => {
            steps.push(must_step(PlatformStep::TcpServer));
            if dpi_bypass {
                steps.push(must_step(PlatformStep::HttpsServer));
            }
            steps.push(must_step(PlatformStep::OpenDiverter));
            steps.push(must_step(PlatformStep::Capture));
            steps.push(may_step(PlatformStep::HandleInterrupt));
            steps.push(may_step(PlatformStep::AwaitStop));
        },
        Platform::MacOs => {
            steps.push(must_step(PlatformStep::StartRuntime));
            steps.push(may_step(PlatformStep::HandleInterrupt));
            steps.push(may_step(PlatformStep::AwaitStop));
            steps.push(may_step(PlatformStep::DropRuntime));
        },
        Platform::Other => {
            return Err(Unsupported);
        },
    }
    assert(platform_steps(platform, dpi_bypass)->0 =~= steps@);
    Ok(Plan::new(steps))
}

/// On macOS, once the proxies are at work, nothing keeps the program from taking the rules away
/// after it was asked to stop; if they could not be put to work, nothing else is done.
pub proof fn law_rules_are_taken_away_in_the_end(dpi_bypass: bool, outcomes: Seq<bool>)
    requires
        outcomes.len() == 4,
    ensures
        ({
            let steps = platform_steps(Platform::MacOs, dpi_bypass)->0;
            &&& steps[0].action == PlatformStep::StartRuntime
            &&& steps[2].action == PlatformStep::AwaitStop
            &&& steps[3].action == PlatformStep::DropRuntime
            &&& outcomes[0] ==> {
                &&& plan::carried_out(steps, outcomes, 3) == (plan::Progress {
                    at: 3,
                    failed: false,
                })
                &&& plan::carried_out(steps, outcomes, 4) == (plan::Progress {
                    at: 4,
                    failed: false,
                })
            }
            &&& !outcomes[0] ==> forall|n: nat|
                n > 0 ==> #[trigger] plan::carried_out(steps, outcomes, n) == (plan::Progress {
                    at: 0,
                    failed: true,
                })
        }),
{
    let steps = platform_steps(Platform::MacOs, dpi_bypass)->0;
    assert forall|n: nat| n > 0 implies ({
        let p = #[trigger] plan::carried_out(steps, outcomes, n);
        outcomes[0] && n <= 4 ==> p == (plan::Progress { at: n as int, failed: false })
    }) by {
        plan::law_plan_stops_at_the_first_failure(steps, outcomes, n);
    }
    assert forall|n: nat| n > 0 && !outcomes[0] implies #[trigger] plan::carried_out(
        steps,
        outcomes,
        n,
    ) == (plan::Progress { at: 0, failed: true }) by {
        plan::law_plan_stops_at_the_first_failure(steps, outcomes, n);
        assert(steps[0].must_succeed);
    }
    assert(plan::carried_out(steps, outcomes, 3).at >= 0);
    assert(plan::carried_out(steps, outcomes, 4).at >= 0);
}

/// How long the program waits before it looks again whether it is to stop, in milliseconds.
pub const STOP_POLL_MS: u64 = 200;

/// How long to wait before looking again whether to stop; nothing once the program is to stop.
pub fn await_stop(stop: &StopFlag) -> (r: Option<u64>)
    ensures
        r == if stop@ {
            None
        } else {
            Some(STOP_POLL_MS)
        },
{
    if is_stopped(stop) {
        None
    } else {
        Some(STOP_POLL_MS)
    }
}

/// Where the whole program stands. `E` is what a part of it fails with.
pub enum RunState<E> {
    /// It looks at its privileges.
    CheckPrivileges,
    /// The resolver is being started.
    StartResolver,
    /// The upstream server is being tried.
    ProbeUpstream,
    /// It runs on its platform until it is asked to stop.
    StartPlatform,
    /// It has ended, with a status or because a part of it failed.
    Ended(Result<i32, E>),
}

/// What became of it.
pub enum RunEvent<E> {
    /// It has the privileges that it needs, or has not.
    Privileged(bool),
    /// The resolver was started, or failed.
    Resolver(Result<(), E>),
    /// The upstream server was reached, or was not.
    Probed(bool),
    /// The run on the platform is over, or failed.
    Platform(Result<(), E>),
}

impl<E> RunState<E> {
    /// Whether `event` can come next.
    pub open spec fn expects(self, event: RunEvent<E>) -> bool {
        match self {
            RunState::CheckPrivileges => event is Privileged,
            RunState::StartResolver => event is Resolver,
            RunState::ProbeUpstream => event is Probed,
            RunState::StartPlatform => event is Platform,
            RunState::Ended(_) => false,
        }
    }

    /// Where the program stands after `event`. Without its privileges, and with an upstream
    /// server that is not reached, it ends with status one; a part that fails ends it with what
    /// that failed with.
    pub open spec fn next(self, event: RunEvent<E>) -> RunState<E> {
        match (self, event) {
            (RunState::CheckPrivileges, RunEvent::Privileged(true)) => RunState::StartResolver,
            (RunState::CheckPrivileges, RunEvent::Privileged(false)) => RunState::Ended(Ok(1)),
            (RunState::StartResolver, RunEvent::Resolver(Ok(_))) => RunState::ProbeUpstream,
            (RunState::StartResolver, RunEvent::Resolver(Err(e))) => RunState::Ended(Err(e)),
            (RunState::ProbeUpstream, RunEvent::Probed(true)) => RunState::StartPlatform,
            (RunState::ProbeUpstream, RunEvent::Probed(false)) => RunState::Ended(Ok(1)),
            (RunState::StartPlatform, RunEvent::Platform(Ok(_))) => RunState::Ended(Ok(0)),
            (RunState::StartPlatform, RunEvent::Platform(Err(e))) => RunState::Ended(Err(e)),
            _ => self,
        }
    }

    /// Whether `event` can come next.
    pub fn accepts(&self, event: &RunEvent<E>) -> (r: bool)
        ensures
            r == self.expects(*event),
    {
        match (self, event) {
            (RunState::CheckPrivileges, RunEvent::Privileged(_)) => true,
            (RunState::StartResolver, RunEvent::Resolver(_)) => true,
            (RunState::ProbeUpstream, RunEvent::Probed(_)) => true,
            (RunState::StartPlatform, RunEvent::Platform(_)) => true,
            _ => false,
        }
    }

    /// Goes on after `event`.
    pub fn advance(self, event: RunEvent<E>) -> (r: RunState<E>)
        requires
            self.expects(event),
        ensures
            r == self.next(event),
    {
        match (self, event) {
            (RunState::CheckPrivileges, RunEvent::Privileged(privileged)) => if privileged {
                RunState::StartResolver
            } else {
                RunState::Ended(Ok(1))
            },
            (RunState::StartResolver, RunEvent::Resolver(outcome)) => match outcome {
                Ok(_) => RunState::ProbeUpstream,
                Err(e) => RunState::Ended(Err(e)),
            },
            (RunState::ProbeUpstream, RunEvent::Probed(reached)) => if reached {
                RunState::StartPlatform
            } else {
                RunState::Ended(Ok(1))
            },
            (_, RunEvent::Platform(outcome)) => match outcome {
                Ok(_) => RunState::Ended(Ok(0)),
                Err(e) => RunState::Ended(Err(e)),
            },
            (state, _) => state,
        }
    }
}

/// Begins the whole program.
pub fn run<E>() -> (r: RunState<E>)
    ensures
        r == RunState::<E>::CheckPrivileges,
{
    RunState::CheckPrivileges
}

/// The exit status of a program that has ended so: its status, or one where a part failed.
pub fn exit_code<E>(end: &Result<i32, E>) -> (r: i32)
    ensures
        r == match end {
            Ok(status) => *status,
            Err(_) => 1i32,
        },
{
    match end {
        Ok(status) => *status,
        Err(_) => 1,
    }
}

/// What each part of the program comes to, if it gets that far.
pub struct RunOutcomes<E> {
    /// Whether it has the privileges that it needs.
    pub privileged: bool,
    /// What starting the resolver comes to.
    pub resolver: Result<(), E>,
    /// Whether the upstream server is reached.
    pub reached: bool,
    /// What the run on the platform comes to.
    pub platform: Result<(), E>,
}

/// Where a program whose parts come to `o` stands after `n` of them, or as many as it takes to
/// end it.
pub open spec fn run_after<E>(o: RunOutcomes<E>, n: nat) -> RunState<E>
    decreases n,
{
    if n == 0 {
        RunState::CheckPrivileges
    } else {
        let state = run_after(o, (n - 1) as nat);
        match state {
            RunState::CheckPrivileges => state.next(RunEvent::Privileged(o.privileged)),
            RunState::StartResolver => state.next(RunEvent::Resolver(o.resolver)),
            RunState::ProbeUpstream => state.next(RunEvent::Probed(o.reached)),
            RunState::StartPlatform => state.next(RunEvent::Platform(o.platform)),
            RunState::Ended(_) => state,
        }
    }
}

/// Whether a program whose parts come to `o` gets to its resolver and that fails with `e`, or gets
/// to its platform and the run there does.
pub open spec fn fails_with<E>(o: RunOutcomes<E>, e: E) -> bool {
    &&& o.privileged
    &&& o.resolver == Err::<(), E>(e) || (o.resolver is Ok && o.reached && o.platform == Err::<
        (),
        E,
    >(e))
}

/// The program ends with status zero iff all its parts succeed. It ends with what a part failed
/// with iff that part is the resolver, or the run on the platform, and the program got to it. In
/// all other cases it ends with status one.
pub proof fn law_program_ends_by_what_failed<E>(o: RunOutcomes<E>)
    ensures
        run_after(o, 4) matches RunState::Ended(end) && {
            &&& end == Ok::<i32, E>(0) <==> o.privileged && o.resolver is Ok && o.reached
                && o.platform is Ok
            &&& forall|e: E| #[trigger] fails_with(o, e) <==> end == Err::<i32, E>(e)
            &&& end == Ok::<i32, E>(0) || end is Err || end == Ok::<i32, E>(1)
        },
{
    reveal_with_fuel(run_after, 5);
}

/// Traffic is left alone until the program has the privileges that it needs, its resolver was
/// started and the upstream server was reached; the server is not tried without the resolver.
pub proof fn law_traffic_is_left_alone_until_the_probe_succeeds<E>(o: RunOutcomes<E>, n: nat)
    ensures
        run_after(o, n) is StartPlatform ==> o.privileged && o.resolver is Ok && o.reached,
        run_after(o, n) is ProbeUpstream ==> o.privileged && o.resolver is Ok,
        run_after(o, n) is StartResolver ==> o.privileged,
    decreases n,
{
    if n > 0 {
        law_traffic_is_left_alone_until_the_probe_succeeds(o, (n - 1) as nat);
    }
}

/// The proxies at work: the rules in place, and a handle on the table of redirected connections.
pub struct Runtime<N> {
    /// The rules in place.
    pub pf: PfAnchor,
    /// The handle.
    pub nat: N,
}

impl<N> Runtime<N> {
    /// Stops the proxies: they are asked to stop, and the rules are taken away by these runs of
    /// `pfctl`.
    pub fn shut_down(&mut self, stop: &mut StopFlag) -> (r: Vec<Vec<String>>)
        ensures
            final(stop)@,
            final(self).pf@ is None,
            final(self).nat == old(self).nat,
            anchor::commands(r@) == anchor::clear_commands(old(self).pf@),
    {
        request_stop(stop);
        self.pf.clear()
    }
}

/// On macOS the program has its privileges iff `id -u` wrote valid UTF-8 that is a zero with
/// nothing but white space around it; on Windows iff the answer is not zero; elsewhere always.
pub proof fn law_privileges(known: Privileges)
    ensures
        match known {
            Privileges::Windows(answer) => privileged(known) <==> answer != 0,
            Privileges::MacOs(None) => !privileged(known),
            Privileges::MacOs(Some(stdout)) => privileged(known) <==> {
                let uid = vstd::utf8::decode_utf8(stdout@);
                &&& vstd::utf8::valid_utf8(stdout@)
                &&& exists|i: int| #[trigger]
                    text::white_space_outside(uid, i, i + 1) && uid[i] == '0'
            },
            Privileges::Other => privileged(known),
        },
{
    if let Privileges::MacOs(Some(stdout)) = known {
        let uid = vstd::utf8::decode_utf8(stdout@);
        reveal_strlit("0");
        if text::trim(uid) == "0"@ {
            text::law_trim_takes_all_outer_white_space(uid);
            let (i, j) = choose|i: int, j: int| #[trigger]
                text::white_space_outside(uid, i, j) && text::trim(uid) == uid.subrange(i, j);
            assert(uid.subrange(i, j).len() == 1);
            assert(uid.subrange(i, j)[0] == '0');
            assert(text::white_space_outside(uid, i, i + 1));
        }
        if exists|i: int| #[trigger] text::white_space_outside(uid, i, i + 1) && uid[i] == '0' {
            let i = choose|i: int| #[trigger]
                text::white_space_outside(uid, i, i + 1) && uid[i] == '0';
            let core = seq!['0'];
            assert(uid =~= uid.take(i) + core + uid.skip(i + 1));
            text::law_trim_finds_what_stands_between_white_space(
                uid.take(i),
                core,
                uid.skip(i + 1),
            );
            assert(core =~= "0"@);
        }
    }
}

/// Putting the proxies to work takes the DNS proxy over UDP, then over TCP, then the table of
/// redirected connections, then the HTTPS relay if the bypass is on, and the rules last. Every
/// one of these must succeed.
pub proof fn law_steps_of_putting_the_proxies_to_work(dpi_bypass: bool, i: int)
    ensures
        ({
            let steps = start_steps(dpi_bypass);
            let relay: int = if dpi_bypass {
                1
            } else {
                0
            };
            &&& steps.len() == 4 + relay
            &&& steps[0].action == StartStep::UdpProxy
            &&& steps[1].action == StartStep::TcpProxy
            &&& steps[2].action == StartStep::OpenNat
            &&& dpi_bypass ==> steps[3].action == StartStep::HttpsRelay
            &&& steps[3 + relay].action == StartStep::InstallAnchor
            &&& 0 <= i < steps.len() ==> steps[i].must_succeed
        }),
{
}

/// On Windows the DNS proxy listens first, then the HTTPS relay if the bypass is on, and packets
/// are captured after that; on macOS the proxies are put to work first. All of these must
/// succeed. Then an interrupt is handled and a stop awaited, neither of which ends anything by
/// failing; on macOS the rules are taken away after that. There is nothing to do elsewhere.
pub proof fn law_steps_on_each_platform(dpi_bypass: bool, i: int)
    ensures
        platform_steps(Platform::Other, dpi_bypass) is None,
        platform_steps(Platform::MacOs, dpi_bypass) matches Some(steps) && {
            &&& steps.len() == 4
            &&& steps[0].action == PlatformStep::StartRuntime
            &&& steps[1].action == PlatformStep::HandleInterrupt
            &&& steps[2].action == PlatformStep::AwaitStop
            &&& steps[3].action == PlatformStep::DropRuntime
            &&& 0 <= i < steps.len() ==> (steps[i].must_succeed <==> i == 0)
        },
        platform_steps(Platform::Windows, dpi_bypass) matches Some(steps) && {
            let relay: int = if dpi_bypass {
                1
            } else {
                0
            };
            &&& steps.len() == 5 + relay
            &&& steps[0].action == PlatformStep::TcpServer
            &&& dpi_bypass ==> steps[1].action == PlatformStep::HttpsServer
            &&& steps[1 + relay].action == PlatformStep::OpenDiverter
            &&& steps[2 + relay].action == PlatformStep::Capture
            &&& steps[3 + relay].action == PlatformStep::HandleInterrupt
            &&& steps[4 + relay].action == PlatformStep::AwaitStop
            &&& 0 <= i < steps.len() ==> (steps[i].must_succeed <==> i < 3 + relay)
        },
{
}

/// The program waits for the outcome of the part that it is at, whatever that is, and for nothing
/// else; once it has ended it waits for nothing. It goes from part to part as long as each
/// succeeds, and no further.
pub proof fn law_program_goes_on_after_every_success<E>(
    state: RunState<E>,
    event: RunEvent<E>,
    later: RunEvent<E>,
)
    requires
        state.expects(event),
    ensures
        ({
            let after = state.next(event);
            &&& match event {
                RunEvent::Privileged(ok) => if ok {
                    after is StartResolver
                } else {
                    after == RunState::<E>::Ended(Ok(1))
                },
                RunEvent::Resolver(Ok(_)) => after is ProbeUpstream,
                RunEvent::Resolver(Err(e)) => after == RunState::<E>::Ended(Err(e)),
                RunEvent::Probed(ok) => if ok {
                    after is StartPlatform
                } else {
                    after == RunState::<E>::Ended(Ok(1))
                },
                RunEvent::Platform(Ok(_)) => after == RunState::<E>::Ended(Ok(0)),
                RunEvent::Platform(Err(e)) => after == RunState::<E>::Ended(Err(e)),
            }
            &&& after.expects(later) <==> match after {
                RunState::CheckPrivileges => later is Privileged,
                RunState::StartResolver => later is Resolver,
                RunState::ProbeUpstream => later is Probed,
                RunState::StartPlatform => later is Platform,
                RunState::Ended(_) => false,
            }
        }),
        RunState::<E>::CheckPrivileges.expects(later) <==> later is Privileged,
{
}

} // verus!
