use freegsm::lifecycle::{
    await_stop, exit_code, is_admin, run, start, start_platform, Platform, PlatformStep,
    Privileges, RunEvent, RunState, StartStep,
};
use freegsm::plan::Plan;
use freegsm::stop::{is_stopped, request_stop, StopFlag};

/// The steps that a plan takes, if those in `failing` fail, each with itself.
fn taken<T: Copy + PartialEq>(mut plan: Plan<T, T>, failing: &[T]) -> (Vec<T>, Plan<T, T>) {
    let mut steps = vec![];
    while let Some(step) = plan.current() {
        steps.push(step);
        plan.report(if failing.contains(&step) { Err(step) } else { Ok(()) });
    }
    (steps, plan)
}

/// How the program ends, and how many of its parts it got to.
fn ended(
    privileged: bool,
    resolver: Result<(), &'static str>,
    reached: bool,
    platform: Result<(), &'static str>,
) -> (Result<i32, &'static str>, usize) {
    let mut state = run();
    let mut parts = 0;
    loop {
        let event = match state {
            RunState::CheckPrivileges => RunEvent::Privileged(privileged),
            RunState::StartResolver => RunEvent::Resolver(resolver),
            RunState::ProbeUpstream => RunEvent::Probed(reached),
            RunState::StartPlatform => RunEvent::Platform(platform),
            RunState::Ended(end) => return (end, parts),
        };
        assert!(state.accepts(&event));
        state = state.advance(event);
        parts += 1;
    }
}

#[test]
fn the_program_ends_by_what_failed() {
    let no: Result<(), &'static str> = Err("resolver");
    let bad: Result<(), &'static str> = Err("platform");
    assert_eq!(ended(true, Ok(()), true, Ok(())), (Ok(0), 4));
    assert_eq!(ended(false, no, false, bad), (Ok(1), 1));
    assert_eq!(ended(false, Ok(()), true, Ok(())), (Ok(1), 1));
    assert_eq!(ended(true, no, true, bad), (Err("resolver"), 2));
    assert_eq!(ended(true, Ok(()), false, bad), (Ok(1), 3));
    assert_eq!(ended(true, Ok(()), true, bad), (Err("platform"), 4));
}

#[test]
fn a_program_that_failed_exits_with_one() {
    assert_eq!(exit_code(&Ok::<i32, ()>(0)), 0);
    assert_eq!(exit_code(&Ok::<i32, ()>(1)), 1);
    assert_eq!(exit_code(&Err::<i32, &str>("resolver")), 1);
}

#[test]
fn the_program_takes_its_parts_in_order() {
    let state: RunState<()> = run();
    assert!(!state.accepts(&RunEvent::Resolver(Ok(()))));
    assert!(!state.accepts(&RunEvent::Platform(Ok(()))));
    let state = state.advance(RunEvent::Privileged(true));
    assert!(!state.accepts(&RunEvent::Privileged(true)));
    assert!(!state.accepts(&RunEvent::Probed(true)));
    let state = state.advance(RunEvent::Resolver(Err(())));
    assert!(!state.accepts(&RunEvent::Probed(true)));
}

#[test]
fn starting_takes_back_a_request_to_stop() {
    let mut stop = StopFlag::new();
    assert!(!is_stopped(&stop));
    request_stop(&mut stop);
    assert!(is_stopped(&stop));
    let (steps, plan) = taken(start(&mut stop, false), &[]);
    assert!(!is_stopped(&stop));
    assert_eq!(
        steps,
        vec![
            StartStep::UdpProxy,
            StartStep::TcpProxy,
            StartStep::OpenNat,
            StartStep::InstallAnchor
        ]
    );
    assert_eq!(plan.result(), Ok(()));
}

#[test]
fn rules_come_after_every_other_step() {
    let mut stop = StopFlag::new();
    let (steps, _) = taken(start(&mut stop, true), &[]);
    assert_eq!(
        steps,
        vec![
            StartStep::UdpProxy,
            StartStep::TcpProxy,
            StartStep::OpenNat,
            StartStep::HttpsRelay,
            StartStep::InstallAnchor
        ]
    );
    let (steps, plan) = taken(start(&mut stop, true), &[StartStep::HttpsRelay]);
    assert_eq!(steps.last(), Some(&StartStep::HttpsRelay));
    assert_eq!(plan.result(), Err(StartStep::HttpsRelay));
}

#[test]
fn platforms_have_their_own_steps() {
    let plan = start_platform(Platform::MacOs, true).unwrap_or_else(|_| panic!());
    let (steps, plan) = taken(plan, &[PlatformStep::HandleInterrupt]);
    assert_eq!(
        steps,
        vec![
            PlatformStep::StartRuntime,
            PlatformStep::HandleInterrupt,
            PlatformStep::AwaitStop,
            PlatformStep::DropRuntime
        ]
    );
    assert_eq!(plan.result(), Ok(()));
    let plan = start_platform(Platform::Windows, true).unwrap_or_else(|_| panic!());
    let (steps, _) = taken(plan, &[]);
    assert_eq!(
        steps,
        vec![
            PlatformStep::TcpServer,
            PlatformStep::HttpsServer,
            PlatformStep::OpenDiverter,
            PlatformStep::Capture,
            PlatformStep::HandleInterrupt,
            PlatformStep::AwaitStop
        ]
    );
    let plan = start_platform(Platform::Windows, false).unwrap_or_else(|_| panic!());
    let (steps, _) = taken(plan, &[PlatformStep::OpenDiverter]);
    assert_eq!(steps, vec![PlatformStep::TcpServer, PlatformStep::OpenDiverter]);
    match start_platform::<()>(Platform::Other, true) {
        Err(e) => assert_eq!(e.message(), "FreeGSM currently supports Windows and macOS only"),
        Ok(_) => panic!(),
    }
}

#[test]
fn rules_are_taken_away_in_the_end() {
    let plan = start_platform(Platform::MacOs, false).unwrap_or_else(|_| panic!());
    let (steps, plan) = taken(plan, &[PlatformStep::HandleInterrupt, PlatformStep::AwaitStop]);
    assert_eq!(steps.last(), Some(&PlatformStep::DropRuntime));
    assert_eq!(plan.result(), Ok(()));
    let plan = start_platform(Platform::MacOs, false).unwrap_or_else(|_| panic!());
    let (steps, plan) = taken(plan, &[PlatformStep::StartRuntime]);
    assert_eq!(steps, vec![PlatformStep::StartRuntime]);
    assert_eq!(plan.result(), Err(PlatformStep::StartRuntime));
}

#[test]
fn the_program_waits_until_it_is_to_stop() {
    let mut stop = StopFlag::new();
    assert_eq!(await_stop(&stop), Some(200));
    request_stop(&mut stop);
    assert_eq!(await_stop(&stop), None);
}

#[test]
fn only_the_superuser_is_privileged() {
    let told = |s: &[u8]| Privileges::MacOs(Some(s.to_vec()));
    assert!(is_admin(told(b"0\n")));
    assert!(is_admin(told(b" 0 ")));
    assert!(!is_admin(told(b"501\n")));
    assert!(!is_admin(told(b"00\n")));
    assert!(!is_admin(told(b"")));
    assert!(!is_admin(told(b"0\xff")));
    assert!(!is_admin(Privileges::MacOs(None)));
    assert!(is_admin(Privileges::Windows(1)));
    assert!(is_admin(Privileges::Windows(-1)));
    assert!(!is_admin(Privileges::Windows(0)));
    assert!(is_admin(Privileges::Other));
}
