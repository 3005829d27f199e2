use freegsm::anchor::{
    run_pfctl, token_in, Install, InstallAction, InstallEvent, PfAnchor, PfctlError,
};
use freegsm::command::CommandOutput;
use freegsm::lifecycle::Runtime;
use freegsm::ports::Ports;
use freegsm::stop::{is_stopped, StopFlag};

fn output(success: bool, stdout: &[u8], stderr: &[u8]) -> Option<CommandOutput> {
    Some(CommandOutput { success, stdout: stdout.to_vec(), stderr: stderr.to_vec() })
}

fn begin() -> Install {
    let ports = Ports::new(5300, 5443, 40000, 100).unwrap();
    let (install, action) = PfAnchor::install(ports, "/tmp/freegsm-pf.conf".to_string());
    assert!(matches!(action, InstallAction::FindRoute));
    install
}

fn installed(enable: Option<CommandOutput>) -> PfAnchor {
    let mut install = begin();
    match install.advance(InstallEvent::Route(output(true, b"interface: en0\n", b""))) {
        InstallAction::WriteRules(rules) => assert!(rules.contains("pass out on en0 inet")),
        _ => panic!(),
    }
    match install.advance(InstallEvent::Written(true)) {
        InstallAction::Pfctl(args) => {
            assert_eq!(args, vec!["-a", "com.apple/freegsm", "-f", "/tmp/freegsm-pf.conf"])
        }
        _ => panic!(),
    }
    match install.advance(InstallEvent::Pfctl(output(true, b"", b""))) {
        InstallAction::Pfctl(args) => assert_eq!(args, vec!["-E"]),
        _ => panic!(),
    }
    match install.advance(InstallEvent::Pfctl(enable)) {
        InstallAction::Installed(anchor) => anchor,
        _ => panic!(),
    }
}

fn failure(install: &mut Install, event: InstallEvent) -> String {
    assert!(install.accepts(&event));
    match install.advance(event) {
        InstallAction::Failed(e) => e.message(),
        _ => panic!(),
    }
}

#[test]
fn the_token_is_the_last_plain_word() {
    assert_eq!(
        token_in("No ALTQ support in kernel\npf enabled\nToken : 17283946\n").as_deref(),
        Some("17283946")
    );
    assert_eq!(token_in("Token : abc123\n(done)\n").as_deref(), Some("abc123"));
    assert_eq!(token_in("a1 b2 c-3").as_deref(), Some("b2"));
    assert_eq!(token_in("x").as_deref(), Some("x"));
    assert_eq!(token_in("\u{e9} -- :"), None);
    assert_eq!(token_in(" \n "), None);
    assert_eq!(token_in(""), None);
}

#[test]
fn clearing_undoes_installing() {
    let mut anchor = installed(output(true, b"Token : 42\n", b"(pf-enabled)"));
    let flush = vec!["-a", "com.apple/freegsm", "-F", "all"];
    assert_eq!(anchor.clear(), vec![flush.clone(), vec!["-X", "42"]]);
    assert_eq!(anchor.clear(), vec![flush]);
}

#[test]
fn what_pfctl_says_of_errors_is_searched_last() {
    let mut anchor = installed(output(true, b"Token : 1", b"Token : 2"));
    assert_eq!(anchor.clear()[1], vec!["-X", "2"]);
    let mut anchor = installed(output(true, b"", b""));
    assert_eq!(anchor.clear().len(), 1);
}

#[test]
fn shutting_down_asks_to_stop_and_clears() {
    let mut stop = StopFlag::new();
    let pf = installed(output(true, b"7", b""));
    let mut runtime = Runtime { pf, nat: 3 };
    assert_eq!(runtime.shut_down(&mut stop).len(), 2);
    assert!(is_stopped(&stop));
    assert_eq!(runtime.nat, 3);
}

#[test]
fn every_step_of_installing_can_fail() {
    let mut install = begin();
    assert!(!install.accepts(&InstallEvent::Written(true)));
    let told = failure(&mut install, InstallEvent::Route(output(true, b"", b"")));
    assert_eq!(told, "could not find default route interface");
    assert!(!install.accepts(&InstallEvent::Route(None)));

    let mut install = begin();
    install.advance(InstallEvent::Route(output(true, b"interface: en0", b"")));
    assert_eq!(failure(&mut install, InstallEvent::Written(false)), "writing temporary pf rules");

    let mut install = begin();
    install.advance(InstallEvent::Route(output(true, b"interface: en0", b"")));
    install.advance(InstallEvent::Written(true));
    assert_eq!(
        failure(&mut install, InstallEvent::Pfctl(output(false, b"", b" syntax error\n"))),
        "loading pf anchor: pfctl -a com.apple/freegsm -f /tmp/freegsm-pf.conf failed: \
         syntax error"
    );

    for (enable, words) in [
        (None, "running pfctl -E"),
        (output(false, b"x", b"denied\n"), "enabling pf failed: denied"),
    ] {
        let mut install = begin();
        install.advance(InstallEvent::Route(output(true, b"interface: en0", b"")));
        install.advance(InstallEvent::Written(true));
        install.advance(InstallEvent::Pfctl(output(true, b"", b"")));
        assert_eq!(failure(&mut install, InstallEvent::Pfctl(enable)), words);
    }
}

#[test]
fn a_run_of_pfctl_is_judged_by_its_status() {
    let args = vec!["-X".to_string(), "42".to_string()];
    assert!(run_pfctl(&args, &output(true, b"", b"warning")).is_ok());
    match run_pfctl(&args, &None) {
        Err(e) => assert_eq!(e.message(), "running pfctl -X 42"),
        Ok(_) => panic!(),
    }
    match run_pfctl(&args, &output(false, b"", b"\xff bad\n")) {
        Err(PfctlError::Failed(line, said)) => {
            assert_eq!(line, "-X 42");
            assert_eq!(said, "\u{fffd} bad");
        }
        _ => panic!(),
    }
}
