use freegsm::command::CommandOutput;
use freegsm::ports::Ports;
use freegsm::rules::{default_interface, interface_in, pf_rules, rules_for, RouteError};

fn ports() -> Ports {
    Ports::new(5300, 5443, 40000, 100).unwrap()
}

fn output(success: bool, stdout: &[u8], stderr: &[u8]) -> Option<CommandOutput> {
    Some(CommandOutput { success, stdout: stdout.to_vec(), stderr: stderr.to_vec() })
}

const ROUTE: &str = "   route to: default\ndestination: default\n    gateway: 192.168.0.1\n  \
                     interface: en0\n      flags: <UP,GATEWAY>\n";

const RULES: &str = "no rdr inet proto tcp from any port 40000:40099 to any port 443\n\
no rdr on lo0 inet proto tcp from any port 40000:40099 to any port 443\n\
no rdr inet proto tcp from any to any port {5300, 5443}\n\
no rdr on lo0 inet proto tcp from any to any port {5300, 5443}\n\
rdr pass inet proto udp from any to any port 53 -> 127.0.0.1 port 5300\n\
rdr pass inet proto tcp from any to any port 53 -> 127.0.0.1 port 5300\n\
rdr pass inet proto tcp from any to any port 443 -> 127.0.0.1 port 5443\n\
rdr pass on lo0 inet proto tcp from any to any port 443 -> 127.0.0.1 port 5443\n\
block drop quick inet proto udp from any to any port 443\n\
pass out on en0 inet route-to (lo0 127.0.0.1) proto tcp from any to any port 443\n";

#[test]
fn rules_name_ports_and_interface() {
    assert_eq!(rules_for(&ports(), "en0"), RULES);
}

#[test]
fn rules_follow_the_default_route() {
    match pf_rules(&ports(), &output(true, ROUTE.as_bytes(), b"")) {
        Ok(rules) => assert_eq!(rules, RULES),
        Err(_) => panic!(),
    }
    assert!(matches!(pf_rules(&ports(), &None), Err(RouteError::NotRun)));
}

#[test]
fn the_first_line_that_names_an_interface_decides() {
    assert_eq!(interface_in(ROUTE).as_deref(), Some("en0"));
    assert_eq!(interface_in("interface: a\ninterface: b").as_deref(), Some("a"));
    assert_eq!(interface_in("x interface: a\r\n\tinterface:utun3\r\n").as_deref(), Some("utun3"));
    assert_eq!(interface_in("interface:").as_deref(), Some(""));
    assert_eq!(interface_in("interface\n"), None);
    assert_eq!(interface_in(""), None);
}

#[test]
fn a_route_that_is_not_known_is_told_in_words() {
    let cases = [
        (None, "detecting default route interface"),
        (
            output(false, b"interface: en0\n", b" route: not in table\n"),
            "route -n get default failed: route: not in table",
        ),
        (output(true, b"gateway: 10.0.0.1\n", b""), "could not find default route interface"),
    ];
    for (route, words) in cases {
        match default_interface(&route) {
            Ok(_) => panic!(),
            Err(e) => assert_eq!(e.message(), words),
        }
    }
}

#[test]
fn output_that_is_not_utf8_is_read_with_replacements() {
    match default_interface(&output(true, b"\xff\ninterface: e\xffn\n", b"")) {
        Ok(name) => assert_eq!(name, "e\u{fffd}n"),
        Err(_) => panic!(),
    }
}

#[test]
fn a_port_plan_must_end_below_the_highest_port() {
    assert!(Ports::new(1, 2, 65000, 535).is_some());
    assert!(Ports::new(1, 2, 65000, 536).is_none());
    assert!(Ports::new(1, 2, 0, 0).is_none());
    assert_eq!(Ports::new(1, 2, 10, 0).unwrap().last_upstream(), 9);
    assert_eq!(ports().last_upstream(), 40099);
}
