use freegsm::addr::SocketV4;
use freegsm::connect::{
    connect_reserved, reserved_port, ConnectError, ConnectEvent, ConnectStep, PortCounter,
};
use freegsm::ports::Ports;
use freegsm::rules::rules_for;

const SERVER: SocketV4 = SocketV4 { ip: [1, 2, 3, 4], port: 443 };

fn ports(count: u16) -> Ports {
    Ports::new(5300, 5443, 40000, count).unwrap()
}

#[test]
fn ports_are_taken_in_turn() {
    let plan = ports(3);
    let picked: Vec<u16> = (0..5).map(|n| reserved_port(&plan, n)).collect();
    assert_eq!(picked, vec![40000, 40001, 40002, 40000, 40001]);
    assert_eq!(reserved_port(&plan, u32::MAX), 40000);
}

#[test]
fn connections_upstream_are_spared_by_the_first_rules() {
    let plan = ports(7);
    let rules = rules_for(&plan, "en0");
    let opening = "no rdr inet proto tcp from any port 40000:40006 to any port 443\n\
                   no rdr on lo0 inet proto tcp from any port 40000:40006 to any port 443\n";
    assert!(rules.starts_with(opening));
    for n in [0, 1, 6, 7, 1_000_003, u32::MAX] {
        assert!((40000..=40006).contains(&reserved_port(&plan, n)));
    }
}

#[test]
fn every_reserved_port_is_tried_once_before_giving_up() {
    let plan = ports(4);
    let mut counter = PortCounter::new();
    counter.take();
    let (mut connector, mut step) = connect_reserved(&plan, SERVER, &mut counter);
    let mut tried: Vec<u16> = vec![];
    loop {
        match step {
            ConnectStep::Attempt(port) => {
                tried.push(port);
                let said = format!("in use: {port}");
                step = connector.advance(&mut counter, ConnectEvent::BindFailed(said));
            }
            ConnectStep::Failed(e) => {
                assert_eq!(
                    e.message(),
                    "no free upstream port in reserved range (Some(in use: 40000))"
                );
                assert!(connector.ended);
                break;
            }
            ConnectStep::Connected => panic!(),
        }
    }
    assert_eq!(tried, vec![40001, 40002, 40003, 40000]);
    assert_eq!(counter.take(), 5);
}

#[test]
fn only_a_port_in_use_has_another_tried() {
    for (event, words) in [
        (ConnectEvent::SocketFailed, "creating upstream socket"),
        (ConnectEvent::ConnectFailed, "connecting upstream 1.2.3.4:443"),
    ] {
        let mut counter = PortCounter::new();
        let (mut connector, step) = connect_reserved(&ports(2), SERVER, &mut counter);
        assert!(matches!(step, ConnectStep::Attempt(40000)));
        assert!(!connector.ended);
        match connector.advance(&mut counter, event) {
            ConnectStep::Failed(e) => assert_eq!(e.message(), words),
            _ => panic!(),
        }
        assert!(connector.ended);
        assert_eq!(counter.take(), 1);
    }
    let mut counter = PortCounter::new();
    let (mut connector, _) = connect_reserved(&ports(2), SERVER, &mut counter);
    let step = connector.advance(&mut counter, ConnectEvent::Connected);
    assert!(matches!(step, ConnectStep::Connected));
    assert!(connector.ended);
}

#[test]
fn without_reserved_ports_there_is_no_connection() {
    let mut counter = PortCounter::new();
    let (_, step) = connect_reserved(&ports(0), SERVER, &mut counter);
    match step {
        ConnectStep::Failed(ConnectError::NoFreePort(None)) => {}
        _ => panic!(),
    }
    assert_eq!(
        ConnectError::<String>::NoFreePort(None).message(),
        "no free upstream port in reserved range (None)"
    );
    assert_eq!(counter.take(), 0);
}
