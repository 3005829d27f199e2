use freegsm::addr::{SocketAddress, SocketV4};
use freegsm::natlook::{
    diocnatlook_ioctl, original_dest, DestError, LookupStep, PfiocNatlook, NATLOOK_LEN,
};

fn client() -> SocketAddress {
    SocketAddress::V4(SocketV4 { ip: [192, 168, 0, 7], port: 0x1234 })
}

fn local() -> SocketAddress {
    SocketAddress::V4(SocketV4 { ip: [127, 0, 0, 1], port: 0x20fb })
}

#[test]
fn the_question_names_both_ends() {
    let lookup = original_dest(client(), local()).unwrap();
    let mut want = vec![0u8; NATLOOK_LEN];
    want[0..4].copy_from_slice(&[192, 168, 0, 7]);
    want[16..20].copy_from_slice(&[127, 0, 0, 1]);
    want[64..68].copy_from_slice(&[0x12, 0x34, 0x20, 0xfb]);
    want[72..75].copy_from_slice(&[2, 6, 1]);
    assert_eq!(lookup.request.to_bytes(), want);
}

#[test]
fn the_request_number_holds_the_length() {
    assert_eq!(diocnatlook_ioctl(), 0xC04C_4417);
}

#[test]
fn only_ipv4_is_looked_up() {
    for (a, b) in [
        (SocketAddress::V6, local()),
        (client(), SocketAddress::V6),
        (SocketAddress::V6, SocketAddress::V6),
    ] {
        match original_dest(a, b) {
            Err(e) => {
                assert_eq!(e, DestError::NotIpv4);
                assert_eq!(
                    e.message(),
                    "only IPv4 transparent HTTPS is currently supported"
                );
            }
            Ok(_) => panic!(),
        }
    }
}

#[test]
fn the_answer_is_the_destination_before_the_redirection() {
    let lookup = original_dest(client(), local()).unwrap();
    let mut raw = lookup.request.to_bytes();
    raw[48..52].copy_from_slice(&[93, 184, 216, 34]);
    raw[70..72].copy_from_slice(&[1, 0xbb]);
    let reply = PfiocNatlook::from_bytes(&raw).unwrap();
    match lookup.answered(0, reply) {
        LookupStep::Found(server) => assert_eq!(server.to_text(), "93.184.216.34:443"),
        _ => panic!(),
    }
}

#[test]
fn a_refusal_has_it_asked_once_more() {
    let lookup = original_dest(client(), local()).unwrap();
    let again = match lookup.answered(-1, lookup.request) {
        LookupStep::Retry(again) => again,
        _ => panic!(),
    };
    let mut want = lookup.request.to_bytes();
    want[74] = 0;
    assert_eq!(again.request.to_bytes(), want);
    match again.answered(-1, again.request) {
        LookupStep::Failed(e) => assert_eq!(e.message(), "DIOCNATLOOK failed"),
        _ => panic!(),
    }
    assert!(matches!(again.answered(0, again.request), LookupStep::Found(_)));
}

#[test]
fn lookups_read_back_from_memory() {
    let raw: Vec<u8> = (0..76).map(|i| (i * 3 + 1) as u8).collect();
    let read = PfiocNatlook::from_bytes(&raw).unwrap();
    assert_eq!(read.to_bytes(), raw);
    assert_eq!(read.sport, 193 * 256 + 196);
    assert!(PfiocNatlook::from_bytes(&raw[1..].to_vec()).is_none());
    assert_eq!(PfiocNatlook::default().to_bytes(), vec![0u8; 76]);
}
