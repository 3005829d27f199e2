use freegsm::bytes::{append_u16, u16_at};
use freegsm::framing::frame;
use freegsm::listen::IoKind;
use freegsm::receive::{recv_exactly, ReadEvent, RecvStep};
use freegsm::stop::{request_stop, StopFlag};
use freegsm::tcp::{serve_tcp_client, TcpAction, TcpEvent, TcpSession};
use freegsm::udp::{udp_loop, worth_a_warning, UdpAction, UdpEvent, UdpLoop};

fn read(bytes: &[u8]) -> TcpEvent<Vec<u8>> {
    TcpEvent::Read(ReadEvent::Data(bytes.to_vec()))
}

fn reads(action: TcpAction<Vec<u8>>, n: usize) {
    match action {
        TcpAction::Read(m) => assert_eq!(m, n),
        _ => panic!(),
    }
}

/// Feeds `stream` to the session, `step` bytes at a time at most, and answers each query with
/// its bytes in reverse: the queries and everything that was written.
fn converse(stream: &[u8], step: usize) -> (Vec<Vec<u8>>, Vec<u8>) {
    let (mut session, mut action): (TcpSession, _) = serve_tcp_client();
    let mut at = 0;
    let mut queries = vec![];
    let mut written = vec![];
    loop {
        let event = match action {
            TcpAction::Read(n) => {
                let n = n.min(step).min(stream.len() - at);
                at += n;
                read(&stream[at - n..at])
            }
            TcpAction::Resolve(query) => {
                let mut answer = query.clone();
                answer.reverse();
                queries.push(query);
                TcpEvent::Resolved(answer)
            }
            TcpAction::Write(bytes) => {
                written.extend_from_slice(&bytes);
                TcpEvent::Written
            }
            TcpAction::Close => return (queries, written),
        };
        assert!(session.accepts(&event));
        action = session.advance(event);
    }
}

#[test]
fn messages_are_framed_by_their_length() {
    assert_eq!(frame(&vec![]), vec![0, 0]);
    assert_eq!(frame(&vec![9, 8, 7]), vec![0, 3, 9, 8, 7]);
    let long = vec![1u8; 0x1234];
    assert_eq!(frame(&long)[..3], [0x12, 0x34, 1]);
    let longest = vec![1u8; 65535];
    assert_eq!(frame(&longest)[..2], [255, 255]);
    let too_long = vec![1u8; 65536 + 5];
    let framed = frame(&too_long);
    assert_eq!(framed[..2], [0, 5]);
    assert_eq!(framed.len(), 65536 + 7);
}

#[test]
fn numbers_read_back_from_two_bytes() {
    let mut out = vec![5u8];
    append_u16(&mut out, 0xabcd);
    assert_eq!(out, vec![5, 0xab, 0xcd]);
    assert_eq!(u16_at(&out, 1), 0xabcd);
}

#[test]
fn queries_do_not_depend_on_how_the_stream_is_cut() {
    let mut stream = frame(&vec![1, 2, 3]);
    stream.extend_from_slice(&frame(&vec![]));
    stream.extend_from_slice(&frame(&vec![4; 300]));
    stream.extend_from_slice(&[0, 9, 1]);
    let mut answers = frame(&vec![3, 2, 1]);
    answers.extend_from_slice(&frame(&vec![]));
    answers.extend_from_slice(&frame(&vec![4; 300]));
    for step in [1, 2, 3, 7, 1000] {
        let (queries, written) = converse(&stream, step);
        assert_eq!(queries, vec![vec![1, 2, 3], vec![], vec![4; 300]]);
        assert_eq!(written, answers);
    }
}

#[test]
fn a_session_reads_no_further_than_the_query() {
    let (mut session, action) = serve_tcp_client();
    reads(action, 2);
    reads(session.advance(read(&[1])), 1);
    assert!(!session.accepts(&read(&[1, 2])));
    reads(session.advance(read(&[2])), 258);
    reads(session.advance(read(&[0; 8])), 250);
    assert!(!session.accepts(&read(&[0; 251])));
    assert!(!session.accepts(&TcpEvent::Written));
}

#[test]
fn every_failure_closes_the_session() {
    let close = |session: &mut TcpSession, event: TcpEvent<Vec<u8>>| {
        assert!(matches!(session.advance(event), TcpAction::Close));
        assert!(!session.accepts(&read(&[])));
    };
    let (mut session, _) = serve_tcp_client();
    close(&mut session, read(&[]));
    let (mut session, _) = serve_tcp_client();
    close(&mut session, TcpEvent::Read(ReadEvent::Failed(())));
    let (mut session, _) = serve_tcp_client();
    session.advance(read(&[0, 2]));
    session.advance(read(&[7]));
    close(&mut session, read(&[]));
    let (mut session, _) = serve_tcp_client();
    session.advance(read(&[0, 0]));
    close(&mut session, TcpEvent::ResolveFailed);
    let (mut session, _) = serve_tcp_client();
    session.advance(read(&[0, 0]));
    session.advance(TcpEvent::Resolved(vec![1]));
    close(&mut session, TcpEvent::WriteFailed);
}

#[test]
fn receiving_ends_early_with_the_stream() {
    let (receiver, step) = recv_exactly::<()>(0);
    assert_eq!(step, RecvStep::Done);
    assert_eq!(receiver.into_bytes(), vec![]);
    let (mut receiver, step) = recv_exactly::<()>(5);
    assert_eq!(step, RecvStep::Read(5));
    assert_eq!(receiver.received::<()>(ReadEvent::Data(vec![1, 2])), RecvStep::Read(3));
    assert_eq!(receiver.received::<()>(ReadEvent::Data(vec![3])), RecvStep::Read(2));
    assert_eq!(receiver.received::<()>(ReadEvent::Data(vec![])), RecvStep::Done);
    assert_eq!(receiver.still_missing(), 2);
    assert_eq!(receiver.into_bytes(), vec![1, 2, 3]);
}

#[test]
fn receiving_fails_with_what_the_read_failed_with() {
    let (mut receiver, step) = recv_exactly::<&str>(3);
    assert_eq!(step, RecvStep::Read(3));
    assert_eq!(receiver.received::<&str>(ReadEvent::Data(vec![1])), RecvStep::Read(2));
    assert_eq!(receiver.received(ReadEvent::Failed("reset")), RecvStep::Failed("reset"));
    let (mut receiver, _) = recv_exactly::<u8>(1);
    assert_eq!(receiver.received(ReadEvent::Failed(9)), RecvStep::Failed(9));
}

#[test]
fn datagrams_are_answered_to_those_who_asked() {
    let stop = StopFlag::new();
    let (state, action) = udp_loop::<&str>(&stop);
    assert!(matches!(action, UdpAction::Receive));
    let (state, action) = state.advance(&stop, UdpEvent::Received(vec![1], "alice"));
    assert!(matches!(action, UdpAction::Resolve(_)));
    assert!(!state.accepts(&UdpEvent::Sent));
    let (state, action) = state.advance(&stop, UdpEvent::Resolved(vec![2]));
    match action {
        UdpAction::Send(answer, peer) => {
            assert_eq!(answer, vec![2]);
            assert_eq!(peer, "alice");
        }
        _ => panic!(),
    }
    let (state, _) = state.advance(&stop, UdpEvent::Sent);
    let (state, _) = state.advance(&stop, UdpEvent::Received(vec![3], "bob"));
    let (state, action) = state.advance(&stop, UdpEvent::ResolveFailed);
    assert!(matches!(action, UdpAction::Receive));
    let (_, action) = state.advance(&stop, UdpEvent::RecvFailed(IoKind::Other));
    assert!(matches!(action, UdpAction::Receive));
}

#[test]
fn every_datagram_is_resolved_as_it_came() {
    let stop = StopFlag::new();
    let (mut state, _) = udp_loop::<u8>(&stop);
    for query in [vec![], vec![1, 2], vec![3; 4096]] {
        let (next, action) = state.advance(&stop, UdpEvent::Received(query.clone(), 1));
        match action {
            UdpAction::Resolve(bytes) => assert_eq!(bytes, query),
            _ => panic!(),
        }
        state = next.advance(&stop, UdpEvent::ResolveFailed).0;
    }
}

#[test]
fn a_stopped_loop_receives_nothing() {
    let mut stop = StopFlag::new();
    request_stop(&mut stop);
    let (state, action) = udp_loop::<u8>(&stop);
    assert!(matches!(action, UdpAction::Stop));
    assert!(!state.accepts(&UdpEvent::Sent));
    let state: UdpLoop<u8> = UdpLoop::Receiving;
    let (state, action) = state.advance(&stop, UdpEvent::Received(vec![], 1));
    assert!(matches!(action, UdpAction::Resolve(_)));
    let (_, action) = state.advance(&stop, UdpEvent::ResolveFailed);
    assert!(matches!(action, UdpAction::Stop));
}

#[test]
fn that_nothing_came_is_no_reason_to_warn() {
    assert!(!worth_a_warning(IoKind::WouldBlock));
    assert!(!worth_a_warning(IoKind::TimedOut));
    assert!(worth_a_warning(IoKind::Other));
}
