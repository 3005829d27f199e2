use freegsm::addr::{SocketAddress, SocketV4};
use freegsm::https::{
    serve_https_client, HttpsAction, HttpsEvent, HttpsSession, TLS_HANDSHAKE,
};
use freegsm::listen::{https_loop, tcp_loop, AcceptAction, AcceptEvent, Ends, IoKind};
use freegsm::pump::{pump, Pump, PumpAction, PumpEvent};
use freegsm::receive::ReadEvent;
use freegsm::stop::{request_stop, StopFlag};

type Session = HttpsSession;
type Event = HttpsEvent<Vec<u8>, Vec<Vec<u8>>>;

const SERVER: SocketV4 = SocketV4 { ip: [93, 184, 216, 34], port: 443 };

fn connected() -> Session {
    let (state, action) = serve_https_client(5, 40);
    assert!(matches!(action, HttpsAction::FindDest));
    let (state, action) = state.advance(HttpsEvent::Dest(Some(SERVER)));
    match action {
        HttpsAction::Connect(server) => assert_eq!(server, SERVER),
        _ => panic!(),
    }
    let (state, action) = state.advance(HttpsEvent::Connected(true));
    assert!(matches!(action, HttpsAction::ReadFirst));
    state
}

fn first(bytes: &[u8]) -> Event {
    HttpsEvent::First(ReadEvent::Data(bytes.to_vec()))
}

fn written(action: HttpsAction<Vec<u8>>) -> Vec<u8> {
    match action {
        HttpsAction::Write(bytes) => bytes,
        _ => panic!(),
    }
}

#[test]
fn a_greeting_is_written_record_by_record() {
    let hello = [TLS_HANDSHAKE, 3, 1, 0, 2, 1, 2];
    assert_eq!(hello[0], 0x16);
    let (state, action) = connected().advance(first(&hello));
    match action {
        HttpsAction::Split(bytes, min, max) => {
            assert_eq!(bytes, hello);
            assert_eq!((min, max), (5, 40));
        }
        _ => panic!(),
    }
    let (state, action) = state.advance(HttpsEvent::Segments(vec![vec![1], vec![2, 3]]));
    assert_eq!(written(action), vec![1]);
    let (state, action) = state.advance(HttpsEvent::Written(true));
    assert_eq!(written(action), vec![2, 3]);
    let (state, action) = state.advance(HttpsEvent::Written(true));
    assert!(matches!(action, HttpsAction::CloneHandles));
    let (state, action) = state.advance(HttpsEvent::Cloned(true));
    assert!(matches!(action, HttpsAction::Pump));
    assert!(!state.accepts(&HttpsEvent::Written(true)));
}

#[test]
fn anything_else_is_written_as_it_is() {
    let (state, action) = connected().advance(first(b"GET /"));
    assert_eq!(written(action), b"GET /");
    let (_, action) = state.advance(HttpsEvent::Written(true));
    assert!(matches!(action, HttpsAction::CloneHandles));
}

#[test]
fn a_greeting_without_records_is_passed_over() {
    let (state, _) = connected().advance(first(&[22]));
    let (_, action) = state.advance(HttpsEvent::Segments(vec![]));
    assert!(matches!(action, HttpsAction::CloneHandles));
}

#[test]
fn every_failure_closes_the_connections() {
    let closes = |state: Session, event: Event| {
        assert!(state.accepts(&event));
        let (state, action) = state.advance(event);
        assert!(matches!(action, HttpsAction::Close));
        assert!(!state.accepts(&HttpsEvent::Connected(true)));
    };
    closes(serve_https_client(5, 40).0, HttpsEvent::Dest(None));
    let (state, _) = serve_https_client(5, 40).0.advance(HttpsEvent::Dest(Some(SERVER)));
    closes(state, HttpsEvent::Connected(false));
    closes(connected(), first(&[]));
    closes(connected(), HttpsEvent::First(ReadEvent::Failed(())));
    let (state, _) = connected().advance(first(&[22]));
    let (state, _) = state.advance(HttpsEvent::Segments(vec![vec![1], vec![2]]));
    closes(state, HttpsEvent::Written(false));
    let (state, _) = connected().advance(first(&[1]));
    let (state, _) = state.advance(HttpsEvent::Written(true));
    closes(state, HttpsEvent::Cloned(false));
}

#[test]
fn copying_hands_on_what_arrives() {
    let (state, action) = pump();
    assert!(matches!(action, PumpAction::Read));
    let (state, action) = state.advance(PumpEvent::Read(ReadEvent::Data(vec![1, 2])));
    match action {
        PumpAction::Write(bytes) => assert_eq!(bytes, vec![1, 2]),
        _ => panic!(),
    }
    let (state, action) = state.advance(PumpEvent::Written(true));
    assert!(matches!(action, PumpAction::Read));
    let (state, action) = state.advance(PumpEvent::Read(ReadEvent::Data(vec![])));
    assert!(matches!(action, PumpAction::ShutDown));
    assert_eq!(state, Pump::Ended);
    assert!(!state.accepts(&PumpEvent::Written(true)));
}

#[test]
fn copying_ends_with_any_failure() {
    let (_, action) = Pump::Reading.advance(PumpEvent::Read(ReadEvent::Failed(())));
    assert!(matches!(action, PumpAction::ShutDown));
    let (_, action) = Pump::Writing.advance(PumpEvent::Written(false));
    assert!(matches!(action, PumpAction::ShutDown));
}

#[test]
fn accepting_loops_serve_wait_and_stop() {
    let mut stop = StopFlag::new();
    assert_eq!(tcp_loop(&stop, AcceptEvent::<u8>::Ready), AcceptAction::Accept);
    assert_eq!(tcp_loop(&stop, AcceptEvent::Accepted(7)), AcceptAction::Serve(7));
    let idle = AcceptEvent::<u8>::Failed(IoKind::WouldBlock);
    assert_eq!(tcp_loop(&stop, idle), AcceptAction::Sleep(100));
    let late = AcceptEvent::<u8>::Failed(IoKind::TimedOut);
    assert_eq!(tcp_loop(&stop, late), AcceptAction::Accept);
    let bad = AcceptEvent::<u8>::Failed(IoKind::Other);
    assert_eq!(tcp_loop(&stop, bad), AcceptAction::Accept);
    request_stop(&mut stop);
    assert_eq!(tcp_loop(&stop, AcceptEvent::<u8>::Ready), AcceptAction::Stop);
    assert_eq!(tcp_loop(&stop, AcceptEvent::Accepted(7)), AcceptAction::Serve(7));
}

#[test]
fn the_relay_lets_go_of_connections_from_nowhere() {
    let mut stop = StopFlag::new();
    let peer = SocketAddress::V4(SERVER);
    let local = SocketAddress::V6;
    assert_eq!(
        https_loop(&stop, AcceptEvent::Accepted((peer, Some(local)))),
        AcceptAction::Serve(Ends { peer, local })
    );
    assert_eq!(https_loop(&stop, AcceptEvent::Accepted((peer, None))), AcceptAction::Accept);
    let idle = AcceptEvent::Failed(IoKind::WouldBlock);
    assert_eq!(https_loop(&stop, idle), AcceptAction::Sleep(100));
    request_stop(&mut stop);
    assert_eq!(https_loop(&stop, AcceptEvent::Ready), AcceptAction::Stop);
    assert_eq!(https_loop(&stop, AcceptEvent::Failed(IoKind::Other)), AcceptAction::Stop);
}
