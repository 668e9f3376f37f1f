use ruduo::readiness::{BufState, Failure, FailureKind, Interest, Peer, Registration, Token};
use ruduo::tcp_connection::{ConnTypes, ReadStep, SendStep, TcpConnMessage, TcpConnection, WriteStep};

struct Plain;

impl ConnTypes for Plain {
    type Ext = &'static str;
    type Stream = u32;
    type Addr = u16;
    type Setup = u8;
    type Mark = u64;
    type Once = char;
    type Every = char;
}

fn conn() -> TcpConnection<Plain> {
    TcpConnection::make(Token(3), "rest")
}

fn failure(kind: FailureKind) -> Failure {
    Failure { kind, raw_os_error: None }
}

fn both() -> Interest {
    Interest::to_read().add(Interest::to_write())
}

#[test]
fn interests_add_up_and_are_taken_away() {
    assert!(both().is_readable() && both().is_writable());
    assert_eq!(both().remove(Interest::to_read()), Some(Interest::to_write()));
    assert_eq!(Interest::to_read().remove(both()), None);
    assert_eq!(Interest::to_read().remove(Interest::to_write()), Some(Interest::to_read()));
    let urgent = Interest { readable: false, writable: false, aio: false, lio: false, priority: true };
    assert_eq!(urgent.add(Interest::to_read()).remove(both()), Some(urgent));
    assert!(Some(Interest::to_read()).is_reading());
    assert!(!Some(Interest::to_read()).is_writing());
    assert!(!None::<Interest>.is_reading());
    assert!(!None::<Interest>.is_writing());
}

#[test]
fn the_poller_follows_the_interests() {
    let mut c = conn();
    assert_eq!(c.disable_io(both()), None);
    assert_eq!(c.enable_io(Interest::to_read()), Registration::Register(Interest::to_read()));
    assert_eq!(c.enable_io(Interest::to_read()), Registration::Reregister(Interest::to_read()));
    assert_eq!(c.enable_io(Interest::to_write()), Registration::Reregister(both()));
    assert_eq!(c.interests, Some(both()));
    assert_eq!(c.disable_io(Interest::to_write()), Some(Registration::Reregister(Interest::to_read())));
    assert_eq!(c.disable_io(both()), Some(Registration::Deregister));
    assert_eq!(c.interests, None);
}

#[test]
fn a_send_that_is_written_at_once_is_complete() {
    let mut c = conn();
    assert_eq!(c.send(b"hello"), SendStep::Write(0));
    assert_eq!(c.sent(b"hello", 0, Ok(2)), SendStep::Write(2));
    assert_eq!(c.sent(b"hello", 2, Ok(0)), SendStep::Write(2));
    assert_eq!(c.sent(b"hello", 2, Ok(3)), SendStep::Complete);
    assert_eq!(c.output.readable_bytes(), 0);
    assert_eq!(c.interests, None);
    assert_eq!(c.ext, "rest");
}

#[test]
fn sending_nothing_is_complete_at_once() {
    let mut c = conn();
    assert_eq!(c.send(b""), SendStep::Write(0));
    assert_eq!(c.sent(b"", 0, Ok(0)), SendStep::Complete);
}

#[test]
fn the_rest_waits_while_the_socket_is_busy() {
    let mut c = conn();
    assert_eq!(c.send(b"hello"), SendStep::Write(0));
    assert_eq!(c.sent(b"hello", 0, Ok(2)), SendStep::Write(2));
    let step = c.sent(b"hello", 2, Err(failure(FailureKind::WouldBlock)));
    assert_eq!(step, SendStep::Buffered(Some(Registration::Register(Interest::to_write()))));
    assert_eq!(c.output.peek(), b"llo");
    assert!(c.interests.is_writing());
    // What is sent now stands behind it, and the poller knows already.
    assert_eq!(c.send(b" you"), SendStep::Buffered(None));
    assert_eq!(c.output.peek(), b"llo you");
}

#[test]
fn all_of_it_waits_after_another_failure() {
    let mut c = conn();
    c.enable_io(Interest::to_read());
    assert_eq!(c.send(b"hello"), SendStep::Write(0));
    assert_eq!(c.sent(b"hello", 0, Ok(2)), SendStep::Write(2));
    let step = c.sent(b"hello", 2, Err(failure(FailureKind::Other)));
    assert_eq!(step, SendStep::Buffered(Some(Registration::Reregister(both()))));
    assert_eq!(c.output.peek(), b"hello");
}

#[test]
fn what_waits_without_being_watched_is_watched_again() {
    let mut c = conn();
    c.output.append(b"old");
    assert_eq!(c.send(b"new"), SendStep::Buffered(Some(Registration::Register(Interest::to_write()))));
    assert_eq!(c.output.peek(), b"oldnew");
}

#[test]
fn writing_drains_the_output_and_then_stops() {
    let mut c = conn();
    assert_eq!(c.handle_write(), WriteStep::Idle);
    c.enable_io(both());
    c.output.append(b"0123456789");
    assert_eq!(c.handle_write(), WriteStep::Again);
    assert_eq!(c.wrote(Ok(4)), WriteStep::Again);
    assert_eq!(c.output.peek(), b"456789");
    assert_eq!(c.wrote(Err(failure(FailureKind::Other))), WriteStep::Failed);
    assert_eq!(c.wrote(Err(failure(FailureKind::WouldBlock))), WriteStep::Idle);
    assert_eq!(c.output.peek(), b"456789");
    assert_eq!(c.wrote(Ok(6)), WriteStep::Complete(Some(Registration::Reregister(Interest::to_read()))));
    assert_eq!(c.interests, Some(Interest::to_read()));
    assert_eq!(c.handle_write(), WriteStep::Idle);
}

#[test]
fn writing_alone_ends_with_the_poller_forgetting() {
    let mut c = conn();
    c.enable_io(Interest::to_write());
    assert_eq!(c.wrote(Ok(0)), WriteStep::Complete(Some(Registration::Deregister)));
    assert_eq!(c.interests, None);
}

#[test]
fn reading_goes_on_until_the_socket_is_empty_or_closed() {
    let mut c = conn();
    c.enable_io(Interest::to_read());
    assert_eq!(c.handle_read(Ok(5)), ReadStep::Again);
    assert_eq!(c.handle_read(Err(failure(FailureKind::WouldBlock))), ReadStep::Complete);
    assert_eq!(c.handle_read(Err(failure(FailureKind::NotConnected))), ReadStep::Failed);
    assert_eq!(c.interests, Some(Interest::to_read()));
    assert_eq!(c.handle_read(Ok(0)), ReadStep::Closed(Some(Registration::Deregister)));
    assert_eq!(c.interests, None);
    assert_eq!(c.handle_read(Ok(0)), ReadStep::Closed(None));
}

#[test]
fn timers_are_asked_for_under_the_connections_token() {
    let c = conn();
    match c.schedule_after(50, 9, 'f') {
        TcpConnMessage::AddTimer(token, delay, mark, f) => {
            assert_eq!((token, delay, mark, f), (Token(3), 50, 9, 'f'));
        }
        _ => panic!("not a timer"),
    }
    match c.schedule_every(50, 70, 9, 'g') {
        TcpConnMessage::AddTimer2(token, delay, interval, mark, f) => {
            assert_eq!((token, delay, interval, mark, f), (Token(3), 50, 70, 9, 'g'));
        }
        _ => panic!("not a repeating timer"),
    }
    match c.schedule_cancel(9) {
        TcpConnMessage::CancelTimer(token, mark) => assert_eq!((token, mark), (Token(3), 9)),
        _ => panic!("not a cancellation"),
    }
}

#[test]
fn asking_for_the_peer_tells_how_connecting_goes() {
    let ok: Result<u8, Failure> = Ok(1);
    assert_eq!(Peer::judge(&ok), Peer::Connected);
    let not_yet: Result<u8, Failure> = Err(failure(FailureKind::NotConnected));
    assert_eq!(Peer::judge(&not_yet), Peer::Connecting);
    let under_way: Result<u8, Failure> =
        Err(Failure { kind: FailureKind::Other, raw_os_error: Some(libc::EINPROGRESS) });
    assert_eq!(Peer::judge(&under_way), Peer::Connecting);
    let refused: Result<u8, Failure> =
        Err(Failure { kind: FailureKind::Other, raw_os_error: Some(libc::ECONNREFUSED) });
    assert_eq!(Peer::judge(&refused), Peer::Failed);
    let busy: Result<u8, Failure> = Err(failure(FailureKind::WouldBlock));
    assert_eq!(Peer::judge(&busy), Peer::Failed);
    assert_eq!(Peer::judge_with(&refused, libc::ECONNREFUSED), Peer::Connecting);
}

#[test]
fn a_connection_sends_a_stream() {
    let mut c = conn();
    let mut wire: Vec<u8> = vec![];
    // The socket takes 2 bytes of the first, then is busy.
    assert_eq!(c.send(b"first "), SendStep::Write(0));
    assert_eq!(c.sent(b"first ", 0, Ok(2)), SendStep::Write(2));
    wire.extend_from_slice(&b"first "[..2]);
    c.sent(b"first ", 2, Err(failure(FailureKind::WouldBlock)));
    // The second waits behind the rest of the first.
    c.send(b"second ");
    // The socket takes 5 bytes, is busy, takes the rest.
    wire.extend_from_slice(&c.output.peek()[..5]);
    assert_eq!(c.wrote(Ok(5)), WriteStep::Again);
    assert_eq!(c.wrote(Err(failure(FailureKind::WouldBlock))), WriteStep::Idle);
    let rest: Vec<u8> = c.output.peek().to_vec();
    wire.extend_from_slice(&rest);
    assert!(matches!(c.wrote(Ok(rest.len())), WriteStep::Complete(_)));
    // The third is written at once.
    assert_eq!(c.send(b"third"), SendStep::Write(0));
    assert_eq!(c.sent(b"third", 0, Ok(5)), SendStep::Complete);
    wire.extend_from_slice(b"third");
    assert_eq!(wire, b"first second third");
    assert_eq!(c.output.readable_bytes(), 0);
}
