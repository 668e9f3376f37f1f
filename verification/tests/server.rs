use ruduo::connector::ConnectorService;
use ruduo::event_loop::EventLoop;
use ruduo::readiness::{Failure, FailureKind, Interest, Peer, Registration, Token};
use ruduo::service::{established, handle_accept, ServiceStep};
use ruduo::tcp_connection::{ConnTypes, SendStep, Shutdown, TcpConnMessage, TcpConnection};
use ruduo::tcp_server::{Action, Dispatcher, Fired, Shared, TcpServer, TcpServerConfig};
use ruduo::timer::{ClockError, Timeout};

struct Plain;

impl ConnTypes for Plain {
    type Ext = u32;
    type Stream = u32;
    type Addr = u16;
    type Setup = u8;
    type Mark = u64;
    type Once = char;
    type Every = char;
}

type Messages = TcpConnMessage<Plain>;
type Loop = EventLoop<Messages, u64>;

fn event_loop() -> Loop {
    let (mut el, notifier) = Loop::new().unwrap();
    drop(notifier);
    el.timer.setup_with(Ok(0)).unwrap();
    el
}

fn dispatcher() -> Dispatcher<Plain> {
    Dispatcher::new(4, 100)
}

fn with_one() -> Dispatcher<Plain> {
    let mut d = dispatcher();
    d.add_connection(TcpConnection::make(Token(100), 1));
    d
}

fn notify(d: &mut Dispatcher<Plain>, el: &mut Loop, msg: Messages) -> Action<Plain> {
    d.handle_notify_with(msg, el, 4, Ok(1000))
}

#[test]
fn established_connections_get_the_next_token() {
    let mut d = dispatcher();
    let mut el = event_loop();
    match notify(&mut d, &mut el, TcpConnMessage::Established(7, 80, 3)) {
        Action::Establish(n) => {
            assert_eq!(n.token, Token(100));
            assert!(!n.full);
            assert_eq!((n.stream, n.addr, n.setup), (7, 80, 3));
            d.add_connection(TcpConnection::make(n.token, n.stream));
        }
        _ => panic!("not established"),
    }
    match notify(&mut d, &mut el, TcpConnMessage::Established(8, 80, 3)) {
        Action::Establish(n) => assert_eq!(n.token, Token(101)),
        _ => panic!("not established"),
    }
    assert_eq!(d.with_connection(Token(100)).unwrap().ext, 7);
    assert!(d.with_connection(Token(101)).is_none());
}

#[test]
fn a_full_dispatcher_says_so_and_still_takes_the_connection() {
    let mut d = with_one();
    let mut el = event_loop();
    match d.handle_notify_with(TcpConnMessage::Established(7, 80, 3), &mut el, 1, Ok(0)) {
        Action::Establish(n) => {
            assert!(n.full);
            assert_eq!(n.token, Token(101));
        }
        _ => panic!("not established"),
    }
    assert!(d.capacity() >= 4);
}

#[test]
fn a_connecting_socket_is_asked_for_its_peer_first() {
    let mut d = dispatcher();
    let mut el = event_loop();
    match notify(&mut d, &mut el, TcpConnMessage::Connecting(7, 80, 3)) {
        Action::CheckPeer(7, 80, 3) => {}
        _ => panic!("not asked"),
    }
    match d.connecting(Peer::Connected, 7, 80, 3) {
        Action::Establish(n) => assert_eq!(n.token, Token(100)),
        _ => panic!("not established"),
    }
    match d.connecting_with(Peer::Failed, 7, 80, 3, 4) {
        Action::ConnectFailed(80) => {}
        _ => panic!("not failed"),
    }
    match d.connecting_with(Peer::Connecting, 7, 80, 3, 4) {
        Action::Connect(n) => d.add_connecting(TcpConnection::make(n.token, n.stream), n.setup),
        _ => panic!("not connecting"),
    }
    // Until it has a peer it is asked, not read.
    let plan = d.handle_io_event(Token(100), true, true);
    assert!(plan.check_peer && !plan.read && plan.write);
    assert_eq!(d.peer_checked(Token(100), Peer::Connecting), None);
    assert_eq!(d.peer_checked(Token(100), Peer::Failed), None);
    assert_eq!(d.peer_checked(Token(100), Peer::Connected), Some(3));
    let plan = d.handle_io_event(Token(100), true, false);
    assert!(!plan.check_peer && plan.read && !plan.write);
}

#[test]
fn events_of_unknown_connections_are_ignored() {
    let d = with_one();
    let plan = d.handle_io_event(Token(101), true, true);
    assert!(!plan.check_peer && !plan.read && !plan.write);
    let plan = d.handle_io_event(Token(100), false, true);
    assert!(!plan.check_peer && !plan.read && plan.write);
}

#[test]
fn a_removed_connection_is_gone_and_its_token_is_next() {
    let mut d = with_one();
    let mut el = event_loop();
    d.add_connection(TcpConnection::make(Token(101), 2));
    match notify(&mut d, &mut el, TcpConnMessage::Removed(Token(100))) {
        Action::Removed(c) => assert_eq!((c.token, c.ext), (Token(100), 1)),
        _ => panic!("not removed"),
    }
    assert!(d.with_connection(Token(100)).is_none());
    match notify(&mut d, &mut el, TcpConnMessage::Established(9, 80, 3)) {
        Action::Establish(n) => assert_eq!(n.token, Token(100)),
        _ => panic!("not established"),
    }
}

#[test]
fn bytes_to_write_are_sent_or_wait() {
    let mut d = with_one();
    let mut el = event_loop();
    match notify(&mut d, &mut el, TcpConnMessage::Write(Token(100), vec![1, 2])) {
        Action::Send(Token(100), data, SendStep::Write(0)) => assert_eq!(data, vec![1, 2]),
        _ => panic!("not sent"),
    }
    let c = d.with_connection(Token(100)).unwrap();
    c.sent(&[1, 2], 0, Err(Failure { kind: FailureKind::WouldBlock, raw_os_error: None }));
    match notify(&mut d, &mut el, TcpConnMessage::Write(Token(100), vec![3])) {
        Action::Send(Token(100), _, SendStep::Buffered(None)) => {}
        _ => panic!("not buffered"),
    }
    assert_eq!(d.with_connection(Token(100)).unwrap().output.peek(), &[1u8, 2, 3]);
    assert!(matches!(notify(&mut d, &mut el, TcpConnMessage::Write(Token(105), vec![3])), Action::Nothing));
}

#[test]
fn messages_reach_the_connection_that_they_name() {
    let mut d = with_one();
    let mut el = event_loop();
    let t = Token(100);
    let gone = Token(103);
    assert!(matches!(notify(&mut d, &mut el, TcpConnMessage::WriteComplete(t)), Action::WriteComplete(Token(100))));
    assert!(matches!(notify(&mut d, &mut el, TcpConnMessage::WriteComplete(gone)), Action::Nothing));
    match notify(&mut d, &mut el, TcpConnMessage::Enable(t, Interest::to_read())) {
        Action::Register(Token(100), r) => assert_eq!(r, Registration::Register(Interest::to_read())),
        _ => panic!("not registered"),
    }
    assert!(matches!(notify(&mut d, &mut el, TcpConnMessage::Enable(gone, Interest::to_read())), Action::Nothing));
    match notify(&mut d, &mut el, TcpConnMessage::Disable(t, Interest::to_read())) {
        Action::Register(Token(100), r) => assert_eq!(r, Registration::Deregister),
        _ => panic!("not deregistered"),
    }
    assert!(matches!(notify(&mut d, &mut el, TcpConnMessage::Disable(t, Interest::to_read())), Action::Nothing));
    match notify(&mut d, &mut el, TcpConnMessage::Shutdown(t, Shutdown::Both)) {
        Action::Shutdown(Token(100), how) => assert_eq!(how, Shutdown::Both),
        _ => panic!("not shut down"),
    }
    notify(&mut d, &mut el, TcpConnMessage::Enable(t, Interest::to_write()));
    assert!(matches!(notify(&mut d, &mut el, TcpConnMessage::Shutdown(t, Shutdown::Both)), Action::Nothing));
    assert!(matches!(notify(&mut d, &mut el, TcpConnMessage::SetContext(t, 5)), Action::Call(Token(100), 5)));
    assert!(matches!(notify(&mut d, &mut el, TcpConnMessage::SetContext(gone, 5)), Action::Nothing));
}

#[test]
fn a_timer_that_runs_once_is_added_fired_and_forgotten() {
    let mut d = with_one();
    let mut el = event_loop();
    let add = TcpConnMessage::AddTimer(Token(100), 500, 42, 'f');
    assert!(matches!(notify(&mut d, &mut el, add), Action::Nothing));
    assert_eq!(el.timer.count(), 1);
    let x = el.next_timer_with(15, Ok(1500)).unwrap().unwrap();
    assert_eq!((x.mark, x.repeat), (42, false));
    match d.handle_timeout(&x.mark, x.repeat) {
        Fired::Once(token, f) => assert_eq!((token, f), (Token(100), 'f')),
        _ => panic!("not fired"),
    }
    assert!(matches!(d.handle_timeout(&42, false), Fired::Unknown));
}

#[test]
fn a_repeating_timer_is_kept() {
    let mut d = with_one();
    let mut el = event_loop();
    let add = TcpConnMessage::AddTimer2(Token(100), 500, 300, 42, 'g');
    assert!(matches!(notify(&mut d, &mut el, add), Action::Nothing));
    let x = el.next_timer_with(15, Ok(1500)).unwrap().unwrap();
    assert!(x.repeat);
    d.refresh_timeout(42, x.timeout.unwrap());
    match d.handle_timeout(&42, true) {
        Fired::Every(timeout, token, f) => {
            assert_eq!((timeout.tick, token, f), (18, Token(100), 'g'));
            d.keep_timer(42, timeout, token, f);
        }
        _ => panic!("not fired"),
    }
    assert!(matches!(d.handle_timeout(&42, true), Fired::Every(_, _, 'g')));
    assert!(matches!(d.handle_timeout(&42, true), Fired::Unknown));
}

#[test]
fn a_refreshed_timer_is_cancelled_by_its_new_timeout() {
    let mut d = with_one();
    let mut el = event_loop();
    notify(&mut d, &mut el, TcpConnMessage::AddTimer(Token(100), 9000, 7, 'f'));
    notify(&mut d, &mut el, TcpConnMessage::AddTimer2(Token(100), 500, 300, 42, 'g'));
    assert_eq!(el.timer.count(), 2);
    let x = el.next_timer_with(15, Ok(1500)).unwrap().unwrap();
    assert_eq!((x.mark, x.repeat), (42, true));
    assert_eq!(el.timer.count(), 2);
    d.refresh_timeout(x.mark, x.timeout.unwrap());
    notify(&mut d, &mut el, TcpConnMessage::CancelTimer(Token(100), 42));
    assert_eq!(el.timer.count(), 1);
    assert!(matches!(d.handle_timeout(&42, true), Fired::Unknown));
    // The other one is still there.
    assert_eq!(el.next_timer_with(100, Ok(10000)).unwrap().unwrap().mark, 7);
}

#[test]
fn only_repeating_timers_are_refreshed() {
    let mut d = with_one();
    let mut el = event_loop();
    notify(&mut d, &mut el, TcpConnMessage::AddTimer(Token(100), 500, 42, 'f'));
    d.refresh_timeout(42, Timeout { key: 0, tick: 99 });
    assert!(matches!(d.handle_timeout(&42, true), Fired::Unknown));
    notify(&mut d, &mut el, TcpConnMessage::CancelTimer(Token(100), 42));
    assert_eq!(el.timer.count(), 0);
}

#[test]
fn a_repeating_timer_fires_again_and_again() {
    let mut d = with_one();
    let mut el = event_loop();
    notify(&mut d, &mut el, TcpConnMessage::AddTimer2(Token(100), 500, 300, 42, 'g'));
    for (now_tick, next) in [(15u64, 18u64), (18, 21), (21, 24), (24, 27)] {
        let x = el.next_timer_with(now_tick, Ok(now_tick * 100)).unwrap().unwrap();
        assert!(x.repeat);
        d.refresh_timeout(x.mark, x.timeout.unwrap());
        match d.handle_timeout(&x.mark, x.repeat) {
            Fired::Every(timeout, token, f) => {
                assert_eq!((timeout.tick, token, f), (next, Token(100), 'g'));
                d.keep_timer(x.mark, timeout, token, f);
            }
            _ => panic!("not fired"),
        }
        assert!(el.next_timer_with(now_tick, Ok(now_tick * 100)).is_none());
    }
}

#[test]
fn taking_a_timer_back_undoes_adding_it() {
    let mut d = with_one();
    let mut el = event_loop();
    notify(&mut d, &mut el, TcpConnMessage::AddTimer(Token(100), 500, 42, 'f'));
    notify(&mut d, &mut el, TcpConnMessage::AddTimer2(Token(100), 500, 10, 43, 'g'));
    assert_eq!(el.timer.count(), 2);
    notify(&mut d, &mut el, TcpConnMessage::CancelTimer(Token(100), 42));
    assert_eq!(el.timer.count(), 1);
    assert!(matches!(d.handle_timeout(&42, false), Fired::Unknown));
    notify(&mut d, &mut el, TcpConnMessage::CancelTimer(Token(100), 43));
    assert_eq!(el.timer.count(), 0);
    notify(&mut d, &mut el, TcpConnMessage::CancelTimer(Token(100), 44));
    assert_eq!(el.timer.count(), 0);
}

#[test]
fn a_timer_without_a_usable_clock_is_refused() {
    let mut d = with_one();
    let mut el = event_loop();
    let add = TcpConnMessage::AddTimer(Token(100), 500, 42, 'f');
    let r = d.handle_notify_with(add, &mut el, 4, Err(ClockError::BeforeEpoch));
    assert!(matches!(r, Action::ClockFailed(ClockError::BeforeEpoch)));
    let add = TcpConnMessage::AddTimer2(Token(100), u64::MAX, 5, 42, 'f');
    let r = d.handle_notify_with(add, &mut el, 4, Ok(1));
    assert!(matches!(r, Action::ClockFailed(ClockError::OutOfRange)));
    assert_eq!(el.timer.count(), 0);
    assert!(matches!(d.handle_timeout(&42, false), Fired::Unknown));
}

#[test]
fn a_timer_that_the_loop_has_no_room_for_is_refused() {
    let config = ruduo::event_loop::EventLoopConfig {
        timer_cap: 1,
        ..ruduo::event_loop::EventLoopConfig::default()
    };
    let (mut el, _notifier) = Loop::new_configured(config).unwrap();
    let mut d = with_one();
    let mut refused = false;
    for mark in 0..1000u64 {
        let add = TcpConnMessage::AddTimer(Token(100), 500, mark, 'f');
        match d.handle_notify(add, &mut el) {
            Action::Nothing => {}
            Action::TimerRefused(_) => {
                refused = true;
                assert!(matches!(d.handle_timeout(&mark, false), Fired::Unknown));
                break;
            }
            _ => panic!("neither added nor refused"),
        }
    }
    assert!(refused);
}

#[test]
fn shutting_down_stops_the_watching_of_all_connections() {
    let mut d = with_one();
    d.add_connection(TcpConnection::make(Token(101), 2));
    d.with_connection(Token(101)).unwrap().enable_io(Interest::to_read());
    assert_eq!(
        d.graceful_shutdown(),
        vec![(Token(100), None), (Token(101), Some(Registration::Deregister))]
    );
    assert_eq!(d.with_connection(Token(101)).unwrap().interests, None);
    assert_eq!(d.graceful_shutdown(), vec![(Token(100), None), (Token(101), None)]);
    assert_eq!(d.local_connections.vacant_key(), 2);
}

#[test]
fn dispatchers_of_one_server_give_out_different_tokens() {
    let mut tokens: Vec<usize> = vec![];
    for seq in 0..3usize {
        let mut d: Dispatcher<Plain> = Dispatcher::of_loop(2, seq);
        let mut el = event_loop();
        for _ in 0..2 {
            match notify(&mut d, &mut el, TcpConnMessage::Established(1, 1, 1)) {
                Action::Establish(n) => {
                    tokens.push(n.token.0);
                    d.add_connection(TcpConnection::make(n.token, 1));
                }
                _ => panic!("not established"),
            }
        }
    }
    assert_eq!(tokens, vec![0, 1, 2, 3, 4, 5]);
}

#[test]
fn the_loop_of_a_connection_is_found_and_forgotten() {
    let mut s: Shared<&'static str> = Shared::new();
    assert_eq!(s.get_loop_notifier(Token(3)), None);
    s.add_connection(Token(3), "a");
    s.add_connection(Token(4), "b");
    s.add_connection(Token(5), "a");
    assert_eq!(s.get_loop_notifier(Token(4)), Some(&"b"));
    let mut all: Vec<&str> = s.notifiers().into_iter().cloned().collect();
    all.sort();
    assert_eq!(all, vec!["a", "a", "b"]);
    assert_eq!(s.remove_connection(Token(3)), Some("a"));
    assert_eq!(s.remove_connection(Token(3)), None);
    assert_eq!(s.notifiers().len(), 2);
}

#[test]
fn a_server_spreads_its_connections_over_its_threads() {
    let mut server: TcpServer<char> = TcpServer::new(2, String::from("Chat"), 10);
    let TcpServerConfig { pool_size, pool_name, max_connections_per } = &server.config;
    assert_eq!((*pool_size, pool_name.as_str(), *max_connections_per), (2, "Chat", 10));
    server.pool.add_thread('a');
    server.pool.add_thread('b');
    assert_eq!(server.get_pool_next(), &'a');
    assert_eq!(server.get_pool_next(), &'b');
    assert_eq!(server.get_pool_next(), &'a');
}

#[test]
fn only_messages_that_can_be_acted_on_are_accepted() {
    let d = with_one();
    assert!(d.can_accept(&TcpConnMessage::Removed(Token(100))));
    assert!(!d.can_accept(&TcpConnMessage::Removed(Token(101))));
    assert!(!d.can_accept(&TcpConnMessage::Removed(Token(99))));
    assert!(d.can_accept(&TcpConnMessage::WriteComplete(Token(101))));
    assert!(!d.can_accept(&TcpConnMessage::WriteComplete(Token(99))));
    assert!(d.can_accept(&TcpConnMessage::Write(Token(100), vec![1])));
    assert!(!d.can_accept(&TcpConnMessage::SetContext(Token(0), 1)));
    assert!(d.can_accept(&TcpConnMessage::Established(1, 1, 1)));
    let nothing = Interest { readable: false, writable: false, aio: false, lio: false, priority: false };
    assert!(!nothing.is_some());
    assert!(!d.can_accept(&TcpConnMessage::Enable(Token(100), nothing)));
    assert!(d.can_accept(&TcpConnMessage::Disable(Token(100), nothing)));
    assert!(d.can_accept(&TcpConnMessage::CancelTimer(Token(0), 1)));
    let last: Dispatcher<Plain> = Dispatcher::new(4, usize::MAX);
    assert!(last.can_accept(&TcpConnMessage::Established(1, 1, 1)));
}

#[test]
fn an_accepted_connection_is_told_to_the_next_loop() {
    let outcome: Result<(u32, u16), Failure> = Ok((7, 80));
    let msg: Messages = match handle_accept(outcome) {
        ServiceStep::Establish(stream, addr) => established(stream, addr, 3),
        _ => panic!("not established"),
    };
    assert!(matches!(msg, TcpConnMessage::Established(7, 80, 3)));
}

#[test]
fn a_service_whose_listener_fails_is_sent_a_dead_letter() {
    let busy: Result<(u32, u16), Failure> = Err(Failure { kind: FailureKind::WouldBlock, raw_os_error: Some(11) });
    assert!(matches!(handle_accept(busy), ServiceStep::Done));
    let bad: Result<(u32, u16), Failure> = Err(Failure { kind: FailureKind::Other, raw_os_error: Some(24) });
    match handle_accept(bad) {
        ServiceStep::DeadLetter(e) => assert_eq!(e, Failure { kind: FailureKind::Other, raw_os_error: Some(24) }),
        _ => panic!("no dead letter"),
    }
}

#[test]
fn a_connector_spreads_its_connections_over_its_threads() {
    let mut c: ConnectorService<char> = ConnectorService::new(2, 10);
    c.pool.add_thread('a');
    c.pool.add_thread('b');
    for thread in ['a', 'b', 'a'] {
        let (next, msg): (&char, Messages) = c.connect(7, 80, 3);
        assert_eq!(next, &thread);
        assert!(matches!(msg, TcpConnMessage::Connecting(7, 80, 3)));
    }
}
