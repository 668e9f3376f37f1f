use ruduo::acceptor::{accepted, AcceptStep, Acceptors, ListenError};
use ruduo::connector::ConnectorService;
use ruduo::event_loop_thread_pool::EventLoopThreadPool;
use ruduo::ex::tcp_connection::{Connected, Connecting, Disconnected, Minimal, ReadStep, State};
use ruduo::readiness::{Failure, FailureKind, Interest, Peer, Registration, Token};
use ruduo::service::{handle_io_event, ServicePlan};

fn failure(kind: FailureKind) -> Failure {
    Failure { kind, raw_os_error: None }
}

#[test]
fn threads_are_numbered_and_named() {
    let mut pool: EventLoopThreadPool<usize> = EventLoopThreadPool::new(11, String::from("Worker"));
    assert_eq!(pool.size, 11);
    for i in 0..11usize {
        pool.add_thread(i);
    }
    assert_eq!(pool.thread_name(0), "Worker-#0");
    assert_eq!(pool.thread_name(10), "Worker-#10");
    assert_eq!(pool.thread_name(907), "Worker-#907");
    assert_eq!(pool.thread_name(1234568), "Worker-#1234568");
    assert_eq!(pool.thread_name(usize::MAX), format!("Worker-#{}", usize::MAX));
    assert_eq!(pool.pool, vec![0, 1, 2, 3, 4, 5, 6, 7, 8, 9, 10]);
}

#[test]
fn threads_take_turns() {
    let mut pool: EventLoopThreadPool<char> = EventLoopThreadPool::new(3, String::from("Worker"));
    for c in ['a', 'b', 'c'] {
        pool.add_thread(c);
    }
    let turns: String = (0..7).map(|_| *pool.next_loop()).collect();
    assert_eq!(turns, "abcabca");
    assert_eq!(pool.next, 7);
    pool.next = usize::MAX;
    pool.next_loop();
    assert_eq!(pool.next_loop(), &'a');
    assert_eq!(pool.loop_for(5), &'c');
}

#[test]
fn the_next_thread_is_there_before_all_run() {
    let mut pool: EventLoopThreadPool<char> = EventLoopThreadPool::new(3, String::from("Worker"));
    pool.add_thread('a');
    assert_eq!(pool.next_loop(), &'a');
    pool.add_thread('b');
    assert_eq!(pool.next_loop(), &'b');
}

#[test]
fn the_size_can_change_before_the_start() {
    let mut pool: EventLoopThreadPool<char> = EventLoopThreadPool::default();
    assert_eq!(pool.size, 0);
    pool.set_pool_size(1);
    assert_eq!(pool.size, 1);
    assert_eq!(pool.thread_name(0), "EventLoopThread-#0");
    pool.add_thread('a');
    assert_eq!(pool.next_loop(), &'a');
}

#[test]
fn a_connector_names_its_threads() {
    let c: ConnectorService<char> = ConnectorService::new(2, 10);
    assert_eq!(c.config.pool_name, "ConnectorThread");
    assert_eq!((c.config.pool_size, c.config.max_connections_per), (2, 10));
    assert_eq!(c.pool.thread_name(0), "ConnectorThread-#0");
}

#[test]
fn listeners_are_accepted_up_to_the_room() {
    let mut a: Acceptors<&'static str> = Acceptors::new(2);
    assert_eq!(a.listen(), Ok(Token(0)));
    assert_eq!(a.add("x"), Token(0));
    assert_eq!(a.listen_with(2), Ok(Token(1)));
    assert_eq!(a.listen_with(1), Err(ListenError::MaxListeners));
    assert_eq!(ListenError::MaxListeners.message(), "max listeners reached!");
    assert_eq!(a.add("y"), Token(1));
    assert!(a.handle_io_event(Token(1), false).is_none());
    assert!(a.handle_io_event(Token(2), true).is_none());
    assert_eq!(a.handle_io_event(Token(1), true), Some(&mut "y"));
    assert_eq!(a.graceful_shutdown(), vec!["x", "y"]);
    assert_eq!(a.listen(), Ok(Token(0)));
    assert!(a.handle_io_event(Token(1), true).is_none());
}

#[test]
fn accepting_goes_on_until_there_is_no_connection() {
    let ok: Result<u8, Failure> = Ok(7);
    assert!(matches!(accepted(ok), AcceptStep::Connection(7)));
    let busy: Result<u8, Failure> = Err(failure(FailureKind::WouldBlock));
    assert!(matches!(accepted(busy), AcceptStep::Done));
    let bad: Result<u8, Failure> = Err(failure(FailureKind::Other));
    match accepted(bad) {
        AcceptStep::Failed(e) => assert_eq!(e, failure(FailureKind::Other)),
        _ => panic!("not failed"),
    }
}

#[test]
fn a_service_expects_only_its_listener() {
    assert_eq!(handle_io_event(Token(0), true), ServicePlan::Accept);
    assert_eq!(handle_io_event(Token(0), false), ServicePlan::Nothing);
    assert_eq!(handle_io_event(Token(5), true), ServicePlan::Unknown(Token(5)));
}

#[test]
fn a_connection_goes_through_its_states() {
    let mut connecting = Connecting::new(9, "rest");
    assert_eq!(connecting.min.token, Token(9));
    assert_eq!(connecting.entry(), Registration::Register(Interest::to_read()));
    let connecting = match connecting.handle_read::<char>(Peer::Connecting) {
        State::Connecting(c) => c,
        _ => panic!("not connecting"),
    };
    let connecting = match connecting.handle_read::<char>(Peer::Failed) {
        State::Connecting(c) => c,
        _ => panic!("not connecting"),
    };
    let mut connected: Connected<&str, char> = match connecting.handle_read(Peer::Connected) {
        State::Connected(c) => c,
        _ => panic!("not connected"),
    };
    assert_eq!(connected.min.interests, Some(Interest::to_read()));
    assert_eq!(connected.input.readable_bytes(), 0);
    assert_eq!(connected.output.prependable_bytes(), 8);
    assert_eq!(connected.output.writable_bytes(), 1024);
    connected.on_read_complete = Some('f');
    let connected = match connected.handle_read(Ok(5)) {
        ReadStep::Again(c) => c,
        _ => panic!("not again"),
    };
    let connected = match connected.handle_read(Err(failure(FailureKind::WouldBlock))) {
        ReadStep::Call(c, 'f') => c,
        _ => panic!("not called"),
    };
    assert_eq!(connected.on_read_complete, None);
    let connected = match connected.handle_read(Err(failure(FailureKind::WouldBlock))) {
        ReadStep::Done(State::Connected(c), None) => c,
        _ => panic!("not done"),
    };
    let mut connected = match connected.handle_read(Err(failure(FailureKind::Other))) {
        ReadStep::Done(State::Connected(c), None) => c,
        _ => panic!("not done"),
    };
    connected.put_back('f');
    assert_eq!(connected.on_read_complete, Some('f'));
    match connected.handle_read(Ok(0)) {
        ReadStep::Done(State::Disconnected(d), r) => {
            assert_eq!(d.min.interests, None);
            assert_eq!(d.min.ext, "rest");
            assert_eq!(r, Some(Registration::Deregister));
        }
        _ => panic!("not disconnected"),
    }
}

#[test]
fn a_connection_that_is_over_keeps_other_interests() {
    let urgent = Interest { readable: false, writable: false, aio: false, lio: false, priority: true };
    let mut min = Minimal { token: Token(1), interests: None, ext: () };
    assert_eq!(min.enable_io(urgent), Registration::Register(urgent));
    assert_eq!(min.enable_io(Interest::to_read()), Registration::Reregister(urgent.add(Interest::to_read())));
    assert_eq!(min.disable_io(Interest::to_write()), Some(Registration::Reregister(urgent.add(Interest::to_read()))));
    let mut over = Disconnected { min };
    assert_eq!(over.entry(), Some(Registration::Reregister(urgent)));
    assert_eq!(over.min.interests, Some(urgent));
}
