use ruduo::event_loop::{EventLoop, EventLoopConfig, LoopStep, Message, Notifier, Phase, Task, K_WAKE_TOKEN};
use ruduo::queue::Received;
use ruduo::readiness::Token;
use ruduo::timer::ClockError;

type Loop = EventLoop<String, u32>;

#[test]
fn the_default_configuration() {
    let c = EventLoopConfig::default();
    assert_eq!(c.poll_timeout, Some(10000));
    assert_eq!(c.poll_max_events, 1024);
    assert_eq!(c.timer_tick_ms, 100);
    assert_eq!(c.timer_wheel_size, 1024);
    assert_eq!(c.timer_cap, 65536);
}

#[test]
fn a_loop_polls_no_longer_than_it_may() {
    let (el, _notifier) = Loop::new().unwrap();
    assert_eq!(el.poll_timeout_with(true, None), Some(10000));
    assert_eq!(el.poll_timeout_with(true, Some(70)), Some(70));
    assert_eq!(el.poll_timeout_with(true, Some(20000)), Some(10000));
    assert_eq!(el.poll_timeout_with(false, Some(70)), Some(0));
    assert_eq!(el.poll_timeout_with(false, None), Some(0));
    let config = EventLoopConfig { poll_timeout: None, ..EventLoopConfig::default() };
    let (idle, _notifier) = Loop::new_configured(config).unwrap();
    assert_eq!(idle.poll_timeout_with(true, None), None);
    assert_eq!(idle.poll_timeout_with(true, Some(5)), Some(5));
}

fn poll_timeout(el: &mut Loop) -> Option<u64> {
    match el.next_task(Phase::Poll).unwrap() {
        (Task::Poll(timeout), Phase::Messages) => timeout,
        _ => panic!("no poll"),
    }
}

#[test]
fn a_waiting_message_or_timer_shortens_the_poll() {
    let (mut el, notifier) = Loop::new().unwrap();
    el.start();
    assert_eq!(poll_timeout(&mut el), Some(10000));
    el.schedule_after(3000, 1).unwrap().unwrap();
    assert!(poll_timeout(&mut el).unwrap() <= 100);
    notifier.notify(String::from("hey")).unwrap();
    assert_eq!(poll_timeout(&mut el), Some(0));
}

#[test]
fn messages_are_handed_on_and_stop_ends_the_round() {
    let (mut el, notifier) = Loop::new().unwrap();
    el.start();
    assert!(matches!(el.next_task(Phase::Messages).unwrap(), (Task::Nothing, Phase::Clock)));
    notifier.notify(String::from("one")).unwrap();
    notifier.another().notify(String::from("two")).unwrap();
    assert!(notifier.dead_letter().is_some());
    notifier.notify(String::from("three")).unwrap();
    match el.next_task(Phase::Messages).unwrap() {
        (Task::Notify(m), Phase::Messages) => assert_eq!(m, "one"),
        _ => panic!("no message"),
    }
    match el.next_task(Phase::Messages).unwrap() {
        (Task::Notify(m), Phase::Messages) => assert_eq!(m, "two"),
        _ => panic!("no message"),
    }
    assert!(matches!(el.next_task(Phase::Messages).unwrap(), (Task::Shutdown, Phase::Clock)));
    assert!(matches!(el.next_task(Phase::Messages).unwrap(), (Task::Notify(_), Phase::Messages)));
    assert!(el.running);
}

#[test]
fn a_round_goes_through_its_phases() {
    let (mut el, notifier) = Loop::new().unwrap();
    el.start();
    el.timer.setup_with(Ok(0)).unwrap();
    el.timer.timeout_ms_with(Ok(0), 100, 0, 8).unwrap().unwrap();
    let (task, phase) = el.next_task_with(Phase::Poll, true, Received::Empty, Ok(30)).unwrap();
    assert!(matches!(task, Task::Poll(Some(70))));
    assert_eq!(phase, Phase::Messages);
    let (task, phase) = el.next_task_with(phase, true, Received::Empty, Ok(150)).unwrap();
    assert!(matches!(task, Task::Nothing));
    assert_eq!(phase, Phase::Clock);
    let (task, phase) = el.next_task_with(phase, true, Received::Empty, Ok(150)).unwrap();
    assert!(matches!(task, Task::Nothing));
    assert_eq!(phase, Phase::Timers(1));
    let (task, phase) = el.next_task_with(phase, true, Received::Empty, Ok(150)).unwrap();
    match task {
        Task::Timer(x) => assert_eq!((x.mark, x.repeat), (8, false)),
        _ => panic!("no timer"),
    }
    assert_eq!(phase, Phase::Timers(1));
    let (task, phase) = el.next_task_with(phase, true, Received::Empty, Ok(150)).unwrap();
    assert!(matches!(task, Task::Nothing));
    assert_eq!(phase, Phase::Poll);
    el.shutdown();
    let (task, phase) = el.next_task_with(phase, true, Received::Empty, Ok(150)).unwrap();
    assert!(matches!(task, Task::Stop));
    assert_eq!(phase, Phase::Poll);
    drop(notifier);
}

#[test]
fn a_round_needs_a_clock() {
    let (mut el, _notifier) = Loop::new().unwrap();
    el.start();
    let bad = || Err(ClockError::BeforeEpoch);
    assert!(matches!(
        el.next_task_with(Phase::Clock, true, Received::Empty, bad()),
        Err(ClockError::BeforeEpoch)
    ));
    // Without timers the poll needs none.
    assert!(el.next_task_with(Phase::Poll, true, Received::Empty, bad()).is_ok());
    el.schedule_after(100, 1).unwrap().unwrap();
    assert!(matches!(
        el.next_task_with(Phase::Poll, true, Received::Empty, bad()),
        Err(ClockError::BeforeEpoch)
    ));
    let config = EventLoopConfig { timer_tick_ms: 1, ..EventLoopConfig::default() };
    let (mut fine, _notifier) = Loop::new_configured(config).unwrap();
    fine.timer.setup_with(Ok(0)).unwrap();
    assert!(matches!(
        fine.next_task_with(Phase::Clock, true, Received::Empty, Ok(u64::MAX)),
        Err(ClockError::OutOfRange)
    ));
}

#[test]
fn a_loop_without_notifiers_stops() {
    let (mut el, notifier) = Loop::new().unwrap();
    assert!(!el.running);
    el.start();
    let other = notifier.another();
    drop(notifier);
    assert!(matches!(el.next_task(Phase::Messages).unwrap(), (Task::Nothing, Phase::Clock)));
    assert!(el.running);
    drop(other);
    assert!(matches!(el.next_task(Phase::Messages).unwrap(), (Task::Nothing, Phase::Clock)));
    assert!(!el.running);
    assert!(matches!(el.next_task(Phase::Poll).unwrap(), (Task::Stop, Phase::Poll)));
}

#[test]
fn a_message_for_a_loop_that_is_gone_comes_back() {
    let (el, notifier) = Loop::new().unwrap();
    drop(el);
    match notifier.notify(String::from("late")) {
        Ok(_) => panic!("nobody is there to take the message"),
        Err(msg) => assert_eq!(msg, "late"),
    }
    assert!(notifier.dead_letter().is_none());
}

#[test]
fn each_outcome_of_a_look_into_the_queue_has_its_step() {
    let (mut el, _notifier) = Loop::new().unwrap();
    el.start();
    assert!(matches!(el.received(Received::Message(Message::Stop)), LoopStep::Shutdown));
    match el.received(Received::Message(Message::Any(String::from("x")))) {
        LoopStep::Notify(m) => assert_eq!(m, "x"),
        _ => panic!("no message"),
    }
    assert!(matches!(el.received(Received::Empty), LoopStep::Done));
    assert!(el.running);
    assert!(matches!(el.received(Received::Disconnected), LoopStep::Done));
    assert!(!el.running);
    el.start();
    el.shutdown();
    assert!(!el.running);
}

#[test]
fn only_one_token_is_a_wakeup() {
    assert!(Loop::is_wakeup(Token(K_WAKE_TOKEN)));
    assert!(Loop::is_wakeup(Token(usize::MAX)));
    assert!(!Loop::is_wakeup(Token(0)));
}

#[test]
fn a_timer_that_runs_once_is_taken_and_gone() {
    let (mut el, _notifier) = Loop::new().unwrap();
    el.timer.setup_with(Ok(0)).unwrap();
    let timeout = el.schedule_at(250, 8).unwrap();
    assert_eq!(timeout.tick, 3);
    assert!(el.next_timer_with(2, Ok(0)).is_none());
    let x = el.next_timer_with(3, Ok(300)).unwrap().unwrap();
    assert_eq!(x.mark, 8);
    assert!(!x.repeat);
    assert!(x.timeout.is_none());
    assert!(el.next_timer_with(3, Ok(300)).is_none());
    assert_eq!(el.timer.count(), 0);
}

#[test]
fn a_repeating_timer_is_scheduled_again_and_again() {
    let (mut el, _notifier) = Loop::new().unwrap();
    el.timer.setup_with(Ok(0)).unwrap();
    el.timer.timeout_ms_with(Ok(0), 100, 250, 8).unwrap().unwrap();
    let x = el.next_timer_with(1, Ok(100)).unwrap().unwrap();
    assert!(x.repeat);
    assert_eq!(x.timeout.unwrap().tick, 4);
    assert_eq!(el.timer.count(), 1);
    assert!(el.next_timer_with(1, Ok(100)).is_none());
    let y = el.next_timer_with(4, Ok(400)).unwrap().unwrap();
    assert_eq!(y.mark, 8);
    assert!(y.repeat);
    assert_eq!(y.timeout.unwrap().tick, 7);
    assert_eq!(el.timer.count(), 1);
    let z = el.next_timer_with(7, Ok(700)).unwrap().unwrap();
    assert!(z.repeat);
    assert!(el.cancel(z.timeout.unwrap()));
    assert_eq!(el.timer.count(), 0);
}

#[test]
fn a_repeating_timer_needs_a_clock() {
    let (mut el, _notifier) = Loop::new().unwrap();
    el.timer.setup_with(Ok(0)).unwrap();
    el.timer.timeout_ms_with(Ok(0), 100, 250, 8).unwrap().unwrap();
    assert!(matches!(el.next_timer_with(1, Err(ClockError::BeforeEpoch)), Some(Err(ClockError::BeforeEpoch))));
    assert_eq!(el.timer.count(), 0);
    el.timer.timeout_ms_with(Ok(0), 400, 250, 8).unwrap().unwrap();
    assert!(matches!(el.next_timer_with(9, Ok(u64::MAX)), Some(Err(ClockError::OutOfRange))));
}

#[test]
fn timers_run_by_the_clock() {
    let (mut el, _notifier) = Loop::new().unwrap();
    el.schedule_after(0, 1).unwrap().unwrap();
    let every = el.schedule_every(50_000, 50_000, 2).unwrap().unwrap();
    assert!(every.tick >= 500);
    assert!(matches!(el.next_task(Phase::Clock).unwrap(), (Task::Nothing, Phase::Timers(_))));
    // Tick 1 is when the first one runs out.
    match el.next_task(Phase::Timers(1)).unwrap() {
        (Task::Timer(x), Phase::Timers(1)) => assert_eq!(x.mark, 1),
        _ => panic!("no timer"),
    }
    assert!(matches!(el.next_task(Phase::Timers(1)).unwrap(), (Task::Nothing, Phase::Poll)));
    assert!(el.cancel(every));
    assert_eq!(el.timer.count(), 0);
}

#[test]
fn a_configuration_is_valid_if_its_timer_can_be_made() {
    assert!(EventLoopConfig::default().is_valid());
    assert!(!EventLoopConfig { timer_tick_ms: 0, ..EventLoopConfig::default() }.is_valid());
    assert!(!EventLoopConfig { timer_cap: usize::MAX, ..EventLoopConfig::default() }.is_valid());
    assert!(!EventLoopConfig { timer_wheel_size: usize::MAX / 8, ..EventLoopConfig::default() }.is_valid());
    assert!(EventLoopConfig { timer_wheel_size: 0, timer_cap: 0, ..EventLoopConfig::default() }.is_valid());
}

#[test]
fn a_loop_is_made_where_the_clock_can_be_read() {
    let (el, _notifier) = Loop::new_with(EventLoopConfig::default(), Ok(5000)).unwrap();
    assert!(!el.running);
    assert_eq!(el.timer.ms_to_tick(5250), 2);
    assert_eq!(el.timer.count(), 0);
    assert!(matches!(
        Loop::new_with(EventLoopConfig::default(), Err(ClockError::BeforeEpoch)),
        Err(ClockError::BeforeEpoch)
    ));
}

#[test]
fn what_sending_came_to_is_told() {
    assert_eq!(Notifier::<u8>::notify_with(Ok('p')), Ok('p'));
    assert_eq!(Notifier::<u8>::notify_with::<char>(Err(Message::Any(7))), Err(7));
    assert_eq!(Notifier::<u8>::dead_letter_with(Ok('p')), Some('p'));
    assert_eq!(Notifier::<u8>::dead_letter_with::<char>(Err(Message::Stop)), None);
}

#[test]
fn each_loop_gets_the_messages_of_its_own_notifier() {
    let (mut a, to_a) = Loop::new().unwrap();
    let (mut b, to_b) = Loop::new().unwrap();
    a.start();
    b.start();
    to_a.another().notify(String::from("for a")).unwrap();
    to_b.notify(String::from("for b")).unwrap();
    match a.next_task(Phase::Messages).unwrap() {
        (Task::Notify(msg), Phase::Messages) => assert_eq!(msg, "for a"),
        _ => panic!("no message"),
    }
    assert!(matches!(a.next_task(Phase::Messages).unwrap(), (Task::Nothing, Phase::Clock)));
    match b.next_task(Phase::Messages).unwrap() {
        (Task::Notify(msg), Phase::Messages) => assert_eq!(msg, "for b"),
        _ => panic!("no message"),
    }
}
