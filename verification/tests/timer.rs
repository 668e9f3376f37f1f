use ruduo::timer::{clock_ms, rounded_fits, ClockError, Timeout, Timer};

const TICK: u64 = 100;
const SLOTS: usize = 16;

fn timer() -> Timer<&'static str> {
    Timer::new(TICK, SLOTS, 32)
}

#[test]
pub fn test_timeout_next_tick() {
    let mut t = timer();
    let mut tick;

    t.timeout_ms_at(100, 0, "a").unwrap();

    tick = t.ms_to_tick(50);
    assert_eq!(None, t.tick_to(tick));

    tick = t.ms_to_tick(100);
    assert_eq!(Some(("a", 0)), t.tick_to(tick));
    assert_eq!(None, t.tick_to(tick));

    tick = t.ms_to_tick(150);
    assert_eq!(None, t.tick_to(tick));

    tick = t.ms_to_tick(200);
    assert_eq!(None, t.tick_to(tick));

    assert_eq!(t.count(), 0);
}

#[test]
pub fn test_clearing_timeout() {
    let mut t = timer();
    let mut tick;

    let to = t.timeout_ms_at(100, 0, "a").unwrap();
    assert!(t.clear(to));

    tick = t.ms_to_tick(100);
    assert_eq!(None, t.tick_to(tick));

    tick = t.ms_to_tick(200);
    assert_eq!(None, t.tick_to(tick));

    assert_eq!(t.count(), 0);
}

#[test]
pub fn test_multiple_timeouts_same_tick() {
    let mut t = timer();
    let mut tick;

    t.timeout_ms_at(100,0, "a").unwrap();
    t.timeout_ms_at(100, 0, "b").unwrap();

    let mut rcv = vec![];

    tick = t.ms_to_tick(100);
    rcv.push(t.tick_to(tick).unwrap());
    rcv.push(t.tick_to(tick).unwrap());

    assert_eq!(None, t.tick_to(tick));

    rcv.sort();
    assert!(rcv == [("a", 0), ("b", 0)], "actual={:?}", rcv);

    tick = t.ms_to_tick(200);
    assert_eq!(None, t.tick_to(tick));

    assert_eq!(t.count(), 0);
}

#[test]
pub fn test_catching_up() {
    let mut t = timer();

    t.timeout_ms_at(110, 0, "a").unwrap();
    t.timeout_ms_at(220, 0, "b").unwrap();
    t.timeout_ms_at(230, 0, "c").unwrap();
    t.timeout_ms_at(440, 0, "d").unwrap();

    let tick = t.ms_to_tick(600);
    assert_eq!(Some(("a", 0)), t.tick_to(tick));
    assert_eq!(Some(("c", 0)), t.tick_to(tick));
    assert_eq!(Some(("b", 0)), t.tick_to(tick));
    assert_eq!(Some(("d", 0)), t.tick_to(tick));
    assert_eq!(None, t.tick_to(tick));
}

#[test]
pub fn test_timeout_hash_collision() {
    let mut t = timer();
    let mut tick;

    t.timeout_ms_at(100, 0, "a").unwrap();
    t.timeout_ms_at(100 + TICK * SLOTS as u64, 0, "b").unwrap();

    tick = t.ms_to_tick(100);
    assert_eq!(Some(("a", 0)), t.tick_to(tick));
    assert_eq!(1, t.count());

    tick = t.ms_to_tick(200);
    assert_eq!(None, t.tick_to(tick));
    assert_eq!(1, t.count());

    tick = t.ms_to_tick(100 + TICK * SLOTS as u64);
    assert_eq!(Some(("b", 0)), t.tick_to(tick));
    assert_eq!(0, t.count());
}

#[test]
pub fn test_clearing_timeout_between_triggers() {
    let mut t = timer();
    let mut tick;

    let a = t.timeout_ms_at(100, 0, "a").unwrap();
    let _ = t.timeout_ms_at(100, 0, "b").unwrap();
    let _ = t.timeout_ms_at(200, 0, "c").unwrap();

    tick = t.ms_to_tick(100);
    assert_eq!(Some(("b", 0)), t.tick_to(tick));
    assert_eq!(2, t.count());

    t.clear(a);
    assert_eq!(1, t.count());

    assert_eq!(None, t.tick_to(tick));

    tick = t.ms_to_tick(200);
    assert_eq!(Some(("c", 0)), t.tick_to(tick));
    assert_eq!(0, t.count());
}

#[test]
fn a_full_timer_refuses_and_cancelling_makes_room() {
    let mut t: Timer<usize> = Timer::new(10, 4, 1);
    let first = t.insert_within(0, 5, 0, 1).unwrap();
    let refused = t.insert_within(1, 5, 0, 1);
    assert!(refused.is_err());
    assert!(format!("{:?}", refused).contains("TimerOverflow"));
    assert!(format!("{:?}", refused).contains("too many timer entries"));
    assert_eq!(t.count(), 1);
    assert!(t.clear(first));
    assert!(t.insert_within(1, 5, 0, 1).is_ok());
}

#[test]
fn a_timer_overflows_when_its_room_is_used_up() {
    let mut t: Timer<usize> = Timer::new(10, 4, 2);
    let mut n: usize = 0;
    while n < 1000 {
        if t.timeout_ms_at(100, 0, n).is_err() {
            break;
        }
        n += 1;
    }
    assert!(n >= 2);
    assert!(n < 1000);
    assert_eq!(t.count(), n);
    // One that has fired can always be scheduled again.
    assert!(t.tick_to(10).is_some());
    assert!(t.timeout_ms_at(200, 0, 0).is_ok());
}

#[test]
fn a_cancellation_has_to_name_the_tick() {
    let mut t: Timer<u8> = Timer::new(100, 16, 32);
    let a = t.timeout_ms_at(300, 0, 1).unwrap();
    let key: usize = a.key;
    assert_eq!(a.tick, 3);
    assert!(!t.clear(Timeout { key, tick: 4 }));
    assert_eq!(t.count(), 1);
    assert!(t.clear(a));
    assert!(!t.clear(Timeout { key, tick: 3 }));
    assert_eq!(t.count(), 0);
}

#[test]
fn a_timeout_is_due_at_the_first_tick_not_before_its_time() {
    let mut t: Timer<u8> = Timer::new(100, 16, 32);
    assert_eq!(t.timeout_ms_at(101, 0, 1).unwrap().tick, 2);
    assert_eq!(t.timeout_ms_at(200, 0, 1).unwrap().tick, 2);
    assert_eq!(t.timeout_ms_at(0, 0, 1).unwrap().tick, 1);
    t.setup_with(Ok(50)).unwrap();
    assert_eq!(t.timeout_ms_at(150, 0, 1).unwrap().tick, 1);
    assert_eq!(t.ms_to_tick(250), 2);
    assert_eq!(t.timeout_ms_with(Ok(100), 50, 7, 9).unwrap().unwrap().tick, 1);
}

#[test]
fn an_interval_is_handed_out_with_its_mark() {
    let mut t: Timer<&'static str> = Timer::new(100, 16, 32);
    t.timeout_ms_at(100, 250, "again").unwrap();
    assert_eq!(t.tick_to(1), Some(("again", 250)));
}

#[test]
fn a_walk_in_two_stages_ends_like_one() {
    let mut a: Timer<u8> = Timer::new(100, 4, 32);
    let mut b: Timer<u8> = Timer::new(100, 4, 32);
    a.timeout_ms_at(700, 0, 7).unwrap();
    b.timeout_ms_at(700, 0, 7).unwrap();
    assert_eq!(a.tick_to(3), None);
    assert_eq!(a.tick_to(9), Some((7, 0)));
    assert_eq!(b.tick_to(9), Some((7, 0)));
}

#[test]
fn entries_come_in_the_order_of_their_ticks() {
    let mut t: Timer<u64> = Timer::new(10, 8, 64);
    for ms in [300u64, 20, 170, 90, 40, 250] {
        t.timeout_ms_at(ms, 0, ms).unwrap();
    }
    let mut seen: Vec<u64> = vec![];
    while let Some((ms, _)) = t.tick_to(40) {
        seen.push(ms);
    }
    assert_eq!(seen, vec![20, 40, 90, 170, 250, 300]);
}

#[test]
fn the_next_tick_is_waited_for_only_if_something_is_scheduled() {
    let mut t: Timer<u8> = Timer::new(100, 16, 32);
    assert!(matches!(t.next_tick_in_ms_with(Ok(30)), Ok(None)));
    assert!(matches!(t.next_tick_in_ms_with(Err(ClockError::BeforeEpoch)), Ok(None)));
    t.timeout_ms_at(500, 0, 1).unwrap();
    assert!(matches!(t.next_tick_in_ms_with(Ok(30)), Ok(Some(70))));
    assert!(matches!(t.next_tick_in_ms_with(Ok(100)), Ok(Some(0))));
    assert!(matches!(t.next_tick_in_ms_with(Ok(400)), Ok(Some(0))));
    assert!(matches!(t.next_tick_in_ms_with(Err(ClockError::BeforeEpoch)), Err(ClockError::BeforeEpoch)));
    t.setup_with(Ok(u64::MAX)).unwrap();
    assert!(matches!(t.next_tick_in_ms_with(Ok(400)), Err(ClockError::OutOfRange)));
}

#[test]
fn the_clock_reading_is_judged() {
    assert!(matches!(clock_ms(None), Err(ClockError::BeforeEpoch)));
    assert!(matches!(clock_ms(Some(5)), Ok(5)));
    assert!(matches!(clock_ms(Some(u64::MAX as u128)), Ok(u64::MAX)));
    assert!(matches!(clock_ms(Some(u64::MAX as u128 + 1)), Err(ClockError::OutOfRange)));
}

#[test]
fn the_present_is_read_from_the_clock() {
    let mut t: Timer<u8> = Timer::new(1, 16, 32);
    // Tick 0 is at the epoch, so the present is in the year 2001 or later.
    assert!(t.now_tick().unwrap() > 1_000_000_000_000);
    t.setup().unwrap();
    assert!(t.now_tick().unwrap() < 60_000);
    let to = t.timeout_ms(60_000, 0, 1).unwrap().unwrap();
    assert!(to.tick >= 60_000 && to.tick < 120_000);
    assert!(t.next_tick_in_ms().unwrap().is_some());
    assert!(t.clear(to));
    assert_eq!(t.next_tick_in_ms().unwrap(), None);
}

#[test]
fn what_does_not_fit_the_clock_is_refused() {
    let mut t: Timer<u8> = Timer::new(100, 16, 32);
    assert!(t.is_schedulable(0, 0));
    assert!(!t.is_schedulable(u64::MAX, 1));
    assert!(!t.is_schedulable(u64::MAX, 0));
    assert!(matches!(t.timeout_ms(u64::MAX, 0, 1), Err(ClockError::OutOfRange)));
    t.setup_with(Ok(u64::MAX)).unwrap();
    assert!(matches!(t.setup_with(Err(ClockError::BeforeEpoch)), Err(ClockError::BeforeEpoch)));
    assert!(matches!(t.now_tick_with(Ok(5)), Err(ClockError::OutOfRange)));
    assert!(matches!(t.now_tick_with(Err(ClockError::BeforeEpoch)), Err(ClockError::BeforeEpoch)));
    assert!(matches!(t.now_tick(), Err(ClockError::OutOfRange)));
}

#[test]
fn the_wheel_size_is_rounded_up_to_a_power_of_two() {
    // With 3 slots rounded up to 4, ticks 1 and 5 share a slot.
    let mut t: Timer<u8> = Timer::new(10, 3, 3);
    t.timeout_ms_at(50, 0, 5).unwrap();
    assert_eq!(t.tick_to(1), None);
    assert_eq!(t.tick_to(4), None);
    assert_eq!(t.tick_to(5), Some((5, 0)));
}

#[test]
fn counts_are_rounded_up_before_they_are_judged() {
    assert!(rounded_fits(0, 1));
    assert!(rounded_fits(1024, 8));
    assert!(rounded_fits(isize::MAX as usize / 2, 1));
    assert!(!rounded_fits(isize::MAX as usize, 1));
    assert!(!rounded_fits(isize::MAX as usize / 2, 2));
}

#[test]
fn a_timeout_gets_the_key_freed_last() {
    let mut t = timer();
    let a = t.timeout_ms_at(100, 0, "a").unwrap();
    let b = t.timeout_ms_at(300, 0, "b").unwrap();
    let c = t.timeout_ms_at(200, 0, "c").unwrap();
    assert_eq!((a.key, b.key, c.key), (0, 1, 2));
    assert!(t.clear(b));
    assert_eq!(t.tick_to(1), Some(("a", 0)));
    assert_eq!(t.timeout_ms_at(400, 0, "d").unwrap().key, 0);
    assert_eq!(t.timeout_ms_at(400, 0, "e").unwrap().key, 1);
    assert_eq!(t.timeout_ms_at(400, 0, "f").unwrap().key, 3);
}

#[test]
fn cancelling_gives_the_key_back() {
    let mut t = timer();
    t.timeout_ms_at(100, 0, "a").unwrap();
    let b = t.timeout_ms_at(100, 0, "b").unwrap();
    let key = b.key;
    assert!(t.clear(b));
    assert_eq!(t.timeout_ms_at(700, 0, "c").unwrap().key, key);
    assert_eq!(t.tick_to(1), Some(("a", 0)));
    assert_eq!(t.tick_to(1), None);
}

#[test]
fn timeouts_of_one_tick_come_out_last_scheduled_first() {
    let mut t = timer();
    t.timeout_ms_at(500, 0, "a").unwrap();
    t.timeout_ms_at(500, 0, "b").unwrap();
    let c = t.timeout_ms_at(500, 0, "c").unwrap();
    t.timeout_ms_at(200, 0, "first").unwrap();
    assert_eq!(t.tick_to(3), Some(("first", 0)));
    assert!(t.clear(c));
    t.timeout_ms_at(500, 0, "d").unwrap();
    assert_eq!(t.tick_to(9), Some(("d", 0)));
    assert_eq!(t.tick_to(9), Some(("b", 0)));
    assert_eq!(t.tick_to(9), Some(("a", 0)));
    assert_eq!(t.tick_to(9), None);
}
