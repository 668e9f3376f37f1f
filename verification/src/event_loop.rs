//! An event loop: how long it polls, where its events go, and the messages and
//! timers that it hands out.
use crate::queue::{clone_sender, is_empty, queue, send, try_recv, Posted, Received, Rx, Tx};
use crate::readiness::Token;
use crate::timer::{
    doubled_to, now_ms, power_of_two_above, rounded_fits, ClockError, Timeout, Timer, TimerResult, TimerState,
};
use crate::timer_laws::law_room_to_repeat;
use vstd::pervasive::cloned;
use vstd::prelude::*;

verus! {

pub struct EventLoopConfig {
    /// The longest time to poll for, in ms; unbounded if there is none.
    pub poll_timeout: Option<u64>,
    /// How many events one poll can report.
    pub poll_max_events: usize,
    /// The length of a timer tick in ms.
    pub timer_tick_ms: u64,
    /// The number of slots of the timer wheel.
    pub timer_wheel_size: usize,
    /// The number of timeouts that the timer is created for.
    pub timer_cap: usize,
}

const K_POLL_TIMEOUT: u64 = 10000;

const K_POLL_MAXEVENTS: usize = 1024;

const K_TIMER_TICK_MS: u64 = 100;

const K_TIMER_WHEEL_SIZE: usize = 1024;

const K_TIMER_CAP: usize = 65536;

impl Default for EventLoopConfig {
    fn default() -> (r: Self)
        ensures
            r.is_default(),
    {
        EventLoopConfig {
            poll_timeout: Some(K_POLL_TIMEOUT),
            poll_max_events: K_POLL_MAXEVENTS,
            timer_tick_ms: K_TIMER_TICK_MS,
            timer_wheel_size: K_TIMER_WHEEL_SIZE,
            timer_cap: K_TIMER_CAP,
        }
    }
}

impl EventLoopConfig {
    /// This is the configuration that holds if none is asked for.
    pub open spec fn is_default(&self) -> bool {
        &&& self.poll_timeout == Some(10000u64)
        &&& self.poll_max_events == 1024
        &&& self.timer_tick_ms == 100
        &&& self.timer_wheel_size == 1024
        &&& self.timer_cap == 65536
    }

    /// The timer that is asked for has ticks of some length and fits into memory.
    pub open spec fn wf(&self) -> bool {
        &&& self.timer_tick_ms > 0
        &&& power_of_two_above(self.timer_wheel_size as nat) * 8 <= isize::MAX
        &&& power_of_two_above(self.timer_cap as nat) * 16 <= isize::MAX
    }

    /// Whether the timer that is asked for has ticks of some length and fits into memory.
    pub fn is_valid(&self) -> (r: bool)
        ensures
            r == self.wf(),
    {
        self.timer_tick_ms > 0 && rounded_fits(self.timer_wheel_size, 8) && rounded_fits(self.timer_cap, 16)
    }
}

/// The token under which the poller reports that the loop was woken up.
pub const K_WAKE_TOKEN: usize = usize::MAX;

/// What an event loop is told.
#[derive(Debug)]
pub enum Message<M> {
    Stop,
    Any(M),
}

/// What an event loop does about its queue.
pub enum LoopStep<M> {
    /// Hand this message on, then look again.
    Notify(M),
    /// Shut down in good order, and look no more for now.
    Shutdown,
    /// Look no more for now.
    Done,
}

/// A timer that has run out.
pub struct Expired<K> {
    pub mark: K,
    /// Whether it repeats.
    pub repeat: bool,
    /// The timeout that it was scheduled again for, if it repeats.
    pub timeout: Option<Timeout>,
}

/// The shorter of two periods, where `None` is without end.
pub open spec fn shorter(a: Option<u64>, b: Option<u64>) -> Option<u64> {
    match (a, b) {
        (Some(x), Some(y)) => Some(
            if x <= y {
                x
            } else {
                y
            },
        ),
        (Some(x), None) => Some(x),
        (None, y) => y,
    }
}

/// `ms`, or what a `usize` can hold of it.
pub open spec fn clamped(ms: u64) -> u64 {
    if ms <= usize::MAX {
        ms
    } else {
        usize::MAX as u64
    }
}

/// An event loop for messages `M` and timers marked by `K`.
#[verifier::reject_recursive_types(M)]
pub struct EventLoop<M, K> {
    pub config: EventLoopConfig,
    pub timer: Timer<K>,
    pub running: bool,
    /// The end of the queue that the loop takes messages from.
    pub rx: Rx<Message<M>>,
}

impl<M, K> EventLoop<M, K> {
    pub open spec fn wf(&self) -> bool {
        &&& self.timer.wf()
        &&& self.timer@.tick_ms > 0
    }

    /// This loop is `pre`, but for its timer.
    pub open spec fn only_timer_changed(&self, pre: &Self) -> bool {
        *self == (EventLoop { timer: self.timer, ..*pre })
    }

    /// How long to poll for, where the queue is empty or not and the next tick begins
    /// after `next_tick` ms.
    pub open spec fn polls_for(&self, queue_empty: bool, next_tick: Option<u64>) -> Option<u64> {
        shorter(
            if queue_empty {
                self.config.poll_timeout
            } else {
                Some(0)
            },
            match next_tick {
                Some(ms) => Some(clamped(ms)),
                None => None,
            },
        )
    }

    /// How long to poll for, where the queue is empty or not and the clock reads `clock`.
    pub open spec fn polls_by(&self, queue_empty: bool, clock: Result<u64, ClockError>) -> Result<
        Option<u64>,
        ClockError,
    > {
        match self.timer@.next_tick_in(clock) {
            Ok(next_tick) => Ok(self.polls_for(queue_empty, next_tick)),
            Err(e) => Err(e),
        }
    }

    /// `r` is a loop that was configured by `config` and does not run yet, and what notifies
    /// that loop, where the clock reads `clock`: the first tick of the loop's timer begins
    /// then. There is none where the reading is of no use.
    pub open spec fn is_made(
        config: EventLoopConfig,
        clock: Result<u64, ClockError>,
        r: Result<(Self, Notifier<M>), ClockError>,
    ) -> bool {
        match clock {
            Ok(now) => r matches Ok((el, notifier)) && {
                &&& el.wf()
                &&& notifier.queue() == el.rx.queue()
                &&& el.config == config
                &&& !el.running
                &&& el.timer@ == (TimerState {
                    start_ms: now,
                    ..TimerState::<K>::fresh(config.timer_tick_ms, config.timer_wheel_size, config.timer_cap)
                })
            },
            Err(e) => r == Err::<(Self, Notifier<M>), _>(e),
        }
    }

    /// A loop with the default configuration, and what notifies it.
    pub fn new() -> (r: Result<(Self, Notifier<M>), ClockError>)
        ensures
            exists|config: EventLoopConfig, clock: Result<u64, ClockError>|
                config.is_default() && #[trigger] Self::is_made(config, clock, r),
    {
        let config = EventLoopConfig::default();
        proof {
            reveal_with_fuel(doubled_to, 18);
        }
        Self::new_configured(config)
    }

    /// A loop, and what notifies it. The timer's first tick begins now.
    pub fn new_configured(config: EventLoopConfig) -> (r: Result<(Self, Notifier<M>), ClockError>)
        requires
            config.wf(),
        ensures
            exists|clock: Result<u64, ClockError>| #[trigger] Self::is_made(config, clock, r),
    {
        let clock = now_ms();
        Self::new_with(config, clock)
    }

    /// A loop, and what notifies it, where the clock reads `clock`.
    pub fn new_with(config: EventLoopConfig, clock: Result<u64, ClockError>) -> (r: Result<
        (Self, Notifier<M>),
        ClockError,
    >)
        requires
            config.wf(),
        ensures
            Self::is_made(config, clock, r),
    {
        let mut timer = Timer::new(config.timer_tick_ms, config.timer_wheel_size, config.timer_cap);
        let (tx, rx) = queue();
        match timer.setup_with(clock) {
            Ok(_) => Ok((EventLoop { config, timer, running: false, rx }, Notifier { tx })),
            Err(e) => Err(e),
        }
    }

    /// How long to poll for, in ms, where the queue is empty or not and the next tick
    /// begins after `next_tick` ms: not at all if a message waits, and never past
    /// the next tick.
    pub fn poll_timeout_with(&self, queue_empty: bool, next_tick: Option<u64>) -> (r: Option<u64>)
        ensures
            r == self.polls_for(queue_empty, next_tick),
    {
        let next_tick: Option<u64> = match next_tick {
            Some(ms) => Some(
                if ms <= usize::MAX as u64 {
                    ms
                } else {
                    usize::MAX as u64
                },
            ),
            None => None,
        };
        let timeout: Option<u64> = if queue_empty {
            self.config.poll_timeout
        } else {
            Some(0)
        };
        match (timeout, next_tick) {
            (Some(a), Some(b)) => Some(
                if a <= b {
                    a
                } else {
                    b
                },
            ),
            (Some(a), None) => Some(a),
            (None, Some(b)) => Some(b),
            (None, None) => None,
        }
    }

    /// Step `r` follows once a look into the queue has come to `outcome`, and makes `post` of
    /// this loop.
    pub open spec fn takes_in(&self, outcome: Received<Message<M>>, r: LoopStep<M>, post: &Self) -> bool {
        &&& r == (match outcome {
            Received::Message(Message::Any(msg)) => LoopStep::Notify(msg),
            Received::Message(Message::Stop) => LoopStep::Shutdown,
            _ => LoopStep::Done,
        })
        &&& *post == (EventLoop { running: self.running && outcome !is Disconnected, ..*self })
    }

    /// This loop is `pre`, and runs or not.
    pub open spec fn set_running(&self, pre: &Self, running: bool) -> bool {
        *self == (EventLoop { running, ..*pre })
    }

    /// `token` is that of the loop's own wake-up call.
    pub open spec fn wakes(token: Token) -> bool {
        token == Token(K_WAKE_TOKEN)
    }

    /// Scheduling a timeout `delay_ms` after the time that `clock` reads, to be repeated every
    /// `interval_ms` unless that is 0, comes to `r` and makes `post` of this loop.
    pub open spec fn schedules(
        &self,
        clock: Result<u64, ClockError>,
        delay_ms: u64,
        interval_ms: u64,
        token: K,
        r: Result<TimerResult, ClockError>,
        post: &Self,
    ) -> bool {
        &&& post.only_timer_changed(self)
        &&& self.timer@.scheduled_by(clock, delay_ms, interval_ms, token, r, post.timer@)
    }

    /// Scheduling a timeout once, `delay_ms` from now, comes to `r` and makes `post` of this
    /// loop.
    pub open spec fn schedules_after(
        &self,
        delay_ms: u64,
        token: K,
        r: Result<TimerResult, ClockError>,
        post: &Self,
    ) -> bool {
        exists|clock: Result<u64, ClockError>| #[trigger] self.schedules(clock, delay_ms, 0, token, r, post)
    }

    /// Scheduling a timeout `delay_ms` from now, to be repeated every `interval_ms`, comes to
    /// `r` and makes `post` of this loop.
    pub open spec fn schedules_every(
        &self,
        delay_ms: u64,
        interval_ms: u64,
        token: K,
        r: Result<TimerResult, ClockError>,
        post: &Self,
    ) -> bool {
        exists|clock: Result<u64, ClockError>| #[trigger] self.schedules(clock, delay_ms, interval_ms, token, r, post)
    }

    /// Scheduling a timeout once, for the time `at_ms`, comes to `r` and makes `post` of this
    /// loop.
    pub open spec fn schedules_at(&self, at_ms: u64, token: K, r: TimerResult, post: &Self) -> bool {
        &&& post.only_timer_changed(self)
        &&& self.timer@.scheduled(self.timer@.tick_for(at_ms as int), 0, token, r, post.timer@)
    }

    /// Cancelling `timeout` comes to `r` and makes `post` of this loop.
    pub open spec fn cancels(&self, timeout: Timeout, r: bool, post: &Self) -> bool {
        &&& post.only_timer_changed(self)
        &&& self.timer@.cancelled(timeout, r, post.timer@)
    }

    /// What to do about what a look into the queue came to. If all notifiers are gone
    /// the loop stops.
    pub fn received(&mut self, outcome: Received<Message<M>>) -> (r: LoopStep<M>)
        requires
            old(self).wf(),
        ensures
            final(self).wf(),
            old(self).takes_in(outcome, r, final(self)),
    {
        match outcome {
            Received::Message(Message::Any(msg)) => LoopStep::Notify(msg),
            Received::Message(Message::Stop) => LoopStep::Shutdown,
            Received::Empty => LoopStep::Done,
            Received::Disconnected => {
                self.shutdown();
                LoopStep::Done
            },
        }
    }

    /// Whether an event is the loop's own wake-up call, which asks for nothing; all
    /// others are handed on.
    pub fn is_wakeup(token: Token) -> (r: bool)
        ensures
            r == Self::wakes(token),
    {
        token.0 == K_WAKE_TOKEN
    }

    /// Lets the loop run.
    pub fn start(&mut self)
        ensures
            final(self).set_running(old(self), true),
    {
        self.running = true;
    }

    /// Makes the loop stop once it has finished its round.
    pub fn shutdown(&mut self)
        ensures
            final(self).set_running(old(self), false),
    {
        self.running = false;
    }

    /// Schedules a timeout `delay_ms` from now.
    pub fn schedule_after(&mut self, delay_ms: u64, token: K) -> (r: Result<TimerResult, ClockError>)
        requires
            old(self).wf(),
        ensures
            final(self).wf(),
            old(self).schedules_after(delay_ms, token, r, final(self)),
    {
        let r = self.timer.timeout_ms(delay_ms, 0, token);
        proof {
            let clock = choose|clock: Result<u64, ClockError>| #[trigger]
                old(self).timer@.scheduled_by(clock, delay_ms, 0, token, r, self.timer@);
            assert(old(self).schedules(clock, delay_ms, 0, token, r, self));
        }
        r
    }

    /// Schedules a timeout for the time `at_ms`.
    pub fn schedule_at(&mut self, at_ms: u64, token: K) -> (r: TimerResult)
        requires
            old(self).wf(),
            old(self).timer@.schedulable(at_ms as int),
        ensures
            final(self).wf(),
            old(self).schedules_at(at_ms, token, r, final(self)),
    {
        self.timer.timeout_ms_at(at_ms, 0, token)
    }

    /// Schedules a timeout `delay_ms` from now, to be repeated every `interval_ms`.
    pub fn schedule_every(&mut self, delay_ms: u64, interval_ms: u64, token: K) -> (r: Result<
        TimerResult,
        ClockError,
    >)
        requires
            old(self).wf(),
        ensures
            final(self).wf(),
            old(self).schedules_every(delay_ms, interval_ms, token, r, final(self)),
    {
        let r = self.timer.timeout_ms(delay_ms, interval_ms, token);
        proof {
            let clock = choose|clock: Result<u64, ClockError>| #[trigger]
                old(self).timer@.scheduled_by(clock, delay_ms, interval_ms, token, r, self.timer@);
            assert(old(self).schedules(clock, delay_ms, interval_ms, token, r, self));
        }
        r
    }

    /// Cancels a timeout, and tells whether it was still scheduled.
    pub fn cancel(&mut self, timeout: Timeout) -> (r: bool)
        requires
            old(self).wf(),
        ensures
            final(self).wf(),
            old(self).cancels(timeout, r, final(self)),
    {
        self.timer.clear(timeout)
    }
}

/// The timer at visit `i` of tick `t` is the next to run out in a walk to `now_tick`, where
/// the clock reads `clock`; `r` says so, and the timer is then `post`. One that repeats
/// is scheduled again, with the same interval and under a clone of its mark, unless the
/// clock does not allow it.
pub open spec fn expires<K: Clone>(
    pre: TimerState<K>,
    now_tick: u64,
    clock: Result<u64, ClockError>,
    t: int,
    i: int,
    r: Result<Expired<K>, ClockError>,
    post: TimerState<K>,
) -> bool {
    let e = pre.entries[pre.visit(t)[i]];
    &&& pre.first_due(now_tick as int, t, i)
    &&& if e.interval == 0 {
        &&& r == Ok::<_, ClockError>(Expired { mark: e.token, repeat: false, timeout: None })
        &&& post == pre.fired(t, i)
    } else {
        exists|again: K, scheduled: Result<TimerResult, ClockError>|
            {
                &&& cloned(e.token, again)
                &&& #[trigger] pre.fired(t, i).scheduled_by(clock, e.interval, e.interval, again, scheduled, post)
                &&& match scheduled {
                    Ok(s) => {
                        &&& s is Ok
                        &&& r == Ok::<_, ClockError>(
                            Expired { mark: e.token, repeat: true, timeout: Some(s->Ok_0) },
                        )
                    },
                    Err(x) => r == Err::<Expired<K>, _>(x),
                }
            }
    }
}

impl<M, K: Clone> EventLoop<M, K> {
    /// Taking the next timer that runs out in a walk to `now_tick`, where the clock reads
    /// `clock`, comes to `r` and makes `post` of this loop.
    pub open spec fn takes_timer(
        &self,
        now_tick: u64,
        clock: Result<u64, ClockError>,
        r: Option<Result<Expired<K>, ClockError>>,
        post: &Self,
    ) -> bool {
        &&& post.only_timer_changed(self)
        &&& match r {
            None => {
                &&& self.timer@.nothing_due(now_tick as int)
                &&& post.timer@ == self.timer@.advanced(now_tick as int)
            },
            Some(x) => exists|t: int, i: int| #[trigger]
                expires(self.timer@, now_tick, clock, t, i, x, post.timer@),
        }
    }

    /// Takes the next timer that runs out in a walk to `now_tick`, where the clock reads
    /// `clock`. One that repeats is scheduled again; there is always room for it,
    /// so this fails only where the clock does not allow it.
    pub fn next_timer_with(&mut self, now_tick: u64, clock: Result<u64, ClockError>) -> (r: Option<
        Result<Expired<K>, ClockError>,
    >)
        requires
            old(self).wf(),
            now_tick < u64::MAX || !old(self).timer@.nothing_due(now_tick as int),
        ensures
            final(self).wf(),
            old(self).takes_timer(now_tick, clock, r, final(self)),
    {
        let ghost st = self.timer@;
        proof {
            self.timer.law_valid();
        }
        match self.timer.tick_to(now_tick) {
            None => None,
            Some((mark, interval)) => {
                let ghost (t, i) = choose|t: int, i: int| #[trigger]
                    st.hands_out(now_tick as int, t, i, mark, interval, self.timer@);
                let ghost mid = self.timer@;
                if interval == 0 {
                    let x = Ok(Expired { mark, repeat: false, timeout: None });
                    assert(expires(st, now_tick, clock, t, i, x, mid));
                    return Some(x);
                }
                let again = mark.clone();
                let scheduled = self.timer.timeout_ms_with(clock, interval, interval, again);
                let ghost outcome = scheduled;
                proof {
                    if outcome is Ok {
                        law_room_to_repeat(
                            st,
                            now_tick as int,
                            t,
                            i,
                            mid.tick_for(clock->Ok_0 + interval),
                            interval,
                            again,
                            outcome->Ok_0,
                            self.timer@,
                        );
                    }
                }
                let x = match scheduled {
                    Ok(Ok(timeout)) => Ok(Expired { mark, repeat: true, timeout: Some(timeout) }),
                    Ok(Err(_)) => Err(ClockError::OutOfRange),
                    Err(e) => Err(e),
                };
                assert(cloned(mark, again) && st.fired(t, i).scheduled_by(
                    clock,
                    interval,
                    interval,
                    again,
                    outcome,
                    self.timer@,
                ));
                assert(expires(st, now_tick, clock, t, i, x, self.timer@));
                Some(x)
            },
        }
    }
}

/// Where in a round an event loop is.
#[derive(Debug, Copy, Clone, PartialEq, Eq, Structural)]
pub enum Phase {
    /// About to poll.
    Poll,
    /// Handing on the messages in the queue.
    Messages,
    /// About to look at the clock.
    Clock,
    /// Handing on the timers that have run out by this tick.
    Timers(u64),
}

/// What an event loop has to do next.
pub enum Task<M, K> {
    /// Poll for this long, in ms, and hand on the events.
    Poll(Option<u64>),
    /// Hand this message on.
    Notify(M),
    /// Shut down in good order.
    Shutdown,
    /// Hand on that this timer has run out.
    Timer(Expired<K>),
    Nothing,
    /// Stop running.
    Stop,
}

impl<M, K: Clone> EventLoop<M, K> {
    /// `r` is the next task and the phase that follows, where the queue is empty or not, a
    /// look into it comes to `looked` and the clock reads `clock`; the loop is then
    /// `post`.
    pub open spec fn goes_on(
        &self,
        phase: Phase,
        queue_empty: bool,
        looked: Received<Message<M>>,
        clock: Result<u64, ClockError>,
        r: Result<(Task<M, K>, Phase), ClockError>,
        post: &Self,
    ) -> bool {
        match phase {
            Phase::Poll => {
                &&& *post == *self
                &&& if self.running {
                    r == (match self.polls_by(queue_empty, clock) {
                        Ok(timeout) => Ok((Task::<M, K>::Poll(timeout), Phase::Messages)),
                        Err(e) => Err(e),
                    })
                } else {
                    r == Ok::<_, ClockError>((Task::<M, K>::Stop, Phase::Poll))
                }
            },
            Phase::Messages => {
                &&& *post == (EventLoop { running: self.running && looked !is Disconnected, ..*self })
                &&& r == Ok::<_, ClockError>(
                    match looked {
                        Received::Message(Message::Any(msg)) => (Task::<M, K>::Notify(msg), Phase::Messages),
                        Received::Message(Message::Stop) => (Task::Shutdown, Phase::Clock),
                        _ => (Task::Nothing, Phase::Clock),
                    },
                )
            },
            Phase::Clock => {
                &&& *post == *self
                &&& r == (match self.timer@.tick_at(clock) {
                    Ok(now_tick) => if now_tick < u64::MAX {
                        Ok((Task::<M, K>::Nothing, Phase::Timers(now_tick)))
                    } else {
                        Err(ClockError::OutOfRange)
                    },
                    Err(e) => Err(e),
                })
            },
            Phase::Timers(now_tick) => {
                &&& post.only_timer_changed(self)
                &&& if self.timer@.nothing_due(now_tick as int) {
                    &&& r == Ok::<_, ClockError>((Task::<M, K>::Nothing, Phase::Poll))
                    &&& post.timer@ == self.timer@.advanced(now_tick as int)
                } else {
                    exists|t: int, i: int, x: Result<Expired<K>, ClockError>|
                        {
                            &&& #[trigger] expires(self.timer@, now_tick, clock, t, i, x, post.timer@)
                            &&& r == (match x {
                                Ok(expired) => Ok((Task::<M, K>::Timer(expired), phase)),
                                Err(e) => Err(e),
                            })
                        }
                }
            },
        }
    }

    /// What to do next, and the phase that follows, where the queue is empty or not, a look
    /// into it comes to `looked` and the clock reads `clock`. In each round the loop
    /// polls, hands on messages until none is left or it is told to stop, and then
    /// hands on the timers that have run out.
    pub fn next_task_with(
        &mut self,
        phase: Phase,
        queue_empty: bool,
        looked: Received<Message<M>>,
        clock: Result<u64, ClockError>,
    ) -> (r: Result<(Task<M, K>, Phase), ClockError>)
        requires
            old(self).wf(),
            phase matches Phase::Timers(now_tick) ==> now_tick < u64::MAX,
        ensures
            final(self).wf(),
            old(self).goes_on(phase, queue_empty, looked, clock, r, final(self)),
            r matches Ok((_, Phase::Timers(now_tick))) ==> now_tick < u64::MAX,
    {
        match phase {
            Phase::Poll => {
                if !self.running {
                    return Ok((Task::Stop, Phase::Poll));
                }
                match self.timer.next_tick_in_ms_with(clock) {
                    Ok(next_tick) => Ok(
                        (Task::Poll(self.poll_timeout_with(queue_empty, next_tick)), Phase::Messages),
                    ),
                    Err(e) => Err(e),
                }
            },
            Phase::Messages => Ok(
                match self.received(looked) {
                    LoopStep::Notify(msg) => (Task::Notify(msg), Phase::Messages),
                    LoopStep::Shutdown => (Task::Shutdown, Phase::Clock),
                    LoopStep::Done => (Task::Nothing, Phase::Clock),
                },
            ),
            Phase::Clock => match self.timer.now_tick_with(clock) {
                Ok(now_tick) => if now_tick < u64::MAX {
                    Ok((Task::Nothing, Phase::Timers(now_tick)))
                } else {
                    Err(ClockError::OutOfRange)
                },
                Err(e) => Err(e),
            },
            Phase::Timers(now_tick) => match self.next_timer_with(now_tick, clock) {
                None => Ok((Task::Nothing, Phase::Poll)),
                Some(x) => {
                    let ghost st = old(self).timer@;
                    proof {
                        let (t, i) = choose|t: int, i: int| #[trigger]
                            expires(st, now_tick, clock, t, i, x, self.timer@);
                        assert(st.due(t, i));
                    }
                    match x {
                        Ok(expired) => Ok((Task::Timer(expired), phase)),
                        Err(e) => Err(e),
                    }
                },
            },
        }
    }

    /// What to do next, and the phase that follows.
    pub fn next_task(&mut self, phase: Phase) -> (r: Result<(Task<M, K>, Phase), ClockError>)
        requires
            old(self).wf(),
            phase matches Phase::Timers(now_tick) ==> now_tick < u64::MAX,
        ensures
            final(self).wf(),
            exists|queue_empty: bool, looked: Received<Message<M>>, clock: Result<u64, ClockError>| #[trigger]
                old(self).goes_on(phase, queue_empty, looked, clock, r, final(self)),
            r matches Ok((_, Phase::Timers(now_tick))) ==> now_tick < u64::MAX,
    {
        let looked = match phase {
            Phase::Messages => try_recv(&self.rx),
            _ => Received::Empty,
        };
        let queue_empty = is_empty(&self.rx);
        let clock = now_ms();
        self.next_task_with(phase, queue_empty, looked, clock)
    }
}

/// Notifies an event loop.
#[verifier::reject_recursive_types(M)]
pub struct Notifier<M> {
    tx: Tx<Message<M>>,
}

impl<M> Notifier<M> {
    /// The queue that messages go into.
    pub closed spec fn queue(&self) -> int {
        self.tx.queue()
    }

    /// Messages go into the queue that `other` puts them into.
    pub open spec fn notifies_like(&self, other: &Self) -> bool {
        self.queue() == other.queue()
    }

    /// Notifying the loop with `msg` comes to `r`: the message was put into the queue, or it
    /// comes back.
    pub open spec fn notified(&self, msg: M, r: Result<Posted<Message<M>>, M>) -> bool {
        match r {
            Ok(p) => p.queue() == self.queue() && p.message() == Message::Any(msg),
            Err(m) => m == msg,
        }
    }

    /// Asking the loop to shut down comes to `r`: that was put into the queue, or there is
    /// nothing.
    pub open spec fn told_to_stop(&self, r: Option<Posted<Message<M>>>) -> bool {
        r matches Some(p) ==> p.queue() == self.queue() && p.message() == Message::<M>::Stop
    }

    /// What notifying comes to, where sending the message came to `sent`.
    pub open spec fn outcome<P>(sent: Result<P, Message<M>>) -> Result<P, M> {
        match sent {
            Ok(p) => Ok(p),
            Err(m) => Err(m->Any_0),
        }
    }

    /// What asking to shut down comes to, where sending that came to `sent`.
    pub open spec fn receipt<P>(sent: Result<P, Message<M>>) -> Option<P> {
        match sent {
            Ok(p) => Some(p),
            Err(_) => None,
        }
    }

    /// Another notifier of the same loop.
    pub fn another(&self) -> (r: Self)
        ensures
            r.notifies_like(self),
    {
        Notifier { tx: clone_sender(&self.tx) }
    }

    /// What notifying the loop comes to, where sending the message came to `sent`: one that
    /// was not sent comes back.
    pub fn notify_with<P>(sent: Result<P, Message<M>>) -> (r: Result<P, M>)
        requires
            sent matches Err(m) ==> m is Any,
        ensures
            r == Self::outcome(sent),
    {
        match sent {
            Ok(p) => Ok(p),
            Err(Message::Any(msg)) => Err(msg),
            Err(Message::Stop) => vstd::pervasive::unreached(),
        }
    }

    /// Puts a message for the loop into its queue; it comes back if the loop is gone.
    /// Whether it is gone depends on other threads.
    pub fn notify(&self, msg: M) -> (r: Result<Posted<Message<M>>, M>)
        ensures
            self.notified(msg, r),
    {
        let sent = send(&self.tx, Message::Any(msg));
        Self::notify_with(sent)
    }

    /// What asking the loop to shut down comes to, where sending it that came to `sent`:
    /// nothing if it was not sent.
    pub fn dead_letter_with<P>(sent: Result<P, Message<M>>) -> (r: Option<P>)
        ensures
            r == Self::receipt(sent),
    {
        match sent {
            Ok(p) => Some(p),
            Err(_) => None,
        }
    }

    /// Asks the loop to shut down in good order, by putting that into its queue; there is
    /// nothing if the loop is gone, which depends on other threads.
    pub fn dead_letter(&self) -> (r: Option<Posted<Message<M>>>)
        ensures
            self.told_to_stop(r),
    {
        let sent = send(&self.tx, Message::Stop);
        Self::dead_letter_with(sent)
    }
}

} // verus!
