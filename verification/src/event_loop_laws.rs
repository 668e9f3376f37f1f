//! What holds of event loops as a whole.
use crate::event_loop::{
    expires, EventLoop, EventLoopConfig, Expired, LoopStep, Message, Notifier, Phase, Task, K_WAKE_TOKEN,
};
use crate::queue::{Posted, Received};
use crate::readiness::Token;
use crate::timer::{ClockError, Timeout, TimerEntry, TimerResult, TimerState};
use crate::timer_laws::{
    law_asks_for_next_tick, law_asks_if_scheduled, law_cancel, law_fires_in_order, law_first_tick_in_time, law_fresh,
    law_fits, law_nothing_left_behind, law_schedule, law_schedule_for_tick, law_tick_of_time, lemma_visit,
};
use vstd::pervasive::cloned;
use vstd::prelude::*;

verus! {

/// A loop never polls past the next tick of its timer, nor longer than it was told to, and
/// not at all while a message waits.
pub proof fn law_poll_in_time<M, K>(el: &EventLoop<M, K>, queue_empty: bool, next_tick: Option<u64>)
    ensures
        next_tick matches Some(ms) ==> (el.polls_for(queue_empty, next_tick) matches Some(t) && t <= ms),
        !queue_empty ==> el.polls_for(queue_empty, next_tick) == Some(0u64),
        queue_empty ==> (el.config.poll_timeout matches Some(p) ==> (el.polls_for(queue_empty, next_tick) matches Some(
            t,
        ) && t <= p)),
        el.polls_for(queue_empty, next_tick) is None <==> queue_empty && el.config.poll_timeout is None && next_tick
            is None,
{
}

/// A repeating timer that has run out is scheduled again for a time that its interval has
/// passed by, under the timeout that is reported, and with the same interval: the next
/// time that it runs out it repeats again.
pub proof fn law_repeats_for_ever<K: Clone>(
    pre: TimerState<K>,
    now_tick: u64,
    now: u64,
    t: int,
    i: int,
    x: Expired<K>,
    post: TimerState<K>,
)
    requires
        expires(pre, now_tick, Ok(now), t, i, Ok(x), post),
        x.repeat,
    ensures
        x.timeout matches Some(timeout) && {
            &&& post.entries.contains_key(timeout.key)
            &&& post.entries[timeout.key].interval == pre.entries[pre.visit(t)[i]].interval
            &&& post.entries[timeout.key].interval > 0
            &&& post.entries[timeout.key].tick == timeout.tick
            &&& post.start_ms + timeout.tick * post.tick_ms >= now + pre.entries[pre.visit(t)[i]].interval
        },
{
    let e = pre.entries[pre.visit(t)[i]];
    let f = pre.fired(t, i);
    let timeout = x.timeout->Some_0;
    let at = now + e.interval;
    let d = f.tick_ms as int;
    let y = at - f.start_ms;
    let q = (y + d - 1) / d;
    if f.schedulable(at) {
        assert(q * d >= y) by (nonlinear_arith)
            requires
                d > 0,
                q == (y + d - 1) / d,
        ;
        assert(timeout.tick * d >= q * d) by (nonlinear_arith)
            requires
                timeout.tick >= q,
                d > 0,
        ;
    }
}

/// A timer that does not repeat is gone once it has run out.
pub proof fn law_runs_out_once<K: Clone>(
    pre: TimerState<K>,
    now_tick: u64,
    clock: Result<u64, ClockError>,
    t: int,
    i: int,
    x: Expired<K>,
    post: TimerState<K>,
)
    requires
        expires(pre, now_tick, clock, t, i, Ok(x), post),
        !x.repeat,
    ensures
        post.entries == pre.entries.remove(pre.visit(t)[i]),
        pre.entries[pre.visit(t)[i]].tick <= now_tick,
{
}

/// A round has one order: messages come after polling, timers after messages, and polling
/// after timers. A loop that was shut down stops instead of polling.
pub proof fn law_round_order<M, K: Clone>(
    pre: &EventLoop<M, K>,
    phase: Phase,
    queue_empty: bool,
    looked: Received<Message<M>>,
    clock: Result<u64, ClockError>,
    task: Task<M, K>,
    next: Phase,
    post: &EventLoop<M, K>,
)
    requires
        pre.goes_on(phase, queue_empty, looked, clock, Ok((task, next)), post),
    ensures
        match phase {
            Phase::Poll => if pre.running {
                task is Poll && next == Phase::Messages
            } else {
                task is Stop && next == Phase::Poll
            },
            Phase::Messages => task is Notify && next == Phase::Messages || (task is Shutdown || task is Nothing)
                && next == Phase::Clock,
            Phase::Clock => task is Nothing && next is Timers,
            Phase::Timers(_) => task is Timer && next == phase || task is Nothing && next == Phase::Poll,
        },
        task is Stop ==> !pre.running,
        post.running ==> pre.running,
{
}

/// One step of a running loop, and whether whatever was handed on shut the loop down.
#[verifier::reject_recursive_types(M)]
pub struct RunStep<M, K> {
    pub before: EventLoop<M, K>,
    pub phase: Phase,
    pub queue_empty: bool,
    pub looked: Received<Message<M>>,
    pub clock: Result<u64, ClockError>,
    pub task: Task<M, K>,
    pub next: Phase,
    pub after: EventLoop<M, K>,
    pub shut_down: bool,
}

impl<M, K: Clone> RunStep<M, K> {
    /// The loop takes this step.
    pub open spec fn is_taken(self) -> bool {
        self.before.goes_on(
            self.phase,
            self.queue_empty,
            self.looked,
            self.clock,
            Ok((self.task, self.next)),
            &self.after,
        )
    }

    /// In this step the loop was shut down, or its queue was found to be empty with every
    /// notifier gone.
    pub open spec fn ends_run(self) -> bool {
        self.shut_down || self.phase == Phase::Messages && self.looked is Disconnected
    }
}

/// `steps` are those of a loop that was started. Between two steps, what was handed on may
/// change the loop, but it makes it stop only by shutting it down.
pub open spec fn is_run<M, K: Clone>(steps: Seq<RunStep<M, K>>) -> bool {
    &&& steps.len() > 0
    &&& steps[0].phase == Phase::Poll
    &&& steps[0].before.running
    &&& forall|i: int| 0 <= i < steps.len() ==> (#[trigger] steps[i]).is_taken()
    &&& forall|i: int| 0 < i < steps.len() ==> #[trigger] follows(steps, i)
}

/// Step `i` takes up where the one before left off.
pub open spec fn follows<M, K: Clone>(steps: Seq<RunStep<M, K>>, i: int) -> bool {
    &&& steps[i].phase == steps[i - 1].next
    &&& steps[i].before.running == (steps[i - 1].after.running && !steps[i - 1].shut_down)
}

/// A loop runs until it is shut down or its queue is found to be empty with every notifier
/// gone, and no longer: before step `n` it runs if and only if neither has happened.
/// So it stops only after one of them, and after one of them it stops as soon as it
/// would poll again.
pub proof fn law_run_ends_when_told<M, K: Clone>(steps: Seq<RunStep<M, K>>, n: int)
    requires
        is_run(steps),
        0 <= n < steps.len(),
    ensures
        steps[n].before.running <==> forall|i: int| 0 <= i < n ==> !(#[trigger] steps[i]).ends_run(),
        steps[n].task is Stop ==> exists|i: int| 0 <= i < n && (#[trigger] steps[i]).ends_run(),
        steps[n].phase == Phase::Poll && (exists|i: int| 0 <= i < n && (#[trigger] steps[i]).ends_run())
            ==> steps[n].task is Stop,
    decreases n,
{
    assert(steps[n].is_taken());
    if n > 0 {
        law_run_ends_when_told(steps, n - 1);
        assert(steps[n - 1].is_taken());
        assert(follows(steps, n));
        if steps[n - 1].ends_run() {
            assert(!steps[n].before.running);
        }
    }
}

/// A loop polls for the shortest of the times that bound it, no longer and no shorter: not
/// at all while a message waits, and else until the next tick or for as long as it was
/// told to, whichever comes first.
pub proof fn law_polls_as_long_as_it_may<M, K>(el: &EventLoop<M, K>, queue_empty: bool, next_tick: Option<u64>)
    ensures
        match el.polls_for(queue_empty, next_tick) {
            Some(t) => {
                ||| !queue_empty && t == 0
                ||| queue_empty && el.config.poll_timeout == Some(t) && (next_tick matches Some(ms) ==> t <= ms)
                ||| queue_empty && (next_tick matches Some(ms) && (t == ms || t == usize::MAX && t < ms))
            },
            None => queue_empty && el.config.poll_timeout is None && next_tick is None,
        },
{
}

/// A running loop that is about to poll polls, and then looks at its queue. It never polls
/// past the next tick of its timer while anything is scheduled, so that no timer runs late
/// for it; nor longer than it was told to, nor at all while a message waits; and it does
/// not wake up before it has to. A loop that does not run stops. Nothing changes.
pub proof fn law_polls_until_next_tick<M, K: Clone>(
    pre: &EventLoop<M, K>,
    queue_empty: bool,
    looked: Received<Message<M>>,
    now: u64,
    r: Result<(Task<M, K>, Phase), ClockError>,
    post: &EventLoop<M, K>,
)
    requires
        pre.wf(),
        pre.goes_on(Phase::Poll, queue_empty, looked, Ok(now), r, post),
    ensures
        *post == *pre,
        !pre.running ==> r == Ok::<_, ClockError>((Task::<M, K>::Stop, Phase::Poll)),
        pre.running ==> match r {
            Ok((task, next)) => {
                let tick_at = pre.timer@.start_ms + (pre.timer@.tick + 1) * pre.timer@.tick_ms;
                let scheduled = pre.timer@.entries != Map::<usize, TimerEntry<K>>::empty();
                &&& next == Phase::Messages
                &&& task is Poll
                &&& match task->Poll_0 {
                    Some(ms) => {
                        &&& scheduled && now < tick_at ==> now + ms <= tick_at
                        &&& scheduled && now >= tick_at ==> ms == 0
                        &&& !queue_empty ==> ms == 0
                        &&& queue_empty && pre.config.poll_timeout is Some ==> ms <= pre.config.poll_timeout->Some_0
                        &&& !queue_empty || pre.config.poll_timeout == Some(ms) || scheduled && (now + ms >= tick_at
                            || ms == usize::MAX)
                    },
                    None => queue_empty && pre.config.poll_timeout is None && !scheduled,
                }
            },
            Err(e) => e is OutOfRange && pre.timer@.start_ms + (pre.timer@.tick + 1) * pre.timer@.tick_ms > u64::MAX,
        },
{
    let s = pre.timer@;
    pre.timer.law_valid();
    law_asks_if_scheduled(s, Ok(now));
    if pre.running {
        match s.next_tick_in(Ok(now)) {
            Ok(next) => {
                law_polls_as_long_as_it_may(pre, queue_empty, next);
                law_poll_in_time(pre, queue_empty, next);
                if let Some(ms) = next {
                    law_asks_for_next_tick(s, now, ms);
                }
            },
            Err(_) => {},
        }
    }
}

/// Without a clock that can be read, a loop polls only where nothing is scheduled, and then
/// for as long as it was told to, or not at all while a message waits; otherwise it fails
/// for want of the clock.
pub proof fn law_polls_without_clock<M, K: Clone>(
    pre: &EventLoop<M, K>,
    queue_empty: bool,
    looked: Received<Message<M>>,
    e: ClockError,
    r: Result<(Task<M, K>, Phase), ClockError>,
    post: &EventLoop<M, K>,
)
    requires
        pre.wf(),
        pre.running,
        pre.goes_on(Phase::Poll, queue_empty, looked, Err(e), r, post),
    ensures
        *post == *pre,
        pre.timer@.entries == Map::<usize, TimerEntry<K>>::empty() ==> r == Ok::<_, ClockError>(
            (
                Task::<M, K>::Poll(
                    if queue_empty {
                        pre.config.poll_timeout
                    } else {
                        Some(0)
                    },
                ),
                Phase::Messages,
            ),
        ),
        pre.timer@.entries != Map::<usize, TimerEntry<K>>::empty() ==> r == Err::<(Task<M, K>, Phase), _>(e),
{
    pre.timer.law_valid();
    law_asks_if_scheduled(pre.timer@, Err(e));
}

/// Every message that is taken off the queue is handed on, and the queue is looked at
/// again; one that asks to stop leads to a shutdown; and only an empty queue ends the
/// looking otherwise. All this holds whatever the state of the loop and its timer, and
/// changes nothing, but that a loop whose notifiers are all gone stops running.
pub proof fn law_messages_are_handed_on<M, K: Clone>(
    pre: &EventLoop<M, K>,
    queue_empty: bool,
    looked: Received<Message<M>>,
    clock: Result<u64, ClockError>,
    r: Result<(Task<M, K>, Phase), ClockError>,
    post: &EventLoop<M, K>,
)
    requires
        pre.goes_on(Phase::Messages, queue_empty, looked, clock, r, post),
    ensures
        r matches Ok((task, next)) && {
            &&& task is Notify <==> (looked matches Received::Message(m) && m is Any)
            &&& task is Shutdown <==> (looked matches Received::Message(m) && m is Stop)
            &&& task is Nothing <==> looked !is Message
            &&& looked matches Received::Message(Message::Any(msg)) ==> task == Task::<M, K>::Notify(msg)
            &&& next == (if task is Notify {
                Phase::Messages
            } else {
                Phase::Clock
            })
        },
        post.running <==> pre.running && looked !is Disconnected,
        *post == (EventLoop { running: post.running, ..*pre }),
{
}

/// What a look into the queue leads to.
pub proof fn law_takes_in<M, K>(
    pre: &EventLoop<M, K>,
    outcome: Received<Message<M>>,
    r: LoopStep<M>,
    post: &EventLoop<M, K>,
)
    requires
        pre.takes_in(outcome, r, post),
    ensures
        r is Notify <==> (outcome matches Received::Message(m) && m is Any),
        r is Shutdown <==> (outcome matches Received::Message(m) && m is Stop),
        outcome matches Received::Message(Message::Any(msg)) ==> r->Notify_0 == msg,
        post.running <==> pre.running && outcome !is Disconnected,
        *post == (EventLoop { running: post.running, ..*pre }),
{
}

/// The messages that the first `n` of `steps` took off the queue, in order.
pub open spec fn taken_off<M, K: Clone>(steps: Seq<RunStep<M, K>>, n: nat) -> Seq<M>
    decreases n,
{
    if n == 0 {
        Seq::empty()
    } else {
        let before = taken_off(steps, (n - 1) as nat);
        match (steps[n - 1].phase, steps[n - 1].looked) {
            (Phase::Messages, Received::Message(Message::Any(msg))) => before.push(msg),
            _ => before,
        }
    }
}

/// The messages that the first `n` of `steps` handed on, in order.
pub open spec fn handed_on<M, K: Clone>(steps: Seq<RunStep<M, K>>, n: nat) -> Seq<M>
    decreases n,
{
    if n == 0 {
        Seq::empty()
    } else {
        let before = handed_on(steps, (n - 1) as nat);
        match steps[n - 1].task {
            Task::Notify(msg) => before.push(msg),
            _ => before,
        }
    }
}

/// Over a run, the messages that are handed on are those that are taken off the queue, in
/// the same order: none is lost, made up or handed on twice.
pub proof fn law_run_hands_on_all_messages<M, K: Clone>(steps: Seq<RunStep<M, K>>, n: nat)
    requires
        is_run(steps),
        n <= steps.len(),
    ensures
        handed_on(steps, n) == taken_off(steps, n),
    decreases n,
{
    if n > 0 {
        law_run_hands_on_all_messages(steps, (n - 1) as nat);
        let s = steps[n - 1];
        assert(s.is_taken());
        law_round_order(&s.before, s.phase, s.queue_empty, s.looked, s.clock, s.task, s.next, &s.after);
        if s.phase == Phase::Messages {
            law_messages_are_handed_on(&s.before, s.queue_empty, s.looked, s.clock, Ok((s.task, s.next)), &s.after);
        }
    }
}

/// After the messages, the loop looks at the clock and goes on to the timers of the tick
/// that the time falls into: that tick has begun, and the next one has not. It fails only
/// where the time is before the timer's start or beyond all ticks, and changes nothing.
pub proof fn law_clock_is_read<M, K: Clone>(
    pre: &EventLoop<M, K>,
    queue_empty: bool,
    looked: Received<Message<M>>,
    clock: Result<u64, ClockError>,
    r: Result<(Task<M, K>, Phase), ClockError>,
    post: &EventLoop<M, K>,
)
    requires
        pre.wf(),
        pre.goes_on(Phase::Clock, queue_empty, looked, clock, r, post),
    ensures
        *post == *pre,
        match r {
            Ok((task, next)) => {
                &&& task is Nothing
                &&& clock is Ok
                &&& next matches Phase::Timers(tick) && pre.timer@.start_ms + tick * pre.timer@.tick_ms <= clock->Ok_0
                    < pre.timer@.start_ms + (tick + 1) * pre.timer@.tick_ms
            },
            Err(e) => match clock {
                Ok(now) => e is OutOfRange && (now < pre.timer@.start_ms || now == u64::MAX),
                Err(f) => e == f,
            },
        },
{
    law_tick_of_time(pre.timer@, clock);
    if let Ok(now) = clock {
        if let Ok(tick) = pre.timer@.tick_at(clock) {
            let d = pre.timer@.tick_ms as int;
            assert(tick * d >= tick) by (nonlinear_arith)
                requires
                    d >= 1,
                    tick >= 0,
            ;
        }
    }
}

/// The entry under that key has run out and is reported as `x`: with its mark, and as
/// repeating if it has an interval. One that does not repeat is gone. One that does is
/// scheduled again, under a clone of its mark, with its interval, and for the first tick in
/// time once that has passed; `x` says for what timeout. No other entry changes.
pub open spec fn has_run_out<K: Clone>(
    pre: TimerState<K>,
    key: usize,
    clock: Result<u64, ClockError>,
    x: Expired<K>,
    post: TimerState<K>,
) -> bool {
    let e = pre.entries[key];
    let rest = pre.entries.remove(key);
    &&& x.mark == e.token
    &&& x.repeat <==> e.interval > 0
    &&& x.timeout is Some <==> e.interval > 0
    &&& e.interval == 0 ==> post.entries == rest
    &&& e.interval > 0 ==> {
        let timeout = x.timeout->Some_0;
        let again = post.entries[timeout.key];
        &&& clock is Ok
        &&& !rest.contains_key(timeout.key)
        &&& post.entries == rest.insert(timeout.key, again)
        &&& cloned(e.token, again.token)
        &&& again.interval == e.interval
        &&& again.tick == timeout.tick
        &&& pre.start_ms + timeout.tick * pre.tick_ms >= clock->Ok_0 + e.interval
        &&& pre.start_ms + (timeout.tick - 1) * pre.tick_ms < clock->Ok_0 + e.interval || timeout.tick - 1
            <= post.tick
    }
}

/// The entry under that key repeats, but the clock cannot be read or does not allow to
/// schedule it again, as `e` says.
pub open spec fn cannot_repeat<K>(
    s: TimerState<K>,
    key: usize,
    clock: Result<u64, ClockError>,
    e: ClockError,
) -> bool {
    let interval = s.entries[key].interval;
    &&& interval > 0
    &&& match clock {
        Ok(now) => {
            let at = now + interval;
            e is OutOfRange && (at < s.start_ms || at > u64::MAX || at - s.start_ms + s.tick_ms > u64::MAX)
        },
        Err(f) => e == f,
    }
}

/// A timer that runs out is reported with the mark that it was scheduled with, and as
/// repeating exactly if it was scheduled with an interval: then it is scheduled again, with
/// the same interval, and else it is gone. This fails only where it repeats and the clock
/// does not allow that. It is never reported before its tick.
pub proof fn law_runs_out<K: Clone>(
    pre: TimerState<K>,
    now_tick: u64,
    clock: Result<u64, ClockError>,
    t: int,
    i: int,
    r: Result<Expired<K>, ClockError>,
    post: TimerState<K>,
)
    requires
        pre.tick_ms > 0,
        expires(pre, now_tick, clock, t, i, r, post),
    ensures
        pre.entries[pre.visit(t)[i]].tick <= now_tick,
        match r {
            Ok(x) => has_run_out(pre, pre.visit(t)[i], clock, x, post),
            Err(e) => {
                &&& cannot_repeat(pre, pre.visit(t)[i], clock, e)
                &&& post.entries == pre.entries.remove(pre.visit(t)[i])
            },
        },
{
    let key = pre.visit(t)[i];
    let e = pre.entries[key];
    let f = pre.fired(t, i);
    if e.interval > 0 {
        let (again, s) = choose|again: K, s: Result<TimerResult, ClockError>|
            {
                &&& cloned(e.token, again)
                &&& #[trigger] f.scheduled_by(clock, e.interval, e.interval, again, s, post)
                &&& match s {
                    Ok(s) => {
                        &&& s is Ok
                        &&& r == Ok::<_, ClockError>(
                            Expired { mark: e.token, repeat: true, timeout: Some(s->Ok_0) },
                        )
                    },
                    Err(x) => r == Err::<Expired<K>, _>(x),
                }
            };
        law_schedule(f, clock, e.interval, e.interval, again, s, post);
        if let Ok(Ok(timeout)) = s {
            assert(post.entries =~= pre.entries.remove(key).insert(timeout.key, post.entries[timeout.key]));
        }
    }
}

/// The loop hands on the timers that have run out, those of earlier ticks first, until none
/// is left; then it polls again. It hands on none before its tick. (This is for a timer
/// that is on time, as timers always are.)
pub proof fn law_timers_are_handed_on<M, K: Clone>(
    pre: &EventLoop<M, K>,
    now_tick: u64,
    queue_empty: bool,
    looked: Received<Message<M>>,
    clock: Result<u64, ClockError>,
    r: Result<(Task<M, K>, Phase), ClockError>,
    post: &EventLoop<M, K>,
)
    requires
        pre.wf(),
        pre.timer@.on_time(),
        pre.goes_on(Phase::Timers(now_tick), queue_empty, looked, clock, r, post),
    ensures
        *post == (EventLoop { timer: post.timer, ..*pre }),
        (exists|k: usize| #[trigger] pre.timer@.entries.contains_key(k) && pre.timer@.entries[k].tick <= now_tick) <==> !(
        r matches Ok((task, next)) && task is Nothing),
        match r {
            Ok((Task::Timer(x), next)) => {
                &&& next == Phase::Timers(now_tick)
                &&& exists|key: usize|
                    {
                        let e = pre.timer@.entries[key];
                        &&& #[trigger] pre.timer@.entries.contains_key(key)
                        &&& e.tick <= now_tick
                        &&& forall|k: usize| #[trigger]
                            pre.timer@.entries.contains_key(k) ==> pre.timer@.entries[k].tick >= e.tick
                        &&& has_run_out(pre.timer@, key, clock, x, post.timer@)
                    }
            },
            Ok((task, next)) => {
                &&& task is Nothing
                &&& next == Phase::Poll
                &&& post.timer@.entries == pre.timer@.entries
            },
            Err(x) => exists|key: usize|
                {
                    &&& #[trigger] pre.timer@.entries.contains_key(key)
                    &&& pre.timer@.entries[key].tick <= now_tick
                    &&& cannot_repeat(pre.timer@, key, clock, x)
                },
        },
{
    let s = pre.timer@;
    pre.timer.law_valid();
    if s.nothing_due(now_tick as int) {
        law_nothing_left_behind(s, now_tick as int);
    } else {
        let (t, i, x) = choose|t: int, i: int, x: Result<Expired<K>, ClockError>|
            {
                &&& #[trigger] expires(s, now_tick, clock, t, i, x, post.timer@)
                &&& r == (match x {
                    Ok(expired) => Ok((Task::<M, K>::Timer(expired), Phase::Timers(now_tick))),
                    Err(e) => Err(e),
                })
            };
        law_runs_out(s, now_tick, clock, t, i, x, post.timer@);
        law_fires_in_order(s, now_tick as int, t, i);
        lemma_visit(s, t, i);
        let key = s.visit(t)[i];
        assert(s.entries.contains_key(key) && s.entries[key].tick <= now_tick);
    }
}

/// Taking the next timer takes the first that has come due, and there is none exactly if
/// none has. (This is for a timer that is on time, as timers always are.)
pub proof fn law_takes_timer<M, K: Clone>(
    pre: &EventLoop<M, K>,
    now_tick: u64,
    clock: Result<u64, ClockError>,
    r: Option<Result<Expired<K>, ClockError>>,
    post: &EventLoop<M, K>,
)
    requires
        pre.wf(),
        pre.timer@.on_time(),
        pre.takes_timer(now_tick, clock, r, post),
    ensures
        *post == (EventLoop { timer: post.timer, ..*pre }),
        r is None <==> forall|k: usize| #[trigger]
            pre.timer@.entries.contains_key(k) ==> pre.timer@.entries[k].tick > now_tick,
        r is None ==> post.timer@.entries == pre.timer@.entries,
        r matches Some(Ok(x)) ==> exists|key: usize|
            {
                let e = pre.timer@.entries[key];
                &&& #[trigger] pre.timer@.entries.contains_key(key)
                &&& e.tick <= now_tick
                &&& forall|k: usize| #[trigger]
                    pre.timer@.entries.contains_key(k) ==> pre.timer@.entries[k].tick >= e.tick
                &&& has_run_out(pre.timer@, key, clock, x, post.timer@)
            },
        r matches Some(Err(x)) ==> exists|key: usize|
            {
                &&& #[trigger] pre.timer@.entries.contains_key(key)
                &&& pre.timer@.entries[key].tick <= now_tick
                &&& cannot_repeat(pre.timer@, key, clock, x)
            },
{
    let s = pre.timer@;
    pre.timer.law_valid();
    match r {
        None => {
            law_nothing_left_behind(s, now_tick as int);
        },
        Some(x) => {
            let (t, i) = choose|t: int, i: int| #[trigger] expires(s, now_tick, clock, t, i, x, post.timer@);
            law_runs_out(s, now_tick, clock, t, i, x, post.timer@);
            law_fires_in_order(s, now_tick as int, t, i);
            lemma_visit(s, t, i);
            assert(s.entries.contains_key(s.visit(t)[i]));
        },
    }
}

/// Starting a loop makes it run, shutting it down makes it stop, and neither changes
/// anything else.
pub proof fn law_start_and_shutdown<M, K>(pre: &EventLoop<M, K>, started: &EventLoop<M, K>, stopped: &EventLoop<M, K>)
    requires
        started.set_running(pre, true),
        stopped.set_running(pre, false),
    ensures
        started.running,
        !stopped.running,
        *started == (EventLoop { running: started.running, ..*pre }),
        *stopped == (EventLoop { running: stopped.running, ..*pre }),
{
}

/// Only the loop's own token wakes it up; events under all others are handed on.
pub proof fn law_wakeup<M, K>(token: Token)
    ensures
        EventLoop::<M, K>::wakes(token) <==> token.0 == usize::MAX,
        K_WAKE_TOKEN == usize::MAX,
{
}

/// What a loop schedules once is in its timer with no interval, and what it schedules to be
/// repeated with the interval that was asked for, under the mark that was given and for
/// the first tick in time; nothing but the timer changes.
pub proof fn law_loop_schedules<M, K>(
    pre: &EventLoop<M, K>,
    delay: u64,
    interval: u64,
    token: K,
    timeout: Timeout,
    once: &EventLoop<M, K>,
    every: &EventLoop<M, K>,
)
    requires
        pre.wf(),
        pre.schedules_after(delay, token, Ok(Ok(timeout)), once),
        pre.schedules_every(delay, interval, token, Ok(Ok(timeout)), every),
    ensures
        once.timer@.entries == pre.timer@.entries.insert(
            timeout.key,
            TimerEntry { token, interval: 0, tick: timeout.tick },
        ),
        every.timer@.entries == pre.timer@.entries.insert(
            timeout.key,
            TimerEntry { token, interval, tick: timeout.tick },
        ),
        !pre.timer@.entries.contains_key(timeout.key),
        *once == (EventLoop { timer: once.timer, ..*pre }),
        *every == (EventLoop { timer: every.timer, ..*pre }),
        exists|now: u64|
            {
                let at = #[trigger] (now + delay);
                let s = pre.timer@;
                &&& s.start_ms + timeout.tick * s.tick_ms >= at
                &&& s.start_ms + (timeout.tick - 1) * s.tick_ms < at || timeout.tick - 1 <= s.tick
            },
{
    let a = choose|clock: Result<u64, ClockError>| #[trigger]
        pre.schedules(clock, delay, 0, token, Ok(Ok(timeout)), once);
    let b = choose|clock: Result<u64, ClockError>| #[trigger]
        pre.schedules(clock, delay, interval, token, Ok(Ok(timeout)), every);
    law_schedule(pre.timer@, a, delay, 0, token, Ok(Ok(timeout)), once.timer@);
    law_schedule(pre.timer@, b, delay, interval, token, Ok(Ok(timeout)), every.timer@);
    let now = a->Ok_0;
    assert(pre.timer@.start_ms + timeout.tick * pre.timer@.tick_ms >= now + delay);
}

/// What a loop schedules is scheduled where the clock reads a time that fits, unless its
/// timer is full; where it is not, nothing changes.
pub proof fn law_loop_refuses<M, K>(
    pre: &EventLoop<M, K>,
    clock: Result<u64, ClockError>,
    delay: u64,
    interval: u64,
    token: K,
    r: Result<TimerResult, ClockError>,
    post: &EventLoop<M, K>,
)
    requires
        pre.wf(),
        pre.schedules(clock, delay, interval, token, r, post),
    ensures
        *post == (EventLoop { timer: post.timer, ..*pre }),
        r matches Ok(Err(_)) ==> post.timer@ == pre.timer@ && pre.timer@.entries.dom().len() >= pre.timer@.limit,
        r is Err ==> post.timer@ == pre.timer@,
        clock matches Ok(now) && pre.timer@.start_ms <= now && now + delay + pre.timer@.tick_ms <= u64::MAX
            && pre.timer@.entries.dom().len() < pre.timer@.limit ==> r matches Ok(Ok(_)),
{
    law_schedule(pre.timer@, clock, delay, interval, token, r, post.timer@);
}

/// What a loop schedules for a time is in its timer, once, for a tick that does not begin
/// before that time.
pub proof fn law_loop_schedules_at<M, K>(
    pre: &EventLoop<M, K>,
    at: u64,
    token: K,
    r: TimerResult,
    post: &EventLoop<M, K>,
)
    requires
        pre.wf(),
        pre.timer@.schedulable(at as int),
        pre.schedules_at(at, token, r, post),
    ensures
        *post == (EventLoop { timer: post.timer, ..*pre }),
        match r {
            Ok(timeout) => {
                let s = pre.timer@;
                &&& !s.entries.contains_key(timeout.key)
                &&& post.timer@.entries == s.entries.insert(
                    timeout.key,
                    TimerEntry { token, interval: 0, tick: timeout.tick },
                )
                &&& s.start_ms + timeout.tick * s.tick_ms >= at
                &&& s.start_ms + (timeout.tick - 1) * s.tick_ms < at || timeout.tick - 1 <= s.tick
            },
            Err(_) => post.timer@ == pre.timer@ && pre.timer@.entries.dom().len() >= pre.timer@.limit,
        },
{
    let s = pre.timer@;
    law_schedule_for_tick(s, s.tick_for(at as int), 0, token, r, post.timer@);
    law_first_tick_in_time(s, at as int);
}

/// What a loop cancels leaves its timer, and nothing else changes.
pub proof fn law_loop_cancels<M, K>(pre: &EventLoop<M, K>, timeout: Timeout, r: bool, post: &EventLoop<M, K>)
    requires
        pre.wf(),
        pre.cancels(timeout, r, post),
    ensures
        *post == (EventLoop { timer: post.timer, ..*pre }),
        r <==> pre.timer@.entries.contains_key(timeout.key) && pre.timer@.entries[timeout.key].tick == timeout.tick,
        post.timer@.entries == (if r {
            pre.timer@.entries.remove(timeout.key)
        } else {
            pre.timer@.entries
        }),
{
    pre.timer.law_valid();
    law_cancel(pre.timer@, timeout, r, post.timer@);
}

/// A new loop does not run yet, is configured as asked, has nothing scheduled and room for
/// what was asked for, begins its first tick at the time that the clock reads, and is the
/// one that its notifier notifies. There is none only where the clock cannot be read.
pub proof fn law_new_loop<M, K>(
    config: EventLoopConfig,
    clock: Result<u64, ClockError>,
    r: Result<(EventLoop<M, K>, Notifier<M>), ClockError>,
)
    requires
        EventLoop::<M, K>::is_made(config, clock, r),
    ensures
        match r {
            Ok((el, notifier)) => {
                &&& clock == Ok::<_, ClockError>(el.timer@.start_ms)
                &&& el.wf()
                &&& el.config == config
                &&& !el.running
                &&& el.timer@.count() == 0
                &&& el.timer@.tick == 0
                &&& el.timer@.tick_ms == config.timer_tick_ms
                &&& el.timer@.lists.len() >= config.timer_wheel_size
                &&& el.timer@.limit >= config.timer_cap
                &&& notifier.queue() == el.rx.queue()
            },
            Err(e) => clock == Err::<u64, _>(e),
        },
{
    law_fresh::<K>(config.timer_tick_ms, config.timer_wheel_size, config.timer_cap);
}

/// If none is asked for, a configuration is one that polls for at most ten seconds, takes
/// 1024 events at a time, and has a timer with ticks of a tenth of a second, 1024 wheel
/// slots and room for 65536 timeouts.
pub proof fn law_default_config(config: EventLoopConfig)
    requires
        config.is_default(),
    ensures
        config.poll_timeout == Some(10_000u64),
        config.poll_max_events == 1024,
        config.timer_tick_ms * 10 == 1000,
        config.timer_wheel_size == 1024,
        config.timer_cap == 65536,
{
}

/// A message goes to the loop as it is, or comes back as it was; a request to stop goes to
/// the loop as such; and another notifier notifies the same loop.
pub proof fn law_notifier<M>(
    n: &Notifier<M>,
    other: &Notifier<M>,
    msg: M,
    sent: Result<Posted<Message<M>>, M>,
    stop: Option<Posted<Message<M>>>,
)
    requires
        other.notifies_like(n),
        other.notified(msg, sent),
        other.told_to_stop(stop),
    ensures
        match sent {
            Ok(p) => p.queue() == n.queue() && (p.message() matches Message::Any(m) && m == msg),
            Err(m) => m == msg,
        },
        stop matches Some(p) ==> p.queue() == n.queue() && p.message() is Stop,
{
}

/// What sending came to is told: a receipt is handed on, and a message that was not sent
/// comes back.
pub proof fn law_notifier_outcome<M, P>(sent: Result<P, Message<M>>)
    ensures
        Notifier::<M>::outcome(sent) is Ok <==> sent is Ok,
        Notifier::<M>::receipt(sent) is Some <==> sent is Ok,
        sent matches Ok(p) ==> Notifier::<M>::outcome(sent)->Ok_0 == p && Notifier::<M>::receipt(sent)->Some_0 == p,
        sent matches Err(Message::Any(msg)) ==> Notifier::<M>::outcome(sent)->Err_0 == msg,
{
}

/// A configuration that is valid asks for a timer with ticks of some length whose wheel and
/// entries fit into memory; one whose wheel and entries fit twice over is valid.
pub proof fn law_valid_config(config: EventLoopConfig)
    requires
        config.timer_wheel_size > 0,
        config.timer_cap > 0,
    ensures
        config.wf() ==> {
            &&& config.timer_tick_ms > 0
            &&& config.timer_wheel_size * 8 <= isize::MAX
            &&& config.timer_cap * 16 <= isize::MAX
        },
        config.timer_tick_ms > 0 && config.timer_wheel_size * 16 <= isize::MAX && config.timer_cap * 32 <= isize::MAX
            ==> config.wf(),
{
    law_fits(config.timer_wheel_size as nat, 8);
    law_fits(config.timer_cap as nat, 16);
}

} // verus!
