//! What a caller learns from each operation, whatever it is called with: the relations that
//! the laws of the other modules speak of hold between what goes in and what comes out. So
//! each of those laws is one of the operations themselves.
use crate::acceptor::{accept_step, accepted, AcceptStep, Acceptors, ListenError};
use crate::buffer::{Buffer, Builder, K_INITIAL_SIZE};
use crate::connector::ConnectorService;
use crate::endian::{ByteArray, Endian, EndianRead, EndianWrite};
use crate::event_loop::{EventLoop, EventLoopConfig, Expired, LoopStep, Message, Notifier, Phase, Task};
use crate::event_loop_thread_pool::EventLoopThreadPool;
use crate::ex::tcp_connection::{Connected, Connecting, Disconnected, Minimal, State};
use crate::queue::{Posted, Received};
use crate::readiness::{BufState, Failure, FailureKind, Interest, Peer, Registration, Token};
use crate::readiness_laws::{told, waits_for, Readiness};
use crate::service::{established, handle_accept, handle_io_event, news, plan, step, ServicePlan, ServiceStep};
use crate::slots::{keys_below, Slots};
use crate::tcp_connection::{ConnTypes, ReadStep, SendStep, TcpConnMessage, TcpConnection, WriteStep};
use crate::tcp_connection_laws::{law_disabling, law_enabling};
use crate::tcp_server::{Action, Dispatcher, Fired, IoPlan, NewConnection, Shared, TcpServer, TcpServerConfig};
use crate::timer::{
    clock_ms, clock_reading, fits, rounded_fits, ClockError, Timeout, Timer, TimerResult, TimerState,
};
use vstd::prelude::*;
use vstd::utf8::*;

verus! {

/// What looking at a buffer says, and what building one gives.
pub proof fn law_buffer_is_looked_at<T: EndianRead>(
    b: &Buffer,
    builder: Builder,
    size: usize,
    sized: Builder,
    built: Buffer,
    fresh: Buffer,
    n: usize,
    yes: bool,
    bytes: &[u8],
    val: T,
    text: String,
)
    ensures
        call_ensures(Builder::new, (), builder) ==> builder.asks_for(K_INITIAL_SIZE),
        call_ensures(Builder::size, (builder, size), sized) ==> sized.asks_for(size),
        call_ensures(Builder::build, (builder,), built) ==> built.is_built(builder.initial_size()),
        call_ensures(Buffer::new, (), fresh) ==> fresh.is_fresh(),
        call_ensures(Buffer::readable_bytes, (b,), n) ==> n == b@.len(),
        call_ensures(Buffer::writable_bytes, (b,), n) ==> n == b.writable(),
        call_ensures(Buffer::prependable_bytes, (b,), n) ==> n == b.prependable(),
        call_ensures(Buffer::has_room, (b, size), yes) ==> yes == b.has_room_for(size as int),
        call_ensures(Buffer::peek, (b,), bytes) ==> b.shows(bytes@),
        call_ensures(Buffer::peek_as::<T>, (b,), val) ==> b.spells(val),
        call_ensures(Buffer::peek_as_string, (b, size), text) ==> b.says(size as int, text@),
{
}

/// What reading from a buffer and writing to it does.
pub proof fn law_buffer_is_changed<T: Endian, E>(
    b: &mut Buffer,
    data: &[u8],
    size: usize,
    val: T,
    text: String,
    outcome: Result<usize, E>,
    r: Result<usize, E>,
)
    ensures
        call_ensures(Buffer::append, (b, data), ()) ==> final(b).wf() && old(b).appended(data@, final(b)),
        call_ensures(Buffer::prepend, (b, data), ()) ==> final(b).wf() && old(b).prepended(data@, final(b)),
        call_ensures(Buffer::retrieve, (b, size), ()) ==> final(b).wf() && old(b).retrieved(size as int, final(b)),
        call_ensures(Buffer::retrieve_all, (b,), ()) ==> final(b).wf() && final(b).cleared_from(old(b)),
        call_ensures(Buffer::append_as::<T>, (b, val), ()) ==> final(b).wf() && old(b).appended(
            val.encoding(),
            final(b),
        ),
        call_ensures(Buffer::prepend_as::<T>, (b, val), ()) ==> final(b).wf() && old(b).prepended(
            val.encoding(),
            final(b),
        ),
        call_ensures(Buffer::append_string, (b, text), ()) ==> final(b).wf() && old(b).appended(
            encode_utf8(text@),
            final(b),
        ),
        call_ensures(Buffer::retrieve_as::<T>, (b,), val) ==> {
            &&& final(b).wf()
            &&& old(b).spells(val)
            &&& old(b).retrieved(<T as EndianRead>::Array::width() as int, final(b))
        },
        call_ensures(Buffer::retrieve_as_string, (b, size), text) ==> {
            &&& final(b).wf()
            &&& old(b).says(size as int, text@)
            &&& old(b).retrieved(size as int, final(b))
        },
        call_ensures(Buffer::retrieve_all_as_string, (b,), text) ==> {
            &&& final(b).wf()
            &&& old(b).says(old(b)@.len() as int, text@)
            &&& final(b).cleared_from(old(b))
        },
        call_ensures(Buffer::read_from::<E>, (b, data, outcome), r) ==> final(b).wf() && old(b).took_in(
            data@,
            outcome,
            r,
            final(b),
        ),
{
}

/// What a keyed store does.
pub proof fn law_store_operations<T>(
    s: &mut Slots<T>,
    t: &Slots<T>,
    item: T,
    key: usize,
    out: Option<T>,
    all: Vec<T>,
    seen: Option<&T>,
    keys: Vec<usize>,
    yes: bool,
    fresh: Slots<T>,
    n: usize,
)
    ensures
        call_ensures(Slots::<T>::with_capacity, (n,), fresh) ==> {
            &&& fresh.wf()
            &&& fresh@ == Map::<usize, T>::empty()
            &&& fresh.limit() == n
            &&& fresh.next_key() == 0
        },
        call_ensures(Slots::<T>::len, (t,), n) ==> n == t@.dom().len(),
        call_ensures(Slots::<T>::capacity, (t,), n) ==> n >= t.limit() && n >= t.peak(),
        call_ensures(Slots::<T>::vacant_key, (t,), key) ==> key == t.next_key() && !t@.contains_key(key),
        call_ensures(Slots::<T>::contains, (t, key), yes) ==> yes == t@.contains_key(key),
        call_ensures(Slots::<T>::get, (t, key), seen) ==> match seen {
            Some(v) => t.found(key) == Some(*v),
            None => t.found(key) is None,
        },
        call_ensures(Slots::<T>::keys, (t,), keys) ==> keys@ == keys_below(t@, t.peak()),
        call_ensures(Slots::<T>::insert, (s, item), key) ==> final(s).wf() && old(s).stored(item, key, final(s)),
        call_ensures(Slots::<T>::try_remove, (s, key), out) ==> final(s).wf() && old(s).freed(key, out, final(s)),
        call_ensures(Slots::<T>::drain, (s,), all) ==> final(s).wf() && old(s).emptied(all@, final(s)),
{
}

/// What asking a timer and its clock says.
pub proof fn law_timer_is_asked<T>(
    t: &Timer<T>,
    tick_ms: u64,
    slots: usize,
    cap: usize,
    fresh: Timer<T>,
    clock: Result<u64, ClockError>,
    tick: Result<u64, ClockError>,
    next: Result<Option<u64>, ClockError>,
    now: u64,
    delay: u64,
    n: usize,
    yes: bool,
    elapsed: Option<u128>,
)
    ensures
        call_ensures(clock_ms, (elapsed,), clock) ==> clock == clock_reading(elapsed),
        call_ensures(rounded_fits, (slots, cap), yes) ==> yes == fits(slots as nat, cap as nat),
        call_ensures(Timer::<T>::new, (tick_ms, slots, cap), fresh) ==> fresh.wf() && fresh@ == TimerState::<T>::fresh(
            tick_ms,
            slots,
            cap,
        ),
        call_ensures(Timer::<T>::is_schedulable, (t, now, delay), yes) ==> yes == t@.schedulable(now + delay),
        call_ensures(Timer::<T>::ms_to_tick, (t, now), delay) ==> delay == t@.tick_of(now as int),
        call_ensures(Timer::<T>::now_tick_with, (t, clock), tick) ==> tick == t@.tick_at(clock),
        call_ensures(Timer::<T>::now_tick, (t,), tick) ==> exists|c: Result<u64, ClockError>|
            tick == #[trigger] t@.tick_at(c),
        call_ensures(Timer::<T>::next_tick_in_ms_with, (t, clock), next) ==> next == t@.next_tick_in(clock),
        call_ensures(Timer::<T>::next_tick_in_ms, (t,), next) ==> exists|c: Result<u64, ClockError>|
            next == #[trigger] t@.next_tick_in(c),
        call_ensures(Timer::<T>::count, (t,), n) ==> n == t@.count(),
{
}

/// What setting up, scheduling, cancelling and walking does to a timer.
pub proof fn law_timer_is_changed<T>(
    t: &mut Timer<T>,
    timeout: Timeout,
    yes: bool,
    now: u64,
    out: Option<(T, u64)>,
    token: T,
    interval: u64,
    capacity: usize,
    made: TimerResult,
    clock: Result<u64, ClockError>,
    scheduled: Result<TimerResult, ClockError>,
    done: Result<(), ClockError>,
)
    ensures
        call_ensures(Timer::<T>::clear, (t, timeout), yes) ==> final(t).wf() && old(t)@.cancelled(
            timeout,
            yes,
            final(t)@,
        ),
        call_ensures(Timer::<T>::tick_to, (t, now), out) ==> final(t).wf() && old(t)@.walked(
            now as int,
            out,
            final(t)@,
        ),
        call_ensures(Timer::<T>::insert_within, (t, token, now, interval, capacity), made) ==> final(t).wf() && old(
            t,
        )@.scheduled_within(capacity, now, interval, token, made, final(t)@),
        call_ensures(Timer::<T>::timeout_ms_at, (t, now, interval, token), made) ==> final(t).wf() && old(t)@.scheduled(
            old(t)@.tick_for(now as int),
            interval,
            token,
            made,
            final(t)@,
        ),
        call_ensures(Timer::<T>::timeout_ms_with, (t, clock, now, interval, token), scheduled) ==> final(t).wf()
            && old(t)@.scheduled_by(clock, now, interval, token, scheduled, final(t)@),
        call_ensures(Timer::<T>::timeout_ms, (t, now, interval, token), scheduled) ==> final(t).wf() && exists|
            c: Result<u64, ClockError>,
        | #[trigger]
            old(t)@.scheduled_by(c, now, interval, token, scheduled, final(t)@),
        call_ensures(Timer::<T>::setup_with, (t, clock), done) ==> final(t).wf() && old(t)@.set_up(
            clock,
            done,
            final(t)@,
        ),
        call_ensures(Timer::<T>::setup, (t,), done) ==> final(t).wf() && exists|c: Result<u64, ClockError>| #[trigger]
            old(t)@.set_up(c, done, final(t)@),
{
}

/// What interests, failures and peers are asked.
pub proof fn law_readiness_operations<A>(
    a: Interest,
    b: Interest,
    both: Interest,
    rest: Option<Interest>,
    yes: bool,
    interests: &Option<Interest>,
    e: Failure,
    number: i32,
    outcome: &Result<A, Failure>,
    peer: Peer,
)
    ensures
        call_ensures(Interest::to_read, (), a) ==> forall|k: Readiness| #[trigger] a.names(k) <==> k is Readable,
        call_ensures(Interest::to_write, (), a) ==> forall|k: Readiness| #[trigger] a.names(k) <==> k is Writable,
        call_ensures(Interest::add, (a, b), both) ==> forall|k: Readiness| #[trigger]
            both.names(k) <==> a.names(k) || b.names(k),
        call_ensures(Interest::remove, (a, b), rest) ==> forall|k: Readiness| #[trigger]
            waits_for(rest, k) <==> a.names(k) && !b.names(k),
        call_ensures(Interest::is_some, (a,), yes) ==> yes == a.wf(),
        call_ensures(Interest::is_readable, (a,), yes) ==> yes == a.names(Readiness::Readable),
        call_ensures(Interest::is_writable, (a,), yes) ==> yes == a.names(Readiness::Writable),
        call_ensures(<Option<Interest> as BufState>::is_reading, (interests,), yes) ==> yes == waits_for(
            *interests,
            Readiness::Readable,
        ),
        call_ensures(<Option<Interest> as BufState>::is_writing, (interests,), yes) ==> yes == waits_for(
            *interests,
            Readiness::Writable,
        ),
        call_ensures(Failure::would_block, (e,), yes) ==> yes == (e.kind == FailureKind::WouldBlock),
        call_ensures(Failure::is_connecting, (e, number), yes) ==> yes == e.means_connecting(number),
        call_ensures(Peer::judge_with::<A>, (outcome, number), peer) ==> peer == Peer::meaning(*outcome, number),
        call_ensures(Peer::judge::<A>, (outcome,), peer) ==> {
            &&& exists|n: i32| peer == Peer::meaning(*outcome, n)
            &&& peer == Peer::Connected <==> outcome is Ok
            &&& outcome matches Err(f) ==> {
                &&& f.kind == FailureKind::NotConnected ==> peer == Peer::Connecting
                &&& f.kind != FailureKind::NotConnected && f.raw_os_error is None ==> peer == Peer::Failed
            }
        },
{
    if call_ensures(Interest::remove, (a, b), rest) {
        assert forall|k: Readiness| #[trigger] waits_for(rest, k) <==> a.names(k) && !b.names(k) by {
            assert(a.minus(b).names(k) <==> a.names(k) && !b.names(k));
        }
    }
}

/// What asking an event loop says, and what making one gives.
pub proof fn law_loop_is_asked<M, K>(
    el: &EventLoop<M, K>,
    config: EventLoopConfig,
    asked: &EventLoopConfig,
    clock: Result<u64, ClockError>,
    made: Result<(EventLoop<M, K>, Notifier<M>), ClockError>,
    queue_empty: bool,
    next_tick: Option<u64>,
    timeout: Option<u64>,
    token: Token,
    yes: bool,
)
    ensures
        call_ensures(EventLoopConfig::is_valid, (asked,), yes) ==> yes == asked.wf(),
        call_ensures(<EventLoopConfig as Default>::default, (), config) ==> config.is_default(),
        call_ensures(EventLoop::<M, K>::new_with, (config, clock), made) ==> EventLoop::<M, K>::is_made(
            config,
            clock,
            made,
        ),
        call_ensures(EventLoop::<M, K>::new_configured, (config,), made) ==> exists|c: Result<u64, ClockError>|
            #[trigger]
            EventLoop::<M, K>::is_made(config, c, made),
        call_ensures(EventLoop::<M, K>::new, (), made) ==> exists|d: EventLoopConfig, c: Result<u64, ClockError>|
            d.is_default() && #[trigger] EventLoop::<M, K>::is_made(d, c, made),
        call_ensures(EventLoop::<M, K>::poll_timeout_with, (el, queue_empty, next_tick), timeout) ==> timeout
            == el.polls_for(queue_empty, next_tick),
        call_ensures(EventLoop::<M, K>::is_wakeup, (token,), yes) ==> yes == EventLoop::<M, K>::wakes(token),
{
}

/// What the operations of an event loop do to it.
pub proof fn law_loop_is_changed<M, K>(
    el: &mut EventLoop<M, K>,
    outcome: Received<Message<M>>,
    step: LoopStep<M>,
    ms: u64,
    interval: u64,
    token: K,
    scheduled: Result<TimerResult, ClockError>,
    made: TimerResult,
    timeout: Timeout,
    yes: bool,
)
    ensures
        call_ensures(EventLoop::<M, K>::received, (el, outcome), step) ==> final(el).wf() && old(el).takes_in(
            outcome,
            step,
            final(el),
        ),
        call_ensures(EventLoop::<M, K>::start, (el,), ()) ==> final(el).set_running(old(el), true),
        call_ensures(EventLoop::<M, K>::shutdown, (el,), ()) ==> final(el).set_running(old(el), false),
        call_ensures(EventLoop::<M, K>::schedule_after, (el, ms, token), scheduled) ==> final(el).wf() && old(
            el,
        ).schedules_after(ms, token, scheduled, final(el)),
        call_ensures(EventLoop::<M, K>::schedule_every, (el, ms, interval, token), scheduled) ==> final(el).wf() && old(
            el,
        ).schedules_every(ms, interval, token, scheduled, final(el)),
        call_ensures(EventLoop::<M, K>::schedule_at, (el, ms, token), made) ==> final(el).wf() && old(el).schedules_at(
            ms,
            token,
            made,
            final(el),
        ),
        call_ensures(EventLoop::<M, K>::cancel, (el, timeout), yes) ==> final(el).wf() && old(el).cancels(
            timeout,
            yes,
            final(el),
        ),
{
}

/// What an event loop does next.
pub proof fn law_loop_goes_on<M, K: Clone>(
    el: &mut EventLoop<M, K>,
    now_tick: u64,
    clock: Result<u64, ClockError>,
    taken: Option<Result<Expired<K>, ClockError>>,
    phase: Phase,
    queue_empty: bool,
    looked: Received<Message<M>>,
    r: Result<(Task<M, K>, Phase), ClockError>,
)
    ensures
        call_ensures(EventLoop::<M, K>::next_timer_with, (el, now_tick, clock), taken) ==> final(el).wf() && old(
            el,
        ).takes_timer(now_tick, clock, taken, final(el)),
        call_ensures(EventLoop::<M, K>::next_task_with, (el, phase, queue_empty, looked, clock), r) ==> final(el).wf()
            && old(el).goes_on(phase, queue_empty, looked, clock, r, final(el)),
        call_ensures(EventLoop::<M, K>::next_task, (el, phase), r) ==> final(el).wf() && exists|
            e: bool,
            l: Received<Message<M>>,
            c: Result<u64, ClockError>,
        | #[trigger]
            old(el).goes_on(phase, e, l, c, r, final(el)),
{
}

/// What notifying does.
pub proof fn law_notifier_operations<M, P>(
    n: &Notifier<M>,
    other: Notifier<M>,
    msg: M,
    sent: Result<Posted<Message<M>>, M>,
    stop: Option<Posted<Message<M>>>,
    tried: Result<P, Message<M>>,
    r: Result<P, M>,
    receipt: Option<P>,
)
    ensures
        call_ensures(Notifier::<M>::another, (n,), other) ==> other.notifies_like(n),
        call_ensures(Notifier::<M>::notify, (n, msg), sent) ==> n.notified(msg, sent),
        call_ensures(Notifier::<M>::dead_letter, (n,), stop) ==> n.told_to_stop(stop),
        call_ensures(Notifier::<M>::notify_with::<P>, (tried,), r) ==> r == Notifier::<M>::outcome(tried),
        call_ensures(Notifier::<M>::dead_letter_with::<P>, (tried,), receipt) ==> receipt == Notifier::<M>::receipt(
            tried,
        ),
{
}

/// What the operations of a pool of threads do.
pub proof fn law_pool_operations<T>(
    p: &mut EventLoopThreadPool<T>,
    q: &EventLoopThreadPool<T>,
    size: usize,
    name: String,
    made: EventLoopThreadPool<T>,
    thread: T,
    next: &T,
)
    ensures
        call_ensures(<EventLoopThreadPool<T> as Default>::default, (), made) ==> made.is_idle(0, "EventLoopThread"@),
        call_ensures(EventLoopThreadPool::<T>::new, (size, name), made) ==> made.is_idle(size, name@),
        call_ensures(EventLoopThreadPool::<T>::thread_name, (q, size), name) ==> name@ == q.name_of(size as nat),
        call_ensures(EventLoopThreadPool::<T>::loop_for, (q, size), next) ==> *next == q.turn_of(size as int),
        call_ensures(EventLoopThreadPool::<T>::set_pool_size, (p, size), ()) ==> old(p).resized(size, final(p)),
        call_ensures(EventLoopThreadPool::<T>::add_thread, (p, thread), ()) ==> old(p).joined(thread, final(p)),
        call_ensures(EventLoopThreadPool::<T>::next_loop, (p,), next) ==> old(p).takes_turn(*next, final(p)),
{
}

/// What a connection is asked, and what making one gives.
pub proof fn law_connection_is_asked<C: ConnTypes>(
    c: &TcpConnection<C>,
    token: Token,
    ext: C::Ext,
    made: TcpConnection<C>,
    step: WriteStep,
    delay: u64,
    interval: u64,
    mark: C::Mark,
    once: C::Once,
    every: C::Every,
    msg: TcpConnMessage<C>,
)
    ensures
        call_ensures(TcpConnection::<C>::make, (token, ext), made) ==> made.is_new(token, ext),
        call_ensures(TcpConnection::<C>::handle_write, (c,), step) ==> step == c.write_starts(),
        call_ensures(TcpConnection::<C>::schedule_after, (c, delay, mark, once), msg) ==> msg == c.once(
            delay,
            mark,
            once,
        ),
        call_ensures(TcpConnection::<C>::schedule_every, (c, delay, interval, mark, every), msg) ==> msg == c.every(
            delay,
            interval,
            mark,
            every,
        ),
        call_ensures(TcpConnection::<C>::schedule_cancel, (c, mark), msg) ==> msg == c.no_more(mark),
{
}

/// What the operations of a connection do to it.
pub proof fn law_connection_is_changed<C: ConnTypes>(
    c: &mut TcpConnection<C>,
    mode: Interest,
    on: Registration,
    off: Option<Registration>,
    data: &[u8],
    written: usize,
    outcome: Result<usize, Failure>,
    send: SendStep,
    read: ReadStep,
    write: WriteStep,
)
    ensures
        call_ensures(TcpConnection::<C>::enable_io, (c, mode), on) ==> {
            &&& final(c).wf()
            &&& *final(c) == (TcpConnection { interests: final(c).interests, ..*old(c) })
            &&& told(Some(on), old(c).interests, final(c).interests)
            &&& forall|k: Readiness| #[trigger] final(c).waits(k) <==> old(c).waits(k) || mode.names(k)
        },
        call_ensures(TcpConnection::<C>::disable_io, (c, mode), off) ==> {
            &&& final(c).wf()
            &&& *final(c) == (TcpConnection { interests: final(c).interests, ..*old(c) })
            &&& told(off, old(c).interests, final(c).interests)
            &&& forall|k: Readiness| #[trigger] final(c).waits(k) <==> old(c).waits(k) && !mode.names(k)
        },
        call_ensures(TcpConnection::<C>::send, (c, data), send) ==> final(c).wf() && old(c).send_starts(
            data@,
            send,
            final(c),
        ),
        call_ensures(TcpConnection::<C>::sent, (c, data, written, outcome), send) ==> final(c).wf() && old(
            c,
        ).send_goes_on(data@, written as int, outcome, send, final(c)),
        call_ensures(TcpConnection::<C>::handle_read, (c, outcome), read) ==> final(c).wf() && old(c).read_goes_on(
            outcome,
            read,
            final(c),
        ),
        call_ensures(TcpConnection::<C>::wrote, (c, outcome), write) ==> final(c).wf() && old(c).write_goes_on(
            outcome,
            write,
            final(c),
        ),
{
    law_enabling(c.interests, mode);
    law_disabling(c.interests, mode);
    if call_ensures(TcpConnection::<C>::enable_io, (c, mode), on) {
        assert forall|k: Readiness| #[trigger] final(c).waits(k) <==> old(c).waits(k) || mode.names(k) by {
            assert(waits_for(final(c).interests, k) == final(c).waits(k));
        }
    }
    if call_ensures(TcpConnection::<C>::disable_io, (c, mode), off) {
        assert forall|k: Readiness| #[trigger] final(c).waits(k) <==> old(c).waits(k) && !mode.names(k) by {
            assert(waits_for(final(c).interests, k) == final(c).waits(k));
        }
    }
}

/// What a dispatcher is asked, and what making one gives.
pub proof fn law_dispatcher_is_asked<C: ConnTypes>(
    d: &Dispatcher<C>,
    cap: usize,
    n: usize,
    made: Dispatcher<C>,
    stream: C::Stream,
    addr: C::Addr,
    setup: C::Setup,
    new: NewConnection<C>,
    token: Token,
    readable: bool,
    writable: bool,
    p: IoPlan,
    msg: &TcpConnMessage<C>,
    yes: bool,
    peer: Peer,
    r: Action<C>,
)
    ensures
        call_ensures(Dispatcher::<C>::new, (cap, n), made) ==> made.is_new(cap, n as int),
        call_ensures(Dispatcher::<C>::of_loop, (cap, n), made) ==> made.is_first_of(cap, n),
        call_ensures(Dispatcher::<C>::new_connection_with, (d, stream, addr, setup, cap), new) ==> new == d.newcomer(
            stream,
            addr,
            setup,
            cap,
        ),
        call_ensures(Dispatcher::<C>::capacity, (d,), n) ==> n >= d.local_connections.limit() && n
            >= d.local_connections.peak(),
        call_ensures(Dispatcher::<C>::handle_io_event, (d, token, readable, writable), p) ==> p == d.plan(
            token,
            readable,
            writable,
        ),
        call_ensures(Dispatcher::<C>::can_accept, (d, msg), yes) ==> yes == d.accepts(*msg),
        call_ensures(Dispatcher::<C>::connecting_with, (d, peer, stream, addr, setup, cap), r) ==> r == d.to_connect(
            peer,
            stream,
            addr,
            setup,
            cap,
        ),
        call_ensures(Dispatcher::<C>::connecting, (d, peer, stream, addr, setup), r) ==> exists|capacity: usize|
            {
                &&& capacity >= d.local_connections.limit()
                &&& capacity >= d.local_connections.peak()
                &&& r == #[trigger] d.to_connect(peer, stream, addr, setup, capacity)
            },
{
}

/// What the operations of a dispatcher do to it.
pub proof fn law_dispatcher_is_changed<C: ConnTypes>(
    d: &mut Dispatcher<C>,
    conn: TcpConnection<C>,
    setup: C::Setup,
    token: Token,
    peer: Peer,
    called: Option<C::Setup>,
    mark: C::Mark,
    looked_up: &C::Mark,
    repeat: bool,
    fired: Fired<C>,
    timeout: Timeout,
    f: C::Every,
    said: Vec<(Token, Option<Registration>)>,
)
    ensures
        call_ensures(Dispatcher::<C>::add_connection, (d, conn), ()) ==> final(d).wf() && old(d).joined(
            conn,
            final(d),
        ),
        call_ensures(Dispatcher::<C>::add_connecting, (d, conn, setup), ()) ==> final(d).wf() && old(
            d,
        ).joined_connecting(conn, setup, final(d)),
        call_ensures(Dispatcher::<C>::remove_connection, (d, token), conn) ==> final(d).wf() && old(d).gives_up(
            token,
            conn,
            final(d),
        ),
        call_ensures(Dispatcher::<C>::peer_checked, (d, token, peer), called) ==> final(d).wf() && old(d).peer_asked(
            token,
            peer,
            called,
            final(d),
        ),
        call_ensures(Dispatcher::<C>::handle_timeout, (d, looked_up, repeat), fired) ==> final(d).wf() && old(d).fires(
            *looked_up,
            repeat,
            fired,
            final(d),
        ),
        call_ensures(Dispatcher::<C>::keep_timer, (d, mark, timeout, token, f), ()) ==> final(d).wf() && old(d).keeps(
            mark,
            timeout,
            token,
            f,
            final(d),
        ),
        call_ensures(Dispatcher::<C>::refresh_timeout, (d, mark, timeout), ()) ==> final(d).wf() && old(d).refreshed(
            mark,
            timeout,
            final(d),
        ),
        call_ensures(Dispatcher::<C>::graceful_shutdown, (d,), said) ==> final(d).wf() && old(d).winds_down(
            said@,
            final(d),
        ),
{
}

/// What a message does to a dispatcher and its event loop.
pub proof fn law_dispatcher_is_notified<M, C: ConnTypes>(
    d: &mut Dispatcher<C>,
    msg: TcpConnMessage<C>,
    el: &mut EventLoop<M, C::Mark>,
    capacity: usize,
    clock: Result<u64, ClockError>,
    r: Action<C>,
)
    ensures
        call_ensures(Dispatcher::<C>::handle_notify_with::<M>, (d, msg, el, capacity, clock), r) ==> {
            &&& final(d).wf()
            &&& final(el).wf()
            &&& old(d).notified(old(el), msg, capacity, clock, r, final(d), final(el))
        },
        call_ensures(Dispatcher::<C>::handle_notify::<M>, (d, msg, el), r) ==> {
            &&& final(d).wf()
            &&& final(el).wf()
            &&& exists|cap: usize, c: Result<u64, ClockError>|
                {
                    &&& #[trigger] old(d).notified(old(el), msg, cap, c, r, final(d), final(el))
                    &&& cap >= old(d).local_connections.limit()
                    &&& cap >= old(d).local_connections.peak()
                }
        },
{
}

/// What a server and the record of its loops do.
pub proof fn law_server_operations<T, N>(
    s: &mut Shared<N>,
    t: &Shared<N>,
    fresh: Shared<N>,
    token: Token,
    noti: N,
    seen: Option<&N>,
    out: Option<N>,
    all: Vec<&N>,
    server: &mut TcpServer<T>,
    made: TcpServer<T>,
    size: usize,
    name: String,
    each: usize,
    thread: &T,
)
    ensures
        call_ensures(Shared::<N>::new, (), fresh) ==> forall|k: Token| (#[trigger] fresh.loop_of(k)) is None,
        call_ensures(Shared::<N>::get_loop_notifier, (t, token), seen) ==> match seen {
            Some(x) => t.loop_of(token) == Some(*x),
            None => t.loop_of(token) is None,
        },
        call_ensures(Shared::<N>::notifiers, (t,), all) ==> t.named_by(all@),
        call_ensures(Shared::<N>::add_connection, (s, token, noti), ()) ==> old(s).notes(token, noti, final(s)),
        call_ensures(Shared::<N>::remove_connection, (s, token), out) ==> old(s).forgets(token, out, final(s)),
        call_ensures(TcpServer::<T>::new, (size, name, each), made) ==> made.is_made(
            (TcpServerConfig { pool_size: size, pool_name: name, max_connections_per: each }),
        ),
        call_ensures(TcpServer::<T>::get_pool_next, (server,), thread) ==> old(server).spreads(
            *thread,
            final(server),
        ),
{
}

/// What connectors, listeners and services do.
pub proof fn law_service_operations<T, C: ConnTypes>(
    c: &mut ConnectorService<T>,
    made: ConnectorService<T>,
    size: usize,
    each: usize,
    stream: C::Stream,
    addr: C::Addr,
    setup: C::Setup,
    told: (&T, TcpConnMessage<C>),
    token: Token,
    readable: bool,
    p: ServicePlan,
    outcome: Result<(C::Stream, C::Addr), Failure>,
    next: ServiceStep<C::Stream, C::Addr>,
    msg: TcpConnMessage<C>,
)
    ensures
        call_ensures(ConnectorService::<T>::new, (size, each), made) ==> made.is_made(size, each),
        call_ensures(ConnectorService::<T>::connect::<C>, (c, stream, addr, setup), told) ==> old(c).hands_over(
            stream,
            addr,
            setup,
            *told.0,
            told.1,
            final(c),
        ),
        call_ensures(handle_io_event, (token, readable), p) ==> p == plan(token, readable),
        call_ensures(handle_accept::<C::Stream, C::Addr>, (outcome,), next) ==> next == step(outcome),
        call_ensures(established::<C>, (stream, addr, setup), msg) ==> msg == news::<C>(stream, addr, setup),
{
}

/// What the listeners of an event loop do.
pub proof fn law_listener_operations<A>(
    a: &mut Acceptors<A>,
    b: &Acceptors<A>,
    made: Acceptors<A>,
    cap: usize,
    listened: Result<Token, ListenError>,
    acc: A,
    token: Token,
    all: Vec<A>,
    outcome: Result<A, Failure>,
    next: AcceptStep<A>,
)
    ensures
        call_ensures(accepted::<A>, (outcome,), next) ==> next == accept_step(outcome),
        call_ensures(Acceptors::<A>::new, (cap,), made) ==> made.is_new(cap),
        call_ensures(Acceptors::<A>::listen_with, (b, cap), listened) ==> listened == b.token_within(cap),
        call_ensures(Acceptors::<A>::listen, (b,), listened) ==> exists|capacity: usize|
            {
                &&& listened == #[trigger] b.token_within(capacity)
                &&& capacity >= b.acceptors.limit()
                &&& capacity >= b.acceptors.peak()
            },
        call_ensures(Acceptors::<A>::add, (a, acc), token) ==> final(a).wf() && old(a).joined(acc, token, final(a)),
        call_ensures(Acceptors::<A>::graceful_shutdown, (a,), all) ==> final(a).wf() && old(a).cleared(
            all@,
            final(a),
        ),
{
}

/// What a connection as a machine of states does.
pub proof fn law_state_operations<X, F>(
    m: &mut Minimal<X>,
    mode: Interest,
    on: Registration,
    off: Option<Registration>,
    fd: i32,
    ext: X,
    new: Connecting<X>,
    c: &mut Connecting<X>,
    peer: Peer,
    state: State<X, F>,
    d: Connected<X, F>,
    outcome: Result<usize, Failure>,
    read: crate::ex::tcp_connection::ReadStep<X, F>,
    e: &mut Connected<X, F>,
    f: F,
    over: &mut Disconnected<X>,
)
    ensures
        call_ensures(Minimal::<X>::enable_io, (m, mode), on) ==> {
            &&& final(m).token == old(m).token
            &&& final(m).ext == old(m).ext
            &&& told(Some(on), old(m).interests, final(m).interests)
            &&& forall|k: Readiness| #[trigger]
                waits_for(final(m).interests, k) <==> waits_for(old(m).interests, k) || mode.names(k)
        },
        call_ensures(Minimal::<X>::disable_io, (m, mode), off) ==> {
            &&& final(m).token == old(m).token
            &&& final(m).ext == old(m).ext
            &&& told(off, old(m).interests, final(m).interests)
            &&& forall|k: Readiness| #[trigger]
                waits_for(final(m).interests, k) <==> waits_for(old(m).interests, k) && !mode.names(k)
        },
        call_ensures(Connecting::<X>::new, (fd, ext), new) ==> new.is_new(fd, ext),
        call_ensures(Connecting::<X>::entry, (c,), on) ==> final(c).min.wf() && old(c).entered(on, final(c)),
        call_ensures(Connecting::<X>::handle_read::<F>, (new, peer), state) ==> new.goes_on(peer, state),
        call_ensures(Connected::<X, F>::handle_read, (d, outcome), read) ==> read == d.read_step(outcome),
        call_ensures(Connected::<X, F>::put_back, (e, f), ()) ==> old(e).has_back(f, final(e)),
        call_ensures(Disconnected::<X>::entry, (over,), off) ==> final(over).min.wf() && old(over).entered(
            off,
            final(over),
        ),
{
    law_enabling(m.interests, mode);
    law_disabling(m.interests, mode);
}

/// What is lent to be changed in place comes back as it was left, and nothing else changes.
pub proof fn law_lent_in_place<T, A, C: ConnTypes>(
    s: &mut Slots<T>,
    key: usize,
    v: Option<&mut T>,
    a: &mut Acceptors<A>,
    token: Token,
    readable: bool,
    acc: Option<&mut A>,
    d: &mut Dispatcher<C>,
    conn: Option<&mut TcpConnection<C>>,
)
    ensures
        call_ensures(Slots::<T>::get_mut, (s, key), v) ==> match v {
            Some(x) => old(s).found(key) == Some(*x) && final(s)@ == old(s)@.insert(key, *final(x)),
            None => old(s).found(key) is None && final(s)@ == old(s)@,
        },
        call_ensures(Slots::<T>::get_mut, (s, key), v) ==> {
            &&& final(s).wf()
            &&& final(s).limit() == old(s).limit()
            &&& final(s).peak() == old(s).peak()
            &&& final(s).free() == old(s).free()
        },
        call_ensures(Acceptors::<A>::handle_io_event, (a, token, readable), acc) ==> match acc {
            Some(x) => old(a).asked(token, readable) == Some(*x) && final(a).acceptors@ == old(a).acceptors@.insert(
                token.0,
                *final(x),
            ),
            None => old(a).asked(token, readable) is None && final(a).acceptors@ == old(a).acceptors@,
        },
        call_ensures(Dispatcher::<C>::with_connection, (d, token), conn) ==> match conn {
            Some(x) => old(d).lends(token, *x, *final(x), final(d)),
            None => !old(d).knows(token) && *final(d) == *old(d),
        },
{
}

} // verus!
