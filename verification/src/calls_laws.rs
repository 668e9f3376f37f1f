//! When each operation may be called: what has to hold of what goes in, and that no more has
//! to. Operations that are not named here may be called with anything.
use crate::acceptor::Acceptors;
use crate::buffer::{Buffer, Builder, K_CHEAP_PREPEND_SIZE};
use crate::connector::ConnectorService;
use crate::endian::{ByteArray, Endian, EndianRead, EndianWrite};
use crate::event_loop::{EventLoop, EventLoopConfig, Message, Notifier, Phase};
use crate::event_loop_thread_pool::EventLoopThreadPool;
use crate::ex::tcp_connection::{Connected, Connecting, Disconnected};
use crate::queue::Received;
use crate::readiness::{Failure, FailureKind, Interest, Peer, Token};
use crate::readiness_laws::{law_interests_named, Readiness};
use crate::slots::Slots;
use crate::tcp_connection::{ConnTypes, TcpConnMessage, TcpConnection};
use crate::tcp_server::{Dispatcher, Shared, TcpServer};
use crate::timer::{ClockError, Timeout, Timer};
use vstd::prelude::*;
use vstd::std_specs::hash::*;
use vstd::utf8::*;

verus! {

/// A valid buffer can be looked at; no more can be read than is there.
pub proof fn law_buffer_can_be_looked_at<T: EndianRead>(b: &Buffer, builder: Builder, size: usize)
    ensures
        K_CHEAP_PREPEND_SIZE + builder.initial_size() <= isize::MAX ==> call_requires(Builder::build, (builder,)),
        b.wf() ==> call_requires(Buffer::readable_bytes, (b,)),
        b.wf() ==> call_requires(Buffer::writable_bytes, (b,)),
        b.wf() ==> call_requires(Buffer::has_room, (b, size)),
        b.wf() ==> call_requires(Buffer::peek, (b,)),
        b.wf() && T::Array::width() <= b@.len() ==> call_requires(Buffer::peek_as::<T>, (b,)),
        b.wf() && size <= b@.len() ==> call_requires(Buffer::peek_as_string, (b, size)),
{
}

/// What is there can be read from a buffer, what fits before it can be prepended, and what
/// memory holds can be appended.
pub proof fn law_buffer_can_be_changed<T: Endian, E>(
    b: &mut Buffer,
    data: &[u8],
    size: usize,
    val: T,
    text: String,
    outcome: Result<usize, E>,
)
    requires
        old(b).wf(),
    ensures
        old(b).has_room_for(data@.len() as int) ==> call_requires(Buffer::append, (b, data)),
        data@.len() <= old(b).prependable() ==> call_requires(Buffer::prepend, (b, data)),
        size <= old(b)@.len() ==> call_requires(Buffer::retrieve, (b, size)),
        call_requires(Buffer::retrieve_all, (b,)),
        old(b).has_room_for(val.encoding().len() as int) ==> call_requires(Buffer::append_as::<T>, (b, val)),
        val.encoding().len() <= old(b).prependable() ==> call_requires(Buffer::prepend_as::<T>, (b, val)),
        old(b).has_room_for(encode_utf8(text@).len() as int) ==> call_requires(Buffer::append_string, (b, text)),
        <T as EndianRead>::Array::width() <= old(b)@.len() ==> call_requires(Buffer::retrieve_as::<T>, (b,)),
        size <= old(b)@.len() ==> call_requires(Buffer::retrieve_as_string, (b, size)),
        call_requires(Buffer::retrieve_all_as_string, (b,)),
        outcome is Err ==> call_requires(Buffer::read_from::<E>, (b, data, outcome)),
        (outcome matches Ok(n) && n <= data@.len() && old(b).has_room_for(n as int)) ==> call_requires(
            Buffer::read_from::<E>,
            (b, data, outcome),
        ),
{
}

/// A valid store can be used with any key.
pub proof fn law_store_can_be_used<T>(s: &mut Slots<T>, t: &Slots<T>, item: T, key: usize)
    ensures
        key * 16 <= isize::MAX ==> call_requires(Slots::<T>::with_capacity, (key,)),
        t.wf() ==> {
            &&& call_requires(Slots::<T>::len, (t,))
            &&& call_requires(Slots::<T>::capacity, (t,))
            &&& call_requires(Slots::<T>::vacant_key, (t,))
            &&& call_requires(Slots::<T>::contains, (t, key))
            &&& call_requires(Slots::<T>::get, (t, key))
            &&& call_requires(Slots::<T>::keys, (t,))
        },
        old(s).wf() ==> {
            &&& call_requires(Slots::<T>::get_mut, (s, key))
            &&& call_requires(Slots::<T>::insert, (s, item))
            &&& call_requires(Slots::<T>::try_remove, (s, key))
            &&& call_requires(Slots::<T>::drain, (s,))
        },
{
}

/// A valid timer can be used at any time: where the time does not fit, it says so. Only a
/// walk has to end before the last tick, unless it finds something due, and only a time
/// that is known to fit can be scheduled for directly.
pub proof fn law_timer_can_be_used<T>(
    t: &mut Timer<T>,
    u: &Timer<T>,
    timeout: Timeout,
    now: u64,
    token: T,
    interval: u64,
    capacity: usize,
    clock: Result<u64, ClockError>,
)
    ensures
        old(t).wf() ==> {
            &&& call_requires(Timer::<T>::clear, (t, timeout))
            &&& now < u64::MAX ==> call_requires(Timer::<T>::tick_to, (t, now))
            &&& call_requires(Timer::<T>::insert_within, (t, token, now, interval, capacity))
            &&& old(t)@.schedulable(now as int) ==> call_requires(
                Timer::<T>::timeout_ms_at,
                (t, now, interval, token),
            )
            &&& call_requires(Timer::<T>::timeout_ms_with, (t, clock, now, interval, token))
            &&& call_requires(Timer::<T>::timeout_ms, (t, now, interval, token))
            &&& call_requires(Timer::<T>::setup_with, (t, clock))
            &&& call_requires(Timer::<T>::setup, (t,))
        },
        u.wf() ==> {
            &&& call_requires(Timer::<T>::next_tick_in_ms_with, (u, clock))
            &&& call_requires(Timer::<T>::next_tick_in_ms, (u,))
            &&& call_requires(Timer::<T>::count, (u,))
        },
        u@.tick_ms > 0 ==> {
            &&& call_requires(Timer::<T>::now_tick_with, (u, clock))
            &&& call_requires(Timer::<T>::now_tick, (u,))
            &&& u@.start_ms <= now ==> call_requires(Timer::<T>::ms_to_tick, (u, now))
        },
{
}

/// A valid event loop can do whatever it is asked to.
pub proof fn law_loop_can_be_used<M, K: Clone, P>(
    el: &mut EventLoop<M, K>,
    config: EventLoopConfig,
    clock: Result<u64, ClockError>,
    outcome: Received<Message<M>>,
    ms: u64,
    interval: u64,
    token: K,
    timeout: Timeout,
    phase: Phase,
    queue_empty: bool,
    sent: Result<P, Message<M>>,
)
    ensures
        config.wf() ==> call_requires(EventLoop::<M, K>::new_with, (config, clock)) && call_requires(
            EventLoop::<M, K>::new_configured,
            (config,),
        ),
        call_requires(EventLoop::<M, K>::new, ()),
        old(el).wf() ==> {
            &&& call_requires(EventLoop::<M, K>::received, (el, outcome))
            &&& call_requires(EventLoop::<M, K>::schedule_after, (el, ms, token))
            &&& call_requires(EventLoop::<M, K>::schedule_every, (el, ms, interval, token))
            &&& old(el).timer@.schedulable(ms as int) ==> call_requires(EventLoop::<M, K>::schedule_at, (el, ms, token))
            &&& call_requires(EventLoop::<M, K>::cancel, (el, timeout))
            &&& ms < u64::MAX ==> call_requires(EventLoop::<M, K>::next_timer_with, (el, ms, clock))
            &&& phase != Phase::Timers(u64::MAX) ==> call_requires(
                EventLoop::<M, K>::next_task_with,
                (el, phase, queue_empty, outcome, clock),
            )
            &&& phase != Phase::Timers(u64::MAX) ==> call_requires(EventLoop::<M, K>::next_task, (el, phase))
        },
        sent is Ok ==> call_requires(Notifier::<M>::notify_with::<P>, (sent,)),
        (sent matches Err(m) && m is Any) ==> call_requires(Notifier::<M>::notify_with::<P>, (sent,)),
{
}

/// A pool of at least one thread can be made; its size can change as long as none runs; and
/// it has a next thread as soon as that one runs.
pub proof fn law_pool_can_be_used<T, C: ConnTypes>(
    p: &mut EventLoopThreadPool<T>,
    q: &EventLoopThreadPool<T>,
    size: usize,
    name: String,
    server: &mut TcpServer<T>,
    each: usize,
    c: &mut ConnectorService<T>,
    stream: C::Stream,
    addr: C::Addr,
    setup: C::Setup,
)
    ensures
        size > 0 ==> {
            &&& call_requires(EventLoopThreadPool::<T>::new, (size, name))
            &&& call_requires(TcpServer::<T>::new, (size, name, each))
            &&& call_requires(ConnectorService::<T>::new, (size, each))
        },
        old(p).pool@.len() == 0 ==> call_requires(EventLoopThreadPool::<T>::set_pool_size, (p, size)),
        q.size > 0 && (size as int % q.size as int) < q.pool@.len() ==> call_requires(
            EventLoopThreadPool::<T>::loop_for,
            (q, size),
        ),
        old(p).size > 0 && (old(p).next as int % old(p).size as int) < old(p).pool@.len() ==> call_requires(
            EventLoopThreadPool::<T>::next_loop,
            (p,),
        ),
        old(server).pool.size > 0 && (old(server).pool.next as int % old(server).pool.size as int) < old(
            server,
        ).pool.pool@.len() ==> call_requires(TcpServer::<T>::get_pool_next, (server,)),
        old(c).pool.size > 0 && (old(c).pool.next as int % old(c).pool.size as int) < old(c).pool.pool@.len()
            ==> call_requires(ConnectorService::<T>::connect::<C>, (c, stream, addr, setup)),
{
}

/// A valid connection can be watched for anything, read, and sent on; what has to wait has to
/// fit into memory, and no more can be reported as written than there was.
pub proof fn law_connection_can_be_used<C: ConnTypes>(
    c: &mut TcpConnection<C>,
    mode: Interest,
    data: &[u8],
    written: usize,
    outcome: Result<usize, Failure>,
)
    requires
        old(c).wf(),
    ensures
        (exists|k: Readiness| #[trigger] mode.names(k)) ==> call_requires(TcpConnection::<C>::enable_io, (c, mode)),
        call_requires(TcpConnection::<C>::disable_io, (c, mode)),
        old(c).output@.len() == 0 && !old(c).waits(Readiness::Writable) ==> call_requires(
            TcpConnection::<C>::send,
            (c, data),
        ),
        old(c).output.has_room_for(data@.len() as int) ==> call_requires(TcpConnection::<C>::send, (c, data)),
        (outcome matches Ok(n) && written + n <= data@.len()) ==> call_requires(
            TcpConnection::<C>::sent,
            (c, data, written, outcome),
        ),
        (outcome matches Err(e) && e.kind == FailureKind::WouldBlock && written <= data@.len()
            && old(c).output.has_room_for(data@.len() - written)) ==> call_requires(
            TcpConnection::<C>::sent,
            (c, data, written, outcome),
        ),
        (outcome matches Err(e) && e.kind != FailureKind::WouldBlock && written <= data@.len()
            && old(c).output.has_room_for(data@.len() as int)) ==> call_requires(
            TcpConnection::<C>::sent,
            (c, data, written, outcome),
        ),
        call_requires(TcpConnection::<C>::handle_read, (c, outcome)),
        outcome is Err ==> call_requires(TcpConnection::<C>::wrote, (c, outcome)),
        (outcome matches Ok(n) && n <= old(c).output@.len()) ==> call_requires(TcpConnection::<C>::wrote, (c, outcome)),
{
    law_interests_named(mode);
}

/// A valid dispatcher can be used with every token that it could have given, and can act on
/// every message that it accepts.
pub proof fn law_dispatcher_can_be_used<M, C: ConnTypes>(
    d: &mut Dispatcher<C>,
    e: &Dispatcher<C>,
    cap: usize,
    n: usize,
    stream: C::Stream,
    addr: C::Addr,
    setup: C::Setup,
    conn: TcpConnection<C>,
    token: Token,
    peer: Peer,
    yes: bool,
    mark: C::Mark,
    looked_up: &C::Mark,
    timeout: Timeout,
    f: C::Every,
    msg: TcpConnMessage<C>,
    shown: &TcpConnMessage<C>,
    el: &mut EventLoop<M, C::Mark>,
    clock: Result<u64, ClockError>,
)
    ensures
        obeys_key_model::<C::Mark>() && cap * 16 <= isize::MAX ==> {
            &&& call_requires(Dispatcher::<C>::new, (cap, n))
            &&& n * cap <= usize::MAX ==> call_requires(Dispatcher::<C>::of_loop, (cap, n))
        },
        e.wf() ==> {
            &&& call_requires(Dispatcher::<C>::capacity, (e,))
            &&& call_requires(Dispatcher::<C>::can_accept, (e, shown))
            &&& e.offset <= token.0 ==> call_requires(Dispatcher::<C>::handle_io_event, (e, token, yes, yes))
            &&& e.next_token() <= usize::MAX ==> {
                &&& call_requires(Dispatcher::<C>::new_connection_with, (e, stream, addr, setup, cap))
                &&& call_requires(Dispatcher::<C>::connecting_with, (e, peer, stream, addr, setup, cap))
                &&& call_requires(Dispatcher::<C>::connecting, (e, peer, stream, addr, setup))
            }
        },
        old(d).wf() ==> {
            &&& old(d).offset <= token.0 ==> call_requires(Dispatcher::<C>::with_connection, (d, token))
            &&& conn.wf() && conn.token.0 == old(d).next_token() ==> {
                &&& call_requires(Dispatcher::<C>::add_connection, (d, conn))
                &&& call_requires(Dispatcher::<C>::add_connecting, (d, conn, setup))
            }
            &&& old(d).knows(token) ==> call_requires(Dispatcher::<C>::remove_connection, (d, token))
            &&& old(d).pendings@.contains_key(token.0) ==> call_requires(Dispatcher::<C>::peer_checked, (d, token, peer))
            &&& call_requires(Dispatcher::<C>::handle_timeout, (d, looked_up, yes))
            &&& call_requires(Dispatcher::<C>::keep_timer, (d, mark, timeout, token, f))
            &&& call_requires(Dispatcher::<C>::refresh_timeout, (d, mark, timeout))
            &&& call_requires(Dispatcher::<C>::graceful_shutdown, (d,))
            &&& old(el).wf() && old(d).accepts(msg) ==> {
                &&& call_requires(Dispatcher::<C>::handle_notify_with::<M>, (d, msg, el, cap, clock))
                &&& call_requires(Dispatcher::<C>::handle_notify::<M>, (d, msg, el))
            }
        },
{
}

/// The loop of a connection can be noted if none is noted for its token; listeners can be
/// used as long as they are valid; and a connection as a machine of states can be entered
/// and read in every state.
pub proof fn law_others_can_be_used<N, A, X, F>(
    s: &mut Shared<N>,
    token: Token,
    noti: N,
    a: &mut Acceptors<A>,
    b: &Acceptors<A>,
    cap: usize,
    acc: A,
    readable: bool,
    fd: i32,
    ext: X,
    c: &mut Connecting<X>,
    d: Connected<X, F>,
    outcome: Result<usize, Failure>,
    over: &mut Disconnected<X>,
)
    ensures
        old(s).loop_of(token) is None ==> call_requires(Shared::<N>::add_connection, (s, token, noti)),
        cap * 16 <= isize::MAX ==> call_requires(Acceptors::<A>::new, (cap,)),
        b.wf() ==> call_requires(Acceptors::<A>::listen_with, (b, cap)) && call_requires(Acceptors::<A>::listen, (b,)),
        old(a).wf() ==> {
            &&& call_requires(Acceptors::<A>::add, (a, acc))
            &&& call_requires(Acceptors::<A>::handle_io_event, (a, token, readable))
            &&& call_requires(Acceptors::<A>::graceful_shutdown, (a,))
        },
        fd > 0 ==> call_requires(Connecting::<X>::new, (fd, ext)),
        old(c).min.wf() ==> call_requires(Connecting::<X>::entry, (c,)),
        d.min.wf() ==> call_requires(Connected::<X, F>::handle_read, (d, outcome)),
        old(over).min.wf() ==> call_requires(Disconnected::<X>::entry, (over,)),
{
}

} // verus!
