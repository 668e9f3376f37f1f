//! The threads that make connections.
use crate::event_loop_thread_pool::EventLoopThreadPool;
use crate::tcp_connection::{ConnTypes, TcpConnMessage};
use crate::tcp_server::TcpServerConfig;
use vstd::prelude::*;

verus! {

/// Makes connections on a pool of threads `T`.
pub struct ConnectorService<T> {
    pub config: TcpServerConfig,
    pub pool: EventLoopThreadPool<T>,
}

impl<T> ConnectorService<T> {
    /// This service was just made, and none of its threads runs yet.
    pub open spec fn is_made(&self, pool_size: usize, max_connections_per: usize) -> bool {
        &&& self.config.pool_size == pool_size
        &&& self.config.pool_name@ == "ConnectorThread"@
        &&& self.config.max_connections_per == max_connections_per
        &&& self.pool.pool@ == Seq::<T>::empty()
        &&& self.pool.pool_name@ == "ConnectorThread"@
        &&& self.pool.size == pool_size
        &&& self.pool.next == 0
    }

    /// The thread `thread` takes care of a connection that is being made, and is told `msg`,
    /// which makes `post` of this service.
    pub open spec fn hands_over<C: ConnTypes>(
        &self,
        stream: C::Stream,
        addr: C::Addr,
        setup: C::Setup,
        thread: T,
        msg: TcpConnMessage<C>,
        post: &Self,
    ) -> bool {
        &&& self.pool.takes_turn(thread, &post.pool)
        &&& post.config == self.config
        &&& msg == TcpConnMessage::<C>::Connecting(stream, addr, setup)
    }

    /// A service with `pool_size` threads, each for `max_connections_per` connections.
    pub fn new(pool_size: usize, max_connections_per: usize) -> (r: Self)
        requires
            pool_size > 0,
        ensures
            r.is_made(pool_size, max_connections_per),
    {
        let pool_name = "ConnectorThread".to_owned();
        let config = TcpServerConfig { pool_size, pool_name: pool_name.clone(), max_connections_per };
        ConnectorService { config, pool: EventLoopThreadPool::new(pool_size, pool_name) }
    }

    /// The thread that takes care of a connection that is being made, and what it is told.
    pub fn connect<C: ConnTypes>(&mut self, stream: C::Stream, addr: C::Addr, setup: C::Setup) -> (r: (
        &T,
        TcpConnMessage<C>,
    ))
        requires
            old(self).pool.has_next(),
        ensures
            old(self).hands_over(stream, addr, setup, *r.0, r.1, final(self)),
    {
        (self.pool.next_loop(), TcpConnMessage::Connecting(stream, addr, setup))
    }
}

/// A service that was just made is configured as asked and has threads to start for that,
/// under the name of connector threads.
pub proof fn law_new_connector<T>(service: &ConnectorService<T>, pool_size: usize, max_connections_per: usize)
    requires
        service.is_made(pool_size, max_connections_per),
    ensures
        service.config.pool_size == pool_size,
        service.config.max_connections_per == max_connections_per,
        service.pool.is_idle(pool_size, "ConnectorThread"@),
        service.config.pool_name@ == service.pool.pool_name@,
{
}

/// A connection that is being made goes to the thread whose turn it is, with the socket, the
/// address and the setup that were given, and to be treated as connecting.
pub proof fn law_connect<T, C: ConnTypes>(
    pre: &ConnectorService<T>,
    stream: C::Stream,
    addr: C::Addr,
    setup: C::Setup,
    thread: T,
    msg: TcpConnMessage<C>,
    post: &ConnectorService<T>,
)
    requires
        pre.hands_over(stream, addr, setup, thread, msg, post),
    ensures
        msg matches TcpConnMessage::Connecting(s, a, f) && s == stream && a == addr && f == setup,
        thread == pre.pool.turn_of(pre.pool.next as int),
        post.pool.pool == pre.pool.pool,
        post.pool.size == pre.pool.size,
        post.config == pre.config,
        pre.pool.next < usize::MAX ==> post.pool.next == pre.pool.next + 1,
{
}

} // verus!
