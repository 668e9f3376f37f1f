//! A dispatcher of the connections of one event loop: what it does about messages,
//! events and timers.
use crate::event_loop::EventLoop;
use crate::event_loop_thread_pool::EventLoopThreadPool;
use crate::readiness::{BufState, Interest, Peer, Registration, Token};
use crate::slots::{free_after_insert, keys_below, law_keys_ascend, Slots};
use crate::tcp_connection::{
    disabling, enabling, watched, ConnTypes, SendStep, Shutdown, TcpConnMessage, TcpConnection,
};
use crate::timer::{now_ms, ClockError, Timeout, TimerError, TimerResult};
use std::collections::HashMap;
use vstd::pervasive::cloned;
use vstd::prelude::*;
use vstd::std_specs::hash::*;

verus! {

pub struct TcpServerConfig {
    pub pool_size: usize,
    pub pool_name: String,
    pub max_connections_per: usize,
}

/// The token under which the poller reports new connections to a server's listener.
pub const K_ACCEPT_TOKEN: usize = 0;

/// A connection that is to be made and added.
pub struct NewConnection<C: ConnTypes> {
    /// The token that it is to have.
    pub token: Token,
    /// The dispatcher holds as many connections as it should: the socket is to be
    /// shut down first.
    pub full: bool,
    pub stream: C::Stream,
    pub addr: C::Addr,
    /// What is to be called with the connection.
    pub setup: C::Setup,
}

/// What is left to do about a message.
pub enum Action<C: ConnTypes> {
    Nothing,
    /// Make a connection, call its setup, tell it that it is established, and add it.
    Establish(NewConnection<C>),
    /// Register the socket to be read, make a connection, and add it as connecting.
    Connect(NewConnection<C>),
    /// Ask the socket for its peer, and report the outcome.
    CheckPeer(C::Stream, C::Addr, C::Setup),
    /// The connection attempt has failed: report it.
    ConnectFailed(C::Addr),
    /// This connection is gone from the dispatcher: forget it.
    Removed(TcpConnection<C>),
    /// Carry on sending these bytes with this step.
    Send(Token, Vec<u8>, SendStep),
    /// Tell the connection that its output was written.
    WriteComplete(Token),
    /// Tell the poller.
    Register(Token, Registration),
    /// Shut the socket down.
    Shutdown(Token, Shutdown),
    /// Call this with the connection.
    Call(Token, C::Setup),
    /// The timer could not be added: report it.
    TimerRefused(TimerError),
    /// The timer could not be added for want of a usable clock.
    ClockFailed(ClockError),
}

/// The connections of one event loop. A connection has the token `offset` plus its key.
pub struct Dispatcher<C: ConnTypes> {
    pub local_connections: Slots<TcpConnection<C>>,
    /// What to call once a connection attempt succeeds, by token.
    pub pendings: HashMap<usize, C::Setup>,
    /// The timers that run once, by mark.
    pub timers: HashMap<C::Mark, (Timeout, Token, C::Once)>,
    /// The timers that repeat, by mark.
    pub timers2: HashMap<C::Mark, (Timeout, Token, C::Every)>,
    pub offset: usize,
}

impl<C: ConnTypes> Dispatcher<C> {
    /// Every connection is valid and has the token of its key; marks can be looked up
    /// by.
    pub open spec fn wf(&self) -> bool {
        &&& self.local_connections.wf()
        &&& forall|k: usize| #[trigger]
            self.local_connections@.contains_key(k) ==> {
                &&& self.local_connections@[k].wf()
                &&& self.local_connections@[k].token.0 == self.offset + k
            }
        &&& obeys_key_model::<C::Mark>()
    }

    /// `token` is one that this dispatcher could have given out.
    pub open spec fn in_range(&self, token: Token) -> bool {
        self.offset <= token.0
    }

    /// The key of the connection with token `token`.
    pub open spec fn key(&self, token: Token) -> usize {
        (token.0 - self.offset) as usize
    }

    /// There is a connection with token `token`.
    pub open spec fn knows(&self, token: Token) -> bool {
        self.in_range(token) && self.local_connections@.contains_key(self.key(token))
    }

    /// The connection with token `token`.
    pub open spec fn connection(&self, token: Token) -> TcpConnection<C> {
        self.local_connections@[self.key(token)]
    }

    /// The token that the next connection will have.
    pub open spec fn next_token(&self) -> int {
        self.offset + self.local_connections.next_key()
    }

    /// This dispatcher is `pre`, but for its connections.
    pub open spec fn only_connections_changed(&self, pre: &Self) -> bool {
        *self == (Dispatcher { local_connections: self.local_connections, ..*pre })
    }

    /// This dispatcher is `pre` with `conn` in the place of the connection with token
    /// `token`.
    pub open spec fn has_in_place(&self, pre: &Self, token: Token, conn: TcpConnection<C>) -> bool {
        &&& self.only_connections_changed(pre)
        &&& self.local_connections@ == pre.local_connections@.insert(pre.key(token), conn)
        &&& self.local_connections.limit() == pre.local_connections.limit()
        &&& self.local_connections.peak() == pre.local_connections.peak()
        &&& self.local_connections.free() == pre.local_connections.free()
    }

    /// This dispatcher was just made, for `cap` connections.
    pub open spec fn is_new(&self, cap: usize, offset: int) -> bool {
        &&& self.wf()
        &&& self.local_connections@ == Map::<usize, TcpConnection<C>>::empty()
        &&& self.local_connections.limit() == cap
        &&& self.local_connections.peak() == 0
        &&& self.local_connections.free() == Seq::<usize>::empty()
        &&& self.pendings@ == Map::<usize, C::Setup>::empty()
        &&& self.timers@ == Map::<C::Mark, (Timeout, Token, C::Once)>::empty()
        &&& self.timers2@ == Map::<C::Mark, (Timeout, Token, C::Every)>::empty()
        &&& self.offset == offset
    }

    /// This dispatcher was just made for the `seq`-th of the event loops of a server, each for
    /// `cap` connections.
    pub open spec fn is_first_of(&self, cap: usize, seq: usize) -> bool {
        self.is_new(cap, seq * cap)
    }

    /// The connection with token `token` is `conn`; it comes back as `back`, which makes
    /// `post` of this dispatcher.
    pub open spec fn lends(&self, token: Token, conn: TcpConnection<C>, back: TcpConnection<C>, post: &Self) -> bool {
        &&& self.knows(token)
        &&& conn == self.connection(token)
        &&& post.has_in_place(self, token, back)
        &&& back.wf() && back.token == token ==> post.wf()
    }

    /// A dispatcher without connections, created for `cap` of them.
    pub fn new(cap: usize, offset: usize) -> (r: Self)
        requires
            cap * 16 <= isize::MAX,
            obeys_key_model::<C::Mark>(),
        ensures
            r.is_new(cap, offset as int),
    {
        Dispatcher {
            local_connections: Slots::with_capacity(cap),
            pendings: HashMap::new(),
            timers: HashMap::new(),
            timers2: HashMap::new(),
            offset,
        }
    }

    /// The dispatcher of the `seq`-th of the event loops of a server, each for `cap`
    /// connections.
    pub fn of_loop(cap: usize, seq: usize) -> (r: Self)
        requires
            cap * 16 <= isize::MAX,
            seq * cap <= usize::MAX,
            obeys_key_model::<C::Mark>(),
        ensures
            r.is_first_of(cap, seq),
    {
        Self::new(cap, seq * cap)
    }

    fn restore_key(&self, token: Token) -> (key: usize)
        requires
            self.in_range(token),
        ensures
            key == self.key(token),
    {
        token.0 - self.offset
    }

    /// The connection with token `token`, to be changed in place.
    pub fn with_connection(&mut self, token: Token) -> (r: Option<&mut TcpConnection<C>>)
        requires
            old(self).wf(),
            old(self).in_range(token),
        ensures
            match r {
                Some(c) => old(self).lends(token, *c, *final(c), final(self)),
                None => !old(self).knows(token) && *final(self) == *old(self),
            },
    {
        let key: usize = self.restore_key(token);
        if self.local_connections.contains(key) {
            self.local_connections.get_mut(key)
        } else {
            None
        }
    }
}

/// What to do about an event of a connection, in this order.
#[derive(Debug, Copy, Clone, PartialEq, Eq, Structural)]
pub struct IoPlan {
    /// Ask the socket for its peer, and report the outcome.
    pub check_peer: bool,
    /// Read what has arrived.
    pub read: bool,
    /// Write what waits in the output.
    pub write: bool,
}

/// A timer that has run out.
pub enum Fired<C: ConnTypes> {
    /// There is none of that mark.
    Unknown,
    /// Call this with the connection, if it is still there.
    Once(Token, C::Once),
    /// Call this with the connection, if it is still there, and keep the timer.
    Every(Timeout, Token, C::Every),
}

impl<C: ConnTypes> Dispatcher<C> {
    /// The connection that `stream` is to become, where the dispatcher has room for
    /// `capacity` connections.
    pub fn new_connection_with(
        &self,
        stream: C::Stream,
        addr: C::Addr,
        setup: C::Setup,
        capacity: usize,
    ) -> (r: NewConnection<C>)
        requires
            self.wf(),
            self.next_token() <= usize::MAX,
        ensures
            r == self.newcomer(stream, addr, setup, capacity),
    {
        let full = self.local_connections.len() == capacity;
        let key: usize = self.local_connections.vacant_key();
        NewConnection { token: Token(self.offset + key), full, stream, addr, setup }
    }

    /// The connection that `stream` is to become, where the dispatcher has room for
    /// `capacity` connections: it gets the next token, and its socket is shut down
    /// first if the room is used up.
    pub open spec fn newcomer(
        &self,
        stream: C::Stream,
        addr: C::Addr,
        setup: C::Setup,
        capacity: usize,
    ) -> NewConnection<C> {
        NewConnection {
            token: Token(self.next_token() as usize),
            full: self.local_connections@.dom().len() == capacity,
            stream,
            addr,
            setup,
        }
    }

    /// How many connections there is room for before memory has to be allocated. At
    /// least as many as the dispatcher was created for, and as it has held before.
    pub fn capacity(&self) -> (n: usize)
        requires
            self.wf(),
        ensures
            n >= self.local_connections.limit(),
            n >= self.local_connections.peak(),
    {
        self.local_connections.capacity()
    }

    /// `post` holds the connections of this dispatcher and `conn`, which is new.
    pub open spec fn takes_up(&self, conn: TcpConnection<C>, post: &Self) -> bool {
        &&& !self.knows(conn.token)
        &&& post.local_connections@ == self.local_connections@.insert(self.key(conn.token), conn)
        &&& post.local_connections.limit() == self.local_connections.limit()
        &&& post.local_connections.peak() == self.local_connections.peak_after_insert()
        &&& post.local_connections.free() == free_after_insert(self.local_connections.free())
    }

    /// Adding `conn` makes `post` of this dispatcher.
    pub open spec fn joined(&self, conn: TcpConnection<C>, post: &Self) -> bool {
        &&& post.only_connections_changed(self)
        &&& self.takes_up(conn, post)
    }

    /// Adding `conn`, whose connection attempt is under way, makes `post` of this dispatcher;
    /// `setup` is called once the attempt succeeds.
    pub open spec fn joined_connecting(&self, conn: TcpConnection<C>, setup: C::Setup, post: &Self) -> bool {
        &&& *post == (Dispatcher { local_connections: post.local_connections, pendings: post.pendings, ..*self })
        &&& self.takes_up(conn, post)
        &&& post.pendings@ == self.pendings@.insert(conn.token.0, setup)
    }

    /// Adds a connection that was made with the token it is to have.
    pub fn add_connection(&mut self, conn: TcpConnection<C>)
        requires
            old(self).wf(),
            conn.wf(),
            conn.token.0 == old(self).next_token(),
        ensures
            final(self).wf(),
            old(self).joined(conn, final(self)),
    {
        self.local_connections.insert(conn);
    }

    /// Adds a connection that was made with the token it is to have and whose connection
    /// attempt is under way; `setup` is called once it succeeds.
    pub fn add_connecting(&mut self, conn: TcpConnection<C>, setup: C::Setup)
        requires
            old(self).wf(),
            conn.wf(),
            conn.token.0 == old(self).next_token(),
        ensures
            final(self).wf(),
            old(self).joined_connecting(conn, setup, final(self)),
    {
        let token: usize = conn.token.0;
        self.local_connections.insert(conn);
        self.pendings.insert(token, setup);
    }

    /// Taking the connection with token `token` out gives `conn`, and makes `post` of this
    /// dispatcher.
    pub open spec fn gives_up(&self, token: Token, conn: TcpConnection<C>, post: &Self) -> bool {
        &&& conn == self.connection(token)
        &&& post.lacks(self, token)
    }

    /// What to do about an event of the connection with token `token`.
    pub open spec fn plan(&self, token: Token, readable: bool, writable: bool) -> IoPlan {
        IoPlan {
            check_peer: self.knows(token) && readable && self.pendings@.contains_key(token.0),
            read: self.knows(token) && readable && !self.pendings@.contains_key(token.0),
            write: self.knows(token) && writable,
        }
    }

    /// Asking a connection for its peer has come to `peer`: `r`, if anything, is to be called
    /// with it, and this dispatcher becomes `post`.
    pub open spec fn peer_asked(&self, token: Token, peer: Peer, r: Option<C::Setup>, post: &Self) -> bool {
        &&& *post == (Dispatcher { pendings: post.pendings, ..*self })
        &&& match peer {
            Peer::Connected => {
                &&& r == Some(self.pendings@[token.0])
                &&& post.pendings@ == self.pendings@.remove(token.0)
            },
            _ => r is None && *post == *self,
        }
    }

    /// `r` is the timer `mark`, which has run out and repeats or not, and this dispatcher
    /// becomes `post`.
    pub open spec fn fires(&self, mark: C::Mark, repeat: bool, r: Fired<C>, post: &Self) -> bool {
        if !repeat {
            if self.timers@.contains_key(mark) {
                &&& r == Fired::<C>::Once(self.timers@[mark].1, self.timers@[mark].2)
                &&& *post == (Dispatcher { timers: post.timers, ..*self })
                &&& post.timers@ == self.timers@.remove(mark)
            } else {
                r is Unknown && post.same(self)
            }
        } else {
            if self.timers2@.contains_key(mark) {
                &&& r == Fired::<C>::Every(self.timers2@[mark].0, self.timers2@[mark].1, self.timers2@[mark].2)
                &&& *post == (Dispatcher { timers2: post.timers2, ..*self })
                &&& post.timers2@ == self.timers2@.remove(mark)
            } else {
                r is Unknown && post.same(self)
            }
        }
    }

    /// Giving the repeating timer `mark` back makes `post` of this dispatcher.
    pub open spec fn keeps(&self, mark: C::Mark, timeout: Timeout, token: Token, f: C::Every, post: &Self) -> bool {
        &&& *post == (Dispatcher { timers2: post.timers2, ..*self })
        &&& post.timers2@ == self.timers2@.insert(mark, (timeout, token, f))
    }

    /// Takes the connection with token `token` out.
    pub fn remove_connection(&mut self, token: Token) -> (r: TcpConnection<C>)
        requires
            old(self).wf(),
            old(self).knows(token),
        ensures
            final(self).wf(),
            old(self).gives_up(token, r, final(self)),
    {
        let key: usize = self.restore_key(token);
        match self.local_connections.try_remove(key) {
            Some(conn) => conn,
            None => vstd::pervasive::unreached(),
        }
    }

    /// This dispatcher is `pre` without the connection with token `token`, whose token
    /// the next connection will have.
    pub open spec fn lacks(&self, pre: &Self, token: Token) -> bool {
        &&& self.only_connections_changed(pre)
        &&& self.local_connections@ == pre.local_connections@.remove(pre.key(token))
        &&& self.local_connections.limit() == pre.local_connections.limit()
        &&& self.local_connections.peak() == pre.local_connections.peak()
        &&& self.local_connections.free() == seq![pre.key(token)] + pre.local_connections.free()
    }

    /// What to do about an event. A connection whose attempt to connect is under way is
    /// asked for its peer rather than read.
    pub fn handle_io_event(&self, token: Token, readable: bool, writable: bool) -> (r: IoPlan)
        requires
            self.wf(),
            self.in_range(token),
        ensures
            r == self.plan(token, readable, writable),
    {
        let known = self.local_connections.contains(self.restore_key(token));
        let pending = self.pendings.contains_key(&token.0);
        IoPlan {
            check_peer: known && readable && pending,
            read: known && readable && !pending,
            write: known && writable,
        }
    }

    /// What follows once a connection whose attempt to connect was under way has been
    /// asked for its peer: if it has one, what is to be called with it, after which
    /// it is told that it is established.
    pub fn peer_checked(&mut self, token: Token, peer: Peer) -> (r: Option<C::Setup>)
        requires
            old(self).wf(),
            old(self).pendings@.contains_key(token.0),
        ensures
            final(self).wf(),
            old(self).peer_asked(token, peer, r, final(self)),
    {
        match peer {
            Peer::Connected => self.pendings.remove(&token.0),
            Peer::Connecting => None,
            Peer::Failed => None,
        }
    }

    /// Takes the timer `mark` as it runs out. One that repeats has to be given back with
    /// `keep_timer`.
    pub fn handle_timeout(&mut self, mark: &C::Mark, repeat: bool) -> (r: Fired<C>)
        requires
            old(self).wf(),
        ensures
            final(self).wf(),
            old(self).fires(*mark, repeat, r, final(self)),
    {
        if !repeat {
            match self.timers.remove(mark) {
                Some((_, token, f)) => Fired::Once(token, f),
                None => {
                    assert(self.timers@ =~= old(self).timers@);
                    Fired::Unknown
                },
            }
        } else {
            match self.timers2.remove(mark) {
                Some((timeout, token, f)) => Fired::Every(timeout, token, f),
                None => {
                    assert(self.timers2@ =~= old(self).timers2@);
                    Fired::Unknown
                },
            }
        }
    }

    /// This dispatcher holds what `pre` does.
    pub open spec fn same(&self, pre: &Self) -> bool {
        &&& self.local_connections == pre.local_connections
        &&& self.pendings@ == pre.pendings@
        &&& self.timers@ == pre.timers@
        &&& self.timers2@ == pre.timers2@
        &&& self.offset == pre.offset
    }

    /// Gives a repeating timer back that has run out.
    pub fn keep_timer(&mut self, mark: C::Mark, timeout: Timeout, token: Token, f: C::Every)
        requires
            old(self).wf(),
        ensures
            final(self).wf(),
            old(self).keeps(mark, timeout, token, f, final(self)),
    {
        self.timers2.insert(mark, (timeout, token, f));
    }

    /// Noting `timeout` for the repeating timer `mark` makes `post` of this dispatcher. The
    /// timers that run once are left alone.
    pub open spec fn refreshed(&self, mark: C::Mark, timeout: Timeout, post: &Self) -> bool {
        &&& *post == (Dispatcher { timers2: post.timers2, ..*self })
        &&& post.timers2@ == (if self.timers2@.contains_key(mark) {
            let (_, token, f) = self.timers2@[mark];
            self.timers2@.insert(mark, (timeout, token, f))
        } else {
            self.timers2@
        })
    }

    /// Notes the timeout that a repeating timer was scheduled again for, so that it can be
    /// taken back.
    pub fn refresh_timeout(&mut self, mark: C::Mark, timeout: Timeout)
        requires
            old(self).wf(),
        ensures
            final(self).wf(),
            old(self).refreshed(mark, timeout, final(self)),
    {
        match self.timers2.remove(&mark) {
            Some((_, token, f)) => {
                self.timers2.insert(mark, (timeout, token, f));
                assert(self.timers2@ =~= old(self).timers2@.insert(mark, (timeout, token, f)));
            },
            None => {
                assert(self.timers2@ =~= old(self).timers2@);
            },
        }
    }
}

/// What adding a timer comes to, where scheduling its timeout comes to `scheduled`.
pub open spec fn timer_action<C: ConnTypes>(scheduled: Result<TimerResult, ClockError>) -> Action<C> {
    match scheduled {
        Ok(Ok(_)) => Action::Nothing,
        Ok(Err(e)) => Action::TimerRefused(e),
        Err(e) => Action::ClockFailed(e),
    }
}

/// Scheduling a timeout under a clone of `mark`, where the clock reads `clock`, comes to
/// `r` and makes `post` of the event loop `pre`.
pub open spec fn schedules<M, K: Clone>(
    pre: &EventLoop<M, K>,
    clock: Result<u64, ClockError>,
    delay: u64,
    interval: u64,
    mark: K,
    r: Result<TimerResult, ClockError>,
    post: &EventLoop<M, K>,
) -> bool {
    &&& post.only_timer_changed(pre)
    &&& exists|again: K|
        cloned(mark, again) && #[trigger] pre.timer@.scheduled_by(clock, delay, interval, again, r, post.timer@)
}

/// Cancelling `timeout` makes `post` of the event loop `pre`.
pub open spec fn cancels<M, K>(pre: &EventLoop<M, K>, timeout: Timeout, post: &EventLoop<M, K>) -> bool {
    &&& post.only_timer_changed(pre)
    &&& post.timer@ == (if pre.timer@.entries.contains_key(timeout.key) && pre.timer@.entries[timeout.key].tick
        == timeout.tick {
        pre.timer@.removed(timeout.key)
    } else {
        pre.timer@
    })
}

/// Schedules a timeout under a clone of `mark`, where the clock reads `clock`.
fn schedule<M, K: Clone>(
    event_loop: &mut EventLoop<M, K>,
    clock: Result<u64, ClockError>,
    delay: u64,
    interval: u64,
    mark: &K,
) -> (r: Result<TimerResult, ClockError>)
    requires
        old(event_loop).wf(),
    ensures
        final(event_loop).wf(),
        schedules(old(event_loop), clock, delay, interval, *mark, r, final(event_loop)),
{
    let again = mark.clone();
    let r = event_loop.timer.timeout_ms_with(clock, delay, interval, again);
    assert(cloned(*mark, again) && old(event_loop).timer@.scheduled_by(
        clock,
        delay,
        interval,
        again,
        r,
        event_loop.timer@,
    ));
    r
}

impl<C: ConnTypes> Dispatcher<C> {
    /// The dispatcher can act on `msg`: it names a token of this dispatcher, where it
    /// names one to be looked up, and a connection that is there, where it removes
    /// one; a new connection can have a token, and output that waits fits into
    /// memory.
    pub open spec fn accepts(&self, msg: TcpConnMessage<C>) -> bool {
        match msg {
            TcpConnMessage::Established(_, _, _) => self.next_token() <= usize::MAX,
            TcpConnMessage::Connecting(_, _, _) => true,
            TcpConnMessage::Removed(token) => self.knows(token),
            TcpConnMessage::Write(token, data) => {
                &&& self.in_range(token)
                &&& self.knows(token) && self.connection(token).must_wait() ==> self.connection(
                    token,
                ).output.has_room_for(data@.len() as int)
            },
            TcpConnMessage::WriteComplete(token) => self.in_range(token),
            TcpConnMessage::Enable(token, mode) => self.in_range(token) && mode.wf(),
            TcpConnMessage::Disable(token, mode) => self.in_range(token),
            TcpConnMessage::Shutdown(token, _) => self.in_range(token),
            TcpConnMessage::SetContext(token, _) => self.in_range(token),
            TcpConnMessage::AddTimer(_, _, _, _) => true,
            TcpConnMessage::AddTimer2(_, _, _, _, _) => true,
            TcpConnMessage::CancelTimer(_, _) => true,
        }
    }

    /// Whether the dispatcher can act on `msg`.
    pub fn can_accept(&self, msg: &TcpConnMessage<C>) -> (r: bool)
        requires
            self.wf(),
        ensures
            r == self.accepts(*msg),
    {
        match msg {
            TcpConnMessage::Established(_, _, _) => self.local_connections.vacant_key() <= usize::MAX - self.offset,
            TcpConnMessage::Connecting(_, _, _) => true,
            TcpConnMessage::Removed(token) => self.offset <= token.0 && self.local_connections.contains(
                self.restore_key(*token),
            ),
            TcpConnMessage::Write(token, data) => self.offset <= token.0 && match self.local_connections.get(
                self.restore_key(*token),
            ) {
                Some(conn) => !(conn.interests.is_writing() || conn.output.readable_bytes() > 0)
                    || conn.output.has_room(data.len()),
                None => true,
            },
            TcpConnMessage::WriteComplete(token) => self.offset <= token.0,
            TcpConnMessage::Enable(token, mode) => self.offset <= token.0 && mode.is_some(),
            TcpConnMessage::Disable(token, _) => self.offset <= token.0,
            TcpConnMessage::Shutdown(token, _) => self.offset <= token.0,
            TcpConnMessage::SetContext(token, _) => self.offset <= token.0,
            TcpConnMessage::AddTimer(_, _, _, _) => true,
            TcpConnMessage::AddTimer2(_, _, _, _, _) => true,
            TcpConnMessage::CancelTimer(_, _) => true,
        }
    }

    /// What `msg` makes of this dispatcher and of the event loop `before`, where there is
    /// room for `capacity` connections and the clock reads `clock`, and what is then
    /// left to do.
    pub open spec fn notified<M>(
        &self,
        before: &EventLoop<M, C::Mark>,
        msg: TcpConnMessage<C>,
        capacity: usize,
        clock: Result<u64, ClockError>,
        r: Action<C>,
        post: &Self,
        after: &EventLoop<M, C::Mark>,
    ) -> bool {
        match msg {
            TcpConnMessage::Established(stream, addr, setup) => {
                &&& r == Action::Establish(self.newcomer(stream, addr, setup, capacity))
                &&& *post == *self
                &&& *after == *before
            },
            TcpConnMessage::Connecting(stream, addr, setup) => {
                &&& r == Action::<C>::CheckPeer(stream, addr, setup)
                &&& *post == *self
                &&& *after == *before
            },
            TcpConnMessage::Removed(token) => {
                &&& r == Action::Removed(self.connection(token))
                &&& post.lacks(self, token)
                &&& *after == *before
            },
            TcpConnMessage::Write(token, data) => {
                &&& *after == *before
                &&& if self.knows(token) {
                    &&& r matches Action::Send(t, d, step) && t == token && d == data
                        && post.has_in_place(self, token, post.connection(token)) && self.connection(
                        token,
                    ).send_starts(data@, step, &post.connection(token))
                } else {
                    r is Nothing && *post == *self
                }
            },
            TcpConnMessage::WriteComplete(token) => {
                &&& r == (if self.knows(token) {
                    Action::<C>::WriteComplete(token)
                } else {
                    Action::Nothing
                })
                &&& *post == *self
                &&& *after == *before
            },
            TcpConnMessage::Enable(token, mode) => {
                &&& *after == *before
                &&& if self.knows(token) {
                    let conn = self.connection(token);
                    let registration = enabling(conn.interests, mode);
                    &&& r == Action::<C>::Register(token, registration)
                    &&& post.has_in_place(
                        self,
                        token,
                        TcpConnection { interests: registration.watches(), ..conn },
                    )
                } else {
                    r is Nothing && *post == *self
                }
            },
            TcpConnMessage::Disable(token, mode) => {
                &&& *after == *before
                &&& if self.knows(token) {
                    let conn = self.connection(token);
                    let registration = disabling(conn.interests, mode);
                    &&& r == (match registration {
                        Some(x) => Action::<C>::Register(token, x),
                        None => Action::Nothing,
                    })
                    &&& post.has_in_place(
                        self,
                        token,
                        TcpConnection { interests: watched(conn.interests, registration), ..conn },
                    )
                } else {
                    r is Nothing && *post == *self
                }
            },
            TcpConnMessage::Shutdown(token, how) => {
                &&& r == (if self.knows(token) && !self.connection(token).interests.writing() {
                    Action::<C>::Shutdown(token, how)
                } else {
                    Action::Nothing
                })
                &&& *post == *self
                &&& *after == *before
            },
            TcpConnMessage::SetContext(token, f) => {
                &&& r == (if self.knows(token) {
                    Action::<C>::Call(token, f)
                } else {
                    Action::Nothing
                })
                &&& *post == *self
                &&& *after == *before
            },
            TcpConnMessage::AddTimer(token, delay, mark, f) => exists|scheduled: Result<TimerResult, ClockError>|
                {
                    &&& #[trigger] schedules(before, clock, delay, 0, mark, scheduled, after)
                    &&& r == timer_action::<C>(scheduled)
                    &&& *post == (Dispatcher { timers: post.timers, ..*self })
                    &&& post.timers@ == (match scheduled {
                        Ok(Ok(timeout)) => self.timers@.insert(mark, (timeout, token, f)),
                        _ => self.timers@,
                    })
                },
            TcpConnMessage::AddTimer2(token, delay, interval, mark, f) => exists|
                scheduled: Result<TimerResult, ClockError>,
            |
                {
                    &&& #[trigger] schedules(before, clock, delay, interval, mark, scheduled, after)
                    &&& r == timer_action::<C>(scheduled)
                    &&& *post == (Dispatcher { timers2: post.timers2, ..*self })
                    &&& post.timers2@ == (match scheduled {
                        Ok(Ok(timeout)) => self.timers2@.insert(mark, (timeout, token, f)),
                        _ => self.timers2@,
                    })
                },
            TcpConnMessage::CancelTimer(_, mark) => {
                &&& r is Nothing
                &&& post.local_connections == self.local_connections
                &&& post.pendings == self.pendings
                &&& post.offset == self.offset
                &&& if self.timers@.contains_key(mark) {
                    &&& post.timers@ == self.timers@.remove(mark)
                    &&& post.timers2 == self.timers2
                    &&& cancels(before, self.timers@[mark].0, after)
                } else {
                    &&& post.timers@ == self.timers@
                    &&& post.timers2@ == self.timers2@.remove(mark)
                    &&& if self.timers2@.contains_key(mark) {
                        cancels(before, self.timers2@[mark].0, after)
                    } else {
                        *after == *before
                    }
                }
            },
        }
    }

    /// Acts on `msg`, where there is room for `capacity` connections and the clock reads
    /// `clock`, and returns what is left to do.
    pub fn handle_notify_with<M>(
        &mut self,
        msg: TcpConnMessage<C>,
        event_loop: &mut EventLoop<M, C::Mark>,
        capacity: usize,
        clock: Result<u64, ClockError>,
    ) -> (r: Action<C>)
        requires
            old(self).wf(),
            old(event_loop).wf(),
            old(self).accepts(msg),
        ensures
            final(self).wf(),
            final(event_loop).wf(),
            old(self).notified(old(event_loop), msg, capacity, clock, r, final(self), final(event_loop)),
    {
        match msg {
            TcpConnMessage::Established(stream, addr, setup) => Action::Establish(
                self.new_connection_with(stream, addr, setup, capacity),
            ),
            TcpConnMessage::Connecting(stream, addr, setup) => Action::CheckPeer(stream, addr, setup),
            TcpConnMessage::Removed(token) => Action::Removed(self.remove_connection(token)),
            TcpConnMessage::Write(token, data) => {
                let step = match self.with_connection(token) {
                    Some(conn) => conn.send(data.as_slice()),
                    None => return Action::Nothing,
                };
                Action::Send(token, data, step)
            },
            TcpConnMessage::WriteComplete(token) => {
                if self.local_connections.contains(self.restore_key(token)) {
                    Action::WriteComplete(token)
                } else {
                    Action::Nothing
                }
            },
            TcpConnMessage::Enable(token, mode) => match self.with_connection(token) {
                Some(conn) => Action::Register(token, conn.enable_io(mode)),
                None => Action::Nothing,
            },
            TcpConnMessage::Disable(token, mode) => match self.with_connection(token) {
                Some(conn) => match conn.disable_io(mode) {
                    Some(registration) => Action::Register(token, registration),
                    None => Action::Nothing,
                },
                None => Action::Nothing,
            },
            TcpConnMessage::Shutdown(token, how) => match self.local_connections.get(self.restore_key(token)) {
                Some(conn) => if !conn.interests.is_writing() {
                    Action::Shutdown(token, how)
                } else {
                    Action::Nothing
                },
                None => Action::Nothing,
            },
            TcpConnMessage::SetContext(token, f) => {
                if self.local_connections.contains(self.restore_key(token)) {
                    Action::Call(token, f)
                } else {
                    Action::Nothing
                }
            },
            TcpConnMessage::AddTimer(token, delay, mark, f) => {
                let scheduled = schedule(event_loop, clock, delay, 0, &mark);
                assert(schedules(old(event_loop), clock, delay, 0, mark, scheduled, event_loop));
                match scheduled {
                    Ok(Ok(timeout)) => {
                        self.timers.insert(mark, (timeout, token, f));
                        Action::Nothing
                    },
                    Ok(Err(e)) => Action::TimerRefused(e),
                    Err(e) => Action::ClockFailed(e),
                }
            },
            TcpConnMessage::AddTimer2(token, delay, interval, mark, f) => {
                let scheduled = schedule(event_loop, clock, delay, interval, &mark);
                assert(schedules(old(event_loop), clock, delay, interval, mark, scheduled, event_loop));
                match scheduled {
                    Ok(Ok(timeout)) => {
                        self.timers2.insert(mark, (timeout, token, f));
                        Action::Nothing
                    },
                    Ok(Err(e)) => Action::TimerRefused(e),
                    Err(e) => Action::ClockFailed(e),
                }
            },
            TcpConnMessage::CancelTimer(_, mark) => {
                if let Some((timeout, _, _)) = self.timers.remove(&mark) {
                    event_loop.cancel(timeout);
                } else if let Some((timeout, _, _)) = self.timers2.remove(&mark) {
                    assert(self.timers@ =~= old(self).timers@);
                    event_loop.cancel(timeout);
                } else {
                    assert(self.timers@ =~= old(self).timers@);
                    assert(self.timers2@ =~= old(self).timers2@.remove(mark));
                }
                Action::Nothing
            },
        }
    }

    /// Acts on `msg`, and returns what is left to do.
    pub fn handle_notify<M>(
        &mut self,
        msg: TcpConnMessage<C>,
        event_loop: &mut EventLoop<M, C::Mark>,
    ) -> (r: Action<C>)
        requires
            old(self).wf(),
            old(event_loop).wf(),
            old(self).accepts(msg),
        ensures
            final(self).wf(),
            final(event_loop).wf(),
            exists|capacity: usize, clock: Result<u64, ClockError>|
                {
                    &&& #[trigger] old(self).notified(
                        old(event_loop),
                        msg,
                        capacity,
                        clock,
                        r,
                        final(self),
                        final(event_loop),
                    )
                    &&& capacity >= old(self).local_connections.limit()
                    &&& capacity >= old(self).local_connections.peak()
                },
    {
        let capacity: usize = self.capacity();
        let clock = now_ms();
        self.handle_notify_with(msg, event_loop, capacity, clock)
    }

    /// What to do about a socket that is to be connected and has been asked for its peer,
    /// where there is room for `capacity` connections.
    pub open spec fn to_connect(
        &self,
        peer: Peer,
        stream: C::Stream,
        addr: C::Addr,
        setup: C::Setup,
        capacity: usize,
    ) -> Action<C> {
        match peer {
            Peer::Connected => Action::Establish(self.newcomer(stream, addr, setup, capacity)),
            Peer::Connecting => Action::Connect(self.newcomer(stream, addr, setup, capacity)),
            Peer::Failed => Action::ConnectFailed(addr),
        }
    }

    /// What to do about a socket that is to be connected, once it has been asked for its
    /// peer, where there is room for `capacity` connections.
    pub fn connecting_with(
        &self,
        peer: Peer,
        stream: C::Stream,
        addr: C::Addr,
        setup: C::Setup,
        capacity: usize,
    ) -> (r: Action<C>)
        requires
            self.wf(),
            self.next_token() <= usize::MAX,
        ensures
            r == self.to_connect(peer, stream, addr, setup, capacity),
    {
        match peer {
            Peer::Connected => Action::Establish(self.new_connection_with(stream, addr, setup, capacity)),
            Peer::Connecting => Action::Connect(self.new_connection_with(stream, addr, setup, capacity)),
            Peer::Failed => Action::ConnectFailed(addr),
        }
    }

    /// What to do about a socket that is to be connected, once it has been asked for its
    /// peer.
    pub fn connecting(&self, peer: Peer, stream: C::Stream, addr: C::Addr, setup: C::Setup) -> (r: Action<C>)
        requires
            self.wf(),
            self.next_token() <= usize::MAX,
        ensures
            exists|capacity: usize|
                {
                    &&& capacity >= self.local_connections.limit()
                    &&& capacity >= self.local_connections.peak()
                    &&& r == #[trigger] self.to_connect(peer, stream, addr, setup, capacity)
                },
    {
        let capacity: usize = self.capacity();
        self.connecting_with(peer, stream, addr, setup, capacity)
    }

    /// What ends the watching of a connection altogether asks of the poller.
    pub open spec fn farewell(conn: TcpConnection<C>) -> Option<Registration> {
        disabling(conn.interests, Interest::reading().union(Interest::writing()))
    }

    /// The connection `conn` once it is watched for neither reading nor writing.
    pub open spec fn unwatched(conn: TcpConnection<C>) -> TcpConnection<C> {
        TcpConnection { interests: watched(conn.interests, Self::farewell(conn)), ..conn }
    }

    /// Stopping to watch all connections makes `post` of this dispatcher, and `r` is what to
    /// tell the poller about each, in the order of their tokens.
    pub open spec fn winds_down(&self, r: Seq<(Token, Option<Registration>)>, post: &Self) -> bool {
        let conns = self.local_connections@;
        let keys = keys_below(conns, self.local_connections.peak());
        &&& post.only_connections_changed(self)
        &&& r.len() == keys.len()
        &&& forall|i: int|
            0 <= i < r.len() ==> #[trigger] r[i] == (conns[keys[i]].token, Self::farewell(conns[keys[i]]))
        &&& post.local_connections@.dom() == conns.dom()
        &&& post.local_connections.limit() == self.local_connections.limit()
        &&& post.local_connections.peak() == self.local_connections.peak()
        &&& post.local_connections.free() == self.local_connections.free()
        &&& forall|k: usize| #[trigger]
            conns.contains_key(k) ==> post.local_connections@[k] == Self::unwatched(conns[k])
    }

    /// Stops watching all connections for reading and writing, in the order of their
    /// tokens, and returns what to tell the poller about each.
    pub fn graceful_shutdown(&mut self) -> (r: Vec<(Token, Option<Registration>)>)
        requires
            old(self).wf(),
        ensures
            final(self).wf(),
            old(self).winds_down(r@, final(self)),
    {
        let keys = self.local_connections.keys();
        let mode = Interest::to_read().add(Interest::to_write());
        let mut r: Vec<(Token, Option<Registration>)> = Vec::new();
        let ghost pre = self.local_connections@;
        let ghost said = |k: usize| (pre[k].token, Dispatcher::<C>::farewell(pre[k]));
        proof {
            law_keys_ascend(pre, self.local_connections.peak());
        }
        let mut i: usize = 0;
        while i < keys.len()
            invariant
                pre == old(self).local_connections@,
                said == (|k: usize| (pre[k].token, Dispatcher::<C>::farewell(pre[k]))),
                mode == Interest::reading().union(Interest::writing()),
                i <= keys@.len(),
                forall|a: int, b: int| 0 <= a < b < keys@.len() ==> keys@[a] < keys@[b],
                forall|k: usize| #[trigger] keys@.contains(k) ==> pre.contains_key(k),
                self.wf(),
                self.only_connections_changed(old(self)),
                self.local_connections@.dom() == pre.dom(),
                self.local_connections.limit() == old(self).local_connections.limit(),
                self.local_connections.peak() == old(self).local_connections.peak(),
                self.local_connections.free() == old(self).local_connections.free(),
                r@ == keys@.take(i as int).map_values(said),
                forall|j: int|
                    0 <= j < i ==> self.local_connections@[#[trigger] keys@[j]] == (TcpConnection {
                        interests: watched(pre[keys@[j]].interests, Dispatcher::<C>::farewell(pre[keys@[j]])),
                        ..pre[keys@[j]]
                    }),
                forall|k: usize|
                    pre.contains_key(k) && !keys@.take(i as int).contains(k) ==> #[trigger] self.local_connections@[k]
                        == pre[k],
            decreases keys@.len() - i,
        {
            let key: usize = keys[i];
            let ghost mid = self.local_connections@;
            assert(keys@.contains(key));
            assert(!keys@.take(i as int).contains(key));
            if let Some(conn) = self.local_connections.get_mut(key) {
                let registration = conn.disable_io(mode);
                r.push((conn.token, registration));
            }
            proof {
                let now = self.local_connections@;
                assert(now.dom() =~= mid.dom());
                assert(keys@.take(i + 1) =~= keys@.take(i as int).push(key));
                assert(keys@.take(i + 1).map_values(said) =~= keys@.take(i as int).map_values(said).push(said(key)));
                assert forall|k: usize| pre.contains_key(k) && !keys@.take(i + 1).contains(k) implies #[trigger] now[k]
                    == pre[k] by {
                    assert(keys@.take(i + 1)[i as int] == key);
                    if keys@.take(i as int).contains(k) {
                        let j = choose|j: int| 0 <= j < i && keys@.take(i as int)[j] == k;
                        assert(keys@.take(i + 1)[j] == k);
                    }
                    assert(mid[k] == pre[k]);
                }
            }
            i = i + 1;
        }
        proof {
            assert(keys@.take(i as int) =~= keys@);
            assert forall|k: usize| #[trigger] pre.contains_key(k) implies self.local_connections@[k] == (
            TcpConnection {
                interests: watched(pre[k].interests, Dispatcher::<C>::farewell(pre[k])),
                ..pre[k]
            }) by {
                old(self).local_connections.law_keys();
                assert(keys@.contains(k));
                let j = choose|j: int| 0 <= j < keys@.len() && keys@[j] == k;
                assert(self.local_connections@[keys@[j]] == self.local_connections@[k]);
            }
        }
        r
    }
}

/// Which event loop each connection of a server belongs to, by what notifies the loop.
pub struct Shared<N> {
    pub conn_to_loop: HashMap<usize, N>,
}

impl<N> Shared<N> {
    /// What notifies the loop of the connection with token `token`, if that is noted.
    pub open spec fn loop_of(&self, token: Token) -> Option<N> {
        if self.conn_to_loop@.contains_key(token.0) {
            Some(self.conn_to_loop@[token.0])
        } else {
            None
        }
    }

    /// Noting the loop of a connection makes `post` of this.
    pub open spec fn notes(&self, token: Token, noti: N, post: &Self) -> bool {
        post.conn_to_loop@ == self.conn_to_loop@.insert(token.0, noti)
    }

    /// Forgetting the loop of a connection gives `r`, and makes `post` of this.
    pub open spec fn forgets(&self, token: Token, r: Option<N>, post: &Self) -> bool {
        &&& r == self.loop_of(token)
        &&& post.conn_to_loop@ == self.conn_to_loop@.remove(token.0)
    }

    pub fn new() -> (r: Self)
        ensures
            r.conn_to_loop@ == Map::<usize, N>::empty(),
    {
        Shared { conn_to_loop: HashMap::new() }
    }

    /// What notifies the loop of the connection with token `token`.
    pub fn get_loop_notifier(&self, token: Token) -> (r: Option<&N>)
        ensures
            match r {
                Some(noti) => self.loop_of(token) == Some(*noti),
                None => self.loop_of(token) is None,
            },
    {
        self.conn_to_loop.get(&token.0)
    }

    /// Notes the loop of a new connection, whose token must not be in use.
    pub fn add_connection(&mut self, token: Token, noti: N)
        requires
            !old(self).conn_to_loop@.contains_key(token.0),
        ensures
            old(self).notes(token, noti, final(self)),
    {
        self.conn_to_loop.insert(token.0, noti);
    }

    /// Forgets the loop of a connection, and returns what notifies it.
    pub fn remove_connection(&mut self, token: Token) -> (r: Option<N>)
        ensures
            old(self).forgets(token, r, final(self)),
    {
        let r = self.conn_to_loop.remove(&token.0);
        assert(r is None ==> self.conn_to_loop@ =~= old(self).conn_to_loop@.remove(token.0));
        r
    }

    /// `order` lists the token of every connection once.
    pub open spec fn lists_all(&self, order: Seq<usize>) -> bool {
        &&& order.no_duplicates()
        &&& order.to_set() == self.conn_to_loop@.dom()
    }

    /// `r` is what notifies the loop of each connection, in some order.
    pub open spec fn named_by(&self, r: Seq<&N>) -> bool {
        exists|order: Seq<usize>|
            {
                &&& #[trigger] self.lists_all(order)
                &&& r == order.map_values(|token: usize| &self.conn_to_loop@[token])
            }
    }

    /// What notifies the loop of each connection, in some order.
    pub fn notifiers(&self) -> (r: Vec<&N>)
        ensures
            self.named_by(r@),
    {
        let mut r: Vec<&N> = Vec::new();
        let ghost m = self.conn_to_loop@;
        let ghost mut order: Seq<usize> = Seq::empty();
        assert(order.map_values(|token: usize| &m[token]) =~= Seq::<&N>::empty());
        for key in iter: self.conn_to_loop.keys()
            invariant
                m == self.conn_to_loop@,
                iter.seq().unref().to_set() == m.dom(),
                iter.seq().no_duplicates(),
                order == iter.seq().unref().take(iter.index()),
                order.no_duplicates(),
                iter.index() == iter.seq().len() ==> order.to_set() == m.dom(),
                r@ == order.map_values(|token: usize| &m[token]),
        {
            proof {
                let all = iter.seq().unref();
                assert(all[iter.index()] == *key);
                assert(all.to_set().contains(*key));
                assert(all.take(iter.index() + 1) =~= order.push(*key));
                assert(order.push(*key).map_values(|token: usize| &m[token]) =~= order.map_values(
                    |token: usize| &m[token],
                ).push(&m[*key]));
                assert(!order.contains(*key)) by {
                    if order.contains(*key) {
                        let j = choose|j: int| 0 <= j < order.len() && order[j] == *key;
                        assert(all[j] == *iter.seq()[j]);
                        assert(iter.seq()[j] == iter.seq()[iter.index()]);
                    }
                }
                assert(iter.index() + 1 == all.len() ==> order.push(*key) =~= all);
                order = order.push(*key);
            }
            if let Some(noti) = self.conn_to_loop.get(key) {
                r.push(noti);
            }
        }
        assert(self.lists_all(order));
        r
    }
}

/// A server whose connections are spread over a pool of threads `T`.
pub struct TcpServer<T> {
    pub config: TcpServerConfig,
    pub pool: EventLoopThreadPool<T>,
}

impl<T> TcpServer<T> {
    /// This server was configured by `config`, and none of its threads runs yet.
    pub open spec fn is_made(&self, config: TcpServerConfig) -> bool {
        &&& self.config == config
        &&& self.pool.pool@ == Seq::<T>::empty()
        &&& self.pool.pool_name@ == config.pool_name@
        &&& self.pool.size == config.pool_size
        &&& self.pool.next == 0
    }

    /// The thread `r` is the one for the next connection, which makes `post` of this server.
    pub open spec fn spreads(&self, r: T, post: &Self) -> bool {
        &&& self.pool.takes_turn(r, &post.pool)
        &&& post.config == self.config
    }

    /// A server with `pool_size` threads, each for `max_connections_per` connections.
    pub fn new(pool_size: usize, pool_name: String, max_connections_per: usize) -> (r: Self)
        requires
            pool_size > 0,
        ensures
            r.is_made(TcpServerConfig { pool_size, pool_name, max_connections_per }),
    {
        Self::with_config(TcpServerConfig { pool_size, pool_name, max_connections_per })
    }

    fn with_config(config: TcpServerConfig) -> (r: Self)
        requires
            config.pool_size > 0,
        ensures
            r.is_made(config),
    {
        let size: usize = config.pool_size;
        let pool_name = config.pool_name.clone();
        TcpServer { config, pool: EventLoopThreadPool::new(size, pool_name) }
    }

    /// The thread for the next connection.
    pub fn get_pool_next(&mut self) -> (r: &T)
        requires
            old(self).pool.has_next(),
        ensures
            old(self).spreads(*r, final(self)),
    {
        self.pool.next_loop()
    }
}

} // verus!
