//! What holds of dispatchers over several steps, and among each other.
use crate::event_loop::{expires, EventLoop, Expired};
use crate::readiness::{BufState, Interest, Peer, Registration, Token};
use crate::readiness_laws::{law_interests_named, told, waits_for, Readiness};
use crate::slots::{keys_below, law_keys_ascend};
use crate::tcp_connection::{watched, ConnTypes, SendStep, Shutdown, TcpConnMessage, TcpConnection};
use crate::tcp_connection_laws::{law_disabling, law_enabling, law_send_offers_or_waits};
use crate::tcp_server::{
    schedules, timer_action, Action, Dispatcher, Fired, IoPlan, Shared, TcpServer, TcpServerConfig,
};
use crate::timer::{ClockError, Timeout, TimerEntry, TimerResult, TimerState};
use crate::timer_laws::{law_cancel_undoes_schedule, law_schedule, lemma_fired_valid};
use vstd::pervasive::cloned;
use vstd::prelude::*;

verus! {

/// A dispatcher finds a connection under the token that it gave it.
pub proof fn law_token_leads_back<C: ConnTypes>(d: &Dispatcher<C>, k: usize)
    requires
        d.wf(),
        d.local_connections@.contains_key(k),
    ensures
        d.knows(d.local_connections@[k].token),
        d.key(d.local_connections@[k].token) == k,
        d.connection(d.local_connections@[k].token) == d.local_connections@[k],
{
}

/// No two connections of a server have the same token, as long as no dispatcher has held
/// more connections at once than it was created for.
pub proof fn law_tokens_differ<C: ConnTypes>(
    a: &Dispatcher<C>,
    b: &Dispatcher<C>,
    cap: usize,
    i: int,
    j: int,
    token: Token,
)
    requires
        a.wf(),
        b.wf(),
        0 <= i,
        0 <= j,
        i != j,
        a.offset == i * cap,
        b.offset == j * cap,
        a.local_connections.peak() <= cap,
        b.local_connections.peak() <= cap,
        a.knows(token),
    ensures
        !b.knows(token),
{
    a.local_connections.law_keys();
    b.local_connections.law_keys();
    if b.knows(token) {
        if i < j {
            assert(i * cap + cap <= j * cap) by (nonlinear_arith)
                requires
                    i + 1 <= j,
                    cap >= 0,
            ;
        } else {
            assert(j * cap + cap <= i * cap) by (nonlinear_arith)
                requires
                    j + 1 <= i,
                    cap >= 0,
            ;
        }
    }
}

/// The token of a new connection is not in use anywhere in its server, as long as no
/// dispatcher comes to hold more connections at once than it was created for: so the
/// loop of each connection can be noted under its token.
pub proof fn law_new_token_is_free<N, C: ConnTypes>(
    dispatchers: Seq<Dispatcher<C>>,
    cap: usize,
    i: int,
    noted: Map<usize, N>,
)
    requires
        0 <= i < dispatchers.len(),
        forall|j: int|
            #![trigger dispatchers[j]]
            0 <= j < dispatchers.len() ==> {
                &&& dispatchers[j].wf()
                &&& dispatchers[j].offset == j * cap
                &&& dispatchers[j].local_connections.peak() <= cap
            },
        dispatchers[i].local_connections.peak_after_insert() <= cap,
        dispatchers[i].next_token() <= usize::MAX,
        forall|t: usize| #[trigger]
            noted.contains_key(t) ==> exists|j: int|
                0 <= j < dispatchers.len() && #[trigger] dispatchers[j].knows(Token(t)),
    ensures
        !noted.contains_key(dispatchers[i].next_token() as usize),
{
    let d = dispatchers[i];
    let t = d.next_token() as usize;
    d.local_connections.law_keys();
    if noted.contains_key(t) {
        let j = choose|j: int| 0 <= j < dispatchers.len() && #[trigger] dispatchers[j].knows(Token(t));
        let e = dispatchers[j];
        e.local_connections.law_keys();
        if j < i {
            assert(j * cap + cap <= i * cap) by (nonlinear_arith)
                requires
                    j + 1 <= i,
                    cap >= 0,
            ;
        } else if i < j {
            assert(i * cap + cap <= j * cap) by (nonlinear_arith)
                requires
                    i + 1 <= j,
                    cap >= 0,
            ;
        }
    }
}

/// A connection that is added while a dispatcher holds fewer than `cap` does not make it
/// hold more than `cap`.
pub proof fn law_within_cap<C: ConnTypes>(d: &Dispatcher<C>, cap: nat)
    requires
        d.wf(),
        d.local_connections.peak() <= cap,
        d.local_connections@.dom().len() < cap,
    ensures
        d.local_connections.peak_after_insert() <= cap,
{
    d.local_connections.law_keys();
}

/// A message for a connection that is not there changes nothing and asks for nothing.
pub proof fn law_unknown_ignored<M, C: ConnTypes>(
    pre: &Dispatcher<C>,
    before: &EventLoop<M, C::Mark>,
    msg: TcpConnMessage<C>,
    token: Token,
    capacity: usize,
    clock: Result<u64, ClockError>,
    r: Action<C>,
    post: &Dispatcher<C>,
    after: &EventLoop<M, C::Mark>,
)
    requires
        pre.notified(before, msg, capacity, clock, r, post, after),
        !pre.knows(token),
        match msg {
            TcpConnMessage::Write(t, _) => t == token,
            TcpConnMessage::WriteComplete(t) => t == token,
            TcpConnMessage::Enable(t, _) => t == token,
            TcpConnMessage::Disable(t, _) => t == token,
            TcpConnMessage::Shutdown(t, _) => t == token,
            TcpConnMessage::SetContext(t, _) => t == token,
            _ => false,
        },
    ensures
        r is Nothing,
        *post == *pre,
        *after == *before,
{
}

/// A connection is told to shut down only while nothing of it waits to be written.
pub proof fn law_no_shutdown_while_writing<M, C: ConnTypes>(
    pre: &Dispatcher<C>,
    before: &EventLoop<M, C::Mark>,
    msg: TcpConnMessage<C>,
    capacity: usize,
    clock: Result<u64, ClockError>,
    r: Action<C>,
    post: &Dispatcher<C>,
    after: &EventLoop<M, C::Mark>,
)
    requires
        pre.notified(before, msg, capacity, clock, r, post, after),
        r is Shutdown,
    ensures
        msg is Shutdown,
        pre.knows(r->Shutdown_0),
        !pre.connection(r->Shutdown_0).interests.writing(),
{
}

/// Taking back a timer that runs once undoes adding it: the dispatcher's timers and the
/// event loop's timeouts are as before, but for the room that the timeout took.
pub proof fn law_cancel_undoes_add<M, C: ConnTypes>(
    pre: &Dispatcher<C>,
    before: &EventLoop<M, C::Mark>,
    token: Token,
    delay: u64,
    mark: C::Mark,
    f: C::Once,
    capacity: usize,
    clock: Result<u64, ClockError>,
    mid: &Dispatcher<C>,
    between: &EventLoop<M, C::Mark>,
    r: Action<C>,
    post: &Dispatcher<C>,
    after: &EventLoop<M, C::Mark>,
)
    requires
        before.wf(),
        !pre.timers@.contains_key(mark),
        pre.notified(
            before,
            TcpConnMessage::AddTimer(token, delay, mark, f),
            capacity,
            clock,
            Action::Nothing,
            mid,
            between,
        ),
        mid.notified(between, TcpConnMessage::CancelTimer(token, mark), capacity, clock, r, post, after),
    ensures
        mid.timers@.contains_key(mark),
        post.timers@ == pre.timers@,
        post.timers2 == pre.timers2,
        post.local_connections == pre.local_connections,
        after.timer@ == before.timer@.key_returned(),
{
    let s = choose|s: Result<TimerResult, ClockError>|
        {
            &&& #[trigger] schedules(before, clock, delay, 0, mark, s, between)
            &&& Action::<C>::Nothing == timer_action::<C>(s)
            &&& *mid == (Dispatcher { timers: mid.timers, ..*pre })
            &&& mid.timers@ == (match s {
                Ok(Ok(timeout)) => pre.timers@.insert(mark, (timeout, token, f)),
                _ => pre.timers@,
            })
        };
    let again = choose|again: C::Mark|
        vstd::pervasive::cloned(mark, again) && #[trigger] before.timer@.scheduled_by(
            clock,
            delay,
            0,
            again,
            s,
            between.timer@,
        );
    let timeout = s->Ok_0->Ok_0;
    let entry = TimerEntry { token: again, interval: 0, tick: timeout.tick };
    before.timer.law_valid();
    law_cancel_undoes_schedule(before.timer@, timeout.key, entry);
    assert(post.timers@ =~= pre.timers@);
}

/// A repeating timer that has run out and was refreshed can still be taken back: the event
/// loop's timer is then without its entry, as if it had run out for good, and holds all
/// others.
pub proof fn law_repeated_timer_can_be_cancelled<M, C: ConnTypes>(
    pre: &Dispatcher<C>,
    before: &EventLoop<M, C::Mark>,
    mark: C::Mark,
    now_tick: u64,
    clock: Result<u64, ClockError>,
    t: int,
    i: int,
    x: Expired<C::Mark>,
    between: &EventLoop<M, C::Mark>,
    mid: &Dispatcher<C>,
    token: Token,
    capacity: usize,
    later: Result<u64, ClockError>,
    r: Action<C>,
    post: &Dispatcher<C>,
    after: &EventLoop<M, C::Mark>,
)
    requires
        before.wf(),
        pre.timers2@.contains_key(mark),
        !pre.timers@.contains_key(mark),
        expires(before.timer@, now_tick, clock, t, i, Ok(x), between.timer@),
        x.mark == mark,
        x.repeat,
        pre.refreshed(mark, x.timeout->Some_0, mid),
        mid.notified(between, TcpConnMessage::CancelTimer(token, mark), capacity, later, r, post, after),
    ensures
        x.timeout matches Some(timeout) && !after.timer@.entries.contains_key(timeout.key),
        after.timer@ == before.timer@.fired(t, i),
        after.timer@.entries == before.timer@.entries.remove(before.timer@.visit(t)[i]),
        post.timers2@ == pre.timers2@.remove(mark),
        post.timers@ == pre.timers@,
        post.local_connections == pre.local_connections,
{
    let st = before.timer@;
    let e = st.entries[st.visit(t)[i]];
    let f = st.fired(t, i);
    before.timer.law_valid();
    lemma_fired_valid(st, t, i);
    let (again, s) = choose|again: C::Mark, s: Result<TimerResult, ClockError>|
        {
            &&& vstd::pervasive::cloned(e.token, again)
            &&& #[trigger] f.scheduled_by(clock, e.interval, e.interval, again, s, between.timer@)
            &&& match s {
                Ok(s) => {
                    &&& s is Ok
                    &&& Ok::<_, ClockError>(x) == Ok::<_, ClockError>(
                        Expired { mark: e.token, repeat: true, timeout: Some(s->Ok_0) },
                    )
                },
                Err(_) => false,
            }
        };
    let timeout = s->Ok_0->Ok_0;
    let entry = TimerEntry { token: again, interval: e.interval, tick: timeout.tick };
    law_cancel_undoes_schedule(f, timeout.key, entry);
    assert(post.timers2@ =~= pre.timers2@.remove(mark));
}

/// Adding a repeating timer, letting it run out once, noting the timeout that it was
/// scheduled again for, and taking it back leaves the event loop's timeouts and the
/// dispatcher's timers as they were before.
pub proof fn law_cancel_undoes_add_after_repeat<M, C: ConnTypes>(
    pre: &Dispatcher<C>,
    before: &EventLoop<M, C::Mark>,
    token: Token,
    delay: u64,
    interval: u64,
    mark: C::Mark,
    f: C::Every,
    capacity: usize,
    added_at: Result<u64, ClockError>,
    added: &Dispatcher<C>,
    waiting: &EventLoop<M, C::Mark>,
    now_tick: u64,
    clock: Result<u64, ClockError>,
    t: int,
    i: int,
    x: Expired<C::Mark>,
    repeated: &EventLoop<M, C::Mark>,
    noted: &Dispatcher<C>,
    later: Result<u64, ClockError>,
    r: Action<C>,
    post: &Dispatcher<C>,
    after: &EventLoop<M, C::Mark>,
)
    requires
        before.wf(),
        waiting.wf(),
        !pre.timers@.contains_key(mark),
        !pre.timers2@.contains_key(mark),
        pre.notified(
            before,
            TcpConnMessage::AddTimer2(token, delay, interval, mark, f),
            capacity,
            added_at,
            Action::Nothing,
            added,
            waiting,
        ),
        expires(waiting.timer@, now_tick, clock, t, i, Ok(x), repeated.timer@),
        waiting.timer@.visit(t)[i] == added.timers2@[mark].0.key,
        x.mark == mark,
        x.repeat,
        added.refreshed(mark, x.timeout->Some_0, noted),
        noted.notified(repeated, TcpConnMessage::CancelTimer(token, mark), capacity, later, r, post, after),
    ensures
        after.timer@.entries == before.timer@.entries,
        post.timers2@ == pre.timers2@,
        post.timers@ == pre.timers@,
{
    let s = choose|s: Result<TimerResult, ClockError>|
        {
            &&& #[trigger] schedules(before, added_at, delay, interval, mark, s, waiting)
            &&& Action::<C>::Nothing == timer_action::<C>(s)
            &&& *added == (Dispatcher { timers2: added.timers2, ..*pre })
            &&& added.timers2@ == (match s {
                Ok(Ok(timeout)) => pre.timers2@.insert(mark, (timeout, token, f)),
                _ => pre.timers2@,
            })
        };
    let again = choose|again: C::Mark|
        vstd::pervasive::cloned(mark, again) && #[trigger] before.timer@.scheduled_by(
            added_at,
            delay,
            interval,
            again,
            s,
            waiting.timer@,
        );
    law_repeated_timer_can_be_cancelled(
        added,
        waiting,
        mark,
        now_tick,
        clock,
        t,
        i,
        x,
        repeated,
        noted,
        token,
        capacity,
        later,
        r,
        post,
        after,
    );
    assert(after.timer@.entries =~= before.timer@.entries);
    assert(post.timers2@ =~= pre.timers2@);
}

/// Giving a repeating timer back undoes taking it as it runs out.
pub proof fn law_kept_timer_stays<C: ConnTypes>(
    pre: Map<C::Mark, (Timeout, Token, C::Every)>,
    mark: C::Mark,
    fired: Fired<C>,
)
    requires
        pre.contains_key(mark),
        fired == Fired::<C>::Every(pre[mark].0, pre[mark].1, pre[mark].2),
    ensures
        pre.remove(mark).insert(mark, (fired->Every_0, fired->Every_1, fired->Every_2)) == pre,
{
    assert(pre.remove(mark).insert(mark, pre[mark]) =~= pre);
}

/// Once a dispatcher has shut down, the poller watches none of its connections for
/// reading or for writing.
pub proof fn law_shutdown_stops_all<C: ConnTypes>(conn: TcpConnection<C>)
    ensures
        ({
            let left = watched(conn.interests, Dispatcher::<C>::farewell(conn));
            !left.reading() && !left.writing()
        }),
        Dispatcher::<C>::farewell(conn) matches Some(r) ==> r.applies_to(conn.interests),
{
}

impl<C: ConnTypes> Dispatcher<C> {
    /// There is a connection that has this token.
    pub open spec fn has(&self, token: Token) -> bool {
        exists|k: usize| #[trigger] self.holds_under(k, token)
    }

    /// The connection under this key has this token.
    pub open spec fn holds_under(&self, k: usize, token: Token) -> bool {
        self.local_connections@.contains_key(k) && self.local_connections@[k].token == token
    }

    /// All about this dispatcher but for the connection with that token is as in `pre`.
    pub open spec fn others_kept(&self, pre: &Self, token: Token) -> bool {
        &&& forall|t: Token| #[trigger]
            pre.knows(t) && t != token ==> self.knows(t) && self.connection(t) == pre.connection(t)
        &&& forall|t: Token| #[trigger] self.knows(t) && t != token ==> pre.knows(t)
        &&& self.pendings == pre.pendings
        &&& self.timers == pre.timers
        &&& self.timers2 == pre.timers2
        &&& self.offset == pre.offset
    }
}

/// A dispatcher knows a token if and only if one of its connections has it, and then that is
/// the connection that it finds.
pub proof fn law_knows_its_connections<C: ConnTypes>(d: &Dispatcher<C>, token: Token)
    requires
        d.wf(),
    ensures
        d.knows(token) <==> d.has(token),
        d.knows(token) ==> d.connection(token).token == token,
        d.knows(token) ==> d.holds_under(d.key(token), token),
{
    if d.knows(token) {
        assert(d.holds_under(d.key(token), token));
    }
    if d.has(token) {
        let k = choose|k: usize| #[trigger] d.holds_under(k, token);
        assert(d.local_connections@.contains_key(k));
    }
}

/// A new dispatcher has no connections and no timers, and its tokens begin at its offset.
pub proof fn law_new_dispatcher<C: ConnTypes>(d: &Dispatcher<C>, cap: usize, offset: int, token: Token, mark: C::Mark)
    requires
        d.is_new(cap, offset),
    ensures
        !d.knows(token),
        !d.has(token),
        !d.pendings@.contains_key(token.0),
        !d.timers@.contains_key(mark),
        !d.timers2@.contains_key(mark),
        d.next_token() == offset,
        d.local_connections.limit() == cap,
{
}

/// A connection that is put back replaces the one that was there, and nothing else changes.
pub proof fn law_put_back<C: ConnTypes>(
    pre: &Dispatcher<C>,
    token: Token,
    conn: TcpConnection<C>,
    back: TcpConnection<C>,
    post: &Dispatcher<C>,
)
    requires
        pre.wf(),
        pre.lends(token, conn, back, post),
    ensures
        pre.has(token),
        conn == pre.connection(token),
        conn.token == token,
        post.knows(token),
        post.connection(token) == back,
        post.others_kept(pre, token),
        back.wf() && back.token == token ==> post.wf(),
{
    law_knows_its_connections(pre, token);
    lemma_in_place(pre, token, back, post);
}

/// Putting a connection into the place of another changes nothing else.
proof fn lemma_in_place<C: ConnTypes>(pre: &Dispatcher<C>, token: Token, back: TcpConnection<C>, post: &Dispatcher<C>)
    requires
        pre.knows(token),
        post.has_in_place(pre, token, back),
    ensures
        post.knows(token),
        post.connection(token) == back,
        post.others_kept(pre, token),
{
    assert forall|t: Token| #[trigger] pre.knows(t) && t != token implies post.knows(t) && post.connection(t)
        == pre.connection(t) by {
        assert(pre.key(t) != pre.key(token));
    }
    assert forall|t: Token| #[trigger] post.knows(t) && t != token implies pre.knows(t) by {
        assert(pre.key(t) != pre.key(token));
    }
}

/// Adding a connection makes it known under its token, which was not known, as just that
/// connection; no other changes. Taking it out again gives it back and makes its token
/// unknown; again no other changes, and its token is the next to be given.
pub proof fn law_remove_undoes_add<C: ConnTypes>(
    pre: &Dispatcher<C>,
    conn: TcpConnection<C>,
    mid: &Dispatcher<C>,
    out: TcpConnection<C>,
    post: &Dispatcher<C>,
)
    requires
        pre.wf(),
        conn.token.0 == pre.next_token(),
        pre.joined(conn, mid),
        mid.gives_up(conn.token, out, post),
    ensures
        !pre.knows(conn.token),
        mid.knows(conn.token),
        mid.connection(conn.token) == conn,
        mid.others_kept(pre, conn.token),
        out == conn,
        !post.knows(conn.token),
        post.others_kept(mid, conn.token),
        post.local_connections@ == pre.local_connections@,
        post.next_token() == conn.token.0,
{
    let token = conn.token;
    pre.local_connections.law_keys();
    lemma_taken_up(pre, conn, mid);
    lemma_gone(mid, token, post);
    assert(post.local_connections@ =~= pre.local_connections@);
}

/// Taking up a connection changes no other.
proof fn lemma_taken_up<C: ConnTypes>(pre: &Dispatcher<C>, conn: TcpConnection<C>, mid: &Dispatcher<C>)
    requires
        pre.offset <= conn.token.0,
        mid.offset == pre.offset,
        pre.takes_up(conn, mid),
    ensures
        mid.knows(conn.token),
        mid.connection(conn.token) == conn,
        forall|t: Token| #[trigger]
            pre.knows(t) && t != conn.token ==> mid.knows(t) && mid.connection(t) == pre.connection(t),
        forall|t: Token| #[trigger] mid.knows(t) && t != conn.token ==> pre.knows(t),
{
    let token = conn.token;
    assert forall|t: Token| #[trigger] pre.knows(t) && t != token implies mid.knows(t) && mid.connection(t)
        == pre.connection(t) by {
        assert(pre.key(t) != pre.key(token));
    }
    assert forall|t: Token| #[trigger] mid.knows(t) && t != token implies pre.knows(t) by {
        assert(pre.key(t) != pre.key(token));
    }
}

/// Taking out a connection changes no other.
proof fn lemma_gone<C: ConnTypes>(mid: &Dispatcher<C>, token: Token, post: &Dispatcher<C>)
    requires
        mid.knows(token),
        post.lacks(mid, token),
    ensures
        !post.knows(token),
        post.others_kept(mid, token),
{
    assert forall|t: Token| #[trigger] mid.knows(t) && t != token implies post.knows(t) && post.connection(t)
        == mid.connection(t) by {
        assert(mid.key(t) != mid.key(token));
    }
    assert forall|t: Token| #[trigger] post.knows(t) && t != token implies mid.knows(t) by {
        assert(mid.key(t) != mid.key(token));
    }
}

/// A connection whose attempt is under way is known as well, and is called back with what
/// was given along once it turns out to have a peer: once, and not before. Until it does,
/// it is asked for its peer rather than read.
pub proof fn law_connecting_is_set_up_once<C: ConnTypes>(
    pre: &Dispatcher<C>,
    conn: TcpConnection<C>,
    setup: C::Setup,
    mid: &Dispatcher<C>,
    peer: Peer,
    r: Option<C::Setup>,
    post: &Dispatcher<C>,
    readable: bool,
    writable: bool,
)
    requires
        pre.wf(),
        conn.token.0 == pre.next_token(),
        pre.joined_connecting(conn, setup, mid),
        mid.peer_asked(conn.token, peer, r, post),
    ensures
        mid.knows(conn.token),
        mid.connection(conn.token) == conn,
        forall|t: Token| #[trigger]
            pre.knows(t) && t != conn.token ==> mid.knows(t) && mid.connection(t) == pre.connection(t),
        mid.timers == pre.timers && mid.timers2 == pre.timers2 && mid.offset == pre.offset,
        forall|t: usize| t != conn.token.0 ==> (#[trigger] mid.pendings@.contains_key(t) <==> pre.pendings@.contains_key(
            t,
        )),
        mid.plan(conn.token, readable, writable) == (IoPlan { check_peer: readable, read: false, write: writable }),
        r is Some <==> peer == Peer::Connected,
        r is Some ==> r->Some_0 == setup,
        post.local_connections == mid.local_connections && post.timers == mid.timers && post.timers2 == mid.timers2
            && post.offset == mid.offset,
        post.plan(conn.token, readable, writable) == (if peer == Peer::Connected {
            IoPlan { check_peer: false, read: readable, write: writable }
        } else {
            IoPlan { check_peer: readable, read: false, write: writable }
        }),
        forall|t: usize| t != conn.token.0 ==> (#[trigger] post.pendings@.contains_key(t) <==> mid.pendings@.contains_key(
            t,
        )),
{
    lemma_taken_up(pre, conn, mid);
}

/// An event leads to reading if the connection is there and can be read, and to writing if
/// it can be written; a connection whose attempt is under way is asked for its peer
/// instead of being read. Without a connection it leads to nothing.
pub proof fn law_event_plan<C: ConnTypes>(d: &Dispatcher<C>, token: Token, readable: bool, writable: bool)
    requires
        d.wf(),
    ensures
        ({
            let p = d.plan(token, readable, writable);
            &&& p.read || p.check_peer <==> d.has(token) && readable
            &&& p.write <==> d.has(token) && writable
            &&& p.check_peer ==> d.pendings@.contains_key(token.0)
            &&& p.read ==> !d.pendings@.contains_key(token.0)
        }),
{
    law_knows_its_connections(d, token);
}

/// A socket that has arrived becomes a connection with the given address and setup, under a
/// token that is not in use; it is to be shut down first exactly if the dispatcher holds
/// as many connections as it has room for. The dispatcher is not changed by that yet.
pub proof fn law_established<M, C: ConnTypes>(
    pre: &Dispatcher<C>,
    before: &EventLoop<M, C::Mark>,
    stream: C::Stream,
    addr: C::Addr,
    setup: C::Setup,
    capacity: usize,
    clock: Result<u64, ClockError>,
    r: Action<C>,
    post: &Dispatcher<C>,
    after: &EventLoop<M, C::Mark>,
)
    requires
        pre.wf(),
        pre.next_token() <= usize::MAX,
        pre.notified(before, TcpConnMessage::Established(stream, addr, setup), capacity, clock, r, post, after),
    ensures
        r matches Action::Establish(n) && {
            &&& n.stream == stream
            &&& n.addr == addr
            &&& n.setup == setup
            &&& n.full <==> pre.local_connections@.dom().len() == capacity
            &&& n.token.0 >= pre.offset
            &&& !pre.has(n.token)
        },
        *post == *pre,
        *after == *before,
{
    pre.local_connections.law_keys();
    law_knows_its_connections(pre, Token(pre.next_token() as usize));
}

/// A socket that is to be connected is asked for its peer first. If it has one, it is
/// established; if its attempt is under way, it is taken up as connecting; if the attempt
/// failed, that is reported with its address.
pub proof fn law_connecting<M, C: ConnTypes>(
    pre: &Dispatcher<C>,
    before: &EventLoop<M, C::Mark>,
    stream: C::Stream,
    addr: C::Addr,
    setup: C::Setup,
    capacity: usize,
    clock: Result<u64, ClockError>,
    r: Action<C>,
    post: &Dispatcher<C>,
    after: &EventLoop<M, C::Mark>,
    peer: Peer,
)
    requires
        pre.wf(),
        pre.next_token() <= usize::MAX,
        pre.notified(before, TcpConnMessage::Connecting(stream, addr, setup), capacity, clock, r, post, after),
    ensures
        r matches Action::CheckPeer(s, a, f) && s == stream && a == addr && f == setup,
        *post == *pre,
        *after == *before,
        match pre.to_connect(peer, stream, addr, setup, capacity) {
            Action::Establish(n) => {
                &&& peer == Peer::Connected
                &&& n.stream == stream && n.addr == addr && n.setup == setup
                &&& n.full <==> pre.local_connections@.dom().len() == capacity
                &&& !pre.has(n.token)
            },
            Action::Connect(n) => {
                &&& peer == Peer::Connecting
                &&& n.stream == stream && n.addr == addr && n.setup == setup
                &&& n.full <==> pre.local_connections@.dom().len() == capacity
                &&& !pre.has(n.token)
            },
            Action::ConnectFailed(a) => peer == Peer::Failed && a == addr,
            _ => false,
        },
{
    pre.local_connections.law_keys();
    law_knows_its_connections(pre, Token(pre.next_token() as usize));
}

/// A connection that is to be removed is handed out and is then no longer known; no other
/// changes.
pub proof fn law_removed<M, C: ConnTypes>(
    pre: &Dispatcher<C>,
    before: &EventLoop<M, C::Mark>,
    token: Token,
    capacity: usize,
    clock: Result<u64, ClockError>,
    r: Action<C>,
    post: &Dispatcher<C>,
    after: &EventLoop<M, C::Mark>,
)
    requires
        pre.wf(),
        pre.knows(token),
        pre.notified(before, TcpConnMessage::Removed(token), capacity, clock, r, post, after),
    ensures
        r matches Action::Removed(conn) && conn.token == token && conn == pre.connection(token),
        !post.knows(token),
        post.others_kept(pre, token),
        *after == *before,
{
    law_knows_its_connections(pre, token);
    lemma_gone(pre, token, post);
}

/// Bytes that are to be written to a connection are sent on it, all of them: offered to its
/// socket at once, or put behind what waits there. No other connection changes.
pub proof fn law_write<M, C: ConnTypes>(
    pre: &Dispatcher<C>,
    before: &EventLoop<M, C::Mark>,
    token: Token,
    data: Vec<u8>,
    capacity: usize,
    clock: Result<u64, ClockError>,
    r: Action<C>,
    post: &Dispatcher<C>,
    after: &EventLoop<M, C::Mark>,
)
    requires
        pre.wf(),
        pre.knows(token),
        pre.notified(before, TcpConnMessage::Write(token, data), capacity, clock, r, post, after),
    ensures
        r matches Action::Send(t, d, step) && {
            let was = pre.connection(token);
            let is = post.connection(token);
            &&& t == token
            &&& d == data
            &&& match step {
                SendStep::Write(from) => {
                    &&& from == 0
                    &&& is == was
                    &&& was.output@.len() == 0
                    &&& !was.waits(Readiness::Writable)
                },
                SendStep::Buffered(registration) => {
                    &&& is.waits_with(&was, data@, registration)
                    &&& was.output@.len() > 0 || was.waits(Readiness::Writable)
                },
                SendStep::Complete => false,
            }
        },
        post.knows(token),
        post.others_kept(pre, token),
        *after == *before,
{
    lemma_in_place(pre, token, post.connection(token), post);
    law_send_offers_or_waits(&pre.connection(token), data@, r->Send_2, &post.connection(token));
}

/// Enabling adds what a connection is watched for, disabling takes it away, and the poller
/// is told just that; nothing else about it changes, nor any other connection.
pub proof fn law_enable_and_disable<M, C: ConnTypes>(
    pre: &Dispatcher<C>,
    before: &EventLoop<M, C::Mark>,
    token: Token,
    mode: Interest,
    on: bool,
    capacity: usize,
    clock: Result<u64, ClockError>,
    r: Action<C>,
    post: &Dispatcher<C>,
    after: &EventLoop<M, C::Mark>,
)
    requires
        pre.wf(),
        pre.knows(token),
        pre.notified(
            before,
            if on {
                TcpConnMessage::Enable(token, mode)
            } else {
                TcpConnMessage::Disable(token, mode)
            },
            capacity,
            clock,
            r,
            post,
            after,
        ),
    ensures
        ({
            let was = pre.connection(token);
            let is = post.connection(token);
            &&& is == (TcpConnection { interests: is.interests, ..was })
            &&& forall|k: Readiness| #[trigger]
                is.waits(k) <==> (if on {
                    was.waits(k) || mode.names(k)
                } else {
                    was.waits(k) && !mode.names(k)
                })
            &&& match r {
                Action::Register(t, registration) => t == token && told(
                    Some(registration),
                    was.interests,
                    is.interests,
                ),
                Action::Nothing => !on && was.interests is None,
                _ => false,
            }
        }),
        post.knows(token),
        post.others_kept(pre, token),
        *after == *before,
{
    let was = pre.connection(token);
    law_enabling(was.interests, mode);
    law_disabling(was.interests, mode);
    lemma_in_place(pre, token, post.connection(token), post);
    let is = post.connection(token);
    assert forall|k: Readiness| #[trigger]
        is.waits(k) <==> (if on {
            was.waits(k) || mode.names(k)
        } else {
            was.waits(k) && !mode.names(k)
        }) by {
        assert(waits_for(is.interests, k) == is.waits(k));
    }
}

/// A connection is shut down in just the way that was asked for, unless it waits to write:
/// then it is not shut down at all.
pub proof fn law_shutdown_as_asked<M, C: ConnTypes>(
    pre: &Dispatcher<C>,
    before: &EventLoop<M, C::Mark>,
    token: Token,
    how: Shutdown,
    capacity: usize,
    clock: Result<u64, ClockError>,
    r: Action<C>,
    post: &Dispatcher<C>,
    after: &EventLoop<M, C::Mark>,
)
    requires
        pre.wf(),
        pre.notified(before, TcpConnMessage::Shutdown(token, how), capacity, clock, r, post, after),
    ensures
        r is Shutdown <==> pre.has(token) && !pre.connection(token).waits(Readiness::Writable),
        r matches Action::Shutdown(t, h) ==> t == token && h == how,
        r is Shutdown || r is Nothing,
        *post == *pre,
        *after == *before,
{
    law_knows_its_connections(pre, token);
}

/// A connection that is there is told that its output was written, or called with what was
/// given; one that is not there is not, and nothing changes.
pub proof fn law_told_and_called<M, C: ConnTypes>(
    pre: &Dispatcher<C>,
    before: &EventLoop<M, C::Mark>,
    token: Token,
    f: C::Setup,
    capacity: usize,
    clock: Result<u64, ClockError>,
    written: Action<C>,
    called: Action<C>,
    post: &Dispatcher<C>,
    after: &EventLoop<M, C::Mark>,
)
    requires
        pre.wf(),
        pre.notified(before, TcpConnMessage::WriteComplete(token), capacity, clock, written, post, after),
        pre.notified(before, TcpConnMessage::SetContext(token, f), capacity, clock, called, post, after),
    ensures
        pre.has(token) ==> written == Action::<C>::WriteComplete(token) && (called matches Action::Call(t, g) && t
            == token && g == f),
        !pre.has(token) ==> written is Nothing && called is Nothing,
        *post == *pre,
        *after == *before,
{
    law_knows_its_connections(pre, token);
}

/// A timer that runs once is noted with the connection and the call that were given, and
/// its timeout is scheduled, once, for the first tick in time after the delay. Where it
/// cannot be, because the event loop's timer is full or there is no usable clock, that
/// is reported and nothing changes.
pub proof fn law_add_timer<M, C: ConnTypes>(
    pre: &Dispatcher<C>,
    before: &EventLoop<M, C::Mark>,
    token: Token,
    delay: u64,
    mark: C::Mark,
    f: C::Once,
    capacity: usize,
    clock: Result<u64, ClockError>,
    r: Action<C>,
    post: &Dispatcher<C>,
    after: &EventLoop<M, C::Mark>,
)
    requires
        before.wf(),
        pre.notified(before, TcpConnMessage::AddTimer(token, delay, mark, f), capacity, clock, r, post, after),
    ensures
        *post == (Dispatcher { timers: post.timers, ..*pre }),
        *after == (EventLoop { timer: after.timer, ..*before }),
        match r {
            Action::Nothing => {
                let (timeout, t, g) = post.timers@[mark];
                &&& post.timers@ == pre.timers@.insert(mark, (timeout, token, f))
                &&& timer_added(before.timer@, clock, delay, 0, mark, timeout, after.timer@)
            },
            Action::TimerRefused(_) => {
                &&& post.timers@ == pre.timers@
                &&& after.timer@ == before.timer@
                &&& before.timer@.entries.dom().len() >= before.timer@.limit
            },
            Action::ClockFailed(e) => {
                &&& post.timers@ == pre.timers@
                &&& after.timer@ == before.timer@
                &&& clock_forbids(before.timer@, clock, delay, e)
            },
            _ => false,
        },
{
    let s = choose|s: Result<TimerResult, ClockError>|
        {
            &&& #[trigger] schedules(before, clock, delay, 0, mark, s, after)
            &&& r == timer_action::<C>(s)
            &&& *post == (Dispatcher { timers: post.timers, ..*pre })
            &&& post.timers@ == (match s {
                Ok(Ok(timeout)) => pre.timers@.insert(mark, (timeout, token, f)),
                _ => pre.timers@,
            })
        };
    lemma_timer_added(before, clock, delay, 0, mark, s, after);
}

/// A timer that repeats is noted in the same way, and its timeout is scheduled with its
/// interval.
pub proof fn law_add_repeating_timer<M, C: ConnTypes>(
    pre: &Dispatcher<C>,
    before: &EventLoop<M, C::Mark>,
    token: Token,
    delay: u64,
    interval: u64,
    mark: C::Mark,
    f: C::Every,
    capacity: usize,
    clock: Result<u64, ClockError>,
    r: Action<C>,
    post: &Dispatcher<C>,
    after: &EventLoop<M, C::Mark>,
)
    requires
        before.wf(),
        pre.notified(
            before,
            TcpConnMessage::AddTimer2(token, delay, interval, mark, f),
            capacity,
            clock,
            r,
            post,
            after,
        ),
    ensures
        *post == (Dispatcher { timers2: post.timers2, ..*pre }),
        *after == (EventLoop { timer: after.timer, ..*before }),
        match r {
            Action::Nothing => {
                let (timeout, t, g) = post.timers2@[mark];
                &&& post.timers2@ == pre.timers2@.insert(mark, (timeout, token, f))
                &&& timer_added(before.timer@, clock, delay, interval, mark, timeout, after.timer@)
            },
            Action::TimerRefused(_) => {
                &&& post.timers2@ == pre.timers2@
                &&& after.timer@ == before.timer@
                &&& before.timer@.entries.dom().len() >= before.timer@.limit
            },
            Action::ClockFailed(e) => {
                &&& post.timers2@ == pre.timers2@
                &&& after.timer@ == before.timer@
                &&& clock_forbids(before.timer@, clock, delay, e)
            },
            _ => false,
        },
{
    let s = choose|s: Result<TimerResult, ClockError>|
        {
            &&& #[trigger] schedules(before, clock, delay, interval, mark, s, after)
            &&& r == timer_action::<C>(s)
            &&& *post == (Dispatcher { timers2: post.timers2, ..*pre })
            &&& post.timers2@ == (match s {
                Ok(Ok(timeout)) => pre.timers2@.insert(mark, (timeout, token, f)),
                _ => pre.timers2@,
            })
        };
    lemma_timer_added(before, clock, delay, interval, mark, s, after);
}

/// The timer `post` is `pre` with one more entry, that of `timeout`: it has a clone of
/// `mark`, the given interval, and the first tick in time `delay` ms after what the
/// clock reads.
pub open spec fn timer_added<K: Clone>(
    pre: TimerState<K>,
    clock: Result<u64, ClockError>,
    delay: u64,
    interval: u64,
    mark: K,
    timeout: Timeout,
    post: TimerState<K>,
) -> bool {
    let e = post.entries[timeout.key];
    &&& !pre.entries.contains_key(timeout.key)
    &&& post.entries == pre.entries.insert(timeout.key, e)
    &&& cloned(mark, e.token)
    &&& e.interval == interval
    &&& e.tick == timeout.tick
    &&& clock is Ok
    &&& pre.start_ms + e.tick * pre.tick_ms >= clock->Ok_0 + delay
    &&& pre.start_ms + (e.tick - 1) * pre.tick_ms < clock->Ok_0 + delay || e.tick - 1 <= pre.tick
}

/// The clock cannot be read, or `delay` ms after what it reads cannot be scheduled for.
pub open spec fn clock_forbids<K>(
    s: TimerState<K>,
    clock: Result<u64, ClockError>,
    delay: u64,
    e: ClockError,
) -> bool {
    match clock {
        Ok(now) => {
            &&& e is OutOfRange
            &&& now + delay < s.start_ms || now + delay > u64::MAX || now + delay - s.start_ms + s.tick_ms > u64::MAX
        },
        Err(f) => e == f,
    }
}

/// What scheduling under a clone of a mark comes to.
proof fn lemma_timer_added<M, K: Clone>(
    before: &EventLoop<M, K>,
    clock: Result<u64, ClockError>,
    delay: u64,
    interval: u64,
    mark: K,
    s: Result<TimerResult, ClockError>,
    after: &EventLoop<M, K>,
)
    requires
        before.wf(),
        schedules(before, clock, delay, interval, mark, s, after),
    ensures
        *after == (EventLoop { timer: after.timer, ..*before }),
        match s {
            Ok(Ok(timeout)) => timer_added(before.timer@, clock, delay, interval, mark, timeout, after.timer@),
            Ok(Err(_)) => after.timer@ == before.timer@ && before.timer@.entries.dom().len() >= before.timer@.limit,
            Err(e) => after.timer@ == before.timer@ && clock_forbids(before.timer@, clock, delay, e),
        },
{
    let again = choose|again: K|
        cloned(mark, again) && #[trigger] before.timer@.scheduled_by(clock, delay, interval, again, s, after.timer@);
    law_schedule(before.timer@, clock, delay, interval, again, s, after.timer@);
}

/// What a timer that could not be added comes to says why.
pub proof fn law_timer_action<C: ConnTypes>(scheduled: Result<TimerResult, ClockError>)
    ensures
        timer_action::<C>(scheduled) is Nothing <==> (scheduled matches Ok(Ok(_))),
        timer_action::<C>(scheduled) is TimerRefused <==> (scheduled matches Ok(Err(_))),
        timer_action::<C>(scheduled) is ClockFailed <==> scheduled is Err,
        scheduled matches Ok(Err(e)) ==> timer_action::<C>(scheduled)->TimerRefused_0 == e,
        scheduled matches Err(e) ==> timer_action::<C>(scheduled)->ClockFailed_0 == e,
{
}

/// A timer that is taken back is gone from the dispatcher, and its timeout from the event
/// loop; one that runs once is taken back before one that repeats under the same mark.
/// Where there is none, nothing changes; no other timer does, nor any connection.
pub proof fn law_cancel_timer<M, C: ConnTypes>(
    pre: &Dispatcher<C>,
    before: &EventLoop<M, C::Mark>,
    token: Token,
    mark: C::Mark,
    capacity: usize,
    clock: Result<u64, ClockError>,
    r: Action<C>,
    post: &Dispatcher<C>,
    after: &EventLoop<M, C::Mark>,
)
    requires
        pre.notified(before, TcpConnMessage::CancelTimer(token, mark), capacity, clock, r, post, after),
    ensures
        r is Nothing,
        post.local_connections == pre.local_connections,
        post.pendings == pre.pendings,
        post.offset == pre.offset,
        *after == (EventLoop { timer: after.timer, ..*before }),
        !post.timers@.contains_key(mark),
        forall|m: C::Mark| m != mark ==> (#[trigger] post.timers@.contains_key(m) <==> pre.timers@.contains_key(m)),
        forall|m: C::Mark| m != mark ==> (#[trigger] post.timers2@.contains_key(m) <==> pre.timers2@.contains_key(m)),
        forall|m: C::Mark| #[trigger] post.timers@.contains_key(m) ==> post.timers@[m] == pre.timers@[m],
        forall|m: C::Mark| #[trigger] post.timers2@.contains_key(m) ==> post.timers2@[m] == pre.timers2@[m],
        post.timers2@.contains_key(mark) <==> pre.timers@.contains_key(mark) && pre.timers2@.contains_key(mark),
        ({
            let taken = if pre.timers@.contains_key(mark) {
                Some(pre.timers@[mark].0)
            } else if pre.timers2@.contains_key(mark) {
                Some(pre.timers2@[mark].0)
            } else {
                None
            };
            let held = before.timer@.entries;
            match taken {
                Some(timeout) => after.timer@.entries == (if held.contains_key(timeout.key) && held[timeout.key].tick
                    == timeout.tick {
                    held.remove(timeout.key)
                } else {
                    held
                }),
                None => after.timer@ == before.timer@,
            }
        }),
{
}

/// A timer that has run out is found among those that run once or those that repeat, as it
/// was reported, and leads to the call and the connection that were noted for it; it is
/// taken out, and nothing else changes. Where there is none, nothing changes at all.
pub proof fn law_timer_fires<C: ConnTypes>(
    pre: &Dispatcher<C>,
    mark: C::Mark,
    repeat: bool,
    r: Fired<C>,
    post: &Dispatcher<C>,
)
    requires
        pre.fires(mark, repeat, r, post),
    ensures
        r is Once <==> !repeat && pre.timers@.contains_key(mark),
        r is Every <==> repeat && pre.timers2@.contains_key(mark),
        r matches Fired::Once(token, f) ==> token == pre.timers@[mark].1 && f == pre.timers@[mark].2,
        r matches Fired::Every(timeout, token, f) ==> (timeout, token, f) == pre.timers2@[mark],
        post.timers@ == (if r is Once {
            pre.timers@.remove(mark)
        } else {
            pre.timers@
        }),
        post.timers2@ == (if r is Every {
            pre.timers2@.remove(mark)
        } else {
            pre.timers2@
        }),
        post.local_connections == pre.local_connections,
        post.pendings@ == pre.pendings@,
        post.offset == pre.offset,
{
}

/// A repeating timer that has run out and is given back is there as before.
pub proof fn law_repeating_timer_stays<C: ConnTypes>(
    pre: &Dispatcher<C>,
    mark: C::Mark,
    r: Fired<C>,
    mid: &Dispatcher<C>,
    post: &Dispatcher<C>,
)
    requires
        pre.timers2@.contains_key(mark),
        pre.fires(mark, true, r, mid),
        r is Every,
        mid.keeps(mark, r->Every_0, r->Every_1, r->Every_2, post),
    ensures
        post.timers2@ == pre.timers2@,
        post.timers@ == pre.timers@,
        post.local_connections == pre.local_connections,
        post.pendings@ == pre.pendings@,
        post.offset == pre.offset,
{
    assert(post.timers2@ =~= pre.timers2@);
}

/// A repeating timer is noted with the timeout that it was scheduled again for, with the
/// same call and the same connection; no other timer changes, and none appears.
pub proof fn law_refresh<C: ConnTypes>(pre: &Dispatcher<C>, mark: C::Mark, timeout: Timeout, post: &Dispatcher<C>)
    requires
        pre.refreshed(mark, timeout, post),
    ensures
        post.timers2@.dom() == pre.timers2@.dom(),
        pre.timers2@.contains_key(mark) ==> {
            &&& post.timers2@[mark].0 == timeout
            &&& post.timers2@[mark].1 == pre.timers2@[mark].1
            &&& post.timers2@[mark].2 == pre.timers2@[mark].2
        },
        forall|m: C::Mark| m != mark && #[trigger] pre.timers2@.contains_key(m) ==> post.timers2@[m] == pre.timers2@[m],
        post.timers == pre.timers,
        post.local_connections == pre.local_connections,
        post.pendings == pre.pendings,
        post.offset == pre.offset,
{
    assert(post.timers2@.dom() =~= pre.timers2@.dom());
}

/// When a dispatcher shuts down, each of its connections is named once, with what to tell
/// the poller; after that the poller watches none for reading or for writing. Nothing
/// else about the connections changes.
pub proof fn law_winds_down<C: ConnTypes>(
    pre: &Dispatcher<C>,
    r: Seq<(Token, Option<Registration>)>,
    post: &Dispatcher<C>,
    token: Token,
)
    requires
        pre.wf(),
        pre.winds_down(r, post),
    ensures
        forall|i: int, j: int| 0 <= i < j < r.len() ==> (#[trigger] r[i]).0.0 < (#[trigger] r[j]).0.0,
        pre.knows(token) <==> exists|i: int| 0 <= i < r.len() && (#[trigger] r[i]).0 == token,
        post.knows(token) <==> pre.knows(token),
        forall|i: int|
            0 <= i < r.len() ==> pre.knows((#[trigger] r[i]).0) && told(
                r[i].1,
                pre.connection(r[i].0).interests,
                post.connection(r[i].0).interests,
            ),
        pre.knows(token) ==> {
            let was = pre.connection(token);
            let is = post.connection(token);
            &&& is == (TcpConnection { interests: is.interests, ..was })
            &&& forall|k: Readiness| #[trigger]
                is.waits(k) <==> was.waits(k) && k !is Readable && k !is Writable
        },
        post.pendings == pre.pendings && post.timers == pre.timers && post.timers2 == pre.timers2 && post.offset
            == pre.offset,
{
    let conns = pre.local_connections@;
    let peak = pre.local_connections.peak();
    let keys = keys_below(conns, peak);
    let all = Interest::reading().union(Interest::writing());
    pre.local_connections.law_keys();
    law_keys_ascend(conns, peak);
    assert forall|i: int| 0 <= i < r.len() implies conns.contains_key(#[trigger] keys[i]) && r[i].0 == conns[keys[i]].token
        && r[i].0.0 == pre.offset + keys[i] by {
        assert(keys.contains(keys[i]));
        assert(r[i] == (conns[keys[i]].token, Dispatcher::<C>::farewell(conns[keys[i]])));
    }
    assert forall|i: int, j: int| 0 <= i < j < r.len() implies (#[trigger] r[i]).0.0 < (#[trigger] r[j]).0.0 by {
        assert(keys[i] < keys[j]);
    }
    assert forall|i: int| 0 <= i < r.len() implies pre.knows((#[trigger] r[i]).0) && told(
        r[i].1,
        pre.connection(r[i].0).interests,
        post.connection(r[i].0).interests,
    ) by {
        let k = keys[i];
        assert(conns.contains_key(k));
        assert(pre.key(r[i].0) == k);
        law_disabling(conns[k].interests, all);
    }
    if pre.knows(token) {
        let k = pre.key(token);
        assert(keys.contains(k));
        let i = choose|i: int| 0 <= i < keys.len() && keys[i] == k;
        assert(r[i].0 == token);
        law_disabling(conns[k].interests, all);
        let was = pre.connection(token);
        let is = post.connection(token);
        assert forall|m: Readiness| #[trigger] is.waits(m) <==> was.waits(m) && m !is Readable && m !is Writable by {
            assert(waits_for(is.interests, m) <==> waits_for(was.interests, m) && !all.names(m));
        }
    }
}

/// A dispatcher acts on every message about a connection that it could have, on every timer,
/// and on every new connection as long as there are tokens left; only what is to be removed
/// has to be there, what is to be enabled has to be something, and bytes that have to wait
/// have to fit into memory.
pub proof fn law_accepts<C: ConnTypes>(d: &Dispatcher<C>, token: Token, data: Vec<u8>, mode: Interest, how: Shutdown)
    requires
        d.wf(),
        d.offset <= token.0,
    ensures
        d.accepts(TcpConnMessage::WriteComplete(token)),
        d.accepts(TcpConnMessage::Disable(token, mode)),
        d.accepts(TcpConnMessage::Shutdown(token, how)),
        forall|f: C::Setup| #[trigger] d.accepts(TcpConnMessage::SetContext(token, f)),
        forall|t: Token, delay: u64, mark: C::Mark, f: C::Once| #[trigger]
            d.accepts(TcpConnMessage::AddTimer(t, delay, mark, f)),
        forall|t: Token, delay: u64, interval: u64, mark: C::Mark, f: C::Every| #[trigger]
            d.accepts(TcpConnMessage::AddTimer2(t, delay, interval, mark, f)),
        forall|t: Token, mark: C::Mark| #[trigger] d.accepts(TcpConnMessage::CancelTimer(t, mark)),
        forall|s: C::Stream, a: C::Addr, f: C::Setup| #[trigger] d.accepts(TcpConnMessage::Connecting(s, a, f)),
        forall|s: C::Stream, a: C::Addr, f: C::Setup| #[trigger]
            d.accepts(TcpConnMessage::Established(s, a, f)) <==> d.next_token() <= usize::MAX,
        d.accepts(TcpConnMessage::Enable(token, mode)) <==> exists|k: Readiness| #[trigger] mode.names(k),
        d.accepts(TcpConnMessage::Removed(token)) <==> d.has(token),
        !d.has(token) ==> d.accepts(TcpConnMessage::Write(token, data)),
        d.has(token) && d.connection(token).output@.len() == 0 && !d.connection(token).waits(Readiness::Writable)
            ==> d.accepts(TcpConnMessage::Write(token, data)),
        d.has(token) && d.connection(token).output.prependable() + d.connection(token).output@.len() + data@.len()
            <= isize::MAX ==> d.accepts(TcpConnMessage::Write(token, data)),
{
    law_knows_its_connections(d, token);
    law_interests_named(mode);
}

/// A server notes the loop of each connection, finds it by the token, and forgets it again;
/// the loops of other connections stay noted.
pub proof fn law_loops_are_noted<N>(
    pre: &Shared<N>,
    token: Token,
    noti: N,
    mid: &Shared<N>,
    r: Option<N>,
    post: &Shared<N>,
    other: Token,
)
    requires
        pre.notes(token, noti, mid),
        mid.forgets(token, r, post),
        other != token,
    ensures
        mid.loop_of(token) == Some(noti),
        mid.loop_of(other) == pre.loop_of(other),
        r == Some(noti),
        post.loop_of(token) is None,
        post.loop_of(other) == pre.loop_of(other),
{
}

/// A server is configured as asked, and has threads for that.
pub proof fn law_new_server<T>(server: &TcpServer<T>, config: TcpServerConfig)
    requires
        server.is_made(config),
    ensures
        server.config == config,
        server.pool.size == config.pool_size,
        server.pool.pool_name@ == config.pool_name@,
        server.pool.pool@.len() == 0,
        server.pool.next == 0,
{
}

/// A server hands its connections to the threads of its pool in turn: the one whose turn it
/// is now is not again before all others have had theirs.
pub proof fn law_server_spreads<T>(pre: &TcpServer<T>, a: T, mid: &TcpServer<T>, b: T, post: &TcpServer<T>)
    requires
        pre.pool.is_running(),
        pre.pool.next < usize::MAX,
        pre.spreads(a, mid),
        mid.spreads(b, post),
    ensures
        exists|i: int, j: int|
            {
                &&& 0 <= i < pre.pool.size
                &&& 0 <= j < pre.pool.size
                &&& j == i + 1 || i == pre.pool.size - 1 && j == 0
                &&& a == #[trigger] pre.pool.pool@[i]
                &&& b == #[trigger] pre.pool.pool@[j]
            },
        mid.config == pre.config,
        mid.pool.pool == pre.pool.pool,
        mid.pool.size == pre.pool.size,
        mid.pool.pool_name == pre.pool.pool_name,
{
    let size = pre.pool.size as int;
    let n = pre.pool.next as int;
    let i = n % size;
    let j = (n + 1) % size;
    assert(0 <= i < size && 0 <= j < size && (j == i + 1 || i == size - 1 && j == 0)) by (nonlinear_arith)
        requires
            size > 0,
            n >= 0,
            i == n % size,
            j == (n + 1) % size,
    ;
    assert(a == pre.pool.pool@[i]);
    assert(b == pre.pool.pool@[j]);
}

/// Among the notifiers of a server's loops is that of every connection, as often as there are
/// connections, and no other.
pub proof fn law_every_loop_is_named<N>(shared: &Shared<N>, r: Seq<&N>, token: Token) -> (i: int)
    requires
        shared.named_by(r),
        shared.conn_to_loop@.dom().finite(),
    ensures
        r.len() == shared.conn_to_loop@.dom().len(),
        shared.loop_of(token) matches Some(noti) ==> 0 <= i < r.len() && *r[i] == noti,
        forall|j: int| 0 <= j < r.len() ==> exists|t: Token| shared.loop_of(t) == Some(*#[trigger] r[j]),
{
    let order = choose|order: Seq<usize>|
        {
            &&& #[trigger] shared.lists_all(order)
            &&& r == order.map_values(|token: usize| &shared.conn_to_loop@[token])
        };
    order.unique_seq_to_set();
    assert forall|j: int| 0 <= j < r.len() implies exists|t: Token| shared.loop_of(t) == Some(*#[trigger] r[j]) by {
        assert(order.to_set().contains(order[j]));
        assert(shared.loop_of(Token(order[j])) == Some(*r[j]));
    }
    if shared.conn_to_loop@.contains_key(token.0) {
        assert(order.to_set().contains(token.0));
        choose|i: int| 0 <= i < order.len() && order[i] == token.0
    } else {
        0
    }
}

/// The dispatchers of a server's event loops begin with tokens that lie far enough apart: as
/// many as each was created for.
pub proof fn law_loops_have_their_own_tokens<C: ConnTypes>(
    a: &Dispatcher<C>,
    b: &Dispatcher<C>,
    cap: usize,
    i: usize,
    j: usize,
)
    requires
        a.is_first_of(cap, i),
        b.is_first_of(cap, j),
        i < j,
    ensures
        a.next_token() + cap <= b.next_token(),
        i == 0 ==> a.next_token() == 0,
        j == i + 1 ==> a.next_token() + cap == b.next_token(),
        a.local_connections.limit() == cap,
{
    assert(i * cap + cap <= j * cap) by (nonlinear_arith)
        requires
            i + 1 <= j,
            cap >= 0,
    ;
    assert((i + 1) * cap == i * cap + cap && 0 * cap == 0) by (nonlinear_arith);
}

} // verus!
