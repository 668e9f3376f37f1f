//! Listeners: how many there can be, and what to do as they report new connections.
use crate::readiness::{Failure, FailureKind, Token};
use crate::slots::{free_after_insert, keys_below, law_keys_ascend, Slots};
use vstd::prelude::*;

verus! {

/// What to do next once a listener was asked for a new connection.
pub enum AcceptStep<S> {
    /// There is one: hand it on, then ask again.
    Connection(S),
    /// There is none: ask no more for now.
    Done,
    /// Asking failed: have the error handled, then ask again.
    Failed(Failure),
}

/// What to do next once asking a listener has come to `outcome`.
pub open spec fn accept_step<S>(outcome: Result<S, Failure>) -> AcceptStep<S> {
    match outcome {
        Ok(s) => AcceptStep::Connection(s),
        Err(e) => if e.kind == FailureKind::WouldBlock {
            AcceptStep::Done
        } else {
            AcceptStep::Failed(e)
        },
    }
}

/// Every new connection is handed on as it is, the asking ends just when there is none, and
/// any failure is handled.
pub proof fn law_accept_step<S>(outcome: Result<S, Failure>)
    ensures
        accept_step(outcome) is Connection <==> outcome is Ok,
        outcome matches Ok(s) ==> accept_step(outcome)->Connection_0 == s,
        accept_step(outcome) is Done <==> (outcome matches Err(e) && e.kind == FailureKind::WouldBlock),
        accept_step(outcome) matches AcceptStep::Failed(f) ==> (outcome matches Err(e) && e == f),
{
}

/// What to do once asking a listener for a new connection has come to `outcome`.
pub fn accepted<S>(outcome: Result<S, Failure>) -> (r: AcceptStep<S>)
    ensures
        r == accept_step(outcome),
{
    match outcome {
        Ok(s) => AcceptStep::Connection(s),
        Err(e) => if e.would_block() {
            AcceptStep::Done
        } else {
            AcceptStep::Failed(e)
        },
    }
}

/// Why a listener was not added.
#[derive(Debug, Copy, Clone, PartialEq, Eq, Structural)]
pub enum ListenError {
    /// There are as many as there can be.
    MaxListeners,
}

impl ListenError {
    /// The reason in words.
    pub fn message(&self) -> (r: &'static str)
        ensures
            r@ == "max listeners reached!"@,
    {
        "max listeners reached!"
    }
}

/// The listeners of one event loop.
pub struct Acceptors<A> {
    pub acceptors: Slots<A>,
}

/// What listeners are told.
#[derive(Debug, Clone)]
pub enum AcceptorMessage<D> {
    /// Listen at this address too.
    NewListener(D),
}

impl<A> Acceptors<A> {
    pub open spec fn wf(&self) -> bool {
        self.acceptors.wf()
    }

    /// The token that a new listener gets, where there is room for `capacity` of them.
    pub open spec fn token_within(&self, capacity: usize) -> Result<Token, ListenError> {
        if self.acceptors@.dom().len() == capacity {
            Err(ListenError::MaxListeners)
        } else {
            Ok(Token(self.acceptors.next_key()))
        }
    }

    /// Adding the listener `acc` under `token` makes `post` of these.
    pub open spec fn joined(&self, acc: A, token: Token, post: &Self) -> bool {
        &&& token == Token(self.acceptors.next_key())
        &&& !self.acceptors@.contains_key(token.0)
        &&& post.acceptors@ == self.acceptors@.insert(token.0, acc)
        &&& post.acceptors.limit() == self.acceptors.limit()
        &&& post.acceptors.peak() == self.acceptors.peak_after_insert()
        &&& post.acceptors.free() == free_after_insert(self.acceptors.free())
    }

    /// The listener to be asked for new connections because of an event, if any.
    pub open spec fn asked(&self, token: Token, readable: bool) -> Option<A> {
        if readable && self.acceptors@.contains_key(token.0) {
            Some(self.acceptors@[token.0])
        } else {
            None
        }
    }

    /// Taking all listeners out gives `r`, in the order of their tokens, and makes `post` of
    /// these.
    pub open spec fn cleared(&self, r: Seq<A>, post: &Self) -> bool {
        let keys = keys_below(self.acceptors@, self.acceptors.peak());
        &&& r.len() == keys.len()
        &&& forall|i: int| 0 <= i < r.len() ==> #[trigger] r[i] == self.acceptors@[keys[i]]
        &&& post.acceptors@ == Map::<usize, A>::empty()
        &&& post.acceptors.limit() == self.acceptors.limit()
        &&& post.acceptors.peak() == 0
        &&& post.acceptors.free() == Seq::<usize>::empty()
    }

    /// There are no listeners yet, and there is room for `cap` of them.
    pub open spec fn is_new(&self, cap: usize) -> bool {
        &&& self.wf()
        &&& self.acceptors@ == Map::<usize, A>::empty()
        &&& self.acceptors.limit() == cap
        &&& self.acceptors.peak() == 0
        &&& self.acceptors.free() == Seq::<usize>::empty()
    }

    /// No listeners, with room for `cap` of them.
    pub fn new(cap: usize) -> (r: Self)
        requires
            cap * 16 <= isize::MAX,
        ensures
            r.is_new(cap),
    {
        Acceptors { acceptors: Slots::with_capacity(cap) }
    }

    /// The token that a new listener gets, where there is room for `capacity` of them.
    pub fn listen_with(&self, capacity: usize) -> (r: Result<Token, ListenError>)
        requires
            self.wf(),
        ensures
            r == self.token_within(capacity),
    {
        if self.acceptors.len() == capacity {
            return Err(ListenError::MaxListeners);
        }
        Ok(Token(self.acceptors.vacant_key()))
    }

    /// The token that a new listener gets. There is one as long as fewer listeners
    /// are held than there were to be room for, or than there were before.
    pub fn listen(&self) -> (r: Result<Token, ListenError>)
        requires
            self.wf(),
        ensures
            exists|capacity: usize|
                {
                    &&& r == #[trigger] self.token_within(capacity)
                    &&& capacity >= self.acceptors.limit()
                    &&& capacity >= self.acceptors.peak()
                },
            match r {
                Ok(token) => token == Token(self.acceptors.next_key()),
                Err(e) => {
                    &&& e == ListenError::MaxListeners
                    &&& self.acceptors@.dom().len() >= self.acceptors.limit()
                    &&& self.acceptors@.dom().len() >= self.acceptors.peak()
                },
            },
    {
        self.listen_with(self.acceptors.capacity())
    }

    /// Adds a listener, which gets the token that was next.
    pub fn add(&mut self, acc: A) -> (token: Token)
        requires
            old(self).wf(),
        ensures
            final(self).wf(),
            old(self).joined(acc, token, final(self)),
    {
        Token(self.acceptors.insert(acc))
    }

    /// The listener to be asked for new connections because of an event, if any.
    pub fn handle_io_event(&mut self, token: Token, readable: bool) -> (r: Option<&mut A>)
        requires
            old(self).wf(),
        ensures
            match r {
                Some(acc) => old(self).asked(token, readable) == Some(*acc) && final(self).acceptors@ == old(
                    self,
                ).acceptors@.insert(token.0, *final(acc)),
                None => old(self).asked(token, readable) is None && final(self).acceptors@ == old(self).acceptors@,
            },
            final(self).wf(),
            final(self).acceptors.limit() == old(self).acceptors.limit(),
            final(self).acceptors.peak() == old(self).acceptors.peak(),
            final(self).acceptors.free() == old(self).acceptors.free(),
    {
        if readable {
            self.acceptors.get_mut(token.0)
        } else {
            None
        }
    }

    /// Takes all listeners out, in the order of their tokens, to be forgotten by the
    /// poller.
    pub fn graceful_shutdown(&mut self) -> (r: Vec<A>)
        requires
            old(self).wf(),
        ensures
            final(self).wf(),
            old(self).cleared(r@, final(self)),
    {
        self.acceptors.drain()
    }
}

/// A new listener is refused exactly if there are as many as there is room for; otherwise
/// it gets a token that no other has, and the one that it is then added under. It is
/// asked for connections when it can be read, and no listener is asked otherwise.
pub proof fn law_listener<A>(
    pre: &Acceptors<A>,
    capacity: usize,
    acc: A,
    token: Token,
    post: &Acceptors<A>,
    other: Token,
    readable: bool,
)
    requires
        pre.wf(),
        pre.joined(acc, token, post),
        other != token,
    ensures
        pre.token_within(capacity) is Err <==> pre.acceptors@.dom().len() == capacity,
        pre.token_within(capacity) matches Ok(t) ==> t == token,
        !pre.acceptors@.contains_key(token.0),
        post.asked(token, true) == Some(acc),
        post.asked(other, readable) == pre.asked(other, readable),
        post.asked(other, false) is None,
        pre.asked(other, readable) is Some <==> readable && pre.acceptors@.contains_key(other.0),
{
    pre.acceptors.law_keys();
}

/// Shutting down takes out every listener once, and leaves none.
pub proof fn law_all_listeners_out<A>(pre: &Acceptors<A>, r: Seq<A>, post: &Acceptors<A>, token: Token) -> (i: int)
    requires
        pre.wf(),
        pre.cleared(r, post),
    ensures
        post.asked(token, true) is None,
        r.len() == pre.acceptors@.dom().len(),
        pre.acceptors@.contains_key(token.0) ==> 0 <= i < r.len() && r[i] == pre.acceptors@[token.0],
{
    let keys = keys_below(pre.acceptors@, pre.acceptors.peak());
    pre.acceptors.law_keys();
    law_keys_ascend(pre.acceptors@, pre.acceptors.peak());
    assert(keys.no_duplicates());
    keys.unique_seq_to_set();
    assert(keys.to_set() =~= pre.acceptors@.dom()) by {
        assert forall|k: usize| #[trigger] keys.to_set().contains(k) <==> pre.acceptors@.contains_key(k) by {
            assert(keys.contains(k) <==> pre.acceptors@.contains_key(k) && k < pre.acceptors.peak());
        }
    }
    if pre.acceptors@.contains_key(token.0) {
        assert(keys.contains(token.0));
        choose|i: int| 0 <= i < keys.len() && keys[i] == token.0
    } else {
        0
    }
}

/// At first there are no listeners, and the first gets token 0 unless there is room for none.
pub proof fn law_first_listener<A>(a: &Acceptors<A>, cap: usize, token: Token)
    requires
        a.is_new(cap),
    ensures
        a.asked(token, true) is None,
        a.acceptors.limit() == cap,
        cap > 0 ==> a.token_within(cap) == Ok::<_, ListenError>(Token(0)),
        a.token_within(0) is Err,
{
}

} // verus!
