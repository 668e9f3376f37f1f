//! A service: what it does about the events of its event loop.
use crate::acceptor::{accepted, AcceptStep};
use crate::readiness::{Failure, FailureKind, Token};
use crate::tcp_connection::{ConnTypes, TcpConnMessage};
use crate::tcp_server::K_ACCEPT_TOKEN;
use vstd::prelude::*;

verus! {

/// What a service does about an event.
#[derive(Debug, Copy, Clone, PartialEq, Eq, Structural)]
pub enum ServicePlan {
    /// Ask the listener for new connections until there is none, and hand each to the
    /// next event loop.
    Accept,
    Nothing,
    /// Report an event that nobody waits for.
    Unknown(Token),
}

/// What a service does about an event.
pub open spec fn plan(token: Token, readable: bool) -> ServicePlan {
    if token != Token(K_ACCEPT_TOKEN) {
        ServicePlan::Unknown(token)
    } else if readable {
        ServicePlan::Accept
    } else {
        ServicePlan::Nothing
    }
}

/// A service accepts when its listener can be read, reports any event that is not its
/// listener's, and does nothing otherwise.
pub proof fn law_service_plan(token: Token, readable: bool)
    ensures
        plan(token, readable) is Accept <==> token.0 == 0 && readable,
        plan(token, readable) is Unknown <==> token.0 != 0,
        plan(token, readable) matches ServicePlan::Unknown(t) ==> t == token,
{
}

/// What a service does about an event: only its listener's are expected.
pub fn handle_io_event(token: Token, readable: bool) -> (r: ServicePlan)
    ensures
        r == plan(token, readable),
{
    if token.0 == K_ACCEPT_TOKEN {
        if readable {
            ServicePlan::Accept
        } else {
            ServicePlan::Nothing
        }
    } else {
        ServicePlan::Unknown(token)
    }
}

/// What a service does next once its listener was asked for a new connection.
pub enum ServiceStep<S, D> {
    /// There is one, with this peer: tell the next event loop of the pool that it is
    /// established, then ask again.
    Establish(S, D),
    /// There is none: ask no more for now.
    Done,
    /// Asking failed: report it and have the service's own event loop shut down in good
    /// order, then ask again.
    DeadLetter(Failure),
}

/// What a service does next once asking its listener has come to `outcome`.
pub open spec fn step<S, D>(outcome: Result<(S, D), Failure>) -> ServiceStep<S, D> {
    match outcome {
        Ok((stream, addr)) => ServiceStep::Establish(stream, addr),
        Err(e) => if e.kind == FailureKind::WouldBlock {
            ServiceStep::Done
        } else {
            ServiceStep::DeadLetter(e)
        },
    }
}

/// Every connection that the listener gives is established, with its own socket and
/// address; the asking ends just when there is none; and any failure leads to a dead
/// letter.
pub proof fn law_service_step<S, D>(outcome: Result<(S, D), Failure>)
    ensures
        step(outcome) is Establish <==> outcome is Ok,
        outcome matches Ok(c) ==> (step(outcome) matches ServiceStep::Establish(s, a) && s == c.0 && a == c.1),
        step(outcome) is Done <==> (outcome matches Err(e) && e.kind == FailureKind::WouldBlock),
        outcome matches Err(e) ==> e.kind != FailureKind::WouldBlock ==> (step(outcome) matches ServiceStep::DeadLetter(
            f,
        ) && f == e),
{
}

/// What a service does once asking its listener for a new connection has come to
/// `outcome`.
pub fn handle_accept<S, D>(outcome: Result<(S, D), Failure>) -> (r: ServiceStep<S, D>)
    ensures
        r == step(outcome),
{
    match accepted(outcome) {
        AcceptStep::Connection((stream, addr)) => ServiceStep::Establish(stream, addr),
        AcceptStep::Done => ServiceStep::Done,
        AcceptStep::Failed(e) => ServiceStep::DeadLetter(e),
    }
}

/// What the next event loop of the pool is told of a new connection.
pub open spec fn news<C: ConnTypes>(stream: C::Stream, peer_addr: C::Addr, callback: C::Setup) -> TcpConnMessage<C> {
    TcpConnMessage::Established(stream, peer_addr, callback)
}

/// The next event loop is told that the connection is established, with its socket, its
/// peer's address and what is to set it up.
pub proof fn law_news<C: ConnTypes>(stream: C::Stream, peer_addr: C::Addr, callback: C::Setup)
    ensures
        news::<C>(stream, peer_addr, callback) matches TcpConnMessage::Established(s, a, f) && s == stream && a
            == peer_addr && f == callback,
{
}

/// What the next event loop of the pool is told of a new connection, which `callback` is
/// to set up.
pub fn established<C: ConnTypes>(stream: C::Stream, peer_addr: C::Addr, callback: C::Setup) -> (r: TcpConnMessage<C>)
    ensures
        r == news::<C>(stream, peer_addr, callback),
{
    TcpConnMessage::Established(stream, peer_addr, callback)
}

} // verus!
