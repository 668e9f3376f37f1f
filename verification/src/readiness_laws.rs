//! What interests, registrations and the answers of sockets mean.
use crate::readiness::{BufState, Failure, FailureKind, Interest, Peer, Registration};
use vstd::prelude::*;

verus! {

/// One kind of readiness.
pub enum Readiness {
    Readable,
    Writable,
    Aio,
    Lio,
    Priority,
}

impl Interest {
    /// This interest names that kind of readiness.
    pub open spec fn names(self, kind: Readiness) -> bool {
        match kind {
            Readiness::Readable => self.readable,
            Readiness::Writable => self.writable,
            Readiness::Aio => self.aio,
            Readiness::Lio => self.lio,
            Readiness::Priority => self.priority,
        }
    }
}

/// A source with these interests, if it has any, waits for that kind of readiness.
pub open spec fn waits_for(interests: Option<Interest>, kind: Readiness) -> bool {
    interests matches Some(i) && i.names(kind)
}

/// Two interests that name the same kinds are equal.
pub proof fn law_interest_is_its_kinds(a: Interest, b: Interest)
    requires
        forall|k: Readiness| #[trigger] a.names(k) <==> b.names(k),
    ensures
        a == b,
{
    assert(a.names(Readiness::Readable) <==> b.names(Readiness::Readable));
    assert(a.names(Readiness::Writable) <==> b.names(Readiness::Writable));
    assert(a.names(Readiness::Aio) <==> b.names(Readiness::Aio));
    assert(a.names(Readiness::Lio) <==> b.names(Readiness::Lio));
    assert(a.names(Readiness::Priority) <==> b.names(Readiness::Priority));
}

/// Two interests together name what either of them names; one without another names what
/// it alone names.
pub proof fn law_interests_combine(a: Interest, b: Interest)
    ensures
        forall|k: Readiness| #[trigger] a.union(b).names(k) <==> a.names(k) || b.names(k),
        forall|k: Readiness| #[trigger] a.minus(b).names(k) <==> a.names(k) && !b.names(k),
{
}

/// An interest is valid if it names anything at all; reading and writing each name just
/// that.
pub proof fn law_interests_named(i: Interest)
    ensures
        i.wf() <==> exists|k: Readiness| #[trigger] i.names(k),
        forall|k: Readiness| #[trigger] Interest::reading().names(k) <==> k is Readable,
        forall|k: Readiness| #[trigger] Interest::writing().names(k) <==> k is Writable,
{
    if i.wf() {
        assert(i.names(Readiness::Readable) || i.names(Readiness::Writable) || i.names(Readiness::Aio) || i.names(
            Readiness::Lio,
        ) || i.names(Readiness::Priority));
    }
}

/// A source waits to read or to write if it is registered for that; one that is not
/// registered waits for neither.
pub proof fn law_waiting(interests: Option<Interest>)
    ensures
        interests.reading() <==> waits_for(interests, Readiness::Readable),
        interests.writing() <==> waits_for(interests, Readiness::Writable),
{
}

/// The poller is told `registration`, if anything, about a source that it watched for
/// `before`, and then watches it for `after`: what it is told fits what it knows, and
/// where it is told nothing, nothing changes.
pub open spec fn told(
    registration: Option<Registration>,
    before: Option<Interest>,
    after: Option<Interest>,
) -> bool {
    match registration {
        None => after == before,
        Some(Registration::Register(i)) => before is None && after == Some(i),
        Some(Registration::Reregister(i)) => before is Some && after == Some(i),
        Some(Registration::Deregister) => before is Some && after is None,
    }
}

/// What a registration leads to, and when it applies.
pub proof fn law_registration(r: Registration, known: Option<Interest>)
    ensures
        r.applies_to(known) <==> told(Some(r), known, r.watches()),
{
}

/// Asking a socket for its peer: it is connected if there is one, still connecting if it
/// says that it is not connected yet or that an attempt is in progress, and has
/// failed otherwise.
pub proof fn law_peer<A>(outcome: Result<A, Failure>, in_progress: i32)
    ensures
        Peer::meaning(outcome, in_progress) == Peer::Connected <==> outcome is Ok,
        Peer::meaning(outcome, in_progress) == Peer::Connecting <==> (outcome matches Err(e) && (e.kind
            == FailureKind::NotConnected || (e.raw_os_error matches Some(n) && n == in_progress))),
{
}

} // verus!
