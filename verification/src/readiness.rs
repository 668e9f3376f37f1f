//! What the poller is asked for and what it reports: tokens, interests and the
//! failures that an attempt at I/O can end in.
use vstd::prelude::*;

verus! {

/// Names a source that is registered with the poller.
#[derive(Debug, Copy, Clone, PartialEq, Eq, Hash, Structural)]
pub struct Token(pub usize);

/// The kinds of readiness that a source is registered for; there is at least one.
#[derive(Debug, Copy, Clone, PartialEq, Eq, Structural)]
pub struct Interest {
    pub readable: bool,
    pub writable: bool,
    pub aio: bool,
    pub lio: bool,
    pub priority: bool,
}

impl Interest {
    /// At least one kind of readiness is named.
    pub open spec fn wf(self) -> bool {
        self.readable || self.writable || self.aio || self.lio || self.priority
    }

    /// The kinds that `self` or `other` names.
    pub open spec fn union(self, other: Interest) -> Interest {
        Interest {
            readable: self.readable || other.readable,
            writable: self.writable || other.writable,
            aio: self.aio || other.aio,
            lio: self.lio || other.lio,
            priority: self.priority || other.priority,
        }
    }

    /// The kinds that `self` names and `other` does not.
    pub open spec fn minus(self, other: Interest) -> Interest {
        Interest {
            readable: self.readable && !other.readable,
            writable: self.writable && !other.writable,
            aio: self.aio && !other.aio,
            lio: self.lio && !other.lio,
            priority: self.priority && !other.priority,
        }
    }

    /// Reading alone.
    pub open spec fn reading() -> Interest {
        Interest { readable: true, writable: false, aio: false, lio: false, priority: false }
    }

    /// Writing alone.
    pub open spec fn writing() -> Interest {
        Interest { readable: false, writable: true, aio: false, lio: false, priority: false }
    }

    /// Interest in reading.
    pub fn to_read() -> (r: Interest)
        ensures
            r == Interest::reading(),
    {
        Interest { readable: true, writable: false, aio: false, lio: false, priority: false }
    }

    /// Interest in writing.
    pub fn to_write() -> (r: Interest)
        ensures
            r == Interest::writing(),
    {
        Interest { readable: false, writable: true, aio: false, lio: false, priority: false }
    }

    /// Both interests together.
    pub fn add(self, other: Interest) -> (r: Interest)
        ensures
            r == self.union(other),
    {
        Interest {
            readable: self.readable || other.readable,
            writable: self.writable || other.writable,
            aio: self.aio || other.aio,
            lio: self.lio || other.lio,
            priority: self.priority || other.priority,
        }
    }

    /// What is left of this interest without `other`, if anything is.
    pub fn remove(self, other: Interest) -> (r: Option<Interest>)
        ensures
            r == (if self.minus(other).wf() {
                Some(self.minus(other))
            } else {
                None
            }),
    {
        let rest = Interest {
            readable: self.readable && !other.readable,
            writable: self.writable && !other.writable,
            aio: self.aio && !other.aio,
            lio: self.lio && !other.lio,
            priority: self.priority && !other.priority,
        };
        if rest.is_some() {
            Some(rest)
        } else {
            None
        }
    }

    /// Whether at least one kind of readiness is named.
    pub fn is_some(self) -> (r: bool)
        ensures
            r == self.wf(),
    {
        self.readable || self.writable || self.aio || self.lio || self.priority
    }

    pub fn is_readable(self) -> (r: bool)
        ensures
            r == self.readable,
    {
        self.readable
    }

    pub fn is_writable(self) -> (r: bool)
        ensures
            r == self.writable,
    {
        self.writable
    }
}

/// Whether a source that may be registered waits for reading or for writing.
pub trait BufState {
    spec fn reading(&self) -> bool;

    spec fn writing(&self) -> bool;

    fn is_reading(&self) -> (r: bool)
        ensures
            r == self.reading(),
    ;

    fn is_writing(&self) -> (r: bool)
        ensures
            r == self.writing(),
    ;
}

impl BufState for Option<Interest> {
    open spec fn reading(&self) -> bool {
        self matches Some(i) && i.readable
    }

    open spec fn writing(&self) -> bool {
        self matches Some(i) && i.writable
    }

    fn is_reading(&self) -> (r: bool) {
        match self {
            Some(i) => i.is_readable(),
            None => false,
        }
    }

    fn is_writing(&self) -> (r: bool) {
        match self {
            Some(i) => i.is_writable(),
            None => false,
        }
    }
}

/// What the poller has to be told about a source.
#[derive(Debug, Copy, Clone, PartialEq, Eq, Structural)]
pub enum Registration {
    /// A source that it does not know: watch it for this interest.
    Register(Interest),
    /// A source that it knows: watch it for this interest instead.
    Reregister(Interest),
    /// A source that it knows: watch it no more.
    Deregister,
}

impl Registration {
    /// The source is in the state that the poller demands for this call: known,
    /// or, to be registered, unknown.
    pub open spec fn applies_to(self, known: Option<Interest>) -> bool {
        match self {
            Registration::Register(_) => known is None,
            Registration::Reregister(_) => known is Some,
            Registration::Deregister => known is Some,
        }
    }

    /// What the poller then watches the source for.
    pub open spec fn watches(self) -> Option<Interest> {
        match self {
            Registration::Register(i) => Some(i),
            Registration::Reregister(i) => Some(i),
            Registration::Deregister => None,
        }
    }
}

/// The kinds of failure that are told apart.
#[derive(Debug, Copy, Clone, PartialEq, Eq, Structural)]
pub enum FailureKind {
    /// Nothing can be done right now.
    WouldBlock,
    /// The socket is not connected.
    NotConnected,
    Other,
}

/// A failed attempt at I/O.
#[derive(Debug, Copy, Clone, PartialEq, Eq, Structural)]
pub struct Failure {
    pub kind: FailureKind,
    /// The error number of the operating system, if it gave one.
    pub raw_os_error: Option<i32>,
}

impl Failure {
    pub fn would_block(self) -> (r: bool)
        ensures
            r == (self.kind == FailureKind::WouldBlock),
    {
        match self.kind {
            FailureKind::WouldBlock => true,
            _ => false,
        }
    }

    /// The failure means that a connection attempt is under way, where the
    /// operating system numbers that error `in_progress`.
    pub open spec fn means_connecting(self, in_progress: i32) -> bool {
        self.kind == FailureKind::NotConnected || self.raw_os_error == Some(in_progress)
    }

    /// Whether the failure means that a connection attempt is under way, where
    /// the operating system numbers that error `in_progress`.
    pub fn is_connecting(self, in_progress: i32) -> (r: bool)
        ensures
            r == self.means_connecting(in_progress),
    {
        let not_connected = match self.kind {
            FailureKind::NotConnected => true,
            _ => false,
        };
        not_connected || match self.raw_os_error {
            Some(n) => n == in_progress,
            None => false,
        }
    }
}

/// What asking a socket for its peer's address came to.
#[derive(Debug, Copy, Clone, PartialEq, Eq, Structural)]
pub enum Peer {
    /// There is a peer: the socket is connected.
    Connected,
    /// The connection attempt is still under way.
    Connecting,
    /// The connection attempt has failed.
    Failed,
}

impl Peer {
    /// What the outcome of asking for the peer's address means, where the operating
    /// system numbers an attempt under way `in_progress`.
    pub open spec fn meaning<A>(outcome: Result<A, Failure>, in_progress: i32) -> Peer {
        match outcome {
            Ok(_) => Peer::Connected,
            Err(e) => if e.means_connecting(in_progress) {
                Peer::Connecting
            } else {
                Peer::Failed
            },
        }
    }

    /// What the outcome of asking for the peer's address means, where the operating
    /// system numbers an attempt under way `in_progress`.
    pub fn judge_with<A>(outcome: &Result<A, Failure>, in_progress: i32) -> (r: Peer)
        ensures
            r == Peer::meaning(*outcome, in_progress),
    {
        match outcome {
            Ok(_) => Peer::Connected,
            Err(e) => if e.is_connecting(in_progress) {
                Peer::Connecting
            } else {
                Peer::Failed
            },
        }
    }

    /// What the outcome of asking for the peer's address means on this machine.
    pub fn judge<A>(outcome: &Result<A, Failure>) -> (r: Peer)
        ensures
            exists|in_progress: i32| r == Peer::meaning(*outcome, in_progress),
            r == Peer::Connected <==> outcome is Ok,
            outcome matches Err(e) ==> {
                &&& e.kind == FailureKind::NotConnected ==> r == Peer::Connecting
                &&& e.kind != FailureKind::NotConnected && e.raw_os_error is None ==> r == Peer::Failed
            },
    {
        let in_progress: i32 = connect_in_progress();
        Peer::judge_with(outcome, in_progress)
    }
}

/// `libc::EINPROGRESS`, the number of the error that says that a connection attempt
/// is under way. Operating systems number it differently, so nothing is claimed
/// of it.
#[verifier::external_body]
fn connect_in_progress() -> (n: i32) {
    libc::EINPROGRESS
}

} // verus!
