//! A TCP connection as a machine of three states: it is connecting, then connected, then
//! disconnected.
use crate::buffer::Buffer;
use crate::readiness::{Failure, FailureKind, Interest, Peer, Registration, Token};
use crate::readiness_laws::{told, waits_for, Readiness};
use crate::tcp_connection::{disabling, enabling, watched};
use crate::tcp_connection_laws::{law_disabling, law_enabling};
use vstd::prelude::*;

verus! {

/// What a connection has in every state: its token, what the poller watches it for, and
/// the rest `X`.
pub struct Minimal<X> {
    pub token: Token,
    pub interests: Option<Interest>,
    pub ext: X,
}

impl<X> Minimal<X> {
    pub open spec fn wf(&self) -> bool {
        self.interests matches Some(i) ==> i.wf()
    }

    /// Watches for `mode` too.
    pub fn enable_io(&mut self, mode: Interest) -> (r: Registration)
        requires
            old(self).wf(),
            mode.wf(),
        ensures
            final(self).wf(),
            r == enabling(old(self).interests, mode),
            *final(self) == (Minimal { interests: r.watches(), ..*old(self) }),
    {
        match self.interests {
            Some(x) => {
                let y = x.add(mode);
                self.interests = Some(y);
                Registration::Reregister(y)
            },
            None => {
                self.interests = Some(mode);
                Registration::Register(mode)
            },
        }
    }

    /// Watches for `mode` no more.
    pub fn disable_io(&mut self, mode: Interest) -> (r: Option<Registration>)
        requires
            old(self).wf(),
        ensures
            final(self).wf(),
            r == disabling(old(self).interests, mode),
            *final(self) == (Minimal { interests: watched(old(self).interests, r), ..*old(self) }),
    {
        match self.interests {
            Some(i) => match i.remove(mode) {
                Some(y) => {
                    self.interests = Some(y);
                    Some(Registration::Reregister(y))
                },
                None => {
                    self.interests = None;
                    Some(Registration::Deregister)
                },
            },
            None => None,
        }
    }
}

/// A connection attempt is under way.
pub struct Connecting<X> {
    pub min: Minimal<X>,
}

/// The connection stands. `F` is what can be called with it.
pub struct Connected<X, F> {
    pub min: Minimal<X>,
    pub input: Buffer,
    pub output: Buffer,
    pub on_read_complete: Option<F>,
    pub on_write_complete: Option<F>,
    pub on_close: Option<F>,
}

/// The connection is over.
pub struct Disconnected<X> {
    pub min: Minimal<X>,
}

/// A connection in any state.
pub enum State<X, F> {
    Connecting(Connecting<X>),
    Connected(Connected<X, F>),
    Disconnected(Disconnected<X>),
}

/// What to do next to take in what has arrived.
pub enum ReadStep<X, F> {
    /// Read again, and report the outcome.
    Again(Connected<X, F>),
    /// All that has arrived was read: call this, put it back, and take on the state that
    /// it returns.
    Call(Connected<X, F>, F),
    /// Read no more for now; this is the state, and the poller may have to be told.
    Done(State<X, F>, Option<Registration>),
}

impl<X> Connecting<X> {
    /// This attempt was just begun over the socket with file descriptor `fd`.
    pub open spec fn is_new(&self, fd: i32, ext: X) -> bool {
        self.min == (Minimal { token: Token(fd as usize), interests: None, ext })
    }

    /// Starting to wait for the socket to become readable asks `r` of the poller, and makes
    /// `post` of this attempt.
    pub open spec fn entered(&self, r: Registration, post: &Self) -> bool {
        &&& r == enabling(self.min.interests, Interest::reading())
        &&& post.min == (Minimal { interests: r.watches(), ..self.min })
    }

    /// `r` is the state once asking the socket for its peer has come to `peer`.
    pub open spec fn goes_on<F>(self, peer: Peer, r: State<X, F>) -> bool {
        if peer == Peer::Connected {
            r matches State::Connected(c) && self.connected(c)
        } else {
            r == State::<X, F>::Connecting(self)
        }
    }

    /// A connection attempt over the socket with file descriptor `fd`, which gives the
    /// token.
    pub fn new(fd: i32, ext: X) -> (r: Self)
        requires
            fd > 0,
        ensures
            r.is_new(fd, ext),
    {
        Connecting { min: Minimal { token: Token(fd as usize), interests: None, ext } }
    }

    /// Starts to wait for the socket to become readable.
    pub fn entry(&mut self) -> (r: Registration)
        requires
            old(self).min.wf(),
        ensures
            final(self).min.wf(),
            old(self).entered(r, final(self)),
    {
        self.min.enable_io(Interest::to_read())
    }

    /// The connection that stands once the attempt has succeeded.
    pub open spec fn connected<F>(self, c: Connected<X, F>) -> bool {
        &&& c.min == self.min
        &&& c.input.is_fresh()
        &&& c.output.is_fresh()
        &&& c.on_read_complete is None
        &&& c.on_write_complete is None
        &&& c.on_close is None
    }

    /// The state once the socket has been asked for its peer: the attempt goes on unless
    /// there is one.
    pub fn handle_read<F>(self, peer: Peer) -> (r: State<X, F>)
        ensures
            self.goes_on(peer, r),
    {
        match peer {
            Peer::Connected => State::Connected(
                Connected {
                    min: self.min,
                    input: Buffer::new(),
                    output: Buffer::new(),
                    on_read_complete: None,
                    on_write_complete: None,
                    on_close: None,
                },
            ),
            Peer::Connecting => State::Connecting(self),
            Peer::Failed => State::Connecting(self),
        }
    }
}

impl<X, F> Connected<X, F> {
    /// What follows once a read into the input has come to `outcome`.
    pub open spec fn read_step(self, outcome: Result<usize, Failure>) -> ReadStep<X, F> {
        match outcome {
            Ok(n) => if n > 0 {
                ReadStep::Again(self)
            } else {
                let all = Interest::reading().union(Interest::writing());
                let registration = disabling(self.min.interests, all);
                let min = Minimal { interests: watched(self.min.interests, registration), ..self.min };
                ReadStep::Done(State::Disconnected(Disconnected { min }), registration)
            },
            Err(e) => if e.kind == FailureKind::WouldBlock && self.on_read_complete is Some {
                ReadStep::Call(Connected { on_read_complete: None, ..self }, self.on_read_complete->Some_0)
            } else {
                ReadStep::Done(State::Connected(self), None)
            },
        }
    }

    /// What follows once a read into the input has come to `outcome`. At the end of the
    /// input the connection is over and is watched no more.
    pub fn handle_read(self, outcome: Result<usize, Failure>) -> (r: ReadStep<X, F>)
        requires
            self.min.wf(),
        ensures
            r == self.read_step(outcome),
    {
        let mut this = self;
        match outcome {
            Ok(n) => {
                if n > 0 {
                    ReadStep::Again(this)
                } else {
                    let mut next = Disconnected { min: this.min };
                    let registration = next.entry();
                    ReadStep::Done(State::Disconnected(next), registration)
                }
            },
            Err(e) => {
                if e.would_block() {
                    match this.on_read_complete.take() {
                        Some(f) => ReadStep::Call(this, f),
                        None => ReadStep::Done(State::Connected(this), None),
                    }
                } else {
                    ReadStep::Done(State::Connected(this), None)
                }
            },
        }
    }

    /// Putting `f` back makes `post` of this connection.
    pub open spec fn has_back(&self, f: F, post: &Self) -> bool {
        *post == (Connected { on_read_complete: Some(f), ..*self })
    }

    /// Puts what was called back.
    pub fn put_back(&mut self, f: F)
        ensures
            old(self).has_back(f, final(self)),
    {
        self.on_read_complete = Some(f);
    }
}

impl<X> Disconnected<X> {
    /// Ceasing to wait asks `r` of the poller, if anything, and makes `post` of this.
    pub open spec fn entered(&self, r: Option<Registration>, post: &Self) -> bool {
        &&& r == disabling(self.min.interests, Interest::reading().union(Interest::writing()))
        &&& post.min == (Minimal { interests: watched(self.min.interests, r), ..self.min })
    }

    /// Stops waiting altogether.
    pub fn entry(&mut self) -> (r: Option<Registration>)
        requires
            old(self).min.wf(),
        ensures
            final(self).min.wf(),
            old(self).entered(r, final(self)),
    {
        self.min.disable_io(Interest::to_read().add(Interest::to_write()))
    }
}

/// A connection never leads back: once connected it is not connecting again, it keeps its
/// token, and once it is over its socket is watched neither for reading nor for
/// writing.
pub proof fn law_forward_only<X, F>(c: Connected<X, F>, outcome: Result<usize, Failure>)
    ensures
        match c.read_step(outcome) {
            ReadStep::Again(d) => d == c,
            ReadStep::Call(d, _) => d.min == c.min && d.input == c.input && d.output == c.output,
            ReadStep::Done(State::Connecting(_), _) => false,
            ReadStep::Done(State::Connected(d), _) => d == c,
            ReadStep::Done(State::Disconnected(d), _) => {
                &&& d.min.token == c.min.token
                &&& d.min.interests matches Some(i) ==> !i.readable && !i.writable
            },
        },
{
}

/// An attempt begins with the token that its socket has, and is not watched; entering it has
/// it watched for reading as well as for what it was watched for.
pub proof fn law_attempt_begins<X>(c: &Connecting<X>, fd: i32, ext: X, r: Registration, post: &Connecting<X>)
    requires
        fd > 0,
        c.is_new(fd, ext),
        c.entered(r, post),
    ensures
        c.min.token.0 == fd,
        c.min.ext == ext,
        c.min.interests is None,
        told(Some(r), c.min.interests, post.min.interests),
        forall|k: Readiness| #[trigger] waits_for(post.min.interests, k) <==> k is Readable,
        post.min.token == c.min.token,
        post.min.ext == c.min.ext,
{
    law_enabling(c.min.interests, Interest::reading());
}

/// An attempt that is entered is watched for reading, and for all that it was watched for.
pub proof fn law_attempt_is_watched<X>(c: &Connecting<X>, r: Registration, post: &Connecting<X>)
    requires
        c.entered(r, post),
    ensures
        told(Some(r), c.min.interests, post.min.interests),
        forall|k: Readiness| #[trigger]
            waits_for(post.min.interests, k) <==> waits_for(c.min.interests, k) || k is Readable,
        post.min.token == c.min.token,
        post.min.ext == c.min.ext,
{
    law_enabling(c.min.interests, Interest::reading());
    assert forall|k: Readiness| #[trigger]
        waits_for(post.min.interests, k) <==> waits_for(c.min.interests, k) || k is Readable by {
        assert(Interest::reading().names(k) <==> k is Readable);
    }
}

/// An attempt leads to a connection exactly when the socket has a peer, with the same token,
/// watched as it was, and with nothing read or to be written yet; until then it stays as it
/// is.
pub proof fn law_attempt_goes_on<X, F>(c: Connecting<X>, peer: Peer, r: State<X, F>)
    requires
        c.goes_on(peer, r),
    ensures
        r is Connected <==> peer == Peer::Connected,
        r is Connecting <==> peer != Peer::Connected,
        r matches State::Connecting(d) ==> d == c,
        r matches State::Connected(d) ==> {
            &&& d.min == c.min
            &&& d.input@.len() == 0
            &&& d.output@.len() == 0
            &&& d.on_read_complete is None
            &&& d.on_write_complete is None
            &&& d.on_close is None
        },
{
}

/// A connection reads on as long as bytes arrive. Once all that has arrived was read, what
/// was set to be called then is called, and the connection is without it until it is put
/// back. At the end of the stream the connection is over, and the poller is told that it is
/// watched for neither reading nor writing. Any other failure changes nothing.
pub proof fn law_connected_reads<X, F>(c: Connected<X, F>, outcome: Result<usize, Failure>)
    ensures
        match c.read_step(outcome) {
            ReadStep::Again(d) => (outcome matches Ok(n) && n > 0) && d == c,
            ReadStep::Call(d, f) => {
                &&& outcome matches Err(e) && e.kind == FailureKind::WouldBlock
                &&& c.on_read_complete == Some(f)
                &&& d.on_read_complete is None
                &&& forall|back: Connected<X, F>| #[trigger] d.has_back(f, &back) ==> back == c
            },
            ReadStep::Done(State::Disconnected(d), registration) => {
                &&& outcome == Ok::<usize, Failure>(0)
                &&& d.min.token == c.min.token
                &&& d.min.ext == c.min.ext
                &&& told(registration, c.min.interests, d.min.interests)
                &&& forall|k: Readiness| #[trigger]
                    waits_for(d.min.interests, k) <==> waits_for(c.min.interests, k) && k !is Readable && k
                        !is Writable
            },
            ReadStep::Done(State::Connected(d), registration) => {
                &&& d == c
                &&& registration is None
                &&& outcome matches Err(e) && (e.kind != FailureKind::WouldBlock || c.on_read_complete is None)
            },
            ReadStep::Done(State::Connecting(_), _) => false,
        },
{
    lemma_over(c.min.interests);
}

/// A connection that is over is watched for neither reading nor writing, and for all else as
/// before; the poller is told so.
pub proof fn law_over<X>(d: &Disconnected<X>, r: Option<Registration>, post: &Disconnected<X>)
    requires
        d.entered(r, post),
    ensures
        told(r, d.min.interests, post.min.interests),
        forall|k: Readiness| #[trigger]
            waits_for(post.min.interests, k) <==> waits_for(d.min.interests, k) && k !is Readable && k !is Writable,
        post.min.token == d.min.token,
        post.min.ext == d.min.ext,
{
    lemma_over(d.min.interests);
}

/// What ceasing to wait to read and to write leaves.
proof fn lemma_over(interests: Option<Interest>)
    ensures
        ({
            let all = Interest::reading().union(Interest::writing());
            let left = watched(interests, disabling(interests, all));
            &&& told(disabling(interests, all), interests, left)
            &&& forall|k: Readiness| #[trigger]
                waits_for(left, k) <==> waits_for(interests, k) && k !is Readable && k !is Writable
        }),
{
    let all = Interest::reading().union(Interest::writing());
    let left = watched(interests, disabling(interests, all));
    law_disabling(interests, all);
    assert forall|k: Readiness| #[trigger]
        waits_for(left, k) <==> waits_for(interests, k) && k !is Readable && k !is Writable by {
        assert(all.names(k) <==> k is Readable || k is Writable);
    }
}

} // verus!
