//! A TCP connection: what it waits for, what it has read and what it has still to
//! write, and what to do next as its socket reports back.
use crate::buffer::Buffer;
use crate::readiness::{BufState, Failure, FailureKind, Interest, Registration, Token};
use std::hash::Hash;
use vstd::prelude::*;
use vstd::slice::slice_subrange;

verus! {

/// The types that connections of one kind are made with.
pub trait ConnTypes: Sized {
    /// The rest of a connection, beside what the library keeps of it.
    type Ext;

    /// A socket.
    type Stream;

    /// The address of a peer.
    type Addr;

    /// What is called with a connection, once.
    type Setup;

    /// Marks a timer of a connection.
    type Mark: Clone + Eq + Hash;

    /// What is called when a timer runs out that runs once.
    type Once;

    /// What is called whenever a timer runs out that repeats.
    type Every;
}

/// Which halves of a connection to shut down.
#[derive(Debug, Copy, Clone, PartialEq, Eq, Structural)]
pub enum Shutdown {
    Read,
    Write,
    Both,
}

/// What a dispatcher of connections is told.
pub enum TcpConnMessage<C: ConnTypes> {
    Established(C::Stream, C::Addr, C::Setup),
    Connecting(C::Stream, C::Addr, C::Setup),
    Removed(Token),
    Write(Token, Vec<u8>),
    WriteComplete(Token),
    Enable(Token, Interest),
    Disable(Token, Interest),
    Shutdown(Token, Shutdown),
    SetContext(Token, C::Setup),
    AddTimer(Token, u64, C::Mark, C::Once),
    AddTimer2(Token, u64, u64, C::Mark, C::Every),
    CancelTimer(Token, C::Mark),
}

/// What to do next to send some bytes.
#[derive(Debug, Copy, Clone, PartialEq, Eq, Structural)]
pub enum SendStep {
    /// Write the bytes from this position on, and report the outcome.
    Write(usize),
    /// All bytes were written: tell the dispatcher so.
    Complete,
    /// The bytes wait in the output; the poller may have to be told.
    Buffered(Option<Registration>),
}

/// What to do next to take in what has arrived.
#[derive(Debug, Copy, Clone, PartialEq, Eq, Structural)]
pub enum ReadStep {
    /// Read again, and report the outcome.
    Again,
    /// The peer has closed: the poller may have to be told, the connection is told
    /// and the dispatcher is to remove it.
    Closed(Option<Registration>),
    /// All that has arrived was read: the connection is told.
    Complete,
    /// The read failed: the connection is told.
    Failed,
}

/// What to do next to write what waits in the output.
#[derive(Debug, Copy, Clone, PartialEq, Eq, Structural)]
pub enum WriteStep {
    /// Write from the output, and report the outcome.
    Again,
    /// The write failed: the connection is told, then it writes again.
    Failed,
    /// Nothing more can be written now.
    Idle,
    /// The output is empty: the poller may have to be told, and the dispatcher is.
    Complete(Option<Registration>),
}

/// A connection.
pub struct TcpConnection<C: ConnTypes> {
    pub token: Token,
    /// What the connection has asked the poller to watch its socket for. (While a connection
    /// attempt is under way, its dispatcher has the socket watched for reading without
    /// the connection having asked.)
    pub interests: Option<Interest>,
    /// What has arrived and was not taken yet.
    pub input: Buffer,
    /// What waits to be written.
    pub output: Buffer,
    pub ext: C::Ext,
}

/// What enabling `mode` asks of the poller.
pub open spec fn enabling(interests: Option<Interest>, mode: Interest) -> Registration {
    match interests {
        Some(i) => Registration::Reregister(i.union(mode)),
        None => Registration::Register(mode),
    }
}

/// What disabling `mode` asks of the poller, if anything.
pub open spec fn disabling(interests: Option<Interest>, mode: Interest) -> Option<Registration> {
    match interests {
        Some(i) => if i.minus(mode).wf() {
            Some(Registration::Reregister(i.minus(mode)))
        } else {
            Some(Registration::Deregister)
        },
        None => None,
    }
}

/// What the poller watches for once `registration`, if there is one, has been
/// carried out.
pub open spec fn watched(interests: Option<Interest>, registration: Option<Registration>) -> Option<Interest> {
    match registration {
        Some(r) => r.watches(),
        None => interests,
    }
}

/// What of `data` waits in the output once `written` bytes are written and a write has
/// failed with `e`: the rest if the socket is busy, all of it after another
/// failure.
pub open spec fn left_to_send(data: Seq<u8>, written: int, e: Failure) -> Seq<u8> {
    if e.kind == FailureKind::WouldBlock {
        data.skip(written)
    } else {
        data
    }
}

impl<C: ConnTypes> TcpConnection<C> {
    /// The buffers are valid, and what was asked of the poller is not nothing.
    pub open spec fn wf(&self) -> bool {
        &&& self.input.wf()
        &&& self.output.wf()
        &&& self.interests matches Some(i) ==> i.wf()
    }

    /// This connection is `pre`, but for its interests and its output.
    pub open spec fn rest_kept(&self, pre: &Self) -> bool {
        &&& self.token == pre.token
        &&& self.input == pre.input
        &&& self.ext == pre.ext
    }

    /// What is to be sent has to wait for what is to be written first.
    pub open spec fn must_wait(&self) -> bool {
        self.interests.writing() || self.output@.len() > 0
    }

    /// Step `r` starts to send `data`, and makes `post` of this connection: the bytes
    /// are written at once, or else they wait.
    pub open spec fn send_starts(&self, data: Seq<u8>, r: SendStep, post: &Self) -> bool {
        if !self.must_wait() {
            r == SendStep::Write(0) && *post == *self
        } else {
            &&& r == SendStep::Buffered(
                if self.interests.writing() {
                    None
                } else {
                    Some(enabling(self.interests, Interest::writing()))
                },
            )
            &&& post.interests == watched(self.interests, r->Buffered_0)
            &&& self.output.appended(data, &post.output)
            &&& post.rest_kept(self)
        }
    }

    /// Step `r` follows in sending `data` once `written` bytes are written and an attempt
    /// to write the rest has come to `outcome`, and makes `post` of this connection.
    pub open spec fn send_goes_on(
        &self,
        data: Seq<u8>,
        written: int,
        outcome: Result<usize, Failure>,
        r: SendStep,
        post: &Self,
    ) -> bool {
        match outcome {
            Ok(n) => {
                &&& r == (if written + n == data.len() {
                    SendStep::Complete
                } else {
                    SendStep::Write((written + n) as usize)
                })
                &&& *post == *self
            },
            Err(e) => {
                &&& r == SendStep::Buffered(Some(enabling(self.interests, Interest::writing())))
                &&& post.interests == watched(self.interests, r->Buffered_0)
                &&& self.output.appended(left_to_send(data, written, e), &post.output)
                &&& post.rest_kept(self)
            },
        }
    }

    /// Step `r` follows once a write from the output has come to `outcome`, and makes
    /// `post` of this connection.
    pub open spec fn write_goes_on(&self, outcome: Result<usize, Failure>, r: WriteStep, post: &Self) -> bool {
        match outcome {
            Ok(n) => {
                &&& self.output.retrieved(n as int, &post.output)
                &&& r == (if n == self.output@.len() {
                    WriteStep::Complete(disabling(self.interests, Interest::writing()))
                } else {
                    WriteStep::Again
                })
                &&& post.interests == (if n == self.output@.len() {
                    watched(self.interests, r->Complete_0)
                } else {
                    self.interests
                })
                &&& post.rest_kept(self)
            },
            Err(e) => {
                &&& r == (if e.kind == FailureKind::WouldBlock {
                    WriteStep::Idle
                } else {
                    WriteStep::Failed
                })
                &&& *post == *self
            },
        }
    }

    /// Step `r` follows once a read into the input has come to `outcome`, and makes `post`
    /// of this connection.
    pub open spec fn read_goes_on(&self, outcome: Result<usize, Failure>, r: ReadStep, post: &Self) -> bool {
        match outcome {
            Ok(n) => if n > 0 {
                r == ReadStep::Again && *post == *self
            } else {
                let all = Interest::reading().union(Interest::writing());
                &&& r == ReadStep::Closed(disabling(self.interests, all))
                &&& *post == (TcpConnection { interests: watched(self.interests, r->Closed_0), ..*self })
            },
            Err(e) => {
                &&& r == (if e.kind == FailureKind::WouldBlock {
                    ReadStep::Complete
                } else {
                    ReadStep::Failed
                })
                &&& *post == *self
            },
        }
    }

    /// The step that starts to write what waits in the output.
    pub open spec fn write_starts(&self) -> WriteStep {
        if self.interests.writing() {
            WriteStep::Again
        } else {
            WriteStep::Idle
        }
    }

    /// This is a connection that was just made: it has not asked the poller for anything
    /// yet, and its buffers are fresh.
    pub open spec fn is_new(&self, token: Token, ext: C::Ext) -> bool {
        &&& self.wf()
        &&& self.token == token
        &&& self.ext == ext
        &&& self.interests is None
        &&& self.input.is_fresh()
        &&& self.output.is_fresh()
    }

    /// The message that asks for `f` to be called once, `delay_ms` from now.
    pub open spec fn once(&self, delay_ms: u64, mark: C::Mark, f: C::Once) -> TcpConnMessage<C> {
        TcpConnMessage::AddTimer(self.token, delay_ms, mark, f)
    }

    /// The message that asks for `f` to be called `delay_ms` from now and then again and
    /// again, `interval_ms` apart.
    pub open spec fn every(&self, delay_ms: u64, interval_ms: u64, mark: C::Mark, f: C::Every) -> TcpConnMessage<C> {
        TcpConnMessage::AddTimer2(self.token, delay_ms, interval_ms, mark, f)
    }

    /// The message that takes back a timer.
    pub open spec fn no_more(&self, mark: C::Mark) -> TcpConnMessage<C> {
        TcpConnMessage::CancelTimer(self.token, mark)
    }

    /// A connection that has not asked the poller for anything yet, with fresh buffers.
    pub fn make(token: Token, ext: C::Ext) -> (r: Self)
        ensures
            r.is_new(token, ext),
    {
        TcpConnection { token, interests: None, input: Buffer::new(), output: Buffer::new(), ext }
    }

    /// Watches for `mode` too.
    pub fn enable_io(&mut self, mode: Interest) -> (r: Registration)
        requires
            old(self).wf(),
            mode.wf(),
        ensures
            final(self).wf(),
            r == enabling(old(self).interests, mode),
            *final(self) == (TcpConnection { interests: r.watches(), ..*old(self) }),
    {
        match self.interests {
            Some(x) => {
                let y = x.add(mode);
                self.interests = Some(y);
                Registration::Reregister(y)
            },
            None => {
                self.interests = Some(mode);
                Registration::Register(mode)
            },
        }
    }

    /// Watches for `mode` no more.
    pub fn disable_io(&mut self, mode: Interest) -> (r: Option<Registration>)
        requires
            old(self).wf(),
        ensures
            final(self).wf(),
            r == disabling(old(self).interests, mode),
            *final(self) == (TcpConnection { interests: watched(old(self).interests, r), ..*old(self) }),
    {
        match self.interests {
            Some(i) => match i.remove(mode) {
                Some(y) => {
                    self.interests = Some(y);
                    Some(Registration::Reregister(y))
                },
                None => {
                    self.interests = None;
                    Some(Registration::Deregister)
                },
            },
            None => None,
        }
    }

    /// Puts `data` into the output and waits for the socket to become writable.
    fn buffer(&mut self, data: &[u8]) -> (r: Registration)
        requires
            old(self).wf(),
            old(self).output.has_room_for(data@.len() as int),
        ensures
            final(self).wf(),
            final(self).rest_kept(old(self)),
            r == enabling(old(self).interests, Interest::writing()),
            final(self).interests == r.watches(),
            old(self).output.appended(data@, &final(self).output),
    {
        self.output.append(data);
        self.enable_io(Interest::to_write())
    }

    /// Starts to send `data`: what is sent never overtakes what waits in the output.
    pub fn send(&mut self, data: &[u8]) -> (r: SendStep)
        requires
            old(self).wf(),
            old(self).must_wait() ==> old(self).output.has_room_for(data@.len() as int),
        ensures
            final(self).wf(),
            old(self).send_starts(data@, r, final(self)),
    {
        if !self.interests.is_writing() {
            if self.output.readable_bytes() == 0 {
                SendStep::Write(0)
            } else {
                SendStep::Buffered(Some(self.buffer(data)))
            }
        } else {
            self.output.append(data);
            SendStep::Buffered(None)
        }
    }

    /// What follows in sending `data` once its first `written` bytes are written and an
    /// attempt to write the rest has come to `outcome`. Where the socket is busy
    /// the rest waits in the output; after any other failure all of `data` does.
    pub fn sent(&mut self, data: &[u8], written: usize, outcome: Result<usize, Failure>) -> (r: SendStep)
        requires
            old(self).wf(),
            written <= data@.len(),
            outcome matches Ok(n) ==> written + n <= data@.len(),
            outcome matches Err(e) ==> old(self).output.has_room_for(
                left_to_send(data@, written as int, e).len() as int,
            ),
        ensures
            final(self).wf(),
            old(self).send_goes_on(data@, written as int, outcome, r, final(self)),
    {
        let len: usize = data.len();
        match outcome {
            Ok(n) => {
                if n == len - written {
                    SendStep::Complete
                } else {
                    SendStep::Write(written + n)
                }
            },
            Err(e) => {
                if e.would_block() {
                    let rest = slice_subrange(data, written, len);
                    assert(rest@ =~= data@.skip(written as int));
                    SendStep::Buffered(Some(self.buffer(rest)))
                } else {
                    SendStep::Buffered(Some(self.buffer(data)))
                }
            },
        }
    }

    /// What follows once a read into the input has come to `outcome`.
    pub fn handle_read(&mut self, outcome: Result<usize, Failure>) -> (r: ReadStep)
        requires
            old(self).wf(),
        ensures
            final(self).wf(),
            old(self).read_goes_on(outcome, r, final(self)),
    {
        match outcome {
            Ok(n) => {
                if n > 0 {
                    ReadStep::Again
                } else {
                    ReadStep::Closed(self.disable_io(Interest::to_read().add(Interest::to_write())))
                }
            },
            Err(e) => {
                if e.would_block() {
                    ReadStep::Complete
                } else {
                    ReadStep::Failed
                }
            },
        }
    }

    /// Starts to write what waits in the output, if the connection waits to write.
    pub fn handle_write(&self) -> (r: WriteStep)
        ensures
            r == self.write_starts(),
    {
        if self.interests.is_writing() {
            WriteStep::Again
        } else {
            WriteStep::Idle
        }
    }

    /// What follows once a write from the output has come to `outcome`.
    pub fn wrote(&mut self, outcome: Result<usize, Failure>) -> (r: WriteStep)
        requires
            old(self).wf(),
            outcome matches Ok(n) ==> n <= old(self).output@.len(),
        ensures
            final(self).wf(),
            old(self).write_goes_on(outcome, r, final(self)),
    {
        match outcome {
            Ok(n) => {
                self.output.retrieve(n);
                if self.output.readable_bytes() == 0 {
                    WriteStep::Complete(self.disable_io(Interest::to_write()))
                } else {
                    WriteStep::Again
                }
            },
            Err(e) => {
                if e.would_block() {
                    WriteStep::Idle
                } else {
                    WriteStep::Failed
                }
            },
        }
    }

    /// The message that asks for `f` to be called once, `delay_ms` from now.
    pub fn schedule_after(&self, delay_ms: u64, mark: C::Mark, f: C::Once) -> (r: TcpConnMessage<C>)
        ensures
            r == self.once(delay_ms, mark, f),
    {
        TcpConnMessage::AddTimer(self.token, delay_ms, mark, f)
    }

    /// The message that asks for `f` to be called `delay_ms` from now and then again and
    /// again, `interval_ms` apart.
    pub fn schedule_every(&self, delay_ms: u64, interval_ms: u64, mark: C::Mark, f: C::Every) -> (r: TcpConnMessage<
        C,
    >)
        ensures
            r == self.every(delay_ms, interval_ms, mark, f),
    {
        TcpConnMessage::AddTimer2(self.token, delay_ms, interval_ms, mark, f)
    }

    /// The message that takes back a timer.
    pub fn schedule_cancel(&self, mark: C::Mark) -> (r: TcpConnMessage<C>)
        ensures
            r == self.no_more(mark),
    {
        TcpConnMessage::CancelTimer(self.token, mark)
    }
}

} // verus!
