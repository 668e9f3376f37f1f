//! What holds of connections over several steps.
use crate::buffer::{K_CHEAP_PREPEND_SIZE, K_INITIAL_SIZE};
use crate::readiness::{BufState, Failure, FailureKind, Interest, Registration, Token};
use crate::readiness_laws::{law_interests_combine, law_interests_named, told, waits_for, Readiness};
use crate::tcp_connection::{
    disabling, enabling, watched, ConnTypes, ReadStep, SendStep, TcpConnMessage, TcpConnection, WriteStep,
};
use vstd::prelude::*;

verus! {

/// A poller that watches for just what the connection has asked for can carry out what
/// enabling or disabling asks next, and then still watches for just that. (A socket that
/// was registered for its connection attempt is watched without having asked.)
pub proof fn law_poller_in_step(interests: Option<Interest>, mode: Interest)
    ensures
        enabling(interests, mode).applies_to(interests),
        disabling(interests, mode) matches Some(r) ==> r.applies_to(interests),
        enabling(interests, mode).watches() == Some(
            match interests {
                Some(i) => i.union(mode),
                None => mode,
            },
        ),
        watched(interests, disabling(interests, mode)) == (match interests {
            Some(i) => if i.minus(mode).wf() {
                Some(i.minus(mode))
            } else {
                None
            },
            None => None,
        }),
{
}

/// Disabling what was just enabled leads back, where none of it was enabled before.
pub proof fn law_disable_undoes_enable(interests: Option<Interest>, mode: Interest)
    requires
        interests matches Some(i) ==> i.wf() && i.minus(mode) == i,
    ensures
        ({
            let on = enabling(interests, mode).watches();
            watched(on, disabling(on, mode)) == interests
        }),
{
}

/// Enabling twice is enabling once.
pub proof fn law_enable_twice(interests: Option<Interest>, mode: Interest)
    ensures
        ({
            let on = enabling(interests, mode).watches();
            enabling(on, mode).watches() == on
        }),
{
}

/// How many bytes the successful ones of some attempts to write took.
pub open spec fn accepted(outcomes: Seq<Result<usize, Failure>>) -> nat
    decreases outcomes.len(),
{
    if outcomes.len() == 0 {
        0
    } else {
        accepted(outcomes.drop_last()) + match outcomes.last() {
            Ok(n) => n as nat,
            Err(_) => 0,
        }
    }
}

/// `outcomes` are those of the attempts to write in sending `data`, `steps` what
/// each was made for or led to, and `states` what became of the connection.
pub open spec fn is_send<C: ConnTypes>(
    data: Seq<u8>,
    outcomes: Seq<Result<usize, Failure>>,
    steps: Seq<SendStep>,
    states: Seq<TcpConnection<C>>,
) -> bool {
    &&& steps.len() == outcomes.len() + 1
    &&& states.len() == steps.len()
    &&& steps[0] == SendStep::Write(0)
    &&& forall|i: int| 0 <= i < outcomes.len() ==> #[trigger] send_step(data, outcomes, steps, states, i)
}

/// The `i`-th attempt to write in sending `data` leads to the next step and state.
pub open spec fn send_step<C: ConnTypes>(
    data: Seq<u8>,
    outcomes: Seq<Result<usize, Failure>>,
    steps: Seq<SendStep>,
    states: Seq<TcpConnection<C>>,
    i: int,
) -> bool {
    &&& steps[i] is Write
    &&& outcomes[i] matches Ok(n) ==> steps[i]->Write_0 + n <= data.len()
    &&& states[i].send_goes_on(data, steps[i]->Write_0 as int, outcomes[i], steps[i + 1], &states[i + 1])
}

/// While bytes are written at once, nothing else changes, and each attempt starts
/// where the one before ended.
proof fn lemma_send_so_far<C: ConnTypes>(
    data: Seq<u8>,
    outcomes: Seq<Result<usize, Failure>>,
    steps: Seq<SendStep>,
    states: Seq<TcpConnection<C>>,
    i: int,
)
    requires
        is_send(data, outcomes, steps, states),
        data.len() <= usize::MAX,
        0 <= i < steps.len(),
        steps[i] is Write,
    ensures
        steps[i]->Write_0 == accepted(outcomes.take(i)),
        accepted(outcomes.take(i)) <= data.len(),
        states[i] == states[0],
    decreases i,
{
    if i > 0 {
        assert(send_step(data, outcomes, steps, states, i - 1));
        lemma_send_so_far(data, outcomes, steps, states, i - 1);
        assert(outcomes.take(i).drop_last() =~= outcomes.take(i - 1));
    } else {
        assert(outcomes.take(0) =~= Seq::empty());
    }
}

/// Every byte is sent once and in order: when sending ends, the bytes that the socket
/// took, followed by those that now wait in the output, are what was to be
/// sent. The output was empty before, so they come next. (This needs that no
/// write failed for another reason than a busy socket: after such a failure all of
/// the bytes wait in the output.)
pub proof fn law_send_loses_nothing<C: ConnTypes>(
    pre: &TcpConnection<C>,
    data: Seq<u8>,
    outcomes: Seq<Result<usize, Failure>>,
    steps: Seq<SendStep>,
    states: Seq<TcpConnection<C>>,
)
    requires
        pre.send_starts(data, SendStep::Write(0), &states[0]),
        is_send(data, outcomes, steps, states),
        data.len() <= usize::MAX,
        steps.last() !is Write,
        outcomes.last() matches Err(e) ==> e.kind == FailureKind::WouldBlock,
    ensures
        pre.output@.len() == 0,
        accepted(outcomes) <= data.len(),
        data.take(accepted(outcomes) as int) + states.last().output@ == data,
        steps.last() == SendStep::Complete <==> outcomes.last() is Ok,
        steps.last() == SendStep::Complete ==> accepted(outcomes) == data.len(),
{
    let k = outcomes.len() as int;
    assert(send_step(data, outcomes, steps, states, k - 1));
    lemma_send_so_far(data, outcomes, steps, states, k - 1);
    assert(outcomes.take(k - 1) =~= outcomes.drop_last());
    assert(data.take(accepted(outcomes) as int) + states.last().output@ =~= data);
}

/// After a write that failed for another reason than a busy socket, all of the bytes wait in the
/// output, those that the socket took before as well.
pub proof fn law_failed_send_starts_over<C: ConnTypes>(
    pre: &TcpConnection<C>,
    data: Seq<u8>,
    outcomes: Seq<Result<usize, Failure>>,
    steps: Seq<SendStep>,
    states: Seq<TcpConnection<C>>,
)
    requires
        pre.send_starts(data, SendStep::Write(0), &states[0]),
        is_send(data, outcomes, steps, states),
        data.len() <= usize::MAX,
        steps.last() !is Write,
        outcomes.last() matches Err(e) && e.kind != FailureKind::WouldBlock,
    ensures
        states.last().output@ == data,
        states.last().interests.writing(),
{
    let k = outcomes.len() as int;
    assert(send_step(data, outcomes, steps, states, k - 1));
    lemma_send_so_far(data, outcomes, steps, states, k - 1);
    assert(states.last().output@ =~= data);
}

/// Bytes that have to wait stand behind all that waited before.
pub proof fn law_send_never_overtakes<C: ConnTypes>(
    pre: &TcpConnection<C>,
    data: Seq<u8>,
    r: SendStep,
    post: &TcpConnection<C>,
)
    requires
        pre.must_wait(),
        pre.send_starts(data, r, post),
    ensures
        r is Buffered,
        post.output@ == pre.output@ + data,
        post.interests.writing(),
{
}

/// `outcomes` are those of the attempts to write from the output, `steps` what each
/// was made for or led to, and `states` what became of the connection.
pub open spec fn is_write<C: ConnTypes>(
    outcomes: Seq<Result<usize, Failure>>,
    steps: Seq<WriteStep>,
    states: Seq<TcpConnection<C>>,
) -> bool {
    &&& steps.len() == outcomes.len() + 1
    &&& states.len() == steps.len()
    &&& steps[0] == WriteStep::Again
    &&& forall|i: int| 0 <= i < outcomes.len() ==> #[trigger] write_step(outcomes, steps, states, i)
}

/// The `i`-th attempt to write from the output leads to the next step and state.
pub open spec fn write_step<C: ConnTypes>(
    outcomes: Seq<Result<usize, Failure>>,
    steps: Seq<WriteStep>,
    states: Seq<TcpConnection<C>>,
    i: int,
) -> bool {
    &&& steps[i] is Again || steps[i] is Failed
    &&& outcomes[i] matches Ok(n) ==> n <= states[i].output@.len()
    &&& states[i].write_goes_on(outcomes[i], steps[i + 1], &states[i + 1])
}

/// What the socket took, followed by what still waits in the output, is at all times
/// what waited at first: nothing is lost, doubled or moved.
pub proof fn law_write_loses_nothing<C: ConnTypes>(
    outcomes: Seq<Result<usize, Failure>>,
    steps: Seq<WriteStep>,
    states: Seq<TcpConnection<C>>,
    i: int,
)
    requires
        is_write(outcomes, steps, states),
        0 <= i < steps.len(),
    ensures
        accepted(outcomes.take(i)) <= states[0].output@.len(),
        states[i].output@ == states[0].output@.skip(accepted(outcomes.take(i)) as int),
    decreases i,
{
    if i > 0 {
        assert(write_step(outcomes, steps, states, i - 1));
        law_write_loses_nothing(outcomes, steps, states, i - 1);
        assert(outcomes.take(i).drop_last() =~= outcomes.take(i - 1));
        assert(states[i].output@ =~= states[0].output@.skip(accepted(outcomes.take(i)) as int));
    } else {
        assert(outcomes.take(0) =~= Seq::empty());
        assert(states[0].output@ =~= states[0].output@.skip(0));
    }
}

/// Once the output is empty the connection stops waiting to write, so nothing is written
/// until something is sent again.
pub proof fn law_complete_write_stops<C: ConnTypes>(
    pre: &TcpConnection<C>,
    outcome: Result<usize, Failure>,
    r: WriteStep,
    post: &TcpConnection<C>,
)
    requires
        pre.write_goes_on(outcome, r, post),
        r is Complete,
    ensures
        post.output@.len() == 0,
        !post.must_wait(),
        r->Complete_0 matches Some(registration) ==> registration.applies_to(pre.interests) && registration.watches()
            == post.interests,
{
}

/// Something that happens to what a connection sends.
pub enum StreamOp<C: ConnTypes> {
    /// Bytes are sent that have to wait.
    Wait(Seq<u8>),
    /// Bytes are sent that the socket is offered at once.
    Send(Seq<u8>, Seq<Result<usize, Failure>>, Seq<SendStep>, Seq<TcpConnection<C>>),
    /// The socket is offered what waits in the output.
    Write(Seq<Result<usize, Failure>>, Seq<WriteStep>, Seq<TcpConnection<C>>),
}

impl<C: ConnTypes> StreamOp<C> {
    /// It makes `post` of the connection `pre`, and no write of bytes that were offered at
    /// once fails for another reason than a busy socket.
    pub open spec fn leads(self, pre: TcpConnection<C>, post: TcpConnection<C>) -> bool {
        match self {
            StreamOp::Wait(data) => pre.must_wait() && exists|r: SendStep| #[trigger] pre.send_starts(data, r, &post),
            StreamOp::Send(data, outcomes, steps, states) => {
                &&& data.len() <= usize::MAX
                &&& pre.send_starts(data, SendStep::Write(0), &states[0])
                &&& is_send(data, outcomes, steps, states)
                &&& steps.last() !is Write
                &&& outcomes.last() matches Err(e) ==> e.kind == FailureKind::WouldBlock
                &&& post == states.last()
            },
            StreamOp::Write(outcomes, steps, states) => {
                &&& is_write(outcomes, steps, states)
                &&& pre == states[0]
                &&& post == states.last()
            },
        }
    }

    /// The bytes that are sent.
    pub open spec fn sent(self) -> Seq<u8> {
        match self {
            StreamOp::Wait(data) => data,
            StreamOp::Send(data, _, _, _) => data,
            StreamOp::Write(_, _, _) => Seq::empty(),
        }
    }

    /// The bytes that the socket takes, where the connection was `pre`.
    pub open spec fn taken(self, pre: TcpConnection<C>) -> Seq<u8> {
        match self {
            StreamOp::Wait(_) => Seq::empty(),
            StreamOp::Send(data, outcomes, _, _) => data.take(accepted(outcomes) as int),
            StreamOp::Write(outcomes, _, _) => pre.output@.take(accepted(outcomes) as int),
        }
    }
}

/// All that was sent in the first `n` of `ops`.
pub open spec fn all_sent<C: ConnTypes>(ops: Seq<StreamOp<C>>, n: nat) -> Seq<u8>
    decreases n,
{
    if n == 0 {
        Seq::empty()
    } else {
        all_sent(ops, (n - 1) as nat) + ops[n - 1].sent()
    }
}

/// All that the socket took in the first `n` of `ops`, where `conns` is what became of the
/// connection.
pub open spec fn all_taken<C: ConnTypes>(ops: Seq<StreamOp<C>>, conns: Seq<TcpConnection<C>>, n: nat) -> Seq<u8>
    decreases n,
{
    if n == 0 {
        Seq::empty()
    } else {
        all_taken(ops, conns, (n - 1) as nat) + ops[n - 1].taken(conns[n - 1])
    }
}

/// One thing that happens keeps the bytes in order: what the socket takes, followed by what
/// then waits, is what waited before, followed by what is sent.
proof fn lemma_op_in_order<C: ConnTypes>(op: StreamOp<C>, pre: TcpConnection<C>, post: TcpConnection<C>)
    requires
        op.leads(pre, post),
    ensures
        op.taken(pre) + post.output@ == pre.output@ + op.sent(),
{
    match op {
        StreamOp::Wait(data) => {
            assert(op.taken(pre) + post.output@ =~= pre.output@ + data);
        },
        StreamOp::Send(data, outcomes, steps, states) => {
            law_send_loses_nothing(&pre, data, outcomes, steps, states);
            assert(pre.output@ + data =~= data);
        },
        StreamOp::Write(outcomes, steps, states) => {
            let k = steps.len() - 1;
            law_write_loses_nothing(outcomes, steps, states, k);
            assert(outcomes.take(k) =~= outcomes);
            assert(op.taken(pre) + post.output@ =~= pre.output@ + op.sent());
        },
    }
}

/// A connection sends a stream: whatever happens, what the socket has taken, followed by
/// what waits in the output, is what waited at first, followed by all that was sent, in
/// the order of sending. Nothing is lost, doubled or overtaken.
pub proof fn law_stream_in_order<C: ConnTypes>(ops: Seq<StreamOp<C>>, conns: Seq<TcpConnection<C>>, n: nat)
    requires
        conns.len() == ops.len() + 1,
        n <= ops.len(),
        forall|i: int| 0 <= i < ops.len() ==> (#[trigger] ops[i]).leads(conns[i], conns[i + 1]),
    ensures
        all_taken(ops, conns, n) + conns[n as int].output@ == conns[0].output@ + all_sent(ops, n),
    decreases n,
{
    if n == 0 {
        assert(all_taken(ops, conns, 0) + conns[0].output@ =~= conns[0].output@ + all_sent(ops, 0));
    } else {
        let m = (n - 1) as nat;
        law_stream_in_order(ops, conns, m);
        let op = ops[m as int];
        let pre = conns[m as int];
        let post = conns[n as int];
        lemma_op_in_order(op, pre, post);
        assert(all_taken(ops, conns, n) + post.output@ =~= all_taken(ops, conns, m) + (op.taken(pre) + post.output@));
        assert(all_taken(ops, conns, m) + (pre.output@ + op.sent()) =~= (all_taken(ops, conns, m) + pre.output@)
            + op.sent());
        assert(conns[0].output@ + all_sent(ops, n) =~= (conns[0].output@ + all_sent(ops, m)) + op.sent());
    }
}

/// Enabling adds the kinds of readiness that were asked for to those that a source waits
/// for already, and the poller is told so in the way that fits.
pub proof fn law_enabling(interests: Option<Interest>, mode: Interest)
    ensures
        forall|k: Readiness| #[trigger]
            waits_for(enabling(interests, mode).watches(), k) <==> waits_for(interests, k) || mode.names(k),
        told(Some(enabling(interests, mode)), interests, enabling(interests, mode).watches()),
{
}

/// Disabling takes away the kinds of readiness that were asked for and keeps the others. A
/// source that then waits for nothing is watched no more, and one that was not watched
/// is left alone.
pub proof fn law_disabling(interests: Option<Interest>, mode: Interest)
    ensures
        forall|k: Readiness| #[trigger]
            waits_for(watched(interests, disabling(interests, mode)), k) <==> waits_for(interests, k) && !mode.names(
                k,
            ),
        watched(interests, disabling(interests, mode)) is Some ==> exists|k: Readiness| #[trigger]
            waits_for(watched(interests, disabling(interests, mode)), k),
        told(disabling(interests, mode), interests, watched(interests, disabling(interests, mode))),
        disabling(interests, mode) is None <==> interests is None,
{
    let left = watched(interests, disabling(interests, mode));
    if let Some(i) = interests {
        law_interests_combine(i, mode);
        law_interests_named(i.minus(mode));
        assert forall|k: Readiness| #[trigger] waits_for(left, k) <==> waits_for(interests, k) && !mode.names(k) by {
            assert(i.minus(mode).names(k) <==> i.names(k) && !mode.names(k));
        }
        if left is Some {
            let k = choose|k: Readiness| #[trigger] i.minus(mode).names(k);
            assert(waits_for(left, k));
        }
    }
}

impl<C: ConnTypes> TcpConnection<C> {
    /// The poller watches the connection for that kind of readiness.
    pub open spec fn waits(&self, kind: Readiness) -> bool {
        waits_for(self.interests, kind)
    }

    /// What waits in the output will be written: the connection waits to write if there is
    /// anything.
    pub open spec fn will_be_written(&self) -> bool {
        self.output@.len() > 0 ==> self.waits(Readiness::Writable)
    }

    /// This is `pre`, but that it waits to write and that `bytes` stand behind what waited
    /// before; the poller is told `registration`, if anything.
    pub open spec fn waits_with(&self, pre: &Self, bytes: Seq<u8>, registration: Option<Registration>) -> bool {
        &&& self.output@ == pre.output@ + bytes
        &&& forall|k: Readiness| #[trigger] self.waits(k) <==> pre.waits(k) || k is Writable
        &&& told(registration, pre.interests, self.interests)
        &&& self.token == pre.token
        &&& self.input == pre.input
        &&& self.ext == pre.ext
    }
}

/// Bytes that are sent are offered to the socket at once, from the first on, if and only if
/// nothing waits to be written before them. Otherwise they wait behind all that waits
/// already, and the connection waits to write.
pub proof fn law_send_offers_or_waits<C: ConnTypes>(
    pre: &TcpConnection<C>,
    data: Seq<u8>,
    r: SendStep,
    post: &TcpConnection<C>,
)
    requires
        pre.send_starts(data, r, post),
    ensures
        match r {
            SendStep::Write(from) => {
                &&& from == 0
                &&& pre.output@.len() == 0
                &&& !pre.waits(Readiness::Writable)
                &&& *post == *pre
            },
            SendStep::Complete => false,
            SendStep::Buffered(registration) => {
                &&& pre.output@.len() > 0 || pre.waits(Readiness::Writable)
                &&& post.waits_with(pre, data, registration)
            },
        },
        post.will_be_written() || !pre.will_be_written(),
{
}

/// An attempt to write that succeeds changes nothing but how far sending has come: it ends
/// with the last byte. One that fails leaves the connection waiting to write, with the
/// poller told so: where the socket was busy the bytes that it did not take wait, and
/// after any other failure all of them.
pub proof fn law_sent_goes_on_or_waits<C: ConnTypes>(
    pre: &TcpConnection<C>,
    data: Seq<u8>,
    written: int,
    outcome: Result<usize, Failure>,
    r: SendStep,
    post: &TcpConnection<C>,
)
    requires
        0 <= written <= data.len() <= usize::MAX,
        outcome matches Ok(n) ==> written + n <= data.len(),
        pre.send_goes_on(data, written, outcome, r, post),
    ensures
        match outcome {
            Ok(n) => {
                &&& *post == *pre
                &&& r is Complete <==> written + n == data.len()
                &&& r is Write <==> written + n < data.len()
                &&& r matches SendStep::Write(from) ==> from == written + n
            },
            Err(e) => {
                &&& r matches SendStep::Buffered(registration) && registration is Some && post.waits_with(
                    pre,
                    if e.kind == FailureKind::WouldBlock {
                        data.skip(written)
                    } else {
                        data
                    },
                    registration,
                )
                &&& post.waits(Readiness::Writable)
                &&& post.will_be_written()
            },
        },
        pre.will_be_written() ==> post.will_be_written(),
{
}

/// Whenever sending ends with bytes waiting in the output, the connection waits to write
/// and keeps waiting for all that it waited for before, and the poller is told so,
/// whatever the failure was and whatever the connection waited for.
pub proof fn law_buffered_waits_to_write<C: ConnTypes>(
    data: Seq<u8>,
    outcomes: Seq<Result<usize, Failure>>,
    steps: Seq<SendStep>,
    states: Seq<TcpConnection<C>>,
)
    requires
        is_send(data, outcomes, steps, states),
        data.len() <= usize::MAX,
        steps.last() is Buffered,
    ensures
        states.last().waits(Readiness::Writable),
        forall|k: Readiness| #[trigger] states.last().waits(k) <==> states[0].waits(k) || k is Writable,
        steps.last()->Buffered_0 is Some,
        told(steps.last()->Buffered_0, states[0].interests, states.last().interests),
        states.last().write_starts() == WriteStep::Again,
{
    let k = outcomes.len() as int;
    assert(send_step(data, outcomes, steps, states, k - 1));
    lemma_send_so_far(data, outcomes, steps, states, k - 1);
    law_sent_goes_on_or_waits(
        &states[k - 1],
        data,
        steps[k - 1]->Write_0 as int,
        outcomes[k - 1],
        steps[k],
        &states[k],
    );
}

/// A write from the output takes out just what the socket took. Writing goes on until the
/// output is empty; only then does the connection stop waiting to write, while it keeps
/// waiting for all else, and the poller is told so. A busy socket ends the writing for
/// now, any other failure is reported, and neither changes anything.
pub proof fn law_wrote<C: ConnTypes>(
    pre: &TcpConnection<C>,
    outcome: Result<usize, Failure>,
    r: WriteStep,
    post: &TcpConnection<C>,
)
    requires
        outcome matches Ok(n) ==> n <= pre.output@.len(),
        pre.write_goes_on(outcome, r, post),
    ensures
        match outcome {
            Ok(n) => {
                &&& post.output@ == pre.output@.skip(n as int)
                &&& post.token == pre.token
                &&& post.input == pre.input
                &&& post.ext == pre.ext
                &&& match r {
                    WriteStep::Complete(registration) => {
                        &&& post.output@.len() == 0
                        &&& forall|k: Readiness| #[trigger] post.waits(k) <==> pre.waits(k) && k !is Writable
                        &&& told(registration, pre.interests, post.interests)
                    },
                    WriteStep::Again => post.output@.len() > 0 && post.interests == pre.interests,
                    _ => false,
                }
            },
            Err(e) => {
                &&& *post == *pre
                &&& r is Idle <==> e.kind == FailureKind::WouldBlock
                &&& r is Failed <==> e.kind != FailureKind::WouldBlock
            },
        },
        pre.will_be_written() ==> post.will_be_written(),
{
    law_disabling(pre.interests, Interest::writing());
    if r is Complete {
        assert forall|k: Readiness| #[trigger] post.waits(k) <==> pre.waits(k) && k !is Writable by {
            assert(waits_for(post.interests, k) <==> waits_for(pre.interests, k) && !Interest::writing().names(k));
        }
    }
}

/// What waits in the output is written as soon as the socket can be written to, and nothing
/// is written that the connection does not wait to write.
pub proof fn law_write_starts<C: ConnTypes>(conn: &TcpConnection<C>)
    ensures
        conn.write_starts() == WriteStep::Again <==> conn.waits(Readiness::Writable),
        conn.write_starts() == WriteStep::Again || conn.write_starts() == WriteStep::Idle,
        conn.will_be_written() && conn.output@.len() > 0 ==> conn.write_starts() == WriteStep::Again,
{
}

/// Reading goes on as long as bytes arrive. The end of the stream ends all waiting to read
/// and to write, and the poller is told so. Once nothing more has arrived the
/// connection is told, and any other failure is reported; neither changes anything.
pub proof fn law_read<C: ConnTypes>(
    pre: &TcpConnection<C>,
    outcome: Result<usize, Failure>,
    r: ReadStep,
    post: &TcpConnection<C>,
)
    requires
        pre.read_goes_on(outcome, r, post),
    ensures
        r is Again <==> (outcome matches Ok(n) && n > 0),
        r is Closed <==> outcome == Ok::<usize, Failure>(0),
        r is Complete <==> (outcome matches Err(e) && e.kind == FailureKind::WouldBlock),
        r is Failed <==> (outcome matches Err(e) && e.kind != FailureKind::WouldBlock),
        r !is Closed ==> *post == *pre,
        r matches ReadStep::Closed(registration) ==> {
            &&& forall|k: Readiness| #[trigger]
                post.waits(k) <==> pre.waits(k) && k !is Readable && k !is Writable
            &&& told(registration, pre.interests, post.interests)
            &&& *post == (TcpConnection { interests: post.interests, ..*pre })
        },
{
    let all = Interest::reading().union(Interest::writing());
    law_disabling(pre.interests, all);
    if r is Closed {
        assert forall|k: Readiness| #[trigger]
            post.waits(k) <==> pre.waits(k) && k !is Readable && k !is Writable by {
            assert(waits_for(post.interests, k) <==> waits_for(pre.interests, k) && !all.names(k));
        }
    }
}

/// A connection that was just made waits for nothing and holds no bytes, so the first bytes
/// that are sent are offered to the socket at once; there is room before and in its
/// buffers.
pub proof fn law_new_connection<C: ConnTypes>(
    conn: &TcpConnection<C>,
    token: Token,
    ext: C::Ext,
    data: Seq<u8>,
    r: SendStep,
    post: &TcpConnection<C>,
)
    requires
        conn.is_new(token, ext),
        conn.send_starts(data, r, post),
    ensures
        conn.token == token,
        conn.ext == ext,
        forall|k: Readiness| !#[trigger] conn.waits(k),
        conn.input@.len() == 0,
        conn.output@.len() == 0,
        conn.will_be_written(),
        conn.input.prependable() == K_CHEAP_PREPEND_SIZE,
        conn.output.prependable() == K_CHEAP_PREPEND_SIZE,
        conn.input.writable() == K_INITIAL_SIZE,
        conn.output.writable() == K_INITIAL_SIZE,
        r == SendStep::Write(0),
{
}

/// A connection asks for its timers in its own name, and for just the times, the mark and
/// the call that it was given.
pub proof fn law_timers_are_asked_for<C: ConnTypes>(
    conn: &TcpConnection<C>,
    delay: u64,
    interval: u64,
    mark: C::Mark,
    once: C::Once,
    every: C::Every,
)
    ensures
        conn.once(delay, mark, once) matches TcpConnMessage::AddTimer(t, d, m, f) && t == conn.token && d == delay
            && m == mark && f == once,
        conn.every(delay, interval, mark, every) matches TcpConnMessage::AddTimer2(t, d, i, m, f) && t == conn.token
            && d == delay && i == interval && m == mark && f == every,
        conn.no_more(mark) matches TcpConnMessage::CancelTimer(t, m) && t == conn.token && m == mark,
{
}

/// Whatever happens to what a connection sends, what waits in its output will be written,
/// if it was so at first.
pub proof fn law_output_is_watched<C: ConnTypes>(ops: Seq<StreamOp<C>>, conns: Seq<TcpConnection<C>>, n: nat)
    requires
        conns.len() == ops.len() + 1,
        n <= ops.len(),
        forall|i: int| 0 <= i < ops.len() ==> (#[trigger] ops[i]).leads(conns[i], conns[i + 1]),
        conns[0].will_be_written(),
    ensures
        conns[n as int].will_be_written(),
    decreases n,
{
    if n > 0 {
        let m = (n - 1) as nat;
        law_output_is_watched(ops, conns, m);
        let pre = conns[m as int];
        let post = conns[n as int];
        assert(ops[m as int].leads(pre, post));
        match ops[m as int] {
            StreamOp::Wait(data) => {
                let r = choose|r: SendStep| #[trigger] pre.send_starts(data, r, &post);
                law_send_offers_or_waits(&pre, data, r, &post);
            },
            StreamOp::Send(data, outcomes, steps, states) => {
                let k = outcomes.len() as int;
                assert(send_step(data, outcomes, steps, states, k - 1));
                lemma_send_so_far(data, outcomes, steps, states, k - 1);
                law_sent_goes_on_or_waits(
                    &states[k - 1],
                    data,
                    steps[k - 1]->Write_0 as int,
                    outcomes[k - 1],
                    steps[k],
                    &states[k],
                );
            },
            StreamOp::Write(outcomes, steps, states) => {
                lemma_write_is_watched(outcomes, steps, states, steps.len() - 1);
            },
        }
    }
}

/// What waits in the output will be written, all through the writing.
proof fn lemma_write_is_watched<C: ConnTypes>(
    outcomes: Seq<Result<usize, Failure>>,
    steps: Seq<WriteStep>,
    states: Seq<TcpConnection<C>>,
    i: int,
)
    requires
        is_write(outcomes, steps, states),
        0 <= i < steps.len(),
        states[0].will_be_written(),
    ensures
        states[i].will_be_written(),
    decreases i,
{
    if i > 0 {
        lemma_write_is_watched(outcomes, steps, states, i - 1);
        assert(write_step(outcomes, steps, states, i - 1));
        law_wrote(&states[i - 1], outcomes[i - 1], steps[i], &states[i]);
    }
}

} // verus!
