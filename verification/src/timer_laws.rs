//! What a timer wheel promises as a whole, over the states that its operations
//! step through.
use crate::timer::{
    clock_reading, doubled_to, fits, power_of_two_above, ClockError, Timeout, TimerEntry, TimerResult, TimerState,
};
use vstd::arithmetic::power2::*;
use vstd::prelude::*;

verus! {

impl<T> TimerState<T> {
    /// The lists hold exactly the scheduled keys, each once, in the slot of its
    /// tick, and what is left to visit is a tail of the current slot's list.
    pub open spec fn valid(self) -> bool {
        &&& self.lists_valid()
        &&& exists|p: int| #[trigger] self.cursor_at(p)
    }

    /// The lists hold exactly the scheduled keys, each once, in the slot of its
    /// tick.
    pub open spec fn lists_valid(self) -> bool {
        let n = self.lists.len() as int;
        &&& n > 0
        &&& forall|s: int, i: int| 0 <= s < n && 0 <= i < self.lists[s].len() ==> #[trigger] self.holds(s, i)
        &&& forall|s: int| 0 <= s < n ==> (#[trigger] self.lists[s]).no_duplicates()
        &&& forall|k: usize| #[trigger] self.entries.contains_key(k) ==> self.lists[self.slot(k)].contains(k)
    }

    /// The slot of the entry under `k`.
    pub open spec fn slot(self, k: usize) -> int {
        self.entries[k].tick as int % self.lists.len() as int
    }

    /// The `i`-th key of list `s` is scheduled, and for a tick of that slot.
    pub open spec fn holds(self, s: int, i: int) -> bool {
        &&& self.entries.contains_key(self.lists[s][i])
        &&& self.slot(self.lists[s][i]) == s
    }

    /// What is left to visit starts at position `p` of the current slot's list.
    pub open spec fn cursor_at(self, p: int) -> bool {
        let l = self.lists[self.tick as int % self.lists.len() as int];
        0 <= p <= l.len() && self.pending == l.skip(p)
    }

    /// The `i`-th key of the list that the entry under `b` hangs in is `a`, the `j`-th is
    /// `b`, and `a` comes first.
    pub open spec fn stand_at(self, a: usize, i: int, b: usize, j: int) -> bool {
        let l = self.lists[self.slot(b)];
        0 <= i < j < l.len() && l[i] == a && l[j] == b
    }

    /// The entry under `a` comes before that under `b` in the list of a slot.
    pub open spec fn precedes(self, a: usize, b: usize) -> bool {
        exists|i: int, j: int| #[trigger] self.stand_at(a, i, b, j)
    }

    /// No entry is overdue, and those of the current tick are still to be visited.
    pub open spec fn on_time(self) -> bool {
        forall|k: usize| #[trigger]
            self.entries.contains_key(k) ==> {
                &&& self.entries[k].tick >= self.tick
                &&& self.entries[k].tick == self.tick ==> self.pending.contains(k)
            }
    }
}

/// A walk never hands out an entry before its tick.
pub proof fn law_never_early<T>(s: TimerState<T>, now: int, t: int, i: int)
    requires
        s.first_due(now, t, i),
    ensures
        s.entries[s.visit(t)[i]].tick <= now,
{
}

/// A walk has one outcome: at most one visit is the first that finds a due entry,
/// and there is none where nothing is due.
pub proof fn law_one_outcome<T>(s: TimerState<T>, now: int, t: int, i: int, u: int, j: int)
    requires
        s.first_due(now, t, i),
    ensures
        !s.nothing_due(now),
        s.first_due(now, u, j) ==> t == u && i == j,
{
    assert(s.due(t, i));
    if s.first_due(now, u, j) {
        assert(s.due(u, j));
    }
}

/// Every key that a walk visits is scheduled, for a tick of the visited slot.
pub proof fn lemma_visit<T>(s: TimerState<T>, t: int, i: int)
    requires
        s.valid(),
        s.tick <= t,
        0 <= i < s.visit(t).len(),
    ensures
        s.entries.contains_key(s.visit(t)[i]),
        s.slot(s.visit(t)[i]) == t % s.lists.len() as int,
        s.lists[t % s.lists.len() as int].contains(s.visit(t)[i]),
{
    let h = t % s.lists.len() as int;
    let p = choose|p: int| #[trigger] s.cursor_at(p);
    let q = if t == s.tick {
        p + i
    } else {
        i
    };
    assert(s.visit(t)[i] == s.lists[h][q]);
    assert(s.holds(h, q));
}

/// Once a walk up to tick `now` finds nothing due, every entry of a timer that was
/// on time is for a later tick.
pub proof fn law_nothing_left_behind<T>(s: TimerState<T>, now: int)
    requires
        s.valid(),
        s.on_time(),
        s.nothing_due(now),
    ensures
        forall|k: usize| #[trigger] s.entries.contains_key(k) ==> s.entries[k].tick > now,
{
    assert forall|k: usize| #[trigger] s.entries.contains_key(k) implies s.entries[k].tick > now by {
        let t = s.entries[k].tick as int;
        if t <= now {
            assert(s.visit(t).contains(k));
            let i = choose|i: int| 0 <= i < s.visit(t).len() && s.visit(t)[i] == k;
            assert(s.due(t, i));
        }
    }
}

/// A timer that is on time hands its entries out in the order of their ticks.
pub proof fn law_fires_in_order<T>(s: TimerState<T>, now: int, t: int, i: int)
    requires
        s.valid(),
        s.on_time(),
        s.first_due(now, t, i),
    ensures
        s.entries[s.visit(t)[i]].tick == t,
        forall|k: usize| #[trigger] s.entries.contains_key(k) ==> s.entries[k].tick >= t,
{
    assert forall|k: usize| #[trigger] s.entries.contains_key(k) implies s.entries[k].tick >= t by {
        let u = s.entries[k].tick as int;
        if u < t {
            assert(s.visit(u).contains(k));
            let j = choose|j: int| 0 <= j < s.visit(u).len() && s.visit(u)[j] == k;
            assert(s.due(u, j));
        }
    }
    lemma_visit(s, t, i);
}

/// Node `x` of list `h`, which is `key`, leaves, and its entry with it: the lists
/// still hold exactly the scheduled keys.
proof fn lemma_without<T>(s: TimerState<T>, f: TimerState<T>, h: int, x: int, key: usize)
    requires
        s.lists_valid(),
        0 <= h < s.lists.len(),
        0 <= x < s.lists[h].len(),
        s.lists[h][x] == key,
        f.entries == s.entries.remove(key),
        f.lists == s.lists.update(h, s.lists[h].remove(x)),
    ensures
        f.lists_valid(),
{
    let n = s.lists.len() as int;
    let l = s.lists[h];
    assert(l.no_duplicates());
    assert forall|u: int, j: int| 0 <= u < n && 0 <= j < f.lists[u].len() implies #[trigger] f.holds(u, j) by {
        let j0 = if u == h && j >= x {
            j + 1
        } else {
            j
        };
        assert(s.holds(u, j0));
        assert(s.holds(h, x));
        assert(f.lists[u][j] == s.lists[u][j0]);
    }
    assert forall|u: int| 0 <= u < n implies (#[trigger] f.lists[u]).no_duplicates() by {
        assert(s.lists[u].no_duplicates());
    }
    assert forall|k: usize| #[trigger] f.entries.contains_key(k) implies f.lists[f.slot(k)].contains(k) by {
        assert(s.entries.contains_key(k));
        let u = s.slot(k);
        assert(s.lists[u].contains(k));
        let j = choose|j: int| 0 <= j < s.lists[u].len() && s.lists[u][j] == k;
        let j1 = if u == h && j > x {
            j - 1
        } else {
            j
        };
        assert(f.lists[u][j1] == k);
    }
}

/// What follows value `p + i` of a list is the same before and after that value leaves.
proof fn lemma_rest_of_list(l: Seq<usize>, p: int, i: int)
    requires
        0 <= p,
        0 <= i,
        p + i < l.len(),
        l.no_duplicates(),
    ensures
        l.remove_value(l[p + i]) == l.remove(p + i),
        l.skip(p).skip(i + 1) == l.remove(p + i).skip(p + i),
{
    l.index_of_first_ensures(l[p + i]);
    assert(l.skip(p).skip(i + 1) =~= l.remove(p + i).skip(p + i));
}

/// Handing an entry out keeps the lists and the entries in step.
#[verifier::spinoff_prover]
pub proof fn lemma_fired_valid<T>(s: TimerState<T>, t: int, i: int)
    requires
        s.valid(),
        s.tick <= t <= u64::MAX,
        s.due(t, i),
    ensures
        s.fired(t, i).valid(),
{
    let h = t % s.lists.len() as int;
    let l = s.lists[h];
    let key = s.visit(t)[i];
    let f = s.fired(t, i);
    let p = if t == s.tick {
        choose|p: int| #[trigger] s.cursor_at(p)
    } else {
        0
    };
    let x = p + i;
    assert(s.visit(t) =~= l.skip(p));
    assert(l[x] == key);
    assert(l.no_duplicates());
    lemma_rest_of_list(l, p, i);
    lemma_without(s, f, h, x, key);
    assert(f.cursor_at(x));
}

/// An entry that a walk hands out is gone: no later walk visits it.
pub proof fn law_fires_once<T>(s: TimerState<T>, now: int, t: int, i: int)
    requires
        s.valid(),
        s.first_due(now, t, i),
        t <= u64::MAX,
    ensures
        !s.fired(t, i).entries.contains_key(s.visit(t)[i]),
        forall|u: int, j: int|
            #![trigger s.fired(t, i).visit(u)[j]]
            t <= u && 0 <= j < s.fired(t, i).visit(u).len() ==> s.fired(t, i).visit(u)[j] != s.visit(t)[i],
{
    let f = s.fired(t, i);
    lemma_fired_valid(s, t, i);
    assert forall|u: int, j: int|
        #![trigger f.visit(u)[j]]
        t <= u && 0 <= j < f.visit(u).len() implies f.visit(u)[j] != s.visit(t)[i] by {
        lemma_visit(f, u, j);
    }
}

/// A timer stays on time when a timeout for a later tick is scheduled.
pub proof fn law_on_time_after_schedule<T>(s: TimerState<T>, key: usize, entry: TimerEntry<T>)
    requires
        s.valid(),
        s.on_time(),
        entry.tick > s.tick,
    ensures
        s.inserted(key, entry).on_time(),
{
    let r = s.inserted(key, entry);
    assert forall|k: usize| #[trigger] r.entries.contains_key(k) implies r.entries[k].tick >= r.tick && (
    r.entries[k].tick == r.tick ==> r.pending.contains(k)) by {
        if k != key {
            assert(s.entries.contains_key(k));
        }
    }
}

/// A timer stays on time when a timeout is cancelled.
pub proof fn law_on_time_after_cancel<T>(s: TimerState<T>, key: usize)
    requires
        s.valid(),
        s.on_time(),
        s.entries.contains_key(key),
    ensures
        s.removed(key).on_time(),
{
    let r = s.removed(key);
    s.pending.index_of_first_ensures(key);
    assert forall|k: usize| #[trigger] r.entries.contains_key(k) implies r.entries[k].tick >= r.tick && (
    r.entries[k].tick == r.tick ==> r.pending.contains(k)) by {
        assert(s.entries.contains_key(k));
        if r.entries[k].tick == r.tick {
            let j = choose|j: int| 0 <= j < s.pending.len() && s.pending[j] == k;
            match s.pending.index_of_first(key) {
                Some(i) => {
                    let j1 = if j < i {
                        j
                    } else {
                        j - 1
                    };
                    assert(r.pending[j1] == k);
                },
                None => {},
            }
        }
    }
}

/// A timer stays on time when an entry is handed out.
pub proof fn law_on_time_after_fire<T>(s: TimerState<T>, now: int, t: int, i: int)
    requires
        s.valid(),
        s.on_time(),
        s.first_due(now, t, i),
        t <= u64::MAX,
    ensures
        s.fired(t, i).on_time(),
{
    let r = s.fired(t, i);
    law_fires_in_order(s, now, t, i);
    let key = s.visit(t)[i];
    assert forall|k: usize| #[trigger] r.entries.contains_key(k) implies r.entries[k].tick >= r.tick && (
    r.entries[k].tick == r.tick ==> r.pending.contains(k)) by {
        assert(s.entries.contains_key(k));
        if s.entries[k].tick == t {
            assert(s.visit(t).contains(k));
            let j = choose|j: int| 0 <= j < s.visit(t).len() && s.visit(t)[j] == k;
            assert(s.due(t, j));
            assert(j > i);
            assert(r.pending[j - i - 1] == k);
        }
    }
}

/// A timer stays on time when a walk finds nothing due.
pub proof fn law_on_time_after_walk<T>(s: TimerState<T>, now: int)
    requires
        s.valid(),
        s.on_time(),
        s.nothing_due(now),
        now < u64::MAX,
    ensures
        s.advanced(now).on_time(),
{
    law_nothing_left_behind(s, now);
    let r = s.advanced(now);
    assert forall|k: usize| #[trigger] r.entries.contains_key(k) implies r.entries[k].tick >= r.tick && (
    r.entries[k].tick == r.tick ==> r.pending.contains(k)) by {
        assert(s.entries.contains_key(k));
        assert(s.lists[s.slot(k)].contains(k));
    }
}

/// Walking in two stages is walking at once: where nothing is due by `mid`, a walk
/// from there to `now` finds what one from here finds, and ends where it ends.
pub proof fn law_walks_compose<T>(s: TimerState<T>, mid: int, now: int, t: int, i: int)
    requires
        s.valid(),
        s.nothing_due(mid),
        s.tick <= mid <= now < u64::MAX,
    ensures
        s.advanced(mid).first_due(now, t, i) <==> s.first_due(now, t, i),
        s.advanced(mid).nothing_due(now) <==> s.nothing_due(now),
        s.first_due(now, t, i) ==> s.advanced(mid).fired(t, i) == s.fired(t, i),
        s.advanced(mid).advanced(now) == s.advanced(now),
{
    let m = s.advanced(mid);
    assert forall|u: int| u > mid implies #[trigger] m.visit(u) == s.visit(u) by {}
    assert forall|u: int, j: int| u > mid implies #[trigger] m.due(u, j) == s.due(u, j) by {
        assert(m.visit(u) == s.visit(u));
    }
    if s.first_due(now, t, i) {
        assert(s.due(t, i));
        assert(t > mid);
        assert(m.visit(t) == s.visit(t));
        assert(m.due(t, i));
    }
    if m.nothing_due(now) {
        assert forall|u: int, j: int| s.tick <= u <= now implies !#[trigger] s.due(u, j) by {
            if u > mid {
                assert(!m.due(u, j));
            }
        }
    }
    if m.first_due(now, t, i) {
        assert forall|j: int| 0 <= j < i implies !#[trigger] s.due(t, j) by {
            assert(!m.due(t, j));
        }
        assert(m.due(t, i));
        assert forall|u: int, j: int| s.tick <= u < t implies !#[trigger] s.due(u, j) by {
            if u > mid {
                assert(!m.due(u, j));
            }
        }
    }
}

/// A timeout for time `at` is due at a tick that does not begin before `at`, so a
/// walk to the tick of time `ms` hands it out only where `ms` has reached `at`.
pub proof fn law_not_before_its_time<T>(s: TimerState<T>, at: int, ms: int)
    requires
        s.schedulable(at),
        s.start_ms <= ms,
        s.tick_for(at) <= (ms - s.start_ms) / s.tick_ms as int,
    ensures
        at <= s.start_ms + s.tick_for(at) * s.tick_ms <= ms,
{
    let d = s.tick_ms as int;
    let x = at - s.start_ms;
    let y = ms - s.start_ms;
    let q = (x + d - 1) / d;
    let k = s.tick_for(at);
    assert(q * d >= x) by (nonlinear_arith)
        requires
            d > 0,
            q == (x + d - 1) / d,
    ;
    assert(k * d >= q * d) by (nonlinear_arith)
        requires
            k >= q,
            d > 0,
    ;
    assert(k * d <= y) by (nonlinear_arith)
        requires
            k <= y / d,
            d > 0,
            y >= 0,
    ;
}

/// A timeout is due less than two ticks after its time.
pub proof fn law_not_long_after_its_time<T>(s: TimerState<T>, at: int)
    requires
        s.schedulable(at),
    ensures
        s.start_ms + s.tick_for(at) * s.tick_ms < at + 2 * s.tick_ms,
{
    let d = s.tick_ms as int;
    let x = at - s.start_ms;
    let q = (x + d - 1) / d;
    let k = s.tick_for(at);
    assert(q * d < x + d) by (nonlinear_arith)
        requires
            d > 0,
            q == (x + d - 1) / d,
    ;
    assert(k * d <= q * d + d) by (nonlinear_arith)
        requires
            k <= q + 1,
            d > 0,
    ;
}

/// A timeout for a time after the tick before the current one has begun is scheduled for a
/// tick that is still to come.
pub proof fn law_scheduled_ahead<T>(s: TimerState<T>, at: int)
    requires
        s.schedulable(at),
        at > s.start_ms + (s.tick - 1) * s.tick_ms,
    ensures
        s.tick_for(at) > s.tick,
{
    let d = s.tick_ms as int;
    let x = at - s.start_ms;
    let q = (x + d - 1) / d;
    let p = s.tick - 1;
    assert(q > p) by (nonlinear_arith)
        requires
            d > 0,
            x > p * d,
            q == (x + d - 1) / d,
    ;
}

/// A fresh timer is on time.
pub proof fn law_fresh_on_time<T>(tick_ms: u64, slots: usize, cap: usize)
    ensures
        TimerState::<T>::fresh(tick_ms, slots, cap).on_time(),
{
}

/// There is always room to schedule a timeout again that a walk has handed out:
/// no attempt to do so can end in an error.
pub proof fn law_room_to_repeat<T>(
    s: TimerState<T>,
    now: int,
    t: int,
    i: int,
    tick: int,
    interval: u64,
    token: T,
    r: TimerResult,
    post: TimerState<T>,
)
    requires
        s.valid(),
        s.entries.dom().finite(),
        s.entries.dom().len() <= s.peak,
        s.first_due(now, t, i),
        s.fired(t, i).scheduled(tick, interval, token, r, post),
    ensures
        r is Ok,
{
    lemma_visit(s, t, i);
}

/// Cancelling a timeout undoes its scheduling: the timer is as it was, and the next
/// timeout gets the same key. Only that that key has been in use is remembered, where it
/// was a new one.
pub proof fn law_cancel_undoes_schedule<T>(s: TimerState<T>, key: usize, entry: TimerEntry<T>)
    requires
        s.valid(),
        key == s.next_key(),
        !s.entries.contains_key(key),
    ensures
        s.inserted(key, entry).removed(key) == s.key_returned(),
        s.key_returned().next_key() == s.next_key(),
        s.free.len() > 0 ==> s.key_returned() == s,
{
    if s.free.len() > 0 {
        assert(seq![s.free[0]] + s.free.skip(1) =~= s.free);
    }
    let h = entry.tick as int % s.lists.len() as int;
    let l1 = seq![key] + s.lists[h];
    l1.index_of_first_ensures(key);
    assert(l1[0] == key);
    assert(l1.remove(0) =~= s.lists[h]);
    assert(s.inserted(key, entry).removed(key).lists =~= s.lists);
    assert(s.inserted(key, entry).removed(key).entries =~= s.entries);
    s.pending.index_of_first_ensures(key);
    if s.pending.contains(key) {
        let i = choose|i: int| 0 <= i < s.pending.len() && s.pending[i] == key;
        lemma_visit(s, s.tick as int, i);
    }
}

/// Rounding up to a power of two gives the smallest one that is not below the number,
/// and less than twice the number.
pub proof fn law_power_of_two_above(n: nat) -> (e: nat)
    ensures
        power_of_two_above(n) == pow2(e),
        power_of_two_above(n) >= n,
        forall|f: nat| #[trigger] pow2(f) >= n ==> pow2(f) >= power_of_two_above(n),
        n > 0 ==> power_of_two_above(n) < 2 * n,
{
    lemma2_to64();
    lemma_doubled_to_power(0, n)
}

/// Doubling from `2^b` on reaches the smallest power of two that is neither below `n` nor
/// below `2^b`.
proof fn lemma_doubled_to_power(b: nat, n: nat) -> (e: nat)
    ensures
        doubled_to(pow2(b), n) == pow2(e),
        pow2(e) >= n,
        forall|f: nat| f >= b && #[trigger] pow2(f) >= n ==> pow2(f) >= pow2(e),
        e == b || pow2(e) < 2 * n,
        e >= b,
    decreases
            (if pow2(b) < n {
                n - pow2(b)
            } else {
                0
            }),
{
    lemma_pow2_pos(b);
    if pow2(b) >= n {
        assert forall|f: nat| f >= b && #[trigger] pow2(f) >= n implies pow2(f) >= pow2(b) by {
            if f > b {
                lemma_pow2_strictly_increases(b, f);
            }
        }
        b
    } else {
        lemma_pow2_unfold(b + 1);
        let e = lemma_doubled_to_power(b + 1, n);
        assert forall|f: nat| f >= b && #[trigger] pow2(f) >= n implies pow2(f) >= pow2(e) by {
            if f == b {
                assert(pow2(b) < n);
            }
        }
        e
    }
}

/// Something that happens to a timer.
pub enum TimerOp<T> {
    /// An entry is scheduled under a key.
    Schedule(usize, TimerEntry<T>),
    /// The entry under a key is cancelled.
    Cancel(usize),
    /// A walk to a tick hands out the entry of this visit of this tick.
    Fire(int, int, int),
    /// A walk to a tick finds nothing due.
    Walk(int),
}

impl<T> TimerOp<T> {
    /// It makes `post` of `pre`; what is scheduled is for a tick that is still to come, and
    /// under a key that is not in use.
    pub open spec fn leads(self, pre: TimerState<T>, post: TimerState<T>) -> bool {
        match self {
            TimerOp::Schedule(key, entry) => {
                &&& entry.tick > pre.tick
                &&& !pre.entries.contains_key(key)
                &&& post == pre.inserted(key, entry)
            },
            TimerOp::Cancel(key) => pre.entries.contains_key(key) && post == pre.removed(key),
            TimerOp::Fire(now, t, i) => pre.first_due(now, t, i) && t <= u64::MAX && post == pre.fired(t, i),
            TimerOp::Walk(now) => pre.nothing_due(now) && now < u64::MAX && post == pre.advanced(now),
        }
    }
}

/// A timer is on time whatever happens, as long as what is scheduled is for ticks that are
/// still to come. So no entry is ever handed out at a tick before or after its own.
pub proof fn law_always_on_time<T>(ops: Seq<TimerOp<T>>, states: Seq<TimerState<T>>, n: nat)
    requires
        states.len() == ops.len() + 1,
        n <= ops.len(),
        forall|i: int| 0 <= i < states.len() ==> (#[trigger] states[i]).valid(),
        forall|i: int| 0 <= i < ops.len() ==> (#[trigger] ops[i]).leads(states[i], states[i + 1]),
        states[0].on_time(),
    ensures
        states[n as int].on_time(),
        n < ops.len() ==> (ops[n as int] matches TimerOp::Fire(now, t, i) ==> {
            let key = states[n as int].visit(t)[i];
            &&& states[n as int].entries.contains_key(key)
            &&& states[n as int].entries[key].tick == t
        }),
    decreases n,
{
    if n > 0 {
        let m = n - 1;
        law_always_on_time(ops, states, m as nat);
        let pre = states[m];
        assert(pre.valid());
        match ops[m] {
            TimerOp::Schedule(key, entry) => law_on_time_after_schedule(pre, key, entry),
            TimerOp::Cancel(key) => law_on_time_after_cancel(pre, key),
            TimerOp::Fire(now, t, i) => law_on_time_after_fire(pre, now, t, i),
            TimerOp::Walk(now) => law_on_time_after_walk(pre, now),
        }
    }
    if n < ops.len() {
        let pre = states[n as int];
        assert(pre.valid());
        match ops[n as int] {
            TimerOp::Fire(now, t, i) => {
                law_fires_in_order(pre, now, t, i);
                lemma_visit(pre, t, i);
            },
            _ => {},
        }
    }
}

/// A timeout goes in front of those that are already scheduled for its slot of the wheel.
pub proof fn law_scheduled_in_front<T>(s: TimerState<T>, key: usize, entry: TimerEntry<T>, b: usize)
    requires
        s.valid(),
        !s.entries.contains_key(key),
        s.entries.contains_key(b),
        s.slot(b) == entry.tick as int % s.lists.len() as int,
    ensures
        s.inserted(key, entry).precedes(key, b),
{
    let l = s.lists[s.slot(b)];
    let j = choose|j: int| 0 <= j < l.len() && l[j] == b;
    assert(s.inserted(key, entry).stand_at(key, 0, b, j + 1));
}

/// Of two entries of one tick, a walk does not hand out the one that stands behind while
/// the one in front is still there.
pub proof fn law_front_first<T>(s: TimerState<T>, a: usize, b: usize, now: int, t: int, i: int)
    requires
        s.valid(),
        s.on_time(),
        s.precedes(a, b),
        s.entries[a].tick == s.entries[b].tick,
        s.first_due(now, t, i),
    ensures
        s.visit(t)[i] != b,
{
    if s.visit(t)[i] == b {
        let (x, y) = choose|x: int, y: int| #[trigger] s.stand_at(a, x, b, y);
        let h = t % s.lists.len() as int;
        let l = s.lists[h];
        lemma_visit(s, t, i);
        law_fires_in_order(s, now, t, i);
        assert(l.no_duplicates());
        assert(s.holds(h, x));
        let p = if t == s.tick {
            choose|p: int| #[trigger] s.cursor_at(p)
        } else {
            0
        };
        assert(l[p + i] == b);
        if t == s.tick {
            let q = choose|q: int| 0 <= q < s.pending.len() && s.pending[q] == a;
            assert(l[p + q] == a);
        }
        assert(s.visit(t)[x - p] == a);
        assert(s.due(t, x - p));
    }
}

/// Taking another value out of a list keeps the order of two values of it.
proof fn lemma_order_without(l: Seq<usize>, key: usize, i: int, j: int) -> (r: (int, int))
    requires
        0 <= i < j < l.len(),
        l[i] != key,
        l[j] != key,
    ensures
        0 <= r.0 < r.1 < l.remove_value(key).len(),
        l.remove_value(key)[r.0] == l[i],
        l.remove_value(key)[r.1] == l[j],
{
    l.index_of_first_ensures(key);
    match l.index_of_first(key) {
        Some(x) => (
            if i < x {
                i
            } else {
                i - 1
            },
            if j < x {
                j
            } else {
                j - 1
            },
        ),
        None => (i, j),
    }
}

/// Whatever happens to a timer, two entries that stay keep their order.
proof fn lemma_order_kept<T>(op: TimerOp<T>, pre: TimerState<T>, post: TimerState<T>, a: usize, b: usize)
    requires
        pre.valid(),
        op.leads(pre, post),
        pre.precedes(a, b),
        pre.entries.contains_key(a),
        pre.entries.contains_key(b),
        post.entries.contains_key(a),
        post.entries.contains_key(b),
    ensures
        post.precedes(a, b),
        post.entries[a] == pre.entries[a],
        post.entries[b] == pre.entries[b],
{
    let (i, j) = choose|i: int, j: int| #[trigger] pre.stand_at(a, i, b, j);
    let h = pre.slot(b);
    let l = pre.lists[h];
    match op {
        TimerOp::Schedule(key, entry) => {
            if entry.tick as int % pre.lists.len() as int == h {
                assert(post.stand_at(a, i + 1, b, j + 1));
            } else {
                assert(post.stand_at(a, i, b, j));
            }
        },
        TimerOp::Cancel(key) => {
            if pre.slot(key) == h {
                let (x, y) = lemma_order_without(l, key, i, j);
                assert(post.stand_at(a, x, b, y));
            } else {
                assert(post.stand_at(a, i, b, j));
            }
        },
        TimerOp::Fire(now, t, v) => {
            if t % pre.lists.len() as int == h {
                let (x, y) = lemma_order_without(l, pre.visit(t)[v], i, j);
                assert(post.stand_at(a, x, b, y));
            } else {
                assert(post.stand_at(a, i, b, j));
            }
        },
        TimerOp::Walk(now) => {
            assert(post.stand_at(a, i, b, j));
        },
    }
}

/// Timeouts for one tick come out last scheduled first: one that was there already when
/// another was scheduled for its tick is not handed out before the other has left.
pub proof fn law_last_scheduled_first<T>(
    ops: Seq<TimerOp<T>>,
    states: Seq<TimerState<T>>,
    a: usize,
    entry: TimerEntry<T>,
    b: usize,
    n: nat,
)
    requires
        states.len() == ops.len() + 1,
        0 < n < ops.len(),
        forall|i: int| 0 <= i < states.len() ==> (#[trigger] states[i]).valid(),
        forall|i: int| 0 <= i < ops.len() ==> (#[trigger] ops[i]).leads(states[i], states[i + 1]),
        states[0].on_time(),
        states[0].entries.contains_key(b),
        states[0].entries[b].tick == entry.tick,
        ops[0] == TimerOp::Schedule(a, entry),
        forall|i: int|
            0 < i <= n ==> (#[trigger] states[i]).entries.contains_key(a) && states[i].entries.contains_key(b),
    ensures
        ops[n as int] matches TimerOp::Fire(now, t, i) ==> states[n as int].visit(t)[i] != b,
{
    lemma_stays_in_front(ops, states, a, entry, b, n);
    law_always_on_time(ops, states, n);
    match ops[n as int] {
        TimerOp::Fire(now, t, i) => law_front_first(states[n as int], a, b, now, t, i),
        _ => {},
    }
}

/// An entry stays in front of those of its tick that were there when it was scheduled.
proof fn lemma_stays_in_front<T>(
    ops: Seq<TimerOp<T>>,
    states: Seq<TimerState<T>>,
    a: usize,
    entry: TimerEntry<T>,
    b: usize,
    n: nat,
)
    requires
        states.len() == ops.len() + 1,
        0 < n < ops.len(),
        forall|i: int| 0 <= i < states.len() ==> (#[trigger] states[i]).valid(),
        forall|i: int| 0 <= i < ops.len() ==> (#[trigger] ops[i]).leads(states[i], states[i + 1]),
        states[0].entries.contains_key(b),
        states[0].entries[b].tick == entry.tick,
        ops[0] == TimerOp::Schedule(a, entry),
        forall|i: int|
            0 < i <= n ==> (#[trigger] states[i]).entries.contains_key(a) && states[i].entries.contains_key(b),
    ensures
        states[n as int].precedes(a, b),
        states[n as int].entries[a] == entry,
        states[n as int].entries[b] == states[0].entries[b],
    decreases n,
{
    let m = n - 1;
    assert(states[m].valid());
    if m == 0 {
        law_scheduled_in_front(states[0], a, entry, b);
    } else {
        lemma_stays_in_front(ops, states, a, entry, b, m as nat);
        lemma_order_kept(ops[m], states[m], states[n as int], a, b);
    }
}

/// A timer asks to be looked at again when its next tick begins, no later and no sooner, and
/// at once where that is past; where nothing is scheduled it does not ask. So it never
/// asks for more than the length of a tick once the current tick has begun, and never
/// for a time after one at which an entry is due.
pub proof fn law_asks_for_next_tick<T>(s: TimerState<T>, now: u64, ms: u64)
    requires
        s.next_tick_in(Ok(now)) == Ok::<_, ClockError>(Some(ms)),
    ensures
        now < s.start_ms + (s.tick + 1) * s.tick_ms ==> now + ms == s.start_ms + (s.tick + 1) * s.tick_ms,
        now >= s.start_ms + (s.tick + 1) * s.tick_ms ==> ms == 0,
        s.start_ms + s.tick * s.tick_ms <= now ==> ms <= s.tick_ms,
        forall|k: usize| #[trigger]
            s.entries.contains_key(k) && s.entries[k].tick > s.tick && now < s.start_ms + (s.tick + 1) * s.tick_ms
                ==> now + ms <= s.start_ms + s.entries[k].tick * s.tick_ms,
{
    let d = s.tick_ms as int;
    let t = s.tick as int;
    assert((t + 1) * d == t * d + d) by (nonlinear_arith);
    assert forall|k: usize| #[trigger]
        s.entries.contains_key(k) && s.entries[k].tick > s.tick && now < s.start_ms + (s.tick + 1)
            * s.tick_ms implies now + ms <= s.start_ms + s.entries[k].tick * s.tick_ms by {
        let u = s.entries[k].tick as int;
        assert((t + 1) * d <= u * d) by (nonlinear_arith)
            requires
                t + 1 <= u,
                d >= 0,
        ;
    }
}

/// A timer asks to be looked at again if and only if something is scheduled, as long as the
/// clock can be read and the time of its next tick can be written down.
pub proof fn law_asks_if_scheduled<T>(s: TimerState<T>, clock: Result<u64, ClockError>)
    requires
        s.entries.dom().finite(),
        s.tick_ms > 0,
    ensures
        s.next_tick_in(clock) == Ok::<_, ClockError>(None::<u64>) <==> s.entries == Map::<usize, TimerEntry<T>>::empty(),
        s.next_tick_in(clock) matches Err(e) ==> match clock {
            Ok(_) => e is OutOfRange && s.start_ms + (s.tick + 1) * s.tick_ms > u64::MAX,
            Err(f) => e == f,
        },
        clock is Err && s.entries != Map::<usize, TimerEntry<T>>::empty() ==> s.next_tick_in(clock) is Err,
{
    if s.entries.dom().len() == 0 {
        assert(s.entries.dom() =~= Set::<usize>::empty());
        assert(s.entries =~= Map::<usize, TimerEntry<T>>::empty());
    }
    assert((u64::MAX + 1) * s.tick_ms > u64::MAX) by (nonlinear_arith)
        requires
            s.tick_ms > 0,
    ;
}

/// Ticks cut time into pieces of equal length: the tick that a time falls into has begun by
/// then, and the next one has not.
pub proof fn law_tick_of_time<T>(s: TimerState<T>, clock: Result<u64, ClockError>)
    requires
        s.tick_ms > 0,
    ensures
        match s.tick_at(clock) {
            Ok(tick) => {
                &&& clock is Ok
                &&& s.start_ms + tick * s.tick_ms <= clock->Ok_0 < s.start_ms + (tick + 1) * s.tick_ms
                &&& tick == s.tick_of(clock->Ok_0 as int)
            },
            Err(e) => match clock {
                Ok(now) => e is OutOfRange && now < s.start_ms,
                Err(f) => e == f,
            },
        },
{
    if let Ok(now) = clock {
        let d = s.tick_ms as int;
        let y = now - s.start_ms;
        let q = y / d;
        if y >= 0 {
            assert(0 <= q <= y && q * d <= y < (q + 1) * d) by (nonlinear_arith)
                requires
                    d > 0,
                    y >= 0,
                    q == y / d,
            ;
        }
    }
}

/// A timeout is scheduled for the first tick that does not begin before its time; only if
/// the timer has reached that tick already is it scheduled for the one after.
pub proof fn law_first_tick_in_time<T>(s: TimerState<T>, at: int)
    requires
        s.schedulable(at),
    ensures
        s.start_ms + s.tick_for(at) * s.tick_ms >= at,
        s.start_ms + (s.tick_for(at) - 1) * s.tick_ms < at || s.tick_for(at) - 1 <= s.tick,
        s.start_ms + (s.tick_for(at) - 2) * s.tick_ms < at,
{
    let d = s.tick_ms as int;
    let x = at - s.start_ms;
    let q = (x + d - 1) / d;
    let k = s.tick_for(at);
    assert(q * d >= x && (q - 1) * d < x) by (nonlinear_arith)
        requires
            d > 0,
            q == (x + d - 1) / d,
    ;
    assert((q + 1) * d >= q * d && (q - 2) * d < (q - 1) * d) by (nonlinear_arith)
        requires
            d > 0,
    ;
}

/// Whatever time can be written down, and is not before the timer's start, can be scheduled
/// for.
pub proof fn law_schedulable<T>(s: TimerState<T>, at: int)
    ensures
        s.schedulable(at) <==> s.tick_ms > 0 && s.start_ms <= at && at <= u64::MAX && at - s.start_ms + s.tick_ms
            <= u64::MAX,
{
}

/// Scheduling a timeout adds one entry, under a key that was not in use, with the mark and
/// the interval that were asked for, and due at the first tick that is in time; all
/// else about the entries stays. It is refused only where the timer holds what it was
/// created for, and fails only for want of a usable clock; then nothing changes.
pub proof fn law_schedule<T>(
    s: TimerState<T>,
    clock: Result<u64, ClockError>,
    delay: u64,
    interval: u64,
    token: T,
    r: Result<TimerResult, ClockError>,
    post: TimerState<T>,
)
    requires
        s.tick_ms > 0,
        s.scheduled_by(clock, delay, interval, token, r, post),
    ensures
        match r {
            Ok(Ok(timeout)) => {
                &&& clock is Ok
                &&& !s.entries.contains_key(timeout.key)
                &&& post.entries == s.entries.insert(timeout.key, TimerEntry { token, interval, tick: timeout.tick })
                &&& s.start_ms + timeout.tick * s.tick_ms >= clock->Ok_0 + delay
                &&& s.start_ms + (timeout.tick - 1) * s.tick_ms < clock->Ok_0 + delay || timeout.tick - 1 <= s.tick
                &&& post.tick == s.tick
                &&& post.tick_ms == s.tick_ms
                &&& post.start_ms == s.start_ms
                &&& post.limit == s.limit
            },
            Ok(Err(_)) => {
                &&& clock is Ok
                &&& post == s
                &&& s.entries.dom().len() >= s.limit
            },
            Err(e) => {
                &&& post == s
                &&& match clock {
                    Ok(now) => {
                        &&& e is OutOfRange
                        &&& now + delay < s.start_ms || now + delay > u64::MAX || now + delay - s.start_ms + s.tick_ms
                            > u64::MAX
                    },
                    Err(f) => e == f,
                }
            },
        },
        clock is Err ==> r is Err,
{
    if let Ok(now) = clock {
        law_schedulable(s, now + delay);
        if s.schedulable(now + delay) {
            law_first_tick_in_time(s, now + delay);
        }
    }
}

/// Scheduling a timeout for a tick does the same for that tick.
pub proof fn law_schedule_for_tick<T>(
    s: TimerState<T>,
    tick: int,
    interval: u64,
    token: T,
    r: TimerResult,
    post: TimerState<T>,
)
    requires
        s.scheduled(tick, interval, token, r, post),
    ensures
        match r {
            Ok(timeout) => {
                &&& timeout.tick == tick
                &&& !s.entries.contains_key(timeout.key)
                &&& post.entries == s.entries.insert(timeout.key, TimerEntry { token, interval, tick: timeout.tick })
                &&& post.tick == s.tick
            },
            Err(_) => post == s && s.entries.dom().len() >= s.limit,
        },
{
}

/// Where there is room for `capacity` entries, a timeout is refused if and only if the
/// timer holds as many; one that is not is added.
pub proof fn law_schedule_within<T>(
    s: TimerState<T>,
    capacity: usize,
    tick: u64,
    interval: u64,
    token: T,
    r: TimerResult,
    post: TimerState<T>,
)
    requires
        s.scheduled_within(capacity, tick, interval, token, r, post),
        s.entries.dom().finite(),
    ensures
        r is Err <==> s.count() == capacity,
        match r {
            Ok(timeout) => {
                &&& timeout.tick == tick
                &&& !s.entries.contains_key(timeout.key)
                &&& post.entries == s.entries.insert(timeout.key, TimerEntry { token, interval, tick })
                &&& post.count() == s.count() + 1
            },
            Err(_) => post == s,
        },
{
}

/// Scheduling keeps the lists and the entries in step.
pub proof fn law_valid_after_schedule<T>(s: TimerState<T>, key: usize, entry: TimerEntry<T>)
    requires
        s.valid(),
        !s.entries.contains_key(key),
    ensures
        s.inserted(key, entry).valid(),
{
    let r = s.inserted(key, entry);
    let n = s.lists.len() as int;
    let h = entry.tick as int % n;
    let p = choose|p: int| #[trigger] s.cursor_at(p);
    assert forall|u: int, j: int| 0 <= u < n && 0 <= j < r.lists[u].len() implies #[trigger] r.holds(u, j) by {
        if u == h && j > 0 {
            assert(s.holds(h, j - 1));
        } else if u != h {
            assert(s.holds(u, j));
        }
    }
    assert forall|u: int| 0 <= u < n implies (#[trigger] r.lists[u]).no_duplicates() by {
        assert(s.lists[u].no_duplicates());
        assert forall|j: int| 0 <= j < s.lists[u].len() implies s.lists[u][j] != key by {
            assert(s.holds(u, j));
        }
    }
    assert forall|k: usize| #[trigger] r.entries.contains_key(k) implies r.lists[r.slot(k)].contains(k) by {
        if k == key {
            assert(r.lists[h][0] == key);
        } else {
            assert(s.entries.contains_key(k));
            let u = s.slot(k);
            let j = choose|j: int| 0 <= j < s.lists[u].len() && s.lists[u][j] == k;
            if u == h {
                assert(r.lists[u][j + 1] == k);
            } else {
                assert(r.lists[u][j] == k);
            }
        }
    }
    if s.tick as int % n == h {
        assert(r.pending =~= r.lists[h].skip(p + 1));
        assert(r.cursor_at(p + 1));
    } else {
        assert(r.cursor_at(p));
    }
}

/// A walk hands out one entry that has come due, with the mark and the interval that it was
/// scheduled with, and takes out that one alone; none that is left was due earlier. Where
/// it hands out nothing, nothing that is left is due, and the walk went to the end.
pub proof fn law_walk<T>(s: TimerState<T>, now: int, r: Option<(T, u64)>, post: TimerState<T>) -> (key: usize)
    requires
        s.valid(),
        s.on_time(),
        now < u64::MAX,
        s.walked(now, r, post),
    ensures
        match r {
            Some((token, interval)) => {
                &&& s.entries.contains_key(key)
                &&& s.entries[key].tick <= now
                &&& s.entries[key].token == token
                &&& s.entries[key].interval == interval
                &&& post.entries == s.entries.remove(key)
                &&& forall|k: usize| #[trigger] s.entries.contains_key(k) ==> s.entries[k].tick >= s.entries[key].tick
                &&& post.tick == s.entries[key].tick
            },
            None => {
                &&& post.entries == s.entries
                &&& forall|k: usize| #[trigger] s.entries.contains_key(k) ==> s.entries[k].tick > now
                &&& post.tick == if s.tick <= now {
                    now + 1
                } else {
                    s.tick as int
                }
            },
        },
        post.tick_ms == s.tick_ms,
        post.start_ms == s.start_ms,
        post.limit == s.limit,
{
    match r {
        Some(x) => {
            let (t, i) = choose|t: int, i: int| #[trigger] s.hands_out(now, t, i, x.0, x.1, post);
            law_fires_in_order(s, now, t, i);
            lemma_visit(s, t, i);
            s.visit(t)[i]
        },
        None => {
            law_nothing_left_behind(s, now);
            0
        },
    }
}

/// A cancellation takes out the entry that the timeout stands for and no other, and says
/// whether that was still there; one that names another tick takes out nothing.
pub proof fn law_cancel<T>(s: TimerState<T>, timeout: Timeout, r: bool, post: TimerState<T>)
    requires
        s.cancelled(timeout, r, post),
        s.entries.dom().finite(),
    ensures
        r <==> s.entries.contains_key(timeout.key) && s.entries[timeout.key].tick == timeout.tick,
        r ==> post.entries == s.entries.remove(timeout.key) && post.count() + 1 == s.count(),
        !r ==> post == s,
        post.tick == s.tick,
        post.start_ms == s.start_ms,
        post.tick_ms == s.tick_ms,
        post.limit == s.limit,
{
}

/// A timeout that was just scheduled can be cancelled, once.
pub proof fn law_cancel_once<T>(
    s: TimerState<T>,
    tick: int,
    interval: u64,
    token: T,
    timeout: Timeout,
    mid: TimerState<T>,
    first: bool,
    post: TimerState<T>,
    second: bool,
    last: TimerState<T>,
)
    requires
        s.scheduled(tick, interval, token, Ok(timeout), mid),
        mid.cancelled(timeout, first, post),
        post.cancelled(timeout, second, last),
    ensures
        first,
        post.entries == s.entries,
        !second,
        last == post,
{
    assert(post.entries =~= s.entries);
}

/// Setting a timer up makes the present the beginning of its first tick and changes nothing
/// else; without a usable clock nothing changes.
pub proof fn law_set_up<T>(
    s: TimerState<T>,
    clock: Result<u64, ClockError>,
    r: Result<(), ClockError>,
    post: TimerState<T>,
)
    requires
        s.set_up(clock, r, post),
    ensures
        r is Ok <==> clock is Ok,
        clock matches Ok(now) ==> post.start_ms == now,
        clock matches Err(e) ==> r == Err::<(), _>(e) && post.start_ms == s.start_ms,
        post == (TimerState { start_ms: post.start_ms, ..s }),
{
}

/// A fresh timer is at its first tick, holds nothing, and has at least the wheel slots and
/// the room that were asked for, and less than twice as many.
pub proof fn law_fresh<T>(tick_ms: u64, slots: usize, cap: usize)
    ensures
        ({
            let s = TimerState::<T>::fresh(tick_ms, slots, cap);
            &&& s.tick_ms == tick_ms
            &&& s.tick == 0
            &&& s.start_ms == 0
            &&& s.count() == 0
            &&& s.pending.len() == 0
            &&& slots <= s.lists.len()
            &&& slots > 0 ==> s.lists.len() < 2 * slots
            &&& cap <= s.limit
            &&& cap > 0 ==> s.limit < 2 * cap
            &&& forall|i: int| 0 <= i < s.lists.len() ==> (#[trigger] s.lists[i]).len() == 0
        }),
{
    law_power_of_two_above(slots as nat);
    law_power_of_two_above(cap as nat);
}

/// What is rounded up to fit into memory fits as it is, and what fits twice over fits when
/// it is rounded up.
pub proof fn law_fits(n: nat, unit: nat)
    requires
        n > 0,
    ensures
        fits(n, unit) ==> n * unit <= isize::MAX,
        2 * n * unit <= isize::MAX ==> fits(n, unit),
{
    law_power_of_two_above(n);
    let p = power_of_two_above(n);
    assert(n * unit <= p * unit && p * unit <= 2 * n * unit) by (nonlinear_arith)
        requires
            n <= p < 2 * n,
    ;
}

/// A clock reading is the time that it says, where that can be written down.
pub proof fn law_clock_reading(elapsed: Option<u128>)
    ensures
        clock_reading(elapsed) matches Ok(now) ==> (elapsed matches Some(ms) && now == ms),
        clock_reading(elapsed) matches Err(ClockError::BeforeEpoch) <==> elapsed is None,
        clock_reading(elapsed) matches Err(ClockError::OutOfRange) <==> (elapsed matches Some(ms) && ms > u64::MAX),
{
}

/// A walk misses nothing, even where entries are overdue: up to where it ends, every entry
/// that it comes past, in the slot of its tick, is for a later tick. What it hands out is for
/// a tick that has come, in the slot that the walk has reached.
pub proof fn law_walk_misses_nothing<T>(
    s: TimerState<T>,
    now: int,
    r: Option<(T, u64)>,
    post: TimerState<T>,
) -> (key: usize)
    requires
        s.valid(),
        now < u64::MAX,
        s.walked(now, r, post),
    ensures
        r is Some ==> s.tick <= post.tick <= now,
        r is None ==> post.tick == if s.tick <= now {
            now + 1
        } else {
            s.tick as int
        },
        r is None ==> post.entries == s.entries,
        forall|k: usize, u: int|
            s.entries.contains_key(k) && s.tick < u < post.tick && #[trigger] (u % s.lists.len() as int) == #[trigger] s.slot(
                k,
            ) ==> s.entries[k].tick > u,
        forall|k: usize|
            s.entries.contains_key(k) && s.tick < post.tick && #[trigger] s.pending.contains(k) ==> s.entries[k].tick
                > s.tick,
        r matches Some(x) ==> {
            &&& s.entries.contains_key(key)
            &&& s.entries[key].tick <= post.tick
            &&& s.slot(key) == post.tick as int % s.lists.len() as int
            &&& s.entries[key].token == x.0
            &&& s.entries[key].interval == x.1
            &&& post.entries == s.entries.remove(key)
        },
{
    let key = match r {
        Some(x) => {
            let (t, i) = choose|t: int, i: int| #[trigger] s.hands_out(now, t, i, x.0, x.1, post);
            assert(s.due(t, i));
            lemma_visit(s, t, i);
            s.visit(t)[i]
        },
        None => 0,
    };
    assert forall|k: usize, u: int|
        s.entries.contains_key(k) && s.tick < u < post.tick && #[trigger] (u % s.lists.len() as int) == #[trigger] s.slot(
            k,
        ) implies s.entries[k].tick > u by {
        assert(s.visit(u) == s.lists[s.slot(k)]);
        assert(s.visit(u).contains(k));
        let j = choose|j: int| 0 <= j < s.visit(u).len() && s.visit(u)[j] == k;
        assert(!s.due(u, j));
    }
    assert forall|k: usize|
        s.entries.contains_key(k) && s.tick < post.tick && #[trigger] s.pending.contains(k) implies s.entries[k].tick
        > s.tick by {
        let j = choose|j: int| 0 <= j < s.pending.len() && s.pending[j] == k;
        assert(s.visit(s.tick as int) == s.pending);
        assert(!s.due(s.tick as int, j));
    }
    key
}

} // verus!
