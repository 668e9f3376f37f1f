//! A hashed timer wheel.
//!
//! Time is cut into ticks. A timeout for tick `t` hangs in the list of wheel
//! slot `t % slots`; advancing the timer walks the slots one tick at a time and
//! hands out the entries that have come due.
use crate::slots::{free_after_insert, next_of, peak_after_insert, Slots};
use vstd::arithmetic::power2::*;
use vstd::bits::*;
use vstd::prelude::*;

verus! {

const EMPTY: usize = usize::MAX;

/// One scheduled timeout: its mark, its repetition interval in ms (0 for none)
/// and the tick it is due at.
pub struct TimerEntry<T> {
    pub token: T,
    pub interval: u64,
    pub tick: u64,
}

/// What a timer is, as a mathematical value.
pub struct TimerState<T> {
    /// Length of a tick in ms.
    pub tick_ms: u64,
    /// The time of tick 0 in ms.
    pub start_ms: u64,
    /// The number of entries that the timer was created for.
    pub limit: nat,
    /// The most entries that the timer has held at once.
    pub peak: nat,
    /// The keys that were in use and are free again, the one freed last in front.
    pub free: Seq<usize>,
    /// The scheduled timeouts by key.
    pub entries: Map<usize, TimerEntry<T>>,
    /// The keys in each wheel slot, in list order.
    pub lists: Seq<Seq<usize>>,
    /// The current tick.
    pub tick: u64,
    /// What is left to visit of the current tick's slot.
    pub pending: Seq<usize>,
}

impl<T> TimerState<T> {
    /// A timer without entries at tick 0, for ticks of `tick_ms`, with at least `slots`
    /// wheel slots and for at least `cap` entries, both rounded up to a power of two.
    pub open spec fn fresh(tick_ms: u64, slots: usize, cap: usize) -> Self {
        TimerState {
            tick_ms,
            start_ms: 0,
            limit: power_of_two_above(cap as nat),
            peak: 0,
            free: Seq::empty(),
            entries: Map::empty(),
            lists: Seq::new(power_of_two_above(slots as nat), |s: int| Seq::empty()),
            tick: 0,
            pending: Seq::empty(),
        }
    }

    /// The key of the next timeout to be scheduled.
    pub open spec fn next_key(self) -> usize {
        next_of(self.free, self.peak)
    }

    /// The keys that a walk starting here visits at tick `t`, in order.
    pub open spec fn visit(self, t: int) -> Seq<usize> {
        if t == self.tick {
            self.pending
        } else {
            self.lists[t % self.lists.len() as int]
        }
    }

    /// The `i`-th key visited at tick `t` has come due by then.
    pub open spec fn due(self, t: int, i: int) -> bool {
        &&& 0 <= i < self.visit(t).len()
        &&& self.entries[self.visit(t)[i]].tick <= t
    }

    /// No visit up to and including tick `now` finds a due entry.
    pub open spec fn nothing_due(self, now: int) -> bool {
        forall|t: int, i: int| self.tick <= t <= now ==> !#[trigger] self.due(t, i)
    }

    /// Visit `i` of tick `t` is the first, up to tick `now`, that finds a due entry.
    pub open spec fn first_due(self, now: int, t: int, i: int) -> bool {
        &&& self.tick <= t <= now
        &&& self.due(t, i)
        &&& forall|j: int| 0 <= j < i ==> !#[trigger] self.due(t, j)
        &&& forall|u: int, j: int| self.tick <= u < t ==> !#[trigger] self.due(u, j)
    }

    /// The state once visit `i` of tick `t` has taken its entry out.
    pub open spec fn fired(self, t: int, i: int) -> Self {
        let key = self.visit(t)[i];
        let s = t % self.lists.len() as int;
        TimerState {
            entries: self.entries.remove(key),
            free: seq![key] + self.free,
            lists: self.lists.update(s, self.lists[s].remove_value(key)),
            tick: t as u64,
            pending: self.visit(t).skip(i + 1),
            ..self
        }
    }

    /// The state once every tick up to `now` has been walked.
    pub open spec fn advanced(self, now: int) -> Self {
        if now < self.tick {
            self
        } else {
            TimerState {
                tick: (now + 1) as u64,
                pending: self.lists[(now + 1) % self.lists.len() as int],
                ..self
            }
        }
    }

    /// A walk to tick `now` hands `token` and `interval` out at visit `i` of tick `t`, and
    /// makes `post` of this state.
    pub open spec fn hands_out(self, now: int, t: int, i: int, token: T, interval: u64, post: Self) -> bool {
        &&& self.first_due(now, t, i)
        &&& post == self.fired(t, i)
        &&& self.entries[self.visit(t)[i]].token == token
        &&& self.entries[self.visit(t)[i]].interval == interval
    }

    /// A walk to tick `now` comes to `r`, and makes `post` of this state.
    pub open spec fn walked(self, now: int, r: Option<(T, u64)>, post: Self) -> bool {
        match r {
            Some(x) => exists|t: int, i: int| #[trigger] self.hands_out(now, t, i, x.0, x.1, post),
            None => self.nothing_due(now) && post == self.advanced(now),
        }
    }

    /// Cancelling `timeout` comes to `r`, and makes `post` of this state: only an entry for
    /// the tick that it names is taken out.
    pub open spec fn cancelled(self, timeout: Timeout, r: bool, post: Self) -> bool {
        &&& r == (self.entries.contains_key(timeout.key) && self.entries[timeout.key].tick == timeout.tick)
        &&& post == (if r {
            self.removed(timeout.key)
        } else {
            self
        })
    }

    /// Making the time that `clock` reads the time of tick 0 comes to `r`, and makes `post`
    /// of this state.
    pub open spec fn set_up(self, clock: Result<u64, ClockError>, r: Result<(), ClockError>, post: Self) -> bool {
        match clock {
            Ok(now) => r is Ok && post == (TimerState { start_ms: now, ..self }),
            Err(e) => r == Err::<(), _>(e) && post == self,
        }
    }

    /// The number of scheduled timeouts.
    pub open spec fn count(self) -> nat {
        self.entries.dom().len()
    }

    /// The tick that time `ms` falls into.
    pub open spec fn tick_of(self, ms: int) -> int {
        (ms - self.start_ms) / self.tick_ms as int
    }

    /// The tick that a timeout for time `at` is scheduled for: the first one not
    /// before `at`, or one more where the timer has reached that tick already.
    pub open spec fn tick_for(self, at: int) -> int {
        let t = (at - self.start_ms + self.tick_ms - 1) / self.tick_ms as int;
        if t <= self.tick {
            t + 1
        } else {
            t
        }
    }

    /// The arithmetic of scheduling for time `at` stays in range.
    pub open spec fn schedulable(self, at: int) -> bool {
        &&& self.tick_ms > 0
        &&& self.start_ms <= at <= u64::MAX
        &&& at - self.start_ms + self.tick_ms <= u64::MAX
    }

    /// What scheduling a timeout for `tick` makes of this state: a new entry under the
    /// next key, or, once the timer holds what it was created for and what it has held before,
    /// possibly an error.
    pub open spec fn scheduled(self, tick: int, interval: u64, token: T, r: TimerResult, post: Self) -> bool {
        match r {
            Ok(timeout) => {
                &&& timeout.tick == tick
                &&& timeout.key == self.next_key()
                &&& !self.entries.contains_key(timeout.key)
                &&& post == self.inserted(timeout.key, TimerEntry { token, interval, tick: timeout.tick })
            },
            Err(e) => {
                &&& e.is_overflow()
                &&& self.entries.dom().len() >= self.limit
                &&& self.entries.dom().len() >= self.peak
                &&& post == self
            },
        }
    }

    /// What scheduling a timeout for `tick` makes of this state, where there is room for
    /// `capacity` entries.
    pub open spec fn scheduled_within(
        self,
        capacity: usize,
        tick: u64,
        interval: u64,
        token: T,
        r: TimerResult,
        post: Self,
    ) -> bool {
        &&& r is Err <==> self.entries.dom().len() == capacity
        &&& match r {
            Ok(timeout) => {
                &&& timeout.tick == tick
                &&& timeout.key == self.next_key()
                &&& !self.entries.contains_key(timeout.key)
                &&& post == self.inserted(timeout.key, TimerEntry { token, interval, tick })
            },
            Err(e) => e.is_overflow() && post == self,
        }
    }

    /// What scheduling a timeout `delay` ms after the time that `clock` reads makes of this
    /// state: nothing where the reading is of no use.
    pub open spec fn scheduled_by(
        self,
        clock: Result<u64, ClockError>,
        delay: u64,
        interval: u64,
        token: T,
        r: Result<TimerResult, ClockError>,
        post: Self,
    ) -> bool {
        match clock {
            Ok(now) => if self.schedulable(now + delay) {
                &&& r is Ok
                &&& self.scheduled(self.tick_for(now + delay), interval, token, r->Ok_0, post)
            } else {
                r matches Err(ClockError::OutOfRange) && post == self
            },
            Err(e) => r == Err::<TimerResult, _>(e) && post == self,
        }
    }

    /// The tick that the time that `clock` reads falls into.
    pub open spec fn tick_at(self, clock: Result<u64, ClockError>) -> Result<u64, ClockError> {
        match clock {
            Ok(now) => if self.start_ms <= now {
                Ok(((now - self.start_ms) / self.tick_ms as int) as u64)
            } else {
                Err(ClockError::OutOfRange)
            },
            Err(e) => Err(e),
        }
    }

    /// How many ms after the time that `clock` reads the next tick begins, if anything is
    /// scheduled.
    pub open spec fn next_tick_in(self, clock: Result<u64, ClockError>) -> Result<Option<u64>, ClockError> {
        if self.entries.dom().len() == 0 {
            Ok(None)
        } else {
            match clock {
                Ok(now) => if self.tick < u64::MAX && self.next_tick_at() <= u64::MAX {
                    Ok(Some(self.ms_to_next_tick(now)))
                } else {
                    Err(ClockError::OutOfRange)
                },
                Err(e) => Err(e),
            }
        }
    }

    /// The time of the tick after the current one.
    pub open spec fn next_tick_at(self) -> int {
        self.start_ms + (self.tick + 1) * self.tick_ms
    }

    /// How many ms remain from `now` until the next tick begins.
    pub open spec fn ms_to_next_tick(self, now: u64) -> u64 {
        if self.next_tick_at() <= now {
            0
        } else {
            (self.next_tick_at() - now) as u64
        }
    }

    /// The state with a new entry under `key`, at the front of its slot's list.
    pub open spec fn inserted(self, key: usize, entry: TimerEntry<T>) -> Self {
        let s = entry.tick as int % self.lists.len() as int;
        TimerState {
            entries: self.entries.insert(key, entry),
            lists: self.lists.update(s, seq![key] + self.lists[s]),
            peak: peak_after_insert(self.free, self.peak),
            free: free_after_insert(self.free),
            ..self
        }
    }

    /// The state without the entry under `key`.
    pub open spec fn removed(self, key: usize) -> Self {
        let s = self.entries[key].tick as int % self.lists.len() as int;
        TimerState {
            entries: self.entries.remove(key),
            free: seq![key] + self.free,
            lists: self.lists.update(s, self.lists[s].remove_value(key)),
            pending: self.pending.remove_value(key),
            ..self
        }
    }

    /// The state once its next key has been in use and is free again.
    pub open spec fn key_returned(self) -> Self {
        TimerState {
            peak: peak_after_insert(self.free, self.peak),
            free: seq![self.next_key()] + free_after_insert(self.free),
            ..self
        }
    }
}

/// A scheduled timeout, to cancel it by.
#[derive(Debug)]
pub struct Timeout {
    /// The key of its entry.
    pub key: usize,
    /// The tick that it is due at; a cancellation has to name it.
    pub tick: u64,
}

pub type TimerResult = Result<Timeout, TimerError>;

/// Why a timeout was not scheduled.
#[derive(Debug)]
pub struct TimerError {
    kind: TimerErrorKind,
    desc: &'static str,
}

#[derive(Debug)]
pub enum TimerErrorKind {
    TimerOverflow,
}

impl TimerError {
    /// The timer holds as many entries as it can.
    pub closed spec fn is_overflow(&self) -> bool {
        &&& self.kind is TimerOverflow
        &&& self.desc@ == "too many timer entries"@
    }

    fn overflow() -> (e: TimerError)
        ensures
            e.is_overflow(),
    {
        TimerError { kind: TimerErrorKind::TimerOverflow, desc: "too many timer entries" }
    }
}

struct Entry<T> {
    token: T,
    interval: u64,
    link: EntryLink,
}

#[derive(Copy, Clone, Debug)]
struct EntryLink {
    tick: u64,
    prev: usize,
    next: usize,
}

impl<T> Entry<T> {
    fn new(token: T, interval: u64, tick: u64, next: usize) -> (r: Entry<T>)
        ensures
            r == (Entry { token, interval, link: EntryLink { tick, prev: EMPTY, next } }),
    {
        Entry { token, interval, link: EntryLink { tick, prev: EMPTY, next } }
    }
}

/// Why a reading of the system clock is of no use.
#[derive(Debug)]
pub enum ClockError {
    /// The clock stands before the Unix epoch.
    BeforeEpoch,
    /// The reading does not fit the arithmetic of the timer.
    OutOfRange,
}

/// `std::time::SystemTime::elapsed` on the Unix epoch, in ms: nothing is claimed
/// of a clock reading. `None` where the clock stands before the epoch.
#[verifier::external_body]
fn elapsed_since_epoch() -> (r: Option<u128>) {
    std::time::UNIX_EPOCH.elapsed().ok().map(|d| d.as_millis())
}

/// The time in ms that a clock reading stands for.
pub open spec fn clock_reading(elapsed: Option<u128>) -> Result<u64, ClockError> {
    match elapsed {
        None => Err(ClockError::BeforeEpoch),
        Some(ms) => if ms <= u64::MAX {
            Ok(ms as u64)
        } else {
            Err(ClockError::OutOfRange)
        },
    }
}

/// The time in ms that a clock reading stands for.
pub fn clock_ms(elapsed: Option<u128>) -> (r: Result<u64, ClockError>)
    ensures
        r == clock_reading(elapsed),
{
    match elapsed {
        None => Err(ClockError::BeforeEpoch),
        Some(ms) => if ms <= u64::MAX as u128 {
            Ok(ms as u64)
        } else {
            Err(ClockError::OutOfRange)
        },
    }
}

/// The present, in ms since the epoch.
pub(crate) fn now_ms() -> Result<u64, ClockError> {
    clock_ms(elapsed_since_epoch())
}

/// The first power of two not below `n`, counting up from the power `p`.
pub open spec fn doubled_to(p: nat, n: nat) -> nat
    decreases
            (if p < n {
                n - p
            } else {
                0
            }),
{
    if p == 0 || p >= n {
        p
    } else {
        doubled_to(2 * p, n)
    }
}

/// The smallest power of two that is not below `n`.
pub open spec fn power_of_two_above(n: nat) -> nat {
    doubled_to(1, n)
}

proof fn lemma_doubled_to(p: nat, n: nat)
    ensures
        doubled_to(p, n) >= p,
    decreases
            (if p < n {
                n - p
            } else {
                0
            }),
{
    if 0 < p < n {
        lemma_doubled_to(2 * p, n);
    }
}

fn next_power_of_two(n: usize) -> (r: usize)
    requires
        power_of_two_above(n as nat) <= usize::MAX,
    ensures
        r == power_of_two_above(n as nat),
        r > 0,
        exists|e: nat| r == pow2(e),
{
    let mut p: usize = 1;
    let ghost mut e: nat = 0;
    proof {
        lemma2_to64();
    }
    while p < n
        invariant
            p > 0,
            p == pow2(e),
            doubled_to(p as nat, n as nat) == power_of_two_above(n as nat),
            power_of_two_above(n as nat) <= usize::MAX,
        decreases
                (if p < n {
                    n - p
                } else {
                    0
                }),
    {
        proof {
            lemma_doubled_to(2 * p as nat, n as nat);
            lemma_pow2_unfold(e + 1);
            e = e + 1;
        }
        p = 2 * p;
    }
    p
}

/// As many values as `n`, rounded up to a power of two, fit into memory at `unit` bytes
/// each.
pub open spec fn fits(n: nat, unit: nat) -> bool {
    power_of_two_above(n) * unit <= isize::MAX
}

/// Whether as many values as `n`, rounded up to a power of two, fit into memory at `unit`
/// bytes each.
pub fn rounded_fits(n: usize, unit: usize) -> (r: bool)
    requires
        unit > 0,
    ensures
        r == fits(n as nat, unit as nat),
{
    let most: usize = isize::MAX as usize / unit;
    let mut p: usize = 1;
    while p < n
        invariant
            p > 0,
            unit > 0,
            most == isize::MAX as usize / unit,
            doubled_to(p as nat, n as nat) == power_of_two_above(n as nat),
        decreases
                (if p < n {
                    n - p
                } else {
                    0
                }),
    {
        proof {
            lemma_doubled_to(2 * p as nat, n as nat);
        }
        if p > most / 2 {
            proof {
                lemma_too_many(power_of_two_above(n as nat) as int, unit as int, most as int);
            }
            return false;
        }
        p = 2 * p;
    }
    proof {
        if p <= most {
            lemma_few_enough(p as int, unit as int, most as int);
        } else {
            lemma_too_many(p as int, unit as int, most as int);
        }
    }
    p <= most
}

proof fn lemma_too_many(p: int, unit: int, most: int)
    by (nonlinear_arith)
    requires
        unit > 0,
        most == isize::MAX as int / unit,
        p > most,
    ensures
        p * unit > isize::MAX,
{
}

proof fn lemma_few_enough(p: int, unit: int, most: int)
    by (nonlinear_arith)
    requires
        unit > 0,
        most == isize::MAX as int / unit,
        p <= most,
    ensures
        p * unit <= isize::MAX,
{
}

/// What ties the wheel to its lists: the keys of each slot in list order, the
/// position of the cursor in the current slot's list, and the exponent of the
/// number of slots.
struct Chains {
    lists: Seq<Seq<usize>>,
    pos: int,
    bits: nat,
}

/// A timer wheel. `T` marks a timeout.
pub struct Timer<T> {
    // Length of a tick in ms.
    tick_ms: u64,
    entries: Slots<Entry<T>>,
    // The first entry of each slot's list.
    wheel: Vec<usize>,
    // The time of tick 0 in ms.
    start_ms: u64,
    // The current tick.
    tick: u64,
    // The next entry of the current slot to look at.
    next: usize,
    // Masks a tick to get its slot.
    mask: u64,
    chains: Ghost<Chains>,
}

/// The key at position `i` of a list, or `EMPTY` beyond its ends.
spec fn at(l: Seq<usize>, i: int) -> usize {
    if 0 <= i < l.len() {
        l[i]
    } else {
        EMPTY
    }
}

/// Node `i` of list `s` is `hole`, or is stored with the links that its place
/// demands.
spec fn node_ok<T>(e: Map<usize, Entry<T>>, lists: Seq<Seq<usize>>, s: int, i: int, hole: usize) -> bool {
    let k = lists[s][i];
    &&& k != EMPTY
    &&& k != hole ==> {
        &&& e.contains_key(k)
        &&& e[k].link.tick as int % lists.len() as int == s
        &&& e[k].link.prev == at(lists[s], i - 1)
        &&& e[k].link.next == at(lists[s], i + 1)
    }
}

/// Every node of the lists, but for `hole`, is stored with the links that its
/// place demands, and no list holds a key twice.
spec fn nodes_ok<T>(e: Map<usize, Entry<T>>, lists: Seq<Seq<usize>>, hole: usize) -> bool {
    &&& forall|s: int, i: int|
        0 <= s < lists.len() && 0 <= i < lists[s].len() ==> #[trigger] node_ok(e, lists, s, i, hole)
    &&& forall|s: int| 0 <= s < lists.len() ==> (#[trigger] lists[s]).no_duplicates()
}

/// Every entry stands in the list of its tick.
spec fn covered<T>(e: Map<usize, Entry<T>>, lists: Seq<Seq<usize>>) -> bool {
    forall|k: usize| #[trigger]
        e.contains_key(k) ==> lists[e[k].link.tick as int % lists.len() as int].contains(k)
}

/// The entries once the neighbours of a removed node point past it.
spec fn relinked<T>(e: Map<usize, Entry<T>>, link: EntryLink) -> Map<usize, Entry<T>> {
    let a = if link.prev == EMPTY {
        e
    } else {
        let p = e[link.prev];
        e.insert(link.prev, Entry { link: EntryLink { next: link.next, ..p.link }, ..p })
    };
    if link.next == EMPTY {
        a
    } else {
        let q = a[link.next];
        a.insert(link.next, Entry { link: EntryLink { prev: link.prev, ..q.link }, ..q })
    }
}

/// The entries once `entry` stands under `key` in front of its `next` node.
spec fn linked<T>(e: Map<usize, Entry<T>>, key: usize, entry: Entry<T>) -> Map<usize, Entry<T>> {
    let a = e.insert(key, entry);
    if entry.link.next == EMPTY {
        a
    } else {
        let q = a[entry.link.next];
        a.insert(entry.link.next, Entry { link: EntryLink { prev: key, ..q.link }, ..q })
    }
}

/// Putting a node in front of a list keeps the others in order.
proof fn lemma_link_nodes<T>(e: Map<usize, Entry<T>>, lists: Seq<Seq<usize>>, key: usize, entry: Entry<T>)
    requires
        nodes_ok(e, lists, EMPTY),
        covered(e, lists),
        lists.len() > 0,
        key != EMPTY,
        !e.contains_key(key),
        entry.link.prev == EMPTY,
        entry.link.next == at(lists[entry.link.tick as int % lists.len() as int], 0),
    ensures
        ({
            let s = entry.link.tick as int % lists.len() as int;
            let lists1 = lists.update(s, seq![key] + lists[s]);
            &&& nodes_ok(linked(e, key, entry), lists1, EMPTY)
            &&& covered(linked(e, key, entry), lists1)
            &&& entry.link.next != EMPTY ==> e.contains_key(entry.link.next)
        }),
{
    let s = entry.link.tick as int % lists.len() as int;
    let l = lists[s];
    let l1 = seq![key] + l;
    let lists1 = lists.update(s, l1);
    let e1 = linked(e, key, entry);
    if l.len() > 0 {
        assert(node_ok(e, lists, s, 0, EMPTY));
    }
    assert forall|t: int, j: int| 0 <= t < lists1.len() && 0 <= j < lists1[t].len() implies #[trigger] node_ok(
        e1,
        lists1,
        t,
        j,
        EMPTY,
    ) by {
        if t == s && j > 0 {
            assert(node_ok(e, lists, s, j - 1, EMPTY));
            assert(l.no_duplicates());
        } else if t != s {
            assert(node_ok(e, lists, t, j, EMPTY));
        }
    }
    assert forall|t: int| 0 <= t < lists1.len() implies (#[trigger] lists1[t]).no_duplicates() by {
        assert(lists[t].no_duplicates());
        if t == s {
            assert forall|j: int| 0 <= j < l.len() implies l[j] != key by {
                assert(node_ok(e, lists, s, j, EMPTY));
            }
        }
    }
    assert forall|k: usize| #[trigger] e1.contains_key(k) implies lists1[e1[k].link.tick as int
        % lists1.len() as int].contains(k) by {
        if k == key {
            assert(l1[0] == key);
        } else {
            assert(e.contains_key(k));
            let t = e[k].link.tick as int % lists.len() as int;
            assert(lists[t].contains(k));
            let j = choose|j: int| 0 <= j < lists[t].len() && lists[t][j] == k;
            if t == s {
                assert(l1[j + 1] == k);
            } else {
                assert(lists1[t][j] == k);
            }
        }
    }
}

/// Taking a node out of a list keeps the others in order.
proof fn lemma_unlink_nodes<T>(e: Map<usize, Entry<T>>, lists: Seq<Seq<usize>>, i: int, key: usize, link: EntryLink)
    requires
        nodes_ok(e, lists, key),
        covered(e, lists),
        lists.len() > 0,
        !e.contains_key(key),
        hole_at(lists, i, key, link),
    ensures
        ({
            let s = link.tick as int % lists.len() as int;
            let lists1 = lists.update(s, lists[s].remove(i));
            &&& nodes_ok(relinked(e, link), lists1, EMPTY)
            &&& covered(relinked(e, link), lists1)
            &&& link.prev == EMPTY <==> i == 0
            &&& link.prev != EMPTY ==> e.contains_key(link.prev)
            &&& link.next != EMPTY ==> e.contains_key(link.next)
            &&& link.prev != EMPTY ==> link.prev != link.next
        }),
{
    let s = link.tick as int % lists.len() as int;
    let l = lists[s];
    let l1 = l.remove(i);
    let lists1 = lists.update(s, l1);
    let e1 = relinked(e, link);
    assert(l.no_duplicates());
    assert(node_ok(e, lists, s, i, key));
    if i > 0 {
        assert(node_ok(e, lists, s, i - 1, key));
    }
    if i + 1 < l.len() {
        assert(node_ok(e, lists, s, i + 1, key));
    }
    assert forall|t: int, j: int| 0 <= t < lists1.len() && 0 <= j < lists1[t].len() implies #[trigger] node_ok(
        e1,
        lists1,
        t,
        j,
        EMPTY,
    ) by {
        let j0 = if t == s && j >= i {
            j + 1
        } else {
            j
        };
        let k = lists[t][j0];
        assert(node_ok(e, lists, t, j0, key));
        assert(lists[t].contains(k));
        assert(lists1[t][j] == k);
    }
    assert forall|t: int| 0 <= t < lists1.len() implies (#[trigger] lists1[t]).no_duplicates() by {
        assert(lists[t].no_duplicates());
    }
    assert forall|k: usize| #[trigger] e1.contains_key(k) implies lists1[e1[k].link.tick as int
        % lists1.len() as int].contains(k) by {
        assert(e.contains_key(k));
        let t = e[k].link.tick as int % lists.len() as int;
        assert(e1[k].link.tick == e[k].link.tick);
        assert(lists[t].contains(k));
        let j = choose|j: int| 0 <= j < lists[t].len() && lists[t][j] == k;
        let j1 = if t == s && j > i {
            j - 1
        } else {
            j
        };
        assert(lists1[t][j1] == k);
    }
}

impl<T> View for Timer<T> {
    type V = TimerState<T>;

    closed spec fn view(&self) -> TimerState<T> {
        let lists = self.chains@.lists;
        TimerState {
            tick_ms: self.tick_ms,
            start_ms: self.start_ms,
            limit: self.entries.limit(),
            peak: self.entries.peak(),
            free: self.entries.free(),
            entries: Map::new(
                |k: usize| self.entries@.contains_key(k),
                |k: usize|
                    TimerEntry {
                        token: self.entries@[k].token,
                        interval: self.entries@[k].interval,
                        tick: self.entries@[k].link.tick,
                    },
            ),
            lists,
            tick: self.tick,
            pending: lists[self.tick as int % lists.len() as int].skip(self.chains@.pos),
        }
    }
}

impl<T> Timer<T> {
    /// Everything that holds of a timer, except that the node `hole` of the
    /// lists may be absent from the entries.
    spec fn wf_but(&self, hole: usize) -> bool {
        let lists = self.chains@.lists;
        let n = lists.len() as int;
        let here = self.tick as int % n;
        &&& self.entries.wf()
        &&& n == self.wheel@.len() == pow2(self.chains@.bits)
        &&& n > 0
        &&& self.chains@.bits < 64
        &&& self.mask == low_bits_mask(self.chains@.bits)
        &&& nodes_ok(self.entries@, lists, hole)
        &&& forall|s: int| 0 <= s < n ==> #[trigger] self.wheel@[s] == at(lists[s], 0)
        &&& covered(self.entries@, lists)
        &&& 0 <= self.chains@.pos <= lists[here].len()
        &&& self.next == at(lists[here], self.chains@.pos)
    }

    /// The wheel's lists hold exactly the entries, each in the slot of its tick.
    pub closed spec fn wf(&self) -> bool {
        self.wf_but(EMPTY)
    }

    /// A timer whose ticks last `tick_ms`, for at least `cap` entries, with at
    /// least `slots` wheel slots; both counts are rounded up to a power of two.
    pub fn new(tick_ms: u64, slots: usize, cap: usize) -> (r: Timer<T>)
        requires
            power_of_two_above(slots as nat) * 8 <= isize::MAX,
            power_of_two_above(cap as nat) * 16 <= isize::MAX,
        ensures
            r.wf(),
            r@ == TimerState::<T>::fresh(tick_ms, slots, cap),
    {
        let slots: usize = next_power_of_two(slots);
        let cap: usize = next_power_of_two(cap);
        let ghost lists: Seq<Seq<usize>> = Seq::new(slots as nat, |s: int| Seq::empty());
        let ghost bits = choose|e: nat| slots == pow2(e);
        proof {
            if bits >= 64 {
                lemma2_to64();
                if bits > 64 {
                    lemma_pow2_strictly_increases(64, bits);
                }
            }
        }
        let r = Timer {
            tick_ms,
            entries: Slots::with_capacity(cap),
            wheel: vec![EMPTY; slots],
            start_ms: 0,
            tick: 0,
            next: EMPTY,
            mask: slots as u64 - 1,
            chains: Ghost(Chains { lists, pos: 0, bits }),
        };
        assert(r@.entries =~= Map::<usize, TimerEntry<T>>::empty());
        assert(r@.pending =~= Seq::empty());
        assert(lists =~= r@.lists);
        r
    }

    /// A timer's lists hold exactly its entries.
    pub proof fn law_valid(&self)
        requires
            self.wf(),
        ensures
            self@.valid(),
            self@.entries.dom().finite(),
            self@.entries.dom().len() <= self@.peak,
    {
        let st = self@;
        let n = st.lists.len() as int;
        assert forall|s: int, i: int| 0 <= s < n && 0 <= i < st.lists[s].len() implies #[trigger] st.holds(s, i) by {
            assert(node_ok(self.entries@, st.lists, s, i, EMPTY));
        }
        assert forall|k: usize| #[trigger] st.entries.contains_key(k) implies st.lists[st.slot(k)].contains(k) by {
            assert(self.entries@.contains_key(k));
        }
        assert(st.cursor_at(self.chains@.pos));
        self.entries.law_keys();
        assert(st.entries.dom() =~= self.entries@.dom());
    }

    fn slot_for(&self, tick: u64) -> (slot: usize)
        requires
            self.chains@.bits < 64,
            self.mask == low_bits_mask(self.chains@.bits),
            self.wheel@.len() == pow2(self.chains@.bits),
        ensures
            slot == tick as int % self.wheel@.len() as int,
            slot < self.wheel@.len(),
    {
        proof {
            let bits = self.chains@.bits;
            lemma_u64_low_bits_mask_is_mod(tick, bits);
            lemma_u64_pow2_no_overflow(bits);
            lemma_pow2_pos(bits);
            assert(self.wheel.len() == self.wheel@.len());
        }
        (tick & self.mask) as usize
    }

    /// Takes the entry under `key` out of the store and out of its list.
    #[verifier::spinoff_prover]
    fn take(&mut self, key: usize) -> (r: Option<Entry<T>>)
        requires
            old(self).wf(),
        ensures
            final(self).wf(),
            r is Some <==> old(self)@.entries.contains_key(key),
            match r {
                Some(entry) => {
                    &&& old(self)@.entries[key] == (TimerEntry {
                        token: entry.token,
                        interval: entry.interval,
                        tick: entry.link.tick,
                    })
                    &&& final(self)@ == old(self)@.removed(key)
                },
                None => final(self)@ == old(self)@,
            },
    {
        let ghost e0 = self.entries@;
        let ghost lists = self.chains@.lists;
        match self.entries.try_remove(key) {
            Some(entry) => {
                proof {
                    lemma_hole(e0, lists, key);
                }
                self.unlink(&entry.link, key);
                assert(self@.entries =~= old(self)@.entries.remove(key));
                Some(entry)
            },
            None => {
                assert(self.entries@ =~= old(self).entries@);
                None
            },
        }
    }

    /// Cancels a timeout, and tells whether it was still scheduled.
    pub fn clear(&mut self, timeout: Timeout) -> (r: bool)
        requires
            old(self).wf(),
        ensures
            final(self).wf(),
            old(self)@.cancelled(timeout, r, final(self)@),
    {
        if let Some(e) = self.entries.get(timeout.key) {
            if e.link.tick != timeout.tick {
                return false;
            }
        }
        match self.take(timeout.key) {
            Some(_) => true,
            None => false,
        }
    }

    /// Walks the wheel up to `now_tick` until an entry has come due; takes that
    /// one out and returns its mark and interval.
    pub fn tick_to(&mut self, now_tick: u64) -> (r: Option<(T, u64)>)
        requires
            old(self).wf(),
            now_tick < u64::MAX || !old(self)@.nothing_due(now_tick as int),
        ensures
            final(self).wf(),
            old(self)@.walked(now_tick as int, r, final(self)@),
    {
        let ghost st = self@;
        let ghost mut j: int = 0;
        assert(st.pending =~= st.pending.skip(0));
        while self.tick <= now_tick
            invariant
                self.wf(),
                st == old(self)@,
                now_tick < u64::MAX || !st.nothing_due(now_tick as int),
                st.tick <= self.tick,
                self.tick == st.tick || self.tick <= now_tick + 1,
                0 <= j <= st.visit(self.tick as int).len(),
                self@ == (TimerState {
                    tick: self.tick,
                    pending: st.visit(self.tick as int).skip(j),
                    ..st
                }),
                self.tick > now_tick ==> j == 0,
                forall|i: int| 0 <= i < j ==> !#[trigger] st.due(self.tick as int, i),
                forall|u: int, i: int| st.tick <= u < self.tick ==> !#[trigger] st.due(u, i),
            decreases now_tick + 1 - self.tick, st.visit(self.tick as int).len() - j,
        {
            let curr: usize = self.next;
            let ghost pend = self@.pending;
            let ghost lists = self.chains@.lists;
            let ghost here = self.tick as int % lists.len() as int;
            let ghost pos = self.chains@.pos;
            let ghost v = st.visit(self.tick as int);
            if curr == EMPTY {
                proof {
                    if pos < lists[here].len() {
                        assert(node_ok(self.entries@, lists, here, pos, EMPTY));
                    }
                    assert(pend.len() == 0);
                    assert(j == v.len());
                    assert forall|i: int| !#[trigger] st.due(self.tick as int, i) by {}
                    if self.tick == u64::MAX {
                        assert(st.nothing_due(now_tick as int));
                    }
                }
                self.tick = self.tick + 1;
                let slot: usize = self.slot_for(self.tick);
                self.next = self.wheel[slot];
                proof {
                    self.chains@ = Chains { pos: 0, ..self.chains@ };
                    j = 0;
                    assert(lists[slot as int].skip(0) =~= lists[slot as int]);
                    assert(self@ == (TimerState {
                        tick: self.tick,
                        pending: st.visit(self.tick as int).skip(0),
                        ..st
                    }));
                }
            } else {
                assert(node_ok(self.entries@, lists, here, pos, EMPTY));
                assert(pend == lists[here].skip(pos) && pend == v.skip(j));
                assert(pend.len() == lists[here].len() - pos && pend.len() == v.len() - j);
                assert(pend[0] == lists[here][pos] && pend[0] == v[j]);
                let link: EntryLink = match self.entries.get(curr) {
                    Some(e) => e.link,
                    None => EntryLink { tick: 0, prev: EMPTY, next: EMPTY },
                };
                if link.tick <= self.tick {
                    assert(st.due(self.tick as int, j));
                    assert(st.first_due(now_tick as int, self.tick as int, j));
                    proof {
                        assert(pend.no_duplicates()) by {
                            assert(lists[here].no_duplicates());
                        }
                        lemma_remove_value(pend, 0);
                        assert(pend.remove(0) =~= v.skip(j + 1));
                    }
                    let ghost t = self.tick as int;
                    assert(st.first_due(now_tick as int, t, j));
                    if let Some(entry) = self.take(curr) {
                        assert(self@ == st.fired(t, j));
                        let r = Some((entry.token, entry.interval));
                        assert(st.hands_out(now_tick as int, t, j, r->Some_0.0, r->Some_0.1, self@));
                        return r;
                    }
                } else {
                    self.next = link.next;
                    proof {
                        self.chains@ = Chains { pos: pos + 1, ..self.chains@ };
                        assert(lists[here].skip(pos + 1) =~= pend.skip(1));
                        assert(v.skip(j + 1) =~= pend.skip(1));
                        assert(!st.due(self.tick as int, j));
                        j = j + 1;
                    }
                }
            }
        }
        proof {
            let v = st.visit(self.tick as int);
            assert(v.skip(0) =~= v);
            assert forall|t: int, i: int| st.tick <= t <= now_tick implies !#[trigger] st.due(t, i) by {}
        }
        None
    }

    fn insert(&mut self, token: T, tick: u64, interval: u64) -> (r: TimerResult)
        requires
            old(self).wf(),
        ensures
            final(self).wf(),
            old(self)@.scheduled(tick as int, interval, token, r, final(self)@),
    {
        let capacity: usize = self.entries.capacity();
        self.insert_within(token, tick, interval, capacity)
    }

    /// Schedules a timeout for `tick` unless the timer already holds `capacity`
    /// entries.
    pub fn insert_within(&mut self, token: T, tick: u64, interval: u64, capacity: usize) -> (r: TimerResult)
        requires
            old(self).wf(),
        ensures
            final(self).wf(),
            old(self)@.scheduled_within(capacity, tick, interval, token, r, final(self)@),
    {
        assert(self@.entries.dom() =~= self.entries@.dom());
        let slot: usize = self.slot_for(tick);
        let curr: usize = self.wheel[slot];

        if self.entries.len() == capacity {
            return Err(TimerError::overflow());
        }
        let ghost e0 = self.entries@;
        let ghost lists = self.chains@.lists;
        let ghost s = slot as int;
        let ghost here = self.tick as int % lists.len() as int;
        let ghost entry = Entry { token, interval, link: EntryLink { tick, prev: EMPTY, next: curr } };

        let key: usize = self.entries.insert(Entry::new(token, interval, tick, curr));
        proof {
            lemma_link_nodes(e0, lists, key, entry);
        }
        if curr != EMPTY {
            if let Some(e) = self.entries.get_mut(curr) {
                e.link.prev = key;
            }
        }
        self.wheel.set(slot, key);
        proof {
            let pos = self.chains@.pos;
            let pos1 = if s == here {
                pos + 1
            } else {
                pos
            };
            self.chains@ = Chains {
                lists: lists.update(s, seq![key] + lists[s]),
                pos: pos1,
                ..self.chains@
            };
            assert(self.entries@ =~= linked(e0, key, entry));
            assert(self@.entries =~= old(self)@.inserted(key, TimerEntry { token, interval, tick }).entries);
            if s == here {
                assert((seq![key] + lists[s]).skip(pos + 1) =~= lists[s].skip(pos));
            }
        }
        Ok(Timeout { key, tick })
    }

    /// Schedules a timeout for time `at`, in ms.
    pub fn timeout_ms_at(&mut self, at: u64, interval: u64, token: T) -> (r: TimerResult)
        requires
            old(self).wf(),
            old(self)@.schedulable(at as int),
        ensures
            final(self).wf(),
            old(self)@.scheduled(old(self)@.tick_for(at as int), interval, token, r, final(self)@),
    {
        let at: u64 = at - self.start_ms;
        let mut tick: u64 = (at + self.tick_ms - 1) / self.tick_ms;
        proof {
            lemma_div_bound(at + self.tick_ms - 1, self.tick_ms as int);
        }
        if tick <= self.tick {
            tick = tick + 1;
        }
        self.insert(token, tick, interval)
    }

    /// Whether a timeout `delay` ms after `now` can be scheduled.
    pub fn is_schedulable(&self, now: u64, delay: u64) -> (r: bool)
        ensures
            r == self@.schedulable(now + delay),
    {
        self.tick_ms > 0 && now <= u64::MAX - delay && self.start_ms <= now + delay && now + delay - self.start_ms
            <= u64::MAX - self.tick_ms
    }

    /// Schedules a timeout `delay` ms after the time that `clock` reads. Nothing is
    /// scheduled where the reading is of no use.
    pub fn timeout_ms_with(
        &mut self,
        clock: Result<u64, ClockError>,
        delay: u64,
        interval: u64,
        token: T,
    ) -> (r: Result<TimerResult, ClockError>)
        requires
            old(self).wf(),
        ensures
            final(self).wf(),
            old(self)@.scheduled_by(clock, delay, interval, token, r, final(self)@),
    {
        match clock {
            Ok(now) => {
                if self.is_schedulable(now, delay) {
                    Ok(self.timeout_ms_at(now + delay, interval, token))
                } else {
                    Err(ClockError::OutOfRange)
                }
            },
            Err(e) => Err(e),
        }
    }

    /// Schedules a timeout `delay` ms from the present.
    pub fn timeout_ms(&mut self, delay: u64, interval: u64, token: T) -> (r: Result<TimerResult, ClockError>)
        requires
            old(self).wf(),
        ensures
            final(self).wf(),
            exists|clock: Result<u64, ClockError>| #[trigger]
                old(self)@.scheduled_by(clock, delay, interval, token, r, final(self)@),
    {
        let clock = now_ms();
        self.timeout_ms_with(clock, delay, interval, token)
    }

    /// Makes the time that `clock` reads the time of tick 0; the timer stays as it is where
    /// the reading is of no use.
    pub fn setup_with(&mut self, clock: Result<u64, ClockError>) -> (r: Result<(), ClockError>)
        requires
            old(self).wf(),
        ensures
            final(self).wf(),
            old(self)@.set_up(clock, r, final(self)@),
    {
        match clock {
            Ok(now) => {
                self.start_ms = now;
                Ok(())
            },
            Err(e) => Err(e),
        }
    }

    /// Makes the present the time of tick 0; the timer stays as it is where the clock
    /// reading is of no use.
    pub fn setup(&mut self) -> (r: Result<(), ClockError>)
        requires
            old(self).wf(),
        ensures
            final(self).wf(),
            exists|clock: Result<u64, ClockError>| #[trigger] old(self)@.set_up(clock, r, final(self)@),
    {
        let clock = now_ms();
        self.setup_with(clock)
    }

    /// The tick that time `ms` falls into.
    pub fn ms_to_tick(&self, ms: u64) -> (tick: u64)
        requires
            self@.tick_ms > 0,
            self@.start_ms <= ms,
        ensures
            tick == self@.tick_of(ms as int),
    {
        (ms - self.start_ms) / self.tick_ms
    }

    /// The tick that the time that `clock` reads falls into.
    pub fn now_tick_with(&self, clock: Result<u64, ClockError>) -> (r: Result<u64, ClockError>)
        requires
            self@.tick_ms > 0,
        ensures
            r == self@.tick_at(clock),
    {
        match clock {
            Ok(now) => {
                if self.start_ms <= now {
                    Ok(self.ms_to_tick(now))
                } else {
                    Err(ClockError::OutOfRange)
                }
            },
            Err(e) => Err(e),
        }
    }

    /// The tick that the present falls into.
    pub fn now_tick(&self) -> (r: Result<u64, ClockError>)
        requires
            self@.tick_ms > 0,
        ensures
            exists|clock: Result<u64, ClockError>| r == #[trigger] self@.tick_at(clock),
    {
        let clock = now_ms();
        self.now_tick_with(clock)
    }

    /// How many ms after the time that `clock` reads the next tick begins, if anything is
    /// scheduled.
    pub fn next_tick_in_ms_with(&self, clock: Result<u64, ClockError>) -> (r: Result<Option<u64>, ClockError>)
        requires
            self.wf(),
        ensures
            r == self@.next_tick_in(clock),
    {
        if self.count() == 0 {
            return Ok(None);
        }
        let now: u64 = match clock {
            Ok(now) => now,
            Err(e) => return Err(e),
        };
        if self.tick < u64::MAX {
            if let Some(span) = (self.tick + 1).checked_mul(self.tick_ms) {
                if let Some(nxt) = self.start_ms.checked_add(span) {
                    return Ok(
                        Some(
                            if nxt <= now {
                                0
                            } else {
                                nxt - now
                            },
                        ),
                    );
                }
            }
        }
        Err(ClockError::OutOfRange)
    }

    /// How many ms from the present the next tick begins, if anything is scheduled.
    pub fn next_tick_in_ms(&self) -> (r: Result<Option<u64>, ClockError>)
        requires
            self.wf(),
        ensures
            exists|clock: Result<u64, ClockError>| r == #[trigger] self@.next_tick_in(clock),
    {
        let clock = now_ms();
        self.next_tick_in_ms_with(clock)
    }

    /// The number of scheduled timeouts.
    pub fn count(&self) -> (n: usize)
        requires
            self.wf(),
        ensures
            n == self@.count(),
    {
        assert(self@.entries.dom() =~= self.entries@.dom());
        self.entries.len()
    }

    /// Takes node `key` out of its list. Its entry, which `link` is a copy of,
    /// has already left the store.
    fn unlink(&mut self, link: &EntryLink, key: usize)
        requires
            old(self).wf_but(key),
            key != EMPTY,
            !old(self).entries@.contains_key(key),
            exists|i: int| hole_at(old(self).chains@.lists, i, key, *link),
        ensures
            final(self).wf(),
            final(self)@ == (TimerState {
                lists: final(self)@.lists,
                pending: old(self)@.pending.remove_value(key),
                ..old(self)@
            }),
            ({
                let s = link.tick as int % old(self)@.lists.len() as int;
                final(self)@.lists == old(self)@.lists.update(s, old(self)@.lists[s].remove_value(key))
            }),
    {
        let slot: usize = self.slot_for(link.tick);
        let ghost lists = self.chains@.lists;
        let ghost i = choose|i: int| hole_at(lists, i, key, *link);
        let ghost s = slot as int;
        let ghost l = lists[s];
        let ghost here = self.tick as int % lists.len() as int;
        let ghost pos = self.chains@.pos;
        proof {
            lemma_unlink_nodes(self.entries@, lists, i, key, *link);
        }

        if link.prev == EMPTY {
            self.wheel.set(slot, link.next);
        } else if let Some(e) = self.entries.get_mut(link.prev) {
            e.link.next = link.next;
        }

        if link.next != EMPTY {
            if let Some(e) = self.entries.get_mut(link.next) {
                e.link.prev = link.prev;
            }
            if key == self.next {
                self.next = link.next;
            }
        } else if key == self.next {
            self.next = EMPTY;
        }
        proof {
            let pos1 = cursor_after(s, i, here, pos);
            lemma_unlink_cursor(lists, i, key, *link, here, pos);
            lemma_remove_value(l, i);
            self.chains@ = Chains { lists: lists.update(s, l.remove(i)), pos: pos1, ..self.chains@ };
            assert(self.entries@ =~= relinked(old(self).entries@, *link));
            assert forall|t: int| 0 <= t < lists.len() implies #[trigger] self.wheel@[t] == at(
                self.chains@.lists[t],
                0,
            ) by {
                assert(old(self).wheel@[t] == at(lists[t], 0));
            }
            assert(self@.entries =~= old(self)@.entries);
        }
    }
}

/// Node `i` of the list of `link.tick` is `key`, which stands in no other list,
/// and `link` holds the links of that place.
spec fn hole_at(lists: Seq<Seq<usize>>, i: int, key: usize, link: EntryLink) -> bool {
    let s = link.tick as int % lists.len() as int;
    &&& 0 <= i < lists[s].len()
    &&& lists[s][i] == key
    &&& link.prev == at(lists[s], i - 1)
    &&& link.next == at(lists[s], i + 1)
    &&& forall|t: int| 0 <= t < lists.len() && t != s ==> !(#[trigger] lists[t]).contains(key)
}

/// Once an entry has left the store, its node is the only one without an entry.
proof fn lemma_hole<T>(e: Map<usize, Entry<T>>, lists: Seq<Seq<usize>>, key: usize)
    requires
        nodes_ok(e, lists, EMPTY),
        covered(e, lists),
        lists.len() > 0,
        e.contains_key(key),
    ensures
        key != EMPTY,
        nodes_ok(e.remove(key), lists, key),
        covered(e.remove(key), lists),
        exists|i: int| hole_at(lists, i, key, e[key].link),
{
    let s = e[key].link.tick as int % lists.len() as int;
    assert(lists[s].contains(key));
    let i = choose|i: int| 0 <= i < lists[s].len() && lists[s][i] == key;
    assert(node_ok(e, lists, s, i, EMPTY));
    assert forall|t: int| 0 <= t < lists.len() && t != s implies !(#[trigger] lists[t]).contains(key) by {
        if lists[t].contains(key) {
            let j = choose|j: int| 0 <= j < lists[t].len() && lists[t][j] == key;
            assert(node_ok(e, lists, t, j, EMPTY));
        }
    }
    assert(hole_at(lists, i, key, e[key].link));
    assert forall|t: int, j: int| 0 <= t < lists.len() && 0 <= j < lists[t].len() implies #[trigger] node_ok(
        e.remove(key),
        lists,
        t,
        j,
        key,
    ) by {
        assert(node_ok(e, lists, t, j, EMPTY));
    }
}

proof fn lemma_div_bound(x: int, d: int)
    by (nonlinear_arith)
    requires
        x >= 0,
        d > 0,
    ensures
        0 <= x / d <= x,
{
}

/// Where the cursor of list `here` stands once node `i` of list `s` has left.
spec fn cursor_after(s: int, i: int, here: int, pos: int) -> int {
    if s == here && i < pos {
        pos - 1
    } else {
        pos
    }
}

/// The cursor keeps its node when another node leaves, and moves on to the next
/// one when its own does.
proof fn lemma_unlink_cursor(lists: Seq<Seq<usize>>, i: int, key: usize, link: EntryLink, here: int, pos: int)
    requires
        hole_at(lists, i, key, link),
        key != EMPTY,
        0 <= here < lists.len(),
        0 <= pos <= lists[here].len(),
        lists[here].no_duplicates(),
    ensures
        ({
            let s = link.tick as int % lists.len() as int;
            let l1 = lists.update(s, lists[s].remove(i))[here];
            let pos1 = cursor_after(s, i, here, pos);
            &&& 0 <= pos1 <= l1.len()
            &&& at(l1, pos1) == (if at(lists[here], pos) == key {
                link.next
            } else {
                at(lists[here], pos)
            })
            &&& l1.skip(pos1) == lists[here].skip(pos).remove_value(key)
        }),
{
    let s = link.tick as int % lists.len() as int;
    let l = lists[here];
    let l1 = lists.update(s, lists[s].remove(i))[here];
    let pos1 = cursor_after(s, i, here, pos);
    let p = l.skip(pos);
    p.index_of_first_ensures(key);
    if s == here && i >= pos {
        assert(p[i - pos] == key);
        lemma_remove_value(p, i - pos);
        assert(l1.skip(pos1) =~= p.remove(i - pos));
    } else {
        assert(!p.contains(key)) by {
            if p.contains(key) {
                let j = choose|j: int| 0 <= j < p.len() && p[j] == key;
                assert(l[pos + j] == key);
                assert(l.contains(key));
            }
        }
        assert(l1.skip(pos1) =~= p);
        if pos < l.len() {
            assert(p[0] == l[pos]);
            assert(p.contains(l[pos]));
        }
    }
}

/// Without duplicates, taking out a value is taking out its position.
proof fn lemma_remove_value(l: Seq<usize>, i: int)
    requires
        l.no_duplicates(),
        0 <= i < l.len(),
    ensures
        l.remove_value(l[i]) == l.remove(i),
{
    l.index_of_first_ensures(l[i]);
}

} // verus!
