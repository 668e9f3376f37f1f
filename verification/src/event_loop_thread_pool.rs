//! A pool of threads that each run an event loop: their names, and which of them is
//! next to get work.
use vstd::prelude::*;

verus! {

/// The character of a decimal digit.
pub open spec fn digit(d: nat) -> char {
    ('0' as u32 + d) as char
}

/// `n` in decimal notation.
pub open spec fn decimal(n: nat) -> Seq<char>
    decreases n,
{
    if n < 10 {
        seq![digit(n)]
    } else {
        decimal(n / 10).push(digit(n % 10))
    }
}

/// The text of a decimal digit.
fn digit_text(d: usize) -> (r: &'static str)
    requires
        d < 10,
    ensures
        r@ == seq![digit(d as nat)],
{
    proof {
        reveal_strlit("0");
        reveal_strlit("1");
        reveal_strlit("2");
        reveal_strlit("3");
        reveal_strlit("4");
        reveal_strlit("5");
        reveal_strlit("6");
        reveal_strlit("7");
        reveal_strlit("8");
        reveal_strlit("9");
    }
    let r = match d {
        0 => "0",
        1 => "1",
        2 => "2",
        3 => "3",
        4 => "4",
        5 => "5",
        6 => "6",
        7 => "7",
        8 => "8",
        _ => "9",
    };
    assert(r@ =~= seq![digit(d as nat)]);
    r
}

/// Appends `n` in decimal notation.
fn append_decimal(text: &mut String, n: usize)
    ensures
        final(text)@ == old(text)@ + decimal(n as nat),
    decreases n,
{
    if n >= 10 {
        append_decimal(text, n / 10);
    }
    text.append(digit_text(n % 10));
    assert(text@ =~= old(text)@ + decimal(n as nat));
}

/// A pool of threads `T`.
pub struct EventLoopThreadPool<T> {
    pub pool: Vec<T>,
    pub pool_name: String,
    /// How many threads there are to be.
    pub size: usize,
    /// How often a thread was asked for; the count starts over at its end.
    pub next: usize,
}

impl<T> Default for EventLoopThreadPool<T> {
    fn default() -> (r: Self)
        ensures
            r.is_idle(0, "EventLoopThread"@),
    {
        EventLoopThreadPool {
            pool: Vec::new(),
            pool_name: "EventLoopThread".to_owned(),
            size: 0,
            next: 0,
        }
    }
}

impl<T> EventLoopThreadPool<T> {
    /// None of the `size` threads of this pool runs yet.
    pub open spec fn is_idle(&self, size: usize, pool_name: Seq<char>) -> bool {
        &&& self.pool@ == Seq::<T>::empty()
        &&& self.pool_name@ == pool_name
        &&& self.size == size
        &&& self.next == 0
    }

    /// Asking for `size` threads makes `post` of this pool.
    pub open spec fn resized(&self, size: usize, post: &Self) -> bool {
        *post == (EventLoopThreadPool { size, ..*self })
    }

    /// Adding `thread` makes `post` of this pool.
    pub open spec fn joined(&self, thread: T, post: &Self) -> bool {
        &&& *post == (EventLoopThreadPool { pool: post.pool, ..*self })
        &&& post.pool@ == self.pool@.push(thread)
    }

    /// The name of the `i`-th thread.
    pub open spec fn name_of(&self, i: nat) -> Seq<char> {
        self.pool_name@ + seq!['-', '#'] + decimal(i)
    }

    /// The thread for whoever draws `ticket`.
    pub open spec fn turn_of(&self, ticket: int) -> T {
        self.pool@[ticket % self.size as int]
    }

    /// All threads run, and there is at least one.
    pub open spec fn is_running(&self) -> bool {
        0 < self.size <= self.pool@.len()
    }

    /// The thread whose turn it is runs.
    pub open spec fn has_next(&self) -> bool {
        self.size > 0 && (self.next as int % self.size as int) < self.pool@.len()
    }

    /// A pool of `size` threads, none of which runs yet.
    pub fn new(size: usize, pool_name: String) -> (r: Self)
        requires
            size > 0,
        ensures
            r.is_idle(size, pool_name@),
            r.pool_name == pool_name,
    {
        EventLoopThreadPool { pool: Vec::new(), pool_name, size, next: 0 }
    }

    /// Changes how many threads there are to be, as long as none runs.
    pub fn set_pool_size(&mut self, size: usize)
        requires
            old(self).pool@.len() == 0,
        ensures
            old(self).resized(size, final(self)),
    {
        self.size = size;
    }

    /// The name of the `i`-th thread.
    pub fn thread_name(&self, i: usize) -> (r: String)
        ensures
            r@ == self.name_of(i as nat),
    {
        let mut r = self.pool_name.clone();
        proof {
            reveal_strlit("-#");
        }
        r.append("-#");
        append_decimal(&mut r, i);
        assert(r@ =~= self.pool_name@ + seq!['-', '#'] + decimal(i as nat));
        r
    }

    /// Adds a thread that was started.
    pub fn add_thread(&mut self, thread: T)
        ensures
            old(self).joined(thread, final(self)),
    {
        self.pool.push(thread);
    }

    /// The thread for whoever draws `ticket`: the threads take turns.
    pub fn loop_for(&self, ticket: usize) -> (r: &T)
        requires
            self.size > 0,
            (ticket as int % self.size as int) < self.pool@.len(),
        ensures
            *r == self.turn_of(ticket as int),
    {
        &self.pool[ticket % self.size]
    }

    /// The thread `r` has its turn, which makes `post` of this pool.
    pub open spec fn takes_turn(&self, r: T, post: &Self) -> bool {
        &&& r == self.pool@[self.next as int % self.size as int]
        &&& *post == (EventLoopThreadPool {
            next: if self.next < usize::MAX {
                (self.next + 1) as usize
            } else {
                0
            },
            ..*self
        })
    }

    /// The next thread: the threads take turns.
    pub fn next_loop(&mut self) -> (r: &T)
        requires
            old(self).has_next(),
        ensures
            old(self).takes_turn(*r, final(self)),
    {
        let ticket: usize = self.next;
        self.next = if ticket < usize::MAX {
            ticket + 1
        } else {
            0
        };
        self.loop_for(ticket)
    }
}

/// The number that some decimal digits spell.
pub open spec fn digits_value(digits: Seq<char>) -> int
    decreases digits.len(),
{
    if digits.len() == 0 {
        0
    } else {
        digits_value(digits.drop_last()) * 10 + (digits.last() as int - '0' as int)
    }
}

/// Decimal notation spells the number, in digits alone, and begins with no 0 but for 0
/// itself.
pub proof fn law_decimal(n: nat)
    ensures
        digits_value(decimal(n)) == n,
        decimal(n).len() > 0,
        forall|i: int| 0 <= i < decimal(n).len() ==> '0' <= #[trigger] decimal(n)[i] <= '9',
        n > 0 ==> decimal(n)[0] != '0',
    decreases n,
{
    if n < 10 {
        assert(decimal(n).drop_last() =~= Seq::<char>::empty());
        assert(digits_value(decimal(n).drop_last()) == 0);
    } else {
        law_decimal(n / 10);
        assert(decimal(n).drop_last() =~= decimal(n / 10));
    }
}

/// A thread is named after its pool and its number, and no two threads of a pool have the
/// same name.
pub proof fn law_names_differ<T>(pool: &EventLoopThreadPool<T>, i: nat, j: nat)
    ensures
        pool.name_of(i).take(pool.pool_name@.len() as int) == pool.pool_name@,
        pool.name_of(i).skip(pool.pool_name@.len() as int).take(2) == seq!['-', '#'],
        digits_value(pool.name_of(i).skip(pool.pool_name@.len() as int + 2)) == i,
        i != j ==> pool.name_of(i) != pool.name_of(j),
{
    let k = pool.pool_name@.len() as int;
    law_decimal(i);
    law_decimal(j);
    assert(pool.name_of(i).take(k) =~= pool.pool_name@);
    assert(pool.name_of(i).skip(k).take(2) =~= seq!['-', '#']);
    assert(pool.name_of(i).skip(k + 2) =~= decimal(i));
    assert(pool.name_of(j).skip(k + 2) =~= decimal(j));
}

/// A pool that was just made has no threads, and those that are added stand in the order of
/// adding; neither that nor asking for another number of threads changes anything else.
pub proof fn law_pool_grows<T>(
    pool: &EventLoopThreadPool<T>,
    size: usize,
    pool_name: Seq<char>,
    more: usize,
    resized: &EventLoopThreadPool<T>,
    a: T,
    one: &EventLoopThreadPool<T>,
    b: T,
    two: &EventLoopThreadPool<T>,
)
    requires
        pool.is_idle(size, pool_name),
        pool.resized(more, resized),
        resized.joined(a, one),
        one.joined(b, two),
    ensures
        pool.pool@.len() == 0,
        pool.size == size,
        pool.next == 0,
        pool.pool_name@ == pool_name,
        two.pool@ == seq![a, b],
        two.size == more,
        two.pool_name@ == pool_name,
        two.next == 0,
{
    assert(two.pool@ =~= seq![a, b]);
}

/// Whoever draws one of the first tickets gets the thread of that number, and `size`
/// tickets later it is that thread's turn again.
pub proof fn law_turn_of_ticket<T>(pool: &EventLoopThreadPool<T>, ticket: int)
    requires
        pool.size > 0,
        ticket >= 0,
    ensures
        ticket < pool.size ==> pool.turn_of(ticket) == pool.pool@[ticket],
        pool.turn_of(ticket + pool.size) == pool.turn_of(ticket),
{
    let size = pool.size as int;
    assert((ticket + size) % size == ticket % size && (ticket < size ==> ticket % size == ticket)) by (nonlinear_arith)
        requires
            size > 0,
            ticket >= 0,
    ;
}

/// A turn goes to the thread that the count says, and is counted; the count starts over at
/// its end. Nothing else changes. Once all threads run, there is always one whose turn
/// it is.
pub proof fn law_turn_is_counted<T>(pre: &EventLoopThreadPool<T>, r: T, post: &EventLoopThreadPool<T>)
    requires
        pre.takes_turn(r, post),
    ensures
        r == pre.turn_of(pre.next as int),
        pre.next < usize::MAX ==> post.next == pre.next + 1,
        pre.next == usize::MAX ==> post.next == 0,
        *post == (EventLoopThreadPool { next: post.next, ..*pre }),
        pre.is_running() ==> pre.has_next() && post.has_next(),
        0 < pre.size <= pre.pool@.len() ==> pre.is_running(),
{
}

/// The threads of a fresh pool take turns: call number `k`, counted from 0, gets thread
/// number `k` modulo the size. Here `pools` is what becomes of the pool and `results`
/// what the calls return.
pub proof fn law_calls_take_turns<T>(pools: Seq<EventLoopThreadPool<T>>, results: Seq<T>, k: nat)
    requires
        pools.len() == results.len() + 1,
        pools[0].is_running(),
        pools[0].next == 0,
        forall|i: int| 0 <= i < results.len() ==> (#[trigger] pools[i]).takes_turn(results[i], &pools[i + 1]),
        k < results.len(),
        k <= usize::MAX,
    ensures
        results[k as int] == pools[0].pool@[k as int % pools[0].size as int],
{
    lemma_calls_counted(pools, results, k);
}

/// Any `size` calls in a row on a fresh pool, from call number `first` on, give each thread
/// once: call number `first + d` gives thread number `n`, and none of the others does.
pub proof fn law_each_thread_once<T>(
    pools: Seq<EventLoopThreadPool<T>>,
    results: Seq<T>,
    first: nat,
    n: int,
) -> (d: int)
    requires
        pools.len() == results.len() + 1,
        pools[0].is_running(),
        pools[0].next == 0,
        forall|i: int| 0 <= i < results.len() ==> (#[trigger] pools[i]).takes_turn(results[i], &pools[i + 1]),
        first + pools[0].size <= results.len(),
        first + pools[0].size <= usize::MAX + 1,
        0 <= n < pools[0].size,
    ensures
        0 <= d < pools[0].size,
        results[first + d] == pools[0].pool@[n],
        forall|e: int|
            #![trigger results[first + e]]
            0 <= e < pools[0].size ==> {
                let thread = (first + e) % pools[0].size as int;
                &&& results[first + e] == pools[0].pool@[thread]
                &&& thread == n <==> e == d
            },
{
    let size = pools[0].size as int;
    let d = law_turns(first as int, size, n);
    law_calls_take_turns(pools, results, (first + d) as nat);
    assert forall|e: int| #![trigger results[first + e]] 0 <= e < size implies {
        let thread = (first + e) % size;
        &&& results[first + e] == pools[0].pool@[thread]
        &&& thread == n <==> e == d
    } by {
        law_calls_take_turns(pools, results, (first + e) as nat);
        assert((first + e) % size == n ==> e == d);
    }
    d
}

/// The count of a fresh pool is the number of calls.
proof fn lemma_calls_counted<T>(pools: Seq<EventLoopThreadPool<T>>, results: Seq<T>, k: nat)
    requires
        pools.len() == results.len() + 1,
        pools[0].next == 0,
        forall|i: int| 0 <= i < results.len() ==> (#[trigger] pools[i]).takes_turn(results[i], &pools[i + 1]),
        k < results.len(),
        k <= usize::MAX,
    ensures
        pools[k as int] == (EventLoopThreadPool { next: k as usize, ..pools[0] }),
        pools[k as int].takes_turn(results[k as int], &pools[k as int + 1]),
    decreases k,
{
    if k > 0 {
        lemma_calls_counted(pools, results, (k - 1) as nat);
    }
}

/// The threads take turns: among any `size` tickets in a row there is one, and only one,
/// for each thread.
pub proof fn law_turns(first: int, size: int, n: int) -> (d: int)
    requires
        0 <= first,
        0 <= n < size,
    ensures
        0 <= d < size,
        (first + d) % size == n,
        forall|e: int| 0 <= e < size && #[trigger] ((first + e) % size) == n ==> e == d,
{
    let r = first % size;
    let d = if r <= n {
        n - r
    } else {
        n - r + size
    };
    let q = first / size;
    assert(first == q * size + r) by (nonlinear_arith)
        requires
            size > 0,
            q == first / size,
            r == first % size,
    ;
    assert forall|e: int| 0 <= e < size implies #[trigger] ((first + e) % size) == (if r + e < size {
        r + e
    } else {
        r + e - size
    }) by {
        let x = if r + e < size {
            r + e
        } else {
            r + e - size
        };
        let k = if r + e < size {
            q
        } else {
            q + 1
        };
        assert(first + e == k * size + x) by (nonlinear_arith)
            requires
                first == q * size + r,
                k == q && x == r + e || k == q + 1 && x == r + e - size,
        ;
        vstd::arithmetic::div_mod::lemma_fundamental_div_mod_converse(first + e, size, k, x);
    }
    assert((first + d) % size == n);
    d
}

} // verus!
