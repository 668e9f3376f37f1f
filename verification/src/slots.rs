//! A keyed store: values live under small integer keys that the `slab` crate
//! hands out and takes back.
//!
//! The slab itself holds no values, only keys; the values stand beside it in a vector.
//! So what has to be believed of the slab is how it deals with keys, and what
//! happens to the values is proved.
use slab::Slab;
use vstd::prelude::*;

verus! {

/// Declares `slab::Slab`: an opaque value to the verifier.
#[verifier::external_type_specification]
#[verifier::external_body]
#[verifier::reject_recursive_types(T)]
pub struct ExSlab<T>(slab::Slab<T>);

/// The keys that a slab holds.
pub uninterp spec fn slab_keys(s: Slab<()>) -> Set<usize>;

/// The capacity that a slab was created with.
pub uninterp spec fn slab_limit(s: Slab<()>) -> nat;

/// The keys that a slab held and has freed since, the one freed last in front.
pub uninterp spec fn slab_free(s: Slab<()>) -> Seq<usize>;

/// The most keys that a slab has held at once since it was created or drained: each of
/// them is still held, or free.
pub open spec fn slab_peak(s: Slab<()>) -> nat {
    slab_keys(s).len() + slab_free(s).len()
}

/// The key that follows, where `free` are the freed keys and `peak` keys were held at
/// once: the key freed last, or a new one.
pub open spec fn next_of(free: Seq<usize>, peak: nat) -> usize {
    if free.len() > 0 {
        free[0]
    } else {
        peak as usize
    }
}

/// The freed keys that are left once one more key is held.
pub open spec fn free_after_insert(free: Seq<usize>) -> Seq<usize> {
    if free.len() > 0 {
        free.skip(1)
    } else {
        free
    }
}

/// The most keys held at once, once one more key is held.
pub open spec fn peak_after_insert(free: Seq<usize>, peak: nat) -> nat {
    if free.len() > 0 {
        peak
    } else {
        peak + 1
    }
}

/// `slab::Slab::with_capacity`: an empty slab, created for `capacity` values.
///
/// A slot of a `Slab<()>` takes at most two words, so a `capacity` within the
/// bound below never exceeds what a `Vec` may allocate.
#[verifier::external_body]
fn slab_with_capacity(capacity: usize) -> (s: Slab<()>)
    requires
        capacity * 16 <= isize::MAX,
    ensures
        slab_keys(s) == Set::<usize>::empty(),
        slab_limit(s) == capacity,
        slab_free(s) == Seq::<usize>::empty(),
{
    Slab::with_capacity(capacity)
}

/// `slab::Slab::len`: the number of keys held.
#[verifier::external_body]
fn slab_len(s: &Slab<()>) -> (n: usize)
    ensures
        n == slab_keys(*s).len(),
{
    s.len()
}

/// `slab::Slab::capacity`: how many values the slab can hold before it
/// reallocates. The allocator may grant more than was asked for, so only lower
/// bounds are claimed: it can hold what it was created for, and what it has
/// held before.
#[verifier::external_body]
fn slab_capacity(s: &Slab<()>) -> (n: usize)
    ensures
        n >= slab_limit(*s),
        n >= slab_peak(*s),
{
    s.capacity()
}

/// `slab::Slab::vacant_key`: the key of the next insertion: the one freed last, or, where
/// none is free, the number of keys held. A key indexes a `Vec`, so it is below
/// `usize::MAX`.
#[verifier::external_body]
fn slab_vacant_key(s: &Slab<()>) -> (key: usize)
    ensures
        key == (if slab_free(*s).len() > 0 { slab_free(*s)[0] as nat } else { slab_keys(*s).len() }),
        key < usize::MAX,
{
    s.vacant_key()
}

/// `slab::Slab::insert`: occupies the vacant key and returns it. The key that was
/// freed last is used again first; where none is free, a new one follows the keys in
/// use, counting up from 0.
#[verifier::external_body]
fn slab_insert(s: &mut Slab<()>) -> (key: usize)
    ensures
        key == (if slab_free(*old(s)).len() > 0 { slab_free(*old(s))[0] as nat } else { slab_keys(*old(s)).len() }),
        key < usize::MAX,
        slab_keys(*final(s)) == slab_keys(*old(s)).insert(key),
        slab_limit(*final(s)) == slab_limit(*old(s)),
        slab_free(*final(s)) == free_after_insert(slab_free(*old(s))),
{
    s.insert(())
}

/// `slab::Slab::try_remove`: frees `key` if it is held, and tells whether it was. A
/// freed key goes in front of those freed before.
#[verifier::external_body]
fn slab_try_remove(s: &mut Slab<()>, key: usize) -> (r: Option<()>)
    ensures
        r is Some <==> slab_keys(*old(s)).contains(key),
        slab_keys(*final(s)) == slab_keys(*old(s)).remove(key),
        slab_limit(*final(s)) == slab_limit(*old(s)),
        r is Some ==> slab_free(*final(s)) == seq![key] + slab_free(*old(s)),
        r is None ==> slab_free(*final(s)) == slab_free(*old(s)),
{
    s.try_remove(key)
}

/// `slab::Slab::contains`: whether `key` is held.
#[verifier::external_body]
fn slab_contains(s: &Slab<()>, key: usize) -> (b: bool)
    ensures
        b == slab_keys(*s).contains(key),
{
    s.contains(key)
}

/// `slab::Slab::drain`: the slab holds no key any more, and hands them out from 0 again.
#[verifier::external_body]
fn slab_drain(s: &mut Slab<()>)
    ensures
        slab_keys(*final(s)) == Set::<usize>::empty(),
        slab_limit(*final(s)) == slab_limit(*old(s)),
        slab_free(*final(s)) == Seq::<usize>::empty(),
{
    s.drain();
}

/// The keys of `m` below `n`, in ascending order.
pub open spec fn keys_below<T>(m: Map<usize, T>, n: nat) -> Seq<usize>
    decreases n,
{
    if n == 0 {
        Seq::empty()
    } else {
        let rest = keys_below(m, (n - 1) as nat);
        let k = (n - 1) as usize;
        if n - 1 <= usize::MAX && m.contains_key(k) {
            rest.push(k)
        } else {
            rest
        }
    }
}

/// Where `m` has no key from `n` on, a higher bound adds none.
proof fn lemma_keys_below_same<T>(m: Map<usize, T>, n: nat, bound: nat)
    requires
        n <= bound,
        forall|k: usize| #[trigger] m.contains_key(k) ==> k < n,
    ensures
        keys_below(m, bound) == keys_below(m, n),
    decreases bound - n,
{
    if n < bound {
        lemma_keys_below_same(m, n, (bound - 1) as nat);
    }
}

/// The keys below a bound are listed in strictly ascending order, each once.
pub proof fn law_keys_ascend<T>(m: Map<usize, T>, n: nat)
    ensures
        forall|i: int, j: int|
            0 <= i < j < keys_below(m, n).len() ==> #[trigger] keys_below(m, n)[i] < #[trigger] keys_below(m, n)[j],
        forall|k: usize| #[trigger] keys_below(m, n).contains(k) <==> m.contains_key(k) && k < n,
    decreases n,
{
    if n > 0 {
        let rest = keys_below(m, (n - 1) as nat);
        let all = keys_below(m, n);
        law_keys_ascend(m, (n - 1) as nat);
        assert forall|k: usize| #[trigger] all.contains(k) <==> m.contains_key(k) && k < n by {
            if rest.contains(k) {
                let i = choose|i: int| 0 <= i < rest.len() && rest[i] == k;
                assert(all[i] == k);
            }
            if all.contains(k) {
                let i = choose|i: int| 0 <= i < all.len() && all[i] == k;
                if i < rest.len() {
                    assert(rest[i] == k);
                    assert(rest.contains(k));
                }
            }
            if m.contains_key(k) && k == n - 1 {
                assert(all[all.len() - 1] == k);
            }
        }
        assert forall|i: int, j: int| 0 <= i < j < all.len() implies #[trigger] all[i] < #[trigger] all[j] by {
            assert(rest.contains(all[i]));
        }
    }
}

/// Values of `T` under keys that a slab manages.
pub struct Slots<T> {
    keys: Slab<()>,
    items: Vec<Option<T>>,
}

impl<T> View for Slots<T> {
    type V = Map<usize, T>;

    closed spec fn view(&self) -> Map<usize, T> {
        Map::new(|k: usize| slab_keys(self.keys).contains(k), |k: usize| self.items@[k as int].unwrap())
    }
}

impl<T> Slots<T> {
    /// Exactly the held keys have a value. Each key below the most ever held at once is
    /// either held or free, and only those are.
    pub closed spec fn wf(&self) -> bool {
        let keys = slab_keys(self.keys);
        let free = slab_free(self.keys);
        &&& keys.finite()
        &&& slab_peak(self.keys) <= usize::MAX
        &&& forall|k: usize| #[trigger] keys.contains(k) ==> k < slab_peak(self.keys)
        &&& forall|i: int| 0 <= i < free.len() ==> (#[trigger] free[i]) < slab_peak(self.keys) && !keys.contains(free[i])
        &&& free.no_duplicates()
        &&& forall|k: usize| #[trigger]
            slab_keys(self.keys).contains(k) ==> k < self.items@.len() && self.items@[k as int] is Some
        &&& forall|k: usize|
            k < self.items@.len() && (#[trigger] self.items@[k as int]) is Some ==> slab_keys(self.keys).contains(k)
    }

    /// The keys below the most values ever held at once are those in use and those
    /// free, none twice; the next key is not in use, and below that number too once it
    /// is used.
    pub proof fn law_keys(&self)
        requires
            self.wf(),
        ensures
            self@.dom().finite(),
            self@.dom().len() + self.free().len() == self.peak(),
            forall|k: usize| #[trigger] self@.contains_key(k) ==> k < self.peak(),
            forall|i: int|
                0 <= i < self.free().len() ==> (#[trigger] self.free()[i]) < self.peak() && !self@.contains_key(
                    self.free()[i],
                ),
            self.free().no_duplicates(),
            !self@.contains_key(self.next_key()),
            self.next_key() < self.peak_after_insert(),
    {
        assert(self@.dom() =~= slab_keys(self.keys));
    }

    /// The number of values that the store was created for.
    pub closed spec fn limit(&self) -> nat {
        slab_limit(self.keys)
    }

    /// The most values that the store has held at once since it was created or drained.
    pub closed spec fn peak(&self) -> nat {
        slab_peak(self.keys)
    }

    /// The keys that were in use and are free again, the one freed last in front.
    pub closed spec fn free(&self) -> Seq<usize> {
        slab_free(self.keys)
    }

    /// The peak once one more value is stored.
    pub open spec fn peak_after_insert(&self) -> nat {
        peak_after_insert(self.free(), self.peak())
    }

    /// The key that the next insertion will use.
    pub open spec fn next_key(&self) -> usize {
        next_of(self.free(), self.peak())
    }

    /// The value under `key`, if there is one.
    pub open spec fn found(&self, key: usize) -> Option<T> {
        if self@.contains_key(key) {
            Some(self@[key])
        } else {
            None
        }
    }

    /// Storing `item` under `key` makes `post` of this store.
    pub open spec fn stored(&self, item: T, key: usize, post: &Self) -> bool {
        &&& key == self.next_key()
        &&& key < usize::MAX
        &&& !self@.contains_key(key)
        &&& post@ == self@.insert(key, item)
        &&& post.limit() == self.limit()
        &&& post.peak() == self.peak_after_insert()
        &&& post.free() == free_after_insert(self.free())
    }

    /// Freeing `key` gives `r`, and makes `post` of this store.
    pub open spec fn freed(&self, key: usize, r: Option<T>, post: &Self) -> bool {
        &&& r == self.found(key)
        &&& post@ == self@.remove(key)
        &&& post.limit() == self.limit()
        &&& post.peak() == self.peak()
        &&& r is Some ==> post.free() == seq![key] + self.free()
        &&& r is None ==> post.free() == self.free()
    }

    /// Taking all values out gives `r`, and makes `post` of this store.
    pub open spec fn emptied(&self, r: Seq<T>, post: &Self) -> bool {
        let keys = keys_below(self@, self.peak());
        &&& r.len() == keys.len()
        &&& forall|i: int| 0 <= i < r.len() ==> #[trigger] r[i] == self@[keys[i]]
        &&& post@ == Map::<usize, T>::empty()
        &&& post.limit() == self.limit()
        &&& post.peak() == 0
        &&& post.free() == Seq::<usize>::empty()
    }

    /// What is stored is found under its key and nowhere else, under a key that was not in
    /// use; it is taken out by that key, once, and the key is the next to be used then. No
    /// other value changes.
    pub proof fn law_stored_is_found(
        &self,
        item: T,
        key: usize,
        mid: &Self,
        first: Option<T>,
        post: &Self,
        second: Option<T>,
        last: &Self,
        other: usize,
    )
        requires
            self.stored(item, key, mid),
            mid.freed(key, first, post),
            post.freed(key, second, last),
            other != key,
        ensures
            self.found(key) is None,
            mid.found(key) == Some(item),
            first == Some(item),
            second is None,
            post.found(key) is None,
            post@ == self@,
            post.next_key() == key,
            mid.found(other) == self.found(other),
            post.found(other) == self.found(other),
            last.found(other) == self.found(other),
            last.next_key() == key,
    {
        assert(post@ =~= self@);
    }

    /// Taking all values out takes out each of them once, and leaves none; the keys begin
    /// with 0 again.
    pub proof fn law_all_taken_out(&self, r: Seq<T>, post: &Self, key: usize) -> (i: int)
        requires
            self.wf(),
            self.emptied(r, post),
        ensures
            post.found(key) is None,
            post.next_key() == 0,
            r.len() == self@.dom().len(),
            self@.contains_key(key) ==> 0 <= i < r.len() && r[i] == self@[key],
    {
        let keys = keys_below(self@, self.peak());
        self.law_keys();
        law_keys_ascend(self@, self.peak());
        assert(keys.no_duplicates());
        keys.unique_seq_to_set();
        assert(keys.to_set() =~= self@.dom()) by {
            assert forall|k: usize| #[trigger] keys.to_set().contains(k) <==> self@.contains_key(k) by {
                assert(keys.contains(k) <==> self@.contains_key(k) && k < self.peak());
            }
        }
        if self@.contains_key(key) {
            assert(keys.contains(key));
            choose|i: int| 0 <= i < keys.len() && keys[i] == key
        } else {
            0
        }
    }

    /// An empty store, created for `capacity` values.
    pub fn with_capacity(capacity: usize) -> (r: Self)
        requires
            capacity * 16 <= isize::MAX,
        ensures
            r.wf(),
            r@ == Map::<usize, T>::empty(),
            r.limit() == capacity,
            r.peak() == 0,
            r.free() == Seq::<usize>::empty(),
    {
        let r = Slots { keys: slab_with_capacity(capacity), items: Vec::new() };
        assert(r@ =~= Map::<usize, T>::empty());
        r
    }

    /// The number of values held.
    pub fn len(&self) -> (n: usize)
        requires
            self.wf(),
        ensures
            self@.dom().finite(),
            n == self@.dom().len(),
    {
        assert(self@.dom() =~= slab_keys(self.keys));
        slab_len(&self.keys)
    }

    /// How many values the store can hold before it has to grow.
    pub fn capacity(&self) -> (n: usize)
        requires
            self.wf(),
        ensures
            n >= self.limit(),
            n >= self.peak(),
    {
        slab_capacity(&self.keys)
    }

    /// The key that the next insertion will use.
    pub fn vacant_key(&self) -> (key: usize)
        requires
            self.wf(),
        ensures
            key == self.next_key(),
            key < usize::MAX,
            !self@.contains_key(key),
    {
        proof {
            self.law_keys();
        }
        slab_vacant_key(&self.keys)
    }

    /// Stores `item` under a fresh key.
    pub fn insert(&mut self, item: T) -> (key: usize)
        requires
            old(self).wf(),
        ensures
            final(self).wf(),
            old(self).stored(item, key, final(self)),
    {
        proof {
            self.law_keys();
        }
        let key: usize = slab_insert(&mut self.keys);
        let ghost keys = self.keys;
        while self.items.len() <= key
            invariant
                self.keys == keys,
                key < usize::MAX,
                old(self).items@.len() <= self.items@.len(),
                forall|i: int| 0 <= i < old(self).items@.len() ==> self.items@[i] == old(self).items@[i],
                forall|i: int| old(self).items@.len() <= i < self.items@.len() ==> (#[trigger] self.items@[i]) is None,
            decreases key + 1 - self.items.len(),
        {
            self.items.push(None);
        }
        self.items.set(key, Some(item));
        assert(self@ =~= old(self)@.insert(key, item));
        key
    }

    /// Whether `key` is held.
    pub fn contains(&self, key: usize) -> (b: bool)
        requires
            self.wf(),
        ensures
            b == self@.contains_key(key),
    {
        slab_contains(&self.keys, key)
    }

    /// The value under `key`.
    pub fn get(&self, key: usize) -> (r: Option<&T>)
        requires
            self.wf(),
        ensures
            match r {
                Some(v) => self.found(key) == Some(*v),
                None => self.found(key) is None,
            },
    {
        if slab_contains(&self.keys, key) {
            self.items[key].as_ref()
        } else {
            None
        }
    }

    /// The value under `key`, to be changed in place.
    pub fn get_mut(&mut self, key: usize) -> (r: Option<&mut T>)
        requires
            old(self).wf(),
        ensures
            match r {
                Some(v) => old(self).found(key) == Some(*v) && final(self)@ == old(self)@.insert(key, *final(v)),
                None => old(self).found(key) is None && final(self)@ == old(self)@,
            },
            final(self).wf(),
            final(self).limit() == old(self).limit(),
            final(self).peak() == old(self).peak(),
            final(self).free() == old(self).free(),
    {
        if slab_contains(&self.keys, key) {
            self.items[key].as_mut()
        } else {
            None
        }
    }

    /// The keys held, in ascending order.
    pub fn keys(&self) -> (r: Vec<usize>)
        requires
            self.wf(),
        ensures
            r@ == keys_below(self@, self.peak()),
    {
        let mut r: Vec<usize> = Vec::new();
        let n: usize = self.items.len();
        let mut k: usize = 0;
        while k < n
            invariant
                self.wf(),
                k <= n == self.items@.len(),
                r@ == keys_below(self@, k as nat),
            decreases n - k,
        {
            if slab_contains(&self.keys, k) {
                r.push(k);
            }
            k = k + 1;
        }
        proof {
            self.lemma_keys_within(n as nat);
        }
        r
    }

    /// Any bound that no stored key reaches lists all of the keys.
    proof fn lemma_keys_within(&self, n: nat)
        requires
            self.wf(),
            forall|k: usize| #[trigger] self@.contains_key(k) ==> k < n,
        ensures
            keys_below(self@, n) == keys_below(self@, self.peak()),
    {
        self.law_keys();
        if n <= self.peak() {
            lemma_keys_below_same(self@, n, self.peak());
        } else {
            lemma_keys_below_same(self@, self.peak(), n);
        }
    }

    /// Takes all values out, in the order of their keys, and frees the keys.
    pub fn drain(&mut self) -> (r: Vec<T>)
        requires
            old(self).wf(),
        ensures
            final(self).wf(),
            old(self).emptied(r@, final(self)),
    {
        let mut r: Vec<T> = Vec::new();
        let n: usize = self.items.len();
        let ghost m = self@;
        let mut k: usize = 0;
        proof {
            self.lemma_keys_within(n as nat);
        }
        assert(keys_below(m, 0).map_values(|k: usize| m[k]) =~= Seq::<T>::empty());
        while k < n
            invariant
                old(self).wf(),
                m == old(self)@,
                self.keys == old(self).keys,
                k <= n == self.items@.len() == old(self).items@.len(),
                forall|i: int| k <= i < n ==> self.items@[i] == old(self).items@[i],
                r@ == keys_below(m, k as nat).map_values(|k: usize| m[k]),
            decreases n - k,
        {
            let ghost ks = keys_below(m, k as nat);
            if let Some(v) = self.items[k].take() {
                r.push(v);
                assert(old(self).items@[k as int] is Some);
                assert(m.contains_key(k));
                assert(ks.push(k).map_values(|k: usize| m[k]) =~= ks.map_values(|k: usize| m[k]).push(m[k]));
            }
            k = k + 1;
        }
        slab_drain(&mut self.keys);
        self.items.truncate(0);
        assert(self@ =~= Map::<usize, T>::empty());
        r
    }

    /// Takes the value under `key` out and frees the key.
    pub fn try_remove(&mut self, key: usize) -> (r: Option<T>)
        requires
            old(self).wf(),
        ensures
            final(self).wf(),
            old(self).freed(key, r, final(self)),
    {
        match slab_try_remove(&mut self.keys, key) {
            Some(_) => {
                let r = self.items[key].take();
                assert(self@ =~= old(self)@.remove(key));
                r
            },
            None => {
                assert(self@ =~= old(self)@.remove(key));
                None
            },
        }
    }
}

} // verus!
