//! The recycling pool, its scoped guard, and the capability trait stored
//! types must satisfy.

use vstd::prelude::*;

verus! {

/// Capability every type stored in an [`ObjectPool`] must provide: a way to
/// construct a fresh instance and a way to reset an existing instance back to
/// that same initial state in place.
pub trait Poolable: Sized {
    /// The initial state that `new` establishes and `reset` restores.
    spec fn initial_spec() -> Self;

    /// Create a new instance of the object, in its initial state.
    fn new() -> (r: Self)
        ensures
            r == Self::initial_spec(),
    ;

    /// Reset the object to its initial state.
    fn reset(&mut self)
        ensures
            *final(self) == Self::initial_spec(),
    ;
}

/// One step of a handle's journey through a pool, as far as the owned and
/// available counts are concerned.
pub enum PoolOp {
    /// A handle is requested.
    Get,
    /// An outstanding handle is given back.
    Release,
}

/// The pool's counts, `(owned, available)`, after a `get`, as a function of
/// the counts before it: a `get` either takes an available instance or, when
/// none is available, constructs one more.
pub open spec fn counts_after_get(counts: (nat, nat)) -> (nat, nat) {
    if counts.1 == 0 {
        (counts.0 + 1, counts.1)
    } else {
        (counts.0, (counts.1 - 1) as nat)
    }
}

/// The pool's counts, `(owned, available)`, after a `release`: one more
/// instance is available, and the pool owns what it owned.
pub open spec fn counts_after_release(counts: (nat, nat)) -> (nat, nat) {
    (counts.0, counts.1 + 1)
}

/// The pool's counts after one operation.
pub open spec fn counts_after_op(counts: (nat, nat), op: PoolOp) -> (nat, nat) {
    match op {
        PoolOp::Get => counts_after_get(counts),
        PoolOp::Release => counts_after_release(counts),
    }
}

/// The pool's counts after a sequence of `get` and `release` operations with
/// no interleaved `clear`, applied first to last.
pub open spec fn counts_after_ops(counts: (nat, nat), ops: Seq<PoolOp>) -> (nat, nat)
    decreases ops.len(),
{
    if ops.len() == 0 {
        counts
    } else {
        counts_after_ops(counts_after_op(counts, ops[0]), ops.drop_first())
    }
}

/// How many of the operations are a `get`.
pub open spec fn count_gets(ops: Seq<PoolOp>) -> nat
    decreases ops.len(),
{
    if ops.len() == 0 {
        0
    } else {
        (if ops[0] is Get {
            1nat
        } else {
            0nat
        }) + count_gets(ops.drop_first())
    }
}

/// How many of the operations are a `release`.
pub open spec fn count_releases(ops: Seq<PoolOp>) -> nat
    decreases ops.len(),
{
    if ops.len() == 0 {
        0
    } else {
        (if ops[0] is Release {
            1nat
        } else {
            0nat
        }) + count_releases(ops.drop_first())
    }
}

/// How many of the operations grow the pool's storage: the `get`s that find
/// no instance available.
pub open spec fn growth_events(counts: (nat, nat), ops: Seq<PoolOp>) -> nat
    decreases ops.len(),
{
    if ops.len() == 0 {
        0
    } else {
        (if ops[0] is Get && counts.1 == 0 {
            1nat
        } else {
            0nat
        }) + growth_events(counts_after_op(counts, ops[0]), ops.drop_first())
    }
}

/// Counting law for any sequence of `get` and `release` operations with no
/// interleaved `clear`: the owned count grows by exactly the storage-growth
/// events, and the available count after the sequence equals the count
/// before, plus the releases, minus those `get`s that did not grow storage —
/// stated without subtraction as
/// `available' + gets == available + releases + growth events`.
pub proof fn lemma_counts_after_ops(counts: (nat, nat), ops: Seq<PoolOp>)
    ensures
        counts_after_ops(counts, ops).0 == counts.0 + growth_events(counts, ops),
        counts_after_ops(counts, ops).1 + count_gets(ops) == counts.1 + count_releases(ops)
            + growth_events(counts, ops),
    decreases ops.len(),
{
    if ops.len() > 0 {
        lemma_counts_after_ops(counts_after_op(counts, ops[0]), ops.drop_first());
    }
}

/// A pool that owns a growable sequence of constructed instances and hands
/// out handles — indices into that sequence — to instances available for
/// reuse.  Raw variant: callers `get` and `release` handles themselves.
pub struct ObjectPool<T: Poolable> {
    items: Vec<T>,
    available: Vec<usize>,
}

impl<T: Poolable> ObjectPool<T> {
    /// The instances this pool owns, in construction order.
    pub closed spec fn storage(&self) -> Seq<T> {
        self.items@
    }

    /// The handles currently eligible for reuse, oldest first.
    pub closed spec fn free_list(&self) -> Seq<usize> {
        self.available@
    }

    /// Every free handle refers to an owned instance, and no handle is free
    /// twice at once.
    pub open spec fn wf(&self) -> bool {
        &&& forall|i: int|
            0 <= i < self.free_list().len() ==> (#[trigger] self.free_list()[i])
                < self.storage().len()
        &&& forall|i: int, j: int|
            0 <= i < j < self.free_list().len() ==> self.free_list()[i] != self.free_list()[j]
    }

    /// Create a new, empty `ObjectPool`.
    pub fn new() -> (p: ObjectPool<T>)
        ensures
            p.wf(),
            p.storage().len() == 0,
            p.free_list().len() == 0,
    {
        ObjectPool { items: Vec::new(), available: Vec::new() }
    }

    /// Reserve a number of instances in the pool: construct `count` fresh
    /// instances, add them to the pool's storage, and make their handles
    /// available for reuse.  Both the owned count and the available count grow
    /// by exactly `count`, whatever the prior state of the pool.
    pub fn reserve(&mut self, count: usize)
        requires
            old(self).wf(),
        ensures
            final(self).wf(),
            final(self).storage().len() == old(self).storage().len() + count,
            final(self).free_list().len() == old(self).free_list().len() + count,
            forall|i: int|
                0 <= i < old(self).storage().len() ==> #[trigger] final(self).storage()[i]
                    == old(self).storage()[i],
            forall|i: int|
                old(self).storage().len() <= i < final(self).storage().len()
                    ==> #[trigger] final(self).storage()[i] == T::initial_spec(),
            forall|i: int|
                0 <= i < old(self).free_list().len() ==> #[trigger] final(self).free_list()[i]
                    == old(self).free_list()[i],
            forall|k: int|
                0 <= k < count ==> #[trigger] final(self).free_list()[old(self).free_list().len()
                    + k] == old(self).storage().len() + k,
    {
        let mut k: usize = 0;
        while k < count
            invariant
                k <= count,
                self.wf(),
                self.storage().len() == old(self).storage().len() + k,
                self.free_list().len() == old(self).free_list().len() + k,
                forall|i: int|
                    0 <= i < old(self).storage().len() ==> #[trigger] self.storage()[i] == old(
                        self,
                    ).storage()[i],
                forall|i: int|
                    old(self).storage().len() <= i < self.storage().len()
                        ==> #[trigger] self.storage()[i] == T::initial_spec(),
                forall|i: int|
                    0 <= i < old(self).free_list().len() ==> #[trigger] self.free_list()[i] == old(
                        self,
                    ).free_list()[i],
                forall|j: int|
                    0 <= j < k ==> #[trigger] self.free_list()[old(self).free_list().len() + j]
                        == old(self).storage().len() + j,
            decreases count - k,
        {
            let handle = self.items.len();
            self.items.push(T::new());
            self.available.push(handle);
            k = k + 1;
        }
    }

    /// Get a handle to an instance from the pool.  If a handle is available,
    /// the most recently freed one is handed out again, without resetting the
    /// instance; otherwise exactly one fresh instance is constructed, added to
    /// storage, and its handle returned directly.  Never fails: under
    /// sustained demand the pool grows without bound.
    pub fn get(&mut self) -> (handle: usize)
        requires
            old(self).wf(),
        ensures
            final(self).wf(),
            handle < final(self).storage().len(),
            !final(self).free_list().contains(handle),
            (final(self).storage().len() as nat, final(self).free_list().len() as nat)
                == counts_after_get(
                (old(self).storage().len() as nat, old(self).free_list().len() as nat),
            ),
            // a miss constructs one instance; the free list stays empty
            old(self).free_list().len() == 0 ==> {
                &&& handle == old(self).storage().len()
                &&& final(self).storage() == old(self).storage().push(T::initial_spec())
                &&& final(self).storage().len() == old(self).storage().len() + 1
                &&& final(self).free_list() == old(self).free_list()
            },
            // a hit reuses the most recently freed handle; storage is untouched
            old(self).free_list().len() > 0 ==> {
                &&& handle == old(self).free_list().last()
                &&& final(self).storage() == old(self).storage()
                &&& final(self).free_list() == old(self).free_list().drop_last()
                &&& final(self).free_list().len() == old(self).free_list().len() - 1
            },
    {
        if self.available.is_empty() {
            let handle = self.items.len();
            self.items.push(T::new());
            handle
        } else {
            let handle = self.available.pop().unwrap();
            proof {
                let fl = old(self).free_list();
                assert forall|i: int| 0 <= i < fl.len() - 1 implies self.free_list()[i] != handle
                by {
                    assert(fl[i] != fl[fl.len() - 1]);
                }
            }
            handle
        }
    }

    /// Release a handle back to the pool: reset the instance it refers to,
    /// then make the handle available for reuse again.  The handle must be
    /// outstanding — obtained from this pool and not currently free.
    pub fn release(&mut self, handle: usize)
        requires
            old(self).wf(),
            handle < old(self).storage().len(),
            !old(self).free_list().contains(handle),
        ensures
            final(self).wf(),
            final(self).storage() == old(self).storage().update(
                handle as int,
                T::initial_spec(),
            ),
            final(self).storage().len() == old(self).storage().len(),
            final(self).free_list() == old(self).free_list().push(handle),
            final(self).free_list().len() == old(self).free_list().len() + 1,
            (final(self).storage().len() as nat, final(self).free_list().len() as nat)
                == counts_after_release(
                (old(self).storage().len() as nat, old(self).free_list().len() as nat),
            ),
    {
        let item = &mut self.items[handle];
        item.reset();
        self.available.push(handle);
        proof {
            let fl = old(self).free_list();
            assert forall|i: int| 0 <= i < fl.len() implies fl[i] != handle by {
                assert(fl[i] == handle ==> fl.contains(handle));
            }
        }
    }

    /// Clear the pool completely: discard every owned instance and every free
    /// handle.  Any handle a caller still holds no longer refers to anything
    /// this pool owns.
    pub fn clear(&mut self)
        ensures
            final(self).wf(),
            final(self).storage().len() == 0,
            final(self).free_list().len() == 0,
    {
        self.items.clear();
        self.available.clear();
    }

    /// Release every instance back to the pool: reset each owned instance and
    /// rebuild the free list so that every instance is available again,
    /// whether or not its handle had been released individually.  Any handle a
    /// caller still holds must be treated as returned.
    pub fn release_all(&mut self)
        ensures
            final(self).wf(),
            final(self).storage().len() == old(self).storage().len(),
            forall|i: int|
                0 <= i < final(self).storage().len() ==> #[trigger] final(self).storage()[i]
                    == T::initial_spec(),
            final(self).free_list().len() == final(self).storage().len(),
            forall|k: int|
                0 <= k < final(self).free_list().len() ==> #[trigger] final(self).free_list()[k]
                    == k,
    {
        self.available.clear();
        let n = self.items.len();
        let mut i: usize = 0;
        while i < n
            invariant
                i <= n,
                n == self.storage().len(),
                self.storage().len() == old(self).storage().len(),
                self.free_list().len() == i,
                forall|j: int|
                    0 <= j < i ==> #[trigger] self.storage()[j] == T::initial_spec(),
                forall|k: int| 0 <= k < i ==> #[trigger] self.free_list()[k] == k,
            decreases n - i,
        {
            let item = &mut self.items[i];
            item.reset();
            self.available.push(i);
            i = i + 1;
        }
    }

    /// Get a shared reference to the instance a handle refers to.
    pub fn item(&self, handle: usize) -> (r: &T)
        requires
            handle < self.storage().len(),
        ensures
            *r == self.storage()[handle as int],
    {
        &self.items[handle]
    }

    /// Get a mutable reference to the instance a handle refers to.  Storage
    /// keeps ownership; only the referenced instance changes.
    pub fn item_mut(&mut self, handle: usize) -> (r: &mut T)
        requires
            handle < old(self).storage().len(),
        ensures
            *r == old(self).storage()[handle as int],
            final(self).storage() == old(self).storage().update(handle as int, *final(r)),
            final(self).storage().len() == old(self).storage().len(),
            final(self).free_list() == old(self).free_list(),
            old(self).wf() ==> final(self).wf(),
    {
        &mut self.items[handle]
    }

    /// Get the number of instances owned by the pool.
    pub fn len(&self) -> (n: usize)
        ensures
            n == self.storage().len(),
    {
        self.items.len()
    }

    /// Get the number of instances currently available for reuse.
    pub fn available(&self) -> (n: usize)
        ensures
            n == self.free_list().len(),
    {
        self.available.len()
    }
}

/// A guard around one handle lent out by an [`ObjectPool`].  The wrapped
/// instance is given back by consuming the guard with [`PoolBox::release`],
/// so a guard can return its handle at most once; [`PoolBox::extract`]
/// disarms the guard instead and transfers the release obligation to the
/// caller.
pub struct PoolBox<T: Poolable> {
    /// The wrapped handle; `None` once the guard has been disarmed by
    /// `extract`.
    pub item: Option<usize>,
    marker: core::marker::PhantomData<T>,
}

impl<T: Poolable> PoolBox<T> {
    /// The wrapped handle, or `None` after `extract`.
    pub closed spec fn handle(&self) -> Option<usize> {
        self.item
    }

    /// The wrapped handle refers to an instance `pool` owns and is not on its
    /// free list.
    pub open spec fn valid_for(&self, pool: ObjectPool<T>) -> bool {
        self.handle() matches Some(h) ==> h < pool.storage().len() && !pool.free_list().contains(
            h,
        )
    }

    /// Create a new `PoolBox` that wraps an instance taken from `pool`.
    pub fn new(pool: &mut ObjectPool<T>) -> (b: PoolBox<T>)
        requires
            old(pool).wf(),
        ensures
            final(pool).wf(),
            b.handle() is Some,
            b.valid_for(*final(pool)),
            b.handle()->0 < final(pool).storage().len(),
            old(pool).free_list().len() == 0 ==> {
                &&& b.handle()->0 == old(pool).storage().len()
                &&& final(pool).storage() == old(pool).storage().push(T::initial_spec())
                &&& final(pool).storage().len() == old(pool).storage().len() + 1
                &&& final(pool).free_list() == old(pool).free_list()
            },
            old(pool).free_list().len() > 0 ==> {
                &&& b.handle()->0 == old(pool).free_list().last()
                &&& final(pool).storage() == old(pool).storage()
                &&& final(pool).free_list() == old(pool).free_list().drop_last()
                &&& final(pool).free_list().len() == old(pool).free_list().len() - 1
            },
    {
        let handle = pool.get();
        PoolBox { item: Some(handle), marker: core::marker::PhantomData }
    }

    /// Get a reference to the wrapped instance.
    pub fn ref_item<'a>(&self, pool: &'a ObjectPool<T>) -> (r: &'a T)
        requires
            self.handle() is Some,
            self.handle()->0 < pool.storage().len(),
        ensures
            *r == pool.storage()[self.handle()->0 as int],
    {
        pool.item(self.item.unwrap())
    }

    /// Get a mutable reference to the wrapped instance.
    pub fn ref_mut_item<'a>(&self, pool: &'a mut ObjectPool<T>) -> (r: &'a mut T)
        requires
            self.handle() is Some,
            self.handle()->0 < old(pool).storage().len(),
        ensures
            *r == old(pool).storage()[self.handle()->0 as int],
            final(pool).storage() == old(pool).storage().update(
                self.handle()->0 as int,
                *final(r),
            ),
            final(pool).storage().len() == old(pool).storage().len(),
            final(pool).free_list() == old(pool).free_list(),
            old(pool).wf() ==> final(pool).wf(),
    {
        pool.item_mut(self.item.unwrap())
    }

    /// Extract the handle from the `PoolBox` without releasing it back to the
    /// pool: the guard is disarmed (its handle becomes the empty sentinel) and
    /// the caller takes over the obligation to release the returned handle.
    /// On a guard already disarmed, returns `None` and changes nothing.
    pub fn extract(&mut self) -> (handle: Option<usize>)
        ensures
            final(self).handle() is None,
            handle == old(self).handle(),
    {
        let handle = self.item;
        self.item = None;
        handle
    }

    /// Return the wrapped instance to `pool`, consuming the guard: the
    /// instance is reset and its handle made available again.  On a guard
    /// disarmed by `extract`, does nothing.  This is the guard's single exit
    /// back into the pool, so no handle can be returned through it twice.
    pub fn release(self, pool: &mut ObjectPool<T>)
        requires
            old(pool).wf(),
            self.valid_for(*old(pool)),
        ensures
            final(pool).wf(),
            self.handle() matches Some(h) ==> {
                &&& final(pool).storage() == old(pool).storage().update(
                    h as int,
                    T::initial_spec(),
                )
                &&& final(pool).free_list() == old(pool).free_list().push(h)
                &&& final(pool).storage().len() == old(pool).storage().len()
                &&& final(pool).free_list().len() == old(pool).free_list().len() + 1
            },
            self.handle() is None ==> {
                &&& final(pool).storage() == old(pool).storage()
                &&& final(pool).free_list() == old(pool).free_list()
            },
    {
        match self.item {
            Some(handle) => pool.release(handle),
            None => (),
        }
    }
}

/// Round-trip law: when an outstanding handle is released and an instance is
/// then requested with nothing in between, the very same handle comes back,
/// the instance it refers to is in its initial state, and the free list is as
/// it was before the release.
pub proof fn lemma_release_then_get_round_trip<T: Poolable>(
    before: ObjectPool<T>,
    released: ObjectPool<T>,
    after: ObjectPool<T>,
    handle: usize,
    reused: usize,
)
    requires
        before.wf(),
        handle < before.storage().len(),
        !before.free_list().contains(handle),
        // `released` stands to `before` as `release(handle)` ensures
        released.storage() == before.storage().update(handle as int, T::initial_spec()),
        released.free_list() == before.free_list().push(handle),
        // `after` and `reused` stand to `released` as `get()` ensures on a
        // non-empty free list
        reused == released.free_list().last(),
        after.storage() == released.storage(),
        after.free_list() == released.free_list().drop_last(),
    ensures
        reused == handle,
        after.storage()[reused as int] == T::initial_spec(),
        after.free_list() == before.free_list(),
{
    assert(before.free_list().push(handle).drop_last() =~= before.free_list());
}

/// A thin composition of an [`ObjectPool`] with the [`PoolBox`] guard: its
/// `get` hands out guards directly, so callers never pair pools and guards
/// themselves.
pub struct AutoReturnObjectPool<T: Poolable> {
    /// The owned pool.  Guards handed out by `get` are released back into it.
    pub pool: ObjectPool<T>,
}

impl<T: Poolable> AutoReturnObjectPool<T> {
    /// Create a new `AutoReturnObjectPool` around an empty pool.
    pub fn new() -> (p: AutoReturnObjectPool<T>)
        ensures
            p.pool.wf(),
            p.pool.storage().len() == 0,
            p.pool.free_list().len() == 0,
    {
        AutoReturnObjectPool { pool: ObjectPool::new() }
    }

    /// Get a `PoolBox` wrapping an instance from the owned pool.
    pub fn get(&mut self) -> (b: PoolBox<T>)
        requires
            old(self).pool.wf(),
        ensures
            final(self).pool.wf(),
            b.handle() is Some,
            b.valid_for(final(self).pool),
            b.handle()->0 < final(self).pool.storage().len(),
            old(self).pool.free_list().len() == 0 ==> {
                &&& b.handle()->0 == old(self).pool.storage().len()
                &&& final(self).pool.storage() == old(self).pool.storage().push(T::initial_spec())
                &&& final(self).pool.storage().len() == old(self).pool.storage().len() + 1
                &&& final(self).pool.free_list() == old(self).pool.free_list()
            },
            old(self).pool.free_list().len() > 0 ==> {
                &&& b.handle()->0 == old(self).pool.free_list().last()
                &&& final(self).pool.storage() == old(self).pool.storage()
                &&& final(self).pool.free_list() == old(self).pool.free_list().drop_last()
                &&& final(self).pool.free_list().len() == old(self).pool.free_list().len() - 1
            },
    {
        PoolBox::new(&mut self.pool)
    }
}

} // verus!
