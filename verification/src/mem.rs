//! The generation store: allocation and deallocation of value generations.
//!
//! Every generation a cell ever installs is allocated here and destroyed
//! here, when its reference count returns to zero. The store keeps the full
//! allocation history, so the balance between allocations and deallocations
//! is part of its view: a slot is `Some` while the generation is live and
//! `None` once it has been deallocated. Indices are never reused; each
//! generation is an independent allocation.

use vstd::prelude::*;

use vstd::multiset::Multiset;

use crate::value_ref::ValueRefInner;

verus! {

broadcast use vstd::multiset::group_multiset_axioms;

/// The mathematical model of one live generation: its payload and its
/// reference count.
pub struct Gen<T> {
    pub data: T,
    pub refs: nat,
}

/// Owns every generation allocated so far. A live generation sits at the
/// index its allocation returned; a deallocated one leaves `None` behind.
pub struct GenStore<T> {
    inners: Vec<ValueRefInner<T>>,
}

impl<T> View for GenStore<T> {
    type V = Seq<Option<Gen<T>>>;

    closed spec fn view(&self) -> Seq<Option<Gen<T>>> {
        self.inners@.map_values(
            |r: ValueRefInner<T>|
                if r@.refs >= 1 {
                    Some(r@)
                } else {
                    None
                },
        )
    }
}

impl<T> GenStore<T> {
    /// The generation at `i` has been allocated and not yet deallocated.
    pub open spec fn live(self, i: int) -> bool {
        &&& 0 <= i < self@.len()
        &&& self@[i] is Some
    }

    /// The generation at `i`, which must be live.
    pub open spec fn gen_at(self, i: int) -> Gen<T> {
        self@[i]->Some_0
    }

    /// How many generations have been allocated over the store's lifetime.
    pub open spec fn spec_allocations(self) -> nat {
        self@.len()
    }

    /// How many generations have been deallocated over the store's lifetime.
    pub open spec fn spec_deallocations(self) -> nat {
        (self@.len() - live_count(self@)) as nat
    }

    /// An empty store: nothing allocated yet.
    pub fn new() -> (r: Self)
        ensures
            r@ == Seq::<Option<Gen<T>>>::empty(),
    {
        let r = GenStore { inners: Vec::new() };
        proof {
            assert(r@ =~= Seq::<Option<Gen<T>>>::empty());
        }
        r
    }

    /// Allocates a fresh generation, returning its index. The generation
    /// carries the references its record already counts.
    pub fn allocate(&mut self, inner: ValueRefInner<T>) -> (i: usize)
        requires
            inner@.refs >= 1,
            old(self)@.len() < usize::MAX,
        ensures
            final(self)@ == old(self)@.push(Some(inner@)),
            i == old(self)@.len(),
    {
        let i = self.inners.len();
        self.inners.push(inner);
        proof {
            assert(self@ =~= old(self)@.push(Some(inner@)));
        }
        i
    }

    /// Raises the reference count of the live generation at `i` by one.
    pub fn inc_refs(&mut self, i: usize)
        requires
            old(self).live(i as int),
            old(self).gen_at(i as int).refs < 0xFFFF,
        ensures
            final(self)@ == old(self)@.update(
                i as int,
                Some(Gen { data: old(self).gen_at(i as int).data, refs: old(self).gen_at(i as int).refs + 1 }),
            ),
    {
        let g = &mut self.inners[i];
        g.add_ref();
        proof {
            assert(self@ =~= old(self)@.update(
                i as int,
                Some(Gen { data: old(self).gen_at(i as int).data, refs: old(self).gen_at(i as int).refs + 1 }),
            ));
        }
    }

    /// Lowers the reference count of the live generation at `i` by one,
    /// destroying the generation when this was the last reference.
    pub fn dec_refs(&mut self, i: usize) -> (freed: bool)
        requires
            old(self).live(i as int),
        ensures
            freed <==> old(self).gen_at(i as int).refs == 1,
            final(self)@ == if freed {
                old(self)@.update(i as int, None::<Gen<T>>)
            } else {
                old(self)@.update(
                    i as int,
                    Some(Gen {
                        data: old(self).gen_at(i as int).data,
                        refs: (old(self).gen_at(i as int).refs - 1) as nat,
                    }),
                )
            },
    {
        let g = &mut self.inners[i];
        let was_last = g.refs_value() == 1;
        if was_last {
            self.deallocate(i);
        } else {
            let g = &mut self.inners[i];
            g.remove_ref();
            proof {
                assert(self@ =~= old(self)@.update(
                    i as int,
                    Some(Gen {
                        data: old(self).gen_at(i as int).data,
                        refs: (old(self).gen_at(i as int).refs - 1) as nat,
                    }),
                ));
            }
        }
        was_last
    }

    /// Destroys the generation at `i`, whose last reference is being given
    /// up.
    pub fn deallocate(&mut self, i: usize)
        requires
            old(self).live(i as int),
            old(self).gen_at(i as int).refs == 1,
        ensures
            final(self)@ == old(self)@.update(i as int, None::<Gen<T>>),
    {
        let g = &mut self.inners[i];
        g.remove_ref();
        proof {
            assert(self@ =~= old(self)@.update(i as int, None::<Gen<T>>));
        }
    }

    /// Read-only access to the payload of the live generation at `i`.
    pub fn borrow_data(&self, i: usize) -> (r: &T)
        requires
            self.live(i as int),
        ensures
            *r == self.gen_at(i as int).data,
    {
        self.inners[i].data_ref()
    }

    /// The reference count of the live generation at `i`.
    pub fn refs_of(&self, i: usize) -> (r: u16)
        requires
            self.live(i as int),
        ensures
            r as nat == self.gen_at(i as int).refs,
    {
        self.inners[i].refs_value()
    }

    /// How many generations have been allocated over the store's lifetime.
    pub fn allocations(&self) -> (n: usize)
        ensures
            n == self.spec_allocations(),
    {
        self.inners.len()
    }
}

/// How many slots of a store view are still live.
pub open spec fn live_count<T>(s: Seq<Option<Gen<T>>>) -> nat
    decreases s.len(),
{
    if s.len() == 0 {
        0
    } else {
        live_count(s.drop_last()) + if s.last() is Some {
            1nat
        } else {
            0nat
        }
    }
}

impl<T> GenStore<T> {
    /// How many generations are still live.
    pub fn live_generations(&self) -> (n: usize)
        ensures
            n == live_count(self@),
    {
        let mut n: usize = 0;
        let mut i: usize = 0;
        let len = self.inners.len();
        while i < len
            invariant
                i <= len,
                len == self@.len(),
                n == live_count(self@.take(i as int)),
                n <= i,
            decreases len - i,
        {
            proof {
                lemma_live_count_take(self@, i as int);
            }
            if self.inners[i].refs_value() >= 1 {
                n = n + 1;
            }
            i = i + 1;
        }
        proof {
            assert(self@.take(len as int) =~= self@);
        }
        n
    }

    /// How many generations have been deallocated over the store's
    /// lifetime; equal to the allocations exactly when nothing is live.
    pub fn deallocations(&self) -> (n: usize)
        ensures
            n == self.spec_deallocations(),
    {
        proof {
            lemma_live_count_bound(self@);
        }
        self.inners.len() - self.live_generations()
    }
}

/// The live count of a prefix one longer counts the one more slot.
pub proof fn lemma_live_count_take<T>(s: Seq<Option<Gen<T>>>, i: int)
    requires
        0 <= i < s.len(),
    ensures
        live_count(s.take(i + 1)) == live_count(s.take(i)) + if s[i] is Some {
            1nat
        } else {
            0nat
        },
{
    assert(s.take(i + 1).drop_last() =~= s.take(i));
    assert(s.take(i + 1).last() == s[i]);
}

/// No store has more live generations than allocations.
pub proof fn lemma_live_count_bound<T>(s: Seq<Option<Gen<T>>>)
    ensures
        live_count(s) <= s.len(),
    decreases s.len(),
{
    if s.len() > 0 {
        lemma_live_count_bound(s.drop_last());
    }
}

/// The reference counts are exactly accounted for by `owners`, the
/// multiset of all outstanding references into the store — one entry per
/// live snapshot handle, plus one per cell for the generation it has
/// installed. Every live generation is held by as many owners as its
/// count says, and a deallocated or never-allocated index is held by
/// nobody.
pub open spec fn accounted<T>(s: Seq<Option<Gen<T>>>, owners: Multiset<int>) -> bool {
    &&& forall|i: int|
        0 <= i < s.len() ==> match #[trigger] s[i] {
            Some(g) => g.refs == owners.count(i) && g.refs >= 1,
            None => owners.count(i) == 0,
        }
    &&& forall|i: int| #[trigger] owners.count(i) > 0 ==> 0 <= i < s.len()
}

/// Allocating keeps the accounts: the fresh generation's single reference
/// belongs to whoever asked for the allocation.
pub proof fn lemma_accounted_allocate<T>(s: Seq<Option<Gen<T>>>, owners: Multiset<int>, v: T)
    requires
        accounted(s, owners),
    ensures
        accounted(
            s.push(Some(Gen { data: v, refs: 1nat })),
            owners.insert(s.len() as int),
        ),
{
    assert(owners.count(s.len() as int) == 0);
}

/// Taking one more reference on a live generation keeps the accounts.
pub proof fn lemma_accounted_inc<T>(s: Seq<Option<Gen<T>>>, owners: Multiset<int>, i: int)
    requires
        accounted(s, owners),
        0 <= i < s.len(),
        s[i] is Some,
    ensures
        accounted(
            s.update(i, Some(Gen { data: s[i]->Some_0.data, refs: s[i]->Some_0.refs + 1 })),
            owners.insert(i),
        ),
{
}

/// Giving one reference back keeps the accounts, whether or not the
/// generation is destroyed by it.
pub proof fn lemma_accounted_dec<T>(s: Seq<Option<Gen<T>>>, owners: Multiset<int>, i: int)
    requires
        accounted(s, owners),
        owners.count(i) >= 1,
    ensures
        s[i] is Some,
        accounted(
            if s[i]->Some_0.refs == 1 {
                s.update(i, None::<Gen<T>>)
            } else {
                s.update(
                    i,
                    Some(Gen { data: s[i]->Some_0.data, refs: (s[i]->Some_0.refs - 1) as nat }),
                )
            },
            owners.remove(i),
        ),
{
}

/// Refcount closure: once every owner — every snapshot handle and every
/// cell — has given its reference back, no generation is live any more,
/// so the deallocations balance the allocations exactly.
pub proof fn lemma_refcount_closure<T>(s: Seq<Option<Gen<T>>>)
    requires
        accounted(s, Multiset::<int>::empty()),
    ensures
        live_count(s) == 0,
    decreases s.len(),
{
    if s.len() > 0 {
        assert(s.last() is None);
        assert(accounted(s.drop_last(), Multiset::<int>::empty())) by {
            assert(forall|i: int| 0 <= i < s.len() - 1 ==> s.drop_last()[i] == s[i]);
        }
        lemma_refcount_closure(s.drop_last());
    }
}

} // verus!
