//! An arena that hands out stable indices and recycles freed ones.
use vstd::prelude::*;
use vstd::set_lib::{lemma_int_range, set_int_range};
use crate::traits::{AddWithIndex, Clear, GetUnchecked, Index, RemoveUnchecked, Slots, Valid};
use crate::vec::Vec;

verus! {

/// Holds up to `N` values, each under an index that stays valid until the
/// value is removed. A removed value is dropped at once and its index is
/// kept on a stack of spares, to be handed out again before any fresh one.
///
/// Indices carry no generation tag: an index kept past the removal of its
/// value names whatever value later takes its slot.
pub struct Slab<T, const N: usize> {
    chunk: Vec<Option<T>, N>,
    spares: Vec<usize, N>,
}

impl<T, const N: usize> View for Slab<T, N> {
    type V = Map<int, T>;

    /// The live values, by index.
    closed spec fn view(&self) -> Map<int, T> {
        Map::new(
            |i: int| 0 <= i < self.chunk@.len() && self.chunk@[i] is Some,
            |i: int| self.chunk@[i]->Some_0,
        )
    }
}

impl<T, const N: usize> Slab<T, N> {
    /// Every spare index names an empty slot, every empty slot is spare, and
    /// no index is spare twice.
    pub closed spec fn wf(&self) -> bool {
        &&& self.chunk.wf()
        &&& self.spares.wf()
        &&& self.spares@.no_duplicates()
        &&& forall|k: int|
            0 <= k < self.spares@.len() ==> {
                &&& (#[trigger] self.spares@[k] as int) < self.chunk@.len()
                &&& self.chunk@[self.spares@[k] as int] is None
            }
        &&& forall|i: int|
            0 <= i < self.chunk@.len() && #[trigger] self.chunk@[i] is None ==> self.spares@.contains(
                i as usize,
            )
    }

    /// How many slots were ever taken: indices below it were handed out.
    pub closed spec fn slots(&self) -> nat {
        self.chunk@.len()
    }

    /// The stack of freed indices, the next to be reused last.
    pub closed spec fn spares(&self) -> Seq<usize> {
        self.spares@
    }

    /// The index that the next insertion takes, unless the slab is full.
    pub open spec fn next_index(&self) -> int {
        if self.spares().len() > 0 {
            self.spares().last() as int
        } else {
            self.slots() as int
        }
    }

    /// No value, no slot taken and no spare index: the state of a new slab.
    pub open spec fn is_fresh(&self) -> bool {
        &&& self@ == Map::<int, T>::empty()
        &&& self.slots() == 0
        &&& self.spares() == Seq::<usize>::empty()
    }

    /// No spare index and no untaken slot is left.
    pub open spec fn is_full(&self) -> bool {
        self.spares().len() == 0 && self.slots() == N
    }

    /// The live values are as many as the taken slots less the spare ones.
    pub proof fn lemma_live_count(&self)
        requires
            self.wf(),
        ensures
            self@.dom().finite(),
            self@.dom().len() == self.slots() - self.spares().len(),
            self.spares().len() <= self.slots() <= N,
            forall|i: int| #[trigger] self@.contains_key(i) ==> 0 <= i < self.slots(),
    {
        self.chunk.lemma_len_bound();
        let sp = self.spares@.map_values(|x: usize| x as int);
        assert(sp.no_duplicates()) by {
            assert forall|j: int, k: int| 0 <= j < sp.len() && 0 <= k < sp.len() && j != k
                implies sp[j] != sp[k] by {
                assert(self.spares@[j] != self.spares@[k]);
            }
        }
        sp.unique_seq_to_set();
        let spare_set = sp.to_set();
        let range = set_int_range(0, self.chunk@.len() as int);
        lemma_int_range(0, self.chunk@.len() as int);
        assert(spare_set.subset_of(range)) by {
            assert forall|i: int| spare_set.contains(i) implies range.contains(i) by {
                let k = choose|k: int| 0 <= k < sp.len() && sp[k] == i;
                assert(self.spares@[k] as int == i);
            }
        }
        assert(self@.dom() =~= range.difference(spare_set)) by {
            assert forall|i: int| self@.dom().contains(i) implies range.difference(
                spare_set,
            ).contains(i) by {
                if spare_set.contains(i) {
                    let k = choose|k: int| 0 <= k < sp.len() && sp[k] == i;
                    assert(self.spares@[k] as int == i);
                }
            }
            assert forall|i: int| range.difference(spare_set).contains(i) implies self@.dom().contains(
                i,
            ) by {
                if self.chunk@[i] is None {
                    assert(self.spares@.contains(i as usize));
                    let k = choose|k: int|
                        0 <= k < self.spares@.len() && self.spares@[k] == i as usize;
                    assert(sp[k] == i);
                }
            }
        }
        vstd::set_lib::lemma_len_subset(spare_set, range);
        vstd::set_lib::lemma_set_difference_len(range, spare_set);
        assert(range.intersect(spare_set) =~= spare_set);
    }

    pub fn new() -> (r: Self)
        ensures
            r.wf(),
            r.is_fresh(),
    {
        let r = Slab { chunk: Vec::uninit(), spares: Vec::uninit() };
        assert(r@ =~= Map::<int, T>::empty());
        r
    }

    /// The number of live values.
    pub fn len(&self) -> (r: usize)
        requires
            self.wf(),
        ensures
            r == self@.dom().len(),
    {
        proof {
            self.lemma_live_count();
        }
        self.chunk.len() - self.spares.len()
    }
}

impl<T, const N: usize> Slab<T, N> {
    /// Stores the value that `f` makes from the index it will stand under:
    /// the last spare index if there is one, else the next untaken slot.
    /// Fails, changing nothing, when the slab is full.
    pub fn add_with_index<F>(&mut self, f: F) -> (r: Result<usize, ()>)
        where
            F: FnOnce(&usize) -> T,
        requires
            old(self).wf(),
            forall|i: usize| f.requires((&i,)),
        ensures
            final(self).wf(),
            old(self).is_full() ==> r is Err && *final(self) == *old(self),
            !old(self).is_full() ==> r is Ok,
            r matches Ok(i) ==> {
                &&& i == old(self).next_index()
                &&& !old(self)@.contains_key(i as int)
                &&& f.ensures((&i,), final(self)@[i as int])
                &&& final(self)@ == old(self)@.insert(i as int, final(self)@[i as int])
                &&& old(self).spares().len() > 0 ==> {
                    &&& final(self).spares() == old(self).spares().drop_last()
                    &&& final(self).slots() == old(self).slots()
                }
                &&& old(self).spares().len() == 0 ==> {
                    &&& final(self).spares() == old(self).spares()
                    &&& final(self).slots() == old(self).slots() + 1
                }
            },
    {
        proof {
            self.chunk.lemma_len_bound();
            self.spares.lemma_len_bound();
        }
        if self.spares.len() == 0 {
            let index = self.chunk.len();
            if index == N {
                return Err(());
            }
            let elem = f(&index);
            self.chunk.push_unchecked(Some(elem));
            proof {
                assert(self@ =~= old(self)@.insert(index as int, elem));
                assert forall|i: int|
                    0 <= i < self.chunk@.len() && #[trigger] self.chunk@[i] is None implies self.spares@.contains(
                    i as usize,
                ) by {
                    assert(old(self).chunk@[i] is None);
                }
            }
            Ok(index)
        } else {
            let index = *self.spares.pop_unchecked();
            let elem = f(&index);
            proof {
                assert(self.spares@ =~= old(self).spares@.drop_last());
                assert(old(self).spares@.last() == index);
                assert(old(self).spares@[old(self).spares@.len() - 1] == index);
            }
            *self.chunk.get_unchecked_mut(index) = Some(elem);
            proof {
                assert(self@ =~= old(self)@.insert(index as int, elem));
                assert forall|k: int| 0 <= k < self.spares@.len() implies {
                    &&& (#[trigger] self.spares@[k] as int) < self.chunk@.len()
                    &&& self.chunk@[self.spares@[k] as int] is None
                } by {
                    assert(old(self).spares@[k] == self.spares@[k]);
                    assert(old(self).spares@[k] != old(self).spares@[old(self).spares@.len() - 1]);
                }
                assert forall|i: int|
                    0 <= i < self.chunk@.len() && #[trigger] self.chunk@[i] is None implies self.spares@.contains(
                    i as usize,
                ) by {
                    assert(old(self).chunk@[i] is None);
                    assert(old(self).spares@.contains(i as usize));
                    let k = choose|k: int|
                        0 <= k < old(self).spares@.len() && old(self).spares@[k] == i as usize;
                    assert(k != old(self).spares@.len() - 1);
                    assert(self.spares@[k] == i as usize);
                }
            }
            Ok(index)
        }
    }

    /// The value under `index`, which must be live.
    pub fn get_unchecked(&self, index: usize) -> (r: &T)
        requires
            self.wf(),
            self@.contains_key(index as int),
        ensures
            *r == self@[index as int],
    {
        self.chunk.get_unchecked(index).as_ref().unwrap()
    }

    /// Lends out the value under `index`, which must be live.
    pub fn get_unchecked_mut(&mut self, index: usize) -> (r: &mut T)
        requires
            old(self).wf(),
            old(self)@.contains_key(index as int),
        ensures
            *r == old(self)@[index as int],
            final(self).wf(),
            final(self)@ == old(self)@.insert(index as int, *final(r)),
            final(self).slots() == old(self).slots(),
            final(self).spares() == old(self).spares(),
    {
        let slot = self.chunk.get_unchecked_mut(index);
        let r = slot.as_mut().unwrap();
        r
    }

    /// Drops the value under `index`, which must be live, and makes `index`
    /// the next one to be handed out.
    pub fn remove_unchecked(&mut self, index: usize)
        requires
            old(self).wf(),
            old(self)@.contains_key(index as int),
        ensures
            final(self).wf(),
            final(self)@ == old(self)@.remove(index as int),
            final(self).slots() == old(self).slots(),
            final(self).spares() == old(self).spares().push(index),
    {
        proof {
            self.lemma_live_count();
            self.chunk.lemma_len_bound();
            self.spares.lemma_len_bound();
            if self@.dom().len() == 0 {
                assert(self@.dom().contains(index as int));
            }
            if old(self).spares@.contains(index) {
                let k = choose|k: int|
                    0 <= k < old(self).spares@.len() && old(self).spares@[k] == index;
                assert(old(self).chunk@[old(self).spares@[k] as int] is None);
            }
        }
        *self.chunk.get_unchecked_mut(index) = None;
        self.spares.push_unchecked(index);
        proof {
            assert(self@ =~= old(self)@.remove(index as int));
            assert forall|k: int| 0 <= k < self.spares@.len() implies {
                &&& (#[trigger] self.spares@[k] as int) < self.chunk@.len()
                &&& self.chunk@[self.spares@[k] as int] is None
            } by {
                if k < old(self).spares@.len() {
                    assert(self.spares@[k] == old(self).spares@[k]);
                    assert(old(self).spares@[k] != index);
                }
            }
            assert forall|i: int|
                0 <= i < self.chunk@.len() && #[trigger] self.chunk@[i] is None implies self.spares@.contains(
                i as usize,
            ) by {
                if i != index as int {
                    assert(old(self).chunk@[i] is None);
                    let k = choose|k: int|
                        0 <= k < old(self).spares@.len() && old(self).spares@[k] == i as usize;
                    assert(self.spares@[k] == i as usize);
                } else {
                    assert(self.spares@[self.spares@.len() - 1] == index);
                }
            }
        }
    }

    /// Drops every value and forgets every index.
    pub fn clear(&mut self)
        requires
            old(self).wf(),
        ensures
            final(self).wf(),
            final(self).is_fresh(),
    {
        proof {
            self.chunk.lemma_len_bound();
        }
        let n = self.chunk.len();
        let mut i: usize = 0;
        while i < n
            invariant
                self.chunk.wf(),
                self.spares.wf(),
                self.chunk@.len() == n,
                i <= n,
            decreases n - i,
        {
            *self.chunk.get_unchecked_mut(i) = None;
            i = i + 1;
        }
        self.chunk.clear();
        self.spares.clear();
        assert(self@ =~= Map::<int, T>::empty());
    }
}

impl<T, const N: usize> Valid for Slab<T, N> {
    open spec fn valid(&self) -> bool {
        self.wf()
    }
}

impl<T, const N: usize> Index for Slab<T, N> {
    type Index = usize;

    open spec fn slot(index: usize) -> int {
        index as int
    }
}

impl<T, const N: usize> Slots<T> for Slab<T, N> {
    open spec fn holds(&self, index: usize) -> bool {
        self@.contains_key(index as int)
    }

    open spec fn value_at(&self, index: usize) -> T {
        self@[index as int]
    }
}

impl<T, const N: usize> GetUnchecked<T> for Slab<T, N> {
    fn get_unchecked(&self, index: usize) -> (r: &T) {
        Slab::get_unchecked(self, index)
    }

    fn get_unchecked_mut(&mut self, index: usize) -> (r: &mut T) {
        Slab::get_unchecked_mut(self, index)
    }
}

impl<T, const N: usize> Clear for Slab<T, N> {
    open spec fn is_clear(&self) -> bool {
        self.is_fresh()
    }

    fn clear(&mut self) {
        Slab::clear(self)
    }
}

impl<T, const N: usize> RemoveUnchecked for Slab<T, N> {
    open spec fn occupied(&self, index: usize) -> bool {
        self@.contains_key(index as int)
    }

    fn remove_unchecked(&mut self, index: usize) {
        Slab::remove_unchecked(self, index)
    }
}

impl<T, const N: usize> AddWithIndex<T> for Slab<T, N> {
    open spec fn has(&self, index: usize) -> bool {
        self@.contains_key(index as int)
    }

    open spec fn at(&self, index: usize) -> T {
        self@[index as int]
    }

    open spec fn full(&self) -> bool {
        self.is_full()
    }

    fn add_with_index<F>(&mut self, f: F) -> (r: Result<usize, ()>) where F: FnOnce(&usize) -> T {
        Slab::add_with_index(self, f)
    }
}

/// Without removals, insertions take fresh indices in order: the next one
/// is the number of slots taken so far (so `0, 1, 2, ...` from a new slab),
/// and the slab is full exactly when `N` were taken.
pub proof fn lemma_fresh_indices<T, const N: usize>(s: Slab<T, N>)
    requires
        s.wf(),
        s.spares().len() == 0,
    ensures
        s.next_index() == s.slots(),
        s.is_full() <==> s.slots() == N,
{
}

/// After the value under `index` is removed, the next insertion takes
/// `index` again and cannot fail, and every other live value keeps its index.
pub proof fn lemma_reuse_after_remove<T, const N: usize>(
    before: Slab<T, N>,
    after: Slab<T, N>,
    index: usize,
)
    requires
        before.wf(),
        before@.contains_key(index as int),
        after@ == before@.remove(index as int),
        after.spares() == before.spares().push(index),
    ensures
        after.next_index() == index,
        !after.is_full(),
        forall|j: int|
            j != index ==> (#[trigger] after@.contains_key(j) <==> before@.contains_key(j)),
        forall|j: int| j != index && after@.contains_key(j) ==> #[trigger] after@[j] == before@[j],
{
}

/// `clear` leaves a slab fresh, as `new` makes one, whatever it held. Any
/// two fresh slabs are in the same state, so clearing twice leaves the slab
/// as clearing once does; and the next insertion into a fresh slab takes
/// index 0 and, when `N > 0`, cannot fail.
pub proof fn lemma_clear_idempotent<T, const N: usize>(once: Slab<T, N>, twice: Slab<T, N>)
    requires
        once.is_fresh(),
        twice.is_fresh(),
    ensures
        twice@ == once@,
        twice.slots() == once.slots(),
        twice.spares() == once.spares(),
        once.next_index() == 0,
        N > 0 ==> !once.is_full(),
{
}

impl<T, const N: usize> Default for Slab<T, N> {
    fn default() -> (r: Self)
        ensures
            r.wf(),
            r.is_fresh(),
    {
        Self::new()
    }
}

} // verus!
