//! A [`Slab`] that can also walk its live values.
use vstd::prelude::*;
use crate::slab::Slab;
use crate::traits::{AddWithIndex, Clear, GetUnchecked, Index, RemoveUnchecked, Slots, Valid};
use crate::vec::Vec;

verus! {

/// A [`Slab`] that also keeps the indices of its live values in a dense
/// list, so that a walk over them never looks at freed slots.
///
/// The list is kept in ascending order, so a walk visits the live values in
/// the order of their slots: insertion order, except where a freed slot was
/// reused.
pub struct IterableSlab<T, const N: usize> {
    slab: Slab<T, N>,
    ids: Vec<usize, N>,
}

impl<T, const N: usize> View for IterableSlab<T, N> {
    type V = Map<int, T>;

    /// The live values, by index.
    closed spec fn view(&self) -> Map<int, T> {
        self.slab@
    }
}

impl<T, const N: usize> IterableSlab<T, N> {
    /// The list holds each live index once and nothing else.
    pub closed spec fn wf(&self) -> bool {
        &&& self.slab.wf()
        &&& self.ids.wf()
        &&& ascending(self.ids@)
        &&& self.ids@.len() == self.slab@.dom().len()
        &&& forall|k: int|
            0 <= k < self.ids@.len() ==> self.slab@.contains_key(#[trigger] self.ids@[k] as int)
        &&& forall|i: int| self.slab@.contains_key(i) ==> #[trigger] self.ids@.contains(i as usize)
    }

    /// The live indices in the order of a walk.
    pub closed spec fn order(&self) -> Seq<usize> {
        self.ids@
    }

    /// The order of a walk is the live indices, each once, ascending.
    pub proof fn lemma_order(&self)
        requires
            self.wf(),
        ensures
            ascending(self.order()),
            forall|k: int|
                0 <= k < self.order().len() ==> self@.contains_key(#[trigger] self.order()[k] as int),
            forall|i: int| self@.contains_key(i) ==> #[trigger] self.order().contains(i as usize),
    {
    }

    /// The underlying slab.
    pub closed spec fn inner(&self) -> Slab<T, N> {
        self.slab
    }

    pub fn new() -> (r: Self)
        ensures
            r.wf(),
            r@ == Map::<int, T>::empty(),
            r.order() == Seq::<usize>::empty(),
            r.inner().is_fresh(),
    {
        let r = IterableSlab { slab: Slab::new(), ids: Vec::uninit() };
        proof {
            r.slab.lemma_live_count();
        }
        r
    }

    /// Stores the value that `f` makes from its index, as [`Slab::add_with_index`]
    /// does, and lists the index last.
    pub fn add_with_index<F>(&mut self, f: F) -> (r: Result<usize, ()>)
        where
            F: FnOnce(&usize) -> T,
        requires
            old(self).wf(),
            forall|i: usize| f.requires((&i,)),
        ensures
            final(self).wf(),
            old(self).inner().is_full() ==> r is Err && *final(self) == *old(self),
            !old(self).inner().is_full() ==> r is Ok,
            r matches Ok(i) ==> {
                &&& i == old(self).inner().next_index()
                &&& !old(self)@.contains_key(i as int)
                &&& f.ensures((&i,), final(self)@[i as int])
                &&& final(self)@ == old(self)@.insert(i as int, final(self)@[i as int])
                &&& old(self).inner().spares().len() > 0 ==> {
                    &&& final(self).inner().spares() == old(self).inner().spares().drop_last()
                    &&& final(self).inner().slots() == old(self).inner().slots()
                }
                &&& old(self).inner().spares().len() == 0 ==> {
                    &&& final(self).inner().spares() == old(self).inner().spares()
                    &&& final(self).inner().slots() == old(self).inner().slots() + 1
                    &&& final(self).order() == old(self).order().push(i)
                }
            },
    {
        proof {
            self.slab.lemma_live_count();
        }
        let r = self.slab.add_with_index(f);
        match r {
            Ok(index) => {
                proof {
                    self.slab.lemma_live_count();
                    assert(self.slab@.dom() =~= old(self).slab@.dom().insert(index as int));
                    if old(self).ids@.contains(index) {
                        let k = choose|k: int|
                            0 <= k < old(self).ids@.len() && old(self).ids@[k] == index;
                        assert(old(self).slab@.contains_key(old(self).ids@[k] as int));
                    }
                    self.ids.lemma_len_bound();
                }
                let n = self.ids.len();
                let mut p: usize = 0;
                while p < n && *self.ids.get_unchecked(p) < index
                    invariant
                        self.slab.wf(),
                        self.ids.wf(),
                        self.ids == old(self).ids,
                        n == self.ids@.len(),
                        p <= n,
                        forall|k: int| 0 <= k < p ==> self.ids@[k] < index,
                    decreases n - p,
                {
                    p = p + 1;
                }
                let ghost old_ids = self.ids@;
                proof {
                    if old(self).slab.spares().len() == 0 {
                        old(self).slab.lemma_live_count();
                        if p < n {
                            assert(old(self).slab@.contains_key(old_ids[p as int] as int));
                        }
                        assert(p == n);
                    }
                    assert forall|k: int| p <= k < n implies old_ids[k] > index by {
                        assert(old_ids[p as int] >= index);
                        assert(old_ids[p as int] != index) by {
                            assert(old(self).slab@.contains_key(old_ids[p as int] as int));
                        }
                        if k > p as int {
                            assert(old_ids[p as int] < old_ids[k]);
                        }
                    }
                }
                self.ids.insert(p, index);
                proof {
                    let ids = self.ids@;
                    if p == n {
                        assert(ids =~= old_ids.push(index));
                    }
                    assert forall|j: int, k: int| 0 <= j < k < ids.len() implies ids[j] < ids[k] by {
                        if j < p as int && k < p as int {
                            assert(ids[j] == old_ids[j] && ids[k] == old_ids[k]);
                        } else if j < p as int && k == p as int {
                            assert(ids[j] == old_ids[j]);
                        } else if j < p as int {
                            assert(ids[j] == old_ids[j] && ids[k] == old_ids[k - 1]);
                        } else if j == p as int {
                            assert(ids[k] == old_ids[k - 1]);
                        } else {
                            assert(ids[j] == old_ids[j - 1] && ids[k] == old_ids[k - 1]);
                        }
                    }
                    assert forall|k: int| 0 <= k < ids.len() implies self.slab@.contains_key(
                        #[trigger] ids[k] as int,
                    ) by {
                        if k < p as int {
                            assert(ids[k] == old_ids[k]);
                        } else if k > p as int {
                            assert(ids[k] == old_ids[k - 1]);
                        }
                    }
                    assert forall|i: int| self.slab@.contains_key(i) implies #[trigger] ids.contains(
                        i as usize,
                    ) by {
                        if i == index as int {
                            assert(ids[p as int] == index);
                        } else {
                            assert(old(self).ids@.contains(i as usize));
                            let k = choose|k: int|
                                0 <= k < old_ids.len() && old_ids[k] == i as usize;
                            if k < p as int {
                                assert(ids[k] == i as usize);
                            } else {
                                assert(ids[k + 1] == i as usize);
                            }
                        }
                    }
                }
                Ok(index)
            },
            Err(e) => Err(e),
        }
    }

    /// Drops the value under `index`, which must be live, as
    /// [`Slab::remove_unchecked`] does, and takes `index` off the list.
    pub fn remove_unchecked(&mut self, index: usize)
        requires
            old(self).wf(),
            old(self)@.contains_key(index as int),
        ensures
            final(self).wf(),
            final(self)@ == old(self)@.remove(index as int),
            final(self).order() == old(self).order().remove(old(self).order().index_of(index)),
            final(self).inner().spares() == old(self).inner().spares().push(index),
            final(self).inner().slots() == old(self).inner().slots(),
    {
        proof {
            self.slab.lemma_live_count();
            self.ids.lemma_len_bound();
        }
        assert(self.ids@.contains(index as int as usize));
        let n = self.ids.len();
        let mut p: usize = 0;
        while p < n && *self.ids.get_unchecked(p) != index
            invariant
                self.wf(),
                *self == *old(self),
                n == self.ids@.len(),
                p <= n,
                forall|k: int| 0 <= k < p ==> self.ids@[k] != index,
                self.ids@.contains(index),
            decreases n - p,
        {
            p = p + 1;
        }
        proof {
            if p == n {
                let k = choose|k: int| 0 <= k < self.ids@.len() && self.ids@[k] == index;
                assert(self.ids@[k] != index);
            }
            assert(self.ids@.index_of(index) == p as int) by {
                let q = self.ids@.index_of(index);
                assert(self.ids@[q] == index);
                if q != p as int {
                    assert(self.ids@[p as int] == index);
                }
            }
        }
        let ghost old_ids = self.ids@;
        self.slab.remove_unchecked(index);
        self.ids.remove(p);
        proof {
            self.slab.lemma_live_count();
            assert(self.slab@.dom() =~= old(self).slab@.dom().remove(index as int));
            let ids = self.ids@;
            assert forall|j: int, k: int| 0 <= j < k < ids.len() implies ids[j] < ids[k] by {
                let jj = if j < p as int { j } else { j + 1 };
                let kk = if k < p as int { k } else { k + 1 };
                assert(ids[j] == old_ids[jj]);
                assert(ids[k] == old_ids[kk]);
            }
            assert forall|k: int| 0 <= k < ids.len() implies self.slab@.contains_key(
                #[trigger] ids[k] as int,
            ) by {
                let kk = if k < p as int { k } else { k + 1 };
                assert(ids[k] == old_ids[kk]);
                assert(kk != p as int);
                assert(old_ids[kk] != old_ids[p as int]);
            }
            assert forall|i: int| self.slab@.contains_key(i) implies #[trigger] ids.contains(
                i as usize,
            ) by {
                assert(old(self).slab@.contains_key(i));
                assert(i != index as int);
                assert(old_ids.contains(i as usize));
                let k = choose|k: int| 0 <= k < old_ids.len() && old_ids[k] == i as usize;
                assert(k != p as int);
                if k < p as int {
                    assert(ids[k] == i as usize);
                } else {
                    assert(ids[k - 1] == i as usize);
                }
            }
        }
    }

    /// The value under `index`, which must be live.
    pub fn get_unchecked(&self, index: usize) -> (r: &T)
        requires
            self.wf(),
            self@.contains_key(index as int),
        ensures
            *r == self@[index as int],
    {
        self.slab.get_unchecked(index)
    }

    /// Lends out the value under `index`, which must be live.
    pub fn get_unchecked_mut(&mut self, index: usize) -> (r: &mut T)
        requires
            old(self).wf(),
            old(self)@.contains_key(index as int),
        ensures
            *r == old(self)@[index as int],
            final(self).wf(),
            final(self)@ == old(self)@.insert(index as int, *final(r)),
            final(self).order() == old(self).order(),
            final(self).inner().slots() == old(self).inner().slots(),
            final(self).inner().spares() == old(self).inner().spares(),
    {
        proof {
            assert(old(self).slab@.insert(index as int, old(self).slab@[index as int]) =~= old(self).slab@);
        }
        self.slab.get_unchecked_mut(index)
    }

    /// Drops every value and forgets every index.
    pub fn clear(&mut self)
        requires
            old(self).wf(),
        ensures
            final(self).wf(),
            final(self)@ == Map::<int, T>::empty(),
            final(self).order() == Seq::<usize>::empty(),
            final(self).inner().is_fresh(),
    {
        self.slab.clear();
        self.ids.clear();
        proof {
            self.slab.lemma_live_count();
        }
    }

    /// The number of live values.
    pub fn len(&self) -> (r: usize)
        requires
            self.wf(),
        ensures
            r == self@.dom().len(),
            r == self.order().len(),
    {
        self.ids.len()
    }
}

impl<T, const N: usize> IterableSlab<T, N> {
    pub fn iter<'a>(&'a self) -> (r: SlabIter<'a, T, N>)
        requires
            self.wf(),
        ensures
            r.wf(),
            r.items() == self.walk(),
            r.position() == 0,
    {
        SlabIter { slab: self, pos: 0 }
    }

    pub fn iter_mut<'a>(&'a mut self) -> (r: SlabIterMut<'a, T, N>)
        requires
            old(self).wf(),
        ensures
            r.wf(),
            r.items() == old(self).walk(),
            r.order() == old(self).order(),
            r.position() == 0,
            *final(self) == *final(r.target()),
    {
        SlabIterMut { slab: self, pos: 0 }
    }

    /// The live values in the order of a walk.
    pub open spec fn walk(&self) -> Seq<T> {
        self.order().map_values(|i: usize| self@[i as int])
    }
}

/// Each element is smaller than every one after it.
pub open spec fn ascending(s: Seq<usize>) -> bool {
    forall|j: int, k: int| 0 <= j < k < s.len() ==> s[j] < s[k]
}

impl<T, const N: usize> Valid for IterableSlab<T, N> {
    open spec fn valid(&self) -> bool {
        self.wf()
    }
}

impl<T, const N: usize> Index for IterableSlab<T, N> {
    type Index = usize;

    open spec fn slot(index: usize) -> int {
        index as int
    }
}

impl<T, const N: usize> Slots<T> for IterableSlab<T, N> {
    open spec fn holds(&self, index: usize) -> bool {
        self@.contains_key(index as int)
    }

    open spec fn value_at(&self, index: usize) -> T {
        self@[index as int]
    }
}

impl<T, const N: usize> GetUnchecked<T> for IterableSlab<T, N> {
    fn get_unchecked(&self, index: usize) -> (r: &T) {
        IterableSlab::get_unchecked(self, index)
    }

    fn get_unchecked_mut(&mut self, index: usize) -> (r: &mut T) {
        IterableSlab::get_unchecked_mut(self, index)
    }
}

impl<T, const N: usize> Clear for IterableSlab<T, N> {
    open spec fn is_clear(&self) -> bool {
        self.inner().is_fresh() && self.order() == Seq::<usize>::empty()
    }

    fn clear(&mut self) {
        IterableSlab::clear(self)
    }
}

impl<T, const N: usize> RemoveUnchecked for IterableSlab<T, N> {
    open spec fn occupied(&self, index: usize) -> bool {
        self@.contains_key(index as int)
    }

    fn remove_unchecked(&mut self, index: usize) {
        IterableSlab::remove_unchecked(self, index)
    }
}

impl<T, const N: usize> AddWithIndex<T> for IterableSlab<T, N> {
    open spec fn has(&self, index: usize) -> bool {
        self@.contains_key(index as int)
    }

    open spec fn at(&self, index: usize) -> T {
        self@[index as int]
    }

    open spec fn full(&self) -> bool {
        self.inner().is_full()
    }

    fn add_with_index<F>(&mut self, f: F) -> (r: Result<usize, ()>) where F: FnOnce(&usize) -> T {
        IterableSlab::add_with_index(self, f)
    }
}

impl<T, const N: usize> Default for IterableSlab<T, N> {
    fn default() -> (r: Self)
        ensures
            r.wf(),
            r@ == Map::<int, T>::empty(),
            r.order() == Seq::<usize>::empty(),
            r.inner().is_fresh(),
    {
        Self::new()
    }
}

/// Walks the live values of an [`IterableSlab`].
pub struct SlabIter<'a, T, const N: usize> {
    slab: &'a IterableSlab<T, N>,
    pos: usize,
}

impl<'a, T, const N: usize> SlabIter<'a, T, N> {
    pub closed spec fn wf(&self) -> bool {
        self.slab.wf() && self.pos <= self.slab.order().len()
    }

    /// The values walked over.
    pub closed spec fn items(&self) -> Seq<T> {
        self.slab.walk()
    }

    /// How many values were handed out so far.
    pub closed spec fn position(&self) -> nat {
        self.pos as nat
    }

    pub fn next(&mut self) -> (r: Option<&'a T>)
        requires
            old(self).wf(),
        ensures
            final(self).wf(),
            final(self).items() == old(self).items(),
            old(self).position() < old(self).items().len() ==> {
                &&& r matches Some(v) && *v == old(self).items()[old(self).position() as int]
                &&& final(self).position() == old(self).position() + 1
            },
            old(self).position() >= old(self).items().len() ==> r is None && final(self).position()
                == old(self).position(),
    {
        let pos = self.pos;
        if pos < self.slab.len() {
            self.pos = pos + 1;
            let index = *self.slab.ids.get_unchecked(pos);
            Some(self.slab.get_unchecked(index))
        } else {
            None
        }
    }
}

/// Walks the live values of an [`IterableSlab`], lending each out for
/// change.
pub struct SlabIterMut<'a, T, const N: usize> {
    slab: &'a mut IterableSlab<T, N>,
    pos: usize,
}

impl<'a, T, const N: usize> SlabIterMut<'a, T, N> {
    pub closed spec fn wf(&self) -> bool {
        self.slab.wf() && self.pos <= self.slab.order().len()
    }

    /// The values walked over, with the changes made so far.
    pub closed spec fn items(&self) -> Seq<T> {
        self.slab.walk()
    }

    /// The indices of the values walked over.
    pub closed spec fn order(&self) -> Seq<usize> {
        self.slab.order()
    }

    pub closed spec fn position(&self) -> nat {
        self.pos as nat
    }

    /// The borrowed slab.
    pub closed spec fn target(&self) -> &'a mut IterableSlab<T, N> {
        self.slab
    }

    /// Once the walk is over, the slab holds the walked values, with the
    /// changes made to them, under the same indices.
    pub proof fn lemma_finished(self)
        requires
            self.wf(),
            has_resolved(self),
        ensures
            (*final(self.target())).wf(),
            (*final(self.target())).walk() == self.items(),
            (*final(self.target())).order() == self.order(),
    {
    }

    pub fn next(&mut self) -> (r: Option<&mut T>)
        requires
            old(self).wf(),
        ensures
            final(self).wf(),
            *final(final(self).target()) == *final(old(self).target()),
            final(self).order() == old(self).order(),
            old(self).position() < old(self).items().len() ==> {
                &&& r matches Some(v)
                &&& *v == old(self).items()[old(self).position() as int]
                &&& final(self).items() == old(self).items().update(
                    old(self).position() as int,
                    *final(v),
                )
                &&& final(self).position() == old(self).position() + 1
            },
            old(self).position() >= old(self).items().len() ==> r is None && *final(self)
                == *old(self),
    {
        let pos = self.pos;
        if pos < self.slab.len() {
            self.pos = pos + 1;
            let index = *self.slab.ids.get_unchecked(pos);
            proof {
                let old_walk = old(self).slab.walk();
                assert(old_walk[pos as int] == self.slab@[index as int]);
            }
            let r = self.slab.get_unchecked_mut(index);
            proof {
                let ids = old(self).slab.order();
                assert forall|k: int| 0 <= k < ids.len() && k != pos as int implies ids[k]
                    != index by {
                    assert(ids[pos as int] == index);
                }
            }
            Some(r)
        } else {
            None
        }
    }
}

} // verus!
