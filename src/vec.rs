//! A sequence holding at most `N` elements.
use vstd::prelude::*;
use crate::min_spec;
use crate::traits::{Cap, Clear, Get, GetUnchecked, Index, Items, Pop, Push, Remove, Slots, Valid};

verus! {

/// A sequence that never holds more than `N` elements.
///
/// Storage cells `[0, len)` hold the live elements. Cells past `len` that
/// were written before (by a push that was later popped) keep their stale
/// contents until a later push overwrites them or a removal drops them.
/// Cells are written on demand, into a buffer that never holds more than
/// `N` of them.
#[derive(Clone)]
pub struct Vec<T, const N: usize> {
    cells: std::vec::Vec<T>,
    len: usize,
}

impl<T, const N: usize> View for Vec<T, N> {
    type V = Seq<T>;

    /// The live elements, in order.
    closed spec fn view(&self) -> Seq<T> {
        self.cells@.take(self.len as int)
    }
}

impl<T, const N: usize> Vec<T, N> {
    /// Length within the written cells, and the written cells within `N`.
    pub closed spec fn wf(&self) -> bool {
        self.len <= self.cells.len() <= N
    }

    /// Every cell written so far: the live prefix followed by stale cells.
    pub closed spec fn cells(&self) -> Seq<T> {
        self.cells@
    }

    /// A well-formed sequence holds at most `N` elements, which are the
    /// first of its cells.
    pub proof fn lemma_len_bound(&self)
        requires
            self.wf(),
        ensures
            self@.len() <= N,
            self@.len() <= self.cells().len(),
            self@ == self.cells().take(self@.len() as int),
    {
    }

    pub fn uninit() -> (r: Self)
        ensures
            r.wf(),
            r@ == Seq::<T>::empty(),
            r.cells() == Seq::<T>::empty(),
    {
        Vec { cells: std::vec::Vec::new(), len: 0 }
    }

    pub fn len(&self) -> (r: usize)
        requires
            self.wf(),
        ensures
            r == self@.len(),
    {
        self.len
    }

    /// Lends out the length. Whoever changes it keeps it within the cells
    /// written so far, as every other operation requires.
    pub fn len_mut(&mut self) -> (r: &mut usize)
        requires
            old(self).wf(),
        ensures
            *r == old(self)@.len(),
            final(self).cells() == old(self).cells(),
            final(self).wf() <==> *final(r) <= old(self).cells().len(),
            *final(r) <= old(self).cells().len() ==> final(self)@ == old(self).cells().take(
                *final(r) as int,
            ),
    {
        &mut self.len
    }

    pub fn push(&mut self, value: T) -> (r: Result<(), T>)
        requires
            old(self).wf(),
        ensures
            final(self).wf(),
            old(self)@.len() < N ==> r is Ok && final(self)@ == old(self)@.push(value),
            old(self)@.len() >= N ==> r == Err::<(), T>(value) && *final(self) == *old(self),
            (final(self)@, r is Ok) == push_outcome(old(self)@, value, N as nat),
    {
        if self.len < N {
            self.push_unchecked(value);
            Ok(())
        } else {
            Err(value)
        }
    }

    pub fn push_unchecked(&mut self, value: T)
        requires
            old(self).wf(),
            old(self)@.len() < N,
        ensures
            final(self).wf(),
            final(self)@ == old(self)@.push(value),
    {
        if self.len < self.cells.len() {
            self.cells.set(self.len, value);
        } else {
            self.cells.push(value);
        }
        self.len = self.len + 1;
        assert(self@ =~= old(self)@.push(value));
    }

    pub fn get(&self, index: usize) -> (r: Option<&T>)
        requires
            self.wf(),
        ensures
            match r {
                Some(v) => index < self@.len() && *v == self@[index as int],
                None => index >= self@.len(),
            },
    {
        if index < self.len {
            Some(&self.cells[index])
        } else {
            None
        }
    }

    pub fn get_mut(&mut self, index: usize) -> (r: Option<&mut T>)
        requires
            old(self).wf(),
        ensures
            match r {
                Some(v) => {
                    &&& index < old(self)@.len()
                    &&& *v == old(self)@[index as int]
                    &&& final(self).wf()
                    &&& final(self)@ == old(self)@.update(index as int, *final(v))
                },
                None => index >= old(self)@.len() && *final(self) == *old(self),
            },
    {
        if index < self.len {
            let cell = &mut self.cells[index];
            Some(cell)
        } else {
            None
        }
    }
}


impl<T, const N: usize> Vec<T, N> {
    pub fn is_empty(&self) -> (r: bool)
        requires
            self.wf(),
        ensures
            r == (self@.len() == 0),
    {
        self.len == 0
    }

    /// The sequence with every element forgotten and every cell kept.
    pub closed spec fn cleared(self) -> Self {
        Vec { cells: self.cells, len: 0 }
    }

    /// Forgets every element; the cells keep their stale contents.
    pub fn clear(&mut self)
        requires
            old(self).wf(),
        ensures
            final(self).wf(),
            *final(self) == old(self).cleared(),
            final(self)@ == Seq::<T>::empty(),
            final(self).cells() == old(self).cells(),
    {
        self.len = 0;
        assert(self@ =~= Seq::<T>::empty());
    }

    pub fn capacity(&self) -> (r: usize)
        ensures
            r == N,
    {
        N
    }

    /// All cells written so far, the live prefix first.
    pub fn as_slice(&self) -> (r: &[T])
        ensures
            r@ == self.cells(),
    {
        self.cells.as_slice()
    }

    pub fn get_unchecked(&self, index: usize) -> (r: &T)
        requires
            self.wf(),
            index < self@.len(),
        ensures
            *r == self@[index as int],
    {
        &self.cells[index]
    }

    pub fn get_unchecked_mut(&mut self, index: usize) -> (r: &mut T)
        requires
            old(self).wf(),
            index < old(self)@.len(),
        ensures
            *r == old(self)@[index as int],
            final(self).wf(),
            final(self)@ == old(self)@.update(index as int, *final(r)),
    {
        &mut self.cells[index]
    }

    /// Removes the last element and lends out its old cell, which keeps its
    /// contents until a later push.
    pub fn pop(&mut self) -> (r: Option<&T>)
        requires
            old(self).wf(),
        ensures
            final(self).wf(),
            old(self)@.len() == 0 ==> r is None && *final(self) == *old(self),
            old(self)@.len() > 0 ==> {
                &&& r matches Some(v) && *v == old(self)@.last()
                &&& final(self)@ == old(self)@.drop_last()
                &&& final(self).cells() == old(self).cells()
            },
    {
        if self.len == 0 {
            None
        } else {
            Some(self.pop_unchecked())
        }
    }

    pub fn pop_unchecked(&mut self) -> (r: &T)
        requires
            old(self).wf(),
            old(self)@.len() > 0,
        ensures
            *r == old(self)@.last(),
            final(self).wf(),
            final(self)@ == old(self)@.drop_last(),
            final(self).cells() == old(self).cells(),
    {
        let new_len = self.len - 1;
        self.len = new_len;
        assert(self@ =~= old(self)@.drop_last());
        &self.cells[new_len]
    }

    pub fn pop_mut(&mut self) -> (r: Option<&mut T>)
        requires
            old(self).wf(),
        ensures
            final(self).wf(),
            match r {
                Some(v) => {
                    &&& old(self)@.len() > 0
                    &&& *v == old(self)@.last()
                    &&& final(self)@ == old(self)@.drop_last()
                    &&& final(self).cells() == old(self).cells().update(
                        old(self)@.len() - 1,
                        *final(v),
                    )
                },
                None => old(self)@.len() == 0 && *final(self) == *old(self),
            },
    {
        if self.len == 0 {
            None
        } else {
            Some(self.pop_unchecked_mut())
        }
    }

    pub fn pop_unchecked_mut(&mut self) -> (r: &mut T)
        requires
            old(self).wf(),
            old(self)@.len() > 0,
        ensures
            *r == old(self)@.last(),
            final(self).wf(),
            final(self)@ == old(self)@.drop_last(),
            final(self).cells() == old(self).cells().update(old(self)@.len() - 1, *final(r)),
    {
        let new_len = self.len - 1;
        self.len = new_len;
        assert(self@ =~= old(self)@.drop_last());
        &mut self.cells[new_len]
    }

    /// Replaces the element at `index` with the last one and shortens the
    /// sequence by one.
    pub fn swap_remove(&mut self, index: usize) -> (r: Result<(), ()>)
        requires
            old(self).wf(),
        ensures
            final(self).wf(),
            index < old(self)@.len() ==> r is Ok && final(self)@ == swap_removed(old(self)@, index as int),
            index >= old(self)@.len() ==> r is Err && *final(self) == *old(self),
    {
        if index < self.len {
            self.swap_remove_unchecked(index);
            Ok(())
        } else {
            Err(())
        }
    }

    /// Puts `value` at `index`, moving the elements from there on one place
    /// back.
    pub(crate) fn insert(&mut self, index: usize, value: T)
        requires
            old(self).wf(),
            index <= old(self)@.len(),
            old(self)@.len() < N,
        ensures
            final(self).wf(),
            final(self)@ == old(self)@.insert(index as int, value),
    {
        self.cells.truncate(self.len);
        self.cells.insert(index, value);
        self.len = self.len + 1;
        assert(self@ =~= old(self)@.insert(index as int, value));
    }

    /// Takes out the element at `index`, moving the elements after it one
    /// place forward.
    pub(crate) fn remove(&mut self, index: usize) -> (r: T)
        requires
            old(self).wf(),
            index < old(self)@.len(),
        ensures
            final(self).wf(),
            r == old(self)@[index as int],
            final(self)@ == old(self)@.remove(index as int),
    {
        self.cells.truncate(self.len);
        let r = self.cells.remove(index);
        self.len = self.len - 1;
        assert(self@ =~= old(self)@.remove(index as int));
        r
    }

    pub fn swap_remove_unchecked(&mut self, index: usize)
        requires
            old(self).wf(),
            index < old(self)@.len(),
        ensures
            final(self).wf(),
            final(self)@ == swap_removed(old(self)@, index as int),
    {
        self.cells.truncate(self.len);
        self.cells.swap_remove(index);
        self.len = self.len - 1;
        assert(self@ =~= swap_removed(old(self)@, index as int));
    }
}

impl<T: Copy, const N: usize> Vec<T, N> {
    /// The first `min(L, N)` items of `array`, in order.
    pub fn from_array<const L: usize>(array: [T; L]) -> (r: Self)
        ensures
            r.wf(),
            r@ == array@.take(min_spec(L as int, N as int)),
    {
        let len = crate::min(N, L);
        Self::from_array_and_len(array, len)
    }

    /// The first `len` items of `array` as the live elements; the following
    /// ones, up to `N`, fill stale cells.
    pub fn from_array_and_len<const L: usize>(array: [T; L], len: usize) -> (r: Self)
        requires
            len <= L,
            len <= N,
        ensures
            r.wf(),
            r@ == array@.take(len as int),
            r.cells() == array@.take(min_spec(L as int, N as int)),
    {
        let stop = crate::min(N, L);
        let mut cells: std::vec::Vec<T> = std::vec::Vec::new();
        let mut i: usize = 0;
        while i < stop
            invariant
                i <= stop,
                stop == min_spec(L as int, N as int),
                cells@ == array@.take(i as int),
            decreases stop - i,
        {
            cells.push(array[i]);
            i = i + 1;
            assert(cells@ =~= array@.take(i as int));
        }
        let r = Vec { cells, len };
        assert(r@ =~= array@.take(len as int));
        r
    }
}

impl<T, const N: usize> Default for Vec<T, N> {
    fn default() -> (r: Self)
        ensures
            r.wf(),
            r@ == Seq::<T>::empty(),
    {
        Self::uninit()
    }
}

impl<T, const N: usize> Vec<T, N> {
    pub fn iter<'a>(&'a self) -> (r: VecIter<'a, T, N>)
        requires
            self.wf(),
        ensures
            r.wf(),
            r.items() == self@,
            r.position() == 0,
    {
        VecIter { vec: self, index: 0 }
    }

    pub fn iter_mut<'a>(&'a mut self) -> (r: VecIterMut<'a, T, N>)
        requires
            old(self).wf(),
        ensures
            r.wf(),
            r.items() == old(self)@,
            r.position() == 0,
            *final(self) == *final(r.target()),
    {
        VecIterMut { vec: self, index: 0 }
    }
}

/// Walks the live elements of a [`Vec`] front to back.
pub struct VecIter<'a, T, const N: usize> {
    vec: &'a Vec<T, N>,
    index: usize,
}

impl<'a, T, const N: usize> VecIter<'a, T, N> {
    pub closed spec fn wf(&self) -> bool {
        self.vec.wf() && self.index <= self.vec@.len()
    }

    /// The elements walked over.
    pub closed spec fn items(&self) -> Seq<T> {
        self.vec@
    }

    /// How many elements were handed out so far.
    pub closed spec fn position(&self) -> nat {
        self.index as nat
    }

    pub fn next(&mut self) -> (r: Option<&'a T>)
        requires
            old(self).wf(),
        ensures
            final(self).wf(),
            final(self).items() == old(self).items(),
            old(self).position() < old(self).items().len() ==> {
                &&& r matches Some(v) && *v == old(self).items()[old(self).position() as int]
                &&& final(self).position() == old(self).position() + 1
            },
            old(self).position() >= old(self).items().len() ==> r is None && final(self).position()
                == old(self).position(),
    {
        if self.index < self.vec.len() {
            let v = self.vec.get_unchecked(self.index);
            self.index = self.index + 1;
            Some(v)
        } else {
            None
        }
    }
}

/// Walks the live elements of a [`Vec`] front to back, lending each out
/// for change.
pub struct VecIterMut<'a, T, const N: usize> {
    vec: &'a mut Vec<T, N>,
    index: usize,
}

impl<'a, T, const N: usize> VecIterMut<'a, T, N> {
    pub closed spec fn wf(&self) -> bool {
        self.vec.wf() && self.index <= self.vec@.len()
    }

    /// The elements walked over, with the changes made so far.
    pub closed spec fn items(&self) -> Seq<T> {
        self.vec@
    }

    pub closed spec fn position(&self) -> nat {
        self.index as nat
    }

    /// The borrowed sequence.
    pub closed spec fn target(&self) -> &'a mut Vec<T, N> {
        self.vec
    }

    /// Once the walk is over, the sequence holds the walked elements with
    /// the changes made to them.
    pub proof fn lemma_finished(self)
        requires
            self.wf(),
            has_resolved(self),
        ensures
            (*final(self.target())).wf(),
            (*final(self.target()))@ == self.items(),
    {
    }

    pub fn next(&mut self) -> (r: Option<&mut T>)
        requires
            old(self).wf(),
        ensures
            final(self).wf(),
            *final(final(self).target()) == *final(old(self).target()),
            old(self).position() < old(self).items().len() ==> {
                &&& r matches Some(v)
                &&& *v == old(self).items()[old(self).position() as int]
                &&& final(self).items() == old(self).items().update(
                    old(self).position() as int,
                    *final(v),
                )
                &&& final(self).position() == old(self).position() + 1
            },
            old(self).position() >= old(self).items().len() ==> r is None && *final(self)
                == *old(self),
    {
        if self.index < self.vec.len() {
            let i = self.index;
            self.index = i + 1;
            Some(self.vec.get_unchecked_mut(i))
        } else {
            None
        }
    }
}

/// What a push of `value` onto `s` gives when `cap` elements fit: the new
/// elements, and whether the push was accepted.
pub open spec fn push_outcome<T>(s: Seq<T>, value: T, cap: nat) -> (Seq<T>, bool) {
    if s.len() < cap {
        (s.push(value), true)
    } else {
        (s, false)
    }
}

/// The elements after pushing each of `items`, in order, onto `s`.
pub open spec fn push_all<T>(s: Seq<T>, items: Seq<T>, cap: nat) -> Seq<T>
    decreases items.len(),
{
    if items.len() == 0 {
        s
    } else {
        push_outcome(push_all(s, items.drop_last(), cap), items.last(), cap).0
    }
}

/// Pushing `items` one at a time onto an empty sequence, while they fit:
/// every push is accepted, the result is exactly `items` (so its length is
/// the number of pushes and element `i` is the `i`-th item pushed), and
/// once `cap` items were pushed the next push is refused and changes nothing.
pub proof fn lemma_push_sequence<T>(items: Seq<T>, extra: T, cap: nat)
    requires
        items.len() <= cap,
    ensures
        push_all(Seq::<T>::empty(), items, cap) == items,
        push_all(Seq::<T>::empty(), items, cap).len() == items.len(),
        forall|i: int|
            0 <= i < items.len() ==> #[trigger] push_all(Seq::<T>::empty(), items, cap)[i]
                == items[i],
        forall|k: int|
            0 <= k <= items.len() ==> #[trigger] push_all(Seq::<T>::empty(), items.take(k), cap)
                == items.take(k),
        forall|k: int|
            0 <= k < items.len() ==> #[trigger] push_outcome(items.take(k), items[k], cap).1,
        items.len() == cap ==> push_outcome(items, extra, cap) == (items, false),
    decreases items.len(),
{
    if items.len() > 0 {
        lemma_push_sequence(items.drop_last(), extra, cap);
        assert(items.drop_last().push(items.last()) =~= items);
    } else {
        assert(items =~= Seq::<T>::empty());
    }
    assert forall|k: int| 0 <= k <= items.len() implies #[trigger] push_all(
        Seq::<T>::empty(),
        items.take(k),
        cap,
    ) == items.take(k) by {
        if k < items.len() {
            assert(items.take(k) =~= items.drop_last().take(k));
        } else {
            assert(items.take(k) =~= items);
        }
    }
    assert forall|k: int| 0 <= k < items.len() implies #[trigger] push_outcome(
        items.take(k),
        items[k],
        cap,
    ).1 by {
        assert(items.take(k).len() == k);
    }
}

/// Last in, first out: after `push(a)` and `push(b)` the next `pop` yields
/// `b` and leaves the sequence as it was after `push(a)`, the one after that
/// yields `a`; each push adds one to the length and each pop takes one off.
pub proof fn lemma_stack<T>(s: Seq<T>, a: T, b: T)
    ensures
        s.push(a).push(b).last() == b,
        s.push(a).push(b).drop_last() == s.push(a),
        s.push(a).last() == a,
        s.push(a).drop_last() == s,
        s.push(a).len() == s.len() + 1,
        s.push(a).push(b).len() == s.len() + 2,
{
    assert(s.push(a).push(b).drop_last() =~= s.push(a));
    assert(s.push(a).drop_last() =~= s);
}

/// `swap_remove` at a valid index shortens the sequence by exactly one, puts
/// the last element in place of the removed one, and leaves every other
/// element where it was.
pub proof fn lemma_swap_remove_shape<T>(s: Seq<T>, i: int)
    requires
        0 <= i < s.len(),
    ensures
        swap_removed(s, i).len() == s.len() - 1,
        i < s.len() - 1 ==> swap_removed(s, i)[i] == s.last(),
        forall|j: int| 0 <= j < s.len() - 1 && j != i ==> #[trigger] swap_removed(s, i)[j] == s[j],
{
}

/// Clearing twice leaves the sequence as clearing once does: empty, as a new
/// one is, with the same cells.
pub proof fn lemma_clear_idempotent<T, const N: usize>(v: Vec<T, N>)
    requires
        v.wf(),
    ensures
        v.cleared().cleared() == v.cleared(),
        v.cleared().wf(),
        v.cleared()@ == Seq::<T>::empty(),
        v.cleared().cells() == v.cells(),
{
    assert(v.cleared()@ =~= Seq::<T>::empty());
}

impl<T, const N: usize> Valid for Vec<T, N> {
    open spec fn valid(&self) -> bool {
        self.wf()
    }
}

impl<T, const N: usize> Index for Vec<T, N> {
    type Index = usize;

    open spec fn slot(index: usize) -> int {
        index as int
    }
}

impl<T, const N: usize> Items<T> for Vec<T, N> {
    open spec fn items(&self) -> Seq<T> {
        self@
    }

    open spec fn limit(&self) -> nat {
        N as nat
    }
}

impl<T, const N: usize> Slots<T> for Vec<T, N> {
    open spec fn holds(&self, index: usize) -> bool {
        index < self@.len()
    }

    open spec fn value_at(&self, index: usize) -> T {
        self@[index as int]
    }
}

impl<T, const N: usize> Cap for Vec<T, N> {
    type Cap = usize;

    open spec fn cap_of(&self) -> usize {
        N
    }

    fn capacity(&self) -> (r: usize) {
        N
    }
}

impl<T, const N: usize> Clear for Vec<T, N> {
    open spec fn is_clear(&self) -> bool {
        self@.len() == 0
    }

    fn clear(&mut self) {
        Vec::clear(self)
    }
}

impl<T, const N: usize> Push<T> for Vec<T, N> {
    fn push(&mut self, value: T) -> (r: Result<(), T>) {
        Vec::push(self, value)
    }

    fn push_unchecked(&mut self, value: T) {
        Vec::push_unchecked(self, value)
    }
}

impl<T, const N: usize> Pop<T> for Vec<T, N> {
    fn pop(&mut self) -> (r: Option<&T>) {
        Vec::pop(self)
    }

    fn pop_unchecked(&mut self) -> (r: &T) {
        Vec::pop_unchecked(self)
    }

    fn pop_mut(&mut self) -> (r: Option<&mut T>) {
        Vec::pop_mut(self)
    }

    fn pop_unchecked_mut(&mut self) -> (r: &mut T) {
        Vec::pop_unchecked_mut(self)
    }
}

impl<T, const N: usize> Get<T> for Vec<T, N> {
    fn get(&self, index: usize) -> (r: Option<&T>) {
        Vec::get(self, index)
    }

    fn get_mut(&mut self, index: usize) -> (r: Option<&mut T>) {
        Vec::get_mut(self, index)
    }
}

impl<T, const N: usize> GetUnchecked<T> for Vec<T, N> {
    fn get_unchecked(&self, index: usize) -> (r: &T) {
        Vec::get_unchecked(self, index)
    }

    fn get_unchecked_mut(&mut self, index: usize) -> (r: &mut T) {
        Vec::get_unchecked_mut(self, index)
    }
}

impl<T, const N: usize> Remove for Vec<T, N> {
    open spec fn removable(&self, index: usize) -> bool {
        index < self@.len()
    }

    open spec fn removed_from(&self, before: &Self, index: usize) -> bool {
        self@ == swap_removed(before@, index as int)
    }

    /// Removes by [`Vec::swap_remove`].
    fn remove(&mut self, index: usize) -> (r: bool) {
        Vec::swap_remove(self, index).is_ok()
    }
}

/// `s` with its element at `i` replaced by its last one, and the last one dropped.
pub open spec fn swap_removed<T>(s: Seq<T>, i: int) -> Seq<T> {
    s.update(i, s.last()).drop_last()
}

} // verus!
