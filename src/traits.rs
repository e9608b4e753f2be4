//! Capability traits: small interfaces that the containers implement as
//! they can, so that code can be written once against any of them.
use vstd::prelude::*;
use crate::cursor::{decoded, overwrite};
use crate::plain::Plain;

verus! {

/// A container with an invariant, which every operation below requires and
/// keeps.
pub trait Valid: Sized {
    spec fn valid(&self) -> bool;
}

/// A container whose elements are addressed by values of type `Index`.
pub trait Index {
    type Index;

    /// The slot that `index` addresses.
    spec fn slot(index: Self::Index) -> int;
}

/// A container that holds a sequence of elements within a limit.
pub trait Items<T>: Valid {
    /// The elements, in order.
    spec fn items(&self) -> Seq<T>;

    /// How many elements fit.
    spec fn limit(&self) -> nat;
}

/// A container whose slots may hold elements.
pub trait Slots<T>: Index + Valid {
    /// Whether `index` addresses an element.
    spec fn holds(&self, index: Self::Index) -> bool;

    /// The element that `index` addresses, where there is one.
    spec fn value_at(&self, index: Self::Index) -> T;
}

/// A container of bytes that are written, then read, in order.
pub trait ByteCells: Valid {
    /// Every cell, written or not.
    spec fn byte_cells(&self) -> Seq<u8>;

    /// The cells written so far.
    spec fn filled_bytes(&self) -> Seq<u8>;

    /// The written cells that were not read yet.
    spec fn unread_bytes(&self) -> Seq<u8>;
}

pub trait Cap {
    type Cap;

    spec fn cap_of(&self) -> Self::Cap;

    fn capacity(&self) -> (r: Self::Cap)
        ensures
            r == self.cap_of(),
    ;
}

pub trait Clear: Valid {
    /// Nothing is held and nothing is pending.
    spec fn is_clear(&self) -> bool;

    fn clear(&mut self)
        requires
            old(self).valid(),
        ensures
            final(self).valid(),
            final(self).is_clear(),
    ;
}

pub trait Push<T>: Items<T> {
    /// Appends `value` if it fits; else hands it back.
    fn push(&mut self, value: T) -> (r: Result<(), T>)
        requires
            old(self).valid(),
        ensures
            final(self).valid(),
            old(self).items().len() < old(self).limit() ==> r is Ok && final(self).items() == old(self).items().push(value),
            old(self).items().len() >= old(self).limit() ==> r == Err::<(), T>(value) && *final(self) == *old(self),
    ;

    fn push_unchecked(&mut self, value: T)
        requires
            old(self).valid(),
            old(self).items().len() < old(self).limit(),
        ensures
            final(self).valid(),
            final(self).items() == old(self).items().push(value),
    ;
}

pub trait Pop<T>: Items<T> {
    /// Removes the last element and lends it out.
    fn pop(&mut self) -> (r: Option<&T>)
        requires
            old(self).valid(),
        ensures
            final(self).valid(),
            old(self).items().len() == 0 ==> r is None && *final(self) == *old(self),
            old(self).items().len() > 0 ==> {
                &&& r matches Some(v) && *v == old(self).items().last()
                &&& final(self).items() == old(self).items().drop_last()
            },
    ;

    fn pop_unchecked(&mut self) -> (r: &T)
        requires
            old(self).valid(),
            old(self).items().len() > 0,
        ensures
            final(self).valid(),
            *r == old(self).items().last(),
            final(self).items() == old(self).items().drop_last(),
    ;

    fn pop_mut(&mut self) -> (r: Option<&mut T>)
        requires
            old(self).valid(),
        ensures
            final(self).valid(),
            old(self).items().len() == 0 ==> r is None && *final(self) == *old(self),
            old(self).items().len() > 0 ==> {
                &&& r matches Some(v) && *v == old(self).items().last()
                &&& final(self).items() == old(self).items().drop_last()
            },
    ;

    fn pop_unchecked_mut(&mut self) -> (r: &mut T)
        requires
            old(self).valid(),
            old(self).items().len() > 0,
        ensures
            final(self).valid(),
            *r == old(self).items().last(),
            final(self).items() == old(self).items().drop_last(),
    ;
}

pub trait Get<T>: Slots<T> {
    fn get(&self, index: Self::Index) -> (r: Option<&T>)
        requires
            self.valid(),
        ensures
            match r {
                Some(v) => self.holds(index) && *v == self.value_at(index),
                None => !self.holds(index),
            },
    ;

    fn get_mut(&mut self, index: Self::Index) -> (r: Option<&mut T>)
        requires
            old(self).valid(),
        ensures
            match r {
                Some(v) => {
                    &&& old(self).holds(index)
                    &&& *v == old(self).value_at(index)
                    &&& final(self).valid()
                    &&& final(self).holds(index)
                    &&& final(self).value_at(index) == *final(v)
                    &&& forall|j: Self::Index| #[trigger] final(self).holds(j) == old(self).holds(j)
                    &&& forall|j: Self::Index|
                        j != index && old(self).holds(j) ==> #[trigger] final(self).value_at(j)
                            == old(self).value_at(j)
                },
                None => !old(self).holds(index) && *final(self) == *old(self),
            },
    ;
}

pub trait GetUnchecked<T>: Slots<T> {
    fn get_unchecked(&self, index: Self::Index) -> (r: &T)
        requires
            self.valid(),
            self.holds(index),
        ensures
            *r == self.value_at(index),
    ;

    fn get_unchecked_mut(&mut self, index: Self::Index) -> (r: &mut T)
        requires
            old(self).valid(),
            old(self).holds(index),
        ensures
            *r == old(self).value_at(index),
            final(self).valid(),
            final(self).holds(index),
            final(self).value_at(index) == *final(r),
            forall|j: Self::Index| #[trigger] final(self).holds(j) == old(self).holds(j),
            forall|j: Self::Index|
                j != index && old(self).holds(j) ==> #[trigger] final(self).value_at(j) == old(self).value_at(j),
    ;
}

pub trait Remove: Index + Valid {
    /// Whether `index` addresses something that can be removed.
    spec fn removable(&self, index: Self::Index) -> bool;

    /// Whether `self` is what removing what `index` addresses leaves of
    /// `before`.
    spec fn removed_from(&self, before: &Self, index: Self::Index) -> bool;

    /// Removes what `index` addresses, if anything; says whether it did.
    fn remove(&mut self, index: Self::Index) -> (r: bool)
        requires
            old(self).valid(),
        ensures
            final(self).valid(),
            r == old(self).removable(index),
            r ==> final(self).removed_from(old(self), index),
            !r ==> *final(self) == *old(self),
    ;
}

pub trait RemoveUnchecked: Index + Valid {
    /// Whether `index` addresses a live element.
    spec fn occupied(&self, index: Self::Index) -> bool;

    /// Removes the live element that `index` addresses.
    fn remove_unchecked(&mut self, index: Self::Index)
        requires
            old(self).valid(),
            old(self).occupied(index),
        ensures
            final(self).valid(),
            !final(self).occupied(index),
    ;
}

pub trait AddWithIndex<T>: Valid {
    /// Whether `index` addresses a live element.
    spec fn has(&self, index: usize) -> bool;

    /// The live element under `index`.
    spec fn at(&self, index: usize) -> T;

    /// No room is left for another element.
    spec fn full(&self) -> bool;

    /// Stores the value that `f` makes from the index it will stand under.
    fn add_with_index<F>(&mut self, f: F) -> (r: Result<usize, ()>)
        where
            F: FnOnce(&usize) -> T,
        requires
            old(self).valid(),
            forall|i: usize| f.requires((&i,)),
        ensures
            final(self).valid(),
            r is Err <==> old(self).full(),
            r is Err ==> *final(self) == *old(self),
            r matches Ok(i) ==> {
                &&& !old(self).has(i)
                &&& final(self).has(i)
                &&& f.ensures((&i,), final(self).at(i))
            },
    ;
}

pub trait CursorRead<T>: Valid {
    /// The elements written and not read yet.
    spec fn unread(&self) -> Seq<T>;

    /// The next unread element, which then counts as read.
    fn read(&mut self) -> (r: Option<&T>)
        requires
            old(self).valid(),
        ensures
            final(self).valid(),
            old(self).unread().len() > 0 ==> {
                &&& r matches Some(v) && *v == old(self).unread()[0]
                &&& final(self).unread() == old(self).unread().drop_first()
            },
            old(self).unread().len() == 0 ==> r is None && *final(self) == *old(self),
    ;

    fn read_unchecked(&mut self) -> (r: &T)
        requires
            old(self).valid(),
            old(self).unread().len() > 0,
        ensures
            final(self).valid(),
            *r == old(self).unread()[0],
            final(self).unread() == old(self).unread().drop_first(),
    ;
}

pub trait CursorReadTransmute: ByteCells {
    /// The next unread value, if its whole image was written; it then
    /// counts as read.
    fn read_transmute<V: Plain>(&mut self) -> (r: Option<V>)
        requires
            old(self).valid(),
        ensures
            final(self).valid(),
            V::image_len() <= old(self).unread_bytes().len() ==> {
                &&& r == Some(decoded::<V>(old(self).unread_bytes().take(V::image_len() as int)))
                &&& final(self).unread_bytes() == old(self).unread_bytes().skip(
                    V::image_len() as int,
                )
                &&& final(self).filled_bytes() == old(self).filled_bytes()
            },
            V::image_len() > old(self).unread_bytes().len() ==> r is None && *final(self) == *old(self),
    ;

    fn read_transmute_unchecked<V: Plain>(&mut self) -> (r: V)
        requires
            old(self).valid(),
            V::image_len() <= old(self).unread_bytes().len(),
        ensures
            final(self).valid(),
            r == decoded::<V>(old(self).unread_bytes().take(V::image_len() as int)),
            final(self).unread_bytes() == old(self).unread_bytes().skip(V::image_len() as int),
            final(self).filled_bytes() == old(self).filled_bytes(),
    ;
}

pub trait GetTransmute: Index + ByteCells {
    /// The value whose image starts at `index`, if it lies within the cells.
    fn get_transmute<V: Plain>(&self, index: Self::Index) -> (r: Option<V>)
        requires
            self.valid(),
        ensures
            0 <= Self::slot(index) && Self::slot(index) + V::image_len()
                <= self.byte_cells().len() ==> r == Some(
                decoded::<V>(
                    self.byte_cells().subrange(
                        Self::slot(index),
                        Self::slot(index) + V::image_len(),
                    ),
                ),
            ),
            Self::slot(index) + V::image_len() > self.byte_cells().len() ==> r is None,
    ;
}

pub trait GetTransmuteUnchecked: Index + ByteCells {
    fn get_transmute_unchecked<V: Plain>(&self, index: Self::Index) -> (r: V)
        requires
            self.valid(),
            0 <= Self::slot(index),
            Self::slot(index) + V::image_len() <= self.byte_cells().len(),
        ensures
            r == decoded::<V>(
                self.byte_cells().subrange(Self::slot(index), Self::slot(index) + V::image_len()),
            ),
    ;
}

pub trait PushTransmute: ByteCells {
    /// Appends the image of `value` if at least one cell stays unwritten.
    fn push_transmute<V: Plain>(&mut self, value: V) -> (r: Result<(), ()>)
        requires
            old(self).valid(),
            V::image_len() >= 1,
        ensures
            final(self).valid(),
            old(self).filled_bytes().len() + V::image_len() < old(self).byte_cells().len() ==> {
                &&& r is Ok
                &&& final(self).filled_bytes() == old(self).filled_bytes() + value.image()
                &&& final(self).unread_bytes() == old(self).unread_bytes() + value.image()
            },
            old(self).filled_bytes().len() + V::image_len() >= old(self).byte_cells().len() ==> r is Err
                && *final(self) == *old(self),
    ;
}

pub trait PushTransmuteUnchecked<V: Plain>: ByteCells {
    fn push_transmute_unchecked(&mut self, value: V)
        requires
            old(self).valid(),
            V::image_len() >= 1,
            old(self).filled_bytes().len() + V::image_len() <= old(self).byte_cells().len(),
        ensures
            final(self).valid(),
            final(self).filled_bytes() == old(self).filled_bytes() + value.image(),
            final(self).unread_bytes() == old(self).unread_bytes() + value.image(),
    ;
}

pub trait SetTransmute: ByteCells {
    /// Writes the image of `value` from `index` on, if at least one cell
    /// follows it.
    fn set_transmute<V: Plain>(&mut self, index: usize, value: V) -> (r: Result<(), ()>)
        requires
            old(self).valid(),
            V::image_len() >= 1,
        ensures
            final(self).valid(),
            index + V::image_len() < old(self).byte_cells().len() ==> r is Ok && final(self).byte_cells() == overwrite(old(self).byte_cells(), index as int, value.image()),
            index + V::image_len() >= old(self).byte_cells().len() ==> r is Err && *final(self)
                == *old(self),
    ;

    fn set_transmute_unchecked<V: Plain>(&mut self, index: usize, value: V)
        requires
            old(self).valid(),
            V::image_len() >= 1,
            index + V::image_len() <= old(self).byte_cells().len(),
        ensures
            final(self).valid(),
            final(self).byte_cells() == overwrite(old(self).byte_cells(), index as int, value.image()),
    ;
}

/// Typed reads from the unread bytes.
pub trait GenericRead: ByteCells {
    fn read_type<V: Plain>(&mut self) -> (r: Option<V>)
        requires
            old(self).valid(),
        ensures
            final(self).valid(),
            V::image_len() <= old(self).unread_bytes().len() ==> {
                &&& r == Some(decoded::<V>(old(self).unread_bytes().take(V::image_len() as int)))
                &&& final(self).unread_bytes() == old(self).unread_bytes().skip(
                    V::image_len() as int,
                )
            },
            V::image_len() > old(self).unread_bytes().len() ==> r is None && *final(self) == *old(self),
    ;

    fn read_type_unchecked<V: Plain>(&mut self) -> (r: V)
        requires
            old(self).valid(),
            V::image_len() <= old(self).unread_bytes().len(),
        ensures
            final(self).valid(),
            r == decoded::<V>(old(self).unread_bytes().take(V::image_len() as int)),
            final(self).unread_bytes() == old(self).unread_bytes().skip(V::image_len() as int),
    ;
}

} // verus!
