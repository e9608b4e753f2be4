//! A byte buffer with a fill mark and a read mark, for staging encoded values.
use vstd::prelude::*;
use vstd::slice::slice_subrange;
use crate::plain::Plain;
use crate::traits::{
    ByteCells, Cap, Clear, CursorRead, CursorReadTransmute, GenericRead, GetTransmute,
    GetTransmuteUnchecked, GetUnchecked, Index, Items, Push, PushTransmute,
    PushTransmuteUnchecked, SetTransmute, Slots, Valid,
};

verus! {

broadcast use vstd::array::group_array_axioms;

/// What a [`Cursor`] holds: its cells, the read mark and the fill mark.
pub struct CursorView<T> {
    pub cells: Seq<T>,
    pub pos: nat,
    pub filled_len: nat,
}

impl<T> CursorView<T> {
    /// The same cells with both marks back at zero.
    pub open spec fn cleared(self) -> CursorView<T> {
        CursorView { cells: self.cells, pos: 0, filled_len: 0 }
    }

    /// The filled cells that were not read yet.
    pub open spec fn unread(self) -> Seq<T> {
        self.cells.subrange(self.pos as int, self.filled_len as int)
    }
}

/// `cells` with `bytes` written over it from index `at` on.
pub open spec fn overwrite<T>(cells: Seq<T>, at: int, bytes: Seq<T>) -> Seq<T> {
    cells.take(at) + bytes + cells.skip(at + bytes.len())
}

/// The value whose image is `bytes`.
pub open spec fn decoded<V: Plain>(bytes: Seq<u8>) -> V {
    choose|v: V| v.image() == bytes
}

/// How many units of `unit_size` bytes it takes to hold `input_size` bytes.
pub open spec fn units_spec(input_size: int, unit_size: int) -> int {
    if input_size % unit_size != 0 {
        input_size / unit_size + 1
    } else {
        input_size / unit_size
    }
}

/// The size in bytes of one cell of a byte cursor.
const CELL_SIZE: usize = 1;

fn units_for_size(input_size: usize, unit_size: usize) -> (r: usize)
    requires
        unit_size > 0,
    ensures
        r == units_spec(input_size as int, unit_size as int),
{
    let whole = input_size / unit_size;
    if input_size % unit_size != 0 {
        assert(whole < input_size) by (nonlinear_arith)
            requires
                whole == input_size / unit_size,
                input_size % unit_size != 0,
                unit_size > 0,
        ;
        whole + 1
    } else {
        whole
    }
}

/// A fixed buffer of `N` cells. Writes fill it from the front; reads consume
/// the filled part from the front, independently of the writes.
///
/// The operations are those of a byte cursor, `Cursor<u8, N>`: typed values
/// go in and out as their [`Plain`] images.
#[derive(Clone)]
pub struct Cursor<T, const N: usize> {
    buffer: [T; N],
    pos: usize,
    filled_len: usize,
}

impl<T, const N: usize> View for Cursor<T, N> {
    type V = CursorView<T>;

    closed spec fn view(&self) -> CursorView<T> {
        CursorView { cells: self.buffer@, pos: self.pos as nat, filled_len: self.filled_len as nat }
    }
}

impl<T, const N: usize> Cursor<T, N> {
    /// The read mark within the filled part, the filled part within the buffer.
    pub open spec fn wf(&self) -> bool {
        &&& self@.pos <= self@.filled_len <= N
        &&& self@.cells.len() == N
    }
}

impl<const N: usize> Cursor<u8, N> {
    pub fn new() -> (r: Self)
        ensures
            r.wf(),
            r@.pos == 0,
            r@.filled_len == 0,
    {
        Cursor { buffer: [0u8; N], pos: 0, filled_len: 0 }
    }

    /// Forgets what was written and read; the cells keep their contents.
    pub fn clear(&mut self)
        requires
            old(self).wf(),
        ensures
            final(self).wf(),
            final(self)@ == old(self)@.cleared(),
    {
        self.filled_len = 0;
        self.pos = 0;
    }

    /// Lends out every cell, filled or not.
    pub fn as_array(&mut self) -> (r: &mut [u8; N])
        requires
            old(self).wf(),
        ensures
            r@ == old(self)@.cells,
            final(self).wf(),
            final(self)@ == (CursorView { cells: final(r)@, ..old(self)@ }),
    {
        &mut self.buffer
    }

    pub fn remaining(&self) -> (r: usize)
        requires
            self.wf(),
        ensures
            r == self@.filled_len - self@.pos,
    {
        self.filled_len - self.pos
    }

    pub fn capacity(&self) -> (r: usize)
        ensures
            r == N,
    {
        N
    }

    pub fn pos(&self) -> (r: usize)
        ensures
            r == self@.pos,
    {
        self.pos
    }

    pub fn filled_len(&self) -> (r: usize)
        ensures
            r == self@.filled_len,
    {
        self.filled_len
    }

    /// Lends out the read mark. Whoever changes it keeps it within the filled
    /// part, as every other operation requires.
    pub fn pos_mut(&mut self) -> (r: &mut usize)
        ensures
            *r == old(self)@.pos,
            final(self)@ == (CursorView { pos: *final(r) as nat, ..old(self)@ }),
    {
        &mut self.pos
    }

    /// Lends out the fill mark. Whoever changes it keeps it between the read
    /// mark and `N`, as every other operation requires.
    pub fn filled_len_mut(&mut self) -> (r: &mut usize)
        ensures
            *r == old(self)@.filled_len,
            final(self)@ == (CursorView { filled_len: *final(r) as nat, ..old(self)@ }),
    {
        &mut self.filled_len
    }

    /// The filled cells.
    pub fn filled(&self) -> (r: &[u8])
        requires
            self.wf(),
        ensures
            r@ == self@.cells.take(self@.filled_len as int),
    {
        slice_subrange(self.buffer.as_slice(), 0, self.filled_len)
    }

    /// The cells past the filled part.
    pub fn unfilled(&self) -> (r: &[u8])
        requires
            self.wf(),
        ensures
            r@ == self@.cells.skip(self@.filled_len as int),
    {
        let r = slice_subrange(self.buffer.as_slice(), self.filled_len, N);
        assert(r@ =~= self@.cells.skip(self@.filled_len as int));
        r
    }

    /// Lends out the filled cells.
    pub fn filled_mut(&mut self) -> (r: &mut [u8])
        requires
            old(self).wf(),
        ensures
            r@ == old(self)@.cells.take(old(self)@.filled_len as int),
            final(self)@ == (CursorView {
                cells: final(r)@ + old(self)@.cells.skip(old(self)@.filled_len as int),
                ..old(self)@
            }),
    {
        let filled_len = self.filled_len;
        let whole: &mut [u8] = &mut self.buffer;
        let (front, back) = whole.split_at_mut(filled_len);
        front
    }

    /// Lends out the cells past the filled part, where producers write.
    pub fn unfilled_mut(&mut self) -> (r: &mut [u8])
        requires
            old(self).wf(),
        ensures
            r@ == old(self)@.cells.skip(old(self)@.filled_len as int),
            final(self)@ == (CursorView {
                cells: old(self)@.cells.take(old(self)@.filled_len as int) + final(r)@,
                ..old(self)@
            }),
    {
        let filled_len = self.filled_len;
        let whole: &mut [u8] = &mut self.buffer;
        let (front, back) = whole.split_at_mut(filled_len);
        back
    }

    pub fn push(&mut self, item: u8) -> (r: Result<(), u8>)
        requires
            old(self).wf(),
        ensures
            final(self).wf(),
            old(self)@.filled_len < N ==> r is Ok && final(self)@ == (CursorView {
                cells: old(self)@.cells.update(old(self)@.filled_len as int, item),
                filled_len: old(self)@.filled_len + 1,
                ..old(self)@
            }),
            old(self)@.filled_len >= N ==> r == Err::<(), u8>(item) && *final(self) == *old(self),
    {
        if self.filled_len < N {
            self.push_unchecked(item);
            Ok(())
        } else {
            Err(item)
        }
    }

    pub fn push_unchecked(&mut self, item: u8)
        requires
            old(self).wf(),
            old(self)@.filled_len < N,
        ensures
            final(self).wf(),
            final(self)@ == (CursorView {
                cells: old(self)@.cells.update(old(self)@.filled_len as int, item),
                filled_len: old(self)@.filled_len + 1,
                ..old(self)@
            }),
    {
        self.buffer[self.filled_len] = item;
        self.filled_len = self.filled_len + 1;
    }

    /// The next unread byte, if any, which then counts as read.
    pub fn read(&mut self) -> (r: Option<&u8>)
        requires
            old(self).wf(),
        ensures
            final(self).wf(),
            old(self)@.pos < old(self)@.filled_len ==> {
                &&& r matches Some(v) && *v == old(self)@.cells[old(self)@.pos as int]
                &&& final(self)@ == (CursorView { pos: old(self)@.pos + 1, ..old(self)@ })
            },
            old(self)@.pos >= old(self)@.filled_len ==> r is None && *final(self) == *old(self),
    {
        if self.pos < self.filled_len {
            Some(self.read_unchecked())
        } else {
            None
        }
    }

    pub fn read_unchecked(&mut self) -> (r: &u8)
        requires
            old(self).wf(),
            old(self)@.pos < old(self)@.filled_len,
        ensures
            *r == old(self)@.cells[old(self)@.pos as int],
            final(self).wf(),
            final(self)@ == (CursorView { pos: old(self)@.pos + 1, ..old(self)@ }),
    {
        let pos = self.pos;
        self.pos = pos + 1;
        &self.buffer[pos]
    }

    pub fn get_unchecked(&self, index: usize) -> (r: &u8)
        requires
            self.wf(),
            index < N,
        ensures
            *r == self@.cells[index as int],
    {
        &self.buffer[index]
    }

    pub fn get_unchecked_mut(&mut self, index: usize) -> (r: &mut u8)
        requires
            old(self).wf(),
            index < N,
        ensures
            *r == old(self)@.cells[index as int],
            final(self).wf(),
            final(self)@ == (CursorView {
                cells: old(self)@.cells.update(index as int, *final(r)),
                ..old(self)@
            }),
    {
        &mut self.buffer[index]
    }
}

impl<const N: usize> Cursor<u8, N> {
    /// Writes `bytes` over the cells from `at` on; the marks stay.
    fn write_bytes(&mut self, at: usize, bytes: &[u8])
        requires
            old(self).wf(),
            at + bytes@.len() <= N,
        ensures
            final(self).wf(),
            final(self)@ == (CursorView {
                cells: overwrite(old(self)@.cells, at as int, bytes@),
                ..old(self)@
            }),
    {
        let mut i: usize = 0;
        assert(overwrite(self@.cells, at as int, bytes@.take(0)) =~= self@.cells);
        while i < bytes.len()
            invariant
                self.wf(),
                i <= bytes@.len(),
                at + bytes@.len() <= N,
                self@ == (CursorView {
                    cells: overwrite(old(self)@.cells, at as int, bytes@.take(i as int)),
                    ..old(self)@
                }),
            decreases bytes@.len() - i,
        {
            self.buffer[at + i] = bytes[i];
            i = i + 1;
            assert(self@.cells =~= overwrite(old(self)@.cells, at as int, bytes@.take(i as int)));
        }
        assert(bytes@.take(i as int) =~= bytes@);
    }

    /// Reads the value whose image fills the cells from `at` on.
    fn read_value<V: Plain>(&self, at: usize) -> (r: V)
        requires
            self.wf(),
            at + V::image_len() <= N,
        ensures
            r == decoded::<V>(self@.cells.subrange(at as int, at + V::image_len())),
    {
        let size = V::size();
        let bytes = slice_subrange(self.buffer.as_slice(), at, at + size);
        let r = V::decode(bytes);
        proof {
            lemma_decoded(r);
        }
        r
    }

    /// The value whose image starts at `index`, if it lies within the buffer.
    pub fn get_transmute<V: Plain>(&self, index: usize) -> (r: Option<V>)
        requires
            self.wf(),
        ensures
            index + V::image_len() <= N ==> r == Some(
                decoded::<V>(self@.cells.subrange(index as int, index + V::image_len())),
            ),
            index + V::image_len() > N ==> r is None,
    {
        if index <= N && V::size() <= N - index {
            Some(self.get_transmute_unchecked(index))
        } else {
            None
        }
    }

    pub fn get_transmute_unchecked<V: Plain>(&self, index: usize) -> (r: V)
        requires
            self.wf(),
            index + V::image_len() <= N,
        ensures
            r == decoded::<V>(self@.cells.subrange(index as int, index + V::image_len())),
    {
        self.read_value(index)
    }

    /// Appends the image of `value` to the filled part, if it leaves at least
    /// one cell unfilled.
    pub fn push_transmute<V: Plain>(&mut self, value: V) -> (r: Result<(), ()>)
        requires
            old(self).wf(),
            V::image_len() >= 1,
        ensures
            final(self).wf(),
            V::image_len() + old(self)@.filled_len < N ==> r is Ok && final(self)@
                == pushed_transmute(old(self)@, value),
            V::image_len() + old(self)@.filled_len >= N ==> r is Err && *final(self) == *old(self),
    {
        if V::size() < N - self.filled_len {
            self.push_transmute_unchecked(value);
            Ok(())
        } else {
            Err(())
        }
    }

    pub fn push_transmute_unchecked<V: Plain>(&mut self, value: V)
        requires
            old(self).wf(),
            V::image_len() >= 1,
            V::image_len() + old(self)@.filled_len <= N,
        ensures
            final(self).wf(),
            final(self)@ == pushed_transmute(old(self)@, value),
    {
        let bytes = value.encode();
        proof {
            V::lemma_image(value, value);
        }
        let at = self.filled_len;
        self.write_bytes(at, bytes.as_slice());
        let advance = units_for_size(bytes.len(), CELL_SIZE);
        assert(advance == bytes@.len()) by (nonlinear_arith)
            requires
                advance == units_spec(bytes@.len() as int, CELL_SIZE as int),
                CELL_SIZE == 1,
        ;
        self.filled_len = at + advance;
    }

    /// The next unread value, if its whole image is filled; the read mark
    /// then moves past it.
    pub fn read_transmute<V: Plain>(&mut self) -> (r: Option<V>)
        requires
            old(self).wf(),
        ensures
            final(self).wf(),
            old(self)@.pos + V::image_len() <= old(self)@.filled_len ==> {
                &&& r == Some(
                    decoded::<V>(
                        old(self)@.cells.subrange(
                            old(self)@.pos as int,
                            (old(self)@.pos + V::image_len()) as int,
                        ),
                    ),
                )
                &&& final(self)@ == (CursorView {
                    pos: old(self)@.pos + V::image_len(),
                    ..old(self)@
                })
            },
            old(self)@.pos + V::image_len() > old(self)@.filled_len ==> r is None && *final(self) == *old(self),
    {
        if V::size() <= self.filled_len - self.pos {
            Some(self.read_transmute_unchecked())
        } else {
            None
        }
    }

    pub fn read_transmute_unchecked<V: Plain>(&mut self) -> (r: V)
        requires
            old(self).wf(),
            old(self)@.pos + V::image_len() <= old(self)@.filled_len,
        ensures
            r == decoded::<V>(
                old(self)@.cells.subrange(old(self)@.pos as int, (old(self)@.pos + V::image_len()) as int),
            ),
            final(self).wf(),
            final(self)@ == (CursorView { pos: old(self)@.pos + V::image_len(), ..old(self)@ }),
    {
        let pos = self.pos;
        let r = self.read_value(pos);
        self.pos = pos + V::size();
        r
    }

    /// Writes the image of `value` from `index` on, if at least one cell of
    /// the buffer follows it; the marks stay.
    pub fn set_transmute<V: Plain>(&mut self, index: usize, value: V) -> (r: Result<(), ()>)
        requires
            old(self).wf(),
            V::image_len() >= 1,
        ensures
            final(self).wf(),
            index + V::image_len() < N ==> r is Ok && final(self)@ == (CursorView {
                cells: overwrite(old(self)@.cells, index as int, value.image()),
                ..old(self)@
            }),
            index + V::image_len() >= N ==> r is Err && *final(self) == *old(self),
    {
        if index < N && V::size() < N - index {
            self.set_transmute_unchecked(index, value);
            Ok(())
        } else {
            Err(())
        }
    }

    pub fn set_transmute_unchecked<V: Plain>(&mut self, index: usize, value: V)
        requires
            old(self).wf(),
            V::image_len() >= 1,
            index + V::image_len() <= N,
        ensures
            final(self).wf(),
            final(self)@ == (CursorView {
                cells: overwrite(old(self)@.cells, index as int, value.image()),
                ..old(self)@
            }),
    {
        let bytes = value.encode();
        proof {
            V::lemma_image(value, value);
        }
        self.write_bytes(index, bytes.as_slice());
    }

    /// Moves the unread bytes of `src` to the end of the filled part, if they
    /// fit, and then clears `src`.
    pub fn push_from_cursor<const N2: usize>(&mut self, src: &mut Cursor<u8, N2>) -> (r: Result<
        (),
        (),
    >)
        requires
            old(self).wf(),
            old(src).wf(),
        ensures
            final(self).wf(),
            final(src).wf(),
            old(self)@.filled_len + old(src)@.unread().len() <= N ==> {
                &&& r is Ok
                &&& final(self)@ == transferred(old(self)@, old(src)@)
                &&& final(src)@ == old(src)@.cleared()
            },
            old(self)@.filled_len + old(src)@.unread().len() > N ==> {
                &&& r is Err
                &&& *final(self) == *old(self)
                &&& *final(src) == *old(src)
            },
    {
        let count = src.filled_len - src.pos;
        if count <= N - self.filled_len {
            let unread = slice_subrange(src.buffer.as_slice(), src.pos, src.filled_len);
            let at = self.filled_len;
            self.write_bytes(at, unread);
            self.filled_len = at + count;
            src.clear();
            Ok(())
        } else {
            Err(())
        }
    }
}

/// Why taking in bytes from a stream failed.
#[derive(Debug, Clone, Copy, PartialEq, Eq, Structural)]
pub enum StreamError {
    /// The stream gave no bytes: it is taken to be closed.
    ConnectionAborted,
}

impl<const N: usize> Cursor<u8, N> {
    /// Records that a stream wrote `read_length` bytes at the start of the
    /// unfilled part (see [`Cursor::unfilled_mut`]). A read of no bytes
    /// means the stream was closed, and is an error.
    pub fn push_read_length(&mut self, read_length: usize) -> (r: Result<usize, StreamError>)
        requires
            old(self).wf(),
            old(self)@.filled_len + read_length <= N,
        ensures
            final(self).wf(),
            read_length == 0 ==> r == Err::<usize, StreamError>(StreamError::ConnectionAborted)
                && *final(self) == *old(self),
            read_length > 0 ==> r == Ok::<usize, StreamError>(read_length) && final(self)@ == (
            CursorView { filled_len: old(self)@.filled_len + read_length as nat, ..old(self)@ }),
    {
        if read_length == 0 {
            Err(StreamError::ConnectionAborted)
        } else {
            self.filled_len = self.filled_len + read_length;
            Ok(read_length)
        }
    }
}

impl<const N: usize> Default for Cursor<u8, N> {
    fn default() -> (r: Self)
        ensures
            r.wf(),
            r@.pos == 0,
            r@.filled_len == 0,
    {
        Self::new()
    }
}

impl<const N: usize> Valid for Cursor<u8, N> {
    open spec fn valid(&self) -> bool {
        self.wf()
    }
}

impl<const N: usize> Index for Cursor<u8, N> {
    type Index = usize;

    open spec fn slot(index: usize) -> int {
        index as int
    }
}

impl<const N: usize> Items<u8> for Cursor<u8, N> {
    open spec fn items(&self) -> Seq<u8> {
        self@.cells.take(self@.filled_len as int)
    }

    open spec fn limit(&self) -> nat {
        N as nat
    }
}

impl<const N: usize> Slots<u8> for Cursor<u8, N> {
    open spec fn holds(&self, index: usize) -> bool {
        index < N
    }

    open spec fn value_at(&self, index: usize) -> u8 {
        self@.cells[index as int]
    }
}

impl<const N: usize> ByteCells for Cursor<u8, N> {
    open spec fn byte_cells(&self) -> Seq<u8> {
        self@.cells
    }

    open spec fn filled_bytes(&self) -> Seq<u8> {
        self@.cells.take(self@.filled_len as int)
    }

    open spec fn unread_bytes(&self) -> Seq<u8> {
        self@.unread()
    }
}

impl<const N: usize> Cap for Cursor<u8, N> {
    type Cap = usize;

    open spec fn cap_of(&self) -> usize {
        N
    }

    fn capacity(&self) -> (r: usize) {
        N
    }
}

impl<const N: usize> Clear for Cursor<u8, N> {
    open spec fn is_clear(&self) -> bool {
        self@.pos == 0 && self@.filled_len == 0
    }

    fn clear(&mut self) {
        Cursor::clear(self)
    }
}

impl<const N: usize> Push<u8> for Cursor<u8, N> {
    fn push(&mut self, value: u8) -> (r: Result<(), u8>) {
        let r = Cursor::push(self, value);
        assert(self.items() =~= old(self).items().push(value) || r is Err);
        r
    }

    fn push_unchecked(&mut self, value: u8) {
        Cursor::push_unchecked(self, value);
        assert(self.items() =~= old(self).items().push(value));
    }
}

impl<const N: usize> GetUnchecked<u8> for Cursor<u8, N> {
    fn get_unchecked(&self, index: usize) -> (r: &u8) {
        Cursor::get_unchecked(self, index)
    }

    fn get_unchecked_mut(&mut self, index: usize) -> (r: &mut u8) {
        Cursor::get_unchecked_mut(self, index)
    }
}

impl<const N: usize> CursorRead<u8> for Cursor<u8, N> {
    open spec fn unread(&self) -> Seq<u8> {
        self@.unread()
    }

    fn read(&mut self) -> (r: Option<&u8>) {
        proof {
            lemma_read_window::<u8>(self@);
        }
        Cursor::read(self)
    }

    fn read_unchecked(&mut self) -> (r: &u8) {
        proof {
            lemma_read_window::<u8>(self@);
        }
        Cursor::read_unchecked(self)
    }
}

impl<const N: usize> CursorReadTransmute for Cursor<u8, N> {
    fn read_transmute<V: Plain>(&mut self) -> (r: Option<V>) {
        let r = Cursor::read_transmute(self);
        proof {
            lemma_read_window::<V>(old(self)@);
        }
        r
    }

    fn read_transmute_unchecked<V: Plain>(&mut self) -> (r: V) {
        let r = Cursor::read_transmute_unchecked(self);
        proof {
            lemma_read_window::<V>(old(self)@);
        }
        r
    }
}

impl<const N: usize> GenericRead for Cursor<u8, N> {
    fn read_type<V: Plain>(&mut self) -> (r: Option<V>) {
        let r = Cursor::read_transmute(self);
        proof {
            lemma_read_window::<V>(old(self)@);
        }
        r
    }

    fn read_type_unchecked<V: Plain>(&mut self) -> (r: V) {
        let r = Cursor::read_transmute_unchecked(self);
        proof {
            lemma_read_window::<V>(old(self)@);
        }
        r
    }
}

impl<const N: usize> GetTransmute for Cursor<u8, N> {
    fn get_transmute<V: Plain>(&self, index: usize) -> (r: Option<V>) {
        Cursor::get_transmute(self, index)
    }
}

impl<const N: usize> GetTransmuteUnchecked for Cursor<u8, N> {
    fn get_transmute_unchecked<V: Plain>(&self, index: usize) -> (r: V) {
        Cursor::get_transmute_unchecked(self, index)
    }
}

impl<const N: usize> PushTransmute for Cursor<u8, N> {
    fn push_transmute<V: Plain>(&mut self, value: V) -> (r: Result<(), ()>) {
        let r = Cursor::push_transmute(self, value);
        proof {
            if r is Ok {
                lemma_append_window(old(self)@, value);
            }
        }
        r
    }
}

impl<V: Plain, const N: usize> PushTransmuteUnchecked<V> for Cursor<u8, N> {
    fn push_transmute_unchecked(&mut self, value: V) {
        Cursor::push_transmute_unchecked(self, value);
        proof {
            lemma_append_window(old(self)@, value);
        }
    }
}

impl<const N: usize> SetTransmute for Cursor<u8, N> {
    fn set_transmute<V: Plain>(&mut self, index: usize, value: V) -> (r: Result<(), ()>) {
        Cursor::set_transmute(self, index, value)
    }

    fn set_transmute_unchecked<V: Plain>(&mut self, index: usize, value: V) {
        Cursor::set_transmute_unchecked(self, index, value)
    }
}

/// The first bytes of the unread part are the window that a typed read
/// decodes, and the rest is what stays unread after it.
proof fn lemma_read_window<V: Plain>(c: CursorView<u8>)
    requires
        c.pos <= c.filled_len <= c.cells.len(),
    ensures
        c.pos + V::image_len() <= c.filled_len ==> {
            &&& c.unread().take(V::image_len() as int) == c.cells.subrange(
                c.pos as int,
                (c.pos + V::image_len()) as int,
            )
            &&& (CursorView { pos: c.pos + V::image_len(), ..c }).unread() == c.unread().skip(
                V::image_len() as int,
            )
        },
{
    if c.pos + V::image_len() <= c.filled_len {
        assert(c.unread().take(V::image_len() as int) =~= c.cells.subrange(
            c.pos as int,
            (c.pos + V::image_len()) as int,
        ));
        assert((CursorView { pos: c.pos + V::image_len(), ..c }).unread() =~= c.unread().skip(
            V::image_len() as int,
        ));
    }
}

/// Appending an image extends both the filled and the unread part by it.
proof fn lemma_append_window<V: Plain>(c: CursorView<u8>, value: V)
    requires
        c.pos <= c.filled_len,
        c.filled_len + V::image_len() <= c.cells.len(),
    ensures
        ({
            let d = pushed_transmute(c, value);
            &&& d.cells.take(d.filled_len as int) == c.cells.take(c.filled_len as int)
                + value.image()
            &&& d.unread() == c.unread() + value.image()
        }),
{
    V::lemma_image(value, value);
    let d = pushed_transmute(c, value);
    assert(d.cells.take(d.filled_len as int) =~= c.cells.take(c.filled_len as int)
        + value.image());
    assert(d.unread() =~= c.unread() + value.image());
}

/// The cursor after the image of `value` was appended to its filled part.
pub open spec fn pushed_transmute<V: Plain>(c: CursorView<u8>, value: V) -> CursorView<u8> {
    CursorView {
        cells: overwrite(c.cells, c.filled_len as int, value.image()),
        filled_len: c.filled_len + V::image_len(),
        ..c
    }
}

/// `dst` after the unread bytes of `src` were appended to its filled part.
pub open spec fn transferred(dst: CursorView<u8>, src: CursorView<u8>) -> CursorView<u8> {
    CursorView {
        cells: overwrite(dst.cells, dst.filled_len as int, src.unread()),
        filled_len: dst.filled_len + src.unread().len(),
        ..dst
    }
}

/// Clearing twice leaves the cursor as clearing once does: both marks at
/// zero, as in a new cursor, and the cells untouched.
pub proof fn lemma_clear_idempotent<T>(c: CursorView<T>)
    ensures
        c.cleared().cleared() == c.cleared(),
        c.cleared().pos == 0,
        c.cleared().filled_len == 0,
        c.cleared().cells == c.cells,
{
}

/// Once everything written was read (a new or cleared cursor, say), a value
/// appended by `push_transmute` can be read by `read_transmute`, and reads
/// back as the same value.
pub proof fn lemma_transmute_round_trip<V: Plain>(c: CursorView<u8>, value: V)
    requires
        c.pos == c.filled_len,
        c.filled_len + V::image_len() <= c.cells.len(),
    ensures
        ({
            let d = pushed_transmute(c, value);
            &&& d.pos + V::image_len() <= d.filled_len
            &&& decoded::<V>(d.cells.subrange(d.pos as int, (d.pos + V::image_len()) as int))
                == value
        }),
{
    V::lemma_image(value, value);
    let d = pushed_transmute(c, value);
    assert(d.cells.subrange(d.pos as int, (d.pos + V::image_len()) as int) =~= value.image());
    lemma_decoded(value);
}

/// When the unread bytes of `src` are the image of a value, moving them by
/// `push_from_cursor` into a cursor that has read everything written to it
/// lets that cursor read the same value; `src` is left with both marks at zero.
pub proof fn lemma_transfer_round_trip<V: Plain>(
    dst: CursorView<u8>,
    src: CursorView<u8>,
    value: V,
)
    requires
        dst.pos == dst.filled_len,
        src.pos <= src.filled_len <= src.cells.len(),
        src.unread() == value.image(),
        dst.filled_len + src.unread().len() <= dst.cells.len(),
    ensures
        ({
            let t = transferred(dst, src);
            &&& t.pos + V::image_len() <= t.filled_len
            &&& decoded::<V>(t.cells.subrange(t.pos as int, (t.pos + V::image_len()) as int))
                == value
        }),
        src.cleared().pos == 0,
        src.cleared().filled_len == 0,
{
    V::lemma_image(value, value);
    let t = transferred(dst, src);
    assert(t.cells.subrange(t.pos as int, (t.pos + V::image_len()) as int) =~= value.image());
    lemma_decoded(value);
}

/// A value is the one that its own image decodes to.
pub proof fn lemma_decoded<V: Plain>(v: V)
    ensures
        decoded::<V>(v.image()) == v,
{
    let w = decoded::<V>(v.image());
    assert(exists|u: V| u.image() == v.image());
    V::lemma_image(w, v);
}

} // verus!
