//! Text of at most `N` bytes, kept in a [`Vec`] of bytes.
use vstd::prelude::*;
use vstd::slice::slice_subrange;
use vstd::string::StringSliceAdditionalSpecFns;
use vstd::utf8::valid_utf8;
use crate::min_spec;
use crate::vec::Vec;

verus! {

/// Text of at most `N` bytes.
#[derive(Clone)]
pub struct String<const N: usize> {
    vec: Vec<u8, N>,
}

/// The byte for a space, which pads the cells of text built from an array.
pub const PAD: u8 = 32;

impl<const N: usize> View for String<N> {
    type V = Seq<u8>;

    /// The bytes of the text.
    closed spec fn view(&self) -> Seq<u8> {
        self.vec@
    }
}

/// Relies on `std::str::from_utf8`: it accepts valid UTF-8 and then views the
/// very same bytes as text.
#[verifier::external_body]
fn utf8_text(bytes: &[u8]) -> (r: Option<&str>)
    ensures
        r matches Some(s) ==> s.spec_bytes() == bytes@,
        valid_utf8(bytes@) ==> r is Some,
{
    std::str::from_utf8(bytes).ok()
}

impl<const N: usize> String<N> {
    pub closed spec fn wf(&self) -> bool {
        self.vec.wf()
    }

    /// The byte sequence that holds the text.
    pub closed spec fn inner(&self) -> Vec<u8, N> {
        self.vec
    }

    /// The text is the live part of the byte sequence that holds it.
    pub proof fn lemma_inner(&self)
        requires
            self.wf(),
        ensures
            self.inner().wf(),
            self.inner()@ == self@,
    {
    }

    pub fn new() -> (r: Self)
        ensures
            r.wf(),
            r@ == Seq::<u8>::empty(),
            r.inner().wf(),
            r.inner()@ == r@,
    {
        String { vec: Vec::uninit() }
    }

    /// The first `min(L, N)` bytes of `array`; the cells past them, up to
    /// `N`, hold spaces.
    pub fn from_array<const L: usize>(array: [u8; L]) -> (r: Self)
        ensures
            r.wf(),
            r@ == array@.take(min_spec(L as int, N as int)),
            r.inner().wf(),
            r.inner()@ == r@,
            r.inner().cells().len() == N,
            r.inner().cells().take(min_spec(L as int, N as int)) == r@,
            forall|i: int|
                0 <= i < min_spec(L as int, N as int) ==> #[trigger] r.inner().cells()[i]
                    == array@[i],
            forall|i: int|
                min_spec(L as int, N as int) <= i < N ==> #[trigger] r.inner().cells()[i] == PAD,
    {
        let len = crate::min(L, N);
        let mut cells: [u8; N] = [PAD; N];
        let mut i: usize = 0;
        while i < len
            invariant
                len == min_spec(L as int, N as int),
                i <= len,
                cells@.len() == N,
                forall|k: int| 0 <= k < i ==> cells@[k] == array@[k],
                forall|k: int| len <= k < N ==> cells@[k] == PAD,
            decreases len - i,
        {
            cells[i] = array[i];
            i = i + 1;
        }
        let vec = Vec::from_array_and_len(cells, len);
        assert(vec@ =~= array@.take(len as int));
        assert(vec.cells() =~= cells@);
        String { vec }
    }

    pub fn as_vec_mut(&mut self) -> (r: &mut Vec<u8, N>)
        ensures
            *r == old(self).inner(),
            final(self).inner() == *final(r),
            old(self).wf() ==> r.wf() && r@ == old(self)@,
            final(r).wf() ==> final(self).wf() && final(self)@ == final(r)@,
    {
        &mut self.vec
    }

    pub fn as_vec(&self) -> (r: &Vec<u8, N>)
        ensures
            *r == self.inner(),
            self.wf() ==> r.wf() && r@ == self@,
    {
        &self.vec
    }

    pub fn len(&self) -> (r: usize)
        requires
            self.wf(),
        ensures
            r == self@.len(),
    {
        self.vec.len()
    }

    /// The text as a `str`; its bytes must be valid UTF-8.
    pub fn as_str(&self) -> (r: &str)
        requires
            self.wf(),
            valid_utf8(self@),
        ensures
            r.spec_bytes() == self@,
    {
        proof {
            self.vec.lemma_len_bound();
        }
        let bytes = slice_subrange(self.vec.as_slice(), 0, self.vec.len());
        assert(bytes@ =~= self@);
        match utf8_text(bytes) {
            Some(text) => text,
            None => "",
        }
    }
}

impl<const N: usize> Default for String<N> {
    fn default() -> (r: Self)
        ensures
            r.wf(),
            r@ == Seq::<u8>::empty(),
    {
        Self::new()
    }
}

} // verus!
