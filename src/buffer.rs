//! A byte buffer of fixed capacity that text and bytes are written into.
use vstd::prelude::*;
use vstd::string::StringSliceAdditionalSpecFns;
use vstd::slice::slice_subrange;
use vstd::utf8::valid_utf8;
use crate::topic::push_bytes;
use crate::wire::utf8_str;

verus! {

/// Holds at most `N` bytes, written from the front.
pub struct ByteBuffer<const N: usize> {
    data: Vec<u8>,
}

impl<const N: usize> View for ByteBuffer<N> {
    type V = Seq<u8>;

    closed spec fn view(&self) -> Seq<u8> {
        self.data@
    }
}

impl<const N: usize> ByteBuffer<N> {
    pub closed spec fn wf(&self) -> bool {
        self.data@.len() <= N
    }

    /// A well-formed buffer holds at most `N` bytes.
    pub proof fn lemma_bounds(&self)
        requires
            self.wf(),
        ensures
            self@.len() <= N,
    {
    }

    /// An empty buffer.
    pub fn new() -> (r: Self)
        ensures
            r.wf(),
            r@ == Seq::<u8>::empty(),
    {
        ByteBuffer { data: Vec::new() }
    }

    /// Appends `buf`, which must fit.
    pub fn write(&mut self, buf: &[u8])
        requires
            old(self).wf(),
            old(self)@.len() + buf@.len() <= N,
        ensures
            final(self).wf(),
            final(self)@.len() <= N,
            final(self)@ == old(self)@ + buf@,
    {
        push_bytes(&mut self.data, buf);
    }

    /// Appends as much of the text `s` as fits; the rest is dropped.
    pub fn write_str(&mut self, s: &str)
        requires
            old(self).wf(),
        ensures
            final(self).wf(),
            final(self)@.len() <= N,
            final(self)@ == old(self)@ + s.spec_bytes().take(
                if old(self)@.len() + s.spec_bytes().len() <= N {
                    s.spec_bytes().len() as int
                } else {
                    N - old(self)@.len()
                },
            ),
    {
        let bytes = s.as_bytes();
        let room = N - self.data.len();
        let n = if bytes.len() <= room { bytes.len() } else { room };
        push_bytes(&mut self.data, slice_subrange(bytes, 0, n));
    }

    /// The bytes written so far.
    pub fn buffer(&self) -> (r: &[u8])
        ensures
            r@ == self@,
    {
        self.data.as_slice()
    }

    /// The bytes written so far as text.
    pub fn as_str(&self) -> (r: &str)
        requires
            valid_utf8(self@),
        ensures
            r.spec_bytes() == self@,
    {
        match utf8_str(self.data.as_slice()) {
            Some(s) => s,
            None => {
                proof {
                    assert(false);
                }
                ""
            },
        }
    }

    /// The number of bytes the buffer can hold.
    pub fn capacity(&self) -> (r: usize)
        ensures
            r == N,
    {
        N
    }
}

} // verus!
