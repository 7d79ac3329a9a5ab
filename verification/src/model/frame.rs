//! A frame: an immutable run of bytes.
use vstd::prelude::*;

verus! {

/// An opaque byte buffer appended to a group.
#[derive(Debug, PartialEq, Eq)]
pub struct Frame {
    payload: Vec<u8>,
}

impl View for Frame {
    type V = Seq<u8>;

    closed spec fn view(&self) -> Seq<u8> {
        self.payload@
    }
}

impl Clone for Frame {
    fn clone(&self) -> (r: Frame)
        ensures
            r@ == self@,
    {
        let payload = self.payload.clone();
        assert(payload@ =~= self.payload@);
        Frame { payload }
    }
}

impl Frame {
    /// The frame that holds `payload`.
    pub fn new(payload: Vec<u8>) -> (f: Frame)
        ensures
            f@ == payload@,
    {
        Frame { payload }
    }

    /// Number of bytes in the frame.
    pub fn len(&self) -> (n: usize)
        ensures
            n == self@.len(),
    {
        self.payload.len()
    }

    /// The bytes of the frame.
    pub fn as_slice(&self) -> (b: &[u8])
        ensures
            b@ == self@,
    {
        self.payload.as_slice()
    }

    /// Gives the buffer back.
    pub fn into_bytes(self) -> (b: Vec<u8>)
        ensures
            b@ == self@,
    {
        self.payload
    }
}

} // verus!
