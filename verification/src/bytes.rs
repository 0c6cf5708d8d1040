//! Items that a tree can hold: anything with a view as bytes.
use vstd::prelude::*;
use vstd::string::StringSliceAdditionalSpecFns;

verus! {

/// A value that can be read as a byte sequence.
///
/// The bytes are hashed exactly as they are: nothing is prefixed, appended
/// or normalised.
pub trait AsBytes {
    /// The bytes of this value.
    spec fn bytes(&self) -> Seq<u8>;

    /// Borrows the bytes of this value.
    fn as_byte_slice(&self) -> (out: &[u8])
        ensures
            out@ == self.bytes(),
    ;
}

impl AsBytes for [u8] {
    open spec fn bytes(&self) -> Seq<u8> {
        self@
    }

    fn as_byte_slice(&self) -> (out: &[u8]) {
        self
    }
}

impl<const N: usize> AsBytes for [u8; N] {
    open spec fn bytes(&self) -> Seq<u8> {
        self@
    }

    fn as_byte_slice(&self) -> (out: &[u8]) {
        self.as_slice()
    }
}

impl AsBytes for Vec<u8> {
    open spec fn bytes(&self) -> Seq<u8> {
        self@
    }

    fn as_byte_slice(&self) -> (out: &[u8]) {
        self.as_slice()
    }
}

impl AsBytes for str {
    /// The UTF-8 encoding of the string.
    open spec fn bytes(&self) -> Seq<u8> {
        self.spec_bytes()
    }

    fn as_byte_slice(&self) -> (out: &[u8]) {
        self.as_bytes()
    }
}

impl AsBytes for String {
    /// The UTF-8 encoding of the string.
    open spec fn bytes(&self) -> Seq<u8> {
        vstd::utf8::encode_utf8(self@)
    }

    fn as_byte_slice(&self) -> (out: &[u8]) {
        self.as_str().as_bytes()
    }
}

impl<'a, T: AsBytes + ?Sized> AsBytes for &'a T {
    /// The bytes of the value referred to.
    open spec fn bytes(&self) -> Seq<u8> {
        (**self).bytes()
    }

    fn as_byte_slice(&self) -> (out: &[u8]) {
        (**self).as_byte_slice()
    }
}

} // verus!
