use vstd::prelude::*;

verus! {

use vstd::slice::slice_to_vec;

/// An owned string buffer backing one registered string variable. The
/// native layer reads it by address, so the managed wrapper replaces the
/// contents in place and never hands the buffer out by value. The contents
/// are byte-oriented: no encoding is enforced.
#[derive(Debug)]
pub struct StringValue {
    bytes: Vec<u8>,
}

impl View for StringValue {
    type V = Seq<u8>;

    closed spec fn view(&self) -> Seq<u8> {
        self.bytes@
    }
}

impl StringValue {
    /// A fresh buffer holding a copy of the given bytes.
    pub fn new(value: &[u8]) -> (r: StringValue)
        ensures
            r@ == value@,
    {
        StringValue { bytes: slice_to_vec(value) }
    }

    /// Replaces the contents with a copy of the given bytes.
    pub fn set(&mut self, value: &[u8])
        ensures
            final(self)@ == value@,
    {
        self.bytes = slice_to_vec(value);
    }

    /// The current contents.
    pub fn get(&self) -> (r: &Vec<u8>)
        ensures
            r@ == self@,
    {
        &self.bytes
    }

    /// The number of bytes held.
    pub fn len(&self) -> (r: usize)
        ensures
            r == self@.len(),
    {
        self.bytes.len()
    }
}

impl Clone for StringValue {
    /// A deep, independent copy of the buffer.
    fn clone(&self) -> (r: Self)
        ensures
            r@ == self@,
    {
        StringValue { bytes: self.bytes.clone() }
    }
}

} // verus!
