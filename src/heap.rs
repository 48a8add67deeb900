//! Text held in an owned, growable heap buffer.

use vstd::prelude::*;
use vstd::string::*;
use crate::text::byte_len;

verus! {

/// Relies on String::capacity: the buffer's size in bytes, which is never
/// below the length of the text it holds.
#[verifier::external_body]
fn string_capacity(s: &String) -> (r: usize)
    ensures
        r >= byte_len(s@),
{
    s.capacity()
}

/// Relies on String::clear: the text becomes empty, the buffer is kept.
#[verifier::external_body]
fn string_clear(s: &mut String)
    ensures
        final(s)@ == Seq::<char>::empty(),
{
    s.clear()
}

/// Relies on String::push_str: appends `t` to the text; it panics only when
/// the new length would pass `isize::MAX` bytes.
#[verifier::external_body]
pub(crate) fn string_push_str(s: &mut String, t: &str)
    requires
        byte_len(old(s)@) + byte_len(t@) <= isize::MAX,
    ensures
        final(s)@ == old(s)@ + t@,
{
    s.push_str(t)
}

/// Relies on String::with_capacity: an empty text with room reserved; it
/// panics only when `n` passes `isize::MAX`.
#[verifier::external_body]
pub(crate) fn string_with_capacity(n: usize) -> (r: String)
    requires
        n <= isize::MAX,
    ensures
        r@ == Seq::<char>::empty(),
{
    String::with_capacity(n)
}

/// UTF-8 text in an owned buffer of its own.
pub struct Heap {
    vec: String,
}

impl View for Heap {
    type V = Seq<char>;

    closed spec fn view(&self) -> Seq<char> {
        self.vec@
    }
}

impl Heap {
    /// Takes ownership of `vec` as the buffer, without copying.
    pub fn from_string(vec: String) -> (r: Self)
        ensures
            r@ == vec@,
    {
        Heap { vec }
    }

    /// Gives the buffer back, without copying.
    pub fn into_string(self) -> (r: String)
        ensures
            r@ == self@,
    {
        self.vec
    }

    /// The text, borrowed from the buffer.
    pub fn as_str(&self) -> (r: &str)
        ensures
            r@ == self@,
    {
        self.vec.as_str()
    }

    /// Size of the buffer in bytes.
    pub fn capacity(&self) -> (r: usize)
        ensures
            r >= byte_len(self@),
    {
        string_capacity(&self.vec)
    }

    /// Length of the text in bytes.
    pub fn len(&self) -> (r: usize)
        ensures
            r == byte_len(self@),
    {
        self.vec.as_str().as_bytes().len()
    }

    /// Empties the text and keeps the buffer for reuse.
    pub fn clear(&mut self)
        ensures
            final(self)@ == Seq::<char>::empty(),
    {
        string_clear(&mut self.vec)
    }

    /// Appends `s`, growing the buffer as needed.
    pub fn push_str(&mut self, s: &str)
        requires
            byte_len(old(self)@) + byte_len(s@) <= isize::MAX,
        ensures
            final(self)@ == old(self)@ + s@,
    {
        string_push_str(&mut self.vec, s)
    }
}

impl Clone for Heap {
    /// An independent copy, in a buffer of its own.
    fn clone(&self) -> (r: Self)
        ensures
            r@ == self@,
    {
        Heap { vec: self.vec.clone() }
    }
}

} // verus!
