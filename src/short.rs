//! The string value: inline while short, on the heap once it outgrows that.

use vstd::prelude::*;
use vstd::utf8::*;
use vstd::string::*;
use crate::heap::{string_push_str, string_with_capacity, Heap};
use crate::inline::{Inline, INLINE_CAPACITY};
use crate::text::{byte_len, lemma_decode_round_trip};

verus! {

/// Which representation holds the text.
enum Repr {
    Inline(Inline),
    Heap(Heap),
}

/// A UTF-8 string that holds up to `INLINE_CAPACITY` bytes inside the value
/// and keeps longer text in an owned heap buffer. Growing past the inline
/// space moves the text to the heap once; it never moves back.
pub struct ShortString {
    repr: Repr,
}

impl View for ShortString {
    type V = Seq<char>;

    closed spec fn view(&self) -> Seq<char> {
        match self.repr {
            Repr::Inline(i) => i@,
            Repr::Heap(h) => h@,
        }
    }
}

/// `r` is what building a string from the text `s` gives: that text, held
/// inline exactly when it fits there.
pub open spec fn built_from(r: ShortString, s: Seq<char>) -> bool {
    &&& r@ == s
    &&& r.inline_active() == Inline::fits(s)
}

/// `after` is what appending `s` to `before` gives: the concatenation, held
/// inline only when `before` was inline and the result still fits.
pub open spec fn appended(before: ShortString, s: Seq<char>, after: ShortString) -> bool {
    &&& after@ == before@ + s
    &&& after.inline_active() == (before.inline_active() && Inline::fits(before@ + s))
}

/// `after` is what clearing `before` gives: empty text, same representation.
pub open spec fn cleared(before: ShortString, after: ShortString) -> bool {
    &&& after@ == Seq::<char>::empty()
    &&& after.inline_active() == before.inline_active()
}

/// `copy` holds the same text as `orig`, in the same representation.
pub open spec fn copied(orig: ShortString, copy: ShortString) -> bool {
    &&& copy@ == orig@
    &&& copy.inline_active() == orig.inline_active()
}

impl ShortString {
    /// Whether the text is held inline (as opposed to on the heap).
    pub closed spec fn inline_active(&self) -> bool {
        self.repr is Inline
    }

    /// An empty string, held inline.
    pub fn new() -> (r: Self)
        ensures
            r@ == Seq::<char>::empty(),
            r.inline_active(),
    {
        ShortString { repr: Repr::Inline(Inline::new()) }
    }

    /// Whether the text is held inline.
    pub fn is_inline(&self) -> (r: bool)
        ensures
            r == self.inline_active(),
    {
        match &self.repr {
            Repr::Inline(_) => true,
            Repr::Heap(_) => false,
        }
    }

    /// The text.
    pub fn as_str(&self) -> (r: &str)
        ensures
            r@ == self@,
    {
        match &self.repr {
            Repr::Inline(i) => i.as_str(),
            Repr::Heap(h) => h.as_str(),
        }
    }

    /// The text's UTF-8 bytes.
    pub fn as_bytes(&self) -> (r: &[u8])
        ensures
            r@ == encode_utf8(self@),
    {
        self.as_str().as_bytes()
    }

    /// Bytes that fit without growing: the inline space while inline, the
    /// buffer's size once on the heap.
    pub fn capacity(&self) -> (r: usize)
        ensures
            r >= byte_len(self@),
            self.inline_active() ==> r == INLINE_CAPACITY,
    {
        match &self.repr {
            Repr::Inline(i) => i.capacity(),
            Repr::Heap(h) => h.capacity(),
        }
    }

    /// Length of the text in bytes.
    pub fn len(&self) -> (r: usize)
        ensures
            r == byte_len(self@),
    {
        match &self.repr {
            Repr::Inline(i) => i.len(),
            Repr::Heap(h) => h.len(),
        }
    }

    /// Whether the text is empty.
    pub fn is_empty(&self) -> (r: bool)
        ensures
            r == (self@.len() == 0),
    {
        self.as_str().is_empty()
    }

    /// Empties the text. The representation stays as it was; a heap buffer
    /// is kept for reuse.
    pub fn clear(&mut self)
        ensures
            cleared(*old(self), *final(self)),
    {
        match &mut self.repr {
            Repr::Inline(i) => i.clear(),
            Repr::Heap(h) => h.clear(),
        }
    }

    /// Appends `s`. Inline text that would outgrow the inline space is first
    /// copied into a new heap buffer with room for the whole result.
    pub fn push_str(&mut self, s: &str)
        requires
            byte_len(old(self)@) + byte_len(s@) <= isize::MAX,
        ensures
            appended(*old(self), s@, *final(self)),
    {
        match &mut self.repr {
            Repr::Inline(i) => {
                match i.try_push_str(s) {
                    Ok(()) => {},
                    Err(()) => {
                        let mut buf = string_with_capacity(i.len() + s.as_bytes().len());
                        string_push_str(&mut buf, i.as_str());
                        string_push_str(&mut buf, s);
                        self.repr = Repr::Heap(Heap::from_string(buf));
                    },
                }
            },
            Repr::Heap(h) => h.push_str(s),
        }
    }

    /// Appends the character `c`, encoded as UTF-8.
    pub fn push(&mut self, c: char)
        requires
            byte_len(old(self)@) + byte_len(seq![c]) <= isize::MAX,
        ensures
            appended(*old(self), seq![c], *final(self)),
    {
        let mut buf = [0u8; 4];
        let t = encode_char(c, &mut buf);
        self.push_str(t)
    }

    /// A copy of `s`: inline when it fits, else in a new heap buffer.
    pub fn from_str(s: &str) -> (r: Self)
        ensures
            built_from(r, s@),
    {
        match Inline::from_str(s) {
            Some(i) => ShortString { repr: Repr::Inline(i) },
            None => ShortString { repr: Repr::Heap(Heap::from_string(s.to_owned())) },
        }
    }

    /// The text of `s`: copied inline when it fits (the buffer is then
    /// dropped), else `s`'s buffer itself, without copying.
    pub fn from_string(s: String) -> (r: Self)
        ensures
            built_from(r, s@),
    {
        match Inline::from_str(s.as_str()) {
            Some(i) => ShortString { repr: Repr::Inline(i) },
            None => ShortString { repr: Repr::Heap(Heap::from_string(s)) },
        }
    }

    /// The text as a `String`: a new one for inline text, the heap buffer
    /// itself otherwise.
    pub fn into_string(self) -> (r: String)
        ensures
            r@ == self@,
    {
        match self.repr {
            Repr::Inline(i) => i.as_str().to_owned(),
            Repr::Heap(h) => h.into_string(),
        }
    }

    /// This string with `s` appended.
    pub fn concat(self, s: &str) -> (r: Self)
        requires
            byte_len(self@) + byte_len(s@) <= isize::MAX,
        ensures
            appended(self, s@, r),
    {
        let mut r = self;
        r.push_str(s);
        r
    }
}

/// Relies on char::encode_utf8: writes the UTF-8 form of `c` into `buf` and
/// returns that part of `buf` as text.
#[verifier::external_body]
fn encode_char(c: char, buf: &mut [u8; 4]) -> (r: &str)
    ensures
        r@ == seq![c],
{
    c.encode_utf8(buf)
}

impl Clone for ShortString {
    /// A copy in the same representation; a heap copy gets a buffer of its own.
    fn clone(&self) -> (r: Self)
        ensures
            copied(*self, r),
    {
        match &self.repr {
            Repr::Inline(i) => ShortString { repr: Repr::Inline(*i) },
            Repr::Heap(h) => ShortString { repr: Repr::Heap(h.clone()) },
        }
    }
}

impl Default for ShortString {
    fn default() -> (r: Self)
        ensures
            r@ == Seq::<char>::empty(),
            r.inline_active(),
    {
        ShortString::new()
    }
}

impl PartialEq for ShortString {
    /// Equal when the texts are equal, whichever representation holds them.
    fn eq(&self, other: &ShortString) -> (r: bool) {
        let a = self.as_bytes();
        let b = other.as_bytes();
        proof {
            lemma_decode_round_trip(a@, self@);
            lemma_decode_round_trip(b@, other@);
        }
        if a.len() != b.len() {
            return false;
        }
        let mut i: usize = 0;
        while i < a.len()
            invariant
                a@ == encode_utf8(self@),
                b@ == encode_utf8(other@),
                a@.len() == b@.len(),
                i <= a@.len(),
                forall|k: int| 0 <= k < i ==> a@[k] == b@[k],
            decreases a@.len() - i,
        {
            if a[i] != b[i] {
                return false;
            }
            i += 1;
        }
        proof {
            assert(a@ =~= b@);
        }
        true
    }
}

impl core::ops::Deref for ShortString {
    type Target = str;

    /// The text, so that `str`'s methods apply directly.
    fn deref(&self) -> (r: &str)
        ensures
            r@ == self@,
    {
        self.as_str()
    }
}

impl vstd::std_specs::cmp::PartialEqSpecImpl for ShortString {
    open spec fn obeys_eq_spec() -> bool {
        true
    }

    open spec fn eq_spec(&self, other: &ShortString) -> bool {
        self@ == other@
    }
}

} // verus!
