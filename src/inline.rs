//! Text held inside the value: a fixed byte array and a length.

use vstd::prelude::*;
use vstd::utf8::*;
use vstd::string::*;
use vstd::slice::slice_subrange;
use crate::text::{byte_len, lemma_decode_round_trip, lemma_encode_concat, str_from_utf8};

verus! {

/// Number of bytes that an [`Inline`] holds.
pub const INLINE_CAPACITY: usize = 15;

/// Up to `INLINE_CAPACITY` bytes of UTF-8 text, stored without allocating.
#[derive(Clone, Copy)]
pub struct Inline {
    chars: [u8; INLINE_CAPACITY],
    len: u8,
}

impl View for Inline {
    type V = Seq<char>;

    closed spec fn view(&self) -> Seq<char> {
        decode_utf8(self.chars@.subrange(0, self.len as int))
    }
}

impl Inline {
    /// The bytes in use: the first `len` of the array.
    closed spec fn bytes(self) -> Seq<u8> {
        self.chars@.subrange(0, self.len as int)
    }

    #[verifier::type_invariant]
    closed spec fn inv(self) -> bool {
        &&& self.len as usize <= INLINE_CAPACITY
        &&& valid_utf8(self.bytes())
    }

    /// Whether a text fits in the inline space.
    pub open spec fn fits(t: Seq<char>) -> bool {
        byte_len(t) <= INLINE_CAPACITY
    }

    proof fn lemma_bytes(self)
        requires
            self.inv(),
        ensures
            encode_utf8(self@) == self.bytes(),
            self.bytes().len() == self.len,
            byte_len(self@) <= INLINE_CAPACITY,
    {
        lemma_decode_round_trip(self.bytes(), self@);
    }

    /// An empty inline text.
    pub fn new() -> (r: Self)
        ensures
            r@ == Seq::<char>::empty(),
    {
        let r = Inline { chars: [0u8; INLINE_CAPACITY], len: 0 };
        proof {
            assert(r.bytes() =~= Seq::<u8>::empty());
            assert(encode_utf8(Seq::<char>::empty()) =~= r.bytes());
            lemma_decode_round_trip(r.bytes(), Seq::<char>::empty());
        }
        r
    }

    /// Whether `s` is short enough to be held inline.
    pub fn can_inline(s: &str) -> (r: bool)
        ensures
            r == Self::fits(s@),
    {
        s.as_bytes().len() <= INLINE_CAPACITY
    }

    /// The text, borrowed from the inline array.
    pub fn as_str(&self) -> (r: &str)
        ensures
            r@ == self@,
    {
        proof {
            use_type_invariant(self);
            self.lemma_bytes();
        }
        let used = slice_subrange(self.chars.as_slice(), 0, self.len as usize);
        match str_from_utf8(used) {
            Some(s) => {
                proof {
                    lemma_decode_round_trip(s.spec_bytes(), s@);
                }
                s
            },
            None => "",
        }
    }

    /// Number of bytes that fit inline.
    pub fn capacity(&self) -> (r: usize)
        ensures
            r == INLINE_CAPACITY,
            r >= byte_len(self@),
    {
        proof {
            use_type_invariant(self);
            self.lemma_bytes();
        }
        INLINE_CAPACITY
    }

    /// Length of the text in bytes.
    pub fn len(&self) -> (r: usize)
        ensures
            r == byte_len(self@),
            r <= INLINE_CAPACITY,
    {
        proof {
            use_type_invariant(self);
            self.lemma_bytes();
        }
        self.len as usize
    }

    /// Empties the text.
    pub fn clear(&mut self)
        ensures
            final(self)@ == Seq::<char>::empty(),
    {
        *self = Inline::new();
    }

    /// Whether `s` can be appended without leaving the inline space.
    fn can_push_str(&self, s: &str) -> (r: bool)
        ensures
            r == Self::fits(self@ + s@),
    {
        proof {
            lemma_encode_concat(self@, s@);
        }
        s.as_bytes().len() <= INLINE_CAPACITY - self.len()
    }

    /// Appends `s` behind the current bytes; the caller has checked that it fits.
    fn push_str(&mut self, s: &str)
        requires
            Self::fits(old(self)@ + s@),
        ensures
            final(self)@ == old(self)@ + s@,
    {
        proof {
            use_type_invariant(&*self);
            self.lemma_bytes();
            lemma_encode_concat(self@, s@);
        }
        let ghost prev = self.bytes();
        let bytes = s.as_bytes();
        let start = self.len as usize;
        let n = bytes.len();
        let mut chars = self.chars;
        let mut i: usize = 0;
        while i < n
            invariant
                start + n <= INLINE_CAPACITY,
                n == bytes@.len(),
                prev.len() == start,
                i <= n,
                chars@.subrange(0, start as int) == prev,
                forall|k: int| 0 <= k < i ==> chars@[start + k] == bytes@[k],
            decreases n - i,
        {
            chars[start + i] = bytes[i];
            i += 1;
            proof {
                assert(chars@.subrange(0, start as int) =~= prev);
            }
        }
        proof {
            assert(chars@.subrange(0, start + n) =~= prev + bytes@);
            lemma_decode_round_trip(prev + bytes@, old(self)@ + s@);
        }
        let next = Inline { chars, len: (start + n) as u8 };
        *self = next;
    }

    /// Appends `s` when the result still fits inline; otherwise fails and
    /// leaves the text as it was.
    pub fn try_push_str(&mut self, s: &str) -> (r: Result<(), ()>)
        ensures
            r is Ok <==> Self::fits(old(self)@ + s@),
            r is Ok ==> final(self)@ == old(self)@ + s@,
            r is Err ==> *final(self) == *old(self),
    {
        if self.can_push_str(s) {
            self.push_str(s);
            Ok(())
        } else {
            Err(())
        }
    }

    /// An inline copy of `s`, or `None` when `s` does not fit.
    pub fn from_str(s: &str) -> (r: Option<Self>)
        ensures
            r is Some <==> Self::fits(s@),
            r matches Some(v) ==> v@ == s@,
    {
        let mut v = Inline::new();
        proof {
            assert(v@ + s@ =~= s@);
        }
        match v.try_push_str(s) {
            Ok(()) => Some(v),
            Err(()) => None,
        }
    }
}

} // verus!
