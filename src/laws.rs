//! Laws that relate the operations of [`ShortString`].

use vstd::prelude::*;
use vstd::utf8::*;
use vstd::std_specs::cmp::PartialEqSpec;
use crate::inline::INLINE_CAPACITY;
use crate::short::{appended, built_from, cleared, copied, ShortString};
use crate::text::{byte_len, lemma_decode_round_trip, lemma_encode_concat};

verus! {

/// Building a string from a text and reading it back gives that text, as
/// characters and as UTF-8 bytes, whichever representation was chosen.
pub proof fn lemma_round_trip(s: Seq<char>, v: ShortString)
    requires
        built_from(v, s),
    ensures
        v@ == s,
        encode_utf8(v@) == encode_utf8(s),
{
}

/// Equality sees only the text: two strings are equal exactly when their
/// texts are, and exactly when their UTF-8 bytes are, whether each is held
/// inline or on the heap.
pub proof fn lemma_equality_is_textual(a: ShortString, b: ShortString)
    ensures
        a.eq_spec(&b) <==> a@ == b@,
        a@ == b@ <==> encode_utf8(a@) == encode_utf8(b@),
{
    lemma_decode_round_trip(encode_utf8(a@), a@);
    lemma_decode_round_trip(encode_utf8(b@), b@);
}

/// A text of exactly the inline capacity is built inline; one byte more and
/// it is built on the heap at once.
pub proof fn lemma_capacity_boundary(s: Seq<char>, v: ShortString)
    requires
        built_from(v, s),
    ensures
        byte_len(s) == INLINE_CAPACITY ==> v.inline_active(),
        byte_len(s) == INLINE_CAPACITY + 1 ==> !v.inline_active(),
{
}

/// Appending past the inline capacity to an inline string moves it to the
/// heap, and the result is exactly the concatenation, byte for byte, also
/// where a multi-byte character straddles the capacity.
pub proof fn lemma_promotion(v: ShortString, s: Seq<char>, w: ShortString)
    requires
        v.inline_active(),
        byte_len(v@) < INLINE_CAPACITY,
        byte_len(v@) + byte_len(s) > INLINE_CAPACITY,
        appended(v, s, w),
    ensures
        !w.inline_active(),
        w@ == v@ + s,
        encode_utf8(w@) == encode_utf8(v@) + encode_utf8(s),
        valid_utf8(encode_utf8(w@)),
{
    lemma_encode_concat(v@, s);
    lemma_decode_round_trip(encode_utf8(w@), w@);
}

/// Clearing twice in a row leaves an empty string both times and never
/// changes the representation.
pub proof fn lemma_clear_twice(a: ShortString, b: ShortString, c: ShortString)
    requires
        cleared(a, b),
        cleared(b, c),
    ensures
        byte_len(b@) == 0,
        byte_len(c@) == 0,
        b.inline_active() == a.inline_active(),
        c.inline_active() == a.inline_active(),
{
}

/// A copy of a heap string stands on its own: it is on the heap too, and
/// appending to it gives the original's text followed by the addition while
/// the original keeps its text.
pub proof fn lemma_copy_independent(
    orig: ShortString,
    copy: ShortString,
    s: Seq<char>,
    after: ShortString,
)
    requires
        !orig.inline_active(),
        copied(orig, copy),
        appended(copy, s, after),
    ensures
        !copy.inline_active(),
        !after.inline_active(),
        after@ == orig@ + s,
        copy@ == orig@,
{
}

} // verus!
