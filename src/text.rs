//! Facts about UTF-8 text shared by both representations.

use vstd::prelude::*;
use vstd::utf8::*;
use vstd::string::*;

verus! {

/// Number of bytes in the UTF-8 form of a text.
pub open spec fn byte_len(t: Seq<char>) -> nat {
    encode_utf8(t).len()
}

/// Encoding a concatenation gives the concatenation of the encodings.
pub proof fn lemma_encode_concat(a: Seq<char>, b: Seq<char>)
    ensures
        encode_utf8(a + b) == encode_utf8(a) + encode_utf8(b),
    decreases a.len(),
{
    if a.len() == 0 {
        assert(a + b =~= b);
        assert(encode_utf8(a) + encode_utf8(b) =~= encode_utf8(b));
    } else {
        assert((a + b).drop_first() =~= a.drop_first() + b);
        assert((a + b)[0] == a[0]);
        lemma_encode_concat(a.drop_first(), b);
        assert(encode_utf8(a + b) =~= encode_utf8(a) + encode_utf8(b));
    }
}

/// Valid UTF-8 bytes are the encoding of the text they decode to, and the
/// encoding of a text decodes back to it.
pub proof fn lemma_decode_round_trip(bytes: Seq<u8>, t: Seq<char>)
    ensures
        valid_utf8(bytes) ==> encode_utf8(decode_utf8(bytes)) == bytes,
        decode_utf8(encode_utf8(t)) == t,
        valid_utf8(encode_utf8(t)),
{
    if valid_utf8(bytes) {
        decode_utf8_encode_utf8(bytes);
    }
    encode_utf8_decode_utf8(t);
    encode_utf8_valid_utf8(t);
}

/// A character takes one to four bytes in UTF-8.
pub proof fn lemma_char_byte_len(c: char)
    ensures
        1 <= byte_len(seq![c]) <= 4,
{
    let t = seq![c];
    assert(t.drop_first() =~= Seq::<char>::empty());
    assert(encode_utf8(t) == encode_scalar(c as u32) + encode_utf8(Seq::<char>::empty()));
}

/// Relies on std::str::from_utf8: it accepts exactly the byte slices that
/// are valid UTF-8, and then views those same bytes as text.
#[verifier::external_body]
pub(crate) fn str_from_utf8(b: &[u8]) -> (r: Option<&str>)
    ensures
        r.is_some() == valid_utf8(b@),
        r matches Some(s) ==> s.spec_bytes() == b@,
{
    std::str::from_utf8(b).ok()
}

} // verus!
