//! Facts about the UTF-8 encoding of character sequences that the byte-based
//! string operations of this crate rely on.
use vstd::prelude::*;
use vstd::utf8::*;

verus! {

broadcast use group_utf8_lib;

/// Encoding distributes over concatenation.
pub proof fn lemma_encode_concat(a: Seq<char>, b: Seq<char>)
    ensures
        encode_utf8(a + b) == encode_utf8(a) + encode_utf8(b),
    decreases a.len(),
{
    if a.len() == 0 {
        assert(a + b =~= b);
        assert(encode_utf8(a) + encode_utf8(b) =~= encode_utf8(b));
    } else {
        lemma_encode_concat(a.drop_first(), b);
        assert((a + b).drop_first() =~= a.drop_first() + b);
        assert((a + b)[0] == a[0]);
        assert(encode_utf8(a + b) =~= encode_scalar(a[0] as u32) + encode_utf8(a.drop_first() + b));
        assert(encode_utf8(a) + encode_utf8(b) =~= encode_scalar(a[0] as u32) + (encode_utf8(a.drop_first()) + encode_utf8(b)));
    }
}

/// Popping the first scalar of an encoding leaves the encoding of the rest.
pub proof fn lemma_pop_first_of_encode(a: Seq<char>)
    requires
        a.len() > 0,
    ensures
        pop_first_scalar(encode_utf8(a)) == encode_utf8(a.drop_first()),
        length_of_first_scalar(encode_utf8(a)) == encode_scalar(a[0] as u32).len(),
{
    encode_utf8_first_scalar(a);
    assert(pop_first_scalar(encode_utf8(a)) =~= encode_utf8(a.drop_first()));
}

/// The end of the encoding of `a` is a character boundary of the encoding of
/// `a + b`.
pub proof fn lemma_boundary_at_concat(a: Seq<char>, b: Seq<char>)
    ensures
        is_char_boundary(encode_utf8(a + b), encode_utf8(a).len() as int),
    decreases a.len(),
{
    if a.len() == 0 {
    } else {
        let ab = a + b;
        lemma_encode_concat(a, b);
        lemma_encode_concat(a.drop_first(), b);
        assert(ab.drop_first() =~= a.drop_first() + b);
        assert(ab[0] == a[0]);
        lemma_pop_first_of_encode(ab);
        lemma_boundary_at_concat(a.drop_first(), b);
        assert(encode_utf8(a) =~= encode_scalar(a[0] as u32) + encode_utf8(a.drop_first()));
    }
}

/// Splitting the encoding of `a + b` where the encoding of `a` ends gives
/// back the encodings of `a` and of `b`.
pub proof fn lemma_split_concat(a: Seq<char>, b: Seq<char>)
    ensures
        ({
            let bytes = encode_utf8(a + b);
            let cut = encode_utf8(a).len() as int;
            &&& is_char_boundary(bytes, cut)
            &&& decode_utf8(bytes.subrange(0, cut)) == a
            &&& decode_utf8(bytes.subrange(cut, bytes.len() as int)) == b
        }),
{
    lemma_encode_concat(a, b);
    lemma_boundary_at_concat(a, b);
    let bytes = encode_utf8(a + b);
    let cut = encode_utf8(a).len() as int;
    assert(bytes.subrange(0, cut) =~= encode_utf8(a));
    assert(bytes.subrange(cut, bytes.len() as int) =~= encode_utf8(b));
}

/// An ASCII sequence encodes to as many bytes as it has characters.
pub proof fn lemma_ascii_len(a: Seq<char>)
    requires
        is_ascii_chars(a),
    ensures
        encode_utf8(a).len() == a.len(),
{
    is_ascii_chars_encode_utf8(a);
}

} // verus!
