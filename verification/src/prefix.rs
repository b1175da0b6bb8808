use vstd::prelude::*;
use vstd::string::StringSliceAdditionalSpecFns;
use vstd::utf8::{
    decode_utf8, decode_utf8_split, encode_utf8, encode_utf8_decode_utf8,
    encode_utf8_first_scalar, encode_utf8_valid_utf8, is_char_boundary, length_of_first_scalar,
};

verus! {

/// The encoding of two texts joined is the two encodings joined, and the
/// place where they meet is a character boundary.
pub proof fn lemma_encode_concat(p: Seq<char>, r: Seq<char>)
    ensures
        encode_utf8(p + r) == encode_utf8(p) + encode_utf8(r),
        is_char_boundary(encode_utf8(p + r), encode_utf8(p).len() as int),
    decreases p.len(),
{
    encode_utf8_valid_utf8(p + r);
    if p.len() == 0 {
        assert(p + r =~= r);
        assert(encode_utf8(p) + encode_utf8(r) =~= encode_utf8(r));
    } else {
        let rest = p.drop_first();
        assert((p + r).drop_first() =~= rest + r);
        lemma_encode_concat(rest, r);
        assert(encode_utf8(p + r) =~= encode_utf8(p) + encode_utf8(r));
        encode_utf8_first_scalar(p + r);
        encode_utf8_first_scalar(p);
        let bytes = encode_utf8(p + r);
        let first = length_of_first_scalar(bytes);
        assert(bytes.subrange(first, bytes.len() as int) =~= encode_utf8(rest + r));
        assert(encode_utf8(p).len() == first + encode_utf8(rest).len());
    }
}

/// Whether `text` begins with `prefix`.
pub fn starts_with(text: &str, prefix: &str) -> (r: bool)
    ensures
        r == prefix@.is_prefix_of(text@),
{
    let t = text.as_bytes();
    let p = prefix.as_bytes();
    proof {
        if prefix@.is_prefix_of(text@) {
            let rest = text@.subrange(prefix@.len() as int, text@.len() as int);
            assert(text@ =~= prefix@ + rest);
            lemma_encode_concat(prefix@, rest);
        }
    }
    if p.len() > t.len() {
        return false;
    }
    let mut i: usize = 0;
    while i < p.len()
        invariant
            i <= p.len() <= t.len(),
            t@ == encode_utf8(text@),
            p@ == encode_utf8(prefix@),
            forall|j: int| 0 <= j < i ==> t@[j] == p@[j],
            prefix@.is_prefix_of(text@) ==> t@ == p@ + encode_utf8(
                text@.subrange(prefix@.len() as int, text@.len() as int),
            ),
        decreases p.len() - i,
    {
        if t[i] != p[i] {
            return false;
        }
        i += 1;
    }
    if !text.is_char_boundary(p.len()) {
        return false;
    }
    proof {
        let k = p.len() as int;
        encode_utf8_valid_utf8(text@);
        decode_utf8_split(t@, k);
        assert(t@.subrange(0, k) =~= p@);
        encode_utf8_decode_utf8(text@);
        encode_utf8_decode_utf8(prefix@);
        let tail = decode_utf8(t@.subrange(k, t@.len() as int));
        assert(text@ =~= prefix@ + tail);
        assert(prefix@ =~= text@.subrange(0, prefix@.len() as int));
    }
    true
}

} // verus!
