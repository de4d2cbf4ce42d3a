//! Comparing texts.

use vstd::prelude::*;
use vstd::utf8::{encode_utf8, encode_utf8_decode_utf8};

verus! {

/// Two texts with the same bytes are the same text.
pub proof fn lemma_same_bytes_same_text(a: Seq<char>, b: Seq<char>)
    requires
        encode_utf8(a) == encode_utf8(b),
    ensures
        a == b,
{
    encode_utf8_decode_utf8(a);
    encode_utf8_decode_utf8(b);
}

/// Whether two texts are the same.
pub fn same_text(a: &str, b: &str) -> (same: bool)
    ensures
        same == (a@ == b@),
{
    let left = a.as_bytes();
    let right = b.as_bytes();
    if left.len() != right.len() {
        return false;
    }
    let mut at: usize = 0;
    while at < left.len()
        invariant
            left@.len() == right@.len(),
            at <= left.len(),
            left@.subrange(0, at as int) == right@.subrange(0, at as int),
            left@ == encode_utf8(a@),
            right@ == encode_utf8(b@),
        decreases left.len() - at,
    {
        if left[at] != right[at] {
            return false;
        }
        at = at + 1;
        proof {
            assert(left@.subrange(0, at as int) =~= left@.subrange(0, at - 1).push(left@[at - 1]));
            assert(right@.subrange(0, at as int) =~= right@.subrange(0, at - 1).push(
                right@[at - 1],
            ));
        }
    }
    proof {
        assert(left@.subrange(0, at as int) =~= left@);
        assert(right@.subrange(0, at as int) =~= right@);
        lemma_same_bytes_same_text(a@, b@);
    }
    true
}

} // verus!
