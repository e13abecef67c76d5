//! Small facts about flattening sequences of byte sequences, shared by the
//! chunking and upload engines.

use vstd::prelude::*;

verus! {

/// Flattening a sequence whose members all have length `k` gives a sequence
/// of length `len * k`.
pub proof fn lemma_flatten_uniform_len(s: Seq<Seq<u8>>, k: int)
    requires
        forall|i: int| 0 <= i < s.len() ==> (#[trigger] s[i]).len() == k,
    ensures
        s.flatten().len() == s.len() * k,
    decreases s.len(),
{
    if s.len() == 0 {
        assert(s.flatten() =~= Seq::<u8>::empty());
    } else {
        assert(s.flatten() == s.first() + s.drop_first().flatten());
        lemma_flatten_uniform_len(s.drop_first(), k);
        assert(s.flatten().len() == k + (s.len() - 1) * k);
        assert(k + (s.len() - 1) * k == s.len() * k) by (nonlinear_arith);
    }
}

/// Flattening a sequence whose members all have length `k`, except the last
/// one, gives a sequence of length `(len - 1) * k + last.len()`.
pub proof fn lemma_flatten_uniform_len_but_last(s: Seq<Seq<u8>>, k: int)
    requires
        s.len() > 0,
        forall|i: int| 0 <= i < s.len() - 1 ==> (#[trigger] s[i]).len() == k,
    ensures
        s.flatten().len() == (s.len() - 1) * k + s.last().len(),
{
    s.lemma_flatten_and_flatten_alt_are_equivalent();
    s.drop_last().lemma_flatten_and_flatten_alt_are_equivalent();
    assert(s.flatten_alt() == s.drop_last().flatten_alt() + s.last());
    lemma_flatten_uniform_len(s.drop_last(), k);
}

} // verus!
