//! Moving samples between the plant's vectors.
use vstd::prelude::*;

verus! {

/// `dst` after copying the common prefix of `src` into it: positions that
/// both have take `src`'s sample, the rest of `dst` is kept.
pub open spec fn overwritten<X>(dst: Seq<X>, src: Seq<X>) -> Seq<X> {
    Seq::new(dst.len(), |i: int| if i < src.len() { src[i] } else { dst[i] })
}

/// Copies `src[i]` into `dst[i]` for every position that both have, as a
/// zipped element-wise copy does (the model's initial XMV into the bus, its
/// measurements into XMEAS). Extra samples of either side are ignored.
pub fn overwrite_prefix<X: Copy>(dst: &mut Vec<X>, src: &[X])
    ensures
        final(dst)@ == overwritten(old(dst)@, src@),
{
    let ghost d0 = dst@;
    let mut i: usize = 0;
    while i < dst.len() && i < src.len()
        invariant
            i <= dst@.len(),
            dst@.len() == d0.len(),
            forall|j: int| 0 <= j < dst@.len() ==> dst@[j] == if j < i && j < src@.len() { src@[j] } else { d0[j] },
        decreases dst.len() - i,
    {
        dst.set(i, src[i]);
        i = i + 1;
    }
    assert(dst@ =~= overwritten(d0, src@));
}

} // verus!
