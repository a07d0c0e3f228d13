//! Byte-sequence helpers shared by the command parser and the session.
use vstd::prelude::*;

verus! {

/// Appends `src[from..]` to `dst`.
pub fn append_from(dst: &mut Vec<u8>, src: &[u8], from: usize)
    requires
        from <= src@.len(),
    ensures
        final(dst)@ == old(dst)@ + src@.skip(from as int),
{
    let mut i: usize = from;
    while i < src.len()
        invariant
            from <= i <= src@.len(),
            dst@ == old(dst)@ + src@.subrange(from as int, i as int),
        decreases src@.len() - i,
    {
        dst.push(src[i]);
        i = i + 1;
        assert(src@.subrange(from as int, i as int) =~= src@.subrange(from as int, i - 1 as int).push(
            src@[i - 1],
        ));
    }
    assert(src@.subrange(from as int, i as int) =~= src@.skip(from as int));
}

} // verus!
