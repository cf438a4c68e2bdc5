//! Small helpers on byte vectors: concatenation and subranges.
use vstd::prelude::*;

verus! {

/// Appends all of `src` to `dst`.
pub fn push_all(dst: &mut Vec<u8>, src: &Vec<u8>)
    ensures
        final(dst)@ == old(dst)@ + src@,
{
    let mut i: usize = 0;
    while i < src.len()
        invariant
            i <= src@.len(),
            dst@ == old(dst)@ + src@.subrange(0, i as int),
        decreases src@.len() - i,
    {
        dst.push(src[i]);
        proof {
            assert(src@.subrange(0, i + 1) =~= src@.subrange(0, i as int).push(src@[i as int]));
        }
        i = i + 1;
    }
    proof {
        assert(src@.subrange(0, src@.len() as int) =~= src@);
    }
}

/// The bytes of `v` from `start` (inclusive) to `end` (exclusive).
pub fn sub_bytes(v: &Vec<u8>, start: usize, end: usize) -> (r: Vec<u8>)
    requires
        start <= end,
        end <= v@.len(),
    ensures
        r@ == v@.subrange(start as int, end as int),
{
    let mut out: Vec<u8> = Vec::new();
    let mut i: usize = start;
    while i < end
        invariant
            start <= i <= end,
            end <= v@.len(),
            out@ == v@.subrange(start as int, i as int),
        decreases end - i,
    {
        out.push(v[i]);
        proof {
            assert(v@.subrange(start as int, i + 1) =~= v@.subrange(start as int, i as int).push(
                v@[i as int],
            ));
        }
        i = i + 1;
    }
    out
}

/// Concatenation of two byte vectors, as a fresh vector.
pub fn concat2(a: &Vec<u8>, b: &Vec<u8>) -> (r: Vec<u8>)
    ensures
        r@ == a@ + b@,
{
    let mut out: Vec<u8> = Vec::new();
    push_all(&mut out, a);
    push_all(&mut out, b);
    proof {
        assert(Seq::<u8>::empty() + a@ =~= a@);
    }
    out
}

/// Concatenation of a byte vector and one byte.
pub fn concat_byte(a: &Vec<u8>, b: u8) -> (r: Vec<u8>)
    ensures
        r@ == a@.push(b),
{
    let mut out: Vec<u8> = Vec::new();
    push_all(&mut out, a);
    out.push(b);
    proof {
        assert((Seq::<u8>::empty() + a@).push(b) =~= a@.push(b));
    }
    out
}

} // verus!
