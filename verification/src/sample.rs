//! Deterministic sampling of ring elements from a hash stream: uniform
//! coefficients by rejection on 12-bit candidates, and small noise
//! coefficients from a centered binomial distribution by bit-counting.
use vstd::prelude::*;

verus! {

use crate::codec::{bit_at, p2e};
use crate::field::lemma_mod_shift;
use crate::poly::poly_wf;

/// The coefficients accepted from the first `t` byte triples of the
/// stream: each triple yields two 12-bit candidates, and a candidate is
/// kept when it lies below the modulus.
pub open spec fn uni_acc(bytes: Seq<u8>, t: nat) -> Seq<u16>
    decreases t,
{
    if t == 0 {
        Seq::empty()
    } else {
        let p = uni_acc(bytes, (t - 1) as nat);
        let b0 = bytes[3 * (t - 1)] as int;
        let b1 = bytes[3 * (t - 1) + 1] as int;
        let b2 = bytes[3 * (t - 1) + 2] as int;
        let d1 = b0 + 256 * (b1 % 16);
        let d2 = b1 / 16 + 16 * b2;
        let p1 = if d1 < 3329 {
            p.push(d1 as u16)
        } else {
            p
        };
        if d2 < 3329 {
            p1.push(d2 as u16)
        } else {
            p1
        }
    }
}

/// The uniform ring element drawn from a 768-byte stream: the first 256
/// accepted candidates, or nothing if the stream rejects too many (a
/// cryptographically negligible event for a hash-derived stream).
pub open spec fn sample_uniform_spec(bytes: Seq<u8>) -> Option<Seq<u16>> {
    let acc = uni_acc(bytes, (bytes.len() / 3) as nat);
    if acc.len() >= 256 {
        Some(acc.take(256))
    } else {
        None
    }
}

/// Rejection-samples a uniform ring element from a 768-byte stream.
pub fn sample_uniform(bytes: &Vec<u8>) -> (r: Option<Vec<u16>>)
    requires
        bytes@.len() == 768,
    ensures
        r is Some <==> sample_uniform_spec(bytes@) is Some,
        r is Some ==> r.unwrap()@ == sample_uniform_spec(bytes@).unwrap(),
        r is Some ==> poly_wf(r.unwrap()@),
{
    let mut acc: Vec<u16> = Vec::new();
    let mut t: usize = 0;
    while t < 256
        invariant
            t <= 256,
            bytes@.len() == 768,
            acc@ == uni_acc(bytes@, t as nat),
            forall|j: int| 0 <= j < acc@.len() ==> acc@[j] < 3329,
        decreases 256 - t,
    {
        let b0 = bytes[3 * t] as u16;
        let b1 = bytes[3 * t + 1] as u16;
        let b2 = bytes[3 * t + 2] as u16;
        let d1 = b0 + 256 * (b1 % 16);
        let d2 = b1 / 16 + 16 * b2;
        if d1 < 3329 {
            acc.push(d1);
        }
        if d2 < 3329 {
            acc.push(d2);
        }
        t = t + 1;
    }
    if acc.len() < 256 {
        return None;
    }
    let mut out: Vec<u16> = Vec::new();
    let mut i: usize = 0;
    while i < 256
        invariant
            i <= 256,
            acc@.len() >= 256,
            out@ == acc@.subrange(0, i as int),
            forall|j: int| 0 <= j < acc@.len() ==> acc@[j] < 3329,
        decreases 256 - i,
    {
        out.push(acc[i]);
        proof {
            assert(acc@.subrange(0, i + 1) =~= acc@.subrange(0, i as int).push(acc@[i as int]));
        }
        i = i + 1;
    }
    proof {
        assert(out@ =~= uni_acc(bytes@, 256).take(256));
    }
    Some(out)
}

/// Sum of `cnt` consecutive bits of the stream, starting at bit `start`.
pub open spec fn bitsum(bytes: Seq<u8>, start: int, cnt: nat) -> int
    decreases cnt,
{
    if cnt == 0 {
        0
    } else {
        bitsum(bytes, start, (cnt - 1) as nat) + bit_at(bytes, start + (cnt - 1))
    }
}

/// Coefficient `i` of a centered-binomial sample of width `eta`: the
/// difference of two `eta`-bit counts, reduced into `[0, q)`.
pub open spec fn cbd_coeff(bytes: Seq<u8>, eta: int, i: int) -> int {
    (bitsum(bytes, 2 * i * eta, eta as nat) - bitsum(bytes, 2 * i * eta + eta, eta as nat)) % 3329
}

pub open spec fn cbd_spec(bytes: Seq<u8>, eta: int) -> Seq<u16> {
    Seq::new(256, |i: int| cbd_coeff(bytes, eta, i) as u16)
}

/// Samples a noise ring element with centered-binomial coefficients of
/// width `eta` from a `64 * eta`-byte stream.
pub fn sample_cbd(bytes: &Vec<u8>, eta: usize) -> (r: Vec<u16>)
    requires
        eta == 2 || eta == 3,
        bytes@.len() == 64 * eta,
    ensures
        r@ == cbd_spec(bytes@, eta as int),
        poly_wf(r@),
{
    let mut out: Vec<u16> = Vec::new();
    let mut i: usize = 0;
    while i < 256
        invariant
            i <= 256,
            eta == 2 || eta == 3,
            bytes@.len() == 64 * eta,
            out@.len() == i,
            forall|j: int| 0 <= j < i ==> out@[j] == cbd_coeff(bytes@, eta as int, j) as u16
                && out@[j] < 3329,
        decreases 256 - i,
    {
        let mut x: u16 = 0;
        let mut t: usize = 0;
        while t < eta
            invariant
                t <= eta,
                eta == 2 || eta == 3,
                i < 256,
                bytes@.len() == 64 * eta,
                x <= t,
                x as int == bitsum(bytes@, 2 * i * eta, t as nat),
            decreases eta - t,
        {
            let k = 2 * i * eta + t;
            let bit = (bytes[k / 8] / p2e(k % 8)) % 2;
            assert(bit as int == bit_at(bytes@, k as int));
            x = x + bit as u16;
            t = t + 1;
        }
        let mut y: u16 = 0;
        let mut u: usize = 0;
        while u < eta
            invariant
                u <= eta,
                eta == 2 || eta == 3,
                i < 256,
                bytes@.len() == 64 * eta,
                y <= u,
                y as int == bitsum(bytes@, 2 * i * eta + eta, u as nat),
            decreases eta - u,
        {
            let k = 2 * i * eta + eta + u;
            let bit = (bytes[k / 8] / p2e(k % 8)) % 2;
            assert(bit as int == bit_at(bytes@, k as int));
            y = y + bit as u16;
            u = u + 1;
        }
        let v = (x + 3329 - y) % 3329;
        proof {
            lemma_mod_shift(x - y);
        }
        out.push(v);
        i = i + 1;
    }
    proof {
        assert(out@ =~= cbd_spec(bytes@, eta as int));
    }
    out
}

} // verus!
