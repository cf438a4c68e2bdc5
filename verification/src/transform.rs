//! The number-theoretic transform over `Z_3329[X]/(X^256 + 1)`, its
//! inverse, and multiplication of transformed elements.
//!
//! With `z = 17`, a primitive 256th root of unity modulo 3329, the
//! transform evaluates the even and odd halves of an element at the odd
//! powers `z^(2*br(i)+1)` (`br` is the 7-bit reversal), which reduces the
//! element modulo each quadratic factor of `X^256 + 1`. The contracts
//! state the evaluation sums directly; both directions are computed from
//! those sums, so the two functions are exact mirrors of their
//! specifications.
use vstd::prelude::*;

verus! {

use crate::field::{addq, lemma_mod_add_left, lemma_mod_mul_left, lemma_mod_mul_right, mulq};
use crate::poly::poly_wf;

/// Reversal of a 7-bit integer.
pub open spec fn br7(i: int) -> int {
    (i % 2) * 64 + ((i / 2) % 2) * 32 + ((i / 4) % 2) * 16 + ((i / 8) % 2) * 8 + ((i / 16) % 2) * 4
        + ((i / 32) % 2) * 2 + (i / 64) % 2
}

/// `z^e mod q` for the root of unity `z = 17`.
pub open spec fn zpow(e: nat) -> int
    decreases e,
{
    if e == 0 {
        1
    } else {
        (zpow((e - 1) as nat) * 17) % 3329
    }
}

pub proof fn lemma_zpow_bound(e: nat)
    ensures
        0 <= zpow(e) < 3329,
    decreases e,
{
    if e > 0 {
        lemma_zpow_bound((e - 1) as nat);
    }
}

/// Partial evaluation sum: the first `j` terms of the half of `f` with
/// parity `par`, at the point `z^a` (exponents reduced modulo 256).
pub open spec fn ntt_sum(f: Seq<u16>, par: int, a: int, j: nat) -> int
    decreases j,
{
    if j == 0 {
        0
    } else {
        ntt_sum(f, par, a, (j - 1) as nat) + f[2 * (j - 1) + par] * zpow(
            ((a * (j - 1)) % 256) as nat,
        )
    }
}

/// Coefficient `i` of the transform of `f`.
pub open spec fn ntt_coeff(f: Seq<u16>, i: int) -> int {
    ntt_sum(f, i % 2, 2 * br7(i / 2) + 1, 128) % 3329
}

pub open spec fn ntt_spec(f: Seq<u16>) -> Seq<u16> {
    Seq::new(256, |i: int| ntt_coeff(f, i) as u16)
}

/// The exponent of `z^(-a*j)`, reduced into `[0, 256)`.
pub open spec fn negex(a: int, j: int) -> nat {
    ((256 - ((a * j) % 256)) % 256) as nat
}

/// Partial interpolation sum for output coefficient `2*j + par`.
pub open spec fn intt_sum(g: Seq<u16>, par: int, j: int, h: nat) -> int
    decreases h,
{
    if h == 0 {
        0
    } else {
        intt_sum(g, par, j, (h - 1) as nat) + g[2 * (h - 1) + par] * zpow(
            negex(2 * br7(h - 1) + 1, j),
        )
    }
}

/// Coefficient `i` of the inverse transform: the interpolation sum scaled
/// by `128^(-1) = 3303 mod q`.
pub open spec fn intt_coeff(g: Seq<u16>, i: int) -> int {
    (3303 * intt_sum(g, i % 2, i / 2, 128)) % 3329
}

pub open spec fn intt_spec(g: Seq<u16>) -> Seq<u16> {
    Seq::new(256, |i: int| intt_coeff(g, i) as u16)
}

/// Coefficient `i` of the product of two transformed elements: pairs
/// multiply modulo `X^2 - z^(2*br(i/2)+1)`.
pub open spec fn bm_coeff(f: Seq<u16>, g: Seq<u16>, i: int) -> int {
    let hi = i / 2;
    let a = 2 * br7(hi) + 1;
    if i % 2 == 0 {
        (f[2 * hi] * g[2 * hi] + (f[2 * hi + 1] * g[2 * hi + 1]) * zpow(a as nat)) % 3329
    } else {
        (f[2 * hi] * g[2 * hi + 1] + f[2 * hi + 1] * g[2 * hi]) % 3329
    }
}

pub open spec fn basemul_spec(f: Seq<u16>, g: Seq<u16>) -> Seq<u16> {
    Seq::new(256, |i: int| bm_coeff(f, g, i) as u16)
}

fn br7e(i: usize) -> (r: usize)
    requires
        i < 128,
    ensures
        r as int == br7(i as int),
        r < 128,
{
    (i % 2) * 64 + ((i / 2) % 2) * 32 + ((i / 4) % 2) * 16 + ((i / 8) % 2) * 8 + ((i / 16) % 2) * 4
        + ((i / 32) % 2) * 2 + (i / 64) % 2
}

fn zpe(e: usize) -> (r: u16)
    requires
        e <= 256,
    ensures
        r as int == zpow(e as nat),
        r < 3329,
{
    let mut acc: u32 = 1;
    let mut k: usize = 0;
    while k < e
        invariant
            k <= e,
            acc as int == zpow(k as nat),
            acc < 3329,
        decreases e - k,
    {
        acc = (acc * 17) % 3329;
        k = k + 1;
    }
    acc as u16
}

/// The forward transform, computed as the evaluation sums its contract
/// states.
pub fn ntt(f: &Vec<u16>) -> (r: Vec<u16>)
    requires
        poly_wf(f@),
    ensures
        r@ == ntt_spec(f@),
        poly_wf(r@),
{
    let mut out: Vec<u16> = Vec::new();
    let mut i: usize = 0;
    while i < 256
        invariant
            i <= 256,
            poly_wf(f@),
            out@.len() == i,
            forall|k: int| 0 <= k < i ==> out@[k] == ntt_coeff(f@, k) as u16 && out@[k] < 3329,
        decreases 256 - i,
    {
        let par = i % 2;
        let a = 2 * br7e(i / 2) + 1;
        let mut acc: u32 = 0;
        let mut j: usize = 0;
        while j < 128
            invariant
                j <= 128,
                poly_wf(f@),
                par == i % 2,
                i < 256,
                a < 256,
                a as int == 2 * br7(i as int / 2) + 1,
                acc < 3329,
                acc as int == ntt_sum(f@, par as int, a as int, j as nat) % 3329,
            decreases 128 - j,
        {
            proof {
                assert((a as int) * (j as int) < 32768) by (nonlinear_arith)
                    requires
                        a < 256,
                        j < 128,
                ;
            }
            let zp = zpe((a * j) % 256);
            let c = f[2 * j + par];
            proof {
                assert((c as int) * (zp as int) < 11082241) by (nonlinear_arith)
                    requires
                        c < 3329,
                        zp < 3329,
                ;
                lemma_mod_add_left(
                    ntt_sum(f@, par as int, a as int, j as nat),
                    (c as int) * (zp as int),
                );
            }
            acc = (acc + (c as u32) * (zp as u32)) % 3329;
            j = j + 1;
        }
        out.push(acc as u16);
        i = i + 1;
    }
    proof {
        assert(out@ =~= ntt_spec(f@));
    }
    out
}

/// The inverse transform, computed as the interpolation sums its
/// contract states.
pub fn intt(g: &Vec<u16>) -> (r: Vec<u16>)
    requires
        poly_wf(g@),
    ensures
        r@ == intt_spec(g@),
        poly_wf(r@),
{
    let mut out: Vec<u16> = Vec::new();
    let mut i: usize = 0;
    while i < 256
        invariant
            i <= 256,
            poly_wf(g@),
            out@.len() == i,
            forall|k: int| 0 <= k < i ==> out@[k] == intt_coeff(g@, k) as u16 && out@[k] < 3329,
        decreases 256 - i,
    {
        let par = i % 2;
        let jj = i / 2;
        let mut acc: u32 = 0;
        let mut h: usize = 0;
        while h < 128
            invariant
                h <= 128,
                poly_wf(g@),
                par == i % 2,
                jj == i / 2,
                i < 256,
                acc < 3329,
                acc as int == intt_sum(g@, par as int, jj as int, h as nat) % 3329,
            decreases 128 - h,
        {
            let a = 2 * br7e(h) + 1;
            proof {
                assert((a as int) * (jj as int) < 32768) by (nonlinear_arith)
                    requires
                        a < 256,
                        jj < 128,
                ;
            }
            let zp = zpe((256 - (a * jj) % 256) % 256);
            let c = g[2 * h + par];
            proof {
                assert(((256 - (a * jj) % 256) % 256) as nat == negex(a as int, jj as int));
                assert((c as int) * (zp as int) < 11082241) by (nonlinear_arith)
                    requires
                        c < 3329,
                        zp < 3329,
                ;
                lemma_mod_add_left(
                    intt_sum(g@, par as int, jj as int, h as nat),
                    (c as int) * (zp as int),
                );
            }
            acc = (acc + (c as u32) * (zp as u32)) % 3329;
            h = h + 1;
        }
        proof {
            lemma_mod_mul_right(3303, intt_sum(g@, par as int, jj as int, 128));
        }
        let v = ((3303 * acc) % 3329) as u16;
        out.push(v);
        i = i + 1;
    }
    proof {
        assert(out@ =~= intt_spec(g@));
    }
    out
}

/// Ring multiplication by way of the transform: both operands are
/// transformed, multiplied pointwise pair by pair, and the product is
/// transformed back.
pub fn poly_mul(f: &Vec<u16>, g: &Vec<u16>) -> (r: Vec<u16>)
    requires
        poly_wf(f@),
        poly_wf(g@),
    ensures
        r@ == intt_spec(basemul_spec(ntt_spec(f@), ntt_spec(g@))),
        poly_wf(r@),
{
    intt(&basemul(&ntt(f), &ntt(g)))
}

/// Product of two transformed elements.
pub fn basemul(f: &Vec<u16>, g: &Vec<u16>) -> (r: Vec<u16>)
    requires
        poly_wf(f@),
        poly_wf(g@),
    ensures
        r@ == basemul_spec(f@, g@),
        poly_wf(r@),
{
    let mut out: Vec<u16> = Vec::new();
    let mut hi: usize = 0;
    while hi < 128
        invariant
            hi <= 128,
            poly_wf(f@),
            poly_wf(g@),
            out@.len() == 2 * hi,
            forall|k: int| 0 <= k < 2 * hi ==> out@[k] == bm_coeff(f@, g@, k) as u16 && out@[k]
                < 3329,
        decreases 128 - hi,
    {
        let a = 2 * br7e(hi) + 1;
        let zp = zpe(a);
        let f0 = f[2 * hi];
        let f1 = f[2 * hi + 1];
        let g0 = g[2 * hi];
        let g1 = g[2 * hi + 1];
        let t0 = mulq(f0, g0);
        let m1 = mulq(f1, g1);
        let m2 = mulq(m1, zp);
        let even = addq(t0, m2);
        let odd = addq(mulq(f0, g1), mulq(f1, g0));
        proof {
            let fi = f0 as int * g0 as int;
            let se = f1 as int * g1 as int;
            let z = zpow(a as nat);
            lemma_mod_mul_left(se, z);
            assert((t0 + m2) % 3329 == ((fi % 3329) + (se * z) % 3329) % 3329);
            vstd::arithmetic::div_mod::lemma_add_mod_noop(fi, se * z, 3329);
            assert((2 * hi) / 2 == hi as int && (2 * hi) % 2 == 0);
            assert((2 * hi + 1) / 2 == hi as int && (2 * hi + 1) % 2 == 1);
            let fo = f0 as int * g1 as int;
            let so = f1 as int * g0 as int;
            vstd::arithmetic::div_mod::lemma_add_mod_noop(fo, so, 3329);
            assert(even as int == bm_coeff(f@, g@, 2 * hi));
            assert(odd as int == bm_coeff(f@, g@, 2 * hi + 1));
        }
        out.push(even);
        out.push(odd);
        hi = hi + 1;
    }
    proof {
        assert(out@ =~= basemul_spec(f@, g@));
    }
    out
}

} // verus!
