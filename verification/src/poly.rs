//! Ring elements: 256 coefficients modulo `q = 3329`, and their
//! coefficientwise sum and difference.
use vstd::prelude::*;

verus! {

use crate::field::{addq, subq};

/// A well-formed ring element: 256 coefficients, each below the modulus.
pub open spec fn poly_wf(f: Seq<u16>) -> bool {
    f.len() == 256 && forall|i: int| 0 <= i < 256 ==> f[i] < 3329
}

pub open spec fn poly_add_spec(f: Seq<u16>, g: Seq<u16>) -> Seq<u16> {
    Seq::new(256, |i: int| ((f[i] + g[i]) % 3329) as u16)
}

pub open spec fn poly_sub_spec(f: Seq<u16>, g: Seq<u16>) -> Seq<u16> {
    Seq::new(256, |i: int| ((f[i] - g[i]) % 3329) as u16)
}

/// Coefficientwise sum of two ring elements.
pub fn poly_add(f: &Vec<u16>, g: &Vec<u16>) -> (r: Vec<u16>)
    requires
        poly_wf(f@),
        poly_wf(g@),
    ensures
        r@ == poly_add_spec(f@, g@),
        poly_wf(r@),
{
    let mut out: Vec<u16> = Vec::new();
    let mut i: usize = 0;
    while i < 256
        invariant
            i <= 256,
            poly_wf(f@),
            poly_wf(g@),
            out@.len() == i,
            forall|j: int| 0 <= j < i ==> out@[j] == ((f@[j] + g@[j]) % 3329) as u16 && out@[j]
                < 3329,
        decreases 256 - i,
    {
        out.push(addq(f[i], g[i]));
        i = i + 1;
    }
    proof {
        assert(out@ =~= poly_add_spec(f@, g@));
    }
    out
}

/// Coefficientwise difference of two ring elements.
pub fn poly_sub(f: &Vec<u16>, g: &Vec<u16>) -> (r: Vec<u16>)
    requires
        poly_wf(f@),
        poly_wf(g@),
    ensures
        r@ == poly_sub_spec(f@, g@),
        poly_wf(r@),
{
    let mut out: Vec<u16> = Vec::new();
    let mut i: usize = 0;
    while i < 256
        invariant
            i <= 256,
            poly_wf(f@),
            poly_wf(g@),
            out@.len() == i,
            forall|j: int| 0 <= j < i ==> out@[j] == ((f@[j] - g@[j]) % 3329) as u16 && out@[j]
                < 3329,
        decreases 256 - i,
    {
        out.push(subq(f[i], g[i]));
        i = i + 1;
    }
    proof {
        assert(out@ =~= poly_sub_spec(f@, g@));
    }
    out
}

} // verus!
