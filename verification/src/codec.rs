//! Serialization of ring elements: exact bit-packing at widths 12, 10, 4
//! and 1 bit per coefficient, and the lossy compression of ciphertext
//! coefficients. Packing round-trips exactly; compression rounds to the
//! nearest multiple of `q / 2^d`.
use vstd::prelude::*;

verus! {

use vstd::arithmetic::div_mod::{
    lemma_div_denominator, lemma_fundamental_div_mod, lemma_fundamental_div_mod_converse_div,
    lemma_fundamental_div_mod_converse_mod,
};

/// `(m*x + y) % m == y` and `(m*x + y) / m == x` for `0 <= y < m`.
pub proof fn lemma_repack(m: int, x: int, y: int)
    requires
        m > 0,
        0 <= y < m,
        0 <= x,
    ensures
        (m * x + y) % m == y,
        (m * x + y) / m == x,
{
    assert(m * x == x * m) by (nonlinear_arith);
    lemma_fundamental_div_mod_converse_mod(m * x + y, m, x, y);
    lemma_fundamental_div_mod_converse_div(m * x + y, m, x, y);
}

// ---------------------------------------------------------------------
// 12-bit packing: 2 coefficients per 3 bytes. Canonical format for keys.
// ---------------------------------------------------------------------

/// Byte `b` of the 12-bit packing of `f`.
pub open spec fn enc12_byte(f: Seq<u16>, b: int) -> int {
    let a = f[2 * (b / 3)] as int;
    let c = f[2 * (b / 3) + 1] as int;
    if b % 3 == 0 {
        a % 256
    } else if b % 3 == 1 {
        a / 256 + 16 * (c % 16)
    } else {
        c / 16
    }
}

pub open spec fn encode12_spec(f: Seq<u16>) -> Seq<u8> {
    Seq::new(384, |b: int| enc12_byte(f, b) as u8)
}

/// Coefficient `i` read back from a 12-bit packing.
pub open spec fn dec12_val(bytes: Seq<u8>, i: int) -> int {
    let blk = i / 2;
    if i % 2 == 0 {
        bytes[3 * blk] + 256 * ((bytes[3 * blk + 1] as int) % 16)
    } else {
        (bytes[3 * blk + 1] as int) / 16 + 16 * bytes[3 * blk + 2]
    }
}

pub open spec fn decode12_spec(bytes: Seq<u8>) -> Seq<u16> {
    Seq::new(256, |i: int| dec12_val(bytes, i) as u16)
}

/// Every coefficient of the packing lies below the modulus.
pub open spec fn canonical12(bytes: Seq<u8>) -> bool {
    forall|i: int| 0 <= i < 256 ==> dec12_val(bytes, i) < 3329
}

proof fn lemma_enc12_range(f: Seq<u16>, b: int)
    requires
        f.len() == 256,
        forall|i: int| 0 <= i < 256 ==> f[i] < 4096,
        0 <= b < 384,
    ensures
        0 <= enc12_byte(f, b) < 256,
{
    assert(0 <= b / 3 < 128);
    assert(f[2 * (b / 3)] < 4096);
    assert(f[2 * (b / 3) + 1] < 4096);
}

/// Packs 256 coefficients below `2^12` into 384 bytes.
pub fn encode12(f: &Vec<u16>) -> (r: Vec<u8>)
    requires
        f@.len() == 256,
        forall|i: int| 0 <= i < 256 ==> f@[i] < 4096,
    ensures
        r@ == encode12_spec(f@),
{
    let mut out: Vec<u8> = Vec::new();
    let mut blk: usize = 0;
    while blk < 128
        invariant
            blk <= 128,
            f@.len() == 256,
            forall|i: int| 0 <= i < 256 ==> f@[i] < 4096,
            out@.len() == 3 * blk,
            forall|b: int| 0 <= b < 3 * blk ==> out@[b] == enc12_byte(f@, b) as u8,
        decreases 128 - blk,
    {
        let a = f[2 * blk];
        let c = f[2 * blk + 1];
        out.push((a % 256) as u8);
        out.push((a / 256 + 16 * (c % 16)) as u8);
        out.push((c / 16) as u8);
        proof {
            assert((3 * blk) / 3 == blk as int && (3 * blk) % 3 == 0);
            assert((3 * blk + 1) / 3 == blk as int && (3 * blk + 1) % 3 == 1);
            assert((3 * blk + 2) / 3 == blk as int && (3 * blk + 2) % 3 == 2);
        }
        blk = blk + 1;
    }
    proof {
        assert(out@ =~= encode12_spec(f@));
    }
    out
}

/// Unpacks 384 bytes into 256 coefficients; rejects an input of any
/// other length, and a non-canonical encoding (a coefficient at or
/// above the modulus).
pub fn decode12(bytes: &Vec<u8>) -> (r: Option<Vec<u16>>)
    ensures
        r is Some <==> bytes@.len() == 384 && canonical12(bytes@),
        r is Some ==> r.unwrap()@ == decode12_spec(bytes@),
{
    if bytes.len() != 384 {
        return None;
    }
    let mut out: Vec<u16> = Vec::new();
    let mut i: usize = 0;
    while i < 256
        invariant
            i <= 256,
            bytes@.len() == 384,
            out@.len() == i,
            forall|j: int| 0 <= j < i ==> out@[j] == dec12_val(bytes@, j) as u16,
            forall|j: int| 0 <= j < i ==> dec12_val(bytes@, j) < 3329,
        decreases 256 - i,
    {
        let blk = i / 2;
        let v: u16 = if i % 2 == 0 {
            bytes[3 * blk] as u16 + 256 * (bytes[3 * blk + 1] as u16 % 16)
        } else {
            bytes[3 * blk + 1] as u16 / 16 + 16 * (bytes[3 * blk + 2] as u16)
        };
        assert(v as int == dec12_val(bytes@, i as int));
        if v >= 3329 {
            return None;
        }
        out.push(v);
        i = i + 1;
    }
    proof {
        assert(out@ =~= decode12_spec(bytes@));
    }
    Some(out)
}

/// Packing at width 12 round-trips exactly, and its output is canonical
/// whenever the coefficients lie below the modulus.
pub proof fn lemma_round_trip12(f: Seq<u16>)
    requires
        f.len() == 256,
        forall|i: int| 0 <= i < 256 ==> f[i] < 3329,
    ensures
        canonical12(encode12_spec(f)),
        decode12_spec(encode12_spec(f)) == f,
{
    let enc = encode12_spec(f);
    assert forall|i: int| 0 <= i < 256 implies dec12_val(enc, i) == f[i] as int by {
        let blk = i / 2;
        let a = f[2 * blk] as int;
        let c = f[2 * blk + 1] as int;
        lemma_enc12_range(f, 3 * blk);
        lemma_enc12_range(f, 3 * blk + 1);
        lemma_enc12_range(f, 3 * blk + 2);
        assert((3 * blk) / 3 == blk && (3 * blk) % 3 == 0);
        assert((3 * blk + 1) / 3 == blk && (3 * blk + 1) % 3 == 1);
        assert((3 * blk + 2) / 3 == blk && (3 * blk + 2) % 3 == 2);
        assert(enc[3 * blk] as int == a % 256);
        assert(enc[3 * blk + 1] as int == a / 256 + 16 * (c % 16));
        assert(enc[3 * blk + 2] as int == c / 16);
        lemma_repack(16, c % 16, a / 256);
        lemma_fundamental_div_mod(a, 256);
        lemma_fundamental_div_mod(c, 16);
        if i % 2 == 0 {
            assert(2 * blk == i);
            assert(dec12_val(enc, i) == a % 256 + 256 * ((a / 256 + 16 * (c % 16)) % 256 % 16));
        } else {
            assert(2 * blk + 1 == i);
        }
    }
    assert(decode12_spec(enc) =~= f);
}

// ---------------------------------------------------------------------
// 10-bit packing: 4 coefficients per 5 bytes. First ciphertext half.
// ---------------------------------------------------------------------

/// Byte `b` of the 10-bit packing of `f`.
pub open spec fn enc10_byte(f: Seq<u16>, b: int) -> int {
    let blk = b / 5;
    let a0 = f[4 * blk] as int;
    let a1 = f[4 * blk + 1] as int;
    let a2 = f[4 * blk + 2] as int;
    let a3 = f[4 * blk + 3] as int;
    if b % 5 == 0 {
        a0 % 256
    } else if b % 5 == 1 {
        a0 / 256 + 4 * (a1 % 64)
    } else if b % 5 == 2 {
        a1 / 64 + 16 * (a2 % 16)
    } else if b % 5 == 3 {
        a2 / 16 + 64 * (a3 % 4)
    } else {
        a3 / 4
    }
}

pub open spec fn encode10_spec(f: Seq<u16>) -> Seq<u8> {
    Seq::new(320, |b: int| enc10_byte(f, b) as u8)
}

/// Coefficient `i` read back from a 10-bit packing.
pub open spec fn dec10_val(bytes: Seq<u8>, i: int) -> int {
    let blk = i / 4;
    let b0 = bytes[5 * blk] as int;
    let b1 = bytes[5 * blk + 1] as int;
    let b2 = bytes[5 * blk + 2] as int;
    let b3 = bytes[5 * blk + 3] as int;
    let b4 = bytes[5 * blk + 4] as int;
    if i % 4 == 0 {
        b0 + 256 * (b1 % 4)
    } else if i % 4 == 1 {
        b1 / 4 + 64 * (b2 % 16)
    } else if i % 4 == 2 {
        b2 / 16 + 16 * (b3 % 64)
    } else {
        b3 / 64 + 4 * b4
    }
}

pub open spec fn decode10_spec(bytes: Seq<u8>) -> Seq<u16> {
    Seq::new(256, |i: int| dec10_val(bytes, i) as u16)
}

proof fn lemma_enc10_range(f: Seq<u16>, b: int)
    requires
        f.len() == 256,
        forall|i: int| 0 <= i < 256 ==> f[i] < 1024,
        0 <= b < 320,
    ensures
        0 <= enc10_byte(f, b) < 256,
{
    assert(0 <= b / 5 < 64);
    assert(f[4 * (b / 5)] < 1024);
    assert(f[4 * (b / 5) + 1] < 1024);
    assert(f[4 * (b / 5) + 2] < 1024);
    assert(f[4 * (b / 5) + 3] < 1024);
}

/// Packs 256 coefficients below `2^10` into 320 bytes.
pub fn encode10(f: &Vec<u16>) -> (r: Vec<u8>)
    requires
        f@.len() == 256,
        forall|i: int| 0 <= i < 256 ==> f@[i] < 1024,
    ensures
        r@ == encode10_spec(f@),
{
    let mut out: Vec<u8> = Vec::new();
    let mut blk: usize = 0;
    while blk < 64
        invariant
            blk <= 64,
            f@.len() == 256,
            forall|i: int| 0 <= i < 256 ==> f@[i] < 1024,
            out@.len() == 5 * blk,
            forall|b: int| 0 <= b < 5 * blk ==> out@[b] == enc10_byte(f@, b) as u8,
        decreases 64 - blk,
    {
        let a0 = f[4 * blk];
        let a1 = f[4 * blk + 1];
        let a2 = f[4 * blk + 2];
        let a3 = f[4 * blk + 3];
        out.push((a0 % 256) as u8);
        out.push((a0 / 256 + 4 * (a1 % 64)) as u8);
        out.push((a1 / 64 + 16 * (a2 % 16)) as u8);
        out.push((a2 / 16 + 64 * (a3 % 4)) as u8);
        out.push((a3 / 4) as u8);
        proof {
            assert((5 * blk) / 5 == blk as int && (5 * blk) % 5 == 0);
            assert((5 * blk + 1) / 5 == blk as int && (5 * blk + 1) % 5 == 1);
            assert((5 * blk + 2) / 5 == blk as int && (5 * blk + 2) % 5 == 2);
            assert((5 * blk + 3) / 5 == blk as int && (5 * blk + 3) % 5 == 3);
            assert((5 * blk + 4) / 5 == blk as int && (5 * blk + 4) % 5 == 4);
        }
        blk = blk + 1;
    }
    proof {
        assert(out@ =~= encode10_spec(f@));
    }
    out
}

/// Unpacks 320 bytes into 256 coefficients below `2^10`. Every byte
/// sequence of the right length decodes: the format has no invalid values.
pub fn decode10(bytes: &Vec<u8>) -> (r: Vec<u16>)
    requires
        bytes@.len() == 320,
    ensures
        r@ == decode10_spec(bytes@),
        forall|i: int| 0 <= i < 256 ==> r@[i] < 1024,
{
    let mut out: Vec<u16> = Vec::new();
    let mut i: usize = 0;
    while i < 256
        invariant
            i <= 256,
            bytes@.len() == 320,
            out@.len() == i,
            forall|j: int| 0 <= j < i ==> out@[j] == dec10_val(bytes@, j) as u16,
            forall|j: int| 0 <= j < i ==> out@[j] < 1024,
        decreases 256 - i,
    {
        let blk = i / 4;
        let b0 = bytes[5 * blk] as u16;
        let b1 = bytes[5 * blk + 1] as u16;
        let b2 = bytes[5 * blk + 2] as u16;
        let b3 = bytes[5 * blk + 3] as u16;
        let b4 = bytes[5 * blk + 4] as u16;
        let v: u16 = if i % 4 == 0 {
            b0 + 256 * (b1 % 4)
        } else if i % 4 == 1 {
            b1 / 4 + 64 * (b2 % 16)
        } else if i % 4 == 2 {
            b2 / 16 + 16 * (b3 % 64)
        } else {
            b3 / 64 + 4 * b4
        };
        assert(v as int == dec10_val(bytes@, i as int));
        out.push(v);
        i = i + 1;
    }
    proof {
        assert(out@ =~= decode10_spec(bytes@));
    }
    out
}

/// Packing at width 10 round-trips exactly.
pub proof fn lemma_round_trip10(f: Seq<u16>)
    requires
        f.len() == 256,
        forall|i: int| 0 <= i < 256 ==> f[i] < 1024,
    ensures
        decode10_spec(encode10_spec(f)) == f,
{
    let enc = encode10_spec(f);
    assert forall|i: int| 0 <= i < 256 implies dec10_val(enc, i) == f[i] as int by {
        let blk = i / 4;
        let a0 = f[4 * blk] as int;
        let a1 = f[4 * blk + 1] as int;
        let a2 = f[4 * blk + 2] as int;
        let a3 = f[4 * blk + 3] as int;
        lemma_enc10_range(f, 5 * blk);
        lemma_enc10_range(f, 5 * blk + 1);
        lemma_enc10_range(f, 5 * blk + 2);
        lemma_enc10_range(f, 5 * blk + 3);
        lemma_enc10_range(f, 5 * blk + 4);
        assert((5 * blk) / 5 == blk && (5 * blk) % 5 == 0);
        assert((5 * blk + 1) / 5 == blk && (5 * blk + 1) % 5 == 1);
        assert((5 * blk + 2) / 5 == blk && (5 * blk + 2) % 5 == 2);
        assert((5 * blk + 3) / 5 == blk && (5 * blk + 3) % 5 == 3);
        assert((5 * blk + 4) / 5 == blk && (5 * blk + 4) % 5 == 4);
        assert(enc[5 * blk] as int == a0 % 256);
        assert(enc[5 * blk + 1] as int == a0 / 256 + 4 * (a1 % 64));
        assert(enc[5 * blk + 2] as int == a1 / 64 + 16 * (a2 % 16));
        assert(enc[5 * blk + 3] as int == a2 / 16 + 64 * (a3 % 4));
        assert(enc[5 * blk + 4] as int == a3 / 4);
        lemma_repack(4, a1 % 64, a0 / 256);
        lemma_repack(16, a2 % 16, a1 / 64);
        lemma_repack(64, a3 % 4, a2 / 16);
        lemma_fundamental_div_mod(a0, 256);
        lemma_fundamental_div_mod(a1, 64);
        lemma_fundamental_div_mod(a2, 16);
        lemma_fundamental_div_mod(a3, 4);
        if i % 4 == 0 {
            assert(4 * blk == i);
        } else if i % 4 == 1 {
            assert(4 * blk + 1 == i);
        } else if i % 4 == 2 {
            assert(4 * blk + 2 == i);
        } else {
            assert(4 * blk + 3 == i);
        }
    }
    assert(decode10_spec(enc) =~= f);
}

// ---------------------------------------------------------------------
// 4-bit packing: 2 coefficients per byte. Second ciphertext half.
// ---------------------------------------------------------------------

pub open spec fn enc4_byte(f: Seq<u16>, b: int) -> int {
    (f[2 * b] as int) + 16 * (f[2 * b + 1] as int)
}

pub open spec fn encode4_spec(f: Seq<u16>) -> Seq<u8> {
    Seq::new(128, |b: int| enc4_byte(f, b) as u8)
}

pub open spec fn dec4_val(bytes: Seq<u8>, i: int) -> int {
    if i % 2 == 0 {
        (bytes[i / 2] as int) % 16
    } else {
        (bytes[i / 2] as int) / 16
    }
}

pub open spec fn decode4_spec(bytes: Seq<u8>) -> Seq<u16> {
    Seq::new(256, |i: int| dec4_val(bytes, i) as u16)
}

/// Packs 256 coefficients below `2^4` into 128 bytes.
pub fn encode4(f: &Vec<u16>) -> (r: Vec<u8>)
    requires
        f@.len() == 256,
        forall|i: int| 0 <= i < 256 ==> f@[i] < 16,
    ensures
        r@ == encode4_spec(f@),
{
    let mut out: Vec<u8> = Vec::new();
    let mut blk: usize = 0;
    while blk < 128
        invariant
            blk <= 128,
            f@.len() == 256,
            forall|i: int| 0 <= i < 256 ==> f@[i] < 16,
            out@.len() == blk,
            forall|b: int| 0 <= b < blk ==> out@[b] == enc4_byte(f@, b) as u8,
        decreases 128 - blk,
    {
        out.push((f[2 * blk] + 16 * f[2 * blk + 1]) as u8);
        blk = blk + 1;
    }
    proof {
        assert(out@ =~= encode4_spec(f@));
    }
    out
}

/// Unpacks 128 bytes into 256 coefficients below `2^4`; total, as every
/// byte sequence of the right length is a valid packing.
pub fn decode4(bytes: &Vec<u8>) -> (r: Vec<u16>)
    requires
        bytes@.len() == 128,
    ensures
        r@ == decode4_spec(bytes@),
        forall|i: int| 0 <= i < 256 ==> r@[i] < 16,
{
    let mut out: Vec<u16> = Vec::new();
    let mut i: usize = 0;
    while i < 256
        invariant
            i <= 256,
            bytes@.len() == 128,
            out@.len() == i,
            forall|j: int| 0 <= j < i ==> out@[j] == dec4_val(bytes@, j) as u16,
            forall|j: int| 0 <= j < i ==> out@[j] < 16,
        decreases 256 - i,
    {
        let v: u16 = if i % 2 == 0 {
            bytes[i / 2] as u16 % 16
        } else {
            bytes[i / 2] as u16 / 16
        };
        out.push(v);
        i = i + 1;
    }
    proof {
        assert(out@ =~= decode4_spec(bytes@));
    }
    out
}

/// Packing at width 4 round-trips exactly.
pub proof fn lemma_round_trip4(f: Seq<u16>)
    requires
        f.len() == 256,
        forall|i: int| 0 <= i < 256 ==> f[i] < 16,
    ensures
        decode4_spec(encode4_spec(f)) == f,
{
    let enc = encode4_spec(f);
    assert forall|i: int| 0 <= i < 256 implies dec4_val(enc, i) == f[i] as int by {
        let blk = i / 2;
        let a = f[2 * blk] as int;
        let c = f[2 * blk + 1] as int;
        assert(enc[blk] as int == a + 16 * c);
        lemma_repack(16, c, a);
        if i % 2 == 0 {
            assert(2 * blk == i);
        } else {
            assert(2 * blk + 1 == i);
        }
    }
    assert(decode4_spec(enc) =~= f);
}

// ---------------------------------------------------------------------
// Lossy compression of ciphertext coefficients: round to the nearest
// multiple of q/2^d, keeping d bits. Decompression scales back, with a
// rounding error bounded by q/2^(d+1).
// ---------------------------------------------------------------------

/// `round(2^10 * x / q) mod 2^10`.
pub open spec fn cmp10(x: int) -> int {
    ((2048 * x + 3329) / 6658) % 1024
}

/// `round(q * y / 2^10)`.
pub open spec fn dcmp10(y: int) -> int {
    (6658 * y + 1024) / 2048
}

/// `round(2^4 * x / q) mod 2^4`.
pub open spec fn cmp4(x: int) -> int {
    ((32 * x + 3329) / 6658) % 16
}

/// `round(q * y / 2^4)`.
pub open spec fn dcmp4(y: int) -> int {
    (6658 * y + 16) / 32
}

/// `round(2 * x / q) mod 2`.
pub open spec fn cmp1(x: int) -> int {
    ((4 * x + 3329) / 6658) % 2
}

/// Compression to 10 bits loses at most 2 per coefficient, in the
/// ring's circular distance — `q / 2^11` rounded up.
pub proof fn lemma_compress10_error(x: int)
    requires
        0 <= x < 3329,
    ensures
        ({
            let e = (dcmp10(cmp10(x)) - x) % 3329;
            e <= 2 || e >= 3327
        }),
{
    let y0 = (2048 * x + 3329) / 6658;
    lemma_fundamental_div_mod(2048 * x + 3329, 6658);
    if y0 < 1024 {
        let xr = (6658 * y0 + 1024) / 2048;
        lemma_fundamental_div_mod(6658 * y0 + 1024, 2048);
        assert(x - 2 <= xr <= x + 2);
    } else {
        assert(y0 == 1024 && x == 3328);
    }
}

/// Compression to 4 bits loses at most 104 per coefficient, in the
/// ring's circular distance — `q / 2^5` rounded down, the rounding
/// radius of this width.
pub proof fn lemma_compress4_error(x: int)
    requires
        0 <= x < 3329,
    ensures
        ({
            let e = (dcmp4(cmp4(x)) - x) % 3329;
            e <= 104 || e >= 3225
        }),
{
    let y0 = (32 * x + 3329) / 6658;
    lemma_fundamental_div_mod(32 * x + 3329, 6658);
    if y0 < 16 {
        let xr = (6658 * y0 + 16) / 32;
        lemma_fundamental_div_mod(6658 * y0 + 16, 32);
        assert(x - 104 <= xr <= x + 104);
    } else {
        assert(y0 == 16 && x >= 3225);
    }
}

pub open spec fn compress_poly10_spec(f: Seq<u16>) -> Seq<u16> {
    Seq::new(256, |i: int| cmp10(f[i] as int) as u16)
}

pub open spec fn decompress_poly10_spec(f: Seq<u16>) -> Seq<u16> {
    Seq::new(256, |i: int| dcmp10(f[i] as int) as u16)
}

pub open spec fn compress_poly4_spec(f: Seq<u16>) -> Seq<u16> {
    Seq::new(256, |i: int| cmp4(f[i] as int) as u16)
}

pub open spec fn decompress_poly4_spec(f: Seq<u16>) -> Seq<u16> {
    Seq::new(256, |i: int| dcmp4(f[i] as int) as u16)
}

pub fn compress_poly10(f: &Vec<u16>) -> (r: Vec<u16>)
    requires
        f@.len() == 256,
        forall|i: int| 0 <= i < 256 ==> f@[i] < 3329,
    ensures
        r@ == compress_poly10_spec(f@),
        forall|i: int| 0 <= i < 256 ==> r@[i] < 1024,
{
    let mut out: Vec<u16> = Vec::new();
    let mut i: usize = 0;
    while i < 256
        invariant
            i <= 256,
            f@.len() == 256,
            forall|j: int| 0 <= j < 256 ==> f@[j] < 3329,
            out@.len() == i,
            forall|j: int| 0 <= j < i ==> out@[j] == cmp10(f@[j] as int) as u16 && out@[j] < 1024,
        decreases 256 - i,
    {
        let v = (((2048 * (f[i] as u32) + 3329) / 6658) % 1024) as u16;
        out.push(v);
        i = i + 1;
    }
    proof {
        assert(out@ =~= compress_poly10_spec(f@));
    }
    out
}

pub fn decompress_poly10(f: &Vec<u16>) -> (r: Vec<u16>)
    requires
        f@.len() == 256,
        forall|i: int| 0 <= i < 256 ==> f@[i] < 1024,
    ensures
        r@ == decompress_poly10_spec(f@),
        forall|i: int| 0 <= i < 256 ==> r@[i] < 3329,
{
    let mut out: Vec<u16> = Vec::new();
    let mut i: usize = 0;
    while i < 256
        invariant
            i <= 256,
            f@.len() == 256,
            forall|j: int| 0 <= j < 256 ==> f@[j] < 1024,
            out@.len() == i,
            forall|j: int| 0 <= j < i ==> out@[j] == dcmp10(f@[j] as int) as u16 && out@[j] < 3329,
        decreases 256 - i,
    {
        let v = ((6658 * (f[i] as u32) + 1024) / 2048) as u16;
        out.push(v);
        i = i + 1;
    }
    proof {
        assert(out@ =~= decompress_poly10_spec(f@));
    }
    out
}

pub fn compress_poly4(f: &Vec<u16>) -> (r: Vec<u16>)
    requires
        f@.len() == 256,
        forall|i: int| 0 <= i < 256 ==> f@[i] < 3329,
    ensures
        r@ == compress_poly4_spec(f@),
        forall|i: int| 0 <= i < 256 ==> r@[i] < 16,
{
    let mut out: Vec<u16> = Vec::new();
    let mut i: usize = 0;
    while i < 256
        invariant
            i <= 256,
            f@.len() == 256,
            forall|j: int| 0 <= j < 256 ==> f@[j] < 3329,
            out@.len() == i,
            forall|j: int| 0 <= j < i ==> out@[j] == cmp4(f@[j] as int) as u16 && out@[j] < 16,
        decreases 256 - i,
    {
        let v = (((32 * (f[i] as u32) + 3329) / 6658) % 16) as u16;
        out.push(v);
        i = i + 1;
    }
    proof {
        assert(out@ =~= compress_poly4_spec(f@));
    }
    out
}

pub fn decompress_poly4(f: &Vec<u16>) -> (r: Vec<u16>)
    requires
        f@.len() == 256,
        forall|i: int| 0 <= i < 256 ==> f@[i] < 16,
    ensures
        r@ == decompress_poly4_spec(f@),
        forall|i: int| 0 <= i < 256 ==> r@[i] < 3329,
{
    let mut out: Vec<u16> = Vec::new();
    let mut i: usize = 0;
    while i < 256
        invariant
            i <= 256,
            f@.len() == 256,
            forall|j: int| 0 <= j < 256 ==> f@[j] < 16,
            out@.len() == i,
            forall|j: int| 0 <= j < i ==> out@[j] == dcmp4(f@[j] as int) as u16 && out@[j] < 3329,
        decreases 256 - i,
    {
        let v = ((6658 * (f[i] as u32) + 16) / 32) as u16;
        out.push(v);
        i = i + 1;
    }
    proof {
        assert(out@ =~= decompress_poly4_spec(f@));
    }
    out
}

// ---------------------------------------------------------------------
// The 32-byte message as a ring element: bit i of the message maps to
// coefficient round(q/2) * bit, and back by rounding.
// ---------------------------------------------------------------------

/// `2^k` for `0 <= k < 8`.
pub open spec fn p2(k: int) -> int {
    if k == 0 {
        1
    } else if k == 1 {
        2
    } else if k == 2 {
        4
    } else if k == 3 {
        8
    } else if k == 4 {
        16
    } else if k == 5 {
        32
    } else if k == 6 {
        64
    } else {
        128
    }
}

/// Bit `i` of a byte sequence, least-significant bit first.
pub open spec fn bit_at(bytes: Seq<u8>, i: int) -> int {
    ((bytes[i / 8] as int) / p2(i % 8)) % 2
}

/// The message bits scaled to `round(q/2) = 1665`.
pub open spec fn msg_poly_spec(m: Seq<u8>) -> Seq<u16> {
    Seq::new(256, |i: int| (1665 * bit_at(m, i)) as u16)
}

/// Byte `b` of the message recovered from a ring element by rounding
/// each coefficient to one bit.
pub open spec fn msg_byte(w: Seq<u16>, b: int) -> int {
    cmp1(w[8 * b] as int) + 2 * cmp1(w[8 * b + 1] as int) + 4 * cmp1(w[8 * b + 2] as int) + 8 * cmp1(
        w[8 * b + 3] as int,
    ) + 16 * cmp1(w[8 * b + 4] as int) + 32 * cmp1(w[8 * b + 5] as int) + 64 * cmp1(
        w[8 * b + 6] as int,
    ) + 128 * cmp1(w[8 * b + 7] as int)
}

pub open spec fn poly_msg_spec(w: Seq<u16>) -> Seq<u8> {
    Seq::new(32, |b: int| msg_byte(w, b) as u8)
}

pub(crate) fn p2e(k: usize) -> (r: u8)
    requires
        k < 8,
    ensures
        r as int == p2(k as int),
{
    if k == 0 {
        1
    } else if k == 1 {
        2
    } else if k == 2 {
        4
    } else if k == 3 {
        8
    } else if k == 4 {
        16
    } else if k == 5 {
        32
    } else if k == 6 {
        64
    } else {
        128
    }
}

/// Spreads the 256 bits of a 32-byte message into a ring element.
pub fn msg_to_poly(m: &Vec<u8>) -> (r: Vec<u16>)
    requires
        m@.len() == 32,
    ensures
        r@ == msg_poly_spec(m@),
        forall|i: int| 0 <= i < 256 ==> r@[i] < 3329,
{
    let mut out: Vec<u16> = Vec::new();
    let mut i: usize = 0;
    while i < 256
        invariant
            i <= 256,
            m@.len() == 32,
            out@.len() == i,
            forall|j: int| 0 <= j < i ==> out@[j] == (1665 * bit_at(m@, j)) as u16 && out@[j]
                < 3329,
        decreases 256 - i,
    {
        let bit = (m[i / 8] / p2e(i % 8)) % 2;
        let v = 1665 * (bit as u16);
        assert(bit as int == bit_at(m@, i as int));
        out.push(v);
        i = i + 1;
    }
    proof {
        assert(out@ =~= msg_poly_spec(m@));
    }
    out
}

fn cmp1e(x: u16) -> (r: u16)
    requires
        x < 3329,
    ensures
        r as int == cmp1(x as int),
        r < 2,
{
    (((4 * (x as u32) + 3329) / 6658) % 2) as u16
}

/// Rounds each coefficient of a ring element to one bit and packs the
/// 256 bits into 32 bytes.
pub fn poly_to_msg(w: &Vec<u16>) -> (r: Vec<u8>)
    requires
        w@.len() == 256,
        forall|i: int| 0 <= i < 256 ==> w@[i] < 3329,
    ensures
        r@ == poly_msg_spec(w@),
{
    let mut out: Vec<u8> = Vec::new();
    let mut b: usize = 0;
    while b < 32
        invariant
            b <= 32,
            w@.len() == 256,
            forall|j: int| 0 <= j < 256 ==> w@[j] < 3329,
            out@.len() == b,
            forall|j: int| 0 <= j < b ==> out@[j] == msg_byte(w@, j) as u8,
        decreases 32 - b,
    {
        let v: u16 = cmp1e(w[8 * b]) + 2 * cmp1e(w[8 * b + 1]) + 4 * cmp1e(w[8 * b + 2]) + 8
            * cmp1e(w[8 * b + 3]) + 16 * cmp1e(w[8 * b + 4]) + 32 * cmp1e(w[8 * b + 5]) + 64
            * cmp1e(w[8 * b + 6]) + 128 * cmp1e(w[8 * b + 7]);
        out.push(v as u8);
        b = b + 1;
    }
    proof {
        assert(out@ =~= poly_msg_spec(w@));
    }
    out
}

/// The message layer round-trips exactly: spreading 32 bytes into a
/// ring element and rounding each coefficient back to a bit recovers
/// the same 32 bytes.
#[verifier::rlimit(100)]
pub proof fn lemma_round_trip_msg(m: Seq<u8>)
    requires
        m.len() == 32,
    ensures
        poly_msg_spec(msg_poly_spec(m)) == m,
{
    let p = msg_poly_spec(m);
    assert forall|b: int| 0 <= b < 32 implies msg_byte(p, b) == m[b] as int by {
        let v = m[b] as int;
        lemma_div_denominator(v, 2, 2);
        lemma_div_denominator(v, 4, 2);
        lemma_div_denominator(v, 8, 2);
        lemma_div_denominator(v, 16, 2);
        lemma_div_denominator(v, 32, 2);
        lemma_div_denominator(v, 64, 2);
        lemma_div_denominator(v, 128, 2);
        lemma_fundamental_div_mod(v, 2);
        lemma_fundamental_div_mod(v / 2, 2);
        lemma_fundamental_div_mod(v / 4, 2);
        lemma_fundamental_div_mod(v / 8, 2);
        lemma_fundamental_div_mod(v / 16, 2);
        lemma_fundamental_div_mod(v / 32, 2);
        lemma_fundamental_div_mod(v / 64, 2);
        lemma_fundamental_div_mod(v / 128, 2);
        assert(v / 256 == 0);
        assert(v == (v % 2) + 2 * ((v / 2) % 2) + 4 * ((v / 4) % 2) + 8 * ((v / 8) % 2) + 16 * ((v
            / 16) % 2) + 32 * ((v / 32) % 2) + 64 * ((v / 64) % 2) + 128 * ((v / 128) % 2));
        assert forall|t: int| 0 <= t < 8 implies #[trigger] p[8 * b + t] == (1665 * ((v / p2(t))
            % 2)) as u16 by {
            assert((8 * b + t) / 8 == b && (8 * b + t) % 8 == t);
        }
        assert(cmp1(0) == 0 && cmp1(1665) == 1);
    }
    assert(poly_msg_spec(p) =~= m);
}

} // verus!
