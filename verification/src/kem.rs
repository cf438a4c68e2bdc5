//! The key-encapsulation mechanism: key generation, encapsulation and
//! decapsulation, each a pure function of its explicit inputs. The
//! contracts state the exact output bytes as compositions of the ring,
//! sampling and packing layers and of the named hash results, so equal
//! inputs are guaranteed to give byte-identical outputs.
use vstd::prelude::*;

verus! {

use crate::KemError;
use crate::bytes::{concat2, concat_byte, sub_bytes};
use crate::codec::{
    canonical12, compress_poly10, compress_poly10_spec, compress_poly4, compress_poly4_spec,
    decode10, decode10_spec, decode12, decode12_spec, decode4, decode4_spec, decompress_poly10,
    decompress_poly10_spec, decompress_poly4, decompress_poly4_spec, encode10, encode10_spec,
    encode12, encode12_spec, encode4, encode4_spec, msg_poly_spec, msg_to_poly, poly_msg_spec,
    poly_to_msg,
};
use crate::poly::{poly_add, poly_add_spec, poly_sub, poly_sub_spec, poly_wf};
use crate::sample::{cbd_spec, sample_cbd, sample_uniform, sample_uniform_spec};
use crate::transform::{basemul, basemul_spec, intt, intt_spec, ntt, ntt_spec};
use crate::xof::{sha3_256, sha3_256_of, sha3_512, sha3_512_of, shake128, shake128_of, shake256,
    shake256_of};

// ---------------------------------------------------------------------
// Derivations from seeds.
// ---------------------------------------------------------------------

/// The `n` bytes of `s` from `start`: the documented output window of a
/// digest, read off with its length fixed by the reader.
pub open spec fn bytes_at(s: Seq<u8>, start: int, n: nat) -> Seq<u8> {
    Seq::new(n, |i: int| s[start + i])
}

/// Matrix entry in row `i`, column `j`: a uniform element in the
/// transformed domain, drawn from the matrix seed and the two indices.
pub open spec fn mat_entry(rho: Seq<u8>, j: u8, i: u8) -> Option<Seq<u16>> {
    sample_uniform_spec(shake128_of(rho.push(j).push(i), 768))
}

/// Noise element of width 3 drawn from a seed and a domain-separation
/// counter.
pub open spec fn prf3(sigma: Seq<u8>, n: u8) -> Seq<u16> {
    cbd_spec(shake256_of(sigma.push(n), 192), 3)
}

/// Noise element of width 2 drawn from a seed and a domain-separation
/// counter.
pub open spec fn prf2(sigma: Seq<u8>, n: u8) -> Seq<u16> {
    cbd_spec(shake256_of(sigma.push(n), 128), 2)
}

fn sample_matrix_entry(rho: &Vec<u8>, j: u8, i: u8) -> (r: Option<Vec<u16>>)
    requires
        rho@.len() == 32,
    ensures
        r is Some <==> mat_entry(rho@, j, i) is Some,
        r is Some ==> r.unwrap()@ == mat_entry(rho@, j, i).unwrap(),
        r is Some ==> poly_wf(r.unwrap()@),
{
    let stream = shake128(&concat_byte(&concat_byte(rho, j), i), 768);
    sample_uniform(&stream)
}

fn sample_noise3(sigma: &Vec<u8>, n: u8) -> (r: Vec<u16>)
    requires
        sigma@.len() == 32,
    ensures
        r@ == prf3(sigma@, n),
        poly_wf(r@),
{
    let stream = shake256(&concat_byte(sigma, n), 192);
    sample_cbd(&stream, 3)
}

fn sample_noise2(sigma: &Vec<u8>, n: u8) -> (r: Vec<u16>)
    requires
        sigma@.len() == 32,
    ensures
        r@ == prf2(sigma@, n),
        poly_wf(r@),
{
    let stream = shake256(&concat_byte(sigma, n), 128);
    sample_cbd(&stream, 2)
}

// ---------------------------------------------------------------------
// Key generation.
// ---------------------------------------------------------------------

/// A structurally valid encapsulation key: 800 bytes whose two packed
/// ring elements are canonical.
pub open spec fn ek_valid(ek: Seq<u8>) -> bool {
    ek.len() == 800 && canonical12(ek.subrange(0, 384)) && canonical12(ek.subrange(384, 768))
}

/// A structurally valid decapsulation key: 1632 bytes holding the packed
/// secret vector, the full encapsulation key, its digest and the
/// implicit-rejection value.
pub open spec fn dk_valid(dk: Seq<u8>) -> bool {
    dk.len() == 1632 && canonical12(dk.subrange(0, 384)) && canonical12(dk.subrange(384, 768))
        && ek_valid(dk.subrange(768, 1568))
}

/// The key pair grown from a 32-byte seed: two sub-seeds are derived by
/// hashing, one seeding the public matrix and the noise, the other kept
/// as the implicit-rejection value. `None` only when rejection sampling
/// exhausts its stream.
pub open spec fn keygen_spec(seed: Seq<u8>) -> Option<(Seq<u8>, Seq<u8>)> {
    let dz = sha3_512_of(seed);
    let d = bytes_at(dz, 0, 32);
    let z = bytes_at(dz, 32, 32);
    let rs = sha3_512_of(d.push(2));
    let rho = bytes_at(rs, 0, 32);
    let sigma = bytes_at(rs, 32, 32);
    let a00 = mat_entry(rho, 0, 0);
    let a01 = mat_entry(rho, 1, 0);
    let a10 = mat_entry(rho, 0, 1);
    let a11 = mat_entry(rho, 1, 1);
    if a00 is None || a01 is None || a10 is None || a11 is None {
        None
    } else {
        let s0h = ntt_spec(prf3(sigma, 0));
        let s1h = ntt_spec(prf3(sigma, 1));
        let e0h = ntt_spec(prf3(sigma, 2));
        let e1h = ntt_spec(prf3(sigma, 3));
        let t0 = poly_add_spec(
            poly_add_spec(basemul_spec(a00.unwrap(), s0h), basemul_spec(a01.unwrap(), s1h)),
            e0h,
        );
        let t1 = poly_add_spec(
            poly_add_spec(basemul_spec(a10.unwrap(), s0h), basemul_spec(a11.unwrap(), s1h)),
            e1h,
        );
        let ek = encode12_spec(t0) + encode12_spec(t1) + rho;
        let dk = encode12_spec(s0h) + encode12_spec(s1h) + ek + bytes_at(sha3_256_of(ek), 0, 32)
            + z;
        Some((ek, dk))
    }
}

/// Builds a key pair from a 32-byte seed, deterministically.
pub fn keygen(seed: &Vec<u8>) -> (r: Result<(Vec<u8>, Vec<u8>), KemError>)
    requires
        seed@.len() == 32,
    ensures
        r is Ok <==> keygen_spec(seed@) is Some,
        r matches Ok(p) ==> p.0@ == keygen_spec(seed@).unwrap().0 && p.1@ == keygen_spec(
            seed@,
        ).unwrap().1,
        r matches Ok(p) ==> p.0@.len() == 800 && p.1@.len() == 1632,
        r matches Err(e) ==> e == KemError::Internal,
{
    let dz = sha3_512(seed);
    let d = sub_bytes(&dz, 0, 32);
    let z = sub_bytes(&dz, 32, 64);
    let rs = sha3_512(&concat_byte(&d, 2));
    let rho = sub_bytes(&rs, 0, 32);
    let sigma = sub_bytes(&rs, 32, 64);
    proof {
        assert(d@ =~= bytes_at(dz@, 0, 32));
        assert(z@ =~= bytes_at(dz@, 32, 32));
        assert(rho@ =~= bytes_at(rs@, 0, 32));
        assert(sigma@ =~= bytes_at(rs@, 32, 32));
    }
    let a00 = sample_matrix_entry(&rho, 0, 0);
    let a01 = sample_matrix_entry(&rho, 1, 0);
    let a10 = sample_matrix_entry(&rho, 0, 1);
    let a11 = sample_matrix_entry(&rho, 1, 1);
    if a00.is_none() || a01.is_none() || a10.is_none() || a11.is_none() {
        return Err(KemError::Internal);
    }
    let a00 = a00.unwrap();
    let a01 = a01.unwrap();
    let a10 = a10.unwrap();
    let a11 = a11.unwrap();
    let s0h = ntt(&sample_noise3(&sigma, 0));
    let s1h = ntt(&sample_noise3(&sigma, 1));
    let e0h = ntt(&sample_noise3(&sigma, 2));
    let e1h = ntt(&sample_noise3(&sigma, 3));
    let t0 = poly_add(&poly_add(&basemul(&a00, &s0h), &basemul(&a01, &s1h)), &e0h);
    let t1 = poly_add(&poly_add(&basemul(&a10, &s0h), &basemul(&a11, &s1h)), &e1h);
    let ek = concat2(&concat2(&encode12(&t0), &encode12(&t1)), &rho);
    let ekh = sha3_256(&ek);
    proof {
        assert(ekh@ =~= bytes_at(sha3_256_of(ek@), 0, 32));
    }
    let dk = concat2(
        &concat2(&concat2(&concat2(&encode12(&s0h), &encode12(&s1h)), &ek), &ekh),
        &z,
    );
    Ok((ek, dk))
}

// ---------------------------------------------------------------------
// The inner public-key encryption of a 32-byte message.
// ---------------------------------------------------------------------

/// The ciphertext for message `m` under encapsulation key `ek` with
/// encryption randomness `r`: two compressed vector components and a
/// compressed scalar component carrying the message. `None` only when
/// re-deriving the matrix exhausts its stream.
pub open spec fn encrypt_spec(ek: Seq<u8>, m: Seq<u8>, r: Seq<u8>) -> Option<Seq<u8>> {
    let t0 = decode12_spec(ek.subrange(0, 384));
    let t1 = decode12_spec(ek.subrange(384, 768));
    let rho = ek.subrange(768, 800);
    let a00 = mat_entry(rho, 0, 0);
    let a01 = mat_entry(rho, 1, 0);
    let a10 = mat_entry(rho, 0, 1);
    let a11 = mat_entry(rho, 1, 1);
    if a00 is None || a01 is None || a10 is None || a11 is None {
        None
    } else {
        let y0h = ntt_spec(prf3(r, 0));
        let y1h = ntt_spec(prf3(r, 1));
        let u0 = poly_add_spec(
            intt_spec(
                poly_add_spec(basemul_spec(a00.unwrap(), y0h), basemul_spec(a10.unwrap(), y1h)),
            ),
            prf2(r, 2),
        );
        let u1 = poly_add_spec(
            intt_spec(
                poly_add_spec(basemul_spec(a01.unwrap(), y0h), basemul_spec(a11.unwrap(), y1h)),
            ),
            prf2(r, 3),
        );
        let v = poly_add_spec(
            poly_add_spec(
                intt_spec(poly_add_spec(basemul_spec(t0, y0h), basemul_spec(t1, y1h))),
                prf2(r, 4),
            ),
            msg_poly_spec(m),
        );
        Some(
            encode10_spec(compress_poly10_spec(u0)) + encode10_spec(compress_poly10_spec(u1))
                + encode4_spec(compress_poly4_spec(v)),
        )
    }
}

/// Encrypts a 32-byte message under a validated encapsulation key.
fn pke_encrypt(ek: &Vec<u8>, m: &Vec<u8>, r: &Vec<u8>) -> (res: Result<Vec<u8>, KemError>)
    requires
        ek@.len() == 800,
        canonical12(ek@.subrange(0, 384)),
        canonical12(ek@.subrange(384, 768)),
        m@.len() == 32,
        r@.len() == 32,
    ensures
        res is Ok <==> encrypt_spec(ek@, m@, r@) is Some,
        res matches Ok(c) ==> c@ == encrypt_spec(ek@, m@, r@).unwrap() && c@.len() == 768,
        res matches Err(e) ==> e == KemError::Internal,
{
    let ekt0 = sub_bytes(ek, 0, 384);
    let ekt1 = sub_bytes(ek, 384, 768);
    let t0 = decode12(&ekt0).unwrap();
    let t1 = decode12(&ekt1).unwrap();
    let rho = sub_bytes(ek, 768, 800);
    let a00 = sample_matrix_entry(&rho, 0, 0);
    let a01 = sample_matrix_entry(&rho, 1, 0);
    let a10 = sample_matrix_entry(&rho, 0, 1);
    let a11 = sample_matrix_entry(&rho, 1, 1);
    if a00.is_none() || a01.is_none() || a10.is_none() || a11.is_none() {
        return Err(KemError::Internal);
    }
    let a00 = a00.unwrap();
    let a01 = a01.unwrap();
    let a10 = a10.unwrap();
    let a11 = a11.unwrap();
    let y0h = ntt(&sample_noise3(r, 0));
    let y1h = ntt(&sample_noise3(r, 1));
    let u0 = poly_add(&intt(&poly_add(&basemul(&a00, &y0h), &basemul(&a10, &y1h))), &sample_noise2(r, 2));
    let u1 = poly_add(&intt(&poly_add(&basemul(&a01, &y0h), &basemul(&a11, &y1h))), &sample_noise2(r, 3));
    let v = poly_add(
        &poly_add(&intt(&poly_add(&basemul(&t0, &y0h), &basemul(&t1, &y1h))), &sample_noise2(r, 4)),
        &msg_to_poly(m),
    );
    let c = concat2(
        &concat2(&encode10(&compress_poly10(&u0)), &encode10(&compress_poly10(&u1))),
        &encode4(&compress_poly4(&v)),
    );
    Ok(c)
}

/// The message recovered from a ciphertext with the secret vector held
/// in the first part of the decapsulation key.
pub open spec fn decrypt_spec(dk: Seq<u8>, c: Seq<u8>) -> Seq<u8> {
    let s0 = decode12_spec(dk.subrange(0, 384));
    let s1 = decode12_spec(dk.subrange(384, 768));
    let u0 = decompress_poly10_spec(decode10_spec(c.subrange(0, 320)));
    let u1 = decompress_poly10_spec(decode10_spec(c.subrange(320, 640)));
    let v = decompress_poly4_spec(decode4_spec(c.subrange(640, 768)));
    let w = poly_sub_spec(
        v,
        intt_spec(
            poly_add_spec(basemul_spec(s0, ntt_spec(u0)), basemul_spec(s1, ntt_spec(u1))),
        ),
    );
    poly_msg_spec(w)
}

fn pke_decrypt(dk: &Vec<u8>, c: &Vec<u8>) -> (m: Vec<u8>)
    requires
        dk@.len() == 1632,
        canonical12(dk@.subrange(0, 384)),
        canonical12(dk@.subrange(384, 768)),
        c@.len() == 768,
    ensures
        m@ == decrypt_spec(dk@, c@),
        m@.len() == 32,
{
    let dks0 = sub_bytes(dk, 0, 384);
    let dks1 = sub_bytes(dk, 384, 768);
    let s0 = decode12(&dks0).unwrap();
    let s1 = decode12(&dks1).unwrap();
    let u0 = decompress_poly10(&decode10(&sub_bytes(c, 0, 320)));
    let u1 = decompress_poly10(&decode10(&sub_bytes(c, 320, 640)));
    let v = decompress_poly4(&decode4(&sub_bytes(c, 640, 768)));
    let w = poly_sub(&v, &intt(&poly_add(&basemul(&s0, &ntt(&u0)), &basemul(&s1, &ntt(&u1)))));
    poly_to_msg(&w)
}

// ---------------------------------------------------------------------
// Encapsulation.
// ---------------------------------------------------------------------

/// The shared secret and ciphertext for 32 bytes of encapsulation
/// randomness `m`: the secret and the encryption randomness are bound to
/// the key through its digest, and the secret to the ciphertext through
/// the ciphertext's digest.
pub open spec fn encaps_spec(ek: Seq<u8>, m: Seq<u8>) -> Option<(Seq<u8>, Seq<u8>)> {
    let kr = sha3_512_of(m + bytes_at(sha3_256_of(ek), 0, 32));
    let kbar = bytes_at(kr, 0, 32);
    let r = bytes_at(kr, 32, 32);
    match encrypt_spec(ek, m, r) {
        Some(c) => Some((shake256_of(kbar + sha3_256_of(c), 32), c)),
        None => None,
    }
}

/// Encapsulates against `ek` with explicit randomness `m`, returning the
/// shared secret and the ciphertext.
pub fn encaps(ek: &Vec<u8>, m: &Vec<u8>) -> (r: Result<(Vec<u8>, Vec<u8>), KemError>)
    requires
        m@.len() == 32,
    ensures
        r is Ok <==> ek_valid(ek@) && encaps_spec(ek@, m@) is Some,
        r matches Ok(p) ==> p.0@ == encaps_spec(ek@, m@).unwrap().0 && p.1@ == encaps_spec(
            ek@,
            m@,
        ).unwrap().1,
        r matches Ok(p) ==> p.0@.len() == 32 && p.1@.len() == 768,
        r matches Err(e) ==> (e == KemError::InvalidKey && !ek_valid(ek@)) || (e
            == KemError::Internal && ek_valid(ek@)),
{
    if ek.len() != 800 {
        return Err(KemError::InvalidKey);
    }
    let ekt0 = sub_bytes(ek, 0, 384);
    let ekt1 = sub_bytes(ek, 384, 768);
    if decode12(&ekt0).is_none() || decode12(&ekt1).is_none() {
        return Err(KemError::InvalidKey);
    }
    let ekh = sha3_256(ek);
    proof {
        assert(ekh@ =~= bytes_at(sha3_256_of(ek@), 0, 32));
    }
    let kr = sha3_512(&concat2(m, &ekh));
    let kbar = sub_bytes(&kr, 0, 32);
    let r = sub_bytes(&kr, 32, 64);
    proof {
        assert(kbar@ =~= bytes_at(kr@, 0, 32));
        assert(r@ =~= bytes_at(kr@, 32, 32));
    }
    let c = match pke_encrypt(ek, m, &r) {
        Ok(c) => c,
        Err(_) => {
            return Err(KemError::Internal);
        },
    };
    let ss = shake256(&concat2(&kbar, &sha3_256(&c)), 32);
    Ok((ss, c))
}

// ---------------------------------------------------------------------
// Decapsulation.
// ---------------------------------------------------------------------

/// The shared secret recovered from a ciphertext: the candidate message
/// is re-encrypted deterministically, and on any mismatch the secret is
/// derived instead from the key's independent rejection value and the
/// received ciphertext, so a tampered ciphertext yields a secret of the
/// same shape with no failure signal.
pub open spec fn decaps_spec(dk: Seq<u8>, c: Seq<u8>) -> Option<Seq<u8>> {
    let m = decrypt_spec(dk, c);
    let ek = dk.subrange(768, 1568);
    let h = dk.subrange(1568, 1600);
    let z = dk.subrange(1600, 1632);
    let kr = sha3_512_of(m + h);
    let kbar = bytes_at(kr, 0, 32);
    let rr = bytes_at(kr, 32, 32);
    match encrypt_spec(ek, m, rr) {
        Some(c2) => if c2 == c {
            Some(shake256_of(kbar + sha3_256_of(c), 32))
        } else {
            Some(shake256_of(z + sha3_256_of(c), 32))
        },
        None => None,
    }
}

/// Accumulated difference of two equal-length byte strings, with no
/// data-dependent branch: zero exactly when they are equal.
fn ct_diff(a: &Vec<u8>, b: &Vec<u8>) -> (d: u8)
    requires
        a@.len() == b@.len(),
    ensures
        d == 0 <==> a@ == b@,
{
    let mut d: u8 = 0;
    let mut i: usize = 0;
    while i < a.len()
        invariant
            i <= a@.len(),
            a@.len() == b@.len(),
            d == 0 <==> (forall|j: int| 0 <= j < i ==> a@[j] == b@[j]),
        decreases a@.len() - i,
    {
        let x = a[i];
        let y = b[i];
        proof {
            assert((x ^ y) == 0 <==> x == y) by (bit_vector);
            let dd = d;
            let xy = x ^ y;
            assert((dd | xy) == 0 <==> dd == 0 && xy == 0) by (bit_vector);
        }
        d = d | (x ^ y);
        i = i + 1;
    }
    proof {
        if forall|j: int| 0 <= j < a@.len() ==> a@[j] == b@[j] {
            assert(a@ =~= b@);
        }
    }
    d
}

/// Selects one of two equal-length byte strings by an arithmetic mask on
/// `d`, with no data-dependent branch: the first when `d` is zero.
fn ct_select(good: &Vec<u8>, bad: &Vec<u8>, d: u8) -> (r: Vec<u8>)
    requires
        good@.len() == bad@.len(),
    ensures
        r@ == if d == 0 {
            good@
        } else {
            bad@
        },
{
    let sel: u32 = (d as u32 + 255) / 256;
    let mut out: Vec<u8> = Vec::new();
    let mut i: usize = 0;
    while i < good.len()
        invariant
            i <= good@.len(),
            good@.len() == bad@.len(),
            sel == if d == 0 {
                0u32
            } else {
                1u32
            },
            out@.len() == i,
            forall|j: int|
                0 <= j < i ==> out@[j] == if d == 0 {
                    good@[j]
                } else {
                    bad@[j]
                },
        decreases good@.len() - i,
    {
        let mask = (255 * sel) as u8;
        let g = good[i];
        let b = bad[i];
        let v = (g & !mask) | (b & mask);
        proof {
            let m = mask;
            assert(m == 0 ==> ((g & !m) | (b & m)) == g) by (bit_vector);
            assert(m == 255 ==> ((g & !m) | (b & m)) == b) by (bit_vector);
        }
        out.push(v);
        i = i + 1;
    }
    proof {
        if d == 0 {
            assert(out@ =~= good@);
        } else {
            assert(out@ =~= bad@);
        }
    }
    out
}

/// Decapsulates a ciphertext, with implicit rejection: for a valid key,
/// every 768-byte ciphertext yields a 32-byte secret, and only a wrong
/// length or a non-canonical key encoding is an error.
pub fn decaps(dk: &Vec<u8>, c: &Vec<u8>) -> (r: Result<Vec<u8>, KemError>)
    ensures
        r is Ok <==> dk_valid(dk@) && c@.len() == 768 && decaps_spec(dk@, c@) is Some,
        r matches Ok(ss) ==> ss@ == decaps_spec(dk@, c@).unwrap() && ss@.len() == 32,
        r matches Err(e) ==> (e == KemError::Format && !(dk_valid(dk@) && c@.len() == 768)) || (e
            == KemError::Internal && dk_valid(dk@) && c@.len() == 768),
{
    if dk.len() != 1632 || c.len() != 768 {
        return Err(KemError::Format);
    }
    let dks0 = sub_bytes(dk, 0, 384);
    let dks1 = sub_bytes(dk, 384, 768);
    if decode12(&dks0).is_none() || decode12(&dks1).is_none() {
        return Err(KemError::Format);
    }
    let ek = sub_bytes(dk, 768, 1568);
    let ekt0 = sub_bytes(&ek, 0, 384);
    let ekt1 = sub_bytes(&ek, 384, 768);
    if decode12(&ekt0).is_none() || decode12(&ekt1).is_none() {
        return Err(KemError::Format);
    }
    proof {
        assert(ek@.subrange(0, 384) =~= dk@.subrange(768, 1152));
        assert(ek@.subrange(384, 768) =~= dk@.subrange(1152, 1536));
    }
    let m = pke_decrypt(dk, c);
    let h = sub_bytes(dk, 1568, 1600);
    let z = sub_bytes(dk, 1600, 1632);
    let kr = sha3_512(&concat2(&m, &h));
    let kbar = sub_bytes(&kr, 0, 32);
    let rr = sub_bytes(&kr, 32, 64);
    proof {
        assert(kbar@ =~= bytes_at(kr@, 0, 32));
        assert(rr@ =~= bytes_at(kr@, 32, 32));
    }
    let c2 = match pke_encrypt(&ek, &m, &rr) {
        Ok(c2) => c2,
        Err(_) => {
            return Err(KemError::Internal);
        },
    };
    let hc = sha3_256(c);
    let ss_acc = shake256(&concat2(&kbar, &hc), 32);
    let ss_rej = shake256(&concat2(&z, &hc), 32);
    let d = ct_diff(&c2, c);
    let ss = ct_select(&ss_acc, &ss_rej, d);
    Ok(ss)
}

} // verus!
