//! Properties of the mechanism that hold across calls, stated over the
//! same specification functions the executable contracts use.
use vstd::prelude::*;

verus! {

use crate::codec::{encode12_spec, lemma_round_trip12};
use crate::kem::{
    bytes_at, decaps_spec, decrypt_spec, dk_valid, ek_valid, encaps_spec, encrypt_spec,
    keygen_spec, mat_entry, prf3,
};
use crate::poly::poly_add_spec;
use crate::transform::{basemul_spec, ntt_spec};
use crate::xof::{sha3_256_of, sha3_512_of, shake256_of};

broadcast use vstd::seq::axiom_seq_add_index1, vstd::seq::axiom_seq_add_index2;

/// The matrix seed a given generation seed leads to.
pub open spec fn seed_rho(seed: Seq<u8>) -> Seq<u8> {
    bytes_at(sha3_512_of(bytes_at(sha3_512_of(seed), 0, 32).push(2)), 0, 32)
}

/// Key generation is deterministic: equal seeds give byte-identical key
/// pairs. Together with the contract of `keygen`, which pins its output
/// to `keygen_spec`, two calls on the same seed return the same pair.
pub proof fn lemma_keygen_deterministic(s1: Seq<u8>, s2: Seq<u8>)
    requires
        s1 == s2,
    ensures
        keygen_spec(s1) == keygen_spec(s2),
{
}

/// Implicit rejection: whether decapsulation produces a secret depends
/// on the key alone, never on the ciphertext. If a valid key
/// decapsulates one 768-byte ciphertext, it decapsulates every 768-byte
/// ciphertext — in particular every bit-flipped variant of a genuine
/// one — with no error and a secret of the same shape.
pub proof fn lemma_implicit_rejection(dk: Seq<u8>, c1: Seq<u8>, c2: Seq<u8>)
    requires
        dk_valid(dk),
        c1.len() == 768,
        c2.len() == 768,
        decaps_spec(dk, c1) is Some,
    ensures
        decaps_spec(dk, c2) is Some,
{
    let ek = dk.subrange(768, 1568);
    let rho = ek.subrange(768, 800);
    let m1 = decrypt_spec(dk, c1);
    let h = dk.subrange(1568, 1600);
    let kr1 = sha3_512_of(m1 + h);
    assert(encrypt_spec(ek, m1, bytes_at(kr1, 32, 32)) is Some);
    assert(mat_entry(rho, 0, 0) is Some && mat_entry(rho, 1, 0) is Some && mat_entry(rho, 0, 1)
        is Some && mat_entry(rho, 1, 1) is Some);
    let m2 = decrypt_spec(dk, c2);
    let kr2 = sha3_512_of(m2 + h);
    assert(encrypt_spec(ek, m2, bytes_at(kr2, 32, 32)) is Some);
}

/// Both keys of a generated pair are structurally valid — canonical
/// packings that survive the serialization checks of `encaps` and
/// `decaps` — and the pair has the documented layout: the matrix seed
/// sits at the tail of the encapsulation key, which is embedded in the
/// decapsulation key together with its digest.
#[verifier::rlimit(100)]
pub proof fn lemma_keygen_valid(seed: Seq<u8>)
    requires
        keygen_spec(seed) is Some,
    ensures
        ek_valid(keygen_spec(seed).unwrap().0),
        dk_valid(keygen_spec(seed).unwrap().1),
        keygen_spec(seed).unwrap().0.subrange(768, 800) == seed_rho(seed),
        keygen_spec(seed).unwrap().1.subrange(768, 1568) == keygen_spec(seed).unwrap().0,
        keygen_spec(seed).unwrap().1.subrange(1568, 1600) == bytes_at(
            sha3_256_of(keygen_spec(seed).unwrap().0),
            0,
            32,
        ),
        mat_entry(seed_rho(seed), 0, 0) is Some,
        mat_entry(seed_rho(seed), 1, 0) is Some,
        mat_entry(seed_rho(seed), 0, 1) is Some,
        mat_entry(seed_rho(seed), 1, 1) is Some,
{
    let dz = sha3_512_of(seed);
    let d = bytes_at(dz, 0, 32);
    let z = bytes_at(dz, 32, 32);
    let rs = sha3_512_of(d.push(2));
    let rho = bytes_at(rs, 0, 32);
    let sigma = bytes_at(rs, 32, 32);
    let a00 = mat_entry(rho, 0, 0);
    let a01 = mat_entry(rho, 1, 0);
    let a10 = mat_entry(rho, 0, 1);
    let a11 = mat_entry(rho, 1, 1);
    let s0h = ntt_spec(prf3(sigma, 0));
    let s1h = ntt_spec(prf3(sigma, 1));
    let e0h = ntt_spec(prf3(sigma, 2));
    let e1h = ntt_spec(prf3(sigma, 3));
    let t0 = poly_add_spec(
        poly_add_spec(basemul_spec(a00.unwrap(), s0h), basemul_spec(a01.unwrap(), s1h)),
        e0h,
    );
    let t1 = poly_add_spec(
        poly_add_spec(basemul_spec(a10.unwrap(), s0h), basemul_spec(a11.unwrap(), s1h)),
        e1h,
    );
    let ek = encode12_spec(t0) + encode12_spec(t1) + rho;
    let dk = encode12_spec(s0h) + encode12_spec(s1h) + ek + bytes_at(sha3_256_of(ek), 0, 32) + z;
    assert(keygen_spec(seed).unwrap().0 == ek && keygen_spec(seed).unwrap().1 == dk);
    assert(rho == seed_rho(seed));
    assert(forall|i: int| 0 <= i < 256 ==> t0[i] < 3329);
    assert(forall|i: int| 0 <= i < 256 ==> t1[i] < 3329);
    assert(forall|i: int| 0 <= i < 256 ==> s0h[i] < 3329);
    assert(forall|i: int| 0 <= i < 256 ==> s1h[i] < 3329);
    lemma_round_trip12(t0);
    lemma_round_trip12(t1);
    lemma_round_trip12(s0h);
    lemma_round_trip12(s1h);
    assert(ek.subrange(0, 384) =~= encode12_spec(t0));
    assert(ek.subrange(384, 768) =~= encode12_spec(t1));
    assert(ek.subrange(768, 800) =~= rho);
    assert(dk.subrange(0, 384) =~= encode12_spec(s0h));
    assert(dk.subrange(384, 768) =~= encode12_spec(s1h));
    assert(dk.subrange(768, 1568) =~= ek);
    assert(dk.subrange(1568, 1600) =~= bytes_at(sha3_256_of(ek), 0, 32));
}

/// Encapsulation against a generated key never fails: the public matrix
/// re-derived from the key's seed component is the one key generation
/// sampled, so the sampling that succeeded there succeeds again, for
/// every choice of encapsulation randomness.
pub proof fn lemma_encaps_total(seed: Seq<u8>, m: Seq<u8>)
    requires
        keygen_spec(seed) is Some,
    ensures
        encaps_spec(keygen_spec(seed).unwrap().0, m) is Some,
{
    lemma_keygen_valid(seed);
    let ek = keygen_spec(seed).unwrap().0;
    let kr = sha3_512_of(m + bytes_at(sha3_256_of(ek), 0, 32));
    assert(encrypt_spec(ek, m, bytes_at(kr, 32, 32)) is Some);
}

/// Decapsulation with a generated key never fails on any 768-byte
/// ciphertext, however mangled: the only failure mode is the matrix
/// sampling, which depends on the key alone and succeeded at
/// generation.
pub proof fn lemma_decaps_total(seed: Seq<u8>, c: Seq<u8>)
    requires
        keygen_spec(seed) is Some,
        c.len() == 768,
    ensures
        decaps_spec(keygen_spec(seed).unwrap().1, c) is Some,
{
    lemma_keygen_valid(seed);
    let ek = keygen_spec(seed).unwrap().0;
    let dk = keygen_spec(seed).unwrap().1;
    let m2 = decrypt_spec(dk, c);
    let kr2 = sha3_512_of(m2 + dk.subrange(1568, 1600));
    assert(encrypt_spec(ek, m2, bytes_at(kr2, 32, 32)) is Some);
}

/// Round-trip correctness, outside the designed decryption-failure
/// event: whenever decryption recovers the encapsulated message — which
/// fails only with the parameter set's negligible probability — the
/// decapsulated secret is exactly the encapsulated one.
pub proof fn lemma_round_trip_secret(seed: Seq<u8>, m: Seq<u8>)
    requires
        keygen_spec(seed) is Some,
        decrypt_spec(
            keygen_spec(seed).unwrap().1,
            encaps_spec(keygen_spec(seed).unwrap().0, m).unwrap().1,
        ) == m,
    ensures
        encaps_spec(keygen_spec(seed).unwrap().0, m) is Some,
        decaps_spec(
            keygen_spec(seed).unwrap().1,
            encaps_spec(keygen_spec(seed).unwrap().0, m).unwrap().1,
        ) == Some(encaps_spec(keygen_spec(seed).unwrap().0, m).unwrap().0),
{
    lemma_keygen_valid(seed);
    lemma_encaps_total(seed, m);
    let ek = keygen_spec(seed).unwrap().0;
    let dk = keygen_spec(seed).unwrap().1;
    let kr = sha3_512_of(m + bytes_at(sha3_256_of(ek), 0, 32));
    let kbar = bytes_at(kr, 0, 32);
    let rr = bytes_at(kr, 32, 32);
    let c = encrypt_spec(ek, m, rr).unwrap();
    assert(encaps_spec(ek, m).unwrap().1 == c);
    assert(encaps_spec(ek, m).unwrap().0 == shake256_of(kbar + sha3_256_of(c), 32));
    let m2 = decrypt_spec(dk, c);
    assert(m2 == m);
    assert(m2 + dk.subrange(1568, 1600) == m + bytes_at(sha3_256_of(ek), 0, 32));
    assert(decaps_spec(dk, c) == Some(shake256_of(kbar + sha3_256_of(c), 32)));
}

} // verus!
