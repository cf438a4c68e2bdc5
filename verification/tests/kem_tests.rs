use mlkem::KemError;
use mlkem::kem::{decaps, encaps, keygen};
use sha3::Digest;

fn digest_hex(bytes: &[u8]) -> String {
    hex::encode(sha3::Sha3_256::digest(bytes))
}

fn zero_seed() -> Vec<u8> {
    vec![0u8; 32]
}

fn counter_bytes(n: usize) -> Vec<u8> {
    let mut v = Vec::new();
    for i in 0..n {
        v.push(i as u8);
    }
    v
}

#[test]
fn keygen_lengths() {
    let (ek, dk) = keygen(&zero_seed()).unwrap();
    assert_eq!(ek.len(), 800);
    assert_eq!(dk.len(), 1632);
}

#[test]
fn keygen_deterministic() {
    let (ek1, dk1) = keygen(&zero_seed()).unwrap();
    let (ek2, dk2) = keygen(&zero_seed()).unwrap();
    assert_eq!(ek1, ek2);
    assert_eq!(dk1, dk2);
    let (ek3, _dk3) = keygen(&vec![1u8; 32]).unwrap();
    assert_ne!(ek1, ek3);
}

#[test]
fn kem_round_trip() {
    let (ek, dk) = keygen(&counter_bytes(32)).unwrap();
    let (ss, ct) = encaps(&ek, &vec![9u8; 32]).unwrap();
    assert_eq!(ss.len(), 32);
    assert_eq!(ct.len(), 768);
    let ss2 = decaps(&dk, &ct).unwrap();
    assert_eq!(ss, ss2);
}

#[test]
fn decaps_implicit_rejection() {
    let (ek, dk) = keygen(&zero_seed()).unwrap();
    let (ss, ct) = encaps(&ek, &counter_bytes(32)).unwrap();
    for &pos in &[0usize, 400, 767] {
        let mut tampered = ct.clone();
        tampered[pos] ^= 1;
        let ss2 = decaps(&dk, &tampered).unwrap();
        assert_eq!(ss2.len(), 32);
        assert_ne!(ss, ss2);
    }
}

#[test]
fn encaps_rejects_invalid_key() {
    let r = encaps(&vec![0u8; 799], &zero_seed());
    assert_eq!(r.unwrap_err(), KemError::InvalidKey);
    let (ek, _dk) = keygen(&zero_seed()).unwrap();
    let mut bad = ek.clone();
    bad[0] = 0xFF;
    bad[1] = 0xFF;
    let r = encaps(&bad, &zero_seed());
    assert_eq!(r.unwrap_err(), KemError::InvalidKey);
}

#[test]
fn decaps_rejects_malformed_inputs() {
    let (ek, dk) = keygen(&zero_seed()).unwrap();
    let (_ss, ct) = encaps(&ek, &zero_seed()).unwrap();
    let r = decaps(&vec![0u8; 100], &ct);
    assert_eq!(r.unwrap_err(), KemError::Format);
    let r = decaps(&dk, &vec![0u8; 767]);
    assert_eq!(r.unwrap_err(), KemError::Format);
    let mut bad = dk.clone();
    bad[0] = 0xFF;
    bad[1] = 0xFF;
    let r = decaps(&bad, &ct);
    assert_eq!(r.unwrap_err(), KemError::Format);
}

#[test]
fn golden_vectors_kem() {
    let (ek, dk) = keygen(&zero_seed()).unwrap();
    let (ss, ct) = encaps(&ek, &counter_bytes(32)).unwrap();
    let actual = format!(
        "{} {} {} {}",
        digest_hex(&ek),
        digest_hex(&dk),
        digest_hex(&ct),
        hex::encode(&ss),
    );
    assert_eq!(
        actual,
        "d65fdf217ef39df1dae51a6c790fa58572c8db7410f79f90125a1b6ff37b93e7 \
         89dcec61454c5304e5a0a12dd26004ee806ff813f2a8c6401745dcfffbdfabb4 \
         5acdc7f985257d1a8f9d435ccbd9bd69e6eef2b2efe1b099c117b442e15ebc3c \
         396ad34f1361729718aed5f04a7563269a1613689e71124823346c9e358974fc"
    );
    let ss2 = decaps(&dk, &ct).unwrap();
    assert_eq!(ss, ss2);
}
