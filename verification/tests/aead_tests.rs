use mlkem::KemError;
use mlkem::aead::{derive_aes_key, open_message, seal_message};

fn known_secret() -> Vec<u8> {
    vec![0x42u8; 32]
}

fn fixed_nonce() -> Vec<u8> {
    vec![0u8; 12]
}

#[test]
fn derive_aes_key_shape() {
    let key = derive_aes_key(&known_secret());
    assert_eq!(key.len(), 32);
    assert_ne!(key, known_secret());
    assert_eq!(key, derive_aes_key(&known_secret()));
}

#[test]
fn seal_open_round_trip() {
    let key = derive_aes_key(&known_secret());
    let pt: Vec<u8> = b"Hello, world!".to_vec();
    let ct = seal_message(&key, &fixed_nonce(), &pt).unwrap();
    assert_eq!(ct.len(), pt.len() + 16);
    let back = open_message(&key, &fixed_nonce(), &ct).unwrap();
    assert_eq!(back, pt);
}

#[test]
fn open_rejects_any_corrupted_byte() {
    let key = derive_aes_key(&known_secret());
    let pt: Vec<u8> = b"Hello, world!".to_vec();
    let ct = seal_message(&key, &fixed_nonce(), &pt).unwrap();
    for pos in 0..ct.len() {
        let mut bad = ct.clone();
        bad[pos] ^= 0x01;
        let r = open_message(&key, &fixed_nonce(), &bad);
        assert_eq!(r.unwrap_err(), KemError::Authentication);
    }
}

#[test]
fn golden_vectors_aead() {
    let key = derive_aes_key(&known_secret());
    let pt: Vec<u8> = b"Hello, world!".to_vec();
    let ct = seal_message(&key, &fixed_nonce(), &pt).unwrap();
    let actual = format!("{} {}", hex::encode(&key), hex::encode(&ct));
    assert_eq!(
        actual,
        "ab8096d1d35353571fefcf2d3d9d16367d3bc9d9ed91c94057a4274a5396e445 \
         e5a88a17c3501502537c489e92ee7c52897ff52c63e9ebefdd5cd6bb26"
    );
}
