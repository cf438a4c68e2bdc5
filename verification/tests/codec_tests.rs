use mlkem::codec::{decode10, decode12, decode4, encode10, encode12, encode4};

fn ramp(modulus: u16) -> Vec<u16> {
    let mut v = Vec::new();
    for i in 0..256u32 {
        v.push(((i * 131) % modulus as u32) as u16);
    }
    v
}

#[test]
fn round_trip_width12() {
    let f = ramp(3329);
    let enc = encode12(&f);
    assert_eq!(enc.len(), 384);
    let back = decode12(&enc).unwrap();
    assert_eq!(back, f);
}

#[test]
fn round_trip_width10() {
    let f = ramp(1024);
    let enc = encode10(&f);
    assert_eq!(enc.len(), 320);
    let back = decode10(&enc);
    assert_eq!(back, f);
}

#[test]
fn round_trip_width4() {
    let f = ramp(16);
    let enc = encode4(&f);
    assert_eq!(enc.len(), 128);
    let back = decode4(&enc);
    assert_eq!(back, f);
}

#[test]
fn decode12_rejects_bad_inputs() {
    assert!(decode12(&vec![0u8; 383]).is_none());
    assert!(decode12(&vec![0u8; 385]).is_none());
    // 0xFFF is a 12-bit value at or above the modulus: not canonical.
    let mut bad = vec![0u8; 384];
    bad[0] = 0xFF;
    bad[1] = 0xFF;
    assert!(decode12(&bad).is_none());
    // All-zero bytes decode to the zero element.
    let ok = decode12(&vec![0u8; 384]).unwrap();
    assert_eq!(ok, vec![0u16; 256]);
}
