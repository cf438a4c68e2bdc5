use mlkem::transform::poly_mul;

fn unit_poly() -> Vec<u16> {
    let mut f = vec![0u16; 256];
    f[0] = 1;
    f
}

fn ramp_poly() -> Vec<u16> {
    let mut f = Vec::new();
    for i in 0..256u32 {
        f.push(((i * 2021) % 3329) as u16);
    }
    f
}

#[test]
fn mul_by_one_is_identity() {
    // The transform pipeline (forward, pointwise, inverse) applied to
    // g * 1 must hand back g exactly: this exercises that the inverse
    // transform really inverts the forward one.
    let g = ramp_poly();
    assert_eq!(poly_mul(&unit_poly(), &g), g);
    assert_eq!(poly_mul(&g, &unit_poly()), g);
}

#[test]
fn mul_matches_negacyclic_convolution() {
    // (1 + X) * (1 + X) = 1 + 2X + X^2 in the ring.
    let mut f = vec![0u16; 256];
    f[0] = 1;
    f[1] = 1;
    let p = poly_mul(&f, &f);
    let mut expected = vec![0u16; 256];
    expected[0] = 1;
    expected[1] = 2;
    expected[2] = 1;
    assert_eq!(p, expected);
    // X^255 * X^255 = X^510 = X^254 * X^256 = -X^254: the reduction
    // polynomial folds the overflow back with a sign flip.
    let mut x255 = vec![0u16; 256];
    x255[255] = 1;
    let sq = poly_mul(&x255, &x255);
    let mut neg = vec![0u16; 256];
    neg[254] = 3328;
    assert_eq!(sq, neg);
}
