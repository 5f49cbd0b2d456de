use locksmith::gf8::{GF8, INV_GF8};

#[test]
fn test_gf8_add_is_xor() {
    assert_eq!(GF8(0x57).add(GF8(0x83)).0, 0xd4);
    assert_eq!(GF8(0xff).add(GF8(0xff)).0, 0x00);
    assert_eq!(GF8(0x00).add(GF8(0xab)).0, 0xab);
}

#[test]
fn test_gf8_mul_known_values() {
    // FIPS-197 example: {57} x {83} = {c1}
    assert_eq!(GF8(0x57).mul(GF8(0x83)).0, 0xc1);
    // {57} x {13} = {fe}
    assert_eq!(GF8(0x57).mul(GF8(0x13)).0, 0xfe);
    assert_eq!(GF8(0x02).mul(GF8(0x03)).0, 0x06);
    assert_eq!(GF8(0x00).mul(GF8(0x99)).0, 0x00);
    assert_eq!(GF8(0x01).mul(GF8(0x42)).0, 0x42);
}

#[test]
fn test_gf8_mul_commutes() {
    for a in 0..=255u8 {
        assert_eq!(GF8(a).mul(GF8(0x1b)).0, GF8(0x1b).mul(GF8(a)).0);
    }
}

#[test]
fn test_inv_table_is_field_inverse() {
    // the table entry really is the multiplicative inverse, for all 255
    // nonzero elements, and 0 maps to 0
    assert_eq!(INV_GF8[0], 0);
    for x in 1..=255u8 {
        let inv = INV_GF8[x as usize];
        assert_eq!(GF8(x).mul(GF8(inv)).0, 1, "inverse of {x:#x}");
    }
}

#[test]
fn test_inv_table_involution() {
    for x in 0..=255u8 {
        assert_eq!(INV_GF8[INV_GF8[x as usize] as usize], x);
    }
}

#[test]
fn test_sbox_affine_transform() {
    // S-box values assembled from inversion plus affine transform:
    // sbox(x) = affine(inv(x)) ^ 0x63
    let sbox = |x: u8| GF8(INV_GF8[x as usize]).aes_sbox_affine_transform().0 ^ 0x63;
    assert_eq!(sbox(0x00), 0x63);
    assert_eq!(sbox(0x01), 0x7c);
    assert_eq!(sbox(0x53), 0xed);
    assert_eq!(sbox(0xff), 0x16);
}

#[test]
fn test_inv_affine_undoes_affine() {
    for x in 0..=255u8 {
        let y = GF8(x).aes_sbox_affine_transform();
        assert_eq!(y.inv_aes_sbox_affine_transform().0, x);
    }
}

#[test]
fn test_inv_sbox_undoes_sbox() {
    for x in 0..=255u8 {
        let s = GF8(INV_GF8[x as usize]).aes_sbox_affine_transform().0 ^ 0x63;
        let back = GF8(s ^ 0x63).inv_aes_sbox_affine_transform();
        assert_eq!(INV_GF8[back.0 as usize], x);
    }
}
