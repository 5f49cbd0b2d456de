use locksmith::gf8::GF8;
use locksmith::rss::RssShare;
use locksmith::state::{VectorAesState, AesKeyState};
use locksmith::cipher::add_round_key;

fn share_bytes(bytes: &[u8]) -> Vec<RssShare> {
    bytes.iter().enumerate().map(|(i, &b)| RssShare::from(GF8(b), GF8(i as u8))).collect()
}

fn wire_bytes(n: usize) -> Vec<u8> {
    (0..16 * n).map(|i| (i * 7 + 3) as u8).collect()
}

#[test]
fn test_state_bytes_round_trip() {
    // to_bytes(from_bytes(v)) == v for lengths that are multiples of 16
    for n in [1usize, 2, 5] {
        let v = share_bytes(&wire_bytes(n));
        let state = VectorAesState::from_bytes(v.clone());
        assert_eq!(state.n, n);
        let back = state.to_bytes();
        assert_eq!(back.len(), v.len());
        for i in 0..v.len() {
            assert_eq!(back[i].si.0, v[i].si.0);
            assert_eq!(back[i].sii.0, v[i].sii.0);
        }
    }
}

#[test]
fn test_from_bytes_transposes() {
    // wire order is column-major, internal order row-major
    let v = share_bytes(&wire_bytes(1));
    let state = VectorAesState::from_bytes(v.clone());
    for i in 0..4 {
        for j in 0..4 {
            assert_eq!(state.si[4 * i + j].0, v[4 * j + i].si.0);
        }
    }
}

#[test]
fn test_append_concatenates() {
    let a_bytes = wire_bytes(2);
    let b_bytes: Vec<u8> = (0..16).map(|i| 0xa0 ^ (i as u8)).collect();
    let mut a = VectorAesState::from_bytes(share_bytes(&a_bytes));
    let b = VectorAesState::from_bytes(share_bytes(&b_bytes));
    let a_before = a.to_bytes();
    let b_before = b.to_bytes();
    a.append(b);
    assert_eq!(a.n, 3);
    let joined = a.to_bytes();
    assert_eq!(joined.len(), 48);
    for i in 0..32 {
        assert_eq!(joined[i].si.0, a_before[i].si.0);
    }
    for i in 0..16 {
        assert_eq!(joined[32 + i].si.0, b_before[i].si.0);
    }
}

#[test]
fn test_shift_rows_round_trip() {
    let mut state = VectorAesState::from_bytes(share_bytes(&wire_bytes(3)));
    let before = state.to_bytes();
    state.shift_rows();
    state.inv_shift_rows();
    let after = state.to_bytes();
    for i in 0..before.len() {
        assert_eq!(after[i].si.0, before[i].si.0);
        assert_eq!(after[i].sii.0, before[i].sii.0);
    }
}

#[test]
fn test_shift_rows_moves_rows() {
    let mut state = VectorAesState::from_bytes(share_bytes(&wire_bytes(1)));
    let before_si = state.si.clone();
    state.shift_rows();
    // row 0 fixed, row r rotated left by r
    for c in 0..4 {
        assert_eq!(state.si[c].0, before_si[c].0);
        assert_eq!(state.si[4 + c].0, before_si[4 + (c + 1) % 4].0);
        assert_eq!(state.si[8 + c].0, before_si[8 + (c + 2) % 4].0);
        assert_eq!(state.si[12 + c].0, before_si[12 + (c + 3) % 4].0);
    }
}

#[test]
fn test_mix_columns_round_trip() {
    let mut state = VectorAesState::from_bytes(share_bytes(&wire_bytes(2)));
    let before = state.to_bytes();
    state.mix_columns();
    state.inv_mix_columns();
    let after = state.to_bytes();
    for i in 0..before.len() {
        assert_eq!(after[i].si.0, before[i].si.0);
        assert_eq!(after[i].sii.0, before[i].sii.0);
    }
}

#[test]
fn test_mix_columns_known_column() {
    // FIPS-197 MixColumns example: column db 13 53 45 becomes 8e 4d a1 bc
    let mut state = VectorAesState::new(1);
    state.si[0] = GF8(0xdb);
    state.si[4] = GF8(0x13);
    state.si[8] = GF8(0x53);
    state.si[12] = GF8(0x45);
    state.mix_columns();
    assert_eq!(state.si[0].0, 0x8e);
    assert_eq!(state.si[4].0, 0x4d);
    assert_eq!(state.si[8].0, 0xa1);
    assert_eq!(state.si[12].0, 0xbc);
}

#[test]
fn test_add_round_key_twice_is_identity() {
    // in GF(2^8) a key is its own negation, so adding it twice undoes it
    let mut state = VectorAesState::from_bytes(share_bytes(&wire_bytes(2)));
    let key_shares: Vec<RssShare> =
        (0..16).map(|i| RssShare::from(GF8(0x11 * i as u8 ^ 0x5b), GF8(0x2d ^ i as u8))).collect();
    let rk = AesKeyState::from_rss_vec(key_shares);
    let before = state.to_bytes();
    add_round_key(&mut state, &rk);
    let mid = state.to_bytes();
    assert_ne!(mid[0].si.0, before[0].si.0);
    add_round_key(&mut state, &rk);
    let after = state.to_bytes();
    for i in 0..before.len() {
        assert_eq!(after[i].si.0, before[i].si.0);
        assert_eq!(after[i].sii.0, before[i].sii.0);
    }
}

#[test]
fn test_key_state_from_bytes_transposes() {
    let v = share_bytes(&wire_bytes(1));
    let ks = AesKeyState::from_bytes(v.clone());
    for i in 0..4 {
        for j in 0..4 {
            assert_eq!(ks.si[4 * i + j].0, v[4 * j + i].si.0);
        }
    }
    let rss = ks.to_rss_vec();
    let ks2 = AesKeyState::from_rss_vec(rss);
    for i in 0..16 {
        assert_eq!(ks2.si[i].0, ks.si[i].0);
        assert_eq!(ks2.sii[i].0, ks.sii[i].0);
    }
}

#[test]
fn test_new_state_is_zero() {
    let state = VectorAesState::new(2);
    assert_eq!(state.n, 2);
    assert_eq!(state.si.len(), 32);
    assert!(state.si.iter().all(|g| g.0 == 0));
    assert!(state.sii.iter().all(|g| g.0 == 0));
}
