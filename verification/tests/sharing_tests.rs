use locksmith::gf8::GF8;
use locksmith::rss::{RssShare, unzip_shares, reveal_bytes};
use locksmith::sharing::{
    split_secret, share_input_owner, receive_input_shares, keyshare_combine, combined_key,
};

fn pseudo_rand(seed: usize, len: usize) -> Vec<u8> {
    (0..len).map(|i| ((seed * 31 + i * 17 + 5) % 256) as u8).collect()
}

#[test]
fn test_split_reconstructs_all_bytes() {
    // the two sub-shares XOR back to the secret, for every byte value
    for b in 0..=255u8 {
        let r = (b.wrapping_mul(37)).wrapping_add(11);
        let share = split_secret(GF8(b), GF8(r));
        assert_eq!(share.si.0, r);
        assert_eq!(share.si.0 ^ share.sii.0, b);
    }
}

#[test]
fn test_input_sharing_reconstructs_batches() {
    // the three parties' si components XOR to the input byte, for batch
    // sizes 1, 16 and 1024, and the pairs respect the ring convention
    for &n in &[1usize, 16, 1024] {
        let bytes = pseudo_rand(n, n);
        let rand = pseudo_rand(n + 1, n);
        let owner = share_input_owner(&bytes, &rand);
        let to_next: Vec<GF8> = owner.iter().map(|s| s.sii).collect();
        let to_prev: Vec<GF8> = owner.iter().map(|s| s.si).collect();
        let party1 = receive_input_shares(&to_next, true);
        let party2 = receive_input_shares(&to_prev, false);
        for i in 0..n {
            let reconstructed = owner[i].si.0 ^ party1[i].si.0 ^ party2[i].si.0;
            assert_eq!(reconstructed, bytes[i], "batch {n}, byte {i}");
            // ring consistency: each party's sii equals the next one's si
            assert_eq!(owner[i].sii.0, party1[i].si.0);
            assert_eq!(party1[i].sii.0, party2[i].si.0);
            assert_eq!(party2[i].sii.0, owner[i].si.0);
        }
    }
}

#[test]
fn test_key_sharing_reconstructs_all_bytes() {
    // run the per-byte key-sharing combination for all 256 values of one
    // fragment: reconstruction yields the XOR of the three fragments
    for f0 in 0..=255u8 {
        let (f1, f2) = (0x5a, 0xc3);
        let (r0, r1, r2) = (f0.wrapping_mul(7) ^ 0x21, 0x9e, f0.wrapping_add(0x4d));
        let own0 = split_secret(GF8(f0), GF8(r0));
        let own1 = split_secret(GF8(f1), GF8(r1));
        let own2 = split_secret(GF8(f2), GF8(r2));
        // first round: everyone sends sii to Next; second: si to Previous
        let p0 = keyshare_combine(own0, own2.sii, own1.si);
        let p1 = keyshare_combine(own1, own0.sii, own2.si);
        let p2 = keyshare_combine(own2, own1.sii, own0.si);
        assert_eq!(p0.si.0 ^ p1.si.0 ^ p2.si.0, f0 ^ f1 ^ f2);
        // ring consistency
        assert_eq!(p0.sii.0, p1.si.0);
        assert_eq!(p1.sii.0, p2.si.0);
        assert_eq!(p2.sii.0, p0.si.0);
    }
}

#[test]
fn test_combined_key_xors_fragments() {
    let f0: Vec<u8> = (0x00..0x10).collect();
    let f1: Vec<u8> = (0x10..0x20).collect();
    let f2: Vec<u8> = (0x20..0x30).collect();
    let key = combined_key(&f0, &f1, &f2);
    let expected: Vec<u8> = (0x30..0x40).collect();
    assert_eq!(key, expected);
}

#[test]
fn test_reveal_bytes() {
    // a full reveal: own pair XOR the third sub-share gives back the secret
    let secrets = pseudo_rand(3, 40);
    let blinds1 = pseudo_rand(4, 40);
    let blinds2 = pseudo_rand(5, 40);
    let shares: Vec<RssShare> = (0..40)
        .map(|i| RssShare::from(GF8(blinds1[i]), GF8(blinds2[i])))
        .collect();
    let third: Vec<GF8> =
        (0..40).map(|i| GF8(secrets[i] ^ blinds1[i] ^ blinds2[i])).collect();
    let revealed = reveal_bytes(&shares, &third);
    assert_eq!(revealed, secrets);
}

#[test]
fn test_unzip_shares() {
    let shares: Vec<RssShare> =
        (0..20).map(|i| RssShare::from(GF8(i as u8), GF8(0xff - i as u8))).collect();
    let (si, sii) = unzip_shares(&shares);
    assert_eq!(si.len(), 20);
    assert_eq!(sii.len(), 20);
    for i in 0..20 {
        assert_eq!(si[i].0, i as u8);
        assert_eq!(sii[i].0, 0xff - i as u8);
    }
}
