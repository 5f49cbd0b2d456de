use locksmith::gf8::{GF8, INV_GF8};
use locksmith::rss::RssShare;
use locksmith::state::VectorAesState;
use locksmith::cipher::{
    GF8InvBlackBox, MpcError, MpcResult, AesVariant, aes128_no_keyschedule, aes256_no_keyschedule,
    aes128_inv_no_keyschedule, aes128_keyschedule, aes256_keyschedule, zero_keyschedule,
};
use locksmith::malicious::{GF8InvBlackBoxMal, aes128_keyschedule_mal};
use aes::cipher::{BlockEncrypt, KeyInit};

/// A backend for the trivial sharing where the full secret sits in `si` and
/// every other sub-share is zero: inversion is then a local table lookup.
/// It exercises every local transform of the pipeline for real.
struct PlainBackend;

impl GF8InvBlackBox for PlainBackend {
    fn constant(&self, value: GF8) -> RssShare {
        RssShare::from(value, GF8(0))
    }
    fn gf8_inv(&mut self, si: &mut Vec<GF8>, sii: &mut Vec<GF8>) -> MpcResult<()> {
        for x in si.iter_mut() {
            *x = GF8(INV_GF8[x.0 as usize]);
        }
        for x in sii.iter_mut() {
            *x = GF8(INV_GF8[x.0 as usize]);
        }
        Ok(())
    }
    fn do_preprocessing(&mut self, _n_keys: usize, _n_blocks: usize, _v: AesVariant) -> MpcResult<()> {
        Ok(())
    }
}

/// A backend whose network always fails.
struct FailingBackend;

impl GF8InvBlackBox for FailingBackend {
    fn constant(&self, value: GF8) -> RssShare {
        RssShare::from(value, GF8(0))
    }
    fn gf8_inv(&mut self, _si: &mut Vec<GF8>, _sii: &mut Vec<GF8>) -> MpcResult<()> {
        Err(MpcError::Backend)
    }
    fn do_preprocessing(&mut self, _n_keys: usize, _n_blocks: usize, _v: AesVariant) -> MpcResult<()> {
        Err(MpcError::Backend)
    }
}

/// The malicious-secure interface over the same trivial sharing, with the
/// detection path reporting tampering when asked to.
struct PlainMalBackend {
    tampered: bool,
}

impl GF8InvBlackBoxMal for PlainMalBackend {
    fn constant(&self, value: GF8) -> GF8 {
        value
    }
    fn constant_rss(&self, value: GF8) -> RssShare {
        RssShare::from(value, GF8(0))
    }
    fn gf8_inv_rss_to_ss(
        &mut self,
        state_ss: &mut Vec<GF8>,
        si: &Vec<GF8>,
        sii: &Vec<GF8>,
    ) -> MpcResult<()> {
        for i in 0..state_ss.len() {
            let v = si[i].0 ^ sii[i].0;
            state_ss[i] = GF8(INV_GF8[v as usize]);
        }
        Ok(())
    }
    fn gf8_inv_and_rss_output(
        &mut self,
        state_ss: &mut Vec<GF8>,
        out_i: &mut Vec<GF8>,
        out_ii: &mut Vec<GF8>,
    ) -> MpcResult<()> {
        if self.tampered {
            return Err(MpcError::Tampering);
        }
        for i in 0..state_ss.len() {
            out_i[i] = state_ss[i];
            out_ii[i] = GF8(0);
        }
        Ok(())
    }
    fn do_preprocessing(&mut self, _n_keys: usize, _n_blocks: usize, _v: AesVariant) -> MpcResult<()> {
        Ok(())
    }
}

fn trivial_shares(bytes: &[u8]) -> Vec<RssShare> {
    bytes.iter().map(|&b| RssShare::from(GF8(b), GF8(0))).collect()
}

fn reconstruct(state: &VectorAesState) -> Vec<u8> {
    state.to_bytes().iter().map(|s| s.si.0 ^ s.sii.0).collect()
}

fn hex_of(bytes: &[u8]) -> String {
    bytes.iter().map(|b| format!("{:02x}", b)).collect()
}

#[test]
fn test_aes128_known_answer_zero_block() {
    // key 000102030405060708090a0b0c0d0e0f over a zero plaintext block:
    // the published AES-128 known-answer ciphertext
    let key: Vec<u8> = (0..16).collect();
    let mut party = PlainBackend;
    let ks = aes128_keyschedule(&mut party, trivial_shares(&key)).unwrap();
    assert_eq!(ks.len(), 11);
    let input = VectorAesState::from_bytes(trivial_shares(&[0u8; 16]));
    let out = aes128_no_keyschedule(&mut party, input, &ks).unwrap();
    assert_eq!(hex_of(&reconstruct(&out)), "c6a13b37878f5b826f4f8162a1c8d879");
}

#[test]
fn test_aes128_fips_example_vector() {
    // FIPS-197 appendix C.1
    let key: Vec<u8> = (0..16).collect();
    let plain: Vec<u8> = (0..16).map(|i| 0x11 * i as u8).collect();
    let mut party = PlainBackend;
    let ks = aes128_keyschedule(&mut party, trivial_shares(&key)).unwrap();
    let input = VectorAesState::from_bytes(trivial_shares(&plain));
    let out = aes128_no_keyschedule(&mut party, input, &ks).unwrap();
    assert_eq!(hex_of(&reconstruct(&out)), "69c4e0d86a7b0430d8cdb78070b4c55a");
}

#[test]
fn test_aes256_fips_example_vector() {
    // FIPS-197 appendix C.3
    let key: Vec<u8> = (0..32).collect();
    let plain: Vec<u8> = (0..16).map(|i| 0x11 * i as u8).collect();
    let mut party = PlainBackend;
    let ks = aes256_keyschedule(&mut party, trivial_shares(&key)).unwrap();
    assert_eq!(ks.len(), 15);
    let input = VectorAesState::from_bytes(trivial_shares(&plain));
    let out = aes256_no_keyschedule(&mut party, input, &ks).unwrap();
    assert_eq!(hex_of(&reconstruct(&out)), "8ea2b7ca516745bfeafc49904b496089");
}

#[test]
fn test_aes128_round_trip() {
    // inverse evaluation undoes forward evaluation, reconstructed per block
    let key: Vec<u8> = (0..16).map(|i| (i * 13 + 7) as u8).collect();
    let plain: Vec<u8> = (0..32).map(|i| (i * 3 + 1) as u8).collect();
    let mut party = PlainBackend;
    let ks = aes128_keyschedule(&mut party, trivial_shares(&key)).unwrap();
    let input = VectorAesState::from_bytes(trivial_shares(&plain));
    let encrypted = aes128_no_keyschedule(&mut party, input, &ks).unwrap();
    assert_ne!(reconstruct(&encrypted), plain);
    let decrypted = aes128_inv_no_keyschedule(&mut party, encrypted, &ks).unwrap();
    assert_eq!(reconstruct(&decrypted), plain);
}

#[test]
fn test_aes128_matches_reference_cipher() {
    // the share-level pipeline agrees with the standard cipher from the
    // aes crate, on a multi-block input
    let key: Vec<u8> = (0..16).map(|i| (0x30 + i) as u8).collect();
    let plain: Vec<u8> = (0..48).map(|i| (i * 5 + 2) as u8).collect();
    let mut party = PlainBackend;
    let ks = aes128_keyschedule(&mut party, trivial_shares(&key)).unwrap();
    let input = VectorAesState::from_bytes(trivial_shares(&plain));
    let out = aes128_no_keyschedule(&mut party, input, &ks).unwrap();
    let got = reconstruct(&out);

    let cipher = aes::Aes128::new(aes::cipher::generic_array::GenericArray::from_slice(&key));
    let mut expected = Vec::new();
    for chunk in plain.chunks(16) {
        let mut block = aes::cipher::generic_array::GenericArray::clone_from_slice(chunk);
        cipher.encrypt_block(&mut block);
        expected.extend_from_slice(&block);
    }
    assert_eq!(got, expected);
}

#[test]
fn test_malicious_schedule_matches_semi_honest() {
    let key: Vec<u8> = (0..16).map(|i| (i * 11 + 5) as u8).collect();
    let mut party = PlainBackend;
    let ks = aes128_keyschedule(&mut party, trivial_shares(&key)).unwrap();
    let mut mal_party = PlainMalBackend { tampered: false };
    let ks_mal = aes128_keyschedule_mal(&mut mal_party, trivial_shares(&key)).unwrap();
    assert_eq!(ks_mal.len(), 11);
    for r in 0..11 {
        for i in 0..16 {
            assert_eq!(ks_mal[r].si[i].0 ^ ks_mal[r].sii[i].0, ks[r].si[i].0 ^ ks[r].sii[i].0);
        }
    }
}

#[test]
fn test_backend_failure_aborts_evaluation() {
    let mut party = FailingBackend;
    let ks = zero_keyschedule(AesVariant::Aes128);
    let input = VectorAesState::from_bytes(trivial_shares(&[0u8; 16]));
    let r = aes128_no_keyschedule(&mut party, input, &ks);
    assert_eq!(r.err(), Some(MpcError::Backend));
    let r2 = aes128_keyschedule(&mut party, trivial_shares(&[0u8; 16]));
    assert_eq!(r2.err(), Some(MpcError::Backend));
}

#[test]
fn test_tampering_aborts_malicious_schedule() {
    let mut party = PlainMalBackend { tampered: true };
    let r = aes128_keyschedule_mal(&mut party, trivial_shares(&[0u8; 16]));
    assert_eq!(r.err(), Some(MpcError::Tampering));
}

#[test]
fn test_variant_constants() {
    assert_eq!(AesVariant::Aes128.key_len(), 16);
    assert_eq!(AesVariant::Aes256.key_len(), 32);
    assert_eq!(AesVariant::Aes128.n_rounds(), 10);
    assert_eq!(AesVariant::Aes256.n_rounds(), 14);
    assert_eq!(AesVariant::Aes128.n_ks_sboxes(), 40);
    assert_eq!(AesVariant::Aes256.n_ks_sboxes(), 52);
}

#[test]
fn test_zero_keyschedule_shape() {
    let ks = zero_keyschedule(AesVariant::Aes256);
    assert_eq!(ks.len(), 15);
    assert!(ks.iter().all(|k| k.si.iter().all(|g| g.0 == 0)));
    assert!(ks.iter().all(|k| k.sii.iter().all(|g| g.0 == 0)));
}
