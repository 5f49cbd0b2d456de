//! The malicious-secure key schedule: the same data-dependency structure as
//! the semi-honest AES-128 schedule, but each SubWord step routes through an
//! additive-share conversion and a verified re-sharing, so that an actively
//! cheating party cannot inject an undetected fault into a value that is
//! never revealed.
use vstd::prelude::*;
use crate::gf8::{GF8, sbox_affine};
use crate::rss::RssShare;
use crate::state::{AesKeyState, transpose_blocks, rss_si_bytes, rss_sii_bytes};
use crate::cipher::{MpcResult, AesVariant, round_constant, assemble_round_key, key_words_chained, lemma_assembled_words_chained};

verus! {

/// The malicious-secure inversion capability: inversion split into a
/// conversion from replicated to additive shares and a verified re-sharing
/// back, so the backend can interleave a malicious-security check between
/// them. A detected fault or a network failure surfaces as an error.
pub trait GF8InvBlackBoxMal {
    /// Returns this party's additive share of the public constant `value`.
    fn constant(&self, value: GF8) -> GF8;

    /// Returns a (2,3) sharing of the public constant `value`.
    fn constant_rss(&self, value: GF8) -> RssShare;

    /// Computes additive shares of the field inverses of the replicated
    /// sharing `(si, sii)`, writing them over `state_ss`.
    fn gf8_inv_rss_to_ss(
        &mut self,
        state_ss: &mut Vec<GF8>,
        si: &Vec<GF8>,
        sii: &Vec<GF8>,
    ) -> (r: MpcResult<()>)
        requires
            old(state_ss)@.len() == si@.len(),
            si@.len() == sii@.len(),
        ensures
            r is Ok ==> final(state_ss)@.len() == old(state_ss)@.len(),
    ;

    /// Converts additive shares back to a replicated sharing with a
    /// verification step, written over `out_i` and `out_ii`; together with
    /// `gf8_inv_rss_to_ss` this completes one checked inversion.
    fn gf8_inv_and_rss_output(
        &mut self,
        state_ss: &mut Vec<GF8>,
        out_i: &mut Vec<GF8>,
        out_ii: &mut Vec<GF8>,
    ) -> (r: MpcResult<()>)
        requires
            old(out_i)@.len() == old(state_ss)@.len(),
            old(out_ii)@.len() == old(state_ss)@.len(),
        ensures
            r is Ok ==> final(out_i)@.len() == old(out_i)@.len() && final(out_ii)@.len() == old(
                out_ii,
            )@.len(),
    ;

    /// Runs whatever preprocessing the backend needs before computing
    /// `n_keys` key schedules and `n_blocks` AES blocks of the variant.
    fn do_preprocessing(&mut self, n_keys: usize, n_blocks: usize, variant: AesVariant) -> (r:
        MpcResult<()>);
}

/// One malicious-secure AES-128 key-schedule step: the rotated last column
/// is inverted into additive shares, the affine transform is applied over
/// those shares (`apply_sbox_affine_ss` fixes it for every returned value),
/// and the word is converted back to a verified replicated sharing before
/// the assembly whose contract fixes the whole new round key.
fn aes128_keyschedule_round_mal<Protocol: GF8InvBlackBoxMal>(
    party: &mut Protocol,
    rk: &AesKeyState,
    rcon: GF8,
) -> (r: MpcResult<AesKeyState>)
    requires
        rk.wf(),
    ensures
        r matches Ok(out) ==> out.wf() && key_words_chained(out, *rk),
{
    let mut rot_i: Vec<GF8> = Vec::new();
    rot_i.push(rk.si[7]);
    rot_i.push(rk.si[11]);
    rot_i.push(rk.si[15]);
    rot_i.push(rk.si[3]);
    let mut rot_ii: Vec<GF8> = Vec::new();
    rot_ii.push(rk.sii[7]);
    rot_ii.push(rk.sii[11]);
    rot_ii.push(rk.sii[15]);
    rot_ii.push(rk.sii[3]);

    let mut state_ss: Vec<GF8> = Vec::new();
    state_ss.push(GF8(0));
    state_ss.push(GF8(0));
    state_ss.push(GF8(0));
    state_ss.push(GF8(0));
    match party.gf8_inv_rss_to_ss(&mut state_ss, &rot_i, &rot_ii) {
        Ok(u) => u,
        Err(e) => {
            return Err(e);
        },
    }

    let c = party.constant(GF8(0x63));
    apply_sbox_affine_ss(&mut state_ss, c);

    let mut new_rot_i: Vec<GF8> = Vec::new();
    new_rot_i.push(GF8(0));
    new_rot_i.push(GF8(0));
    new_rot_i.push(GF8(0));
    new_rot_i.push(GF8(0));
    let mut new_rot_ii: Vec<GF8> = Vec::new();
    new_rot_ii.push(GF8(0));
    new_rot_ii.push(GF8(0));
    new_rot_ii.push(GF8(0));
    new_rot_ii.push(GF8(0));
    match party.gf8_inv_and_rss_output(&mut state_ss, &mut new_rot_i, &mut new_rot_ii) {
        Ok(u) => u,
        Err(e) => {
            return Err(e);
        },
    }

    let rcon_rss = party.constant_rss(rcon);
    let out = assemble_round_key(rk, &new_rot_i, &new_rot_ii, rcon_rss);
    proof {
        lemma_assembled_words_chained(out, *rk, new_rot_i@, new_rot_ii@, rcon_rss);
    }
    Ok(out)
}

/// The affine half of SubWord over additive shares: every entry becomes its
/// affine transform plus the party's additive share of the public constant
/// 0x63, fixed for every value the conversion returned.
fn apply_sbox_affine_ss(state_ss: &mut Vec<GF8>, c: GF8)
    ensures
        final(state_ss)@.len() == old(state_ss)@.len(),
        forall|t: int|
            0 <= t < old(state_ss)@.len() ==> (#[trigger] final(state_ss)@[t]).0 == (sbox_affine(
                old(state_ss)@[t].0,
            ) ^ c.0),
{
    let len: usize = state_ss.len();
    let mut t: usize = 0;
    while t < len
        invariant
            old(state_ss)@.len() == len,
            state_ss@.len() == len,
            t <= len,
            forall|k: int| t <= k < len ==> #[trigger] state_ss@[k] == old(state_ss)@[k],
            forall|k: int|
                0 <= k < t ==> (#[trigger] state_ss@[k]).0 == (sbox_affine(old(state_ss)@[k].0)
                    ^ c.0),
        decreases len - t,
    {
        let v = state_ss[t].aes_sbox_affine_transform().add(c);
        state_ss.set(t, v);
        t = t + 1;
    }
}

/// The malicious-secure AES-128 key schedule: 11 round keys expanded from a
/// 16-byte shared key, with every SubWord step checked by the backend. Any
/// detected tampering or backend failure aborts the whole schedule.
pub fn aes128_keyschedule_mal<Protocol: GF8InvBlackBoxMal>(
    party: &mut Protocol,
    key: Vec<RssShare>,
) -> (r: MpcResult<Vec<AesKeyState>>)
    requires
        key@.len() == 16,
    ensures
        r matches Ok(ks) ==> ks@.len() == 11 && (forall|i: int|
            0 <= i < ks@.len() ==> (#[trigger] ks@[i]).wf()) && ks@[0].si_bytes()
            == transpose_blocks(rss_si_bytes(key@)) && ks@[0].sii_bytes() == transpose_blocks(
            rss_sii_bytes(key@),
        ),
{
    let mut ks: Vec<AesKeyState> = Vec::new();
    ks.push(AesKeyState::from_bytes(key));
    let mut i: usize = 1;
    while i <= 10
        invariant
            ks@.len() == i,
            1 <= i <= 11,
            forall|t: int| 0 <= t < i ==> (#[trigger] ks@[t]).wf(),
            ks@[0].si_bytes() == transpose_blocks(rss_si_bytes(key@)),
            ks@[0].sii_bytes() == transpose_blocks(rss_sii_bytes(key@)),
            forall|t: int| 1 <= t < i ==> key_words_chained(#[trigger] ks@[t], ks@[t - 1]),
        decreases 11 - i,
    {
        let rki = match aes128_keyschedule_round_mal(party, &ks[i - 1], round_constant(i - 1)) {
            Ok(k) => k,
            Err(e) => {
                return Err(e);
            },
        };
        ks.push(rki);
        i = i + 1;
    }
    Ok(ks)
}


} // verus!
