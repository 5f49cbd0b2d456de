//! The AES round function pipeline over replicated shares: SubBytes through
//! the secure inversion capability plus a local affine transform, ShiftRows,
//! MixColumns and AddRoundKey as local transforms, composed into the full
//! forward and inverse evaluation for the 128- and 256-bit variants, and the
//! key-schedule expansion.
use vstd::prelude::*;
use crate::gf8::{GF8, sbox_affine, inv_sbox_affine};
use crate::rss::RssShare;
use crate::state::{VectorAesState, AesKeyState, block_of, transpose_blocks, rss_si_bytes, rss_sii_bytes};
use crate::model::add_round_key_block;

verus! {

/// Why a secure computation failed: the backend or its network gave up, or
/// a malicious-security check detected tampering. Either way the evaluation
/// aborts and no partial output is kept.
#[derive(Clone, Copy, PartialEq, Eq, Structural, Debug)]
pub enum MpcError {
    Backend,
    Tampering,
}

/// The result of a step that may be aborted by a backend failure.
pub type MpcResult<T> = Result<T, MpcError>;

/// The AES variant: it alone fixes the round count, the key length and the
/// number of S-boxes in the key schedule.
#[derive(Clone, Copy, PartialEq, Eq, Structural, Debug)]
pub enum AesVariant {
    Aes128,
    Aes256,
}

impl AesVariant {
    /// The cipher key length in bytes.
    pub open spec fn spec_key_len(&self) -> usize {
        match self {
            AesVariant::Aes128 => 16,
            AesVariant::Aes256 => 32,
        }
    }

    /// The number of rounds.
    pub open spec fn spec_n_rounds(&self) -> usize {
        match self {
            AesVariant::Aes128 => 10,
            AesVariant::Aes256 => 14,
        }
    }

    /// The number of S-boxes in the key schedule.
    pub open spec fn spec_n_ks_sboxes(&self) -> usize {
        match self {
            AesVariant::Aes128 => 40,
            AesVariant::Aes256 => 52,
        }
    }

    /// The cipher key length in bytes.
    #[verifier::when_used_as_spec(spec_key_len)]
    pub fn key_len(&self) -> (r: usize)
        ensures
            r == self.spec_key_len(),
    {
        match self {
            AesVariant::Aes128 => 16,
            AesVariant::Aes256 => 32,
        }
    }

    /// The number of rounds.
    #[verifier::when_used_as_spec(spec_n_rounds)]
    pub fn n_rounds(&self) -> (r: usize)
        ensures
            r == self.spec_n_rounds(),
    {
        match self {
            AesVariant::Aes128 => 10,
            AesVariant::Aes256 => 14,
        }
    }

    /// Returns the number of S-boxes in the key schedule.
    #[verifier::when_used_as_spec(spec_n_ks_sboxes)]
    pub fn n_ks_sboxes(&self) -> (r: usize)
        ensures
            r == self.spec_n_ks_sboxes(),
    {
        match self {
            AesVariant::Aes128 => 40,
            AesVariant::Aes256 => 52,
        }
    }
}

/// The secure inversion capability that an external backend provides: the
/// one interactive operation of the cipher. Inversion of shared bytes is
/// done in place; a backend or network failure surfaces as an error that
/// aborts the evaluation. What byte values come back is the backend's
/// business (a correct backend reshares the field inverses); this interface
/// only pins the shape.
pub trait GF8InvBlackBox {
    /// Returns a (2,3) sharing of the public constant `value`.
    fn constant(&self, value: GF8) -> RssShare;

    /// Computes the GF(2^8) multiplicative inverse of the sharing
    /// `(si, sii)` in place, with the inverse of 0 defined as 0.
    fn gf8_inv(&mut self, si: &mut Vec<GF8>, sii: &mut Vec<GF8>) -> (r: MpcResult<()>)
        requires
            old(si)@.len() == old(sii)@.len(),
        ensures
            r is Ok ==> final(si)@.len() == old(si)@.len() && final(sii)@.len() == old(sii)@.len(),
    ;

    /// Runs whatever preprocessing the backend needs before computing
    /// `n_keys` key schedules and `n_blocks` AES blocks of the variant.
    fn do_preprocessing(&mut self, n_keys: usize, n_blocks: usize, variant: AesVariant) -> (r:
        MpcResult<()>);
}

/// AddRoundKey: the round key's shares added into every block of the state,
/// a local operation.
pub fn add_round_key(states: &mut VectorAesState, round_key: &AesKeyState)
    requires
        old(states).wf(),
        round_key.wf(),
    ensures
        final(states).wf(),
        final(states).n == old(states).n,
        forall|k: int|
            0 <= k < old(states).n ==> #[trigger] block_of(final(states).si_bytes(), k)
                == add_round_key_block(block_of(old(states).si_bytes(), k), round_key.si_bytes())
                && block_of(final(states).sii_bytes(), k) == add_round_key_block(
                block_of(old(states).sii_bytes(), k),
                round_key.sii_bytes(),
            ),
{
    let ghost orig: VectorAesState = *states;
    let n: usize = states.n;
    let total: usize = states.si.len();
    let mut j: usize = 0;
    while j < n
        invariant
            states.wf(),
            states.n == n,
            orig.wf(),
            orig.n == n,
            round_key.wf(),
            16 * n == total,
            j <= n,
            forall|t: int|
                16 * j <= t < 16 * n ==> #[trigger] states.si@[t] == orig.si@[t] && states.sii@[t]
                    == orig.sii@[t],
            forall|k: int|
                0 <= k < j ==> #[trigger] block_of(states.si_bytes(), k) == add_round_key_block(
                    block_of(orig.si_bytes(), k),
                    round_key.si_bytes(),
                ) && block_of(states.sii_bytes(), k) == add_round_key_block(
                    block_of(orig.sii_bytes(), k),
                    round_key.sii_bytes(),
                ),
        decreases n - j,
    {
        proof {
            assert(16 * j + 16 <= 16 * n) by (nonlinear_arith)
                requires
                    j < n,
            ;
        }
        let ghost pre: VectorAesState = *states;
        let base: usize = 16 * j;
        add_round_key_to_block(states, base, round_key);
        proof {
            lemma_add_round_key_step(*states, pre, orig, *round_key, base as int, j as int, n as int);
        }
        j = j + 1;
    }
}

/// AddRoundKey on the single block starting at `base`.
fn add_round_key_to_block(states: &mut VectorAesState, base: usize, round_key: &AesKeyState)
    requires
        old(states).wf(),
        round_key.wf(),
        base + 16 <= old(states).si@.len(),
    ensures
        final(states).wf(),
        final(states).n == old(states).n,
        final(states).si_bytes().subrange(base as int, base + 16) == add_round_key_block(
            old(states).si_bytes().subrange(base as int, base + 16),
            round_key.si_bytes(),
        ),
        final(states).sii_bytes().subrange(base as int, base + 16) == add_round_key_block(
            old(states).sii_bytes().subrange(base as int, base + 16),
            round_key.sii_bytes(),
        ),
        forall|t: int|
            0 <= t < old(states).si@.len() && !(base <= t < base + 16) ==> #[trigger] final(states).si@[t] == old(states).si@[t] && final(states).sii@[t] == old(states).sii@[t],
{
    let l: usize = states.si.len();
    assert(base + 16 <= l);
    let mut i: usize = 0;
    while i < 16
        invariant
            states.wf(),
            states.n == old(states).n,
            old(states).wf(),
            round_key.wf(),
            base + 16 <= old(states).si@.len(),
            states.si@.len() == old(states).si@.len(),
            i <= 16,
            forall|t: int|
                0 <= t < old(states).si@.len() && !(base <= t < base + i) ==> #[trigger] states.si@[t]
                    == old(states).si@[t] && states.sii@[t] == old(states).sii@[t],
            forall|t: int|
                0 <= t < i ==> (#[trigger] states.si@[base + t]).0 == (old(states).si@[base
                    + t].0 ^ round_key.si@[t].0),
            forall|t: int|
                0 <= t < i ==> (#[trigger] states.sii@[base + t]).0 == (old(states).sii@[base
                    + t].0 ^ round_key.sii@[t].0),
        decreases 16 - i,
    {
        let l2: usize = states.si.len();
        assert(base + i < l2);
        let vi = states.si[base + i].add(round_key.si[i]);
        states.si.set(base + i, vi);
        let vii = states.sii[base + i].add(round_key.sii[i]);
        states.sii.set(base + i, vii);
        i = i + 1;
    }
    proof {
        assert forall|t: int| 0 <= t < 16 implies #[trigger] states.si_bytes().subrange(
            base as int,
            base + 16,
        )[t] == add_round_key_block(
            old(states).si_bytes().subrange(base as int, base + 16),
            round_key.si_bytes(),
        )[t] by {
            assert(states.si@[base + t].0 == (old(states).si@[base + t].0 ^ round_key.si@[t].0));
        }
        assert forall|t: int| 0 <= t < 16 implies #[trigger] states.sii_bytes().subrange(
            base as int,
            base + 16,
        )[t] == add_round_key_block(
            old(states).sii_bytes().subrange(base as int, base + 16),
            round_key.sii_bytes(),
        )[t] by {
            assert(states.sii@[base + t].0 == (old(states).sii@[base + t].0
                ^ round_key.sii@[t].0));
        }
        assert(states.si_bytes().subrange(base as int, base + 16) =~= add_round_key_block(
            old(states).si_bytes().subrange(base as int, base + 16),
            round_key.si_bytes(),
        ));
        assert(states.sii_bytes().subrange(base as int, base + 16) =~= add_round_key_block(
            old(states).sii_bytes().subrange(base as int, base + 16),
            round_key.sii_bytes(),
        ));
    }
}

/// One loop step of AddRoundKey: with block `j` of `cur` freshly keyed from
/// `pre` and everything before `j` already done, all blocks up to and
/// including `j` of `cur` carry the transform of `orig`.
#[verifier::rlimit(100)]
#[verifier::spinoff_prover]
proof fn lemma_add_round_key_step(
    cur: VectorAesState,
    pre: VectorAesState,
    orig: VectorAesState,
    round_key: AesKeyState,
    base: int,
    j: int,
    n: int,
)
    requires
        base == 16 * j,
        cur.wf(),
        pre.wf(),
        orig.wf(),
        cur.n == n,
        pre.n == n,
        orig.n == n,
        round_key.wf(),
        0 <= j < n,
        cur.si_bytes().subrange(base, base + 16) == add_round_key_block(
            pre.si_bytes().subrange(base, base + 16),
            round_key.si_bytes(),
        ),
        cur.sii_bytes().subrange(base, base + 16) == add_round_key_block(
            pre.sii_bytes().subrange(base, base + 16),
            round_key.sii_bytes(),
        ),
        forall|t: int|
            0 <= t < 16 * n && !(16 * j <= t < 16 * j + 16) ==> #[trigger] cur.si@[t]
                == pre.si@[t] && cur.sii@[t] == pre.sii@[t],
        forall|t: int|
            16 * j <= t < 16 * n ==> #[trigger] pre.si@[t] == orig.si@[t] && pre.sii@[t]
                == orig.sii@[t],
        forall|k: int|
            0 <= k < j ==> #[trigger] block_of(pre.si_bytes(), k) == add_round_key_block(
                block_of(orig.si_bytes(), k),
                round_key.si_bytes(),
            ) && block_of(pre.sii_bytes(), k) == add_round_key_block(
                block_of(orig.sii_bytes(), k),
                round_key.sii_bytes(),
            ),
    ensures
        forall|k: int|
            0 <= k < j + 1 ==> #[trigger] block_of(cur.si_bytes(), k) == add_round_key_block(
                block_of(orig.si_bytes(), k),
                round_key.si_bytes(),
            ) && block_of(cur.sii_bytes(), k) == add_round_key_block(
                block_of(orig.sii_bytes(), k),
                round_key.sii_bytes(),
            ),
        forall|t: int|
            16 * (j + 1) <= t < 16 * n ==> #[trigger] cur.si@[t] == orig.si@[t] && cur.sii@[t]
                == orig.sii@[t],
{
    assert(16 * j + 16 <= 16 * n) by (nonlinear_arith)
        requires
            0 <= j < n,
    ;
    assert(block_of(cur.si_bytes(), j) =~= cur.si_bytes().subrange(base, base + 16));
    assert(block_of(cur.sii_bytes(), j) =~= cur.sii_bytes().subrange(base, base + 16));
    assert(block_of(pre.si_bytes(), j) =~= pre.si_bytes().subrange(base, base + 16));
    assert(block_of(pre.sii_bytes(), j) =~= pre.sii_bytes().subrange(base, base + 16));
    assert forall|t2: int| 16 * j <= t2 < 16 * j + 16 implies pre.si@[t2] == orig.si@[t2]
        && pre.sii@[t2] == orig.sii@[t2] by {
        assert(pre.si@[t2] == orig.si@[t2] && pre.sii@[t2] == orig.sii@[t2]);
    }
    assert(block_of(pre.si_bytes(), j) =~= block_of(orig.si_bytes(), j));
    assert(block_of(pre.sii_bytes(), j) =~= block_of(orig.sii_bytes(), j));
    assert forall|k: int| 0 <= k < j + 1 implies #[trigger] block_of(cur.si_bytes(), k)
        == add_round_key_block(block_of(orig.si_bytes(), k), round_key.si_bytes()) && block_of(
        cur.sii_bytes(),
        k,
    ) == add_round_key_block(block_of(orig.sii_bytes(), k), round_key.sii_bytes()) by {
        if k < j {
            assert(16 * k + 16 <= 16 * j) by (nonlinear_arith)
                requires
                    0 <= k < j,
            ;
            assert forall|t2: int| 16 * k <= t2 < 16 * k + 16 implies cur.si@[t2] == pre.si@[t2]
                && cur.sii@[t2] == pre.sii@[t2] by {
                assert(cur.si@[t2] == pre.si@[t2] && cur.sii@[t2] == pre.sii@[t2]);
            }
            assert(block_of(cur.si_bytes(), k) =~= block_of(pre.si_bytes(), k));
            assert(block_of(cur.sii_bytes(), k) =~= block_of(pre.sii_bytes(), k));
        }
    }
    assert forall|t2: int| 16 * (j + 1) <= t2 < 16 * n implies cur.si@[t2] == orig.si@[t2]
        && cur.sii@[t2] == orig.sii@[t2] by {
        assert(cur.si@[t2] == pre.si@[t2] && cur.sii@[t2] == pre.sii@[t2]);
        assert(pre.si@[t2] == orig.si@[t2] && pre.sii@[t2] == orig.sii@[t2]);
    }
}


/// SubBytes on a flat slice of shares: interactive field inversion through
/// the backend, then the local affine transform, with the constant 0x63
/// added as a share of the public constant. What the inversion returned is
/// the backend's business; the affine half is `apply_sbox_affine`, whose
/// contract fixes it for every returned value.
fn sbox_layer<Protocol: GF8InvBlackBox>(
    party: &mut Protocol,
    si: &mut Vec<GF8>,
    sii: &mut Vec<GF8>,
) -> (r: MpcResult<()>)
    requires
        old(si)@.len() == old(sii)@.len(),
    ensures
        r is Ok ==> final(si)@.len() == old(si)@.len() && final(sii)@.len() == old(sii)@.len(),
{
    match party.gf8_inv(si, sii) {
        Ok(u) => u,
        Err(e) => {
            return Err(e);
        },
    }
    let c = party.constant(GF8(0x63));
    apply_sbox_affine(si, sii, c);
    Ok(())
}

/// The affine half of SubBytes: every entry of both components becomes its
/// affine transform plus the party's share of the public constant 0x63.
/// This is the whole local processing after the inversion, fixed for every
/// value the backend returned.
fn apply_sbox_affine(si: &mut Vec<GF8>, sii: &mut Vec<GF8>, c: RssShare)
    requires
        old(si)@.len() == old(sii)@.len(),
    ensures
        final(si)@.len() == old(si)@.len(),
        final(sii)@.len() == old(sii)@.len(),
        forall|t: int|
            0 <= t < old(si)@.len() ==> (#[trigger] final(si)@[t]).0 == (sbox_affine(
                old(si)@[t].0,
            ) ^ c.si.0),
        forall|t: int|
            0 <= t < old(sii)@.len() ==> (#[trigger] final(sii)@[t]).0 == (sbox_affine(
                old(sii)@[t].0,
            ) ^ c.sii.0),
{
    let len: usize = si.len();
    let mut i: usize = 0;
    while i < len
        invariant
            old(si)@.len() == len,
            old(sii)@.len() == len,
            si@.len() == len,
            sii@.len() == len,
            i <= len,
            forall|t: int| i <= t < len ==> #[trigger] si@[t] == old(si)@[t],
            forall|t: int| i <= t < len ==> #[trigger] sii@[t] == old(sii)@[t],
            forall|t: int|
                0 <= t < i ==> (#[trigger] si@[t]).0 == (sbox_affine(old(si)@[t].0) ^ c.si.0),
            forall|t: int|
                0 <= t < i ==> (#[trigger] sii@[t]).0 == (sbox_affine(old(sii)@[t].0) ^ c.sii.0),
        decreases len - i,
    {
        let v = si[i].aes_sbox_affine_transform().add(c.si);
        si.set(i, v);
        let v2 = sii[i].aes_sbox_affine_transform().add(c.sii);
        sii.set(i, v2);
        i = i + 1;
    }
}

/// InvSubBytes on a flat slice of shares: remove the constant and undo the
/// affine transform locally (`remove_sbox_affine` fixes that part exactly),
/// then invert through the backend.
fn inv_sbox_layer<Protocol: GF8InvBlackBox>(
    party: &mut Protocol,
    si: &mut Vec<GF8>,
    sii: &mut Vec<GF8>,
) -> (r: MpcResult<()>)
    requires
        old(si)@.len() == old(sii)@.len(),
    ensures
        r is Ok ==> final(si)@.len() == old(si)@.len() && final(sii)@.len() == old(sii)@.len(),
{
    let c = party.constant(GF8(0x63));
    remove_sbox_affine(si, sii, c);
    party.gf8_inv(si, sii)
}

/// The local half of InvSubBytes: every entry gets the party's share of
/// the public constant 0x63 removed and the affine transform undone.
fn remove_sbox_affine(si: &mut Vec<GF8>, sii: &mut Vec<GF8>, c: RssShare)
    requires
        old(si)@.len() == old(sii)@.len(),
    ensures
        final(si)@.len() == old(si)@.len(),
        final(sii)@.len() == old(sii)@.len(),
        forall|t: int|
            0 <= t < old(si)@.len() ==> (#[trigger] final(si)@[t]).0 == inv_sbox_affine(
                old(si)@[t].0 ^ c.si.0,
            ),
        forall|t: int|
            0 <= t < old(sii)@.len() ==> (#[trigger] final(sii)@[t]).0 == inv_sbox_affine(
                old(sii)@[t].0 ^ c.sii.0,
            ),
{
    let len: usize = si.len();
    let mut i: usize = 0;
    while i < len
        invariant
            old(si)@.len() == len,
            old(sii)@.len() == len,
            si@.len() == len,
            sii@.len() == len,
            i <= len,
            forall|t: int| i <= t < len ==> #[trigger] si@[t] == old(si)@[t],
            forall|t: int| i <= t < len ==> #[trigger] sii@[t] == old(sii)@[t],
            forall|t: int|
                0 <= t < i ==> (#[trigger] si@[t]).0 == inv_sbox_affine(old(si)@[t].0 ^ c.si.0),
            forall|t: int|
                0 <= t < i ==> (#[trigger] sii@[t]).0 == inv_sbox_affine(old(sii)@[t].0 ^ c.sii.0),
        decreases len - i,
    {
        let v = si[i].add(c.si).inv_aes_sbox_affine_transform();
        si.set(i, v);
        let v2 = sii[i].add(c.sii).inv_aes_sbox_affine_transform();
        sii.set(i, v2);
        i = i + 1;
    }
}

/// The full forward AES evaluation on shared state, for either variant:
/// AddRoundKey with round key 0, the middle rounds, and the final round
/// without MixColumns. Only the S-box inversions are interactive; an error
/// from the backend aborts the evaluation and no state is returned.
fn aes_no_keyschedule<Protocol: GF8InvBlackBox>(
    variant: AesVariant,
    party: &mut Protocol,
    inputs: VectorAesState,
    round_key: &Vec<AesKeyState>,
) -> (r: MpcResult<VectorAesState>)
    requires
        inputs.wf(),
        round_key@.len() == variant.n_rounds() + 1,
        forall|i: int| 0 <= i < round_key@.len() ==> (#[trigger] round_key@[i]).wf(),
    ensures
        r matches Ok(out) ==> out.wf() && out.n == inputs.n,
{
    let mut state = inputs;
    add_round_key(&mut state, &round_key[0]);
    let n_rounds: usize = variant.n_rounds();
    let mut r: usize = 1;
    while r < n_rounds
        invariant
            state.wf(),
            state.n == inputs.n,
            1 <= r <= n_rounds,
            round_key@.len() == n_rounds + 1,
            forall|i: int| 0 <= i < round_key@.len() ==> (#[trigger] round_key@[i]).wf(),
        decreases n_rounds - r,
    {
        match sbox_layer(party, &mut state.si, &mut state.sii) {
            Ok(u) => u,
            Err(e) => {
                return Err(e);
            },
        }
        state.shift_rows();
        state.mix_columns();
        add_round_key(&mut state, &round_key[r]);
        r = r + 1;
    }
    match sbox_layer(party, &mut state.si, &mut state.sii) {
        Ok(u) => u,
        Err(e) => {
            return Err(e);
        },
    }
    state.shift_rows();
    add_round_key(&mut state, &round_key[n_rounds]);
    Ok(state)
}

/// Forward AES-128 on shared state; the key schedule must hold 11 round keys.
pub fn aes128_no_keyschedule<Protocol: GF8InvBlackBox>(
    party: &mut Protocol,
    inputs: VectorAesState,
    round_key: &Vec<AesKeyState>,
) -> (r: MpcResult<VectorAesState>)
    requires
        inputs.wf(),
        round_key@.len() == 11,
        forall|i: int| 0 <= i < round_key@.len() ==> (#[trigger] round_key@[i]).wf(),
    ensures
        r matches Ok(out) ==> out.wf() && out.n == inputs.n,
{
    aes_no_keyschedule(AesVariant::Aes128, party, inputs, round_key)
}

/// Forward AES-256 on shared state; the key schedule must hold 15 round keys.
pub fn aes256_no_keyschedule<Protocol: GF8InvBlackBox>(
    party: &mut Protocol,
    inputs: VectorAesState,
    round_key: &Vec<AesKeyState>,
) -> (r: MpcResult<VectorAesState>)
    requires
        inputs.wf(),
        round_key@.len() == 15,
        forall|i: int| 0 <= i < round_key@.len() ==> (#[trigger] round_key@[i]).wf(),
    ensures
        r matches Ok(out) ==> out.wf() && out.n == inputs.n,
{
    aes_no_keyschedule(AesVariant::Aes256, party, inputs, round_key)
}

/// Inverse AES-128 on shared state: the forward rounds undone in reverse
/// order, with the inverse local transforms and the same interactive
/// inversion capability.
pub fn aes128_inv_no_keyschedule<Protocol: GF8InvBlackBox>(
    party: &mut Protocol,
    inputs: VectorAesState,
    key_schedule: &Vec<AesKeyState>,
) -> (r: MpcResult<VectorAesState>)
    requires
        inputs.wf(),
        key_schedule@.len() == 11,
        forall|i: int| 0 <= i < key_schedule@.len() ==> (#[trigger] key_schedule@[i]).wf(),
    ensures
        r matches Ok(out) ==> out.wf() && out.n == inputs.n,
{
    let mut state = inputs;
    add_round_key(&mut state, &key_schedule[10]);
    let mut r: usize = 9;
    while r >= 1
        invariant
            state.wf(),
            state.n == inputs.n,
            r <= 9,
            key_schedule@.len() == 11,
            forall|i: int| 0 <= i < key_schedule@.len() ==> (#[trigger] key_schedule@[i]).wf(),
        decreases r,
    {
        state.inv_shift_rows();
        match inv_sbox_layer(party, &mut state.si, &mut state.sii) {
            Ok(u) => u,
            Err(e) => {
                return Err(e);
            },
        }
        add_round_key(&mut state, &key_schedule[r]);
        state.inv_mix_columns();
        r = r - 1;
    }
    state.inv_shift_rows();
    match inv_sbox_layer(party, &mut state.si, &mut state.sii) {
        Ok(u) => u,
        Err(e) => {
            return Err(e);
        },
    }
    add_round_key(&mut state, &key_schedule[0]);
    Ok(state)
}

/// The public round constant for key-schedule step `i`: the powers of x in
/// GF(2^8).
pub(crate) fn round_constant(i: usize) -> GF8
    requires
        i < 10,
{
    match i {
        0 => GF8(0x01),
        1 => GF8(0x02),
        2 => GF8(0x04),
        3 => GF8(0x08),
        4 => GF8(0x10),
        5 => GF8(0x20),
        6 => GF8(0x40),
        7 => GF8(0x80),
        8 => GF8(0x1b),
        _ => GF8(0x36),
    }
}

/// The entry in row `i`, column `j` of the next round key, before any
/// backend interaction: column 0 of the previous round key XORed with the
/// SubWord output word (and, in its first byte, the round-constant share),
/// and every later column the XOR chain of its predecessor with the
/// previous round key's same entry -- the FIPS-197 word recurrence, stated
/// per share component.
pub open spec fn expanded_word_entry(rk: Seq<GF8>, w: Seq<GF8>, rc: u8, i: int, j: int) -> u8
    decreases j,
{
    if j <= 0 {
        if i == 0 {
            (rk[0].0 ^ w[0].0) ^ rc
        } else {
            rk[4 * i].0 ^ w[i].0
        }
    } else {
        rk[4 * i + j].0 ^ expanded_word_entry(rk, w, rc, i, j - 1)
    }
}

/// Build the next round key from the previous one, the word the SubWord
/// step produced, and the round-constant share. Every output entry is fixed
/// by `expanded_word_entry`, whatever the backend returned for the word: the
/// word joins column 0, the constant its first byte, and the remaining
/// columns are the XOR chain with the previous round key.
pub(crate) fn assemble_round_key(
    rk: &AesKeyState,
    w_i: &Vec<GF8>,
    w_ii: &Vec<GF8>,
    rcon: RssShare,
) -> (out: AesKeyState)
    requires
        rk.wf(),
        w_i@.len() == 4,
        w_ii@.len() == 4,
    ensures
        out.wf(),
        forall|i: int, j: int|
            0 <= i < 4 && 0 <= j < 4 ==> (#[trigger] out.si@[4 * i + j]).0 == expanded_word_entry(
                rk.si@,
                w_i@,
                rcon.si.0,
                i,
                j,
            ) && out.sii@[4 * i + j].0 == expanded_word_entry(rk.sii@, w_ii@, rcon.sii.0, i, j),
{
    let e_si_00 = rk.si[0].add(w_i[0]).add(rcon.si);
    let e_si_01 = rk.si[1].add(e_si_00);
    let e_si_02 = rk.si[2].add(e_si_01);
    let e_si_03 = rk.si[3].add(e_si_02);
    let e_si_10 = rk.si[4].add(w_i[1]);
    let e_si_11 = rk.si[5].add(e_si_10);
    let e_si_12 = rk.si[6].add(e_si_11);
    let e_si_13 = rk.si[7].add(e_si_12);
    let e_si_20 = rk.si[8].add(w_i[2]);
    let e_si_21 = rk.si[9].add(e_si_20);
    let e_si_22 = rk.si[10].add(e_si_21);
    let e_si_23 = rk.si[11].add(e_si_22);
    let e_si_30 = rk.si[12].add(w_i[3]);
    let e_si_31 = rk.si[13].add(e_si_30);
    let e_si_32 = rk.si[14].add(e_si_31);
    let e_si_33 = rk.si[15].add(e_si_32);
    let e_sii_00 = rk.sii[0].add(w_ii[0]).add(rcon.sii);
    let e_sii_01 = rk.sii[1].add(e_sii_00);
    let e_sii_02 = rk.sii[2].add(e_sii_01);
    let e_sii_03 = rk.sii[3].add(e_sii_02);
    let e_sii_10 = rk.sii[4].add(w_ii[1]);
    let e_sii_11 = rk.sii[5].add(e_sii_10);
    let e_sii_12 = rk.sii[6].add(e_sii_11);
    let e_sii_13 = rk.sii[7].add(e_sii_12);
    let e_sii_20 = rk.sii[8].add(w_ii[2]);
    let e_sii_21 = rk.sii[9].add(e_sii_20);
    let e_sii_22 = rk.sii[10].add(e_sii_21);
    let e_sii_23 = rk.sii[11].add(e_sii_22);
    let e_sii_30 = rk.sii[12].add(w_ii[3]);
    let e_sii_31 = rk.sii[13].add(e_sii_30);
    let e_sii_32 = rk.sii[14].add(e_sii_31);
    let e_sii_33 = rk.sii[15].add(e_sii_32);
    let mut si: Vec<GF8> = Vec::new();
    let mut sii: Vec<GF8> = Vec::new();
    si.push(e_si_00);
    si.push(e_si_01);
    si.push(e_si_02);
    si.push(e_si_03);
    si.push(e_si_10);
    si.push(e_si_11);
    si.push(e_si_12);
    si.push(e_si_13);
    si.push(e_si_20);
    si.push(e_si_21);
    si.push(e_si_22);
    si.push(e_si_23);
    si.push(e_si_30);
    si.push(e_si_31);
    si.push(e_si_32);
    si.push(e_si_33);
    sii.push(e_sii_00);
    sii.push(e_sii_01);
    sii.push(e_sii_02);
    sii.push(e_sii_03);
    sii.push(e_sii_10);
    sii.push(e_sii_11);
    sii.push(e_sii_12);
    sii.push(e_sii_13);
    sii.push(e_sii_20);
    sii.push(e_sii_21);
    sii.push(e_sii_22);
    sii.push(e_sii_23);
    sii.push(e_sii_30);
    sii.push(e_sii_31);
    sii.push(e_sii_32);
    sii.push(e_sii_33);
    let out = AesKeyState { si, sii };
    proof {
        reveal_with_fuel(expanded_word_entry, 5);
        assert forall|i: int, j: int| 0 <= i < 4 && 0 <= j < 4 implies (#[trigger] out.si@[4 * i
            + j]).0 == expanded_word_entry(rk.si@, w_i@, rcon.si.0, i, j) && out.sii@[4 * i + j].0
            == expanded_word_entry(rk.sii@, w_ii@, rcon.sii.0, i, j) by {
        }
    }
    out
}

/// Columns 1 to 3 of a new round key are the XOR chain of their
/// predecessor with the same entry of the round key it expands: the part
/// of the word recurrence that holds whatever word the SubWord step
/// produced.
pub open spec fn key_words_chained(out: AesKeyState, prev: AesKeyState) -> bool {
    forall|i: int, j: int|
        0 <= i < 4 && 1 <= j < 4 ==> (#[trigger] out.si@[4 * i + j]).0 == (prev.si@[4 * i + j].0
            ^ out.si@[4 * i + j - 1].0) && out.sii@[4 * i + j].0 == (prev.sii@[4 * i + j].0
            ^ out.sii@[4 * i + j - 1].0)
}

/// A round key built by `assemble_round_key` satisfies the XOR-chain
/// relation to the round key it expands.
pub(crate) proof fn lemma_assembled_words_chained(
    out: AesKeyState,
    prev: AesKeyState,
    w_i: Seq<GF8>,
    w_ii: Seq<GF8>,
    rcon: RssShare,
)
    requires
        prev.wf(),
        out.wf(),
        forall|i: int, j: int|
            0 <= i < 4 && 0 <= j < 4 ==> (#[trigger] out.si@[4 * i + j]).0 == expanded_word_entry(
                prev.si@,
                w_i,
                rcon.si.0,
                i,
                j,
            ) && out.sii@[4 * i + j].0 == expanded_word_entry(prev.sii@, w_ii, rcon.sii.0, i, j),
    ensures
        key_words_chained(out, prev),
{
    assert forall|i: int, j: int| 0 <= i < 4 && 1 <= j < 4 implies (#[trigger] out.si@[4 * i
        + j]).0 == (prev.si@[4 * i + j].0 ^ out.si@[4 * i + j - 1].0) && out.sii@[4 * i + j].0
        == (prev.sii@[4 * i + j].0 ^ out.sii@[4 * i + j - 1].0) by {
        let jm = j - 1;
        assert(out.si@[4 * i + j].0 == expanded_word_entry(prev.si@, w_i, rcon.si.0, i, j));
        assert(out.si@[4 * i + jm].0 == expanded_word_entry(prev.si@, w_i, rcon.si.0, i, jm));
        assert(out.sii@[4 * i + j].0 == expanded_word_entry(prev.sii@, w_ii, rcon.sii.0, i, j));
        assert(out.sii@[4 * i + jm].0 == expanded_word_entry(prev.sii@, w_ii, rcon.sii.0, i, jm));
        assert(4 * i + jm == 4 * i + j - 1);
    }
}

/// One AES-128 key-schedule step: RotWord and SubWord on the previous round
/// key's last column (the one interactive step), then the assembly whose
/// contract fixes the whole new round key for every SubWord result.
fn aes128_keyschedule_round<Protocol: GF8InvBlackBox>(
    party: &mut Protocol,
    rk: &AesKeyState,
    rcon: GF8,
) -> (r: MpcResult<AesKeyState>)
    requires
        rk.wf(),
    ensures
        r matches Ok(out) ==> out.wf() && key_words_chained(out, *rk),
{
    let mut rot_i: Vec<GF8> = Vec::new();
    rot_i.push(rk.si[7]);
    rot_i.push(rk.si[11]);
    rot_i.push(rk.si[15]);
    rot_i.push(rk.si[3]);
    let mut rot_ii: Vec<GF8> = Vec::new();
    rot_ii.push(rk.sii[7]);
    rot_ii.push(rk.sii[11]);
    rot_ii.push(rk.sii[15]);
    rot_ii.push(rk.sii[3]);
    match sbox_layer(party, &mut rot_i, &mut rot_ii) {
        Ok(u) => u,
        Err(e) => {
            return Err(e);
        },
    }
    let rcon_share = party.constant(rcon);
    let out = assemble_round_key(rk, &rot_i, &rot_ii, rcon_share);
    proof {
        lemma_assembled_words_chained(out, *rk, rot_i@, rot_ii@, rcon_share);
    }
    Ok(out)
}

/// The AES-128 key schedule over shares: the shared cipher key expanded
/// into 11 round keys; only the SubWord steps are interactive.
pub fn aes128_keyschedule<Protocol: GF8InvBlackBox>(
    party: &mut Protocol,
    key: Vec<RssShare>,
) -> (r: MpcResult<Vec<AesKeyState>>)
    requires
        key@.len() == 16,
    ensures
        r matches Ok(ks) ==> ks@.len() == 11 && (forall|i: int|
            0 <= i < ks@.len() ==> (#[trigger] ks@[i]).wf()) && ks@[0].si_bytes()
            == transpose_blocks(rss_si_bytes(key@)) && ks@[0].sii_bytes() == transpose_blocks(
            rss_sii_bytes(key@),
        ) && (forall|t: int| 1 <= t < 11 ==> key_words_chained(#[trigger] ks@[t], ks@[t - 1])),
{
    let mut ks: Vec<AesKeyState> = Vec::new();
    ks.push(AesKeyState::from_bytes(key));
    let mut i: usize = 1;
    while i <= 10
        invariant
            ks@.len() == i,
            1 <= i <= 11,
            forall|t: int| 0 <= t < i ==> (#[trigger] ks@[t]).wf(),
            ks@[0].si_bytes() == transpose_blocks(rss_si_bytes(key@)),
            ks@[0].sii_bytes() == transpose_blocks(rss_sii_bytes(key@)),
            forall|t: int| 1 <= t < i ==> key_words_chained(#[trigger] ks@[t], ks@[t - 1]),
        decreases 11 - i,
    {
        let rki = match aes128_keyschedule_round(party, &ks[i - 1], round_constant(i - 1)) {
            Ok(k) => k,
            Err(e) => {
                return Err(e);
            },
        };
        ks.push(rki);
        i = i + 1;
    }
    Ok(ks)
}

/// The AES-256 key schedule over shares: 15 round keys from a 32-byte
/// shared key. A RotWord step and a rotation-free SubWord step alternate,
/// and round constants apply only on the RotWord steps; either way the
/// assembly around the SubWord result is the verified word recurrence.
pub fn aes256_keyschedule<Protocol: GF8InvBlackBox>(
    party: &mut Protocol,
    key: Vec<RssShare>,
) -> (r: MpcResult<Vec<AesKeyState>>)
    requires
        key@.len() == 32,
    ensures
        r matches Ok(ks) ==> ks@.len() == 15 && (forall|i: int|
            0 <= i < ks@.len() ==> (#[trigger] ks@[i]).wf()) && ks@[0].si_bytes()
            == transpose_blocks(rss_si_bytes(key@.subrange(0, 16))) && ks@[0].sii_bytes()
            == transpose_blocks(rss_sii_bytes(key@.subrange(0, 16))) && ks@[1].si_bytes()
            == transpose_blocks(rss_si_bytes(key@.subrange(16, 32))) && ks@[1].sii_bytes()
            == transpose_blocks(rss_sii_bytes(key@.subrange(16, 32))),
{
    let ghost whole_key: Seq<RssShare> = key@;
    let mut key = key;
    let key2 = key.split_off(16);
    let mut ks: Vec<AesKeyState> = Vec::new();
    ks.push(AesKeyState::from_bytes(key));
    ks.push(AesKeyState::from_bytes(key2));

    let mut i: usize = 1;
    while i <= 7
        invariant
            1 <= i <= 8,
            ks@.len() == (if i <= 7 { 2 * i } else { 15int }),
            forall|t: int| 0 <= t < ks@.len() ==> (#[trigger] ks@[t]).wf(),
            ks@[0].si_bytes() == transpose_blocks(rss_si_bytes(whole_key.subrange(0, 16))),
            ks@[0].sii_bytes() == transpose_blocks(rss_sii_bytes(whole_key.subrange(0, 16))),
            ks@[1].si_bytes() == transpose_blocks(rss_si_bytes(whole_key.subrange(16, 32))),
            ks@[1].sii_bytes() == transpose_blocks(rss_sii_bytes(whole_key.subrange(16, 32))),
            forall|t: int| 2 <= t < ks@.len() ==> key_words_chained(#[trigger] ks@[t], ks@[t - 2]),
        decreases 8 - i,
    {
        let mut rot_i: Vec<GF8> = Vec::new();
        let mut rot_ii: Vec<GF8> = Vec::new();
        {
            let prev = &ks[2 * i - 1];
            rot_i.push(prev.si[7]);
            rot_i.push(prev.si[11]);
            rot_i.push(prev.si[15]);
            rot_i.push(prev.si[3]);
            rot_ii.push(prev.sii[7]);
            rot_ii.push(prev.sii[11]);
            rot_ii.push(prev.sii[15]);
            rot_ii.push(prev.sii[3]);
        }
        match sbox_layer(party, &mut rot_i, &mut rot_ii) {
            Ok(u) => u,
            Err(e) => {
                return Err(e);
            },
        }
        let rcon = party.constant(round_constant(i - 1));
        let rki = assemble_round_key(&ks[2 * i - 2], &rot_i, &rot_ii, rcon);
        proof {
            lemma_assembled_words_chained(rki, ks@[2 * i - 2], rot_i@, rot_ii@, rcon);
        }
        ks.push(rki);

        if i < 7 {
            let mut sub_i: Vec<GF8> = Vec::new();
            let mut sub_ii: Vec<GF8> = Vec::new();
            {
                let last = &ks[2 * i];
                sub_i.push(last.si[3]);
                sub_i.push(last.si[7]);
                sub_i.push(last.si[11]);
                sub_i.push(last.si[15]);
                sub_ii.push(last.sii[3]);
                sub_ii.push(last.sii[7]);
                sub_ii.push(last.sii[11]);
                sub_ii.push(last.sii[15]);
            }
            match sbox_layer(party, &mut sub_i, &mut sub_ii) {
                Ok(u) => u,
                Err(e) => {
                    return Err(e);
                },
            }
            // no rotation and no round constant on this step: the word
            // recurrence runs with a zero constant share
            let zero_rcon = RssShare::from(GF8(0), GF8(0));
            let rki2 = assemble_round_key(&ks[2 * i - 1], &sub_i, &sub_ii, zero_rcon);
            proof {
                lemma_assembled_words_chained(rki2, ks@[2 * i - 1], sub_i@, sub_ii@, zero_rcon);
            }
            ks.push(rki2);
        }
        i = i + 1;
    }
    Ok(ks)
}

/// A key schedule of all-zero round keys, one more than the round count.
pub fn zero_keyschedule(variant: AesVariant) -> (r: Vec<AesKeyState>)
    ensures
        r@.len() == variant.n_rounds() + 1,
        forall|i: int| 0 <= i < r@.len() ==> (#[trigger] r@[i]).wf(),
        forall|i: int|
            0 <= i < r@.len() ==> (#[trigger] r@[i]).si_bytes() == Seq::new(16, |m: int| 0u8)
                && r@[i].sii_bytes() == Seq::new(16, |m: int| 0u8),
{
    let count: usize = variant.n_rounds() + 1;
    let mut out: Vec<AesKeyState> = Vec::new();
    let mut i: usize = 0;
    while i < count
        invariant
            out@.len() == i,
            i <= count,
            forall|t: int| 0 <= t < i ==> (#[trigger] out@[t]).wf(),
            forall|t: int|
                0 <= t < i ==> (#[trigger] out@[t]).si_bytes() == Seq::new(16, |m: int| 0u8)
                    && out@[t].sii_bytes() == Seq::new(16, |m: int| 0u8),
        decreases count - i,
    {
        out.push(AesKeyState::new());
        i = i + 1;
    }
    out
}

} // verus!
