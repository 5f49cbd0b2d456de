//! The secret-sharing protocols' local computations. Input sharing splits
//! one party's cleartext into a replicated sharing that it distributes to
//! its ring neighbours; key sharing blinds each party's key fragment and
//! combines the blinded values into a replicated sharing of the XOR of all
//! three fragments. The network exchange itself is a collaborator concern:
//! these functions compute exactly what is kept, sent and combined, and the
//! lemmas state that the three parties' results reconstruct the secrets and
//! respect the ring convention (each party's `sii` equals its next
//! neighbour's `si`).
use vstd::prelude::*;
use crate::gf8::{GF8, lemma_xor_self, lemma_xor_zero, lemma_xor_comm};
use crate::rss::RssShare;

verus! {

/// The first sub-share the owner of secret byte `b` keeps when splitting
/// with blind `r`: the blind itself.
pub open spec fn split_si(b: u8, r: u8) -> u8 {
    r
}

/// The second sub-share: the secret masked by the blind, so that the two
/// sub-shares XOR back to the secret.
pub open spec fn split_sii(b: u8, r: u8) -> u8 {
    b ^ r
}

/// Split one secret byte with one random blind: the pair `(r, b XOR r)`.
/// The owner keeps the pair; in input sharing it sends `sii` to its next
/// neighbour and `si` to its previous neighbour.
pub fn split_secret(b: GF8, rand: GF8) -> (r: RssShare)
    ensures
        r.si.0 == split_si(b.0, rand.0),
        r.sii.0 == split_sii(b.0, rand.0),
{
    RssShare { si: rand, sii: GF8(b.0 ^ rand.0) }
}

/// The pair party `p` holds after input sharing of byte `b` with blind `r`:
/// the owner (party 0) keeps both sub-shares, its next neighbour receives
/// the masked byte, its previous neighbour receives the blind, and the
/// missing positions are zero by convention.
pub open spec fn input_share_pair(b: u8, r: u8, p: int) -> (u8, u8) {
    if p == 0 {
        (split_si(b, r), split_sii(b, r))
    } else if p == 1 {
        (split_sii(b, r), 0u8)
    } else {
        (0u8, split_si(b, r))
    }
}

/// The ring position after `p`.
pub open spec fn next_party(p: int) -> int {
    if p == 2 {
        0int
    } else {
        p + 1
    }
}

/// Input sharing is correct for every byte and every blind: the three
/// distinct sub-shares XOR back to the input byte, and the three pairs are
/// consistent under the ring convention, each party's `sii` being its next
/// neighbour's `si`.
pub proof fn lemma_input_sharing_reconstructs(b: u8, r: u8)
    ensures
        (input_share_pair(b, r, 0).0 ^ input_share_pair(b, r, 1).0) ^ input_share_pair(b, r, 2).0
            == b,
        forall|p: int|
            0 <= p < 3 ==> (#[trigger] input_share_pair(b, r, p)).1 == input_share_pair(
                b,
                r,
                next_party(p),
            ).0,
{
    lemma_xor_self(b, r);
    lemma_xor_comm(r, b ^ r);
    lemma_xor_zero((r ^ (b ^ r)) as u8);
}

/// The batch form of the owner's side of input sharing: one share pair per
/// input byte, each split with its own blind. The `sii` components form the
/// message to the next neighbour and the `si` components the message to the
/// previous neighbour.
pub fn share_input_owner(bytes: &Vec<u8>, rand: &Vec<u8>) -> (r: Vec<RssShare>)
    requires
        bytes@.len() == rand@.len(),
    ensures
        r@.len() == bytes@.len(),
        forall|i: int|
            0 <= i < r@.len() ==> (#[trigger] r@[i]).si.0 == split_si(bytes@[i], rand@[i])
                && r@[i].sii.0 == split_sii(bytes@[i], rand@[i]),
{
    let len: usize = bytes.len();
    let mut out: Vec<RssShare> = Vec::new();
    let mut i: usize = 0;
    while i < len
        invariant
            bytes@.len() == len,
            rand@.len() == len,
            out@.len() == i,
            i <= len,
            forall|t: int|
                0 <= t < i ==> (#[trigger] out@[t]).si.0 == split_si(bytes@[t], rand@[t])
                    && out@[t].sii.0 == split_sii(bytes@[t], rand@[t]),
        decreases len - i,
    {
        out.push(split_secret(GF8(bytes[i]), GF8(rand[i])));
        i = i + 1;
    }
    out
}

/// The receivers' side of input sharing: the next neighbour of the owner
/// holds each received byte as `(byte, 0)`, the previous neighbour as
/// `(0, byte)`, per the fixed replicated-sharing convention. Non-owning
/// parties never choose randomness.
pub fn receive_input_shares(received: &Vec<GF8>, is_next_of_owner: bool) -> (r: Vec<RssShare>)
    ensures
        r@.len() == received@.len(),
        is_next_of_owner ==> forall|i: int|
            0 <= i < r@.len() ==> (#[trigger] r@[i]).si == received@[i] && r@[i].sii.0 == 0,
        !is_next_of_owner ==> forall|i: int|
            0 <= i < r@.len() ==> (#[trigger] r@[i]).si.0 == 0 && r@[i].sii == received@[i],
{
    let len: usize = received.len();
    let mut out: Vec<RssShare> = Vec::new();
    let mut i: usize = 0;
    while i < len
        invariant
            received@.len() == len,
            out@.len() == i,
            i <= len,
            is_next_of_owner ==> forall|t: int|
                0 <= t < i ==> (#[trigger] out@[t]).si == received@[t] && out@[t].sii.0 == 0,
            !is_next_of_owner ==> forall|t: int|
                0 <= t < i ==> (#[trigger] out@[t]).si.0 == 0 && out@[t].sii == received@[t],
        decreases len - i,
    {
        if is_next_of_owner {
            out.push(RssShare { si: received[i], sii: GF8(0) });
        } else {
            out.push(RssShare { si: GF8(0), sii: received[i] });
        }
        i = i + 1;
    }
    out
}

/// Combine the pair a party kept from blinding its own fragment with the
/// two values received from its neighbours: the blinded fragment of the
/// previous party joins `si`, the blind of the next party joins `sii`.
pub fn keyshare_combine(own: RssShare, from_prev: GF8, from_next: GF8) -> (r: RssShare)
    ensures
        r.si.0 == (own.si.0 ^ from_prev.0),
        r.sii.0 == (own.sii.0 ^ from_next.0),
{
    RssShare { si: own.si.add(from_prev), sii: own.sii.add(from_next) }
}

/// The pair party `p` ends key sharing with, given the three fragments and
/// the three blinds: its own blind joined with the previous party's blinded
/// fragment, and its own blinded fragment joined with the next party's
/// blind.
pub open spec fn keyshare_pair(f0: u8, f1: u8, f2: u8, r0: u8, r1: u8, r2: u8, p: int) -> (
    u8,
    u8,
) {
    if p == 0 {
        (split_si(f0, r0) ^ split_sii(f2, r2), split_sii(f0, r0) ^ split_si(f1, r1))
    } else if p == 1 {
        (split_si(f1, r1) ^ split_sii(f0, r0), split_sii(f1, r1) ^ split_si(f2, r2))
    } else {
        (split_si(f2, r2) ^ split_sii(f1, r1), split_sii(f2, r2) ^ split_si(f0, r0))
    }
}

/// Key sharing is correct for all fragments and all blinds: the three
/// distinct sub-shares XOR to the XOR of the three fragments (the effective
/// shared key), and the three pairs are consistent under the ring
/// convention. No single message reveals a fragment: every message is
/// either a blind or a fragment masked by a blind.
pub proof fn lemma_key_sharing_reconstructs(f0: u8, f1: u8, f2: u8, r0: u8, r1: u8, r2: u8)
    ensures
        (keyshare_pair(f0, f1, f2, r0, r1, r2, 0).0 ^ keyshare_pair(f0, f1, f2, r0, r1, r2, 1).0)
            ^ keyshare_pair(f0, f1, f2, r0, r1, r2, 2).0 == (f0 ^ f1) ^ f2,
        forall|p: int|
            0 <= p < 3 ==> (#[trigger] keyshare_pair(f0, f1, f2, r0, r1, r2, p)).1 == keyshare_pair(
                f0,
                f1,
                f2,
                r0,
                r1,
                r2,
                next_party(p),
            ).0,
{
    assert(((r0 ^ (f2 ^ r2)) ^ (r1 ^ (f0 ^ r0))) ^ (r2 ^ (f1 ^ r1)) == (f0 ^ f1) ^ f2)
        by (bit_vector);
    assert(((f0 ^ r0) ^ r1) == (r1 ^ (f0 ^ r0)) && ((f1 ^ r1) ^ r2) == (r2 ^ (f1 ^ r1)) && ((f2
        ^ r2) ^ r0) == (r0 ^ (f2 ^ r2))) by (bit_vector);
}

/// The effective shared key: the XOR of the three parties' fragments,
/// position by position. No party ever computes this in the protocol; it is
/// the reference value that key sharing produces a sharing of.
pub fn combined_key(f0: &Vec<u8>, f1: &Vec<u8>, f2: &Vec<u8>) -> (r: Vec<u8>)
    requires
        f0@.len() == f1@.len(),
        f1@.len() == f2@.len(),
    ensures
        r@.len() == f0@.len(),
        forall|i: int| 0 <= i < r@.len() ==> #[trigger] r@[i] == (f0@[i] ^ f1@[i]) ^ f2@[i],
{
    let len: usize = f0.len();
    let mut out: Vec<u8> = Vec::new();
    let mut i: usize = 0;
    while i < len
        invariant
            f0@.len() == len,
            f1@.len() == len,
            f2@.len() == len,
            out@.len() == i,
            i <= len,
            forall|t: int| 0 <= t < i ==> #[trigger] out@[t] == (f0@[t] ^ f1@[t]) ^ f2@[t],
        decreases len - i,
    {
        out.push((f0[i] ^ f1[i]) ^ f2[i]);
        i = i + 1;
    }
    out
}


} // verus!
