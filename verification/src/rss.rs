//! Replicated secret shares: the pair of additive sub-shares of a secret
//! byte that one of the three parties holds. Addition, negation and
//! multiplication by a public constant are local, component-wise field
//! operations; that linearity is what keeps every round transform except
//! the S-box inversion free of communication.
use vstd::prelude::*;
use crate::gf8::{GF8, gf8_mul};

verus! {

/// One party's two additive sub-shares of a secret byte. Across the ring,
/// each party's `sii` equals its next neighbour's `si`, and the secret is
/// the XOR of the three distinct sub-shares.
#[derive(Clone, Copy, PartialEq, Eq, Structural, Debug)]
pub struct RssShare {
    pub si: GF8,
    pub sii: GF8,
}

impl RssShare {
    /// Pack two sub-shares into a share pair.
    pub fn from(si: GF8, sii: GF8) -> (r: RssShare)
        ensures
            r.si == si,
            r.sii == sii,
    {
        RssShare { si, sii }
    }

    /// Local share addition: adding both components of two sharings yields
    /// a sharing of the sum of the secrets.
    pub fn add(self, other: RssShare) -> (r: RssShare)
        ensures
            r.si.0 == self.si.0 ^ other.si.0,
            r.sii.0 == self.sii.0 ^ other.sii.0,
    {
        RssShare { si: self.si.add(other.si), sii: self.sii.add(other.sii) }
    }

    /// Local multiplication by a public constant: scaling both components
    /// scales the secret, since multiplication distributes over XOR.
    pub fn mul_public(self, c: GF8) -> (r: RssShare)
        ensures
            r.si.0 == gf8_mul(c.0, self.si.0),
            r.sii.0 == gf8_mul(c.0, self.sii.0),
    {
        RssShare { si: c.mul(self.si), sii: c.mul(self.sii) }
    }
}


/// Separate a vector of share pairs into its two component vectors, the
/// local step before a reveal hands both components to the output protocol.
pub fn unzip_shares(shares: &Vec<RssShare>) -> (r: (Vec<GF8>, Vec<GF8>))
    ensures
        r.0@.len() == shares@.len(),
        r.1@.len() == shares@.len(),
        forall|i: int| 0 <= i < shares@.len() ==> #[trigger] r.0@[i] == shares@[i].si,
        forall|i: int| 0 <= i < shares@.len() ==> #[trigger] r.1@[i] == shares@[i].sii,
{
    let len: usize = shares.len();
    let mut si: Vec<GF8> = Vec::new();
    let mut sii: Vec<GF8> = Vec::new();
    let mut i: usize = 0;
    while i < len
        invariant
            shares@.len() == len,
            si@.len() == i,
            sii@.len() == i,
            i <= len,
            forall|t: int| 0 <= t < i ==> #[trigger] si@[t] == shares@[t].si,
            forall|t: int| 0 <= t < i ==> #[trigger] sii@[t] == shares@[t].sii,
        decreases len - i,
    {
        si.push(shares[i].si);
        sii.push(shares[i].sii);
        i = i + 1;
    }
    (si, sii)
}


/// Reconstruct revealed bytes: a party's own two sub-shares XORed with the
/// third sub-share received from its next neighbour, position by position.
pub fn reveal_bytes(shares: &Vec<RssShare>, third: &Vec<GF8>) -> (r: Vec<u8>)
    requires
        shares@.len() == third@.len(),
    ensures
        r@.len() == shares@.len(),
        forall|i: int|
            0 <= i < r@.len() ==> #[trigger] r@[i] == ((shares@[i].si.0 ^ shares@[i].sii.0)
                ^ third@[i].0),
{
    let len: usize = shares.len();
    let mut out: Vec<u8> = Vec::new();
    let mut i: usize = 0;
    while i < len
        invariant
            shares@.len() == len,
            third@.len() == len,
            out@.len() == i,
            i <= len,
            forall|t: int|
                0 <= t < i ==> #[trigger] out@[t] == ((shares@[t].si.0 ^ shares@[t].sii.0)
                    ^ third@[t].0),
        decreases len - i,
    {
        out.push((shares[i].si.0 ^ shares[i].sii.0) ^ third[i].0);
        i = i + 1;
    }
    out
}

} // verus!
