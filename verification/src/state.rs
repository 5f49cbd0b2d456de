//! The vectorized AES state: a batch of N 4x4 byte grids in replicated-share
//! form, stored row-major as two parallel vectors of field elements, and the
//! 16-byte round-key state. Wire order is column-major (the FIPS layout), so
//! marshalling performs a fixed 4x4 transpose per block.
use vstd::prelude::*;
use crate::gf8::GF8;
use crate::rss::RssShare;
use crate::model::{
    shift_rows_block, inv_shift_rows_block, mix_columns_block, inv_mix_columns_block, mix_entry,
    inv_mix_entry, mix_row0, mix_row1, mix_row2, mix_row3, inv_mix_row0, inv_mix_row1,
    inv_mix_row2, inv_mix_row3,
};

verus! {

/// Block `k` of a row-major byte sequence.
pub open spec fn block_of(s: Seq<u8>, k: int) -> Seq<u8> {
    s.subrange(16 * k, 16 * k + 16)
}

/// The bytes held in a sequence of field elements.
pub open spec fn gf8_bytes(s: Seq<GF8>) -> Seq<u8> {
    s.map_values(|g: GF8| g.0)
}

/// The `si` components of a sequence of share pairs.
pub open spec fn rss_si_bytes(s: Seq<RssShare>) -> Seq<u8> {
    s.map_values(|x: RssShare| x.si.0)
}

/// The `sii` components of a sequence of share pairs.
pub open spec fn rss_sii_bytes(s: Seq<RssShare>) -> Seq<u8> {
    s.map_values(|x: RssShare| x.sii.0)
}

/// The fixed 4x4 transpose applied to every 16-byte block: entry (i, j) of
/// each block is read from entry (j, i). Converting between wire order
/// (column-major) and internal order (row-major) is exactly this map, in
/// either direction.
pub open spec fn transpose_blocks(s: Seq<u8>) -> Seq<u8> {
    Seq::new(s.len(), |m: int| s[16 * (m / 16) + 4 * ((m % 16) % 4) + ((m % 16) / 4)])
}

/// The per-block transpose is an involution: marshalling a state out and in
/// again returns the original bytes.
pub proof fn lemma_transpose_involution(s: Seq<u8>)
    requires
        s.len() % 16 == 0,
    ensures
        transpose_blocks(transpose_blocks(s)) == s,
{
    assert forall|m: int| 0 <= m < s.len() implies transpose_blocks(transpose_blocks(s))[m]
        == s[m] by {
        let k = m / 16;
        let q = m % 16;
        let i = q / 4;
        let j = q % 4;
        assert(0 <= q < 16 && 0 <= i < 4 && 0 <= j < 4);
        let src = 16 * k + 4 * j + i;
        assert(m == 16 * k + q && q == 4 * i + j) by (nonlinear_arith)
            requires
                k == m / 16,
                q == m % 16,
                i == q / 4,
                j == q % 4,
        ;
        assert(src < s.len() && s.len() % 16 == 0 ==> src < s.len()) by (nonlinear_arith)
            requires
                0 <= m < s.len(),
                s.len() % 16 == 0,
                k == m / 16,
                src == 16 * k + 4 * j + i,
                0 <= 4 * j + i < 16,
                m == 16 * k + q,
                0 <= q < 16,
        ;
        assert(src / 16 == k && src % 16 == 4 * j + i) by (nonlinear_arith)
            requires
                src == 16 * k + 4 * j + i,
                0 <= 4 * j + i < 16,
                k >= 0,
        ;
        assert((4 * j + i) % 4 == i && (4 * j + i) / 4 == j) by (nonlinear_arith)
            requires
                0 <= i < 4,
                0 <= j < 4,
        ;
    }
    assert(transpose_blocks(transpose_blocks(s)) =~= s);
}

/// A batch of `n` AES states in replicated-share form. The two component
/// vectors run in parallel: entry `16k + 4i + j` of each is row `i`,
/// column `j` of block `k`.
#[derive(Clone)]
pub struct VectorAesState {
    pub si: Vec<GF8>,
    pub sii: Vec<GF8>,
    pub n: usize,
}

impl VectorAesState {
    /// Both component vectors hold exactly 16 field elements per block.
    pub open spec fn wf(self) -> bool {
        self.si@.len() == 16 * self.n && self.sii@.len() == 16 * self.n
    }

    /// The bytes of the first share component, row-major.
    pub open spec fn si_bytes(self) -> Seq<u8> {
        gf8_bytes(self.si@)
    }

    /// The bytes of the second share component, row-major.
    pub open spec fn sii_bytes(self) -> Seq<u8> {
        gf8_bytes(self.sii@)
    }

    /// An all-zero batch of `n` blocks.
    pub fn new(n: usize) -> (r: Self)
        requires
            16 * n <= usize::MAX,
        ensures
            r.wf(),
            r.n == n,
            r.si_bytes() == Seq::new(16 * n as nat, |m: int| 0u8),
            r.sii_bytes() == Seq::new(16 * n as nat, |m: int| 0u8),
    {
        let len: usize = 16 * n;
        let r = Self { si: zero_elements(len), sii: zero_elements(len), n };
        proof {
            assert(r.si_bytes() =~= Seq::new(16 * n as nat, |m: int| 0u8));
            assert(r.sii_bytes() =~= Seq::new(16 * n as nat, |m: int| 0u8));
        }
        r
    }

    /// Unpack wire-order (column-major) shares into a state, transposing
    /// each 16-byte block into row-major order.
    pub fn from_bytes(bytes: Vec<RssShare>) -> (r: Self)
        requires
            bytes@.len() % 16 == 0,
        ensures
            r.wf(),
            16 * r.n == bytes@.len(),
            r.si_bytes() == transpose_blocks(rss_si_bytes(bytes@)),
            r.sii_bytes() == transpose_blocks(rss_sii_bytes(bytes@)),
    {
        let len: usize = bytes.len();
        let mut si: Vec<GF8> = Vec::new();
        let mut sii: Vec<GF8> = Vec::new();
        let mut m: usize = 0;
        while m < len
            invariant
                len == bytes@.len(),
                len % 16 == 0,
                m <= len,
                si@.len() == m,
                sii@.len() == m,
                forall|t: int|
                    0 <= t < m ==> #[trigger] si@[t].0 == transpose_blocks(rss_si_bytes(bytes@))[t],
                forall|t: int|
                    0 <= t < m ==> #[trigger] sii@[t].0 == transpose_blocks(
                        rss_sii_bytes(bytes@),
                    )[t],
            decreases len - m,
        {
            let src: usize = transpose_index(m, len);
            si.push(bytes[src].si);
            sii.push(bytes[src].sii);
            m = m + 1;
        }
        let n: usize = len / 16;
        proof {
            assert(16 * (len / 16) == len) by (nonlinear_arith)
                requires
                    len % 16 == 0,
            ;
        }
        let r = Self { si, sii, n };
        proof {
            assert(r.si_bytes() =~= transpose_blocks(rss_si_bytes(bytes@)));
            assert(r.sii_bytes() =~= transpose_blocks(rss_sii_bytes(bytes@)));
        }
        r
    }

    /// Pack the state back into wire-order (column-major) shares; the same
    /// per-block transpose as `from_bytes`, in the other direction.
    pub fn to_bytes(&self) -> (r: Vec<RssShare>)
        requires
            self.wf(),
        ensures
            r@.len() == 16 * self.n,
            rss_si_bytes(r@) == transpose_blocks(self.si_bytes()),
            rss_sii_bytes(r@) == transpose_blocks(self.sii_bytes()),
    {
        let len: usize = self.si.len();
        let mut out: Vec<RssShare> = Vec::new();
        let mut m: usize = 0;
        proof {
            assert(len % 16 == 0) by (nonlinear_arith)
                requires
                    len == 16 * self.n,
            ;
        }
        while m < len
            invariant
                self.wf(),
                len == self.si@.len(),
                len % 16 == 0,
                m <= len,
                out@.len() == m,
                forall|t: int|
                    0 <= t < m ==> #[trigger] out@[t].si.0 == transpose_blocks(self.si_bytes())[t],
                forall|t: int|
                    0 <= t < m ==> #[trigger] out@[t].sii.0 == transpose_blocks(
                        self.sii_bytes(),
                    )[t],
            decreases len - m,
        {
            let src: usize = transpose_index(m, len);
            out.push(RssShare::from(self.si[src], self.sii[src]));
            m = m + 1;
        }
        proof {
            assert(rss_si_bytes(out@) =~= transpose_blocks(self.si_bytes()));
            assert(rss_sii_bytes(out@) =~= transpose_blocks(self.sii_bytes()));
        }
        out
    }

    /// Concatenate another batch onto this one; the blocks of `other`
    /// follow the blocks of `self` and the batch sizes add.
    pub fn append(&mut self, other: Self)
        requires
            old(self).wf(),
            other.wf(),
        ensures
            final(self).wf(),
            final(self).n == old(self).n + other.n,
            final(self).si@ == old(self).si@ + other.si@,
            final(self).sii@ == old(self).sii@ + other.sii@,
    {
        let mut other = other;
        self.si.append(&mut other.si);
        self.sii.append(&mut other.sii);
        let len: usize = self.si.len();
        proof {
            assert(self.n + other.n <= 16 * self.n + 16 * other.n) by (nonlinear_arith);
            assert(len == 16 * (self.n + other.n)) by (nonlinear_arith)
                requires
                    len == 16 * self.n + 16 * other.n,
            ;
        }
        self.n = self.n + other.n;
    }

    /// Replace the four entries at `start..start + 4` of both components by
    /// the entries at the four given offsets from `start`; everything else
    /// is unchanged.
    fn permute4(&mut self, start: usize, p0: usize, p1: usize, p2: usize, p3: usize)
        requires
            old(self).wf(),
            start + 4 <= old(self).si@.len(),
            p0 < 4,
            p1 < 4,
            p2 < 4,
            p3 < 4,
        ensures
            final(self).wf(),
            final(self).n == old(self).n,
            final(self).si@[start as int] == old(self).si@[start + p0],
            final(self).si@[start + 1] == old(self).si@[start + p1],
            final(self).si@[start + 2] == old(self).si@[start + p2],
            final(self).si@[start + 3] == old(self).si@[start + p3],
            final(self).sii@[start as int] == old(self).sii@[start + p0],
            final(self).sii@[start + 1] == old(self).sii@[start + p1],
            final(self).sii@[start + 2] == old(self).sii@[start + p2],
            final(self).sii@[start + 3] == old(self).sii@[start + p3],
            forall|t: int|
                0 <= t < old(self).si@.len() && !(start <= t < start + 4)
                    ==> final(self).si@[t] == old(self).si@[t] && final(self).sii@[t] == old(
                    self,
                ).sii@[t],
    {
        let l: usize = self.si.len();
        assert(start + 4 <= l);
        let ti0: GF8 = self.si[start];
        let ti1: GF8 = self.si[start + 1];
        let ti2: GF8 = self.si[start + 2];
        let ti3: GF8 = self.si[start + 3];
        let tii0: GF8 = self.sii[start];
        let tii1: GF8 = self.sii[start + 1];
        let tii2: GF8 = self.sii[start + 2];
        let tii3: GF8 = self.sii[start + 3];
        self.si.set(start, select4(ti0, ti1, ti2, ti3, p0));
        self.si.set(start + 1, select4(ti0, ti1, ti2, ti3, p1));
        self.si.set(start + 2, select4(ti0, ti1, ti2, ti3, p2));
        self.si.set(start + 3, select4(ti0, ti1, ti2, ti3, p3));
        self.sii.set(start, select4(tii0, tii1, tii2, tii3, p0));
        self.sii.set(start + 1, select4(tii0, tii1, tii2, tii3, p1));
        self.sii.set(start + 2, select4(tii0, tii1, tii2, tii3, p2));
        self.sii.set(start + 3, select4(tii0, tii1, tii2, tii3, p3));
    }

    /// ShiftRows on every block: row `r` rotated left by `r` positions.
    pub fn shift_rows(&mut self)
        requires
            old(self).wf(),
        ensures
            final(self).wf(),
            final(self).n == old(self).n,
            forall|k: int|
                0 <= k < old(self).n ==> #[trigger] block_of(final(self).si_bytes(), k)
                    == shift_rows_block(block_of(old(self).si_bytes(), k)) && block_of(
                    final(self).sii_bytes(),
                    k,
                ) == shift_rows_block(block_of(old(self).sii_bytes(), k)),
    {
        let ghost orig: VectorAesState = *self;
        let n: usize = self.n;
        let total: usize = self.si.len();
        let mut i: usize = 0;
        while i < n
            invariant
                self.wf(),
                self.n == n,
                orig.wf(),
                orig.n == n,
                16 * n == total,
                i <= n,
                forall|t: int|
                    16 * i <= t < 16 * n ==> #[trigger] self.si@[t] == orig.si@[t]
                        && self.sii@[t] == orig.sii@[t],
                forall|k: int|
                    0 <= k < i ==> #[trigger] block_of(self.si_bytes(), k) == shift_rows_block(
                        block_of(orig.si_bytes(), k),
                    ) && block_of(self.sii_bytes(), k) == shift_rows_block(
                        block_of(orig.sii_bytes(), k),
                    ),
            decreases n - i,
        {
            proof {
                assert(16 * i + 16 <= 16 * n) by (nonlinear_arith)
                    requires
                        i < n,
                ;
            }
            let ghost pre: VectorAesState = *self;
            let base: usize = 16 * i;
            self.permute4(base + 4, 1, 2, 3, 0);
            self.permute4(base + 8, 2, 3, 0, 1);
            self.permute4(base + 12, 3, 0, 1, 2);
            proof {
                lemma_rows_shifted(*self, pre, i as int, true);
                assert forall|k: int| 0 <= k < i + 1 implies #[trigger] block_of(
                    self.si_bytes(),
                    k,
                ) == shift_rows_block(block_of(orig.si_bytes(), k)) && block_of(
                    self.sii_bytes(),
                    k,
                ) == shift_rows_block(block_of(orig.sii_bytes(), k)) by {
                    if k < i {
                        assert(block_of(self.si_bytes(), k) =~= block_of(pre.si_bytes(), k));
                        assert(block_of(self.sii_bytes(), k) =~= block_of(pre.sii_bytes(), k));
                    } else {
                        assert(block_of(pre.si_bytes(), k) =~= block_of(orig.si_bytes(), k));
                        assert(block_of(pre.sii_bytes(), k) =~= block_of(orig.sii_bytes(), k));
                    }
                }
            }
            i = i + 1;
        }
    }

    /// InvShiftRows on every block: row `r` rotated right by `r` positions.
    pub fn inv_shift_rows(&mut self)
        requires
            old(self).wf(),
        ensures
            final(self).wf(),
            final(self).n == old(self).n,
            forall|k: int|
                0 <= k < old(self).n ==> #[trigger] block_of(final(self).si_bytes(), k)
                    == inv_shift_rows_block(block_of(old(self).si_bytes(), k)) && block_of(
                    final(self).sii_bytes(),
                    k,
                ) == inv_shift_rows_block(block_of(old(self).sii_bytes(), k)),
    {
        let ghost orig: VectorAesState = *self;
        let n: usize = self.n;
        let total: usize = self.si.len();
        let mut i: usize = 0;
        while i < n
            invariant
                self.wf(),
                self.n == n,
                orig.wf(),
                orig.n == n,
                16 * n == total,
                i <= n,
                forall|t: int|
                    16 * i <= t < 16 * n ==> #[trigger] self.si@[t] == orig.si@[t]
                        && self.sii@[t] == orig.sii@[t],
                forall|k: int|
                    0 <= k < i ==> #[trigger] block_of(self.si_bytes(), k) == inv_shift_rows_block(
                        block_of(orig.si_bytes(), k),
                    ) && block_of(self.sii_bytes(), k) == inv_shift_rows_block(
                        block_of(orig.sii_bytes(), k),
                    ),
            decreases n - i,
        {
            proof {
                assert(16 * i + 16 <= 16 * n) by (nonlinear_arith)
                    requires
                        i < n,
                ;
            }
            let ghost pre: VectorAesState = *self;
            let base: usize = 16 * i;
            self.permute4(base + 4, 3, 0, 1, 2);
            self.permute4(base + 8, 2, 3, 0, 1);
            self.permute4(base + 12, 1, 2, 3, 0);
            proof {
                lemma_rows_shifted(*self, pre, i as int, false);
                assert(block_of(self.si_bytes(), i as int) == inv_shift_rows_block(
                    block_of(pre.si_bytes(), i as int),
                ));
                assert(block_of(pre.si_bytes(), i as int) =~= block_of(orig.si_bytes(), i as int));
                assert(block_of(self.si_bytes(), i as int) == inv_shift_rows_block(
                    block_of(orig.si_bytes(), i as int),
                ));
                assert forall|k: int| 0 <= k < i + 1 implies #[trigger] block_of(
                    self.si_bytes(),
                    k,
                ) == inv_shift_rows_block(block_of(orig.si_bytes(), k)) && block_of(
                    self.sii_bytes(),
                    k,
                ) == inv_shift_rows_block(block_of(orig.sii_bytes(), k)) by {
                    if k < i {
                        assert(block_of(self.si_bytes(), k) =~= block_of(pre.si_bytes(), k));
                        assert(block_of(self.sii_bytes(), k) =~= block_of(pre.sii_bytes(), k));
                    } else {
                        assert(block_of(pre.si_bytes(), k) =~= block_of(orig.si_bytes(), k));
                        assert(block_of(pre.sii_bytes(), k) =~= block_of(orig.sii_bytes(), k));
                    }
                }
            }
            i = i + 1;
        }
    }

    /// MixColumns on the single block starting at `base`: every column
    /// is replaced by the fixed linear combination of its old entries,
    /// component-wise on both shares.
    #[verifier::rlimit(100)]
    #[verifier::spinoff_prover]
    fn mix_block(&mut self, base: usize)
        requires
            old(self).wf(),
            base + 16 <= old(self).si@.len(),
        ensures
            final(self).wf(),
            final(self).n == old(self).n,
            final(self).si@[base as int].0 == mix_row0(old(self).si@[base as int].0, old(self).si@[base + 4].0, old(self).si@[base + 8].0, old(self).si@[base + 12].0),
            final(self).si@[base + 1].0 == mix_row0(old(self).si@[base + 1].0, old(self).si@[base + 5].0, old(self).si@[base + 9].0, old(self).si@[base + 13].0),
            final(self).si@[base + 2].0 == mix_row0(old(self).si@[base + 2].0, old(self).si@[base + 6].0, old(self).si@[base + 10].0, old(self).si@[base + 14].0),
            final(self).si@[base + 3].0 == mix_row0(old(self).si@[base + 3].0, old(self).si@[base + 7].0, old(self).si@[base + 11].0, old(self).si@[base + 15].0),
            final(self).si@[base + 4].0 == mix_row1(old(self).si@[base as int].0, old(self).si@[base + 4].0, old(self).si@[base + 8].0, old(self).si@[base + 12].0),
            final(self).si@[base + 5].0 == mix_row1(old(self).si@[base + 1].0, old(self).si@[base + 5].0, old(self).si@[base + 9].0, old(self).si@[base + 13].0),
            final(self).si@[base + 6].0 == mix_row1(old(self).si@[base + 2].0, old(self).si@[base + 6].0, old(self).si@[base + 10].0, old(self).si@[base + 14].0),
            final(self).si@[base + 7].0 == mix_row1(old(self).si@[base + 3].0, old(self).si@[base + 7].0, old(self).si@[base + 11].0, old(self).si@[base + 15].0),
            final(self).si@[base + 8].0 == mix_row2(old(self).si@[base as int].0, old(self).si@[base + 4].0, old(self).si@[base + 8].0, old(self).si@[base + 12].0),
            final(self).si@[base + 9].0 == mix_row2(old(self).si@[base + 1].0, old(self).si@[base + 5].0, old(self).si@[base + 9].0, old(self).si@[base + 13].0),
            final(self).si@[base + 10].0 == mix_row2(old(self).si@[base + 2].0, old(self).si@[base + 6].0, old(self).si@[base + 10].0, old(self).si@[base + 14].0),
            final(self).si@[base + 11].0 == mix_row2(old(self).si@[base + 3].0, old(self).si@[base + 7].0, old(self).si@[base + 11].0, old(self).si@[base + 15].0),
            final(self).si@[base + 12].0 == mix_row3(old(self).si@[base as int].0, old(self).si@[base + 4].0, old(self).si@[base + 8].0, old(self).si@[base + 12].0),
            final(self).si@[base + 13].0 == mix_row3(old(self).si@[base + 1].0, old(self).si@[base + 5].0, old(self).si@[base + 9].0, old(self).si@[base + 13].0),
            final(self).si@[base + 14].0 == mix_row3(old(self).si@[base + 2].0, old(self).si@[base + 6].0, old(self).si@[base + 10].0, old(self).si@[base + 14].0),
            final(self).si@[base + 15].0 == mix_row3(old(self).si@[base + 3].0, old(self).si@[base + 7].0, old(self).si@[base + 11].0, old(self).si@[base + 15].0),
            final(self).sii@[base as int].0 == mix_row0(old(self).sii@[base as int].0, old(self).sii@[base + 4].0, old(self).sii@[base + 8].0, old(self).sii@[base + 12].0),
            final(self).sii@[base + 1].0 == mix_row0(old(self).sii@[base + 1].0, old(self).sii@[base + 5].0, old(self).sii@[base + 9].0, old(self).sii@[base + 13].0),
            final(self).sii@[base + 2].0 == mix_row0(old(self).sii@[base + 2].0, old(self).sii@[base + 6].0, old(self).sii@[base + 10].0, old(self).sii@[base + 14].0),
            final(self).sii@[base + 3].0 == mix_row0(old(self).sii@[base + 3].0, old(self).sii@[base + 7].0, old(self).sii@[base + 11].0, old(self).sii@[base + 15].0),
            final(self).sii@[base + 4].0 == mix_row1(old(self).sii@[base as int].0, old(self).sii@[base + 4].0, old(self).sii@[base + 8].0, old(self).sii@[base + 12].0),
            final(self).sii@[base + 5].0 == mix_row1(old(self).sii@[base + 1].0, old(self).sii@[base + 5].0, old(self).sii@[base + 9].0, old(self).sii@[base + 13].0),
            final(self).sii@[base + 6].0 == mix_row1(old(self).sii@[base + 2].0, old(self).sii@[base + 6].0, old(self).sii@[base + 10].0, old(self).sii@[base + 14].0),
            final(self).sii@[base + 7].0 == mix_row1(old(self).sii@[base + 3].0, old(self).sii@[base + 7].0, old(self).sii@[base + 11].0, old(self).sii@[base + 15].0),
            final(self).sii@[base + 8].0 == mix_row2(old(self).sii@[base as int].0, old(self).sii@[base + 4].0, old(self).sii@[base + 8].0, old(self).sii@[base + 12].0),
            final(self).sii@[base + 9].0 == mix_row2(old(self).sii@[base + 1].0, old(self).sii@[base + 5].0, old(self).sii@[base + 9].0, old(self).sii@[base + 13].0),
            final(self).sii@[base + 10].0 == mix_row2(old(self).sii@[base + 2].0, old(self).sii@[base + 6].0, old(self).sii@[base + 10].0, old(self).sii@[base + 14].0),
            final(self).sii@[base + 11].0 == mix_row2(old(self).sii@[base + 3].0, old(self).sii@[base + 7].0, old(self).sii@[base + 11].0, old(self).sii@[base + 15].0),
            final(self).sii@[base + 12].0 == mix_row3(old(self).sii@[base as int].0, old(self).sii@[base + 4].0, old(self).sii@[base + 8].0, old(self).sii@[base + 12].0),
            final(self).sii@[base + 13].0 == mix_row3(old(self).sii@[base + 1].0, old(self).sii@[base + 5].0, old(self).sii@[base + 9].0, old(self).sii@[base + 13].0),
            final(self).sii@[base + 14].0 == mix_row3(old(self).sii@[base + 2].0, old(self).sii@[base + 6].0, old(self).sii@[base + 10].0, old(self).sii@[base + 14].0),
            final(self).sii@[base + 15].0 == mix_row3(old(self).sii@[base + 3].0, old(self).sii@[base + 7].0, old(self).sii@[base + 11].0, old(self).sii@[base + 15].0),
            forall|t: int|
                0 <= t < old(self).si@.len() && !(base <= t < base + 16)
                    ==> #[trigger] final(self).si@[t] == old(self).si@[t] && final(self).sii@[t]
                    == old(self).sii@[t],
    {
        let l: usize = self.si.len();
        assert(base + 16 <= l);
        let c00 = RssShare::from(self.si[base], self.sii[base]);
        let c10 = RssShare::from(self.si[base + 4], self.sii[base + 4]);
        let c20 = RssShare::from(self.si[base + 8], self.sii[base + 8]);
        let c30 = RssShare::from(self.si[base + 12], self.sii[base + 12]);
        let c01 = RssShare::from(self.si[base + 1], self.sii[base + 1]);
        let c11 = RssShare::from(self.si[base + 5], self.sii[base + 5]);
        let c21 = RssShare::from(self.si[base + 9], self.sii[base + 9]);
        let c31 = RssShare::from(self.si[base + 13], self.sii[base + 13]);
        let c02 = RssShare::from(self.si[base + 2], self.sii[base + 2]);
        let c12 = RssShare::from(self.si[base + 6], self.sii[base + 6]);
        let c22 = RssShare::from(self.si[base + 10], self.sii[base + 10]);
        let c32 = RssShare::from(self.si[base + 14], self.sii[base + 14]);
        let c03 = RssShare::from(self.si[base + 3], self.sii[base + 3]);
        let c13 = RssShare::from(self.si[base + 7], self.sii[base + 7]);
        let c23 = RssShare::from(self.si[base + 11], self.sii[base + 11]);
        let c33 = RssShare::from(self.si[base + 15], self.sii[base + 15]);

        let m00 = c00.mul_public(GF8(0x2)).add(c10.mul_public(GF8(0x3))).add(c20).add(c30);
        let m10 = c00.add(c10.mul_public(GF8(0x2))).add(c20.mul_public(GF8(0x3))).add(c30);
        let m20 = c00.add(c10).add(c20.mul_public(GF8(0x2))).add(c30.mul_public(GF8(0x3)));
        let m30 = c00.mul_public(GF8(0x3)).add(c10).add(c20).add(c30.mul_public(GF8(0x2)));
        let m01 = c01.mul_public(GF8(0x2)).add(c11.mul_public(GF8(0x3))).add(c21).add(c31);
        let m11 = c01.add(c11.mul_public(GF8(0x2))).add(c21.mul_public(GF8(0x3))).add(c31);
        let m21 = c01.add(c11).add(c21.mul_public(GF8(0x2))).add(c31.mul_public(GF8(0x3)));
        let m31 = c01.mul_public(GF8(0x3)).add(c11).add(c21).add(c31.mul_public(GF8(0x2)));
        let m02 = c02.mul_public(GF8(0x2)).add(c12.mul_public(GF8(0x3))).add(c22).add(c32);
        let m12 = c02.add(c12.mul_public(GF8(0x2))).add(c22.mul_public(GF8(0x3))).add(c32);
        let m22 = c02.add(c12).add(c22.mul_public(GF8(0x2))).add(c32.mul_public(GF8(0x3)));
        let m32 = c02.mul_public(GF8(0x3)).add(c12).add(c22).add(c32.mul_public(GF8(0x2)));
        let m03 = c03.mul_public(GF8(0x2)).add(c13.mul_public(GF8(0x3))).add(c23).add(c33);
        let m13 = c03.add(c13.mul_public(GF8(0x2))).add(c23.mul_public(GF8(0x3))).add(c33);
        let m23 = c03.add(c13).add(c23.mul_public(GF8(0x2))).add(c33.mul_public(GF8(0x3)));
        let m33 = c03.mul_public(GF8(0x3)).add(c13).add(c23).add(c33.mul_public(GF8(0x2)));

        self.si.set(base, m00.si);
        self.sii.set(base, m00.sii);
        self.si.set(base + 4, m10.si);
        self.sii.set(base + 4, m10.sii);
        self.si.set(base + 8, m20.si);
        self.sii.set(base + 8, m20.sii);
        self.si.set(base + 12, m30.si);
        self.sii.set(base + 12, m30.sii);
        self.si.set(base + 1, m01.si);
        self.sii.set(base + 1, m01.sii);
        self.si.set(base + 5, m11.si);
        self.sii.set(base + 5, m11.sii);
        self.si.set(base + 9, m21.si);
        self.sii.set(base + 9, m21.sii);
        self.si.set(base + 13, m31.si);
        self.sii.set(base + 13, m31.sii);
        self.si.set(base + 2, m02.si);
        self.sii.set(base + 2, m02.sii);
        self.si.set(base + 6, m12.si);
        self.sii.set(base + 6, m12.sii);
        self.si.set(base + 10, m22.si);
        self.sii.set(base + 10, m22.sii);
        self.si.set(base + 14, m32.si);
        self.sii.set(base + 14, m32.sii);
        self.si.set(base + 3, m03.si);
        self.sii.set(base + 3, m03.sii);
        self.si.set(base + 7, m13.si);
        self.sii.set(base + 7, m13.sii);
        self.si.set(base + 11, m23.si);
        self.sii.set(base + 11, m23.sii);
        self.si.set(base + 15, m33.si);
        self.sii.set(base + 15, m33.sii);
    }

    /// InverseMixColumns on the single block starting at `base`.
    #[verifier::rlimit(100)]
    #[verifier::spinoff_prover]
    fn inv_mix_block(&mut self, base: usize)
        requires
            old(self).wf(),
            base + 16 <= old(self).si@.len(),
        ensures
            final(self).wf(),
            final(self).n == old(self).n,
            final(self).si@[base as int].0 == inv_mix_row0(old(self).si@[base as int].0, old(self).si@[base + 4].0, old(self).si@[base + 8].0, old(self).si@[base + 12].0),
            final(self).si@[base + 1].0 == inv_mix_row0(old(self).si@[base + 1].0, old(self).si@[base + 5].0, old(self).si@[base + 9].0, old(self).si@[base + 13].0),
            final(self).si@[base + 2].0 == inv_mix_row0(old(self).si@[base + 2].0, old(self).si@[base + 6].0, old(self).si@[base + 10].0, old(self).si@[base + 14].0),
            final(self).si@[base + 3].0 == inv_mix_row0(old(self).si@[base + 3].0, old(self).si@[base + 7].0, old(self).si@[base + 11].0, old(self).si@[base + 15].0),
            final(self).si@[base + 4].0 == inv_mix_row1(old(self).si@[base as int].0, old(self).si@[base + 4].0, old(self).si@[base + 8].0, old(self).si@[base + 12].0),
            final(self).si@[base + 5].0 == inv_mix_row1(old(self).si@[base + 1].0, old(self).si@[base + 5].0, old(self).si@[base + 9].0, old(self).si@[base + 13].0),
            final(self).si@[base + 6].0 == inv_mix_row1(old(self).si@[base + 2].0, old(self).si@[base + 6].0, old(self).si@[base + 10].0, old(self).si@[base + 14].0),
            final(self).si@[base + 7].0 == inv_mix_row1(old(self).si@[base + 3].0, old(self).si@[base + 7].0, old(self).si@[base + 11].0, old(self).si@[base + 15].0),
            final(self).si@[base + 8].0 == inv_mix_row2(old(self).si@[base as int].0, old(self).si@[base + 4].0, old(self).si@[base + 8].0, old(self).si@[base + 12].0),
            final(self).si@[base + 9].0 == inv_mix_row2(old(self).si@[base + 1].0, old(self).si@[base + 5].0, old(self).si@[base + 9].0, old(self).si@[base + 13].0),
            final(self).si@[base + 10].0 == inv_mix_row2(old(self).si@[base + 2].0, old(self).si@[base + 6].0, old(self).si@[base + 10].0, old(self).si@[base + 14].0),
            final(self).si@[base + 11].0 == inv_mix_row2(old(self).si@[base + 3].0, old(self).si@[base + 7].0, old(self).si@[base + 11].0, old(self).si@[base + 15].0),
            final(self).si@[base + 12].0 == inv_mix_row3(old(self).si@[base as int].0, old(self).si@[base + 4].0, old(self).si@[base + 8].0, old(self).si@[base + 12].0),
            final(self).si@[base + 13].0 == inv_mix_row3(old(self).si@[base + 1].0, old(self).si@[base + 5].0, old(self).si@[base + 9].0, old(self).si@[base + 13].0),
            final(self).si@[base + 14].0 == inv_mix_row3(old(self).si@[base + 2].0, old(self).si@[base + 6].0, old(self).si@[base + 10].0, old(self).si@[base + 14].0),
            final(self).si@[base + 15].0 == inv_mix_row3(old(self).si@[base + 3].0, old(self).si@[base + 7].0, old(self).si@[base + 11].0, old(self).si@[base + 15].0),
            final(self).sii@[base as int].0 == inv_mix_row0(old(self).sii@[base as int].0, old(self).sii@[base + 4].0, old(self).sii@[base + 8].0, old(self).sii@[base + 12].0),
            final(self).sii@[base + 1].0 == inv_mix_row0(old(self).sii@[base + 1].0, old(self).sii@[base + 5].0, old(self).sii@[base + 9].0, old(self).sii@[base + 13].0),
            final(self).sii@[base + 2].0 == inv_mix_row0(old(self).sii@[base + 2].0, old(self).sii@[base + 6].0, old(self).sii@[base + 10].0, old(self).sii@[base + 14].0),
            final(self).sii@[base + 3].0 == inv_mix_row0(old(self).sii@[base + 3].0, old(self).sii@[base + 7].0, old(self).sii@[base + 11].0, old(self).sii@[base + 15].0),
            final(self).sii@[base + 4].0 == inv_mix_row1(old(self).sii@[base as int].0, old(self).sii@[base + 4].0, old(self).sii@[base + 8].0, old(self).sii@[base + 12].0),
            final(self).sii@[base + 5].0 == inv_mix_row1(old(self).sii@[base + 1].0, old(self).sii@[base + 5].0, old(self).sii@[base + 9].0, old(self).sii@[base + 13].0),
            final(self).sii@[base + 6].0 == inv_mix_row1(old(self).sii@[base + 2].0, old(self).sii@[base + 6].0, old(self).sii@[base + 10].0, old(self).sii@[base + 14].0),
            final(self).sii@[base + 7].0 == inv_mix_row1(old(self).sii@[base + 3].0, old(self).sii@[base + 7].0, old(self).sii@[base + 11].0, old(self).sii@[base + 15].0),
            final(self).sii@[base + 8].0 == inv_mix_row2(old(self).sii@[base as int].0, old(self).sii@[base + 4].0, old(self).sii@[base + 8].0, old(self).sii@[base + 12].0),
            final(self).sii@[base + 9].0 == inv_mix_row2(old(self).sii@[base + 1].0, old(self).sii@[base + 5].0, old(self).sii@[base + 9].0, old(self).sii@[base + 13].0),
            final(self).sii@[base + 10].0 == inv_mix_row2(old(self).sii@[base + 2].0, old(self).sii@[base + 6].0, old(self).sii@[base + 10].0, old(self).sii@[base + 14].0),
            final(self).sii@[base + 11].0 == inv_mix_row2(old(self).sii@[base + 3].0, old(self).sii@[base + 7].0, old(self).sii@[base + 11].0, old(self).sii@[base + 15].0),
            final(self).sii@[base + 12].0 == inv_mix_row3(old(self).sii@[base as int].0, old(self).sii@[base + 4].0, old(self).sii@[base + 8].0, old(self).sii@[base + 12].0),
            final(self).sii@[base + 13].0 == inv_mix_row3(old(self).sii@[base + 1].0, old(self).sii@[base + 5].0, old(self).sii@[base + 9].0, old(self).sii@[base + 13].0),
            final(self).sii@[base + 14].0 == inv_mix_row3(old(self).sii@[base + 2].0, old(self).sii@[base + 6].0, old(self).sii@[base + 10].0, old(self).sii@[base + 14].0),
            final(self).sii@[base + 15].0 == inv_mix_row3(old(self).sii@[base + 3].0, old(self).sii@[base + 7].0, old(self).sii@[base + 11].0, old(self).sii@[base + 15].0),
            forall|t: int|
                0 <= t < old(self).si@.len() && !(base <= t < base + 16)
                    ==> #[trigger] final(self).si@[t] == old(self).si@[t] && final(self).sii@[t]
                    == old(self).sii@[t],
    {
        let l: usize = self.si.len();
        assert(base + 16 <= l);
        let c00 = RssShare::from(self.si[base], self.sii[base]);
        let c10 = RssShare::from(self.si[base + 4], self.sii[base + 4]);
        let c20 = RssShare::from(self.si[base + 8], self.sii[base + 8]);
        let c30 = RssShare::from(self.si[base + 12], self.sii[base + 12]);
        let c01 = RssShare::from(self.si[base + 1], self.sii[base + 1]);
        let c11 = RssShare::from(self.si[base + 5], self.sii[base + 5]);
        let c21 = RssShare::from(self.si[base + 9], self.sii[base + 9]);
        let c31 = RssShare::from(self.si[base + 13], self.sii[base + 13]);
        let c02 = RssShare::from(self.si[base + 2], self.sii[base + 2]);
        let c12 = RssShare::from(self.si[base + 6], self.sii[base + 6]);
        let c22 = RssShare::from(self.si[base + 10], self.sii[base + 10]);
        let c32 = RssShare::from(self.si[base + 14], self.sii[base + 14]);
        let c03 = RssShare::from(self.si[base + 3], self.sii[base + 3]);
        let c13 = RssShare::from(self.si[base + 7], self.sii[base + 7]);
        let c23 = RssShare::from(self.si[base + 11], self.sii[base + 11]);
        let c33 = RssShare::from(self.si[base + 15], self.sii[base + 15]);

        let m00 = c00.mul_public(GF8(0xe)).add(c10.mul_public(GF8(0xb))).add(c20.mul_public(GF8(0xd))).add(c30.mul_public(GF8(0x9)));
        let m10 = c00.mul_public(GF8(0x9)).add(c10.mul_public(GF8(0xe))).add(c20.mul_public(GF8(0xb))).add(c30.mul_public(GF8(0xd)));
        let m20 = c00.mul_public(GF8(0xd)).add(c10.mul_public(GF8(0x9))).add(c20.mul_public(GF8(0xe))).add(c30.mul_public(GF8(0xb)));
        let m30 = c00.mul_public(GF8(0xb)).add(c10.mul_public(GF8(0xd))).add(c20.mul_public(GF8(0x9))).add(c30.mul_public(GF8(0xe)));
        let m01 = c01.mul_public(GF8(0xe)).add(c11.mul_public(GF8(0xb))).add(c21.mul_public(GF8(0xd))).add(c31.mul_public(GF8(0x9)));
        let m11 = c01.mul_public(GF8(0x9)).add(c11.mul_public(GF8(0xe))).add(c21.mul_public(GF8(0xb))).add(c31.mul_public(GF8(0xd)));
        let m21 = c01.mul_public(GF8(0xd)).add(c11.mul_public(GF8(0x9))).add(c21.mul_public(GF8(0xe))).add(c31.mul_public(GF8(0xb)));
        let m31 = c01.mul_public(GF8(0xb)).add(c11.mul_public(GF8(0xd))).add(c21.mul_public(GF8(0x9))).add(c31.mul_public(GF8(0xe)));
        let m02 = c02.mul_public(GF8(0xe)).add(c12.mul_public(GF8(0xb))).add(c22.mul_public(GF8(0xd))).add(c32.mul_public(GF8(0x9)));
        let m12 = c02.mul_public(GF8(0x9)).add(c12.mul_public(GF8(0xe))).add(c22.mul_public(GF8(0xb))).add(c32.mul_public(GF8(0xd)));
        let m22 = c02.mul_public(GF8(0xd)).add(c12.mul_public(GF8(0x9))).add(c22.mul_public(GF8(0xe))).add(c32.mul_public(GF8(0xb)));
        let m32 = c02.mul_public(GF8(0xb)).add(c12.mul_public(GF8(0xd))).add(c22.mul_public(GF8(0x9))).add(c32.mul_public(GF8(0xe)));
        let m03 = c03.mul_public(GF8(0xe)).add(c13.mul_public(GF8(0xb))).add(c23.mul_public(GF8(0xd))).add(c33.mul_public(GF8(0x9)));
        let m13 = c03.mul_public(GF8(0x9)).add(c13.mul_public(GF8(0xe))).add(c23.mul_public(GF8(0xb))).add(c33.mul_public(GF8(0xd)));
        let m23 = c03.mul_public(GF8(0xd)).add(c13.mul_public(GF8(0x9))).add(c23.mul_public(GF8(0xe))).add(c33.mul_public(GF8(0xb)));
        let m33 = c03.mul_public(GF8(0xb)).add(c13.mul_public(GF8(0xd))).add(c23.mul_public(GF8(0x9))).add(c33.mul_public(GF8(0xe)));

        self.si.set(base, m00.si);
        self.sii.set(base, m00.sii);
        self.si.set(base + 4, m10.si);
        self.sii.set(base + 4, m10.sii);
        self.si.set(base + 8, m20.si);
        self.sii.set(base + 8, m20.sii);
        self.si.set(base + 12, m30.si);
        self.sii.set(base + 12, m30.sii);
        self.si.set(base + 1, m01.si);
        self.sii.set(base + 1, m01.sii);
        self.si.set(base + 5, m11.si);
        self.sii.set(base + 5, m11.sii);
        self.si.set(base + 9, m21.si);
        self.sii.set(base + 9, m21.sii);
        self.si.set(base + 13, m31.si);
        self.sii.set(base + 13, m31.sii);
        self.si.set(base + 2, m02.si);
        self.sii.set(base + 2, m02.sii);
        self.si.set(base + 6, m12.si);
        self.sii.set(base + 6, m12.sii);
        self.si.set(base + 10, m22.si);
        self.sii.set(base + 10, m22.sii);
        self.si.set(base + 14, m32.si);
        self.sii.set(base + 14, m32.sii);
        self.si.set(base + 3, m03.si);
        self.sii.set(base + 3, m03.sii);
        self.si.set(base + 7, m13.si);
        self.sii.set(base + 7, m13.sii);
        self.si.set(base + 11, m23.si);
        self.sii.set(base + 11, m23.sii);
        self.si.set(base + 15, m33.si);
        self.sii.set(base + 15, m33.sii);
    }

    /// MixColumns on every block: the fixed circulant matrix applied to
    /// each of the four columns.
    #[verifier::rlimit(100)]
    pub fn mix_columns(&mut self)
        requires
            old(self).wf(),
        ensures
            final(self).wf(),
            final(self).n == old(self).n,
            forall|k: int|
                0 <= k < old(self).n ==> #[trigger] block_of(final(self).si_bytes(), k)
                    == mix_columns_block(block_of(old(self).si_bytes(), k)) && block_of(
                    final(self).sii_bytes(),
                    k,
                ) == mix_columns_block(block_of(old(self).sii_bytes(), k)),
    {
        let ghost orig: VectorAesState = *self;
        let n: usize = self.n;
        let total: usize = self.si.len();
        let mut i: usize = 0;
        while i < n
            invariant
                self.wf(),
                self.n == n,
                orig.wf(),
                orig.n == n,
                16 * n == total,
                i <= n,
                forall|t: int|
                    16 * i <= t < 16 * n ==> #[trigger] self.si@[t] == orig.si@[t]
                        && self.sii@[t] == orig.sii@[t],
                forall|k: int|
                    0 <= k < i ==> #[trigger] block_of(self.si_bytes(), k) == mix_columns_block(
                        block_of(orig.si_bytes(), k),
                    ) && block_of(self.sii_bytes(), k) == mix_columns_block(
                        block_of(orig.sii_bytes(), k),
                    ),
            decreases n - i,
        {
            proof {
                assert(16 * i + 16 <= 16 * n) by (nonlinear_arith)
                    requires
                        i < n,
                ;
            }
            let ghost pre: VectorAesState = *self;
            let base: usize = 16 * i;
            self.mix_block(base);
            proof {
                lemma_mix_columns_step(*self, pre, orig, i as int, n as int);
            }
            i = i + 1;
        }
    }

    /// InverseMixColumns on every block.
    #[verifier::rlimit(100)]
    #[verifier::spinoff_prover]
    pub fn inv_mix_columns(&mut self)
        requires
            old(self).wf(),
        ensures
            final(self).wf(),
            final(self).n == old(self).n,
            forall|k: int|
                0 <= k < old(self).n ==> #[trigger] block_of(final(self).si_bytes(), k)
                    == inv_mix_columns_block(block_of(old(self).si_bytes(), k)) && block_of(
                    final(self).sii_bytes(),
                    k,
                ) == inv_mix_columns_block(block_of(old(self).sii_bytes(), k)),
    {
        let ghost orig: VectorAesState = *self;
        let n: usize = self.n;
        let total: usize = self.si.len();
        let mut i: usize = 0;
        while i < n
            invariant
                self.wf(),
                self.n == n,
                orig.wf(),
                orig.n == n,
                16 * n == total,
                i <= n,
                forall|t: int|
                    16 * i <= t < 16 * n ==> #[trigger] self.si@[t] == orig.si@[t]
                        && self.sii@[t] == orig.sii@[t],
                forall|k: int|
                    0 <= k < i ==> #[trigger] block_of(self.si_bytes(), k) == inv_mix_columns_block(
                        block_of(orig.si_bytes(), k),
                    ) && block_of(self.sii_bytes(), k) == inv_mix_columns_block(
                        block_of(orig.sii_bytes(), k),
                    ),
            decreases n - i,
        {
            proof {
                assert(16 * i + 16 <= 16 * n) by (nonlinear_arith)
                    requires
                        i < n,
                ;
            }
            let ghost pre: VectorAesState = *self;
            let base: usize = 16 * i;
            self.inv_mix_block(base);
            proof {
                lemma_inv_mix_columns_step(*self, pre, orig, i as int, n as int);
            }
            i = i + 1;
        }
    }
}

/// Pick one of four elements by index.
fn select4(a0: GF8, a1: GF8, a2: GF8, a3: GF8, p: usize) -> (r: GF8)
    requires
        p < 4,
    ensures
        p == 0 ==> r == a0,
        p == 1 ==> r == a1,
        p == 2 ==> r == a2,
        p == 3 ==> r == a3,
{
    if p == 0 {
        a0
    } else if p == 1 {
        a1
    } else if p == 2 {
        a2
    } else {
        a3
    }
}

/// After the three row rotations of block `i`, that block of `cur` is the
/// (inverse) ShiftRows image of the same block of `pre`.
proof fn lemma_rows_shifted(cur: VectorAesState, pre: VectorAesState, i: int, forward: bool)
    requires
        cur.wf(),
        pre.wf(),
        cur.n == pre.n,
        0 <= i < cur.n,
        forall|t: int|
            0 <= t < 16 * cur.n && !(16 * i + 4 <= t < 16 * i + 16) ==> #[trigger] cur.si@[t]
                == pre.si@[t] && cur.sii@[t] == pre.sii@[t],
        forall|c: int|
            0 <= c < 4 ==> #[trigger] cur.si@[16 * i + 4 + c] == pre.si@[16 * i + 4 + perm_target(
                1,
                c,
                forward,
            )] && cur.sii@[16 * i + 4 + c] == pre.sii@[16 * i + 4 + perm_target(1, c, forward)],
        forall|c: int|
            0 <= c < 4 ==> #[trigger] cur.si@[16 * i + 8 + c] == pre.si@[16 * i + 8 + perm_target(
                2,
                c,
                forward,
            )] && cur.sii@[16 * i + 8 + c] == pre.sii@[16 * i + 8 + perm_target(2, c, forward)],
        forall|c: int|
            0 <= c < 4 ==> #[trigger] cur.si@[16 * i + 12 + c] == pre.si@[16 * i + 12
                + perm_target(3, c, forward)] && cur.sii@[16 * i + 12 + c]
                == pre.sii@[16 * i + 12 + perm_target(3, c, forward)],
    ensures
        forward ==> block_of(cur.si_bytes(), i) == shift_rows_block(block_of(pre.si_bytes(), i))
            && block_of(cur.sii_bytes(), i) == shift_rows_block(block_of(pre.sii_bytes(), i)),
        !forward ==> block_of(cur.si_bytes(), i) == inv_shift_rows_block(
            block_of(pre.si_bytes(), i),
        ) && block_of(cur.sii_bytes(), i) == inv_shift_rows_block(block_of(pre.sii_bytes(), i)),
{
    let target = if forward {
        shift_rows_block(block_of(pre.si_bytes(), i))
    } else {
        inv_shift_rows_block(block_of(pre.si_bytes(), i))
    };
    let target2 = if forward {
        shift_rows_block(block_of(pre.sii_bytes(), i))
    } else {
        inv_shift_rows_block(block_of(pre.sii_bytes(), i))
    };
    assert(16 * i + 16 <= 16 * cur.n) by (nonlinear_arith)
        requires
            0 <= i < cur.n,
    ;
    assert forall|t: int| 0 <= t < 16 implies block_of(cur.si_bytes(), i)[t] == target[t]
        && block_of(cur.sii_bytes(), i)[t] == target2[t] by {
        let r = t / 4;
        let c = t % 4;
        assert(t == 4 * r + c && 0 <= r < 4 && 0 <= c < 4) by (nonlinear_arith)
            requires
                0 <= t < 16,
                r == t / 4,
                c == t % 4,
        ;
        if r == 0 {
            assert(cur.si@[16 * i + t] == pre.si@[16 * i + t]);
            assert(cur.sii@[16 * i + t] == pre.sii@[16 * i + t]);
        } else if r == 1 {
            assert(cur.si@[16 * i + 4 + c] == pre.si@[16 * i + 4 + perm_target(1, c, forward)]);
            assert(cur.sii@[16 * i + 4 + c] == pre.sii@[16 * i + 4 + perm_target(1, c, forward)]);
            assert(16 * i + t == 16 * i + 4 + c);
        } else if r == 2 {
            assert(cur.si@[16 * i + 8 + c] == pre.si@[16 * i + 8 + perm_target(2, c, forward)]);
            assert(cur.sii@[16 * i + 8 + c] == pre.sii@[16 * i + 8 + perm_target(2, c, forward)]);
            assert(16 * i + t == 16 * i + 8 + c);
        } else {
            assert(cur.si@[16 * i + 12 + c] == pre.si@[16 * i + 12 + perm_target(3, c, forward)]);
            assert(cur.sii@[16 * i + 12 + c] == pre.sii@[16 * i + 12 + perm_target(
                3,
                c,
                forward,
            )]);
            assert(16 * i + t == 16 * i + 12 + c);
        }
    }
    assert(block_of(cur.si_bytes(), i) =~= target);
    assert(block_of(cur.sii_bytes(), i) =~= target2);
}

/// Where row `r`, column `c` is read from under ShiftRows (`forward`) or
/// InvShiftRows: the column offset within the same row.
pub open spec fn perm_target(r: int, c: int, forward: bool) -> int {
    if forward {
        (c + r) % 4
    } else {
        (c + 4 - r) % 4
    }
}

/// Source index for the per-block transpose: the wire position read when
/// filling internal position `m`, and the internal position read when
/// emitting wire position `m`.
fn transpose_index(m: usize, len: usize) -> (src: usize)
    requires
        m < len,
        len % 16 == 0,
    ensures
        src == 16 * (m / 16) + 4 * ((m % 16) % 4) + ((m % 16) / 4),
        src < len,
{
    let q: usize = m % 16;
    let src: usize = 16 * (m / 16) + 4 * (q % 4) + q / 4;
    proof {
        assert(16 * (m / 16) + 4 * ((m % 16) % 4) + ((m % 16) / 4) < len) by (nonlinear_arith)
            requires
                m < len,
                len % 16 == 0,
        ;
    }
    src
}

/// A vector of `len` zero field elements.
fn zero_elements(len: usize) -> (r: Vec<GF8>)
    ensures
        r@.len() == len,
        forall|t: int| 0 <= t < len ==> (#[trigger] r@[t]).0 == 0,
{
    let mut r: Vec<GF8> = Vec::new();
    let mut m: usize = 0;
    while m < len
        invariant
            m <= len,
            r@.len() == m,
            forall|t: int| 0 <= t < m ==> (#[trigger] r@[t]).0 == 0,
        decreases len - m,
    {
        r.push(GF8(0));
        m = m + 1;
    }
    r
}



/// One loop step of the column mixing: with block `i` of `cur` freshly
/// mixed from `pre` and everything before `i` already done, all blocks up
/// to and including `i` of `cur` carry the transform of `orig`.
#[verifier::rlimit(100)]
#[verifier::spinoff_prover]
proof fn lemma_mix_columns_step(cur: VectorAesState, pre: VectorAesState, orig: VectorAesState, i: int, n: int)
    requires
        cur.wf(),
        pre.wf(),
        orig.wf(),
        cur.n == n,
        pre.n == n,
        orig.n == n,
        0 <= i < n,
        cur.si@[16 * i + 0].0 == mix_row0(pre.si@[16 * i + 0].0, pre.si@[16 * i + 4].0, pre.si@[16 * i + 8].0, pre.si@[16 * i + 12].0),
        cur.si@[16 * i + 1].0 == mix_row0(pre.si@[16 * i + 1].0, pre.si@[16 * i + 5].0, pre.si@[16 * i + 9].0, pre.si@[16 * i + 13].0),
        cur.si@[16 * i + 2].0 == mix_row0(pre.si@[16 * i + 2].0, pre.si@[16 * i + 6].0, pre.si@[16 * i + 10].0, pre.si@[16 * i + 14].0),
        cur.si@[16 * i + 3].0 == mix_row0(pre.si@[16 * i + 3].0, pre.si@[16 * i + 7].0, pre.si@[16 * i + 11].0, pre.si@[16 * i + 15].0),
        cur.si@[16 * i + 4].0 == mix_row1(pre.si@[16 * i + 0].0, pre.si@[16 * i + 4].0, pre.si@[16 * i + 8].0, pre.si@[16 * i + 12].0),
        cur.si@[16 * i + 5].0 == mix_row1(pre.si@[16 * i + 1].0, pre.si@[16 * i + 5].0, pre.si@[16 * i + 9].0, pre.si@[16 * i + 13].0),
        cur.si@[16 * i + 6].0 == mix_row1(pre.si@[16 * i + 2].0, pre.si@[16 * i + 6].0, pre.si@[16 * i + 10].0, pre.si@[16 * i + 14].0),
        cur.si@[16 * i + 7].0 == mix_row1(pre.si@[16 * i + 3].0, pre.si@[16 * i + 7].0, pre.si@[16 * i + 11].0, pre.si@[16 * i + 15].0),
        cur.si@[16 * i + 8].0 == mix_row2(pre.si@[16 * i + 0].0, pre.si@[16 * i + 4].0, pre.si@[16 * i + 8].0, pre.si@[16 * i + 12].0),
        cur.si@[16 * i + 9].0 == mix_row2(pre.si@[16 * i + 1].0, pre.si@[16 * i + 5].0, pre.si@[16 * i + 9].0, pre.si@[16 * i + 13].0),
        cur.si@[16 * i + 10].0 == mix_row2(pre.si@[16 * i + 2].0, pre.si@[16 * i + 6].0, pre.si@[16 * i + 10].0, pre.si@[16 * i + 14].0),
        cur.si@[16 * i + 11].0 == mix_row2(pre.si@[16 * i + 3].0, pre.si@[16 * i + 7].0, pre.si@[16 * i + 11].0, pre.si@[16 * i + 15].0),
        cur.si@[16 * i + 12].0 == mix_row3(pre.si@[16 * i + 0].0, pre.si@[16 * i + 4].0, pre.si@[16 * i + 8].0, pre.si@[16 * i + 12].0),
        cur.si@[16 * i + 13].0 == mix_row3(pre.si@[16 * i + 1].0, pre.si@[16 * i + 5].0, pre.si@[16 * i + 9].0, pre.si@[16 * i + 13].0),
        cur.si@[16 * i + 14].0 == mix_row3(pre.si@[16 * i + 2].0, pre.si@[16 * i + 6].0, pre.si@[16 * i + 10].0, pre.si@[16 * i + 14].0),
        cur.si@[16 * i + 15].0 == mix_row3(pre.si@[16 * i + 3].0, pre.si@[16 * i + 7].0, pre.si@[16 * i + 11].0, pre.si@[16 * i + 15].0),
        cur.sii@[16 * i + 0].0 == mix_row0(pre.sii@[16 * i + 0].0, pre.sii@[16 * i + 4].0, pre.sii@[16 * i + 8].0, pre.sii@[16 * i + 12].0),
        cur.sii@[16 * i + 1].0 == mix_row0(pre.sii@[16 * i + 1].0, pre.sii@[16 * i + 5].0, pre.sii@[16 * i + 9].0, pre.sii@[16 * i + 13].0),
        cur.sii@[16 * i + 2].0 == mix_row0(pre.sii@[16 * i + 2].0, pre.sii@[16 * i + 6].0, pre.sii@[16 * i + 10].0, pre.sii@[16 * i + 14].0),
        cur.sii@[16 * i + 3].0 == mix_row0(pre.sii@[16 * i + 3].0, pre.sii@[16 * i + 7].0, pre.sii@[16 * i + 11].0, pre.sii@[16 * i + 15].0),
        cur.sii@[16 * i + 4].0 == mix_row1(pre.sii@[16 * i + 0].0, pre.sii@[16 * i + 4].0, pre.sii@[16 * i + 8].0, pre.sii@[16 * i + 12].0),
        cur.sii@[16 * i + 5].0 == mix_row1(pre.sii@[16 * i + 1].0, pre.sii@[16 * i + 5].0, pre.sii@[16 * i + 9].0, pre.sii@[16 * i + 13].0),
        cur.sii@[16 * i + 6].0 == mix_row1(pre.sii@[16 * i + 2].0, pre.sii@[16 * i + 6].0, pre.sii@[16 * i + 10].0, pre.sii@[16 * i + 14].0),
        cur.sii@[16 * i + 7].0 == mix_row1(pre.sii@[16 * i + 3].0, pre.sii@[16 * i + 7].0, pre.sii@[16 * i + 11].0, pre.sii@[16 * i + 15].0),
        cur.sii@[16 * i + 8].0 == mix_row2(pre.sii@[16 * i + 0].0, pre.sii@[16 * i + 4].0, pre.sii@[16 * i + 8].0, pre.sii@[16 * i + 12].0),
        cur.sii@[16 * i + 9].0 == mix_row2(pre.sii@[16 * i + 1].0, pre.sii@[16 * i + 5].0, pre.sii@[16 * i + 9].0, pre.sii@[16 * i + 13].0),
        cur.sii@[16 * i + 10].0 == mix_row2(pre.sii@[16 * i + 2].0, pre.sii@[16 * i + 6].0, pre.sii@[16 * i + 10].0, pre.sii@[16 * i + 14].0),
        cur.sii@[16 * i + 11].0 == mix_row2(pre.sii@[16 * i + 3].0, pre.sii@[16 * i + 7].0, pre.sii@[16 * i + 11].0, pre.sii@[16 * i + 15].0),
        cur.sii@[16 * i + 12].0 == mix_row3(pre.sii@[16 * i + 0].0, pre.sii@[16 * i + 4].0, pre.sii@[16 * i + 8].0, pre.sii@[16 * i + 12].0),
        cur.sii@[16 * i + 13].0 == mix_row3(pre.sii@[16 * i + 1].0, pre.sii@[16 * i + 5].0, pre.sii@[16 * i + 9].0, pre.sii@[16 * i + 13].0),
        cur.sii@[16 * i + 14].0 == mix_row3(pre.sii@[16 * i + 2].0, pre.sii@[16 * i + 6].0, pre.sii@[16 * i + 10].0, pre.sii@[16 * i + 14].0),
        cur.sii@[16 * i + 15].0 == mix_row3(pre.sii@[16 * i + 3].0, pre.sii@[16 * i + 7].0, pre.sii@[16 * i + 11].0, pre.sii@[16 * i + 15].0),
        forall|t: int|
            0 <= t < 16 * n && !(16 * i <= t < 16 * i + 16) ==> #[trigger] cur.si@[t]
                == pre.si@[t] && cur.sii@[t] == pre.sii@[t],
        forall|t: int|
            16 * i <= t < 16 * n ==> #[trigger] pre.si@[t] == orig.si@[t] && pre.sii@[t]
                == orig.sii@[t],
        forall|k: int|
            0 <= k < i ==> #[trigger] block_of(pre.si_bytes(), k) == mix_columns_block(
                block_of(orig.si_bytes(), k),
            ) && block_of(pre.sii_bytes(), k) == mix_columns_block(block_of(orig.sii_bytes(), k)),
    ensures
        forall|k: int|
            0 <= k < i + 1 ==> #[trigger] block_of(cur.si_bytes(), k) == mix_columns_block(
                block_of(orig.si_bytes(), k),
            ) && block_of(cur.sii_bytes(), k) == mix_columns_block(block_of(orig.sii_bytes(), k)),
        forall|t: int|
            16 * (i + 1) <= t < 16 * n ==> #[trigger] cur.si@[t] == orig.si@[t] && cur.sii@[t]
                == orig.sii@[t],
{
    lemma_columns_mixed(cur, pre, i, true);
    assert(16 * i + 16 <= 16 * n) by (nonlinear_arith)
        requires
            0 <= i < n,
    ;
    assert(block_of(pre.si_bytes(), i) =~= block_of(orig.si_bytes(), i));
    assert(block_of(pre.sii_bytes(), i) =~= block_of(orig.sii_bytes(), i));
    assert forall|k: int| 0 <= k < i + 1 implies #[trigger] block_of(cur.si_bytes(), k)
        == mix_columns_block(block_of(orig.si_bytes(), k)) && block_of(cur.sii_bytes(), k) == mix_columns_block(
        block_of(orig.sii_bytes(), k),
    ) by {
        if k < i {
            assert(16 * k + 16 <= 16 * i) by (nonlinear_arith)
                requires
                    0 <= k < i,
            ;
            assert forall|t2: int| 16 * k <= t2 < 16 * k + 16 implies cur.si@[t2] == pre.si@[t2]
                && cur.sii@[t2] == pre.sii@[t2] by {
                assert(cur.si@[t2] == pre.si@[t2] && cur.sii@[t2] == pre.sii@[t2]);
            }
            assert(block_of(cur.si_bytes(), k) =~= block_of(pre.si_bytes(), k));
            assert(block_of(cur.sii_bytes(), k) =~= block_of(pre.sii_bytes(), k));
        }
    }
    assert forall|t2: int| 16 * (i + 1) <= t2 < 16 * n implies cur.si@[t2] == orig.si@[t2]
        && cur.sii@[t2] == orig.sii@[t2] by {
        assert(cur.si@[t2] == pre.si@[t2] && cur.sii@[t2] == pre.sii@[t2]);
        assert(pre.si@[t2] == orig.si@[t2] && pre.sii@[t2] == orig.sii@[t2]);
    }
}

/// One loop step of the column mixing: with block `i` of `cur` freshly
/// mixed from `pre` and everything before `i` already done, all blocks up
/// to and including `i` of `cur` carry the transform of `orig`.
#[verifier::rlimit(100)]
#[verifier::spinoff_prover]
proof fn lemma_inv_mix_columns_step(cur: VectorAesState, pre: VectorAesState, orig: VectorAesState, i: int, n: int)
    requires
        cur.wf(),
        pre.wf(),
        orig.wf(),
        cur.n == n,
        pre.n == n,
        orig.n == n,
        0 <= i < n,
        cur.si@[16 * i + 0].0 == inv_mix_row0(pre.si@[16 * i + 0].0, pre.si@[16 * i + 4].0, pre.si@[16 * i + 8].0, pre.si@[16 * i + 12].0),
        cur.si@[16 * i + 1].0 == inv_mix_row0(pre.si@[16 * i + 1].0, pre.si@[16 * i + 5].0, pre.si@[16 * i + 9].0, pre.si@[16 * i + 13].0),
        cur.si@[16 * i + 2].0 == inv_mix_row0(pre.si@[16 * i + 2].0, pre.si@[16 * i + 6].0, pre.si@[16 * i + 10].0, pre.si@[16 * i + 14].0),
        cur.si@[16 * i + 3].0 == inv_mix_row0(pre.si@[16 * i + 3].0, pre.si@[16 * i + 7].0, pre.si@[16 * i + 11].0, pre.si@[16 * i + 15].0),
        cur.si@[16 * i + 4].0 == inv_mix_row1(pre.si@[16 * i + 0].0, pre.si@[16 * i + 4].0, pre.si@[16 * i + 8].0, pre.si@[16 * i + 12].0),
        cur.si@[16 * i + 5].0 == inv_mix_row1(pre.si@[16 * i + 1].0, pre.si@[16 * i + 5].0, pre.si@[16 * i + 9].0, pre.si@[16 * i + 13].0),
        cur.si@[16 * i + 6].0 == inv_mix_row1(pre.si@[16 * i + 2].0, pre.si@[16 * i + 6].0, pre.si@[16 * i + 10].0, pre.si@[16 * i + 14].0),
        cur.si@[16 * i + 7].0 == inv_mix_row1(pre.si@[16 * i + 3].0, pre.si@[16 * i + 7].0, pre.si@[16 * i + 11].0, pre.si@[16 * i + 15].0),
        cur.si@[16 * i + 8].0 == inv_mix_row2(pre.si@[16 * i + 0].0, pre.si@[16 * i + 4].0, pre.si@[16 * i + 8].0, pre.si@[16 * i + 12].0),
        cur.si@[16 * i + 9].0 == inv_mix_row2(pre.si@[16 * i + 1].0, pre.si@[16 * i + 5].0, pre.si@[16 * i + 9].0, pre.si@[16 * i + 13].0),
        cur.si@[16 * i + 10].0 == inv_mix_row2(pre.si@[16 * i + 2].0, pre.si@[16 * i + 6].0, pre.si@[16 * i + 10].0, pre.si@[16 * i + 14].0),
        cur.si@[16 * i + 11].0 == inv_mix_row2(pre.si@[16 * i + 3].0, pre.si@[16 * i + 7].0, pre.si@[16 * i + 11].0, pre.si@[16 * i + 15].0),
        cur.si@[16 * i + 12].0 == inv_mix_row3(pre.si@[16 * i + 0].0, pre.si@[16 * i + 4].0, pre.si@[16 * i + 8].0, pre.si@[16 * i + 12].0),
        cur.si@[16 * i + 13].0 == inv_mix_row3(pre.si@[16 * i + 1].0, pre.si@[16 * i + 5].0, pre.si@[16 * i + 9].0, pre.si@[16 * i + 13].0),
        cur.si@[16 * i + 14].0 == inv_mix_row3(pre.si@[16 * i + 2].0, pre.si@[16 * i + 6].0, pre.si@[16 * i + 10].0, pre.si@[16 * i + 14].0),
        cur.si@[16 * i + 15].0 == inv_mix_row3(pre.si@[16 * i + 3].0, pre.si@[16 * i + 7].0, pre.si@[16 * i + 11].0, pre.si@[16 * i + 15].0),
        cur.sii@[16 * i + 0].0 == inv_mix_row0(pre.sii@[16 * i + 0].0, pre.sii@[16 * i + 4].0, pre.sii@[16 * i + 8].0, pre.sii@[16 * i + 12].0),
        cur.sii@[16 * i + 1].0 == inv_mix_row0(pre.sii@[16 * i + 1].0, pre.sii@[16 * i + 5].0, pre.sii@[16 * i + 9].0, pre.sii@[16 * i + 13].0),
        cur.sii@[16 * i + 2].0 == inv_mix_row0(pre.sii@[16 * i + 2].0, pre.sii@[16 * i + 6].0, pre.sii@[16 * i + 10].0, pre.sii@[16 * i + 14].0),
        cur.sii@[16 * i + 3].0 == inv_mix_row0(pre.sii@[16 * i + 3].0, pre.sii@[16 * i + 7].0, pre.sii@[16 * i + 11].0, pre.sii@[16 * i + 15].0),
        cur.sii@[16 * i + 4].0 == inv_mix_row1(pre.sii@[16 * i + 0].0, pre.sii@[16 * i + 4].0, pre.sii@[16 * i + 8].0, pre.sii@[16 * i + 12].0),
        cur.sii@[16 * i + 5].0 == inv_mix_row1(pre.sii@[16 * i + 1].0, pre.sii@[16 * i + 5].0, pre.sii@[16 * i + 9].0, pre.sii@[16 * i + 13].0),
        cur.sii@[16 * i + 6].0 == inv_mix_row1(pre.sii@[16 * i + 2].0, pre.sii@[16 * i + 6].0, pre.sii@[16 * i + 10].0, pre.sii@[16 * i + 14].0),
        cur.sii@[16 * i + 7].0 == inv_mix_row1(pre.sii@[16 * i + 3].0, pre.sii@[16 * i + 7].0, pre.sii@[16 * i + 11].0, pre.sii@[16 * i + 15].0),
        cur.sii@[16 * i + 8].0 == inv_mix_row2(pre.sii@[16 * i + 0].0, pre.sii@[16 * i + 4].0, pre.sii@[16 * i + 8].0, pre.sii@[16 * i + 12].0),
        cur.sii@[16 * i + 9].0 == inv_mix_row2(pre.sii@[16 * i + 1].0, pre.sii@[16 * i + 5].0, pre.sii@[16 * i + 9].0, pre.sii@[16 * i + 13].0),
        cur.sii@[16 * i + 10].0 == inv_mix_row2(pre.sii@[16 * i + 2].0, pre.sii@[16 * i + 6].0, pre.sii@[16 * i + 10].0, pre.sii@[16 * i + 14].0),
        cur.sii@[16 * i + 11].0 == inv_mix_row2(pre.sii@[16 * i + 3].0, pre.sii@[16 * i + 7].0, pre.sii@[16 * i + 11].0, pre.sii@[16 * i + 15].0),
        cur.sii@[16 * i + 12].0 == inv_mix_row3(pre.sii@[16 * i + 0].0, pre.sii@[16 * i + 4].0, pre.sii@[16 * i + 8].0, pre.sii@[16 * i + 12].0),
        cur.sii@[16 * i + 13].0 == inv_mix_row3(pre.sii@[16 * i + 1].0, pre.sii@[16 * i + 5].0, pre.sii@[16 * i + 9].0, pre.sii@[16 * i + 13].0),
        cur.sii@[16 * i + 14].0 == inv_mix_row3(pre.sii@[16 * i + 2].0, pre.sii@[16 * i + 6].0, pre.sii@[16 * i + 10].0, pre.sii@[16 * i + 14].0),
        cur.sii@[16 * i + 15].0 == inv_mix_row3(pre.sii@[16 * i + 3].0, pre.sii@[16 * i + 7].0, pre.sii@[16 * i + 11].0, pre.sii@[16 * i + 15].0),
        forall|t: int|
            0 <= t < 16 * n && !(16 * i <= t < 16 * i + 16) ==> #[trigger] cur.si@[t]
                == pre.si@[t] && cur.sii@[t] == pre.sii@[t],
        forall|t: int|
            16 * i <= t < 16 * n ==> #[trigger] pre.si@[t] == orig.si@[t] && pre.sii@[t]
                == orig.sii@[t],
        forall|k: int|
            0 <= k < i ==> #[trigger] block_of(pre.si_bytes(), k) == inv_mix_columns_block(
                block_of(orig.si_bytes(), k),
            ) && block_of(pre.sii_bytes(), k) == inv_mix_columns_block(block_of(orig.sii_bytes(), k)),
    ensures
        forall|k: int|
            0 <= k < i + 1 ==> #[trigger] block_of(cur.si_bytes(), k) == inv_mix_columns_block(
                block_of(orig.si_bytes(), k),
            ) && block_of(cur.sii_bytes(), k) == inv_mix_columns_block(block_of(orig.sii_bytes(), k)),
        forall|t: int|
            16 * (i + 1) <= t < 16 * n ==> #[trigger] cur.si@[t] == orig.si@[t] && cur.sii@[t]
                == orig.sii@[t],
{
    lemma_columns_mixed(cur, pre, i, false);
    assert(16 * i + 16 <= 16 * n) by (nonlinear_arith)
        requires
            0 <= i < n,
    ;
    assert(block_of(pre.si_bytes(), i) =~= block_of(orig.si_bytes(), i));
    assert(block_of(pre.sii_bytes(), i) =~= block_of(orig.sii_bytes(), i));
    assert forall|k: int| 0 <= k < i + 1 implies #[trigger] block_of(cur.si_bytes(), k)
        == inv_mix_columns_block(block_of(orig.si_bytes(), k)) && block_of(cur.sii_bytes(), k) == inv_mix_columns_block(
        block_of(orig.sii_bytes(), k),
    ) by {
        if k < i {
            assert(16 * k + 16 <= 16 * i) by (nonlinear_arith)
                requires
                    0 <= k < i,
            ;
            assert forall|t2: int| 16 * k <= t2 < 16 * k + 16 implies cur.si@[t2] == pre.si@[t2]
                && cur.sii@[t2] == pre.sii@[t2] by {
                assert(cur.si@[t2] == pre.si@[t2] && cur.sii@[t2] == pre.sii@[t2]);
            }
            assert(block_of(cur.si_bytes(), k) =~= block_of(pre.si_bytes(), k));
            assert(block_of(cur.sii_bytes(), k) =~= block_of(pre.sii_bytes(), k));
        }
    }
    assert forall|t2: int| 16 * (i + 1) <= t2 < 16 * n implies cur.si@[t2] == orig.si@[t2]
        && cur.sii@[t2] == orig.sii@[t2] by {
        assert(cur.si@[t2] == pre.si@[t2] && cur.sii@[t2] == pre.sii@[t2]);
        assert(pre.si@[t2] == orig.si@[t2] && pre.sii@[t2] == orig.sii@[t2]);
    }
}

/// After the column mixes of block `i`, that block of `cur` is the
/// (inverse) MixColumns image of the same block of `pre`.
proof fn lemma_columns_mixed(cur: VectorAesState, pre: VectorAesState, i: int, forward: bool)
    requires
        cur.wf(),
        pre.wf(),
        cur.n == pre.n,
        0 <= i < cur.n,
        cur.si@[16 * i + 0].0 == mix_sel(forward, 0, pre.si@[16 * i + 0].0, pre.si@[16 * i + 4].0, pre.si@[16 * i + 8].0, pre.si@[16 * i + 12].0),
        cur.si@[16 * i + 1].0 == mix_sel(forward, 0, pre.si@[16 * i + 1].0, pre.si@[16 * i + 5].0, pre.si@[16 * i + 9].0, pre.si@[16 * i + 13].0),
        cur.si@[16 * i + 2].0 == mix_sel(forward, 0, pre.si@[16 * i + 2].0, pre.si@[16 * i + 6].0, pre.si@[16 * i + 10].0, pre.si@[16 * i + 14].0),
        cur.si@[16 * i + 3].0 == mix_sel(forward, 0, pre.si@[16 * i + 3].0, pre.si@[16 * i + 7].0, pre.si@[16 * i + 11].0, pre.si@[16 * i + 15].0),
        cur.si@[16 * i + 4].0 == mix_sel(forward, 1, pre.si@[16 * i + 0].0, pre.si@[16 * i + 4].0, pre.si@[16 * i + 8].0, pre.si@[16 * i + 12].0),
        cur.si@[16 * i + 5].0 == mix_sel(forward, 1, pre.si@[16 * i + 1].0, pre.si@[16 * i + 5].0, pre.si@[16 * i + 9].0, pre.si@[16 * i + 13].0),
        cur.si@[16 * i + 6].0 == mix_sel(forward, 1, pre.si@[16 * i + 2].0, pre.si@[16 * i + 6].0, pre.si@[16 * i + 10].0, pre.si@[16 * i + 14].0),
        cur.si@[16 * i + 7].0 == mix_sel(forward, 1, pre.si@[16 * i + 3].0, pre.si@[16 * i + 7].0, pre.si@[16 * i + 11].0, pre.si@[16 * i + 15].0),
        cur.si@[16 * i + 8].0 == mix_sel(forward, 2, pre.si@[16 * i + 0].0, pre.si@[16 * i + 4].0, pre.si@[16 * i + 8].0, pre.si@[16 * i + 12].0),
        cur.si@[16 * i + 9].0 == mix_sel(forward, 2, pre.si@[16 * i + 1].0, pre.si@[16 * i + 5].0, pre.si@[16 * i + 9].0, pre.si@[16 * i + 13].0),
        cur.si@[16 * i + 10].0 == mix_sel(forward, 2, pre.si@[16 * i + 2].0, pre.si@[16 * i + 6].0, pre.si@[16 * i + 10].0, pre.si@[16 * i + 14].0),
        cur.si@[16 * i + 11].0 == mix_sel(forward, 2, pre.si@[16 * i + 3].0, pre.si@[16 * i + 7].0, pre.si@[16 * i + 11].0, pre.si@[16 * i + 15].0),
        cur.si@[16 * i + 12].0 == mix_sel(forward, 3, pre.si@[16 * i + 0].0, pre.si@[16 * i + 4].0, pre.si@[16 * i + 8].0, pre.si@[16 * i + 12].0),
        cur.si@[16 * i + 13].0 == mix_sel(forward, 3, pre.si@[16 * i + 1].0, pre.si@[16 * i + 5].0, pre.si@[16 * i + 9].0, pre.si@[16 * i + 13].0),
        cur.si@[16 * i + 14].0 == mix_sel(forward, 3, pre.si@[16 * i + 2].0, pre.si@[16 * i + 6].0, pre.si@[16 * i + 10].0, pre.si@[16 * i + 14].0),
        cur.si@[16 * i + 15].0 == mix_sel(forward, 3, pre.si@[16 * i + 3].0, pre.si@[16 * i + 7].0, pre.si@[16 * i + 11].0, pre.si@[16 * i + 15].0),
        cur.sii@[16 * i + 0].0 == mix_sel(forward, 0, pre.sii@[16 * i + 0].0, pre.sii@[16 * i + 4].0, pre.sii@[16 * i + 8].0, pre.sii@[16 * i + 12].0),
        cur.sii@[16 * i + 1].0 == mix_sel(forward, 0, pre.sii@[16 * i + 1].0, pre.sii@[16 * i + 5].0, pre.sii@[16 * i + 9].0, pre.sii@[16 * i + 13].0),
        cur.sii@[16 * i + 2].0 == mix_sel(forward, 0, pre.sii@[16 * i + 2].0, pre.sii@[16 * i + 6].0, pre.sii@[16 * i + 10].0, pre.sii@[16 * i + 14].0),
        cur.sii@[16 * i + 3].0 == mix_sel(forward, 0, pre.sii@[16 * i + 3].0, pre.sii@[16 * i + 7].0, pre.sii@[16 * i + 11].0, pre.sii@[16 * i + 15].0),
        cur.sii@[16 * i + 4].0 == mix_sel(forward, 1, pre.sii@[16 * i + 0].0, pre.sii@[16 * i + 4].0, pre.sii@[16 * i + 8].0, pre.sii@[16 * i + 12].0),
        cur.sii@[16 * i + 5].0 == mix_sel(forward, 1, pre.sii@[16 * i + 1].0, pre.sii@[16 * i + 5].0, pre.sii@[16 * i + 9].0, pre.sii@[16 * i + 13].0),
        cur.sii@[16 * i + 6].0 == mix_sel(forward, 1, pre.sii@[16 * i + 2].0, pre.sii@[16 * i + 6].0, pre.sii@[16 * i + 10].0, pre.sii@[16 * i + 14].0),
        cur.sii@[16 * i + 7].0 == mix_sel(forward, 1, pre.sii@[16 * i + 3].0, pre.sii@[16 * i + 7].0, pre.sii@[16 * i + 11].0, pre.sii@[16 * i + 15].0),
        cur.sii@[16 * i + 8].0 == mix_sel(forward, 2, pre.sii@[16 * i + 0].0, pre.sii@[16 * i + 4].0, pre.sii@[16 * i + 8].0, pre.sii@[16 * i + 12].0),
        cur.sii@[16 * i + 9].0 == mix_sel(forward, 2, pre.sii@[16 * i + 1].0, pre.sii@[16 * i + 5].0, pre.sii@[16 * i + 9].0, pre.sii@[16 * i + 13].0),
        cur.sii@[16 * i + 10].0 == mix_sel(forward, 2, pre.sii@[16 * i + 2].0, pre.sii@[16 * i + 6].0, pre.sii@[16 * i + 10].0, pre.sii@[16 * i + 14].0),
        cur.sii@[16 * i + 11].0 == mix_sel(forward, 2, pre.sii@[16 * i + 3].0, pre.sii@[16 * i + 7].0, pre.sii@[16 * i + 11].0, pre.sii@[16 * i + 15].0),
        cur.sii@[16 * i + 12].0 == mix_sel(forward, 3, pre.sii@[16 * i + 0].0, pre.sii@[16 * i + 4].0, pre.sii@[16 * i + 8].0, pre.sii@[16 * i + 12].0),
        cur.sii@[16 * i + 13].0 == mix_sel(forward, 3, pre.sii@[16 * i + 1].0, pre.sii@[16 * i + 5].0, pre.sii@[16 * i + 9].0, pre.sii@[16 * i + 13].0),
        cur.sii@[16 * i + 14].0 == mix_sel(forward, 3, pre.sii@[16 * i + 2].0, pre.sii@[16 * i + 6].0, pre.sii@[16 * i + 10].0, pre.sii@[16 * i + 14].0),
        cur.sii@[16 * i + 15].0 == mix_sel(forward, 3, pre.sii@[16 * i + 3].0, pre.sii@[16 * i + 7].0, pre.sii@[16 * i + 11].0, pre.sii@[16 * i + 15].0),
    ensures
        forward ==> block_of(cur.si_bytes(), i) == mix_columns_block(block_of(pre.si_bytes(), i))
            && block_of(cur.sii_bytes(), i) == mix_columns_block(block_of(pre.sii_bytes(), i)),
        !forward ==> block_of(cur.si_bytes(), i) == inv_mix_columns_block(
            block_of(pre.si_bytes(), i),
        ) && block_of(cur.sii_bytes(), i) == inv_mix_columns_block(block_of(pre.sii_bytes(), i)),
{
    let target = if forward {
        mix_columns_block(block_of(pre.si_bytes(), i))
    } else {
        inv_mix_columns_block(block_of(pre.si_bytes(), i))
    };
    let target2 = if forward {
        mix_columns_block(block_of(pre.sii_bytes(), i))
    } else {
        inv_mix_columns_block(block_of(pre.sii_bytes(), i))
    };
    assert(16 * i + 16 <= 16 * cur.n) by (nonlinear_arith)
        requires
            0 <= i < cur.n,
    ;
    assert forall|t: int| 0 <= t < 16 implies block_of(cur.si_bytes(), i)[t] == target[t]
        && block_of(cur.sii_bytes(), i)[t] == target2[t] by {
        let r = t / 4;
        let c = t % 4;
        assert(t == 4 * r + c && 0 <= r < 4 && 0 <= c < 4) by (nonlinear_arith)
            requires
                0 <= t < 16,
                r == t / 4,
                c == t % 4,
        ;
        assert((4 + c) / 4 == 1 && (4 + c) % 4 == c);
        assert((8 + c) / 4 == 2 && (8 + c) % 4 == c);
        assert((12 + c) / 4 == 3 && (12 + c) % 4 == c);
    }
    assert(block_of(cur.si_bytes(), i) =~= target);
    assert(block_of(cur.sii_bytes(), i) =~= target2);
}

/// The row function applied by MixColumns (`forward`) or InverseMixColumns
/// in row `r` of a column.
pub open spec fn mix_sel(forward: bool, r: int, a: u8, b: u8, c: u8, d: u8) -> u8 {
    if forward {
        mix_entry(r, a, b, c, d)
    } else {
        inv_mix_entry(r, a, b, c, d)
    }
}


/// One AES round key in replicated-share form: exactly 16 field-element
/// pairs, row-major.
#[derive(Clone)]
pub struct AesKeyState {
    pub si: Vec<GF8>,
    pub sii: Vec<GF8>,
}

impl Default for AesKeyState {
    /// The all-zero round key.
    fn default() -> (r: Self)
        ensures
            r.wf(),
            r.si_bytes() == Seq::new(16, |m: int| 0u8),
            r.sii_bytes() == Seq::new(16, |m: int| 0u8),
    {
        Self::new()
    }
}

impl AesKeyState {
    /// Both components hold exactly 16 field elements.
    pub open spec fn wf(self) -> bool {
        self.si@.len() == 16 && self.sii@.len() == 16
    }

    /// The bytes of the first share component, row-major.
    pub open spec fn si_bytes(self) -> Seq<u8> {
        gf8_bytes(self.si@)
    }

    /// The bytes of the second share component, row-major.
    pub open spec fn sii_bytes(self) -> Seq<u8> {
        gf8_bytes(self.sii@)
    }

    /// The all-zero round key.
    pub fn new() -> (r: Self)
        ensures
            r.wf(),
            r.si_bytes() == Seq::new(16, |m: int| 0u8),
            r.sii_bytes() == Seq::new(16, |m: int| 0u8),
    {
        let r = Self { si: zero_elements(16), sii: zero_elements(16) };
        proof {
            assert(r.si_bytes() =~= Seq::new(16, |m: int| 0u8));
            assert(r.sii_bytes() =~= Seq::new(16, |m: int| 0u8));
        }
        r
    }

    /// Interpret 16 wire-order (column-major) shares as a round key,
    /// transposing into row-major order.
    pub fn from_bytes(vec: Vec<RssShare>) -> (r: Self)
        requires
            vec@.len() == 16,
        ensures
            r.wf(),
            r.si_bytes() == transpose_blocks(rss_si_bytes(vec@)),
            r.sii_bytes() == transpose_blocks(rss_sii_bytes(vec@)),
    {
        let mut si: Vec<GF8> = Vec::new();
        let mut sii: Vec<GF8> = Vec::new();
        let mut m: usize = 0;
        while m < 16
            invariant
                vec@.len() == 16,
                m <= 16,
                si@.len() == m,
                sii@.len() == m,
                forall|t: int|
                    0 <= t < m ==> #[trigger] si@[t].0 == transpose_blocks(rss_si_bytes(vec@))[t],
                forall|t: int|
                    0 <= t < m ==> #[trigger] sii@[t].0 == transpose_blocks(rss_sii_bytes(vec@))[t],
            decreases 16 - m,
        {
            let src: usize = transpose_index(m, 16);
            si.push(vec[src].si);
            sii.push(vec[src].sii);
            m = m + 1;
        }
        let r = Self { si, sii };
        proof {
            assert(r.si_bytes() =~= transpose_blocks(rss_si_bytes(vec@)));
            assert(r.sii_bytes() =~= transpose_blocks(rss_sii_bytes(vec@)));
        }
        r
    }

    /// Interpret 16 row-major shares as a round key, in the given order.
    pub fn from_rss_vec(vec: Vec<RssShare>) -> (r: Self)
        requires
            vec@.len() == 16,
        ensures
            r.wf(),
            r.si_bytes() == rss_si_bytes(vec@),
            r.sii_bytes() == rss_sii_bytes(vec@),
    {
        let mut si: Vec<GF8> = Vec::new();
        let mut sii: Vec<GF8> = Vec::new();
        let mut m: usize = 0;
        while m < 16
            invariant
                vec@.len() == 16,
                m <= 16,
                si@.len() == m,
                sii@.len() == m,
                forall|t: int| 0 <= t < m ==> #[trigger] si@[t] == vec@[t].si,
                forall|t: int| 0 <= t < m ==> #[trigger] sii@[t] == vec@[t].sii,
            decreases 16 - m,
        {
            si.push(vec[m].si);
            sii.push(vec[m].sii);
            m = m + 1;
        }
        let r = Self { si, sii };
        proof {
            assert(r.si_bytes() =~= rss_si_bytes(vec@));
            assert(r.sii_bytes() =~= rss_sii_bytes(vec@));
        }
        r
    }

    /// The 16 share pairs of the round key, row-major.
    pub fn to_rss_vec(&self) -> (r: Vec<RssShare>)
        requires
            self.wf(),
        ensures
            r@.len() == 16,
            rss_si_bytes(r@) == self.si_bytes(),
            rss_sii_bytes(r@) == self.sii_bytes(),
    {
        let mut out: Vec<RssShare> = Vec::new();
        let mut m: usize = 0;
        while m < 16
            invariant
                self.wf(),
                m <= 16,
                out@.len() == m,
                forall|t: int| 0 <= t < m ==> #[trigger] out@[t].si == self.si@[t],
                forall|t: int| 0 <= t < m ==> #[trigger] out@[t].sii == self.sii@[t],
            decreases 16 - m,
        {
            out.push(RssShare::from(self.si[m], self.sii[m]));
            m = m + 1;
        }
        proof {
            assert(rss_si_bytes(out@) =~= self.si_bytes());
            assert(rss_sii_bytes(out@) =~= self.sii_bytes());
        }
        out
    }
}

} // verus!
