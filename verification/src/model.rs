//! The mathematical model of one AES block: each round transform as a
//! function on a 16-byte sequence in row-major order, composed into full
//! forward and inverse evaluations, with proofs that each transform and
//! the whole evaluation are invertible.
use vstd::prelude::*;
use crate::gf8::{gf8_mul, sbox_byte, inv_sbox_byte, lemma_sbox_round_trip, lemma_xor_self};

verus! {

/// Row 0 of a MixColumns output column, from the four input column bytes.
pub open spec fn mix_row0(a: u8, b: u8, c: u8, d: u8) -> u8 {
    gf8_mul(2, a) ^ gf8_mul(3, b) ^ c ^ d
}

/// Row 1 of a MixColumns output column.
pub open spec fn mix_row1(a: u8, b: u8, c: u8, d: u8) -> u8 {
    a ^ gf8_mul(2, b) ^ gf8_mul(3, c) ^ d
}

/// Row 2 of a MixColumns output column.
pub open spec fn mix_row2(a: u8, b: u8, c: u8, d: u8) -> u8 {
    a ^ b ^ gf8_mul(2, c) ^ gf8_mul(3, d)
}

/// Row 3 of a MixColumns output column.
pub open spec fn mix_row3(a: u8, b: u8, c: u8, d: u8) -> u8 {
    gf8_mul(3, a) ^ b ^ c ^ gf8_mul(2, d)
}

/// Row 0 of an InverseMixColumns output column.
pub open spec fn inv_mix_row0(a: u8, b: u8, c: u8, d: u8) -> u8 {
    gf8_mul(14, a) ^ gf8_mul(11, b) ^ gf8_mul(13, c) ^ gf8_mul(9, d)
}

/// Row 1 of an InverseMixColumns output column.
pub open spec fn inv_mix_row1(a: u8, b: u8, c: u8, d: u8) -> u8 {
    gf8_mul(9, a) ^ gf8_mul(14, b) ^ gf8_mul(11, c) ^ gf8_mul(13, d)
}

/// Row 2 of an InverseMixColumns output column.
pub open spec fn inv_mix_row2(a: u8, b: u8, c: u8, d: u8) -> u8 {
    gf8_mul(13, a) ^ gf8_mul(9, b) ^ gf8_mul(14, c) ^ gf8_mul(11, d)
}

/// Row 3 of an InverseMixColumns output column.
pub open spec fn inv_mix_row3(a: u8, b: u8, c: u8, d: u8) -> u8 {
    gf8_mul(11, a) ^ gf8_mul(13, b) ^ gf8_mul(9, c) ^ gf8_mul(14, d)
}

/// The inverse MixColumns matrix undoes the forward matrix on every column.
pub proof fn lemma_mix_column_inverse(a: u8, b: u8, c: u8, d: u8)
    ensures
        inv_mix_row0(mix_row0(a, b, c, d), mix_row1(a, b, c, d), mix_row2(a, b, c, d), mix_row3(a, b, c, d)) == a,
        inv_mix_row1(mix_row0(a, b, c, d), mix_row1(a, b, c, d), mix_row2(a, b, c, d), mix_row3(a, b, c, d)) == b,
        inv_mix_row2(mix_row0(a, b, c, d), mix_row1(a, b, c, d), mix_row2(a, b, c, d), mix_row3(a, b, c, d)) == c,
        inv_mix_row3(mix_row0(a, b, c, d), mix_row1(a, b, c, d), mix_row2(a, b, c, d), mix_row3(a, b, c, d)) == d,
{
    assert(inv_mix_row0(mix_row0(a, b, c, d), mix_row1(a, b, c, d), mix_row2(a, b, c, d), mix_row3(a, b, c, d)) == a
        && inv_mix_row1(mix_row0(a, b, c, d), mix_row1(a, b, c, d), mix_row2(a, b, c, d), mix_row3(a, b, c, d)) == b
        && inv_mix_row2(mix_row0(a, b, c, d), mix_row1(a, b, c, d), mix_row2(a, b, c, d), mix_row3(a, b, c, d)) == c
        && inv_mix_row3(mix_row0(a, b, c, d), mix_row1(a, b, c, d), mix_row2(a, b, c, d), mix_row3(a, b, c, d)) == d)
        by (bit_vector);
}

/// One block is 16 bytes, row-major.
pub open spec fn block_wf(b: Seq<u8>) -> bool {
    b.len() == 16
}

/// SubBytes: the S-box applied to every byte.
pub open spec fn sub_bytes_block(b: Seq<u8>) -> Seq<u8> {
    Seq::new(16, |m: int| sbox_byte(b[m]))
}

/// InvSubBytes: the inverse S-box applied to every byte.
pub open spec fn inv_sub_bytes_block(b: Seq<u8>) -> Seq<u8> {
    Seq::new(16, |m: int| inv_sbox_byte(b[m]))
}

/// ShiftRows: row r (bytes 4r..4r+4) rotated left by r positions.
pub open spec fn shift_rows_block(b: Seq<u8>) -> Seq<u8> {
    Seq::new(16, |m: int| b[4 * (m / 4) + ((m % 4 + m / 4) % 4)])
}

/// InvShiftRows: row r rotated right by r positions.
pub open spec fn inv_shift_rows_block(b: Seq<u8>) -> Seq<u8> {
    Seq::new(16, |m: int| b[4 * (m / 4) + ((m % 4 + 4 - m / 4) % 4)])
}

/// The MixColumns entry in row `r` of a column whose four bytes are
/// `a`, `b`, `c`, `d` (rows 0 to 3).
pub open spec fn mix_entry(r: int, a: u8, b: u8, c: u8, d: u8) -> u8 {
    if r == 0 {
        mix_row0(a, b, c, d)
    } else if r == 1 {
        mix_row1(a, b, c, d)
    } else if r == 2 {
        mix_row2(a, b, c, d)
    } else {
        mix_row3(a, b, c, d)
    }
}

/// The InverseMixColumns entry in row `r` of a column.
pub open spec fn inv_mix_entry(r: int, a: u8, b: u8, c: u8, d: u8) -> u8 {
    if r == 0 {
        inv_mix_row0(a, b, c, d)
    } else if r == 1 {
        inv_mix_row1(a, b, c, d)
    } else if r == 2 {
        inv_mix_row2(a, b, c, d)
    } else {
        inv_mix_row3(a, b, c, d)
    }
}

/// MixColumns: the fixed circulant matrix applied to every column.
pub open spec fn mix_columns_block(b: Seq<u8>) -> Seq<u8> {
    Seq::new(16, |m: int| mix_entry(m / 4, b[m % 4], b[4 + m % 4], b[8 + m % 4], b[12 + m % 4]))
}

/// InverseMixColumns: the inverse circulant matrix applied to every column.
pub open spec fn inv_mix_columns_block(b: Seq<u8>) -> Seq<u8> {
    Seq::new(16, |m: int| inv_mix_entry(m / 4, b[m % 4], b[4 + m % 4], b[8 + m % 4], b[12 + m % 4]))
}

/// AddRoundKey: byte-wise XOR of the round key into the block.
pub open spec fn add_round_key_block(b: Seq<u8>, k: Seq<u8>) -> Seq<u8> {
    Seq::new(16, |m: int| b[m] ^ k[m])
}

/// Adding the same round key twice is the identity: in GF(2^8) every key
/// is its own negation, so AddRoundKey with a key's negation undoes
/// AddRoundKey with the key itself.
pub proof fn lemma_add_round_key_involution(b: Seq<u8>, k: Seq<u8>)
    requires
        block_wf(b),
    ensures
        add_round_key_block(add_round_key_block(b, k), k) == b,
{
    assert forall|m: int| 0 <= m < 16 implies add_round_key_block(
        add_round_key_block(b, k),
        k,
    )[m] == b[m] by {
        lemma_xor_self(b[m], k[m]);
    }
    assert(add_round_key_block(add_round_key_block(b, k), k) =~= b);
}

/// InvSubBytes undoes SubBytes on a block.
pub proof fn lemma_sub_bytes_inverse(b: Seq<u8>)
    requires
        block_wf(b),
    ensures
        inv_sub_bytes_block(sub_bytes_block(b)) == b,
{
    assert forall|m: int| 0 <= m < 16 implies inv_sub_bytes_block(sub_bytes_block(b))[m]
        == b[m] by {
        lemma_sbox_round_trip(b[m]);
    }
    assert(inv_sub_bytes_block(sub_bytes_block(b)) =~= b);
}

/// InvShiftRows undoes ShiftRows on a block.
pub proof fn lemma_shift_rows_inverse(b: Seq<u8>)
    requires
        block_wf(b),
    ensures
        inv_shift_rows_block(shift_rows_block(b)) == b,
{
    assert forall|m: int| 0 <= m < 16 implies inv_shift_rows_block(shift_rows_block(b))[m]
        == b[m] by {
        let r = m / 4;
        let c = m % 4;
        let j = (c + 4 - r) % 4;
        assert(0 <= r < 4 && 0 <= c < 4 && 0 <= j < 4);
        let idx = 4 * r + j;
        assert(idx / 4 == r && idx % 4 == j) by (nonlinear_arith)
            requires
                0 <= r < 4,
                0 <= j < 4,
                idx == 4 * r + j,
        ;
        assert((j + r) % 4 == c);
    }
    assert(inv_shift_rows_block(shift_rows_block(b)) =~= b);
}

/// InverseMixColumns undoes MixColumns on a block.
pub proof fn lemma_mix_columns_inverse(b: Seq<u8>)
    requires
        block_wf(b),
    ensures
        inv_mix_columns_block(mix_columns_block(b)) == b,
{
    assert forall|m: int| 0 <= m < 16 implies inv_mix_columns_block(mix_columns_block(b))[m]
        == b[m] by {
        let r = m / 4;
        let c = m % 4;
        assert(0 <= r < 4 && 0 <= c < 4);
        assert(m == 4 * r + c);
        let mb = mix_columns_block(b);
        assert((4 + c) / 4 == 1 && (4 + c) % 4 == c);
        assert((8 + c) / 4 == 2 && (8 + c) % 4 == c);
        assert((12 + c) / 4 == 3 && (12 + c) % 4 == c);
        lemma_mix_column_inverse(b[c], b[4 + c], b[8 + c], b[12 + c]);
    }
    assert(inv_mix_columns_block(mix_columns_block(b)) =~= b);
}

/// A middle AES round: SubBytes, ShiftRows, MixColumns, AddRoundKey.
pub open spec fn full_round(b: Seq<u8>, k: Seq<u8>) -> Seq<u8> {
    add_round_key_block(mix_columns_block(shift_rows_block(sub_bytes_block(b))), k)
}

/// The final AES round: SubBytes, ShiftRows, AddRoundKey, without MixColumns.
pub open spec fn final_round(b: Seq<u8>, k: Seq<u8>) -> Seq<u8> {
    add_round_key_block(shift_rows_block(sub_bytes_block(b)), k)
}

/// The inverse of a middle round, steps undone in reverse order.
pub open spec fn inv_full_round(b: Seq<u8>, k: Seq<u8>) -> Seq<u8> {
    inv_sub_bytes_block(inv_shift_rows_block(inv_mix_columns_block(add_round_key_block(b, k))))
}

/// The inverse of the final round.
pub open spec fn inv_final_round(b: Seq<u8>, k: Seq<u8>) -> Seq<u8> {
    inv_sub_bytes_block(inv_shift_rows_block(add_round_key_block(b, k)))
}

/// The inverse of a middle round undoes it.
pub proof fn lemma_full_round_inverse(b: Seq<u8>, k: Seq<u8>)
    requires
        block_wf(b),
    ensures
        inv_full_round(full_round(b, k), k) == b,
{
    let x = mix_columns_block(shift_rows_block(sub_bytes_block(b)));
    lemma_add_round_key_involution(x, k);
    lemma_mix_columns_inverse(shift_rows_block(sub_bytes_block(b)));
    lemma_shift_rows_inverse(sub_bytes_block(b));
    lemma_sub_bytes_inverse(b);
}

/// The inverse of the final round undoes it.
pub proof fn lemma_final_round_inverse(b: Seq<u8>, k: Seq<u8>)
    requires
        block_wf(b),
    ensures
        inv_final_round(final_round(b, k), k) == b,
{
    let x = shift_rows_block(sub_bytes_block(b));
    lemma_add_round_key_involution(x, k);
    lemma_shift_rows_inverse(sub_bytes_block(b));
    lemma_sub_bytes_inverse(b);
}

/// The middle rounds `r`, `r+1`, ..., up to (excluding) the final round.
pub open spec fn middle_rounds(b: Seq<u8>, ks: Seq<Seq<u8>>, r: int) -> Seq<u8>
    decreases ks.len() - r,
{
    if r >= ks.len() - 1 {
        b
    } else {
        middle_rounds(full_round(b, ks[r]), ks, r + 1)
    }
}

/// The inverse middle rounds `r`, `r-1`, ..., down to (excluding) round 0.
pub open spec fn inv_middle_rounds(b: Seq<u8>, ks: Seq<Seq<u8>>, r: int) -> Seq<u8>
    decreases r,
{
    if r <= 0 {
        b
    } else {
        inv_middle_rounds(inv_full_round(b, ks[r]), ks, r - 1)
    }
}

/// Forward AES on one block: AddRoundKey with the cipher key, the middle
/// rounds, and the final round, exactly the FIPS-197 round structure.
pub open spec fn aes_eval_block(b: Seq<u8>, ks: Seq<Seq<u8>>) -> Seq<u8> {
    final_round(middle_rounds(add_round_key_block(b, ks[0]), ks, 1), ks[ks.len() - 1])
}

/// Inverse AES on one block: the forward steps undone in reverse order.
pub open spec fn inv_aes_eval_block(b: Seq<u8>, ks: Seq<Seq<u8>>) -> Seq<u8> {
    add_round_key_block(
        inv_middle_rounds(inv_final_round(b, ks[ks.len() - 1]), ks, ks.len() - 2),
        ks[0],
    )
}

/// The middle rounds preserve the block length.
pub proof fn lemma_middle_rounds_wf(b: Seq<u8>, ks: Seq<Seq<u8>>, r: int)
    requires
        block_wf(b),
    ensures
        block_wf(middle_rounds(b, ks, r)),
    decreases ks.len() - r,
{
    if r >= ks.len() - 1 {
    } else {
        lemma_middle_rounds_wf(full_round(b, ks[r]), ks, r + 1);
    }
}

/// Undoing the final rounds one by one: inverting what the middle rounds
/// from `r` onward did leaves exactly the inverse rounds below `r` to run.
proof fn lemma_middle_rounds_round_trip(b: Seq<u8>, ks: Seq<Seq<u8>>, r: int)
    requires
        block_wf(b),
        1 <= r <= ks.len() - 1,
    ensures
        inv_middle_rounds(middle_rounds(b, ks, r), ks, ks.len() - 2) == inv_middle_rounds(
            b,
            ks,
            r - 1,
        ),
    decreases ks.len() - r,
{
    if r == ks.len() - 1 {
    } else {
        let b1 = full_round(b, ks[r]);
        lemma_middle_rounds_round_trip(b1, ks, r + 1);
        lemma_full_round_inverse(b, ks[r]);
    }
}

/// Inverse AES undoes forward AES on every block, for every key schedule
/// of any length (so for the 128-bit and the 256-bit variant alike).
pub proof fn lemma_aes_eval_round_trip(b: Seq<u8>, ks: Seq<Seq<u8>>)
    requires
        block_wf(b),
        ks.len() >= 2,
    ensures
        inv_aes_eval_block(aes_eval_block(b, ks), ks) == b,
{
    let b0 = add_round_key_block(b, ks[0]);
    let mid = middle_rounds(b0, ks, 1);
    lemma_middle_rounds_wf(b0, ks, 1);
    lemma_final_round_inverse(mid, ks[ks.len() - 1]);
    lemma_middle_rounds_round_trip(b0, ks, 1);
    lemma_add_round_key_involution(b, ks[0]);
}

} // verus!
