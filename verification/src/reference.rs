//! The reference (non-MPC) AES: ECB and CTR encryption of a padded input
//! under a locally known key, used to compare the secure evaluation's
//! reconstructed output against the standard cipher. The block cipher
//! itself comes from the `aes` crate and the hex rendering from the `hex`
//! crate, both behind trusted wrappers; the chunking, the counter blocks
//! and the keystream XOR are verified here.
use vstd::prelude::*;
use aes::cipher::{BlockEncrypt, KeyInit};
use aes::cipher::generic_array::GenericArray;
use crate::library::{Input, be_byte, counter_block_value};

verus! {

/// The AES-128 ciphertext block for one key and one plaintext block. What
/// this value is takes the whole cipher to state; it is a function of the
/// key and the block alone, and the `aes` crate computes it.
pub uninterp spec fn aes128_block_of(key: Seq<u8>, block: Seq<u8>) -> Seq<u8>;

/// The lowercase hex digit for a value below 16.
pub open spec fn hex_digit(n: u8) -> char {
    if n == 0 {
        '0'
    } else if n == 1 {
        '1'
    } else if n == 2 {
        '2'
    } else if n == 3 {
        '3'
    } else if n == 4 {
        '4'
    } else if n == 5 {
        '5'
    } else if n == 6 {
        '6'
    } else if n == 7 {
        '7'
    } else if n == 8 {
        '8'
    } else if n == 9 {
        '9'
    } else if n == 10 {
        'a'
    } else if n == 11 {
        'b'
    } else if n == 12 {
        'c'
    } else if n == 13 {
        'd'
    } else if n == 14 {
        'e'
    } else {
        'f'
    }
}

/// The lowercase hex rendering of a byte string: two digits per byte, high
/// nibble first.
pub open spec fn hex_str(b: Seq<u8>) -> Seq<char> {
    Seq::new(2 * b.len(), |i: int| hex_digit(if i % 2 == 0 { b[i / 2] >> 4u8 } else { b[i / 2] & 0x0fu8 }))
}

/// The ECB ciphertext: each 16-byte block encrypted independently.
pub open spec fn ecb_ciphertext(key: Seq<u8>, data: Seq<u8>) -> Seq<u8>
    decreases data.len(),
{
    if data.len() < 16 {
        Seq::empty()
    } else {
        aes128_block_of(key, data.subrange(0, 16)) + ecb_ciphertext(key, data.skip(16))
    }
}

/// The big-endian bytes of a 128-bit value.
pub open spec fn be_bytes(x: u128) -> Seq<u8> {
    Seq::new(16, |j: int| be_byte(x, j))
}

/// The CTR ciphertext: byte `t` of the data XORed with byte `t % 16` of the
/// encrypted counter block `t / 16`, where counter block `i` holds the
/// big-endian bytes of `nonce + i` (wrapping).
pub open spec fn ctr_ciphertext(key: Seq<u8>, data: Seq<u8>, nonce: u128) -> Seq<u8> {
    Seq::new(
        data.len(),
        |t: int| data[t] ^ aes128_block_of(key, be_bytes(counter_block_value(nonce, t / 16)))[t
            % 16],
    )
}

/// Relies on `aes::Aes128` with `cipher::BlockEncrypt::encrypt_block`: the
/// ciphertext block for a 16-byte key and a 16-byte block, 16 bytes that
/// depend on the key and the block alone.
#[verifier::external_body]
fn aes128_encrypt_block(key: &Vec<u8>, block: &Vec<u8>) -> (r: Vec<u8>)
    requires
        key@.len() == 16,
        block@.len() == 16,
    ensures
        r@ == aes128_block_of(key@, block@),
        r@.len() == 16,
{
    let cipher = aes::Aes128::new(GenericArray::from_slice(key));
    let mut b = GenericArray::clone_from_slice(block);
    cipher.encrypt_block(&mut b);
    b.to_vec()
}

/// Relies on `hex::encode`: two lowercase hex digits per byte, high nibble
/// first.
#[verifier::external_body]
fn hex_encode(bytes: &Vec<u8>) -> (r: String)
    ensures
        r@ == hex_str(bytes@),
{
    hex::encode(bytes)
}

/// ECB encryption of a padded input under a cleartext key, rendered as a
/// lowercase hex string: every 16-byte block encrypted independently with
/// the standard cipher.
pub fn rust_aes_ecb(input: &Input, key: &Vec<u8>) -> (r: String)
    requires
        key@.len() == 16,
        input.bytes().len() % 16 == 0,
    ensures
        r@ == hex_str(ecb_ciphertext(key@, input.bytes())),
        r@.len() == 2 * input.bytes().len(),
{
    let data: Vec<u8> = input.to_bytes();
    let len: usize = data.len();
    let mut ciphertext: Vec<u8> = Vec::new();
    let mut base: usize = 0;
    while base < len
        invariant
            data@ == input.bytes(),
            data@.len() == len,
            len % 16 == 0,
            base <= len,
            base % 16 == 0,
            key@.len() == 16,
            ciphertext@.len() == base,
            ciphertext@ == ecb_ciphertext(key@, data@.subrange(0, base as int)),
        decreases len - base,
    {
        proof {
            assert(base + 16 <= len) by (nonlinear_arith)
                requires
                    base < len,
                    base % 16 == 0,
                    len % 16 == 0,
            ;
        }
        let mut block: Vec<u8> = Vec::new();
        let mut j: usize = 0;
        while j < 16
            invariant
                base + 16 <= len,
                data@.len() == len,
                block@.len() == j,
                j <= 16,
                forall|t: int| 0 <= t < j ==> block@[t] == data@[base + t],
            decreases 16 - j,
        {
            block.push(data[base + j]);
            j = j + 1;
        }
        proof {
            assert(block@ =~= data@.subrange(base as int, base + 16));
        }
        let mut encrypted: Vec<u8> = aes128_encrypt_block(key, &block);
        ciphertext.append(&mut encrypted);
        proof {
            lemma_ecb_snoc(key@, data@.subrange(0, base as int), block@);
            assert(data@.subrange(0, base as int) + block@ =~= data@.subrange(0, base + 16));
        }
        base = base + 16;
    }
    proof {
        assert(data@.subrange(0, len as int) =~= data@);
    }
    hex_encode(&ciphertext)
}

/// CTR encryption of an input under a cleartext key, rendered as a
/// lowercase hex string: each 16-byte chunk XORed with the encryption of
/// its counter block, the counters starting at the nonce.
pub fn rust_aes_ctr(input: &Input, key: &Vec<u8>, nonce: u128) -> (r: String)
    requires
        key@.len() == 16,
        input.bytes().len() % 16 == 0,
    ensures
        r@ == hex_str(ctr_ciphertext(key@, input.bytes(), nonce)),
        r@.len() == 2 * input.bytes().len(),
{
    let data: Vec<u8> = input.to_bytes();
    let len: usize = data.len();
    let mut ciphertext: Vec<u8> = Vec::new();
    let mut base: usize = 0;
    let mut ctr: u128 = 0;
    while base < len
        invariant
            data@ == input.bytes(),
            data@.len() == len,
            len % 16 == 0,
            base <= len,
            base % 16 == 0,
            base == 16 * ctr,
            key@.len() == 16,
            ciphertext@.len() == base,
            forall|t: int|
                0 <= t < base ==> #[trigger] ciphertext@[t] == (data@[t] ^ aes128_block_of(
                    key@,
                    be_bytes(counter_block_value(nonce, t / 16)),
                )[t % 16]),
        decreases len - base,
    {
        proof {
            assert(base + 16 <= len) by (nonlinear_arith)
                requires
                    base < len,
                    base % 16 == 0,
                    len % 16 == 0,
            ;
        }
        let x: u128 = nonce.wrapping_add(ctr);
        let mut counter_block: Vec<u8> = Vec::new();
        let mut j: usize = 0;
        while j < 16
            invariant
                counter_block@.len() == j,
                j <= 16,
                forall|t: int| 0 <= t < j ==> #[trigger] counter_block@[t] == be_byte(x, t),
            decreases 16 - j,
        {
            let shift: u32 = 8 * (15 - (j as u32));
            counter_block.push((x >> shift) as u8);
            j = j + 1;
        }
        proof {
            assert(counter_block@ =~= be_bytes(x));
        }
        let encrypted: Vec<u8> = aes128_encrypt_block(key, &counter_block);
        let ghost prev_base: int = base as int;
        let mut j2: usize = 0;
        while j2 < 16
            invariant
                base + 16 <= len,
                base == prev_base,
                data@.len() == len,
                encrypted@ == aes128_block_of(key@, be_bytes(x)),
                encrypted@.len() == 16,
                ciphertext@.len() == base + j2,
                j2 <= 16,
                x == counter_block_value(nonce, ctr as int),
                base == 16 * ctr,
                key@.len() == 16,
                forall|t: int|
                    0 <= t < base ==> #[trigger] ciphertext@[t] == (data@[t] ^ aes128_block_of(
                        key@,
                        be_bytes(counter_block_value(nonce, t / 16)),
                    )[t % 16]),
                forall|t: int|
                    0 <= t < j2 ==> #[trigger] ciphertext@[base + t] == (data@[base + t]
                        ^ encrypted@[t]),
            decreases 16 - j2,
        {
            ciphertext.push(data[base + j2] ^ encrypted[j2]);
            j2 = j2 + 1;
        }
        let ghost old_ctr: int = ctr as int;
        base = base + 16;
        ctr = ctr.wrapping_add(1);
        proof {
            assert(ctr == old_ctr + 1 && base == 16 * ctr) by (nonlinear_arith)
                requires
                    base == 16 * old_ctr + 16,
                    0 <= old_ctr,
                    16 * old_ctr + 16 <= usize::MAX,
                    ctr == vstd::wrapping::u128_specs::wrapping_add(old_ctr as u128, 1u128),
            ;
            assert forall|t: int| 0 <= t < base implies #[trigger] ciphertext@[t] == (data@[t]
                ^ aes128_block_of(key@, be_bytes(counter_block_value(nonce, t / 16)))[t
                % 16]) by {
                if t >= prev_base {
                    let t2 = t - prev_base;
                    assert(ciphertext@[prev_base + t2] == (data@[prev_base + t2]
                        ^ encrypted@[t2]));
                    assert(t / 16 == old_ctr && t % 16 == t2) by (nonlinear_arith)
                        requires
                            t == prev_base + t2,
                            0 <= t2 < 16,
                            prev_base == 16 * old_ctr,
                            old_ctr >= 0,
                    ;
                }
            }
        }
    }
    proof {
        assert(ciphertext@ =~= ctr_ciphertext(key@, input.bytes(), nonce));
    }
    hex_encode(&ciphertext)
}


/// XOR a keystream into caller-supplied data, byte by byte: the CTR-mode
/// combination of an encrypted counter stream with the plaintext.
pub fn xor_bytes(data: &Vec<u8>, stream: &Vec<u8>) -> (r: Vec<u8>)
    requires
        data@.len() == stream@.len(),
    ensures
        r@.len() == data@.len(),
        forall|i: int| 0 <= i < r@.len() ==> #[trigger] r@[i] == (data@[i] ^ stream@[i]),
{
    let len: usize = data.len();
    let mut out: Vec<u8> = Vec::new();
    let mut i: usize = 0;
    while i < len
        invariant
            data@.len() == len,
            stream@.len() == len,
            out@.len() == i,
            i <= len,
            forall|t: int| 0 <= t < i ==> #[trigger] out@[t] == (data@[t] ^ stream@[t]),
        decreases len - i,
    {
        out.push(data[i] ^ stream[i]);
        i = i + 1;
    }
    out
}

/// Extending the data by one block appends that block's ciphertext.
proof fn lemma_ecb_snoc(key: Seq<u8>, data: Seq<u8>, block: Seq<u8>)
    requires
        data.len() % 16 == 0,
        block.len() == 16,
    ensures
        ecb_ciphertext(key, data + block) == ecb_ciphertext(key, data) + aes128_block_of(
            key,
            block,
        ),
    decreases data.len(),
{
    if data.len() == 0 {
        assert((data + block).subrange(0, 16) =~= block);
        assert((data + block).skip(16) =~= Seq::<u8>::empty());
        assert(ecb_ciphertext(key, (data + block).skip(16)) =~= Seq::<u8>::empty());
        assert(ecb_ciphertext(key, data) =~= Seq::<u8>::empty());
        assert(ecb_ciphertext(key, data + block) =~= aes128_block_of(key, block));
        assert(ecb_ciphertext(key, data) + aes128_block_of(key, block) =~= aes128_block_of(
            key,
            block,
        ));
    } else {
        assert((data + block).subrange(0, 16) =~= data.subrange(0, 16));
        assert((data + block).skip(16) =~= data.skip(16) + block);
        assert(data.skip(16).len() % 16 == 0) by (nonlinear_arith)
            requires
                data.len() % 16 == 0,
                data.len() >= 16,
        ;
        lemma_ecb_snoc(key, data.skip(16), block);
        assert(ecb_ciphertext(key, data + block) =~= ecb_ciphertext(key, data) + aes128_block_of(
            key,
            block,
        ));
    }
}

} // verus!
