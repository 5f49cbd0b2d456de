//! The AES finite field GF(2^8): byte-valued elements with addition (XOR),
//! multiplication modulo the AES reduction polynomial x^8 + x^4 + x^3 + x + 1,
//! and the S-box affine transform and its inverse.
use vstd::prelude::*;

verus! {

/// An element of GF(2^8), represented as one byte.
#[derive(Clone, Copy, PartialEq, Eq, Structural, Debug)]
pub struct GF8(pub u8);

/// Multiplication by x in GF(2^8): shift left and reduce by the AES polynomial.
pub open spec fn xtime(x: u8) -> u8 {
    (x << 1) ^ (if x >= 0x80 { 0x1b } else { 0 })
}

/// Field multiplication, by the shift-and-add schoolbook method:
/// each set bit of `a` contributes `b` times the matching power of x.
pub open spec fn gf8_mul(a: u8, b: u8) -> u8
    decreases a,
{
    if a == 0 {
        0
    } else {
        (if a % 2 == 1 { b } else { 0 }) ^ gf8_mul(a / 2, xtime(b))
    }
}

impl GF8 {
    /// Field addition: XOR of the two bytes.
    pub fn add(self, other: GF8) -> (r: GF8)
        ensures
            r.0 == self.0 ^ other.0,
    {
        GF8(self.0 ^ other.0)
    }

    /// Field multiplication.
    pub fn mul(self, other: GF8) -> (r: GF8)
        ensures
            r.0 == gf8_mul(self.0, other.0),
    {
        let mut a: u8 = self.0;
        let mut b: u8 = other.0;
        let mut acc: u8 = 0;
        proof {
            lemma_xor_zero(gf8_mul(self.0, other.0));
        }
        while a != 0
            invariant
                gf8_mul(self.0, other.0) == acc ^ gf8_mul(a, b),
            decreases a,
        {
            let ghost old_acc: u8 = acc;
            let ghost old_a: u8 = a;
            let ghost old_b: u8 = b;
            if a % 2 == 1 {
                acc = acc ^ b;
            }
            proof {
                let contribution: u8 = if old_a % 2 == 1 { old_b } else { 0u8 };
                if old_a % 2 != 1 {
                    lemma_xor_zero(old_acc);
                    assert(0u8 ^ old_acc == old_acc ^ 0u8) by (bit_vector);
                }
                assert(acc == old_acc ^ contribution);
                lemma_xor_assoc(old_acc, contribution, gf8_mul(old_a / 2, xtime(old_b)));
            }
            a = a / 2;
            b = xtime_exec(b);
        }
        proof {
            lemma_xor_zero(acc);
            assert(0u8 ^ acc == acc ^ 0u8) by (bit_vector);
        }
        GF8(acc)
    }
}

/// Executable multiplication by x.
fn xtime_exec(x: u8) -> (r: u8)
    ensures
        r == xtime(x),
{
    (x << 1u8) ^ (if x >= 0x80 { 0x1b } else { 0 })
}

/// XOR on bytes is associative.
pub proof fn lemma_xor_assoc(a: u8, b: u8, c: u8)
    ensures
        (a ^ b) ^ c == a ^ (b ^ c),
{
    assert((a ^ b) ^ c == a ^ (b ^ c)) by (bit_vector);
}

/// Zero is the identity of XOR.
pub proof fn lemma_xor_zero(a: u8)
    ensures
        0u8 ^ a == a,
        a ^ 0u8 == a,
{
    assert(0u8 ^ a == a && a ^ 0u8 == a) by (bit_vector);
}

/// XOR on bytes is commutative.
pub proof fn lemma_xor_comm(a: u8, b: u8)
    ensures
        a ^ b == b ^ a,
{
    assert(a ^ b == b ^ a) by (bit_vector);
}

/// Every byte is its own XOR inverse.
pub proof fn lemma_xor_self(a: u8, b: u8)
    ensures
        (a ^ b) ^ b == a,
        b ^ (b ^ a) == a,
{
    assert((a ^ b) ^ b == a && b ^ (b ^ a) == a) by (bit_vector);
}


/// The linear part of the AES S-box affine transform:
/// x XORed with its four leftward byte rotations.
pub open spec fn sbox_affine(x: u8) -> u8 {
    x ^ rotl(x, 1) ^ rotl(x, 2) ^ rotl(x, 3) ^ rotl(x, 4)
}

/// The linear part of the inverse S-box affine transform.
pub open spec fn inv_sbox_affine(x: u8) -> u8 {
    rotl(x, 1) ^ rotl(x, 3) ^ rotl(x, 6)
}

/// Rotate a byte left by `k` bit positions.
pub open spec fn rotl(x: u8, k: u8) -> u8 {
    (x << k) | (x >> (8 - k) as u8)
}

impl GF8 {
    /// The linear part of the AES S-box affine transform; the caller adds
    /// the constant 0x63 separately (as a share of the public constant).
    pub fn aes_sbox_affine_transform(self) -> (r: GF8)
        ensures
            r.0 == sbox_affine(self.0),
    {
        let x: u8 = self.0;
        GF8(x ^ rotl_exec(x, 1) ^ rotl_exec(x, 2) ^ rotl_exec(x, 3) ^ rotl_exec(x, 4))
    }

    /// The linear part of the inverse S-box affine transform; the caller
    /// removes the constant 0x63 before applying it.
    pub fn inv_aes_sbox_affine_transform(self) -> (r: GF8)
        ensures
            r.0 == inv_sbox_affine(self.0),
    {
        let x: u8 = self.0;
        GF8(rotl_exec(x, 1) ^ rotl_exec(x, 3) ^ rotl_exec(x, 6))
    }
}

fn rotl_exec(x: u8, k: u8) -> (r: u8)
    requires
        0 < k < 8,
    ensures
        r == rotl(x, k),
{
    (x << k) | (x >> (8 - k))
}

/// The multiplicative inverse in GF(2^8), with 0 mapped to 0 (the AES S-box convention).
pub open spec fn gf8_inv_byte(x: u8) -> u8 {
    if x == 0 { 0x00 }
    else if x == 1 { 0x01 }
    else if x == 2 { 0x8d }
    else if x == 3 { 0xf6 }
    else if x == 4 { 0xcb }
    else if x == 5 { 0x52 }
    else if x == 6 { 0x7b }
    else if x == 7 { 0xd1 }
    else if x == 8 { 0xe8 }
    else if x == 9 { 0x4f }
    else if x == 10 { 0x29 }
    else if x == 11 { 0xc0 }
    else if x == 12 { 0xb0 }
    else if x == 13 { 0xe1 }
    else if x == 14 { 0xe5 }
    else if x == 15 { 0xc7 }
    else if x == 16 { 0x74 }
    else if x == 17 { 0xb4 }
    else if x == 18 { 0xaa }
    else if x == 19 { 0x4b }
    else if x == 20 { 0x99 }
    else if x == 21 { 0x2b }
    else if x == 22 { 0x60 }
    else if x == 23 { 0x5f }
    else if x == 24 { 0x58 }
    else if x == 25 { 0x3f }
    else if x == 26 { 0xfd }
    else if x == 27 { 0xcc }
    else if x == 28 { 0xff }
    else if x == 29 { 0x40 }
    else if x == 30 { 0xee }
    else if x == 31 { 0xb2 }
    else if x == 32 { 0x3a }
    else if x == 33 { 0x6e }
    else if x == 34 { 0x5a }
    else if x == 35 { 0xf1 }
    else if x == 36 { 0x55 }
    else if x == 37 { 0x4d }
    else if x == 38 { 0xa8 }
    else if x == 39 { 0xc9 }
    else if x == 40 { 0xc1 }
    else if x == 41 { 0x0a }
    else if x == 42 { 0x98 }
    else if x == 43 { 0x15 }
    else if x == 44 { 0x30 }
    else if x == 45 { 0x44 }
    else if x == 46 { 0xa2 }
    else if x == 47 { 0xc2 }
    else if x == 48 { 0x2c }
    else if x == 49 { 0x45 }
    else if x == 50 { 0x92 }
    else if x == 51 { 0x6c }
    else if x == 52 { 0xf3 }
    else if x == 53 { 0x39 }
    else if x == 54 { 0x66 }
    else if x == 55 { 0x42 }
    else if x == 56 { 0xf2 }
    else if x == 57 { 0x35 }
    else if x == 58 { 0x20 }
    else if x == 59 { 0x6f }
    else if x == 60 { 0x77 }
    else if x == 61 { 0xbb }
    else if x == 62 { 0x59 }
    else if x == 63 { 0x19 }
    else if x == 64 { 0x1d }
    else if x == 65 { 0xfe }
    else if x == 66 { 0x37 }
    else if x == 67 { 0x67 }
    else if x == 68 { 0x2d }
    else if x == 69 { 0x31 }
    else if x == 70 { 0xf5 }
    else if x == 71 { 0x69 }
    else if x == 72 { 0xa7 }
    else if x == 73 { 0x64 }
    else if x == 74 { 0xab }
    else if x == 75 { 0x13 }
    else if x == 76 { 0x54 }
    else if x == 77 { 0x25 }
    else if x == 78 { 0xe9 }
    else if x == 79 { 0x09 }
    else if x == 80 { 0xed }
    else if x == 81 { 0x5c }
    else if x == 82 { 0x05 }
    else if x == 83 { 0xca }
    else if x == 84 { 0x4c }
    else if x == 85 { 0x24 }
    else if x == 86 { 0x87 }
    else if x == 87 { 0xbf }
    else if x == 88 { 0x18 }
    else if x == 89 { 0x3e }
    else if x == 90 { 0x22 }
    else if x == 91 { 0xf0 }
    else if x == 92 { 0x51 }
    else if x == 93 { 0xec }
    else if x == 94 { 0x61 }
    else if x == 95 { 0x17 }
    else if x == 96 { 0x16 }
    else if x == 97 { 0x5e }
    else if x == 98 { 0xaf }
    else if x == 99 { 0xd3 }
    else if x == 100 { 0x49 }
    else if x == 101 { 0xa6 }
    else if x == 102 { 0x36 }
    else if x == 103 { 0x43 }
    else if x == 104 { 0xf4 }
    else if x == 105 { 0x47 }
    else if x == 106 { 0x91 }
    else if x == 107 { 0xdf }
    else if x == 108 { 0x33 }
    else if x == 109 { 0x93 }
    else if x == 110 { 0x21 }
    else if x == 111 { 0x3b }
    else if x == 112 { 0x79 }
    else if x == 113 { 0xb7 }
    else if x == 114 { 0x97 }
    else if x == 115 { 0x85 }
    else if x == 116 { 0x10 }
    else if x == 117 { 0xb5 }
    else if x == 118 { 0xba }
    else if x == 119 { 0x3c }
    else if x == 120 { 0xb6 }
    else if x == 121 { 0x70 }
    else if x == 122 { 0xd0 }
    else if x == 123 { 0x06 }
    else if x == 124 { 0xa1 }
    else if x == 125 { 0xfa }
    else if x == 126 { 0x81 }
    else if x == 127 { 0x82 }
    else if x == 128 { 0x83 }
    else if x == 129 { 0x7e }
    else if x == 130 { 0x7f }
    else if x == 131 { 0x80 }
    else if x == 132 { 0x96 }
    else if x == 133 { 0x73 }
    else if x == 134 { 0xbe }
    else if x == 135 { 0x56 }
    else if x == 136 { 0x9b }
    else if x == 137 { 0x9e }
    else if x == 138 { 0x95 }
    else if x == 139 { 0xd9 }
    else if x == 140 { 0xf7 }
    else if x == 141 { 0x02 }
    else if x == 142 { 0xb9 }
    else if x == 143 { 0xa4 }
    else if x == 144 { 0xde }
    else if x == 145 { 0x6a }
    else if x == 146 { 0x32 }
    else if x == 147 { 0x6d }
    else if x == 148 { 0xd8 }
    else if x == 149 { 0x8a }
    else if x == 150 { 0x84 }
    else if x == 151 { 0x72 }
    else if x == 152 { 0x2a }
    else if x == 153 { 0x14 }
    else if x == 154 { 0x9f }
    else if x == 155 { 0x88 }
    else if x == 156 { 0xf9 }
    else if x == 157 { 0xdc }
    else if x == 158 { 0x89 }
    else if x == 159 { 0x9a }
    else if x == 160 { 0xfb }
    else if x == 161 { 0x7c }
    else if x == 162 { 0x2e }
    else if x == 163 { 0xc3 }
    else if x == 164 { 0x8f }
    else if x == 165 { 0xb8 }
    else if x == 166 { 0x65 }
    else if x == 167 { 0x48 }
    else if x == 168 { 0x26 }
    else if x == 169 { 0xc8 }
    else if x == 170 { 0x12 }
    else if x == 171 { 0x4a }
    else if x == 172 { 0xce }
    else if x == 173 { 0xe7 }
    else if x == 174 { 0xd2 }
    else if x == 175 { 0x62 }
    else if x == 176 { 0x0c }
    else if x == 177 { 0xe0 }
    else if x == 178 { 0x1f }
    else if x == 179 { 0xef }
    else if x == 180 { 0x11 }
    else if x == 181 { 0x75 }
    else if x == 182 { 0x78 }
    else if x == 183 { 0x71 }
    else if x == 184 { 0xa5 }
    else if x == 185 { 0x8e }
    else if x == 186 { 0x76 }
    else if x == 187 { 0x3d }
    else if x == 188 { 0xbd }
    else if x == 189 { 0xbc }
    else if x == 190 { 0x86 }
    else if x == 191 { 0x57 }
    else if x == 192 { 0x0b }
    else if x == 193 { 0x28 }
    else if x == 194 { 0x2f }
    else if x == 195 { 0xa3 }
    else if x == 196 { 0xda }
    else if x == 197 { 0xd4 }
    else if x == 198 { 0xe4 }
    else if x == 199 { 0x0f }
    else if x == 200 { 0xa9 }
    else if x == 201 { 0x27 }
    else if x == 202 { 0x53 }
    else if x == 203 { 0x04 }
    else if x == 204 { 0x1b }
    else if x == 205 { 0xfc }
    else if x == 206 { 0xac }
    else if x == 207 { 0xe6 }
    else if x == 208 { 0x7a }
    else if x == 209 { 0x07 }
    else if x == 210 { 0xae }
    else if x == 211 { 0x63 }
    else if x == 212 { 0xc5 }
    else if x == 213 { 0xdb }
    else if x == 214 { 0xe2 }
    else if x == 215 { 0xea }
    else if x == 216 { 0x94 }
    else if x == 217 { 0x8b }
    else if x == 218 { 0xc4 }
    else if x == 219 { 0xd5 }
    else if x == 220 { 0x9d }
    else if x == 221 { 0xf8 }
    else if x == 222 { 0x90 }
    else if x == 223 { 0x6b }
    else if x == 224 { 0xb1 }
    else if x == 225 { 0x0d }
    else if x == 226 { 0xd6 }
    else if x == 227 { 0xeb }
    else if x == 228 { 0xc6 }
    else if x == 229 { 0x0e }
    else if x == 230 { 0xcf }
    else if x == 231 { 0xad }
    else if x == 232 { 0x08 }
    else if x == 233 { 0x4e }
    else if x == 234 { 0xd7 }
    else if x == 235 { 0xe3 }
    else if x == 236 { 0x5d }
    else if x == 237 { 0x50 }
    else if x == 238 { 0x1e }
    else if x == 239 { 0xb3 }
    else if x == 240 { 0x5b }
    else if x == 241 { 0x23 }
    else if x == 242 { 0x38 }
    else if x == 243 { 0x34 }
    else if x == 244 { 0x68 }
    else if x == 245 { 0x46 }
    else if x == 246 { 0x03 }
    else if x == 247 { 0x8c }
    else if x == 248 { 0xdd }
    else if x == 249 { 0x9c }
    else if x == 250 { 0x7d }
    else if x == 251 { 0xa0 }
    else if x == 252 { 0xcd }
    else if x == 253 { 0x1a }
    else if x == 254 { 0x41 }
    else { 0x1c }
}

/// The inverse table of GF(2^8), a local testing oracle; entry `x` holds `gf8_inv_byte(x)`.
pub const INV_GF8: [u8; 256] = [
    0x00, 0x01, 0x8d, 0xf6, 0xcb, 0x52, 0x7b, 0xd1, 0xe8, 0x4f, 0x29, 0xc0, 0xb0, 0xe1, 0xe5, 0xc7,
    0x74, 0xb4, 0xaa, 0x4b, 0x99, 0x2b, 0x60, 0x5f, 0x58, 0x3f, 0xfd, 0xcc, 0xff, 0x40, 0xee, 0xb2,
    0x3a, 0x6e, 0x5a, 0xf1, 0x55, 0x4d, 0xa8, 0xc9, 0xc1, 0x0a, 0x98, 0x15, 0x30, 0x44, 0xa2, 0xc2,
    0x2c, 0x45, 0x92, 0x6c, 0xf3, 0x39, 0x66, 0x42, 0xf2, 0x35, 0x20, 0x6f, 0x77, 0xbb, 0x59, 0x19,
    0x1d, 0xfe, 0x37, 0x67, 0x2d, 0x31, 0xf5, 0x69, 0xa7, 0x64, 0xab, 0x13, 0x54, 0x25, 0xe9, 0x09,
    0xed, 0x5c, 0x05, 0xca, 0x4c, 0x24, 0x87, 0xbf, 0x18, 0x3e, 0x22, 0xf0, 0x51, 0xec, 0x61, 0x17,
    0x16, 0x5e, 0xaf, 0xd3, 0x49, 0xa6, 0x36, 0x43, 0xf4, 0x47, 0x91, 0xdf, 0x33, 0x93, 0x21, 0x3b,
    0x79, 0xb7, 0x97, 0x85, 0x10, 0xb5, 0xba, 0x3c, 0xb6, 0x70, 0xd0, 0x06, 0xa1, 0xfa, 0x81, 0x82,
    0x83, 0x7e, 0x7f, 0x80, 0x96, 0x73, 0xbe, 0x56, 0x9b, 0x9e, 0x95, 0xd9, 0xf7, 0x02, 0xb9, 0xa4,
    0xde, 0x6a, 0x32, 0x6d, 0xd8, 0x8a, 0x84, 0x72, 0x2a, 0x14, 0x9f, 0x88, 0xf9, 0xdc, 0x89, 0x9a,
    0xfb, 0x7c, 0x2e, 0xc3, 0x8f, 0xb8, 0x65, 0x48, 0x26, 0xc8, 0x12, 0x4a, 0xce, 0xe7, 0xd2, 0x62,
    0x0c, 0xe0, 0x1f, 0xef, 0x11, 0x75, 0x78, 0x71, 0xa5, 0x8e, 0x76, 0x3d, 0xbd, 0xbc, 0x86, 0x57,
    0x0b, 0x28, 0x2f, 0xa3, 0xda, 0xd4, 0xe4, 0x0f, 0xa9, 0x27, 0x53, 0x04, 0x1b, 0xfc, 0xac, 0xe6,
    0x7a, 0x07, 0xae, 0x63, 0xc5, 0xdb, 0xe2, 0xea, 0x94, 0x8b, 0xc4, 0xd5, 0x9d, 0xf8, 0x90, 0x6b,
    0xb1, 0x0d, 0xd6, 0xeb, 0xc6, 0x0e, 0xcf, 0xad, 0x08, 0x4e, 0xd7, 0xe3, 0x5d, 0x50, 0x1e, 0xb3,
    0x5b, 0x23, 0x38, 0x34, 0x68, 0x46, 0x03, 0x8c, 0xdd, 0x9c, 0x7d, 0xa0, 0xcd, 0x1a, 0x41, 0x1c,
];

/// The full S-box: field inversion followed by the affine transform
/// with constant 0x63.
pub open spec fn sbox_byte(x: u8) -> u8 {
    sbox_affine(gf8_inv_byte(x)) ^ 0x63
}

/// The full inverse S-box: remove the constant, undo the affine transform,
/// then invert in the field.
pub open spec fn inv_sbox_byte(x: u8) -> u8 {
    gf8_inv_byte(inv_sbox_affine(x ^ 0x63))
}

/// The inverse affine transform undoes the forward affine transform.
pub proof fn lemma_affine_inverse(x: u8)
    ensures
        inv_sbox_affine(sbox_affine(x)) == x,
{
    assert(inv_sbox_affine(sbox_affine(x)) == x) by (bit_vector);
}

/// Field inversion (with 0 mapped to 0) is an involution.
pub proof fn lemma_gf8_inv_involution(x: u8)
    ensures
        gf8_inv_byte(gf8_inv_byte(x)) == x,
{
    assert(gf8_inv_byte(gf8_inv_byte(x)) == x) by (bit_vector);
}

/// The inverse S-box undoes the S-box.
pub proof fn lemma_sbox_round_trip(x: u8)
    ensures
        inv_sbox_byte(sbox_byte(x)) == x,
{
    lemma_xor_self(sbox_affine(gf8_inv_byte(x)), 0x63);
    lemma_affine_inverse(gf8_inv_byte(x));
    lemma_gf8_inv_involution(x);
}


/// The inverse table holds exactly the specification inverse at every
/// index: the executable testing oracle and the model agree.
pub proof fn lemma_inv_table_matches()
    ensures
        forall|i: int| 0 <= i < 256 ==> #[trigger] INV_GF8[i] == gf8_inv_byte(i as u8),
{
    assert forall|i: int| 0 <= i < 256 implies #[trigger] INV_GF8[i] == gf8_inv_byte(
        i as u8,
    ) by {
    }
}

} // verus!
