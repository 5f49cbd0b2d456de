//! Plaintext inputs and the fixture library: named inputs padded to whole
//! 16-byte blocks, counter-derived inputs for the CTR usage pattern, and a
//! store of reference ciphertexts keyed by name. Reading fixture files from
//! disk is the caller's concern; this module holds and serves the values.
use vstd::prelude::*;
use vstd::slice::slice_to_vec;

verus! {

/// A plaintext input: a byte string padded to whole 16-byte blocks,
/// together with its block count.
#[derive(Debug)]
pub struct Input {
    input_string: Vec<u8>,
    num_blocks: usize,
}

/// The byte at big-endian position `j` of a 128-bit value.
pub open spec fn be_byte(x: u128, j: int) -> u8 {
    (x >> (8 * (15 - j)) as u128) as u8
}

impl Clone for Input {
    /// An exact copy: same bytes, same block count.
    fn clone(&self) -> (r: Self)
        ensures
            r.bytes() == self.bytes(),
            r.spec_num_blocks() == self.spec_num_blocks(),
    {
        Input { input_string: copy_bytes(&self.input_string), num_blocks: self.num_blocks }
    }
}

impl Input {
    /// The padded byte string.
    pub closed spec fn bytes(&self) -> Seq<u8> {
        self.input_string@
    }

    /// The number of 16-byte blocks.
    pub closed spec fn spec_num_blocks(&self) -> usize {
        self.num_blocks
    }

    /// An input from an already padded byte string and its block count.
    pub fn from_file(input_string: &[u8], num_blocks: usize) -> (r: Self)
        ensures
            r.bytes() == input_string@,
            r.spec_num_blocks() == num_blocks,
    {
        Input { input_string: slice_to_vec(input_string), num_blocks }
    }

    /// The padded byte string, as an owned vector.
    pub fn to_bytes(&self) -> (r: Vec<u8>)
        ensures
            r@ == self.bytes(),
    {
        copy_bytes(&self.input_string)
    }

    /// An all-zero input of the given block count.
    pub fn zero(num_blocks: usize) -> (r: Self)
        requires
            16 * num_blocks <= usize::MAX,
        ensures
            r.bytes() == Seq::new(16 * num_blocks as nat, |m: int| 0u8),
            r.spec_num_blocks() == num_blocks,
    {
        let len: usize = num_blocks * 16;
        let mut v: Vec<u8> = Vec::new();
        let mut i: usize = 0;
        while i < len
            invariant
                v@.len() == i,
                i <= len,
                forall|t: int| 0 <= t < i ==> v@[t] == 0u8,
            decreases len - i,
        {
            v.push(0u8);
            i = i + 1;
        }
        proof {
            assert(v@ =~= Seq::new(16 * num_blocks as nat, |m: int| 0u8));
        }
        Input { input_string: v, num_blocks }
    }

    /// The counter input for CTR mode: block `i` holds the big-endian bytes
    /// of `input + i`, with wrapping addition.
    pub fn from_nonce(input: u128, blocks: usize) -> (r: Self)
        requires
            16 * blocks <= usize::MAX,
        ensures
            r.spec_num_blocks() == blocks,
            r.bytes().len() == 16 * blocks,
            forall|i: int, j: int|
                0 <= i < blocks && 0 <= j < 16 ==> #[trigger] r.bytes()[16 * i + j] == be_byte(
                    counter_block_value(input, i),
                    j,
                ),
    {
        let mut v: Vec<u8> = Vec::new();
        let mut i: usize = 0;
        while i < blocks
            invariant
                16 * blocks <= usize::MAX,
                i <= blocks,
                v@.len() == 16 * i,
                forall|b: int, j: int|
                    0 <= b < i && 0 <= j < 16 ==> #[trigger] v@[16 * b + j] == be_byte(
                        counter_block_value(input, b),
                        j,
                    ),
            decreases blocks - i,
        {
            proof {
                assert(16 * i + 16 <= 16 * blocks) by (nonlinear_arith)
                    requires
                        i < blocks,
                ;
            }
            let x: u128 = input.wrapping_add(i as u128);
            let ghost snap: Seq<u8> = v@;
            let mut j: usize = 0;
            while j < 16
                invariant
                    v@.len() == snap.len() + j,
                    snap.len() + 16 <= usize::MAX,
                    j <= 16,
                    x == counter_block_value(input, i as int),
                    forall|t: int| 0 <= t < snap.len() ==> #[trigger] v@[t] == snap[t],
                    forall|t: int| 0 <= t < j ==> #[trigger] v@[snap.len() + t] == be_byte(x, t),
                decreases 16 - j,
            {
                let shift: u32 = 8 * (15 - (j as u32));
                v.push((x >> shift) as u8);
                j = j + 1;
            }
            let ghost prev_i: int = i as int;
            i = i + 1;
            proof {
                assert forall|b: int, j2: int| 0 <= b < i && 0 <= j2 < 16 implies #[trigger] v@[16
                    * b + j2] == be_byte(counter_block_value(input, b), j2) by {
                    if b < prev_i {
                        assert(16 * b + j2 < 16 * prev_i) by (nonlinear_arith)
                            requires
                                0 <= b < prev_i,
                                0 <= j2 < 16,
                        ;
                        assert(v@[16 * b + j2] == snap[16 * b + j2]);
                    } else {
                        assert(16 * b + j2 == snap.len() + j2);
                        assert(v@[snap.len() + j2] == be_byte(x, j2));
                    }
                }
            }
        }
        Input { input_string: v, num_blocks: blocks }
    }

    /// A borrow of the padded byte string, for callers that walk it.
    pub fn iter(&self) -> (r: &Vec<u8>)
        ensures
            r@ == self.bytes(),
    {
        &self.input_string
    }

    /// The number of 16-byte blocks.
    pub fn num_blocks(&self) -> (r: usize)
        ensures
            r == self.spec_num_blocks(),
    {
        self.num_blocks
    }
}

/// The 128-bit value whose big-endian bytes form counter block `i`.
pub open spec fn counter_block_value(input: u128, i: int) -> u128 {
    vstd::wrapping::u128_specs::wrapping_add(input, i as u128)
}

/// An exact copy of a byte vector.
fn copy_bytes(v: &Vec<u8>) -> (r: Vec<u8>)
    ensures
        r@ == v@,
{
    let len: usize = v.len();
    let mut out: Vec<u8> = Vec::new();
    let mut i: usize = 0;
    while i < len
        invariant
            v@.len() == len,
            out@.len() == i,
            i <= len,
            forall|t: int| 0 <= t < i ==> out@[t] == v@[t],
        decreases len - i,
    {
        out.push(v[i]);
        i = i + 1;
    }
    proof {
        assert(out@ =~= v@);
    }
    out
}


/// The map an association list denotes: later entries override earlier
/// ones, matching insertion into a keyed store.
pub open spec fn assoc_map<T>(s: Seq<(String, T)>) -> Map<Seq<char>, T>
    decreases s.len(),
{
    if s.len() == 0 {
        Map::empty()
    } else {
        assoc_map(s.drop_last()).insert(s.last().0@, s.last().1)
    }
}

/// The map a list of named strings denotes, by value view: later entries
/// override earlier ones.
pub open spec fn assoc_str_map(s: Seq<(String, String)>) -> Map<Seq<char>, Seq<char>>
    decreases s.len(),
{
    if s.len() == 0 {
        Map::empty()
    } else {
        assoc_str_map(s.drop_last()).insert(s.last().0@, s.last().1@)
    }
}

/// The fixture library: named plaintext inputs and named reference
/// ciphertexts. Creating an entry under an existing name replaces it.
pub struct DataLibrary {
    inputs: Vec<(String, Input)>,
    ciphertexts: Vec<(String, String)>,
}

impl DataLibrary {
    /// The inputs by name.
    pub closed spec fn inputs_map(&self) -> Map<Seq<char>, Input> {
        assoc_map(self.inputs@)
    }

    /// The ciphertexts by name.
    pub closed spec fn ciphertexts_map(&self) -> Map<Seq<char>, Seq<char>> {
        assoc_str_map(self.ciphertexts@)
    }

    /// An empty library.
    pub fn new() -> (r: Self)
        ensures
            r.inputs_map() == Map::<Seq<char>, Input>::empty(),
            r.ciphertexts_map() == Map::<Seq<char>, Seq<char>>::empty(),
    {
        DataLibrary { inputs: Vec::new(), ciphertexts: Vec::new() }
    }

    /// Store an input under a name, replacing any previous entry.
    pub fn create(&mut self, name: &str, input: Input)
        ensures
            final(self).inputs_map() == old(self).inputs_map().insert(name@, input),
            final(self).ciphertexts_map() == old(self).ciphertexts_map(),
    {
        let ghost before: Seq<(String, Input)> = self.inputs@;
        self.inputs.push((name.to_string(), input));
        proof {
            assert(self.inputs@.drop_last() =~= before);
        }
    }

    /// Look an input up by name.
    pub fn get(&self, name: &str) -> (r: Option<&Input>)
        ensures
            match r {
                Some(v) => self.inputs_map().contains_key(name@) && *v == self.inputs_map()[name@],
                None => !self.inputs_map().contains_key(name@),
            },
    {
        let key: String = name.to_string();
        let mut i: usize = self.inputs.len();
        proof {
            assert(self.inputs@.subrange(0, self.inputs@.len() as int) =~= self.inputs@);
        }
        while i > 0
            invariant
                key@ == name@,
                i <= self.inputs@.len(),
                assoc_map(self.inputs@.subrange(0, i as int)).contains_key(name@)
                    == self.inputs_map().contains_key(name@),
                assoc_map(self.inputs@.subrange(0, i as int)).contains_key(name@)
                    ==> assoc_map(self.inputs@.subrange(0, i as int))[name@]
                    == self.inputs_map()[name@],
            decreases i,
        {
            i = i - 1;
            proof {
                assert(self.inputs@.subrange(0, i + 1).drop_last() =~= self.inputs@.subrange(
                    0,
                    i as int,
                ));
                assert(self.inputs@.subrange(0, i + 1).last() == self.inputs@[i as int]);
            }
            if self.inputs[i].0 == key {
                return Some(&self.inputs[i].1);
            }
        }
        proof {
            assert(self.inputs@.subrange(0, 0) =~= Seq::<(String, Input)>::empty());
        }
        None
    }

    /// Store a ciphertext under a name, replacing any previous entry.
    pub fn store_ciphertext(&mut self, name: &str, ciphertext: &str)
        ensures
            final(self).ciphertexts_map() == old(self).ciphertexts_map().insert(
                name@,
                ciphertext@,
            ),
            final(self).inputs_map() == old(self).inputs_map(),
    {
        let ghost before: Seq<(String, String)> = self.ciphertexts@;
        self.ciphertexts.push((name.to_string(), ciphertext.to_string()));
        proof {
            assert(self.ciphertexts@.drop_last() =~= before);
        }
    }

    /// Look a ciphertext up by name.
    pub fn get_ciphertext(&self, name: &str) -> (r: Option<&String>)
        ensures
            match r {
                Some(v) => self.ciphertexts_map().contains_key(name@) && v@
                    == self.ciphertexts_map()[name@],
                None => !self.ciphertexts_map().contains_key(name@),
            },
    {
        let key: String = name.to_string();
        let mut i: usize = self.ciphertexts.len();
        proof {
            assert(self.ciphertexts@.subrange(0, self.ciphertexts@.len() as int)
                =~= self.ciphertexts@);
        }
        while i > 0
            invariant
                key@ == name@,
                i <= self.ciphertexts@.len(),
                assoc_str_map(self.ciphertexts@.subrange(0, i as int)).contains_key(name@)
                    == self.ciphertexts_map().contains_key(name@),
                assoc_str_map(self.ciphertexts@.subrange(0, i as int)).contains_key(name@)
                    ==> assoc_str_map(self.ciphertexts@.subrange(0, i as int))[name@]
                    == self.ciphertexts_map()[name@],
            decreases i,
        {
            i = i - 1;
            proof {
                assert(self.ciphertexts@.subrange(0, i + 1).drop_last()
                    =~= self.ciphertexts@.subrange(0, i as int));
                assert(self.ciphertexts@.subrange(0, i + 1).last() == self.ciphertexts@[i as int]);
            }
            if self.ciphertexts[i].0 == key {
                return Some(&self.ciphertexts[i].1);
            }
        }
        proof {
            assert(self.ciphertexts@.subrange(0, 0) =~= Seq::<(String, String)>::empty());
        }
        None
    }
}

/// Pad a byte string with zeros to a whole number of 16-byte blocks, and
/// return it with its block count.
pub fn pad_input_string(input_string: &[u8]) -> (r: (Vec<u8>, usize))
    requires
        input_string@.len() + 15 <= usize::MAX,
    ensures
        r.0@.len() == 16 * r.1,
        r.0@.len() >= input_string@.len(),
        r.0@.len() < input_string@.len() + 16,
        r.0@.subrange(0, input_string@.len() as int) == input_string@,
        forall|t: int| input_string@.len() <= t < r.0@.len() ==> r.0@[t] == 0u8,
{
    let len: usize = input_string.len();
    let padding_len: usize = (16 - (len % 16)) % 16;
    let total: usize = len + padding_len;
    let mut out: Vec<u8> = slice_to_vec(input_string);
    let mut i: usize = 0;
    while i < padding_len
        invariant
            out@.len() == len + i,
            i <= padding_len,
            out@.subrange(0, len as int) == input_string@,
            forall|t: int| len <= t < out@.len() ==> out@[t] == 0u8,
        decreases padding_len - i,
    {
        out.push(0u8);
        proof {
            assert(out@.subrange(0, len as int) =~= out@.drop_last().subrange(0, len as int));
        }
        i = i + 1;
    }
    let num_blocks: usize = total / 16;
    proof {
        assert(16 * (total / 16) == total && total - len < 16) by (nonlinear_arith)
            requires
                total == len + (16 - (len % 16)) % 16,
                padding_len == (16 - (len % 16)) % 16,
        ;
    }
    (out, num_blocks)
}

/// A fresh fixture library holding the reference ciphertexts. Plaintext
/// fixtures come from files, which only the caller can read; it adds them
/// with `create`.
pub fn create_data_library() -> (r: DataLibrary)
    ensures
        r.ciphertexts_map() == Map::<Seq<char>, Seq<char>>::empty().insert(
            "short-ecb"@,
            "da6340f38337f7f19f2c2a9bf151327e3165b40204a76a91f1f542a560713dc8945358493f31c3d45c967ad1e6404e58"@,
        ).insert(
            "short-ctr"@,
            "c1d466ec6e520f8a8ce1000f6680df7838ba90b15327c2033be52b65cd1ac076964e0e632a4fc3dc5607450c9d4c34fb"@,
        ),
        r.inputs_map() == Map::<Seq<char>, Input>::empty(),
{
    let mut library = DataLibrary::new();
    library.store_ciphertext(
        "short-ecb",
        "da6340f38337f7f19f2c2a9bf151327e3165b40204a76a91f1f542a560713dc8945358493f31c3d45c967ad1e6404e58",
    );
    library.store_ciphertext(
        "short-ctr",
        "c1d466ec6e520f8a8ce1000f6680df7838ba90b15327c2033be52b65cd1ac076964e0e632a4fc3dc5607450c9d4c34fb",
    );
    library
}

/// The input stored under `name`, which must exist.
pub fn get_input(library: &DataLibrary, name: &str) -> (r: Input)
    requires
        library.inputs_map().contains_key(name@),
    ensures
        r.bytes() == library.inputs_map()[name@].bytes(),
        r.spec_num_blocks() == library.inputs_map()[name@].spec_num_blocks(),
{
    let found = library.get(name);
    match found {
        Some(v) => v.clone(),
        None => {
            proof {
                assert(false);
            }
            Input::zero(0)
        },
    }
}

/// Store a reference ciphertext under a name.
pub fn store_ciphertext(library: &mut DataLibrary, name: &str, ciphertext: &str)
    ensures
        final(library).ciphertexts_map() == old(library).ciphertexts_map().insert(
            name@,
            ciphertext@,
        ),
        final(library).inputs_map() == old(library).inputs_map(),
{
    library.store_ciphertext(name, ciphertext);
}

/// The ciphertext stored under `name`, which must exist.
pub fn get_ciphertext(library: &DataLibrary, name: &str) -> (r: String)
    requires
        library.ciphertexts_map().contains_key(name@),
    ensures
        r@ == library.ciphertexts_map()[name@],
{
    let found = library.get_ciphertext(name);
    match found {
        Some(v) => v.clone(),
        None => {
            proof {
                assert(false);
            }
            String::new()
        },
    }
}

} // verus!
