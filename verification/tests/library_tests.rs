use locksmith::library::{
    Input, DataLibrary, pad_input_string, create_data_library, get_input, get_ciphertext,
    store_ciphertext,
};
use locksmith::reference::{rust_aes_ecb, rust_aes_ctr, xor_bytes};
use locksmith::sharing::combined_key;

const SHORT_TEXT: &[u8] = b"Far over the misty mountains cold";

fn library_with_short() -> DataLibrary {
    let mut library = create_data_library();
    let (padded, num_blocks) = pad_input_string(SHORT_TEXT);
    library.create("short", Input::from_file(&padded, num_blocks));
    library
}

fn test_key() -> Vec<u8> {
    let f0: Vec<u8> = (0x00..0x10).collect();
    let f1: Vec<u8> = (0x10..0x20).collect();
    let f2: Vec<u8> = (0x20..0x30).collect();
    combined_key(&f0, &f1, &f2)
}

#[test]
fn test_rust_aes_ecb() {
    let library = library_with_short();
    let input = get_input(&library, "short");

    let ecb_rust_ciphertext: String = rust_aes_ecb(&input, &test_key());
    let ecb_locksmith_ciphertext: String = get_ciphertext(&library, "short-ecb");
    assert_eq!(ecb_rust_ciphertext, ecb_locksmith_ciphertext);
}

#[test]
fn test_rust_aes_ctr() {
    let library = library_with_short();
    let input = get_input(&library, "short");

    let ctr_rust_ciphertext: String = rust_aes_ctr(&input, &test_key(), 0);
    let ctr_locksmith_ciphertext: String = get_ciphertext(&library, "short-ctr");

    assert_eq!(ctr_rust_ciphertext, ctr_locksmith_ciphertext);
}

#[test]
fn test_ctr_is_ecb_of_counters_xor_data() {
    // CTR over zero data is the encrypted counter stream; XORing the data
    // back in reproduces the generic formula
    let (padded, n) = pad_input_string(&[0u8; 32]);
    let zero_input = Input::from_file(&padded, n);
    let key = test_key();
    let stream_hex = rust_aes_ctr(&zero_input, &key, 7);
    let counters = Input::from_nonce(7, 2);
    let ecb_hex = rust_aes_ecb(&Input::from_file(&counters.to_bytes(), 2), &key);
    assert_eq!(stream_hex, ecb_hex);
}

#[test]
fn test_xor_bytes() {
    let a: Vec<u8> = vec![0x00, 0xff, 0x5a, 0x12];
    let b: Vec<u8> = vec![0xff, 0xff, 0x0f, 0x12];
    assert_eq!(xor_bytes(&a, &b), vec![0xff, 0x00, 0x55, 0x00]);
}

#[test]
fn test_pad_input_string() {
    let (padded, n) = pad_input_string(SHORT_TEXT);
    assert_eq!(n, 3);
    assert_eq!(padded.len(), 48);
    assert_eq!(&padded[..33], SHORT_TEXT);
    assert!(padded[33..].iter().all(|&b| b == 0));

    let (p2, n2) = pad_input_string(&[1u8; 16]);
    assert_eq!(n2, 1);
    assert_eq!(p2.len(), 16);

    let (p3, n3) = pad_input_string(&[]);
    assert_eq!(n3, 0);
    assert!(p3.is_empty());
}

#[test]
fn test_input_zero_and_from_nonce() {
    let z = Input::zero(2);
    assert_eq!(z.num_blocks(), 2);
    assert_eq!(z.to_bytes(), vec![0u8; 32]);

    let ctr = Input::from_nonce(0x0102, 2);
    assert_eq!(ctr.num_blocks(), 2);
    let bytes = ctr.to_bytes();
    assert_eq!(bytes.len(), 32);
    // block 0 holds 0x0102 big-endian, block 1 holds 0x0103
    assert_eq!(&bytes[..16], &[0, 0, 0, 0, 0, 0, 0, 0, 0, 0, 0, 0, 0, 0, 0x01, 0x02]);
    assert_eq!(&bytes[16..], &[0, 0, 0, 0, 0, 0, 0, 0, 0, 0, 0, 0, 0, 0, 0x01, 0x03]);

    // wrapping at the top of the counter space
    let wrap = Input::from_nonce(u128::MAX, 2);
    let wb = wrap.to_bytes();
    assert!(wb[..16].iter().all(|&b| b == 0xff));
    assert!(wb[16..].iter().all(|&b| b == 0x00));
}

#[test]
fn test_input_clone_and_iter() {
    let input = Input::from_file(b"0123456789abcdef", 1);
    let copy = input.clone();
    assert_eq!(copy.to_bytes(), input.to_bytes());
    assert_eq!(copy.num_blocks(), 1);
    assert_eq!(input.iter().len(), 16);
    assert_eq!(input.iter()[0], b'0');
}

#[test]
fn test_data_library_lookup() {
    let mut library = DataLibrary::new();
    assert!(library.get("missing").is_none());
    assert!(library.get_ciphertext("missing").is_none());

    library.create("a", Input::zero(1));
    library.create("b", Input::from_file(b"16-byte fixture!", 1));
    assert_eq!(library.get("a").unwrap().to_bytes(), vec![0u8; 16]);
    assert_eq!(library.get("b").unwrap().to_bytes(), b"16-byte fixture!".to_vec());

    // creating under the same name replaces the entry
    library.create("a", Input::zero(2));
    assert_eq!(library.get("a").unwrap().num_blocks(), 2);

    store_ciphertext(&mut library, "ct", "deadbeef");
    assert_eq!(get_ciphertext(&library, "ct"), "deadbeef".to_string());
    store_ciphertext(&mut library, "ct", "cafe");
    assert_eq!(get_ciphertext(&library, "ct"), "cafe".to_string());
}

#[test]
fn test_create_data_library_holds_reference_ciphertexts() {
    let library = create_data_library();
    assert_eq!(
        get_ciphertext(&library, "short-ecb"),
        "da6340f38337f7f19f2c2a9bf151327e3165b40204a76a91f1f542a560713dc8945358493f31c3d45c967ad1e6404e58"
    );
    assert_eq!(
        get_ciphertext(&library, "short-ctr"),
        "c1d466ec6e520f8a8ce1000f6680df7838ba90b15327c2033be52b65cd1ac076964e0e632a4fc3dc5607450c9d4c34fb"
    );
}

#[test]
fn test_get_input_returns_stored_value() {
    let library = library_with_short();
    let input = get_input(&library, "short");
    assert_eq!(input.num_blocks(), 3);
    assert_eq!(&input.to_bytes()[..33], SHORT_TEXT);
}
