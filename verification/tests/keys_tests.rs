use devote::keys::{
    check_signature, from_base64, generate_keys, keypair_of_seed,
    pk_from_string, seed_from_credentials, to_base64, PublicKey, SecretKey,
};

const ALICE: &str = "WzgzLDI0LDEzNiwxMDQsMTg3LDcwLDE2NywxNzIsMjQ2LDE3MSwyMzcsMTY1LDgyLDI0NywxLDIwNiw0OSw4MSw4Myw2LDE3OSwxODcsODYsMjAzLDEwLDkxLDYzLDI1MSwyNTEsMjE3LDE1NywyMjdd";

const ALICE_KEY: [u8; 32] = [
    83, 24, 136, 104, 187, 70, 167, 172, 246, 171, 237, 165, 82, 247, 1, 206, 49, 81, 83, 6, 179,
    187, 86, 203, 10, 91, 63, 251, 251, 217, 157, 227,
];

const KEY_OF_42: [u8; 32] = [
    25, 127, 107, 35, 225, 108, 133, 50, 198, 171, 200, 56, 250, 205, 94, 167, 137, 190, 12, 118,
    178, 146, 3, 52, 3, 155, 250, 139, 61, 54, 141, 97,
];

const SIGNATURE_OF_42: [u8; 64] = [
    196, 182, 1, 15, 182, 182, 231, 166, 227, 62, 243, 85, 49, 174, 169, 9, 162, 196, 98, 104, 30,
    81, 22, 38, 184, 136, 253, 128, 10, 160, 128, 105, 127, 130, 138, 164, 57, 86, 94, 160, 216,
    85, 153, 139, 81, 100, 38, 124, 235, 210, 26, 95, 231, 90, 73, 206, 33, 216, 171, 15, 188,
    181, 136, 7,
];

#[test]
fn seed_is_registration_number_then_password_then_ones() {
    let seed = seed_from_credentials(&"password".to_string(), &"182830994".to_string());
    assert_eq!(&seed, b"182830994password111111111111111");
}

#[test]
fn seed_of_empty_credentials_is_all_ones() {
    let seed = seed_from_credentials(&String::new(), &String::new());
    assert_eq!(seed, [49u8; 32]);
}

#[test]
fn seed_is_cut_at_32_bytes() {
    let reg_no = "0123456789012345678901234567890123456789".to_string();
    let seed = seed_from_credentials(&"secret".to_string(), &reg_no);
    assert_eq!(&seed, b"01234567890123456789012345678901");
}

#[test]
fn seed_uses_utf8_bytes() {
    let seed = seed_from_credentials(&"é".to_string(), &"a".to_string());
    let mut expected = [49u8; 32];
    expected[0] = b'a';
    expected[1] = 0xc3;
    expected[2] = 0xa9;
    assert_eq!(seed, expected);
}

#[test]
fn keys_of_known_credentials() {
    let pair = generate_keys(&"password".to_string(), &"182830994".to_string()).unwrap();
    assert_eq!(pair.pk.bytes, ALICE_KEY);
    assert_eq!(&pair.sk.bytes[..32], b"182830994password111111111111111");
    assert_eq!(&pair.sk.bytes[32..], &ALICE_KEY);
    assert_eq!(pair.pk.to_address(), ALICE);
}

#[test]
fn same_credentials_same_keys() {
    let a = generate_keys(&"pw".to_string(), &"17".to_string()).unwrap();
    let b = generate_keys(&"pw".to_string(), &"17".to_string()).unwrap();
    let c = generate_keys(&"pw".to_string(), &"18".to_string()).unwrap();
    assert_eq!(a.pk.bytes, b.pk.bytes);
    assert_eq!(a.sk.bytes, b.sk.bytes);
    assert_ne!(a.pk.bytes, c.pk.bytes);
}

#[test]
fn no_keys_for_the_seed_of_zeros() {
    let zeros = "\0".repeat(32);
    assert!(generate_keys(&"password".to_string(), &zeros).is_none());
    assert!(keypair_of_seed(&[0u8; 32]).is_none());
    let mut almost = [0u8; 32];
    almost[31] = 1;
    assert!(keypair_of_seed(&almost).is_some());
}

#[test]
fn key_pair_of_a_seed() {
    let pair = keypair_of_seed(&[42u8; 32]).unwrap();
    assert_eq!(pair.pk.bytes, KEY_OF_42);
    assert_eq!(&pair.sk.bytes[..32], &[42u8; 32]);
    assert_eq!(&pair.sk.bytes[32..], &KEY_OF_42);
    assert_eq!(pair.sk.public_key().bytes, KEY_OF_42);
}

#[test]
fn signature_of_a_known_message() {
    let pair = keypair_of_seed(&[42u8; 32]).unwrap();
    let signature = pair.sk.sign(b"Hello, World!");
    assert_eq!(signature, SIGNATURE_OF_42.to_vec());
}

#[test]
fn check_signature_accepts_only_the_signed_message() {
    let key = KEY_OF_42.to_vec();
    let signature = SIGNATURE_OF_42.to_vec();
    assert!(check_signature(&key, b"Hello, World!", &signature));
    assert!(!check_signature(&key, b"Hello, world!", &signature));
    assert!(!check_signature(&ALICE_KEY.to_vec(), b"Hello, World!", &signature));
}

#[test]
fn check_signature_refuses_wrong_lengths() {
    let key = KEY_OF_42.to_vec();
    let signature = SIGNATURE_OF_42.to_vec();
    assert!(!check_signature(&key[..31].to_vec(), b"Hello, World!", &signature));
    assert!(!check_signature(&key, b"Hello, World!", &signature[..63].to_vec()));
    assert!(!check_signature(&vec![], b"Hello, World!", &vec![]));
}

#[test]
fn base64_of_bytes() {
    assert_eq!(to_base64(&vec![1, 2, 3]), "WzEsMiwzXQ");
    assert_eq!(to_base64(&vec![]), "W10");
    assert_eq!(to_base64(&ALICE_KEY.to_vec()), ALICE);
}

#[test]
fn bytes_of_base64() {
    assert_eq!(from_base64(&"WzEsMiwzXQ".to_string()).unwrap(), vec![1, 2, 3]);
    assert_eq!(from_base64(&ALICE.to_string()).unwrap(), ALICE_KEY.to_vec());
    assert_eq!(from_base64(&"W10".to_string()).unwrap(), Vec::<u8>::new());
}

#[test]
fn base64_that_is_not_bytes() {
    assert!(from_base64(&"not base64 !".to_string()).is_err());
    assert!(from_base64(&"0000000000000000".to_string()).is_err());
    assert!(from_base64(&"".to_string()).is_err());
    assert!(from_base64(&"WzI1Nl0".to_string()).is_err());
}

#[test]
fn public_key_of_an_address() {
    let key = pk_from_string(&ALICE.to_string()).unwrap();
    assert_eq!(key.bytes, ALICE_KEY);
    assert_eq!(key.to_address(), ALICE);
}

#[test]
fn no_public_key_in_other_text() {
    assert!(pk_from_string(&"WzEsMiwzXQ".to_string()).is_none());
    assert!(pk_from_string(&"alice".to_string()).is_none());
    assert!(pk_from_string(&"0000000000000000".to_string()).is_none());
}

#[test]
fn public_half_of_a_secret_key() {
    let mut bytes = [0u8; 64];
    for i in 0..64usize {
        bytes[i] = i as u8;
    }
    let sk = SecretKey { bytes };
    let pk: PublicKey = sk.public_key();
    let mut expected = [0u8; 32];
    for i in 0..32usize {
        expected[i] = (32 + i) as u8;
    }
    assert_eq!(pk.bytes, expected);
}
