//! Ed25519 keys, how a key pair is derived from a voter's credentials, and
//! how keys and signatures are written as text.
//!
//! An address is the text of a public key. Keys and signatures are held as
//! plain bytes; the `ed25519-compact` and `jwt` crates do the arithmetic and
//! the encoding, and their results are named here, not defined.

use vstd::prelude::*;
use vstd::string::StringExecFns;
use vstd::utf8::encode_utf8;

verus! {

/// A public key: 32 bytes.
#[derive(Clone, Copy, Debug)]
pub struct PublicKey {
    pub bytes: [u8; 32],
}

/// A secret key: the seed, then the public key.
#[derive(Clone, Copy, Debug)]
pub struct SecretKey {
    pub bytes: [u8; 64],
}

/// A secret key with its public key.
#[derive(Clone, Copy, Debug)]
pub struct KeyPair {
    pub pk: PublicKey,
    pub sk: SecretKey,
}

/// How the `jwt` crate reports a text that it cannot decode.
#[verifier::external_type_specification]
#[verifier::external_body]
pub struct ExJwtError(jwt::Error);

/// The text of `bytes`: the URL-safe unpadded base64 of their JSON array.
pub uninterp spec fn base64_json(bytes: Seq<u8>) -> Seq<char>;

/// The bytes that `text` is the text of, if it is the text of any.
pub uninterp spec fn base64_json_decoded(text: Seq<char>) -> Option<Seq<u8>>;

/// The public key of the key pair that Ed25519 derives from `seed`.
pub uninterp spec fn ed25519_public_key(seed: Seq<u8>) -> Seq<u8>;

/// The deterministic Ed25519 signature of `message` under `secret_key`.
pub uninterp spec fn ed25519_signature(secret_key: Seq<u8>, message: Seq<u8>) -> Seq<u8>;

/// Whether `signature` is an Ed25519 signature of `message` under `public_key`.
pub uninterp spec fn ed25519_verifies(
    public_key: Seq<u8>,
    message: Seq<u8>,
    signature: Seq<u8>,
) -> bool;

/// `ToBase64::to_base64` of the `jwt` crate on a byte vector: the bytes are
/// written as a JSON array of numbers, and that text in URL-safe base64
/// without padding. The result is named, not defined.
#[verifier::external_body]
pub fn to_base64(vec: &Vec<u8>) -> (text: String)
    ensures
        text@ == base64_json(vec@),
{
    jwt::ToBase64::to_base64(vec).unwrap().to_string()
}

/// `FromBase64::from_base64` of the `jwt` crate for a byte vector: the
/// inverse reading, which fails on a text that is no base64 or whose
/// content is no JSON array of bytes. The result is named, not defined.
#[verifier::external_body]
pub fn from_base64(s: &String) -> (r: Result<Vec<u8>, jwt::Error>)
    ensures
        match r {
            Ok(bytes) => base64_json_decoded(s@) == Some(bytes@),
            Err(_) => base64_json_decoded(s@) is None,
        },
{
    jwt::FromBase64::from_base64(s)
}

/// `KeyPair::from_seed` of the `ed25519-compact` crate, which panics on a
/// seed of zeros only. The secret key is the seed followed by the public
/// key; the public key is named, not defined.
#[verifier::external_body]
fn keypair_from_seed(seed: &[u8; 32]) -> (pair: KeyPair)
    requires
        exists|i: int| 0 <= i < 32 && seed@[i] != 0,
    ensures
        pair.pk.bytes@ == ed25519_public_key(seed@),
        pair.sk.bytes@ == seed@ + pair.pk.bytes@,
{
    let pair = ed25519_compact::KeyPair::from_seed(ed25519_compact::Seed::new(*seed));
    KeyPair { pk: PublicKey { bytes: *pair.pk }, sk: SecretKey { bytes: *pair.sk } }
}

/// `SecretKey::sign` of the `ed25519-compact` crate without noise: the
/// signature, 64 bytes, depends on the key and the message alone. It is
/// named, not defined.
#[verifier::external_body]
fn ed25519_sign(secret_key: &[u8; 64], message: &[u8]) -> (signature: Vec<u8>)
    ensures
        signature@ == ed25519_signature(secret_key@, message@),
        signature@.len() == 64,
{
    ed25519_compact::SecretKey::new(*secret_key).sign(message, None).to_vec()
}

/// `PublicKey::verify` of the `ed25519-compact` crate: whether it accepts
/// the signature. The answer is named, not defined.
#[verifier::external_body]
fn ed25519_verify(public_key: &[u8; 32], message: &[u8], signature: &[u8; 64]) -> (ok: bool)
    ensures
        ok == ed25519_verifies(public_key@, message@, signature@),
{
    ed25519_compact::PublicKey::new(*public_key).verify(
        message,
        &ed25519_compact::Signature::new(*signature),
    ).is_ok()
}

/// The first 32 bytes of `material`, with the byte 49 (the digit `1`) in
/// every place that `material` does not reach.
pub open spec fn padded_seed(material: Seq<u8>) -> Seq<u8> {
    Seq::new(
        32,
        |i: int|
            if i < material.len() {
                material[i]
            } else {
                49u8
            },
    )
}

/// The seed of a voter's key pair: made from the registration number
/// followed by the password, as UTF-8.
pub open spec fn credential_seed(password: Seq<char>, reg_no: Seq<char>) -> Seq<u8> {
    padded_seed(encode_utf8(reg_no + password))
}

/// Whether every byte of `seed` is zero.
pub open spec fn all_zero(seed: Seq<u8>) -> bool {
    forall|i: int| 0 <= i < seed.len() ==> seed[i] == 0
}

/// The seed of a voter's key pair.
pub fn seed_from_credentials(password: &String, reg_no: &String) -> (seed: [u8; 32])
    ensures
        seed@ == credential_seed(password@, reg_no@),
{
    let mut combined = reg_no.clone();
    combined.append(password.as_str());
    let material = combined.as_str().as_bytes();
    let mut seed = [0u8; 32];
    let mut i: usize = 0;
    while i < 32
        invariant
            i <= 32,
            material@ == encode_utf8(reg_no@ + password@),
            forall|j: int| 0 <= j < i ==> seed@[j] == padded_seed(material@)[j],
        decreases 32 - i,
    {
        if i < material.len() {
            seed[i] = material[i];
        } else {
            seed[i] = 49;
        }
        i += 1;
    }
    assert(seed@ =~= padded_seed(material@));
    seed
}

fn is_all_zero(seed: &[u8; 32]) -> (r: bool)
    ensures
        r == all_zero(seed@),
{
    let mut i: usize = 0;
    while i < 32
        invariant
            i <= 32,
            forall|j: int| 0 <= j < i ==> seed@[j] == 0,
        decreases 32 - i,
    {
        if seed[i] != 0 {
            return false;
        }
        i += 1;
    }
    true
}

/// The key pair of a seed; none for the seed of zeros, which Ed25519 refuses.
pub fn keypair_of_seed(seed: &[u8; 32]) -> (r: Option<KeyPair>)
    ensures
        match r {
            Some(pair) => !all_zero(seed@) && pair.pk.bytes@ == ed25519_public_key(seed@)
                && pair.sk.bytes@ == seed@ + pair.pk.bytes@,
            None => all_zero(seed@),
        },
{
    if is_all_zero(seed) {
        None
    } else {
        Some(keypair_from_seed(seed))
    }
}

/// The key pair of a voter, derived from the password and the registration
/// number alone: the same credentials give the same keys. There is none
/// where the seed is all zeros.
pub fn generate_keys(password: &String, reg_no: &String) -> (r: Option<KeyPair>)
    ensures
        match r {
            Some(pair) => {
                let seed = credential_seed(password@, reg_no@);
                !all_zero(seed) && pair.pk.bytes@ == ed25519_public_key(seed) && pair.sk.bytes@
                    == seed + pair.pk.bytes@
            },
            None => all_zero(credential_seed(password@, reg_no@)),
        },
{
    let seed = seed_from_credentials(password, reg_no);
    keypair_of_seed(&seed)
}

/// The bytes of `v` as an array of 32, if there are 32.
fn array_32(v: &Vec<u8>) -> (r: Option<[u8; 32]>)
    ensures
        match r {
            Some(a) => a@ == v@,
            None => v@.len() != 32,
        },
{
    if v.len() != 32 {
        return None;
    }
    let mut a = [0u8; 32];
    let mut i: usize = 0;
    while i < 32
        invariant
            i <= 32,
            v.len() == 32,
            forall|j: int| 0 <= j < i ==> a@[j] == v@[j],
        decreases 32 - i,
    {
        a[i] = v[i];
        i += 1;
    }
    assert(a@ =~= v@);
    Some(a)
}

/// The bytes of `v` as an array of 64, if there are 64.
fn array_64(v: &Vec<u8>) -> (r: Option<[u8; 64]>)
    ensures
        match r {
            Some(a) => a@ == v@,
            None => v@.len() != 64,
        },
{
    if v.len() != 64 {
        return None;
    }
    let mut a = [0u8; 64];
    let mut i: usize = 0;
    while i < 64
        invariant
            i <= 64,
            v.len() == 64,
            forall|j: int| 0 <= j < i ==> a@[j] == v@[j],
        decreases 64 - i,
    {
        a[i] = v[i];
        i += 1;
    }
    assert(a@ =~= v@);
    Some(a)
}

/// The address of a public key: its text.
pub open spec fn address_of(public_key: Seq<u8>) -> Seq<char> {
    base64_json(public_key)
}

impl SecretKey {
    /// The public half of the key: its last 32 bytes.
    pub fn public_key(&self) -> (pk: PublicKey)
        ensures
            pk.bytes@ == self.bytes@.subrange(32, 64),
    {
        let mut bytes = [0u8; 32];
        let mut i: usize = 0;
        while i < 32
            invariant
                i <= 32,
                forall|j: int| 0 <= j < i ==> bytes@[j] == self.bytes@[32 + j],
            decreases 32 - i,
        {
            bytes[i] = self.bytes[32 + i];
            i += 1;
        }
        assert(bytes@ =~= self.bytes@.subrange(32, 64));
        PublicKey { bytes }
    }

    /// The signature of `message` under this key, 64 bytes.
    pub fn sign(&self, message: &[u8]) -> (signature: Vec<u8>)
        ensures
            signature@ == ed25519_signature(self.bytes@, message@),
            signature@.len() == 64,
    {
        ed25519_sign(&self.bytes, message)
    }
}

impl PublicKey {
    /// The address that this key signs for.
    pub fn to_address(&self) -> (address: String)
        ensures
            address@ == address_of(self.bytes@),
    {
        let mut v: Vec<u8> = Vec::new();
        let mut i: usize = 0;
        while i < 32
            invariant
                i <= 32,
                v@ == self.bytes@.take(i as int),
            decreases 32 - i,
        {
            v.push(self.bytes[i]);
            assert(self.bytes@.take(i + 1) == self.bytes@.take(i as int).push(self.bytes@[i as int]));
            i += 1;
        }
        assert(self.bytes@.take(32) == self.bytes@);
        to_base64(&v)
    }
}

/// Whether `signature` is a signature of `message` under `key`: never for a
/// key that is not 32 bytes or a signature that is not 64.
pub open spec fn signature_holds(key: Seq<u8>, message: Seq<u8>, signature: Seq<u8>) -> bool {
    key.len() == 32 && signature.len() == 64 && ed25519_verifies(key, message, signature)
}

/// Checks a signature given as bytes against a key given as bytes.
pub fn check_signature(key: &Vec<u8>, message: &[u8], signature: &Vec<u8>) -> (ok: bool)
    ensures
        ok == signature_holds(key@, message@, signature@),
{
    match array_32(key) {
        Some(k) => match array_64(signature) {
            Some(s) => ed25519_verify(&k, message, &s),
            None => false,
        },
        None => false,
    }
}

/// The public key that `pk` is the address of: there is one where the text
/// decodes to 32 bytes.
pub fn pk_from_string(pk: &String) -> (r: Option<PublicKey>)
    ensures
        match r {
            Some(key) => base64_json_decoded(pk@) == Some(key.bytes@),
            None => match base64_json_decoded(pk@) {
                Some(bytes) => bytes.len() != 32,
                None => true,
            },
        },
{
    match from_base64(pk) {
        Ok(bytes) => match array_32(&bytes) {
            Some(a) => Some(PublicKey { bytes: a }),
            None => None,
        },
        Err(_) => None,
    }
}

} // verus!
