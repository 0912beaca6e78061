//! Authenticated encryption of byte strings with AES-256-GCM, and the dev-mode
//! key derived from a passphrase by SHA-256.
use vstd::prelude::*;
use aes_gcm::aead::{Aead, KeyInit};
use rand::RngCore;
use sha2::Digest;

verus! {

#[verifier::external_type_specification]
#[verifier::external_body]
pub struct ExAeadError(aes_gcm::Error);

#[verifier::external_type_specification]
#[verifier::external_body]
pub struct ExRandError(rand::Error);

/// The longest plaintext AES-GCM encrypts, in bytes.
pub const MAX_PLAINTEXT: u64 = 0x10_0000_0000;

/// The length of the authentication tag that follows every ciphertext.
pub const TAG_SIZE: usize = 16;

/// The length of an AES-GCM nonce, which leads every sealed byte string.
pub const NONCE_SIZE: usize = 12;

/// The passphrase used when none is configured (insecure; for local development).
pub const DEFAULT_PASSPHRASE: &'static str = "vyasoai-dev-default-key";

/// The SHA-256 digest of `data`.
pub uninterp spec fn sha256_digest(data: Seq<u8>) -> Seq<u8>;

/// The ciphertext and tag that AES-256-GCM makes of `plain` under `key` and `nonce`.
pub uninterp spec fn gcm_sealed(key: Seq<u8>, nonce: Seq<u8>, plain: Seq<u8>) -> Seq<u8>;

/// The plaintext that AES-256-GCM recovers from `sealed` under `key` and
/// `nonce`, or `None` where the tag does not authenticate it.
pub uninterp spec fn gcm_opened(key: Seq<u8>, nonce: Seq<u8>, sealed: Seq<u8>) -> Option<Seq<u8>>;

/// Relies on sha2::Sha256::digest: the 32-byte SHA-256 digest of the input.
#[verifier::external_body]
fn sha256(data: &[u8]) -> (r: [u8; 32])
    ensures
        r@ == sha256_digest(data@),
{
    sha2::Sha256::digest(data).into()
}

/// Relies on RngCore::try_fill_bytes of rand::rngs::OsRng: the nonce from the
/// operating system's random source, or its error; nothing is known of the bytes.
#[verifier::external_body]
pub(crate) fn random_nonce() -> (r: Result<[u8; 12], rand::Error>) {
    let mut nonce = [0u8; 12];
    match rand::rngs::OsRng.try_fill_bytes(&mut nonce) {
        Ok(()) => Ok(nonce),
        Err(e) => Err(e),
    }
}

/// Relies on aes_gcm::Aes256Gcm's Aead::encrypt: the ciphertext with its
/// 16-byte tag, which Aead::decrypt under the same key and nonce turns back
/// into `plain`; it refuses only a plaintext longer than 2^36 bytes (P_MAX).
#[verifier::external_body]
fn gcm_seal(key: &[u8; 32], nonce: &[u8], plain: &[u8]) -> (r: Result<Vec<u8>, aes_gcm::Error>)
    requires
        nonce@.len() == NONCE_SIZE,
    ensures
        r is Ok <==> plain@.len() <= MAX_PLAINTEXT,
        r matches Ok(c) ==> c@ == gcm_sealed(key@, nonce@, plain@) && gcm_opened(key@, nonce@, c@)
            == Some(plain@),
        r matches Ok(c) ==> c@.len() == plain@.len() + TAG_SIZE,
{
    let cipher = aes_gcm::Aes256Gcm::new(aes_gcm::Key::<aes_gcm::Aes256Gcm>::from_slice(key));
    cipher.encrypt(aes_gcm::Nonce::from_slice(nonce), plain)
}

/// Relies on aes_gcm::Aes256Gcm's Aead::decrypt: the plaintext where the tag
/// authenticates the ciphertext, an error where it does not.
#[verifier::external_body]
fn gcm_open(key: &[u8; 32], nonce: &[u8], sealed: &[u8]) -> (r: Result<Vec<u8>, aes_gcm::Error>)
    requires
        nonce@.len() == NONCE_SIZE,
    ensures
        match r {
            Ok(p) => gcm_opened(key@, nonce@, sealed@) == Some(p@),
            Err(_) => gcm_opened(key@, nonce@, sealed@) is None,
        },
{
    let cipher = aes_gcm::Aes256Gcm::new(aes_gcm::Key::<aes_gcm::Aes256Gcm>::from_slice(key));
    cipher.decrypt(aes_gcm::Nonce::from_slice(nonce), sealed)
}

/// The passphrase in force: the configured one, else the default.
pub open spec fn passphrase_in_force(configured: Option<&str>) -> Seq<char> {
    match configured {
        Some(p) => p@,
        None => DEFAULT_PASSPHRASE@,
    }
}

/// The key derived from a passphrase: the SHA-256 digest of its UTF-8 bytes.
pub open spec fn dev_key(configured: Option<&str>) -> Seq<u8> {
    sha256_digest(vstd::utf8::encode_utf8(passphrase_in_force(configured)))
}

/// The 32-byte key for a configured passphrase (`None` where none is set).
pub fn derive_key(configured: Option<&str>) -> (r: [u8; 32])
    ensures
        r@ == dev_key(configured),
{
    let pass = match configured {
        Some(p) => p,
        None => DEFAULT_PASSPHRASE,
    };
    sha256(pass.as_bytes())
}

/// Holds the key that blob bodies are encrypted with.
#[derive(Clone, Debug)]
pub struct KeyManager {
    pub key: [u8; 32],
}

impl KeyManager {
    /// The key manager for a configured passphrase (`None` where none is set).
    pub fn new(configured: Option<&str>) -> (r: KeyManager)
        ensures
            r.key@ == dev_key(configured),
    {
        KeyManager { key: derive_key(configured) }
    }
}

/// A failure to encrypt or decrypt.
#[derive(Debug, Clone, Copy, PartialEq, Eq, Structural)]
pub enum CryptoError {
    /// The input is shorter than a nonce.
    CipherTooShort,
    /// The tag does not authenticate the ciphertext under this key.
    AuthFailure,
    /// The cipher refused the plaintext (it is longer than AES-GCM allows).
    EncryptFailure,
    /// The operating system's random source gave no nonce.
    RandomSourceFailure,
}

/// What decrypting `input` under `key` gives: the leading nonce, then the
/// ciphertext opened under it.
pub open spec fn decrypted(key: Seq<u8>, input: Seq<u8>) -> Option<Seq<u8>> {
    if input.len() < NONCE_SIZE {
        None
    } else {
        gcm_opened(key, input.take(NONCE_SIZE as int), input.skip(NONCE_SIZE as int))
    }
}

/// `out` is `nonce || ciphertext_with_tag` for `plain` under `key`, with some nonce.
pub open spec fn encrypted_form(key: Seq<u8>, plain: Seq<u8>, out: Seq<u8>) -> bool {
    let nonce = out.take(NONCE_SIZE as int);
    let body = out.skip(NONCE_SIZE as int);
    &&& out.len() == NONCE_SIZE + plain.len() + TAG_SIZE
    &&& body == gcm_sealed(key, nonce, plain)
    &&& gcm_opened(key, nonce, body) == Some(plain)
}

/// `out` is `nonce || ciphertext_with_tag` for `plain` under `key` and this `nonce`.
pub open spec fn encrypted_with(key: Seq<u8>, nonce: Seq<u8>, plain: Seq<u8>, out: Seq<u8>) -> bool {
    &&& out == nonce + gcm_sealed(key, nonce, plain)
    &&& encrypted_form(key, plain, out)
}

/// What decrypting guarantees of its result `r` on `input` under `key`.
pub open spec fn decrypt_contract(key: Seq<u8>, input: Seq<u8>, r: Result<Vec<u8>, CryptoError>) -> bool {
    &&& (r matches Ok(p) ==> decrypted(key, input) == Some(p@))
    &&& r is Err <==> decrypted(key, input) is None
    &&& (r matches Err(CryptoError::CipherTooShort)) <==> input.len() < NONCE_SIZE
}

/// Encrypts `plain` under `key` and `nonce`; returns `nonce || ciphertext_with_tag`.
/// Fails exactly when the plaintext is longer than AES-GCM allows.
pub fn seal_with_nonce(key: &[u8; 32], nonce: &[u8; 12], plain: &[u8]) -> (r: Result<
    Vec<u8>,
    CryptoError,
>)
    ensures
        r is Ok <==> plain@.len() <= MAX_PLAINTEXT,
        r matches Ok(out) ==> encrypted_with(key@, nonce@, plain@, out@),
        r matches Err(e) ==> e == CryptoError::EncryptFailure,
{
    let sealed = match gcm_seal(key, nonce.as_slice(), plain) {
        Ok(c) => c,
        Err(_) => return Err(CryptoError::EncryptFailure),
    };
    let mut out: Vec<u8> = Vec::new();
    out.extend_from_slice(nonce.as_slice());
    out.extend_from_slice(sealed.as_slice());
    assert(out@ =~= nonce@ + sealed@);
    assert(out@.take(NONCE_SIZE as int) =~= nonce@);
    assert(out@.skip(NONCE_SIZE as int) =~= sealed@);
    Ok(out)
}

/// Encrypts `plain` under `key` with a fresh random nonce; returns
/// `nonce || ciphertext_with_tag`. Fails only where the random source gives no
/// nonce, or where the plaintext is longer than AES-GCM allows.
pub fn encrypt_bytes(key: &[u8; 32], plain: &[u8]) -> (r: Result<Vec<u8>, CryptoError>)
    ensures
        r matches Ok(out) ==> encrypted_form(key@, plain@, out@),
        r matches Err(e) ==> e == CryptoError::RandomSourceFailure || (e
            == CryptoError::EncryptFailure && plain@.len() > MAX_PLAINTEXT),
        plain@.len() > MAX_PLAINTEXT ==> r is Err,
{
    let nonce = match random_nonce() {
        Ok(n) => n,
        Err(_) => {
            if plain.len() as u64 > MAX_PLAINTEXT {
                return Err(CryptoError::EncryptFailure);
            }
            return Err(CryptoError::RandomSourceFailure);
        },
    };
    seal_with_nonce(key, &nonce, plain)
}

/// Decrypts `nonce || ciphertext_with_tag` under `key`.
pub fn decrypt_bytes(key: &[u8; 32], input: &[u8]) -> (r: Result<Vec<u8>, CryptoError>)
    ensures
        decrypt_contract(key@, input@, r),
{
    if input.len() < NONCE_SIZE {
        return Err(CryptoError::CipherTooShort);
    }
    let (nonce, body) = input.split_at(NONCE_SIZE);
    assert(nonce@ =~= input@.take(NONCE_SIZE as int));
    assert(body@ =~= input@.skip(NONCE_SIZE as int));
    match gcm_open(key, nonce, body) {
        Ok(p) => Ok(p),
        Err(_) => Err(CryptoError::AuthFailure),
    }
}

/// Decrypting what encryption produced gives the plaintext back.
pub proof fn lemma_decrypt_inverts_encrypt(
    key: Seq<u8>,
    plain: Seq<u8>,
    sealed: Seq<u8>,
    r: Result<Vec<u8>, CryptoError>,
)
    requires
        encrypted_form(key, plain, sealed),
        decrypt_contract(key, sealed, r),
    ensures
        r matches Ok(p) && p@ == plain,
{
}

/// Outputs of encryption under two different nonces differ: each begins with
/// its own nonce.
pub proof fn lemma_distinct_nonces_distinct_outputs(
    key: Seq<u8>,
    plain: Seq<u8>,
    n1: Seq<u8>,
    n2: Seq<u8>,
    out1: Seq<u8>,
    out2: Seq<u8>,
)
    requires
        n1.len() == NONCE_SIZE,
        n2.len() == NONCE_SIZE,
        n1 != n2,
        encrypted_with(key, n1, plain, out1),
        encrypted_with(key, n2, plain, out2),
    ensures
        out1 != out2,
{
    assert(out1.take(NONCE_SIZE as int) =~= n1);
    assert(out2.take(NONCE_SIZE as int) =~= n2);
}

} // verus!
