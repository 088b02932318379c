//! Password hashing and vault encryption.
//!
//! A password and a salt are stretched with Argon2 (default parameters) into a
//! 32-byte key. The vault text is encrypted with AES-256-GCM-SIV under that key
//! and a 12-byte nonce; the nonce is prepended to the ciphertext and the whole
//! is encoded as base64 without padding.

use vstd::prelude::*;
use vstd::utf8::{decode_utf8, encode_utf8, valid_utf8};
use aes_gcm_siv::aead::{Aead, AeadCore, KeyInit, OsRng};
use aes_gcm_siv::{Aes256GcmSiv, Key, Nonce};
use base64::Engine;

verus! {

broadcast use {vstd::utf8::encode_utf8_valid_utf8, vstd::utf8::encode_utf8_decode_utf8};

#[verifier::external_type_specification]
#[verifier::external_body]
pub struct ExArgon2Error(argon2::Error);

#[verifier::external_type_specification]
#[verifier::external_body]
pub struct ExAeadError(aes_gcm_siv::aead::Error);

#[verifier::external_type_specification]
#[verifier::external_body]
pub struct ExBase64DecodeError(base64::DecodeError);

#[verifier::external_type_specification]
#[verifier::external_body]
pub struct ExUtf8Error(core::str::Utf8Error);

/// What can go wrong while hashing a password or while encrypting or
/// decrypting the vault.
#[derive(Debug, Clone, Copy, PartialEq, Eq, Structural)]
pub enum CryptError {
    /// Argon2 refused the password or the salt.
    Hash,
    /// The stored vault is not valid base64.
    Base64Decode,
    /// The cipher could not be built from the key.
    Cipher,
    /// Encryption failed, or decryption failed to authenticate (wrong password).
    Decryption,
    /// The decrypted vault is not valid UTF-8.
    UTF8,
}

impl CryptError {
    /// The message shown to the user for this error.
    pub fn message(&self) -> (m: &'static str)
        ensures
            m@ == crypt_error_message(*self),
    {
        match self {
            CryptError::Hash => "Failed to create hash from password.",
            CryptError::Base64Decode => "Failed to decode base64",
            CryptError::Cipher => "Failed to create crypto cipher, likely invalid length nonce",
            CryptError::Decryption => "Incorrect password.",
            CryptError::UTF8 => "Failed to decode utf8.",
        }
    }
}

/// The message of each [`CryptError`].
pub open spec fn crypt_error_message(e: CryptError) -> Seq<char> {
    match e {
        CryptError::Hash => "Failed to create hash from password."@,
        CryptError::Base64Decode => "Failed to decode base64"@,
        CryptError::Cipher => "Failed to create crypto cipher, likely invalid length nonce"@,
        CryptError::Decryption => "Incorrect password."@,
        CryptError::UTF8 => "Failed to decode utf8."@,
    }
}

// ---------------------------------------------------------------------------
// Argon2

/// The 32-byte key that Argon2 with its default parameters (Argon2id, v19)
/// derives from a password and a salt.
pub uninterp spec fn argon2_default_hash(password: Seq<u8>, salt: Seq<u8>) -> Seq<u8>;

/// The inputs that Argon2 accepts: a password of at most `0xFFFF_FFFF` bytes
/// and a salt of 8 to `0xFFFF_FFFF` bytes.
pub open spec fn argon2_accepts(password: Seq<u8>, salt: Seq<u8>) -> bool {
    &&& password.len() <= 0xFFFF_FFFF
    &&& 8 <= salt.len() <= 0xFFFF_FFFF
}

/// Calls `argon2::Argon2::default().hash_password_into` with a 32-byte output.
/// Trusted: it fails exactly when the password is too long or the salt too
/// short or too long (the output length of 32 is always accepted), and
/// otherwise fills the output with the Argon2 hash of the password and salt.
#[verifier::external_body]
fn argon2_hash_into(password: &[u8], salt: &[u8]) -> (r: Result<[u8; 32], argon2::Error>)
    ensures
        r is Ok <==> argon2_accepts(password@, salt@),
        r matches Ok(h) ==> h@ == argon2_default_hash(password@, salt@),
{
    let mut okm = [0u8; 32];
    match argon2::Argon2::default().hash_password_into(password, salt, &mut okm) {
        Ok(()) => Ok(okm),
        Err(e) => Err(e),
    }
}

/// What [`password_hash`] returns for a password and a salt.
pub open spec fn spec_password_hash(password: Seq<char>, salt: Seq<char>) -> Result<Seq<u8>, CryptError> {
    if argon2_accepts(encode_utf8(password), encode_utf8(salt)) {
        Ok(argon2_default_hash(encode_utf8(password), encode_utf8(salt)))
    } else {
        Err(CryptError::Hash)
    }
}

/// The key view of a hashing result.
pub open spec fn key_result_view(r: Result<[u8; 32], CryptError>) -> Result<Seq<u8>, CryptError> {
    match r {
        Ok(h) => Ok(h@),
        Err(e) => Err(e),
    }
}

/// Derives the 32-byte vault key from a password and a salt (both taken as
/// their UTF-8 bytes).
pub fn password_hash(password: String, salt: String) -> (r: Result<[u8; 32], CryptError>)
    ensures
        key_result_view(r) == spec_password_hash(password@, salt@),
{
    match argon2_hash_into(password.as_str().as_bytes(), salt.as_str().as_bytes()) {
        Ok(h) => Ok(h),
        Err(_) => Err(CryptError::Hash),
    }
}

// ---------------------------------------------------------------------------
// AES-256-GCM-SIV

/// The largest plaintext, in bytes, that AES-GCM-SIV encrypts (2^36).
pub open spec fn aead_max_plaintext() -> nat {
    0x10_0000_0000
}

/// The ciphertext (with its 16-byte tag appended) that AES-256-GCM-SIV makes
/// of a plaintext under a key and a nonce, with no associated data.
pub uninterp spec fn aes256_gcm_siv_seal(key: Seq<u8>, nonce: Seq<u8>, plaintext: Seq<u8>) -> Seq<u8>;

/// The plaintext that AES-256-GCM-SIV recovers from a ciphertext under a key
/// and a nonce, with no associated data; `None` when it does not authenticate.
pub uninterp spec fn aes256_gcm_siv_open(key: Seq<u8>, nonce: Seq<u8>, ciphertext: Seq<u8>) -> Option<Seq<u8>>;

/// Calls `Aes256GcmSiv::new(key).encrypt(nonce, plaintext)`; building the
/// cipher from a 32-byte key cannot fail.
/// Trusted: it fails exactly when the plaintext is longer than 2^36 bytes,
/// and otherwise returns the sealed ciphertext: the plaintext's length in
/// encrypted bytes followed by the 16-byte tag.
#[verifier::external_body]
fn aes_seal(key: &[u8; 32], nonce: &[u8; 12], plaintext: &[u8]) -> (r: Result<Vec<u8>, aes_gcm_siv::aead::Error>)
    ensures
        r is Ok <==> plaintext@.len() <= aead_max_plaintext(),
        r matches Ok(c) ==> c@ == aes256_gcm_siv_seal(key@, nonce@, plaintext@),
        r matches Ok(c) ==> c@.len() == plaintext@.len() + 16,
{
    Aes256GcmSiv::new(Key::<Aes256GcmSiv>::from_slice(key)).encrypt(Nonce::from_slice(nonce), plaintext)
}

/// Calls `Aes256GcmSiv::new(key).decrypt(nonce, ciphertext)`; building the
/// cipher from a 32-byte key cannot fail.
/// Trusted: it returns the opened plaintext when the ciphertext
/// authenticates and fails otherwise; and, as an authenticated cipher does,
/// it gives back the plaintext of any ciphertext that encryption made under
/// the same key and nonce.
#[verifier::external_body]
fn aes_open(key: &[u8; 32], nonce: &[u8; 12], ciphertext: &[u8]) -> (r: Result<Vec<u8>, aes_gcm_siv::aead::Error>)
    ensures
        r matches Ok(p) ==> aes256_gcm_siv_open(key@, nonce@, ciphertext@) == Some(p@),
        r is Err ==> aes256_gcm_siv_open(key@, nonce@, ciphertext@) is None,
        forall|p: Seq<u8>| p.len() <= aead_max_plaintext() && #[trigger] aes256_gcm_siv_seal(key@, nonce@, p) == ciphertext@ ==> (r is Ok && r->Ok_0@ == p),
{
    Aes256GcmSiv::new(Key::<Aes256GcmSiv>::from_slice(key)).decrypt(Nonce::from_slice(nonce), ciphertext)
}

/// Calls `Aes256GcmSiv::generate_nonce(&mut OsRng)`: 12 random bytes from the
/// operating system. Nothing is stated of the bytes.
#[verifier::external_body]
fn generate_nonce() -> (n: [u8; 12]) {
    Aes256GcmSiv::generate_nonce(&mut OsRng).into()
}

// ---------------------------------------------------------------------------
// Base64 and UTF-8

/// The standard base64 encoding of some bytes, without padding.
pub uninterp spec fn base64_encode_no_pad(bytes: Seq<u8>) -> Seq<char>;

/// The bytes that a text decodes to as standard base64 without padding;
/// `None` when it is not such base64.
pub uninterp spec fn base64_decode_no_pad(text: Seq<char>) -> Option<Seq<u8>>;

/// Calls `base64::engine::general_purpose::STANDARD_NO_PAD.encode`.
/// Trusted: the result is the encoding of the bytes; it carries no `=`
/// padding, and the same engine decodes it back to the bytes.
#[verifier::external_body]
fn b64_encode(bytes: &[u8]) -> (r: String)
    ensures
        r@ == base64_encode_no_pad(bytes@),
        forall|i: int| 0 <= i < r@.len() ==> r@[i] != '=',
        base64_decode_no_pad(r@) == Some(bytes@),
{
    base64::engine::general_purpose::STANDARD_NO_PAD.encode(bytes)
}

/// Calls `base64::engine::general_purpose::STANDARD_NO_PAD.decode`.
/// Trusted: it returns the decoded bytes or fails when the text is not such
/// base64; and decoding gives back the bytes of any text that encoding made.
#[verifier::external_body]
fn b64_decode(text: &str) -> (r: Result<Vec<u8>, base64::DecodeError>)
    ensures
        r matches Ok(b) ==> base64_decode_no_pad(text@) == Some(b@),
        r is Err ==> base64_decode_no_pad(text@) is None,
        forall|b: Seq<u8>| #[trigger] base64_encode_no_pad(b) == text@ ==> (r is Ok && r->Ok_0@ == b),
{
    base64::engine::general_purpose::STANDARD_NO_PAD.decode(text)
}

/// Calls `core::str::from_utf8` and copies the text into a `String`.
/// Trusted: it succeeds exactly on valid UTF-8, with the decoded characters.
#[verifier::external_body]
fn utf8_to_string(bytes: &[u8]) -> (r: Result<String, core::str::Utf8Error>)
    ensures
        r is Ok <==> valid_utf8(bytes@),
        r matches Ok(s) ==> s@ == decode_utf8(bytes@),
{
    match core::str::from_utf8(bytes) {
        Ok(s) => Ok(s.to_string()),
        Err(e) => Err(e),
    }
}

// ---------------------------------------------------------------------------
// The vault

/// The text view of a result.
pub open spec fn text_result_view(r: Result<String, CryptError>) -> Result<Seq<char>, CryptError> {
    match r {
        Ok(s) => Ok(s@),
        Err(e) => Err(e),
    }
}

/// The stored form of a vault text: base64 of the nonce followed by the
/// AES-256-GCM-SIV ciphertext of the text's UTF-8 bytes.
pub open spec fn sealed_vault(plaintext: Seq<char>, hash: Seq<u8>, nonce: Seq<u8>) -> Seq<char> {
    base64_encode_no_pad(nonce + aes256_gcm_siv_seal(hash, nonce, encode_utf8(plaintext)))
}

/// A text with no `=` padding.
pub open spec fn no_padding(text: Seq<char>) -> bool {
    forall|i: int| 0 <= i < text.len() ==> text[i] != '='
}

/// The layout of a stored vault: unpadded base64 that decodes to the 12-byte
/// nonce followed by the ciphertext, which is 16 bytes (the tag) longer than
/// the text's UTF-8 bytes.
pub open spec fn sealed_layout(stored: Seq<char>, plaintext: Seq<char>, nonce: Seq<u8>) -> bool {
    &&& no_padding(stored)
    &&& base64_decode_no_pad(stored) matches Some(b)
    &&& b.len() == 12 + encode_utf8(plaintext).len() + 16
    &&& b.take(12) == nonce
}

/// A stored vault whose decoded bytes, if any, are long enough to hold the
/// 12-byte nonce.
pub open spec fn vault_payload_framed(payload: Seq<char>) -> bool {
    base64_decode_no_pad(payload) matches Some(b) ==> b.len() >= 12
}

/// What [`open_decoded_vault`] returns for the decoded bytes of a stored
/// vault (nonce, then ciphertext) and a key.
pub open spec fn spec_open_decoded(b: Seq<u8>, hash: Seq<u8>) -> Result<Seq<char>, CryptError> {
    match aes256_gcm_siv_open(hash, b.take(12), b.skip(12)) {
        None => Err(CryptError::Decryption),
        Some(p) => if valid_utf8(p) {
            Ok(decode_utf8(p))
        } else {
            Err(CryptError::UTF8)
        },
    }
}

/// What [`decrypt_vault`] returns for a stored vault and a key.
pub open spec fn spec_decrypt_vault(payload: Seq<char>, hash: Seq<u8>) -> Result<Seq<char>, CryptError> {
    match base64_decode_no_pad(payload) {
        None => Err(CryptError::Base64Decode),
        Some(b) => spec_open_decoded(b, hash),
    }
}

/// A vault text that encryption accepts (at most 2^36 bytes of UTF-8).
pub open spec fn vault_text_fits(plaintext: Seq<char>) -> bool {
    encode_utf8(plaintext).len() <= aead_max_plaintext()
}

/// Decrypts the decoded bytes of a stored vault with a key: the first 12
/// bytes are the nonce, the rest the ciphertext.
pub fn open_decoded_vault(decoded: Vec<u8>, hash: [u8; 32]) -> (r: Result<String, CryptError>)
    requires
        decoded@.len() >= 12,
    ensures
        text_result_view(r) == spec_open_decoded(decoded@, hash@),
        forall|p: Seq<char>, n: Seq<u8>|
            n.len() == 12 && vault_text_fits(p) && #[trigger] aes256_gcm_siv_seal(hash@, n, encode_utf8(p)) == decoded@.skip(12)
                && n == decoded@.take(12) ==> (r is Ok && r->Ok_0@ == p),
{
    let mut nonce_bytes = decoded;
    let cyphertext = nonce_bytes.split_off(12);
    let nonce: [u8; 12] = [
        nonce_bytes[0], nonce_bytes[1], nonce_bytes[2], nonce_bytes[3],
        nonce_bytes[4], nonce_bytes[5], nonce_bytes[6], nonce_bytes[7],
        nonce_bytes[8], nonce_bytes[9], nonce_bytes[10], nonce_bytes[11],
    ];
    assert(nonce@ =~= nonce_bytes@);
    let plaintext = match aes_open(&hash, &nonce, cyphertext.as_slice()) {
        Ok(p) => p,
        Err(_) => return Err(CryptError::Decryption),
    };
    match utf8_to_string(plaintext.as_slice()) {
        Ok(s) => Ok(s),
        Err(_) => Err(CryptError::UTF8),
    }
}

/// Decrypts a stored vault with a key.
pub fn decrypt_vault(payload: String, hash: [u8; 32]) -> (r: Result<String, CryptError>)
    requires
        vault_payload_framed(payload@),
    ensures
        text_result_view(r) == spec_decrypt_vault(payload@, hash@),
        forall|p: Seq<char>, n: Seq<u8>|
            n.len() == 12 && vault_text_fits(p) && #[trigger] sealed_vault(p, hash@, n) == payload@
                ==> (r matches Ok(s) && s@ == p),
{
    let decoded = match b64_decode(payload.as_str()) {
        Ok(b) => b,
        Err(_) => return Err(CryptError::Base64Decode),
    };
    proof {
        assert forall|p: Seq<char>, n: Seq<u8>|
            n.len() == 12 && vault_text_fits(p) && #[trigger] sealed_vault(p, hash@, n) == payload@
            implies n == decoded@.take(12) && aes256_gcm_siv_seal(hash@, n, encode_utf8(p)) == decoded@.skip(12) by {
            let c = aes256_gcm_siv_seal(hash@, n, encode_utf8(p));
            assert((n + c).take(12) =~= n);
            assert((n + c).skip(12) =~= c);
        }
    }
    open_decoded_vault(decoded, hash)
}

/// Whether a stored vault's decoded bytes, if any, can hold the nonce. Every
/// vault that encryption made can.
pub(crate) fn vault_framed(payload: &str) -> (r: bool)
    ensures
        r == vault_payload_framed(payload@),
        forall|p: Seq<char>, h: Seq<u8>, n: Seq<u8>|
            n.len() == 12 && #[trigger] sealed_vault(p, h, n) == payload@ ==> r,
{
    let framed = match b64_decode(payload) {
        Ok(b) => b.len() >= 12,
        Err(_) => true,
    };
    proof {
        assert forall|p: Seq<char>, h: Seq<u8>, n: Seq<u8>|
            n.len() == 12 && #[trigger] sealed_vault(p, h, n) == payload@ implies framed by {
            let c = aes256_gcm_siv_seal(h, n, encode_utf8(p));
            assert(base64_encode_no_pad(n + c) == payload@);
        }
    }
    framed
}

/// Whether Argon2 accepts a password and a salt (taken as their UTF-8 bytes).
pub(crate) fn argon2_inputs_ok(password: &str, salt: &str) -> (r: bool)
    ensures
        r == argon2_accepts(encode_utf8(password@), encode_utf8(salt@)),
{
    let p = password.as_bytes().len();
    let s = salt.as_bytes().len();
    p <= 0xFFFF_FFFF && 8 <= s && s <= 0xFFFF_FFFF
}

/// Decrypts a stored vault with a key, after checking that its decoded bytes
/// can hold the nonce; `None`, with nothing decrypted, when they cannot.
pub fn try_decrypt_vault(payload: String, hash: [u8; 32]) -> (r: Option<Result<String, CryptError>>)
    ensures
        r is None <==> !vault_payload_framed(payload@),
        r matches Some(d) ==> text_result_view(d) == spec_decrypt_vault(payload@, hash@),
        forall|p: Seq<char>, n: Seq<u8>|
            n.len() == 12 && vault_text_fits(p) && #[trigger] sealed_vault(p, hash@, n) == payload@
                ==> (r matches Some(Ok(s)) && s@ == p),
{
    let framed = vault_framed(payload.as_str());
    if framed {
        Some(decrypt_vault(payload, hash))
    } else {
        None
    }
}

/// Encrypts a vault text with a key under the given nonce.
pub fn encrypt_vault_with_nonce(payload: String, hash: [u8; 32], nonce: [u8; 12]) -> (r: Result<String, CryptError>)
    ensures
        r is Ok <==> vault_text_fits(payload@),
        r matches Ok(s) ==> s@ == sealed_vault(payload@, hash@, nonce@),
        r matches Ok(s) ==> sealed_layout(s@, payload@, nonce@),
        r matches Err(e) ==> e == CryptError::Decryption,
{
    let ciphertext = match aes_seal(&hash, &nonce, payload.as_str().as_bytes()) {
        Ok(c) => c,
        Err(_) => return Err(CryptError::Decryption),
    };
    assert((nonce@ + ciphertext@).take(12) =~= nonce@);
    Ok(encode_sealed_vault(nonce, ciphertext))
}

/// The stored form of a nonce and a ciphertext: base64 of the nonce followed
/// by the ciphertext, without padding.
pub fn encode_sealed_vault(nonce: [u8; 12], ciphertext: Vec<u8>) -> (r: String)
    ensures
        r@ == base64_encode_no_pad(nonce@ + ciphertext@),
        no_padding(r@),
        base64_decode_no_pad(r@) == Some(nonce@ + ciphertext@),
{
    let mut framed: Vec<u8> = Vec::new();
    let mut i: usize = 0;
    while i < 12
        invariant
            0 <= i <= 12,
            framed@ =~= nonce@.take(i as int),
        decreases 12 - i,
    {
        framed.push(nonce[i]);
        i += 1;
    }
    let mut rest = ciphertext;
    framed.append(&mut rest);
    assert(framed@ =~= nonce@ + ciphertext@);
    b64_encode(framed.as_slice())
}

/// Encrypts a vault text with a key under a fresh random nonce.
pub fn encrypt_vault(payload: String, hash: [u8; 32]) -> (r: Result<String, CryptError>)
    ensures
        r is Ok <==> vault_text_fits(payload@),
        r matches Ok(s) ==> exists|n: Seq<u8>|
            n.len() == 12 && s@ == sealed_vault(payload@, hash@, n) && #[trigger] sealed_layout(s@, payload@, n),
        r matches Err(e) ==> e == CryptError::Decryption,
{
    let nonce = generate_nonce();
    encrypt_vault_with_nonce(payload, hash, nonce)
}

} // verus!
