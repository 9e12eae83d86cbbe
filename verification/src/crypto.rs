//! The vault cipher: authenticated encryption of vault contents under a
//! password.
//!
//! A vault blob is the standard base64 text of `salt(16) ‖ nonce(12) ‖
//! ciphertext+tag`, where the key is derived from the password and salt by
//! Argon2id and the ciphertext is AES-256-GCM. Salt and nonce are freshly
//! random on every encryption, so equal inputs yield different blobs.
//! Every decryption failure — bad encoding, short data, failed
//! authentication, invalid text — collapses into the single opaque
//! [`VaultError::Decryption`], so a wrong password and corruption are
//! indistinguishable.

use vstd::prelude::*;

use crate::auth::MAX_HASH_PASSWORD_BYTES;
use crate::errors::{ValidationError, VaultError};
use vstd::slice::slice_subrange;
use vstd::string::StringSliceAdditionalSpecFns;
use vstd::utf8::{decode_utf8, encode_utf8, valid_utf8};
use aes_gcm::KeyInit;
use aes_gcm::aead::Aead;
use base64::Engine;
use rand::RngCore;

verus! {

/// Bytes of random salt at the front of a decoded blob.
pub const SALT_LEN: usize = 16;

/// Bytes of random nonce following the salt.
pub const NONCE_LEN: usize = 12;

/// Bytes of authentication tag appended to the ciphertext.
pub const TAG_LEN: usize = 16;

/// Least length of a decoded blob: salt plus nonce.
pub const HEADER_LEN: usize = 28;

/// The most plaintext bytes AES-GCM encrypts in one message.
pub const MAX_PLAINTEXT_BYTES: u64 = 0x10_0000_0000;

/// The 32-byte key Argon2id derives from a password and a salt.
/// Deterministic in the pair; named here, stated by [`derive_key`].
pub uninterp spec fn kdf32(password: Seq<char>, salt: Seq<u8>) -> Seq<u8>;

/// The AES-256-GCM ciphertext-with-tag for a key, nonce and plaintext.
/// Deterministic in the triple; named here, stated by [`aead_encrypt`].
pub uninterp spec fn aead_seal(key: Seq<u8>, nonce: Seq<u8>, plaintext: Seq<u8>) -> Seq<u8>;

/// The AES-256-GCM decryption outcome for a key, nonce and ciphertext-with-
/// tag: the plaintext when authentication succeeds, nothing otherwise.
/// Deterministic in the triple; named here, stated by [`aead_decrypt`].
pub uninterp spec fn aead_open(key: Seq<u8>, nonce: Seq<u8>, ciphertext: Seq<u8>) -> Option<
    Seq<u8>,
>;

/// The standard-alphabet base64 text of a byte sequence.
/// Named here, stated by [`base64_encode`].
pub uninterp spec fn b64_encode(bytes: Seq<u8>) -> Seq<char>;

/// The standard-alphabet base64 decoding of a text: the bytes when the text
/// is a valid encoding, nothing otherwise. Named here, stated by
/// [`base64_decode`] and [`base64_encode`].
pub uninterp spec fn b64_decode(text: Seq<char>) -> Option<Seq<u8>>;

/// Relies on argon2's `Argon2::hash_password_into` with the Argon2id variant,
/// version 0x13, and the fixed parameters 65536 KiB memory cost, 3
/// iterations, parallelism 4, 32-byte output: deterministic in (password,
/// salt), and per the crate's input validation it cannot fail for a 16-byte
/// salt and a password of at most `u32::MAX` bytes. Parameter construction
/// with these constants cannot fail; a failure would abort, never weaken.
#[verifier::external_body]
fn derive_key(password: &str, salt: &[u8]) -> (key: Vec<u8>)
    requires
        salt@.len() == SALT_LEN,
        password.spec_bytes().len() <= MAX_HASH_PASSWORD_BYTES,
    ensures
        key@ == kdf32(password@, salt@),
        key@.len() == 32,
{
    let params = argon2::Params::new(65536, 3, 4, Some(32)).unwrap();
    let argon = argon2::Argon2::new(argon2::Algorithm::Argon2id, argon2::Version::V0x13, params);
    let mut key = [0u8; 32];
    argon.hash_password_into(password.as_bytes(), salt, &mut key).unwrap();
    key.to_vec()
}

/// Relies on the operating-system CSPRNG (rand's `OsRng::fill_bytes`):
/// returns `n` freshly drawn random bytes; aborts only if the OS RNG fails.
#[verifier::external_body]
fn random_bytes(n: usize) -> (r: Vec<u8>)
    ensures
        r@.len() == n,
{
    let mut buf = vec![0u8; n];
    rand::rngs::OsRng.fill_bytes(&mut buf);
    buf
}

/// Relies on aes-gcm's `Aead::encrypt` for AES-256-GCM with no associated
/// data: deterministic in (key, nonce, plaintext); appends the 16-byte tag;
/// succeeds for plaintexts of at most 2^36 bytes; and, by the cipher's own
/// decryption, opening the result under the same key and nonce returns the
/// plaintext.
#[verifier::external_body]
fn aead_encrypt(key: &[u8], nonce: &[u8], plaintext: &[u8]) -> (ct: Vec<u8>)
    requires
        key@.len() == 32,
        nonce@.len() == NONCE_LEN,
        plaintext@.len() <= MAX_PLAINTEXT_BYTES,
    ensures
        ct@ == aead_seal(key@, nonce@, plaintext@),
        ct@.len() == plaintext@.len() + TAG_LEN,
        aead_open(key@, nonce@, ct@) == Some(plaintext@),
{
    let cipher = aes_gcm::Aes256Gcm::new_from_slice(key).unwrap();
    cipher.encrypt(aes_gcm::Nonce::from_slice(nonce), plaintext).unwrap()
}

/// Relies on aes-gcm's `Aead::decrypt` for AES-256-GCM with no associated
/// data: deterministic in (key, nonce, ciphertext); returns the plaintext
/// exactly when tag authentication succeeds.
#[verifier::external_body]
fn aead_decrypt(key: &[u8], nonce: &[u8], ciphertext: &[u8]) -> (r: Option<Vec<u8>>)
    requires
        key@.len() == 32,
        nonce@.len() == NONCE_LEN,
    ensures
        r is Some <==> aead_open(key@, nonce@, ciphertext@) is Some,
        r matches Some(pt) ==> Some(pt@) == aead_open(key@, nonce@, ciphertext@),
{
    let cipher = aes_gcm::Aes256Gcm::new_from_slice(key).unwrap();
    cipher.decrypt(aes_gcm::Nonce::from_slice(nonce), ciphertext).ok()
}

/// Relies on base64's standard-alphabet `Engine::encode`: deterministic in
/// the bytes; with padding the output holds four characters for every three
/// bytes, rounded up; and, by the same engine's decode, decoding the result
/// returns the bytes.
#[verifier::external_body]
fn base64_encode(bytes: &[u8]) -> (r: String)
    ensures
        r@ == b64_encode(bytes@),
        r@.len() == 4 * ((bytes@.len() + 2) / 3),
        b64_decode(r@) == Some(bytes@),
{
    base64::engine::general_purpose::STANDARD.encode(bytes)
}

/// Relies on base64's standard-alphabet `Engine::decode`: deterministic in
/// the text; returns bytes exactly when the text is a valid encoding.
#[verifier::external_body]
fn base64_decode(text: &str) -> (r: Option<Vec<u8>>)
    ensures
        r is Some <==> b64_decode(text@) is Some,
        r matches Some(v) ==> Some(v@) == b64_decode(text@),
{
    base64::engine::general_purpose::STANDARD.decode(text.as_bytes()).ok()
}

/// Relies on std's `String::from_utf8`: returns the string exactly when the
/// bytes are valid UTF-8, decoded per vstd's UTF-8 model.
#[verifier::external_body]
fn bytes_to_string(bytes: Vec<u8>) -> (r: Option<String>)
    ensures
        r is Some <==> valid_utf8(bytes@),
        r matches Some(s) ==> s@ == decode_utf8(bytes@),
{
    String::from_utf8(bytes).ok()
}

/// The blob is a well-formed encryption of `plaintext` under `password`:
/// for some 16-byte salt and 12-byte nonce, it base64-decodes to
/// salt ‖ nonce ‖ seal, where seal is the AES-256-GCM sealing of the
/// UTF-8 plaintext under the derived key and is exactly one tag longer than
/// the plaintext's bytes, and opening that seal returns the plaintext.
/// [`encrypt_json`] establishes this of everything it returns.
pub open spec fn encrypts_to(blob: Seq<char>, plaintext: Seq<char>, password: Seq<char>) -> bool {
    exists|salt: Seq<u8>, nonce: Seq<u8>|
        {
            &&& salt.len() == SALT_LEN
            &&& nonce.len() == NONCE_LEN
            &&& b64_decode(blob) == Some(
                salt + nonce + #[trigger] aead_seal(
                    kdf32(password, salt),
                    nonce,
                    encode_utf8(plaintext),
                ),
            )
            &&& aead_seal(kdf32(password, salt), nonce, encode_utf8(plaintext)).len()
                == encode_utf8(plaintext).len() + TAG_LEN
            &&& aead_open(
                kdf32(password, salt),
                nonce,
                aead_seal(kdf32(password, salt), nonce, encode_utf8(plaintext)),
            ) == Some(encode_utf8(plaintext))
        }
}

/// The exact decryption outcome for a blob and password: base64-decode,
/// check the 28-byte header, split salt, nonce and ciphertext, open under
/// the derived key, and decode the plaintext as UTF-8; any failure is
/// nothing. [`decrypt_json`] returns exactly this.
pub open spec fn decrypt_spec(blob: Seq<char>, password: Seq<char>) -> Option<Seq<char>> {
    match b64_decode(blob) {
        Option::None => Option::None,
        Option::Some(data) => if data.len() < HEADER_LEN {
            Option::None
        } else {
            let salt = data.subrange(0, SALT_LEN as int);
            let nonce = data.subrange(SALT_LEN as int, HEADER_LEN as int);
            let ct = data.subrange(HEADER_LEN as int, data.len() as int);
            match aead_open(kdf32(password, salt), nonce, ct) {
                Option::None => Option::None,
                Option::Some(pt) => if valid_utf8(pt) {
                    Option::Some(decode_utf8(pt))
                } else {
                    Option::None
                },
            }
        },
    }
}

/// Encrypts a plaintext under a password: draws a fresh 16-byte salt and
/// 12-byte nonce from the CSPRNG, derives the key with Argon2id, seals with
/// AES-256-GCM, and returns the base64 text of salt ‖ nonce ‖ ciphertext.
pub fn encrypt_json(plaintext: &str, password: &str) -> (r: Result<String, VaultError>)
    ensures
        r is Ok <==> plaintext.spec_bytes().len() <= MAX_PLAINTEXT_BYTES
            && password.spec_bytes().len() <= MAX_HASH_PASSWORD_BYTES,
        r matches Ok(blob) ==> encrypts_to(blob@, plaintext@, password@),
        r matches Ok(blob) ==> blob@.len() == 4 * ((encode_utf8(plaintext@).len() + HEADER_LEN
            + TAG_LEN + 2) / 3),
        r matches Err(e) ==> e == VaultError::Validation(ValidationError::PasswordTooLong) || e
            == VaultError::Validation(ValidationError::InputTooLong),
        password.spec_bytes().len() > MAX_HASH_PASSWORD_BYTES ==> r == Err::<String, VaultError>(
            VaultError::Validation(ValidationError::PasswordTooLong),
        ),
        password.spec_bytes().len() <= MAX_HASH_PASSWORD_BYTES && plaintext.spec_bytes().len()
            > MAX_PLAINTEXT_BYTES ==> r == Err::<String, VaultError>(
            VaultError::Validation(ValidationError::InputTooLong),
        ),
{
    if password.as_bytes().len() > MAX_HASH_PASSWORD_BYTES {
        return Err(VaultError::Validation(ValidationError::PasswordTooLong));
    }
    let pt_bytes = plaintext.as_bytes();
    if pt_bytes.len() as u64 > MAX_PLAINTEXT_BYTES {
        return Err(VaultError::Validation(ValidationError::InputTooLong));
    }
    let salt = random_bytes(SALT_LEN);
    let nonce = random_bytes(NONCE_LEN);
    let key = derive_key(password, salt.as_slice());
    let ct = aead_encrypt(key.as_slice(), nonce.as_slice(), pt_bytes);
    let mut data: Vec<u8> = Vec::new();
    data.extend_from_slice(salt.as_slice());
    data.extend_from_slice(nonce.as_slice());
    data.extend_from_slice(ct.as_slice());
    let blob = base64_encode(data.as_slice());
    proof {
        assert(data@ == salt@ + nonce@ + aead_seal(
            kdf32(password@, salt@),
            nonce@,
            encode_utf8(plaintext@),
        ));
        assert(encrypts_to(blob@, plaintext@, password@));
    }
    Ok(blob)
}

/// Decrypts a vault blob under a password, returning exactly
/// [`decrypt_spec`] of the pair. Every failure — bad encoding, short data,
/// failed authentication, invalid text, or an unhashable password — is the
/// one opaque [`VaultError::Decryption`].
pub fn decrypt_json(blob: &str, password: &str) -> (r: Result<String, VaultError>)
    ensures
        r is Ok <==> password.spec_bytes().len() <= MAX_HASH_PASSWORD_BYTES && decrypt_spec(
            blob@,
            password@,
        ) is Some,
        r matches Ok(p) ==> Some(p@) == decrypt_spec(blob@, password@),
        r matches Err(e) ==> e == VaultError::Decryption,
{
    if password.as_bytes().len() > MAX_HASH_PASSWORD_BYTES {
        return Err(VaultError::Decryption);
    }
    let data = match base64_decode(blob) {
        Some(d) => d,
        None => {
            return Err(VaultError::Decryption);
        },
    };
    if data.len() < HEADER_LEN {
        return Err(VaultError::Decryption);
    }
    let salt = slice_subrange(data.as_slice(), 0, SALT_LEN);
    let nonce = slice_subrange(data.as_slice(), SALT_LEN, HEADER_LEN);
    let ct = slice_subrange(data.as_slice(), HEADER_LEN, data.len());
    let key = derive_key(password, salt);
    let pt = match aead_decrypt(key.as_slice(), nonce, ct) {
        Some(p) => p,
        None => {
            return Err(VaultError::Decryption);
        },
    };
    match bytes_to_string(pt) {
        Some(s) => Ok(s),
        None => Err(VaultError::Decryption),
    }
}

/// Round trip: every blob that is an encryption of a plaintext under a
/// password decrypts, under the same password, to that plaintext.
pub proof fn lemma_encrypt_then_decrypt(blob: Seq<char>, plaintext: Seq<char>, password: Seq<char>)
    requires
        encrypts_to(blob, plaintext, password),
    ensures
        decrypt_spec(blob, password) == Some(plaintext),
{
    broadcast use vstd::utf8::encode_utf8_valid_utf8, vstd::utf8::encode_utf8_decode_utf8;

    let (salt, nonce) = choose|salt: Seq<u8>, nonce: Seq<u8>|
        {
            &&& salt.len() == SALT_LEN
            &&& nonce.len() == NONCE_LEN
            &&& b64_decode(blob) == Some(
                salt + nonce + #[trigger] aead_seal(
                    kdf32(password, salt),
                    nonce,
                    encode_utf8(plaintext),
                ),
            )
            &&& aead_seal(kdf32(password, salt), nonce, encode_utf8(plaintext)).len()
                == encode_utf8(plaintext).len() + TAG_LEN
            &&& aead_open(
                kdf32(password, salt),
                nonce,
                aead_seal(kdf32(password, salt), nonce, encode_utf8(plaintext)),
            ) == Some(encode_utf8(plaintext))
        };
    let seal = aead_seal(kdf32(password, salt), nonce, encode_utf8(plaintext));
    let data = salt + nonce + seal;
    assert(data.len() == HEADER_LEN + seal.len());
    assert(data.subrange(0, SALT_LEN as int) =~= salt);
    assert(data.subrange(SALT_LEN as int, HEADER_LEN as int) =~= nonce);
    assert(data.subrange(HEADER_LEN as int, data.len() as int) =~= seal);
    assert(valid_utf8(encode_utf8(plaintext)));
    assert(decode_utf8(encode_utf8(plaintext)) == plaintext);
}

} // verus!
