use vstd::prelude::*;
use chacha20poly1305::aead::{Aead, KeyInit};

verus! {

/// The 32-byte key that Argon2 (default parameters) derives from a password
/// and salt, `None` where it refuses them.
pub uninterp spec fn argon2_key(password: Seq<u8>, salt: Seq<u8>) -> Option<Seq<u8>>;

/// What XChaCha20-Poly1305 sealing yields, `None` where it fails.
pub uninterp spec fn xchacha_sealed(key: Seq<u8>, nonce: Seq<u8>, plain: Seq<u8>) -> Option<
    Seq<u8>,
>;

/// What XChaCha20-Poly1305 opening yields, `None` where authentication fails.
pub uninterp spec fn xchacha_opened(key: Seq<u8>, nonce: Seq<u8>, sealed: Seq<u8>) -> Option<
    Seq<u8>,
>;

/// What ChaCha20-Poly1305 sealing yields, `None` where it fails.
pub uninterp spec fn chacha_sealed(key: Seq<u8>, nonce: Seq<u8>, plain: Seq<u8>) -> Option<
    Seq<u8>,
>;

/// What ChaCha20-Poly1305 opening yields, `None` where authentication fails.
pub uninterp spec fn chacha_opened(key: Seq<u8>, nonce: Seq<u8>, sealed: Seq<u8>) -> Option<
    Seq<u8>,
>;

/// What AES-256-GCM sealing yields, `None` where it fails.
pub uninterp spec fn aes_gcm_sealed(key: Seq<u8>, nonce: Seq<u8>, plain: Seq<u8>) -> Option<
    Seq<u8>,
>;

/// What AES-256-GCM opening yields, `None` where authentication fails.
pub uninterp spec fn aes_gcm_opened(key: Seq<u8>, nonce: Seq<u8>, sealed: Seq<u8>) -> Option<
    Seq<u8>,
>;

/// Relies on argon2's `Argon2::default().hash_password_into` to derive a
/// 32-byte key from a password and salt.
#[verifier::external_body]
pub(crate) fn derive_key(password: &[u8], salt: &[u8]) -> (r: Option<Vec<u8>>)
    ensures
        match r {
            Some(k) => argon2_key(password@, salt@) == Some(k@) && k@.len() == 32,
            None => argon2_key(password@, salt@) is None,
        },
{
    let mut key = vec![0u8; 32];
    match argon2::Argon2::default().hash_password_into(password, salt, &mut key) {
        Ok(()) => Some(key),
        Err(_) => None,
    }
}

/// Relies on getrandom's `getrandom` to fill `n` bytes from the system's
/// source of randomness.
#[verifier::external_body]
pub(crate) fn random_bytes(n: usize) -> (r: Option<Vec<u8>>)
    ensures
        r matches Some(v) ==> v@.len() == n,
{
    let mut buf = vec![0u8; n];
    match getrandom::getrandom(&mut buf) {
        Ok(()) => Some(buf),
        Err(_) => None,
    }
}

/// Relies on chacha20poly1305's `XChaCha20Poly1305` (`new_from_slice`,
/// `Aead::encrypt`); its `decrypt` with the same key and nonce gives back the plaintext.
#[verifier::external_body]
pub(crate) fn xchacha_seal(key: &[u8], nonce: &[u8], plain: &[u8]) -> (r: Option<Vec<u8>>)
    requires
        nonce@.len() == 24,
    ensures
        match r {
            Some(v) => xchacha_sealed(key@, nonce@, plain@) == Some(v@) && xchacha_opened(
                key@,
                nonce@,
                v@,
            ) == Some(plain@),
            None => xchacha_sealed(key@, nonce@, plain@) is None,
        },
{
    let cipher = chacha20poly1305::XChaCha20Poly1305::new_from_slice(key).ok()?;
    cipher.encrypt(chacha20poly1305::XNonce::from_slice(nonce), plain).ok()
}

/// Relies on chacha20poly1305's `XChaCha20Poly1305` (`new_from_slice`, `Aead::decrypt`).
#[verifier::external_body]
pub(crate) fn xchacha_open(key: &[u8], nonce: &[u8], sealed: &[u8]) -> (r: Option<Vec<u8>>)
    requires
        nonce@.len() == 24,
    ensures
        match r {
            Some(v) => xchacha_opened(key@, nonce@, sealed@) == Some(v@),
            None => xchacha_opened(key@, nonce@, sealed@) is None,
        },
{
    let cipher = chacha20poly1305::XChaCha20Poly1305::new_from_slice(key).ok()?;
    cipher.decrypt(chacha20poly1305::XNonce::from_slice(nonce), sealed).ok()
}

/// Relies on chacha20poly1305's `ChaCha20Poly1305` (`new_from_slice`,
/// `Aead::encrypt`); its `decrypt` with the same key and nonce gives back the plaintext.
#[verifier::external_body]
pub(crate) fn chacha_seal(key: &[u8], nonce: &[u8], plain: &[u8]) -> (r: Option<Vec<u8>>)
    requires
        nonce@.len() == 12,
    ensures
        match r {
            Some(v) => chacha_sealed(key@, nonce@, plain@) == Some(v@) && chacha_opened(
                key@,
                nonce@,
                v@,
            ) == Some(plain@),
            None => chacha_sealed(key@, nonce@, plain@) is None,
        },
{
    let cipher = chacha20poly1305::ChaCha20Poly1305::new_from_slice(key).ok()?;
    cipher.encrypt(chacha20poly1305::Nonce::from_slice(nonce), plain).ok()
}

/// Relies on chacha20poly1305's `ChaCha20Poly1305` (`new_from_slice`, `Aead::decrypt`).
#[verifier::external_body]
pub(crate) fn chacha_open(key: &[u8], nonce: &[u8], sealed: &[u8]) -> (r: Option<Vec<u8>>)
    requires
        nonce@.len() == 12,
    ensures
        match r {
            Some(v) => chacha_opened(key@, nonce@, sealed@) == Some(v@),
            None => chacha_opened(key@, nonce@, sealed@) is None,
        },
{
    let cipher = chacha20poly1305::ChaCha20Poly1305::new_from_slice(key).ok()?;
    cipher.decrypt(chacha20poly1305::Nonce::from_slice(nonce), sealed).ok()
}

/// Relies on aes-gcm's `Aes256Gcm` (`new_from_slice`, `Aead::encrypt`); its
/// `decrypt` with the same key and nonce gives back the plaintext.
#[verifier::external_body]
pub(crate) fn aes_gcm_seal(key: &[u8], nonce: &[u8], plain: &[u8]) -> (r: Option<Vec<u8>>)
    requires
        nonce@.len() == 12,
    ensures
        match r {
            Some(v) => aes_gcm_sealed(key@, nonce@, plain@) == Some(v@) && aes_gcm_opened(
                key@,
                nonce@,
                v@,
            ) == Some(plain@),
            None => aes_gcm_sealed(key@, nonce@, plain@) is None,
        },
{
    let cipher = aes_gcm::Aes256Gcm::new_from_slice(key).ok()?;
    cipher.encrypt(aes_gcm::Nonce::from_slice(nonce), plain).ok()
}

/// Relies on aes-gcm's `Aes256Gcm` (`new_from_slice`, `Aead::decrypt`).
#[verifier::external_body]
pub(crate) fn aes_gcm_open(key: &[u8], nonce: &[u8], sealed: &[u8]) -> (r: Option<Vec<u8>>)
    requires
        nonce@.len() == 12,
    ensures
        match r {
            Some(v) => aes_gcm_opened(key@, nonce@, sealed@) == Some(v@),
            None => aes_gcm_opened(key@, nonce@, sealed@) is None,
        },
{
    let cipher = aes_gcm::Aes256Gcm::new_from_slice(key).ok()?;
    cipher.decrypt(aes_gcm::Nonce::from_slice(nonce), sealed).ok()
}

} // verus!
