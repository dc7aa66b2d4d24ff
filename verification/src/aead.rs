//! ChaCha20-Poly1305 with a 256-bit key, a 96-bit nonce and a 128-bit tag,
//! used without associated data.
//!
//! The cipher itself is the `chacha20poly1305` crate's. Its output is given a
//! name here, so that the contracts of the library can say which key and
//! which nonce a ciphertext was made with.

use chacha20poly1305::aead::{Aead, KeyInit};
use chacha20poly1305::ChaCha20Poly1305;
use vstd::prelude::*;

verus! {

/// Length of a key, in bytes.
pub const KEY_LEN: usize = 32;

/// Length of a nonce, in bytes.
pub const NONCE_LEN: usize = 12;

/// Length of the authentication tag that sealing appends, in bytes.
pub const TAG_LEN: usize = 16;

/// A symmetric key.
pub type Key = [u8; 32];

/// A nonce.
pub type Nonce = [u8; 12];

/// The ciphertext, tag included, that ChaCha20-Poly1305 gives for `plaintext`
/// under `key` and `nonce`.
pub uninterp spec fn aead_seal(key: Seq<u8>, nonce: Seq<u8>, plaintext: Seq<u8>) -> Seq<u8>;

/// What ChaCha20-Poly1305 recovers from `ciphertext` under `key` and `nonce`:
/// the plaintext, or `None` where the tag does not verify.
pub uninterp spec fn aead_open(key: Seq<u8>, nonce: Seq<u8>, ciphertext: Seq<u8>) -> Option<
    Seq<u8>,
>;

/// The error of the `aead` crate: an opaque unit value.
#[verifier::external_type_specification]
#[verifier::external_body]
pub struct ExAeadError(chacha20poly1305::aead::Error);

/// Whether a plaintext of `len` bytes is short enough to be sealed: the
/// cipher's block counter allows fewer than 2^32 - 1 blocks of 64 bytes.
pub open spec fn sealable(len: int) -> bool {
    len / 64 < 0xFFFF_FFFF
}

/// Calls `ChaCha20Poly1305::new` and `Aead::encrypt`.
///
/// Trusted, from the source of `chacha20poly1305` and `aead`: the call fails
/// exactly when the plaintext has 2^32 - 1 or more blocks of 64 bytes;
/// otherwise the result is the named ciphertext, it is 16 bytes longer than
/// the plaintext, and opening it under the same key and nonce gives the
/// plaintext back (the cipher's defining property). `Key::from_slice` and
/// `Nonce::from_slice` panic on other lengths, and the output buffer is
/// reserved with `len + 16` bytes: the three preconditions.
#[verifier::external_body]
pub(crate) fn seal(key: &[u8], nonce: &[u8], plaintext: &[u8]) -> (r: Result<
    Vec<u8>,
    chacha20poly1305::aead::Error,
>)
    requires
        key@.len() == KEY_LEN,
        nonce@.len() == NONCE_LEN,
        plaintext@.len() + TAG_LEN <= usize::MAX,
    ensures
        r is Ok <==> sealable(plaintext@.len() as int),
        r matches Ok(c) ==> {
            &&& c@ == aead_seal(key@, nonce@, plaintext@)
            &&& c@.len() == plaintext@.len() + TAG_LEN
            &&& aead_open(key@, nonce@, c@) == Some(plaintext@)
        },
{
    let cipher = ChaCha20Poly1305::new(chacha20poly1305::Key::from_slice(key));
    cipher.encrypt(chacha20poly1305::Nonce::from_slice(nonce), plaintext)
}

/// Calls `ChaCha20Poly1305::new` and `Aead::decrypt`.
///
/// Trusted, from the same sources: success or failure, and the plaintext, are
/// the named result; a ciphertext shorter than the tag fails; a plaintext that
/// comes back is 16 bytes shorter than the ciphertext.
#[verifier::external_body]
pub(crate) fn open(key: &[u8], nonce: &[u8], ciphertext: &[u8]) -> (r: Result<
    Vec<u8>,
    chacha20poly1305::aead::Error,
>)
    requires
        key@.len() == KEY_LEN,
        nonce@.len() == NONCE_LEN,
    ensures
        r matches Ok(p) ==> {
            &&& aead_open(key@, nonce@, ciphertext@) == Some(p@)
            &&& p@.len() + TAG_LEN == ciphertext@.len()
        },
        r is Err ==> aead_open(key@, nonce@, ciphertext@) is None,
        ciphertext@.len() < TAG_LEN ==> r is Err,
{
    let cipher = ChaCha20Poly1305::new(chacha20poly1305::Key::from_slice(key));
    cipher.decrypt(chacha20poly1305::Nonce::from_slice(nonce), ciphertext)
}

/// The text of the `aead` error's derived `Debug` impl.
pub open spec fn aead_error_text() -> Seq<char> {
    "Error"@
}

/// Formats the `aead` error with `{:?}`.
///
/// Trusted: the error is a unit struct with a derived `Debug`, so the text is
/// its name.
#[verifier::external_body]
pub(crate) fn describe_error(e: &chacha20poly1305::aead::Error) -> (s: String)
    ensures
        s@ == aead_error_text(),
{
    format!("{:?}", e)
}

} // verus!
