//! Hexadecimal notation, hashing, signatures, key agreement, key derivation
//! and authenticated encryption on plain bytes.

use crate::json::hex_digit;
use chacha20poly1305::aead::{Aead, Payload};
use chacha20poly1305::{KeyInit, XChaCha20Poly1305, XNonce};
use ed25519_dalek::{Signature, Signer, SigningKey, VerifyingKey};
use hkdf::Hkdf;
use rand::rngs::OsRng;
use rand::RngCore;
use sha2::{Digest, Sha256};
use vstd::prelude::*;
use x25519_dalek::{PublicKey, StaticSecret};

verus! {

/// The hexadecimal notation of bytes, in lower case.
pub open spec fn hex_of(data: Seq<u8>) -> Seq<char> {
    Seq::new(
        2 * data.len(),
        |i: int|
            if i % 2 == 0 {
                hex_digit(data[i / 2] as nat / 16)
            } else {
                hex_digit(data[i / 2] as nat % 16)
            },
    )
}

/// The value of a hexadecimal digit, in either case.
pub open spec fn hex_value(c: char) -> Option<nat> {
    if '0' <= c <= '9' {
        Some((c as nat - 48) as nat)
    } else if 'a' <= c <= 'f' {
        Some((c as nat - 87) as nat)
    } else if 'A' <= c <= 'F' {
        Some((c as nat - 55) as nat)
    } else {
        None
    }
}

/// The bytes that a hexadecimal notation stands for.
pub open spec fn unhex(s: Seq<char>) -> Option<Seq<u8>> {
    if s.len() % 2 == 0 && forall|i: int| 0 <= i < s.len() ==> hex_value(#[trigger] s[i]) is Some {
        Some(
            Seq::new(
                s.len() / 2,
                |i: int| (16 * hex_value(s[2 * i])->0 + hex_value(s[2 * i + 1])->0) as u8,
            ),
        )
    } else {
        None
    }
}

/// Reading back the hexadecimal notation of bytes gives the bytes.
pub proof fn lemma_unhex_hex(data: Seq<u8>)
    ensures
        unhex(hex_of(data)) == Some(data),
{
    let s = hex_of(data);
    assert forall|i: int| 0 <= i < s.len() implies hex_value(#[trigger] s[i]) is Some by {
        let n = if i % 2 == 0 {
            data[i / 2] as nat / 16
        } else {
            data[i / 2] as nat % 16
        };
        assert(n < 16);
        assert(s[i] == hex_digit(n));
    }
    assert forall|i: int| 0 <= i < data.len() implies (16 * hex_value(s[2 * i])->0 + hex_value(
        s[2 * i + 1],
    )->0) as u8 == #[trigger] data[i] by {
        assert((2 * i) / 2 == i && (2 * i + 1) / 2 == i);
        assert((2 * i) % 2 == 0 && (2 * i + 1) % 2 == 1);
        assert(s[2 * i] == hex_digit(data[i] as nat / 16));
        assert(s[2 * i + 1] == hex_digit(data[i] as nat % 16));
        assert(hex_value(s[2 * i])->0 == data[i] as nat / 16);
        assert(hex_value(s[2 * i + 1])->0 == data[i] as nat % 16);
    }
    assert(unhex(s)->0 =~= data);
}

/// Calls `hex::encode`: two lower case digits for each byte.
#[verifier::external_body]
pub(crate) fn hex_text(data: &[u8]) -> (r: String)
    ensures
        r@ == hex_of(data@),
{
    hex::encode(data)
}

/// Calls `hex::decode`, which takes an even number of hexadecimal digits of
/// either case and refuses everything else.
#[verifier::external_body]
pub(crate) fn hex_bytes(text: &str) -> (r: Option<Vec<u8>>)
    ensures
        match r {
            Some(v) => unhex(text@) == Some(v@),
            None => unhex(text@) is None,
        },
{
    hex::decode(text).ok()
}

/// The SHA-256 digest of bytes.
pub uninterp spec fn sha256_of(data: Seq<u8>) -> Seq<u8>;

/// Calls `sha2::Sha256::digest`. The digest is a function of the bytes alone.
#[verifier::external_body]
pub(crate) fn sha256(data: &[u8]) -> (r: [u8; 32])
    ensures
        r@ == sha256_of(data@),
{
    Sha256::digest(data).into()
}

/// Calls `OsRng.fill_bytes` for thirty-two bytes. Nothing is known of them.
#[verifier::external_body]
pub(crate) fn random_bytes() -> (r: [u8; 32]) {
    let mut v = [0u8; 32];
    OsRng.fill_bytes(&mut v);
    v
}

/// Calls `OsRng.fill_bytes` for the twenty-four bytes of a cipher nonce.
/// Nothing is known of them.
#[verifier::external_body]
pub(crate) fn random_cipher_nonce() -> (r: [u8; 24]) {
    let mut v = [0u8; 24];
    OsRng.fill_bytes(&mut v);
    v
}

/// Calls `SigningKey::generate` and keeps its secret bytes. Nothing is known
/// of them.
#[verifier::external_body]
pub(crate) fn random_signing_key() -> (r: [u8; 32]) {
    SigningKey::generate(&mut OsRng).to_bytes()
}

/// Calls `StaticSecret::random_from_rng` and keeps its bytes. Nothing is known
/// of them.
#[verifier::external_body]
pub(crate) fn random_secret() -> (r: [u8; 32]) {
    StaticSecret::random_from_rng(OsRng).to_bytes()
}

/// The Ed25519 public key of a signing key.
pub uninterp spec fn ed25519_public_of(seed: Seq<u8>) -> Seq<u8>;

/// Calls `SigningKey::from_bytes` and `SigningKey::verifying_key`. The public
/// key is a function of the secret bytes alone.
#[verifier::external_body]
pub(crate) fn ed25519_public(seed: &[u8; 32]) -> (r: [u8; 32])
    ensures
        r@ == ed25519_public_of(seed@),
{
    SigningKey::from_bytes(seed).verifying_key().to_bytes()
}

/// The Ed25519 signature of bytes.
pub uninterp spec fn ed25519_signature_of(seed: Seq<u8>, data: Seq<u8>) -> Seq<u8>;

/// Whether strict Ed25519 verification takes a signature.
pub uninterp spec fn ed25519_accepts(public: Seq<u8>, data: Seq<u8>, signature: Seq<u8>) -> bool;

/// The encoding of the neutral point of the curve.
pub open spec fn neutral_point() -> Seq<u8> {
    Seq::new(32, |i: int| if i == 0 { 1u8 } else { 0u8 })
}

/// Calls `SigningKey::sign`. The signature is a function of the secret bytes
/// and the data, and strict verification with the key's own public key takes
/// it, unless its commitment is the neutral point, which strict verification
/// never takes.
#[verifier::external_body]
pub(crate) fn ed25519_sign(seed: &[u8; 32], data: &[u8]) -> (r: [u8; 64])
    ensures
        r@ == ed25519_signature_of(seed@, data@),
        r@.take(32) != neutral_point() ==> ed25519_accepts(
            ed25519_public_of(seed@),
            data@,
            r@,
        ),
{
    SigningKey::from_bytes(seed).sign(data).to_bytes()
}

/// Calls `VerifyingKey::from_bytes`, `Signature::from_slice` and
/// `VerifyingKey::verify_strict`. Whether all three succeed is a function of
/// the three arguments, and no signature of another length than sixty-four
/// bytes is taken.
#[verifier::external_body]
pub(crate) fn ed25519_verify(public: &[u8; 32], data: &[u8], signature: &[u8]) -> (r: bool)
    ensures
        r == ed25519_accepts(public@, data@, signature@),
        r ==> signature@.len() == 64,
{
    match (VerifyingKey::from_bytes(public), Signature::from_slice(signature)) {
        (Ok(key), Ok(s)) => key.verify_strict(data, &s).is_ok(),
        _ => false,
    }
}

/// The X25519 public key of a secret.
pub uninterp spec fn x25519_public_of(secret: Seq<u8>) -> Seq<u8>;

/// The X25519 shared secret of a secret and a public key.
pub uninterp spec fn x25519_shared_of(secret: Seq<u8>, public: Seq<u8>) -> Seq<u8>;

/// Every byte is zero.
pub open spec fn all_zero(data: Seq<u8>) -> bool {
    forall|i: int| 0 <= i < data.len() ==> data[i] == 0
}

/// Calls `PublicKey::from` on a `StaticSecret`. The public key is a function
/// of the secret bytes alone.
#[verifier::external_body]
pub(crate) fn x25519_public(secret: &[u8; 32]) -> (r: [u8; 32])
    ensures
        r@ == x25519_public_of(secret@),
{
    PublicKey::from(&StaticSecret::from(*secret)).to_bytes()
}

/// Calls `StaticSecret::diffie_hellman` and `SharedSecret::was_contributory`.
/// The shared secret is a function of the two arguments; the owner of the
/// secret behind the public key computes the same one from the other public
/// key; and the exchange was contributory unless every byte of it is zero.
#[verifier::external_body]
pub(crate) fn x25519_shared(secret: &[u8; 32], public: &[u8; 32]) -> (r: ([u8; 32], bool))
    ensures
        r.0@ == x25519_shared_of(secret@, public@),
        r.1 == !all_zero(r.0@),
        forall|other: Seq<u8>|
            other.len() == 32 && public@ == x25519_public_of(other) ==> r.0@
                == #[trigger] x25519_shared_of(other, x25519_public_of(secret@)),
{
    let shared = StaticSecret::from(*secret).diffie_hellman(&PublicKey::from(*public));
    (*shared.as_bytes(), shared.was_contributory())
}

/// The key that HKDF with SHA-256 derives.
pub uninterp spec fn hkdf_of(salt: Seq<u8>, secret: Seq<u8>, info: Seq<u8>) -> Seq<u8>;

/// Calls `Hkdf::<Sha256>::new` and `expand` for thirty-two bytes, a length
/// that `expand` always grants. The key is a function of the arguments.
#[verifier::external_body]
pub(crate) fn hkdf_key(salt: &[u8], secret: &[u8; 32], info: &[u8]) -> (r: [u8; 32])
    ensures
        r@ == hkdf_of(salt@, secret@, info@),
{
    let mut key = [0u8; 32];
    Hkdf::<Sha256>::new(Some(salt), secret).expand(info, &mut key).unwrap();
    key
}

/// The XChaCha20-Poly1305 ciphertext, with its tag, of a message.
pub uninterp spec fn xchacha_sealed(
    key: Seq<u8>,
    nonce: Seq<u8>,
    message: Seq<u8>,
    bound: Seq<u8>,
) -> Seq<u8>;

/// The message of an XChaCha20-Poly1305 ciphertext, if its tag is right.
pub uninterp spec fn xchacha_opened(
    key: Seq<u8>,
    nonce: Seq<u8>,
    ciphertext: Seq<u8>,
    bound: Seq<u8>,
) -> Option<Seq<u8>>;

/// The longest message that the cipher takes, in bytes: 2^32 - 2 blocks of
/// sixty-four, since its counter of blocks begins at one.
pub const LONGEST: u64 = 274877906816;

/// Calls `XChaCha20Poly1305::encrypt` on a message that the cipher takes; a
/// longer one can exhaust its counter of blocks. The ciphertext is a function of
/// the arguments, is longer than the message by a tag of sixteen bytes, and
/// decryption gives the message back.
#[verifier::external_body]
pub(crate) fn xchacha_seal(key: &[u8; 32], nonce: &[u8; 24], message: &[u8], bound: &[u8]) -> (r:
    Option<Vec<u8>>)
    requires
        message@.len() <= LONGEST,
    ensures
        r is Some,
        r matches Some(v) ==> {
            &&& v@ == xchacha_sealed(key@, nonce@, message@, bound@)
            &&& v@.len() == message@.len() + 16
            &&& xchacha_opened(key@, nonce@, v@, bound@) == Some(message@)
        },
{
    let payload = Payload { msg: message, aad: bound };
    XChaCha20Poly1305::new(key.into()).encrypt(XNonce::from_slice(nonce), payload).ok()
}

/// Calls `XChaCha20Poly1305::decrypt` on the ciphertext of a message that the
/// cipher takes, with its tag of sixteen bytes. Whether it succeeds, and with
/// what message, is a function of the arguments.
#[verifier::external_body]
pub(crate) fn xchacha_open(
    key: &[u8; 32],
    nonce: &[u8; 24],
    ciphertext: &[u8],
    bound: &[u8],
) -> (r: Option<Vec<u8>>)
    requires
        ciphertext@.len() <= LONGEST + 16,
    ensures
        match r {
            Some(v) => xchacha_opened(key@, nonce@, ciphertext@, bound@) == Some(v@),
            None => xchacha_opened(key@, nonce@, ciphertext@, bound@) is None,
        },
{
    let payload = Payload { msg: ciphertext, aad: bound };
    XChaCha20Poly1305::new(key.into()).decrypt(XNonce::from_slice(nonce), payload).ok()
}

} // verus!
