//! Hashing, signatures and authenticated encryption, done by `sodiumoxide`.
//!
//! What the primitives compute is not restated here: each result has a name,
//! and the contracts of the library speak of those names.

use sodiumoxide::crypto::box_;
use sodiumoxide::crypto::hash::sha512;
use sodiumoxide::crypto::sign;
use vstd::prelude::*;

verus! {

/// Number of bytes that sealing adds to a plaintext.
pub const SEAL_OVERHEAD: usize = 16;

/// The SHA-512 digest of `data`.
pub uninterp spec fn sha512_digest(data: Seq<u8>) -> Seq<u8>;

/// The detached Ed25519 signature of `message` under the secret key `secret`.
pub uninterp spec fn ed25519_signature(message: Seq<u8>, secret: Seq<u8>) -> Seq<u8>;

/// Whether `signature` is accepted for `message` under the public key `key`.
pub uninterp spec fn ed25519_accepts(signature: Seq<u8>, message: Seq<u8>, key: Seq<u8>) -> bool;

/// What opening `sealed` from `their_key` with `our_secret` under `nonce`
/// gives: the plaintext, or nothing where the box does not authenticate.
pub uninterp spec fn box_opened(
    sealed: Seq<u8>,
    nonce: Seq<u8>,
    their_key: Seq<u8>,
    our_secret: Seq<u8>,
) -> Option<Seq<u8>>;

/// Whether the top three bits of the last byte of a signature are clear.
/// Signatures that fail this are never handed to the verifier.
pub open spec fn signature_well_formed(signature: Seq<u8>) -> bool {
    signature.len() == 64 && (signature[63] & 0xe0u8) == 0u8
}

/// Calls `sodiumoxide::crypto::hash::sha512::hash`; the result is the digest
/// it returns, named `sha512_digest`.
#[verifier::external_body]
pub(crate) fn sha512(data: &[u8]) -> (digest: [u8; 64])
    ensures
        digest@ == sha512_digest(data@),
{
    sha512::hash(data).0
}

/// Calls `sodiumoxide::crypto::sign::sign_detached` with the secret key made
/// of `secret`; the result is the signature it returns, named
/// `ed25519_signature`.
#[verifier::external_body]
pub(crate) fn sign_detached(message: &[u8], secret: &[u8; 64]) -> (signature: [u8; 64])
    ensures
        signature@ == ed25519_signature(message@, secret@),
{
    sign::sign_detached(message, &sign::SecretKey(*secret)).to_bytes()
}

/// Calls `sodiumoxide::crypto::sign::verify_detached`. The signature type
/// refuses bytes whose last byte has one of its top three bits set; such
/// bytes are reported as not verifying. Otherwise the result is what the
/// verifier returns, named `ed25519_accepts`.
#[verifier::external_body]
pub(crate) fn verify_detached(signature: &[u8; 64], message: &[u8], key: &[u8; 32]) -> (valid: bool)
    ensures
        valid == (signature_well_formed(signature@) && ed25519_accepts(
            signature@,
            message@,
            key@,
        )),
{
    match sign::Signature::from_bytes(signature) {
        Ok(parsed) => sign::verify_detached(&parsed, message, &sign::PublicKey(*key)),
        Err(_) => false,
    }
}

/// Calls `sodiumoxide::crypto::box_::seal`, which makes room for the
/// plaintext and `SEAL_OVERHEAD` bytes more and has the box written into
/// it. For some keys nothing is written, so only the length is promised.
/// The bound keeps that length within what a vector holds.
#[verifier::external_body]
pub(crate) fn box_seal(
    plain: &[u8],
    nonce: &[u8; 24],
    their_key: &[u8; 32],
    our_secret: &[u8; 32],
) -> (sealed: Vec<u8>)
    requires
        plain@.len() + SEAL_OVERHEAD <= isize::MAX,
    ensures
        sealed@.len() == plain@.len() + SEAL_OVERHEAD,
{
    box_::seal(
        plain,
        &box_::Nonce(*nonce),
        &box_::PublicKey(*their_key),
        &box_::SecretKey(*our_secret),
    )
}

/// Calls `sodiumoxide::crypto::box_::open`; the result is what it returns,
/// with its error turned into `None`, named `box_opened`.
#[verifier::external_body]
pub(crate) fn box_open(
    sealed: &[u8],
    nonce: &[u8; 24],
    their_key: &[u8; 32],
    our_secret: &[u8; 32],
) -> (plain: Option<Vec<u8>>)
    ensures
        match plain {
            Some(bytes) => box_opened(sealed@, nonce@, their_key@, our_secret@) == Some(bytes@),
            None => box_opened(sealed@, nonce@, their_key@, our_secret@).is_none(),
        },
{
    match box_::open(
        sealed,
        &box_::Nonce(*nonce),
        &box_::PublicKey(*their_key),
        &box_::SecretKey(*our_secret),
    ) {
        Ok(bytes) => Some(bytes),
        Err(_) => None,
    }
}

/// Calls `sodiumoxide::crypto::box_::gen_nonce`, which draws the nonce at
/// random: nothing is said of it.
#[verifier::external_body]
pub(crate) fn gen_nonce() -> (nonce: [u8; 24]) {
    box_::gen_nonce().0
}

/// Calls `sodiumoxide::crypto::sign::gen_keypair`, which draws the pair at
/// random: nothing is said of it. The public key comes first.
#[verifier::external_body]
pub(crate) fn gen_sign_keypair() -> (pair: ([u8; 32], [u8; 64])) {
    let (public, secret) = sign::gen_keypair();
    (public.0, secret.0)
}

/// Calls `sodiumoxide::crypto::box_::gen_keypair`, which draws the pair at
/// random: nothing is said of it. The public key comes first.
#[verifier::external_body]
pub(crate) fn gen_box_keypair() -> (pair: ([u8; 32], [u8; 32])) {
    let (public, secret) = box_::gen_keypair();
    (public.0, secret.0)
}

} // verus!
