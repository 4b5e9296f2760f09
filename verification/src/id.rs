//! Identities: the keys of a participant and the name it goes by.

use crate::bytes::bytes_equal;
use crate::crypto::{gen_box_keypair, gen_sign_keypair, sha512, sha512_digest};
use crate::names::XorName;
use vstd::prelude::*;

verus! {

/// The public part of an identity: both public keys and the name.
///
/// A fresh identity is named by the hash of its signing key. Once the
/// network has moved it, the name is no longer that hash, and this is how a
/// relocated identity is told from a fresh one.
#[derive(Clone, Copy, Debug, PartialEq, Eq, Hash)]
pub struct PublicId {
    pub public_encrypt_key: [u8; 32],
    pub public_sign_key: [u8; 32],
    pub name: XorName,
}

impl PublicId {
    /// The identity with the given keys, named by the hash of the signing key.
    pub fn new(public_encrypt_key: [u8; 32], public_sign_key: [u8; 32]) -> (id: PublicId)
        ensures
            id.public_encrypt_key == public_encrypt_key,
            id.public_sign_key == public_sign_key,
            id.name@ == sha512_digest(public_sign_key@),
            !id.is_relocated(),
    {
        PublicId {
            public_encrypt_key,
            public_sign_key,
            name: XorName(sha512(public_sign_key.as_slice())),
        }
    }

    /// Whether the name differs from the hash of the signing key.
    pub open spec fn is_relocated(&self) -> bool {
        self.name@ != sha512_digest(self.public_sign_key@)
    }

    /// The name.
    pub fn name(&self) -> (name: &XorName)
        ensures
            *name == self.name,
    {
        &self.name
    }

    /// Replaces the name.
    pub fn set_name(&mut self, name: XorName)
        ensures
            final(self).name == name,
            final(self).public_sign_key == old(self).public_sign_key,
            final(self).public_encrypt_key == old(self).public_encrypt_key,
    {
        self.name = name;
    }

    /// The key that verifies this identity's signatures.
    pub fn signing_public_key(&self) -> (key: &[u8; 32])
        ensures
            *key == self.public_sign_key,
    {
        &self.public_sign_key
    }

    /// The key to seal boxes for this identity.
    pub fn encrypting_public_key(&self) -> (key: &[u8; 32])
        ensures
            *key == self.public_encrypt_key,
    {
        &self.public_encrypt_key
    }

    /// Whether the name differs from the hash of the signing key.
    pub fn has_relocated_name(&self) -> (relocated: bool)
        ensures
            relocated == self.is_relocated(),
    {
        let hashed = sha512(self.public_sign_key.as_slice());
        !bytes_equal(self.name.0.as_slice(), hashed.as_slice())
    }

    /// Whether both keys and the name are those of `other`.
    pub fn same_as(&self, other: &PublicId) -> (same: bool)
        ensures
            same == (*self == *other),
    {
        let same = bytes_equal(
            self.public_encrypt_key.as_slice(),
            other.public_encrypt_key.as_slice(),
        ) && bytes_equal(self.public_sign_key.as_slice(), other.public_sign_key.as_slice())
            && self.name.same_as(&other.name);
        proof {
            if same {
                assert(self.public_encrypt_key =~= other.public_encrypt_key);
                assert(self.public_sign_key =~= other.public_sign_key);
            }
        }
        same
    }
}

/// A whole identity: the public part and both secret keys.
#[derive(Clone, Debug)]
pub struct FullId {
    pub public_id: PublicId,
    pub private_encrypt_key: [u8; 32],
    pub private_sign_key: [u8; 64],
}

impl FullId {
    /// A fresh identity with keys drawn at random.
    pub fn new() -> (id: FullId)
        ensures
            !id.public_id.is_relocated(),
    {
        let (public_encrypt_key, private_encrypt_key) = gen_box_keypair();
        let (public_sign_key, private_sign_key) = gen_sign_keypair();
        FullId {
            public_id: PublicId::new(public_encrypt_key, public_sign_key),
            private_encrypt_key,
            private_sign_key,
        }
    }

    /// The fresh identity with the given keys.
    pub fn with_keys(
        encrypt_keys: ([u8; 32], [u8; 32]),
        sign_keys: ([u8; 32], [u8; 64]),
    ) -> (id: FullId)
        ensures
            id.public_id.public_encrypt_key == encrypt_keys.0,
            id.private_encrypt_key == encrypt_keys.1,
            id.public_id.public_sign_key == sign_keys.0,
            id.private_sign_key == sign_keys.1,
            !id.public_id.is_relocated(),
    {
        FullId {
            public_id: PublicId::new(encrypt_keys.0, sign_keys.0),
            private_encrypt_key: encrypt_keys.1,
            private_sign_key: sign_keys.1,
        }
    }

    /// The public part.
    pub fn public_id(&self) -> (id: &PublicId)
        ensures
            *id == self.public_id,
    {
        &self.public_id
    }

    /// The secret key that signs.
    pub fn signing_private_key(&self) -> (key: &[u8; 64])
        ensures
            *key == self.private_sign_key,
    {
        &self.private_sign_key
    }

    /// The secret key that opens boxes.
    pub fn encrypting_private_key(&self) -> (key: &[u8; 32])
        ensures
            *key == self.private_encrypt_key,
    {
        &self.private_encrypt_key
    }
}

} // verus!
