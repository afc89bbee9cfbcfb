//! The local validator's key pair.
use crate::primitives::{SessionKey, Signature};
use vstd::prelude::*;

verus! {

/// The ed25519 public key of the key pair that `sp_core::ed25519::Pair` makes of a seed.
pub uninterp spec fn ed25519_public_key(seed: Seq<u8>) -> [u8; 32];

/// The ed25519 signature that the key pair of a seed makes on a message.
pub uninterp spec fn ed25519_signature(seed: Seq<u8>, message: Seq<u8>) -> [u8; 64];

/// Calls `sp_core::ed25519::Pair::from_seed` and then `public` on the pair.
///
/// Claims that the public key is a function of the seed, named [`ed25519_public_key`].
#[verifier::external_body]
fn public_of_seed(seed: &[u8; 32]) -> (public: [u8; 32])
    ensures
        public == ed25519_public_key(seed@),
{
    let pair = <sp_core::ed25519::Pair as sp_core::Pair>::from_seed(seed);
    sp_core::Pair::public(&pair).0
}

/// Calls `sp_core::ed25519::Pair::from_seed` and then `sign` on the pair.
///
/// Claims that the signature is a function of the seed and the message, named
/// [`ed25519_signature`].
#[verifier::external_body]
fn sign_with_seed(seed: &[u8; 32], message: &[u8]) -> (signature: [u8; 64])
    ensures
        signature == ed25519_signature(seed@, message@),
{
    let pair = <sp_core::ed25519::Pair as sp_core::Pair>::from_seed(seed);
    sp_core::Pair::sign(&pair, message).0
}

/// A session key pair: the secret seed and the public key that belongs to it.
pub struct Pair {
    seed: [u8; 32],
    public: SessionKey,
}

impl Pair {
    #[verifier::type_invariant]
    spec fn matching(self) -> bool {
        self.public == SessionKey(ed25519_public_key(self.seed@))
    }

    /// The secret seed.
    pub closed spec fn secret(self) -> Seq<u8> {
        self.seed@
    }

    /// The public key.
    pub closed spec fn public_key(self) -> SessionKey {
        self.public
    }

    /// The key pair of a secret seed.
    pub fn from_seed(seed: [u8; 32]) -> (pair: Pair)
        ensures
            pair.secret() == seed@,
            pair.public_key() == SessionKey(ed25519_public_key(seed@)),
    {
        let public = SessionKey(public_of_seed(&seed));
        Pair { seed, public }
    }

    /// The public half of the pair.
    pub fn public(&self) -> (key: SessionKey)
        ensures
            key == self.public_key(),
            key == SessionKey(ed25519_public_key(self.secret())),
    {
        proof {
            use_type_invariant(self);
        }
        self.public
    }

    /// The pair's signature on a message.
    pub fn sign(&self, message: &[u8]) -> (signature: Signature)
        ensures
            signature == Signature(ed25519_signature(self.secret(), message@)),
    {
        Signature(sign_with_seed(&self.seed, message))
    }
}

} // verus!
