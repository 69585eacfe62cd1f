//! The key generator: Ed25519 keypairs drawn from the operating system's
//! entropy, and the identifiers derived from their public keys.
use vstd::prelude::*;
use ed25519_consensus::SigningKey;
use rand::rngs::OsRng;
use rand::{RngCore, SeedableRng};
use rand_chacha::rand_core::block::BlockRng;
use rand_chacha::ChaCha20Core;
use tendermint::account;
use tendermint::private_key::PrivateKey;
use tendermint_config::NodeKey;
use crate::error::KeygenError;
use crate::text::{hex_lower, hex_string, lemma_hex_lower_len};

verus! {

/// The Ed25519 public key of a 32-byte secret seed.
pub uninterp spec fn ed25519_public_of(seed: Seq<u8>) -> Seq<u8>;

/// The node identifier of an Ed25519 public key: the first 20 bytes of its
/// SHA-256 digest.
pub uninterp spec fn node_id_of(public: Seq<u8>) -> Seq<u8>;

/// The account address of an Ed25519 public key: the first 20 bytes of its
/// SHA-256 digest.
pub uninterp spec fn account_id_of(public: Seq<u8>) -> Seq<u8>;

/// Relies on rand_chacha's `ChaCha20Core::from_rng(OsRng)`, which seeds a new
/// ChaCha20 generator from the operating system and returns its error where
/// the operating system's source fails, and on rand_core's `BlockRng`, whose
/// `fill_bytes` over that core cannot fail: 32 secret bytes from a generator
/// made for this one call, or `None` where seeding failed. Nothing is
/// promised of the bytes.
#[verifier::external_body]
fn fresh_seed() -> (r: Option<[u8; 32]>) {
    let core = ChaCha20Core::from_rng(OsRng).ok()?;
    let mut rng = BlockRng::new(core);
    let mut seed = [0u8; 32];
    rng.fill_bytes(&mut seed);
    Some(seed)
}

/// Relies on ed25519_consensus's `SigningKey::from([u8; 32])` and
/// `verification_key`: the public key depends on the seed alone.
#[verifier::external_body]
fn ed25519_public_key(seed: &[u8; 32]) -> (r: [u8; 32])
    ensures
        r@ == ed25519_public_of(seed@),
{
    SigningKey::from(*seed).verification_key().to_bytes()
}

/// Relies on tendermint_config's `NodeKey::node_id` for the key with this
/// seed: the node identifier of its public key.
#[verifier::external_body]
fn node_id_for_seed(seed: &[u8; 32]) -> (r: [u8; 20])
    ensures
        r@ == node_id_of(ed25519_public_of(seed@)),
{
    let node_key = NodeKey { priv_key: PrivateKey::from(SigningKey::from(*seed)) };
    let mut out = [0u8; 20];
    out.copy_from_slice(node_key.node_id().as_bytes());
    out
}

/// Relies on tendermint's `account::Id::from(PublicKey)` for the public key
/// of the key with this seed: its account address.
#[verifier::external_body]
fn account_id_for_seed(seed: &[u8; 32]) -> (r: [u8; 20])
    ensures
        r@ == account_id_of(ed25519_public_of(seed@)),
{
    let public = PrivateKey::from(SigningKey::from(*seed)).public_key();
    let mut out = [0u8; 20];
    out.copy_from_slice(account::Id::from(public).as_bytes());
    out
}

/// An Ed25519 keypair: a secret seed and the public key derived from it.
pub struct Keypair {
    seed: [u8; 32],
    public: [u8; 32],
}

impl Keypair {
    #[verifier::type_invariant]
    spec fn derived(&self) -> bool {
        self.public@ == ed25519_public_of(self.seed@)
    }

    /// The secret seed.
    pub closed spec fn seed_bytes(&self) -> Seq<u8> {
        self.seed@
    }

    /// The public key.
    pub closed spec fn public_bytes(&self) -> Seq<u8> {
        self.public@
    }

    /// The keypair of a given seed.
    pub fn from_seed(seed: [u8; 32]) -> (r: Keypair)
        ensures
            r.seed_bytes() == seed@,
            r.public_bytes() == ed25519_public_of(seed@),
    {
        let public = ed25519_public_key(&seed);
        Keypair { seed, public }
    }

    /// A keypair from a fresh seed of the entropy source; fails, without a
    /// key, where that source is unavailable.
    pub fn generate() -> (r: Result<Keypair, KeygenError>)
        ensures
            r matches Ok(k) ==> k.public_bytes() == ed25519_public_of(k.seed_bytes()),
            r matches Err(e) ==> e == KeygenError::EntropyUnavailable,
    {
        match fresh_seed() {
            Some(seed) => Ok(Keypair::from_seed(seed)),
            None => Err(KeygenError::EntropyUnavailable),
        }
    }

    pub fn seed(&self) -> (r: [u8; 32])
        ensures
            r@ == self.seed_bytes(),
            self.public_bytes() == ed25519_public_of(r@),
    {
        proof {
            use_type_invariant(self);
        }
        self.seed
    }

    pub fn public_key(&self) -> (r: [u8; 32])
        ensures
            r@ == self.public_bytes(),
            r@ == ed25519_public_of(self.seed_bytes()),
    {
        proof {
            use_type_invariant(self);
        }
        self.public
    }

    /// The node identifier of the public key, 20 bytes.
    pub fn node_id(&self) -> (r: [u8; 20])
        ensures
            r@ == node_id_of(self.public_bytes()),
    {
        proof {
            use_type_invariant(self);
        }
        node_id_for_seed(&self.seed)
    }

    /// The node identifier of the public key as 40 lowercase hex digits.
    pub fn node_identifier(&self) -> (r: String)
        ensures
            r@ == hex_lower(node_id_of(self.public_bytes())),
            r@.len() == 40,
            self.public_bytes() == ed25519_public_of(self.seed_bytes()),
    {
        proof {
            use_type_invariant(self);
        }
        let id = self.node_id();
        proof {
            lemma_hex_lower_len(id@);
        }
        hex_string(&id)
    }

    /// The account address of the public key, 20 bytes.
    pub fn account_address(&self) -> (r: [u8; 20])
        ensures
            r@ == account_id_of(self.public_bytes()),
            self.public_bytes() == ed25519_public_of(self.seed_bytes()),
    {
        proof {
            use_type_invariant(self);
        }
        account_id_for_seed(&self.seed)
    }
}

/// The node identifier is a function of the public key: keypairs with equal
/// public keys have equal identifiers.
pub proof fn lemma_node_id_deterministic(a: &Keypair, b: &Keypair)
    requires
        a.public_bytes() == b.public_bytes(),
    ensures
        hex_lower(node_id_of(a.public_bytes())) == hex_lower(node_id_of(b.public_bytes())),
{
}

} // verus!
