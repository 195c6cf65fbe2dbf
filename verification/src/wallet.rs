//! Wallets: ed25519 key pairs, kept as the 32 bytes of their secret key,
//! and the bytes a wallet file holds.

use vstd::prelude::*;

use libp2p::identity::ed25519;
use libp2p::identity::DecodingError;

use crate::block::copy_bytes;
use crate::error::{MarkChainError, Result};

verus! {

/// The 32-byte ed25519 public key that belongs to the 32-byte secret key
/// `secret`.
pub uninterp spec fn ed25519_public_key(secret: Seq<u8>) -> Seq<u8>;

/// Calls `ed25519::SecretKey::generate` and copies the key's bytes out
/// (`as_ref`): a fresh random secret key, always 32 bytes long.
#[verifier::external_body]
fn secret_key_generate() -> (b: Vec<u8>)
    ensures
        b@.len() == 32,
{
    ed25519::SecretKey::generate().as_ref().to_vec()
}

/// Calls `ed25519::SecretKey::try_from_bytes`, which fails exactly when the
/// input is not 32 bytes long, copies the key out of the input and zeroes
/// the input when it succeeds; the key's bytes are read back (`as_ref`).
#[verifier::external_body]
fn secret_key_try_from_bytes(bytes: &mut Vec<u8>) -> (r: core::result::Result<
    Vec<u8>,
    DecodingError,
>)
    ensures
        r is Ok <==> old(bytes)@.len() == 32,
        r matches Ok(k) ==> k@ == old(bytes)@,
        r is Ok ==> final(bytes)@ == Seq::new(32, |i: int| 0u8),
        r is Err ==> final(bytes)@ == old(bytes)@,
{
    match ed25519::SecretKey::try_from_bytes(bytes) {
        Ok(key) => Ok(key.as_ref().to_vec()),
        Err(e) => Err(e),
    }
}

/// Calls `ed25519::Keypair::public` on the pair built (`Keypair::from`) from
/// the secret key with bytes `secret` (`SecretKey::try_from_bytes`, which
/// cannot fail on 32 bytes), and returns its 32 bytes (`to_bytes`). The
/// public key is a function of the secret key alone.
#[verifier::external_body]
fn public_key_of_secret(secret: &[u8]) -> (r: Vec<u8>)
    requires
        secret@.len() == 32,
    ensures
        r@ == ed25519_public_key(secret@),
        r@.len() == 32,
{
    let secret = ed25519::SecretKey::try_from_bytes(secret.to_vec()).expect("32 bytes");
    ed25519::Keypair::from(secret).public().to_bytes().to_vec()
}

/// An ed25519 secret key: its 32 bytes.
pub struct SecretKey {
    bytes: Vec<u8>,
}

impl View for SecretKey {
    type V = Seq<u8>;

    closed spec fn view(&self) -> Seq<u8> {
        self.bytes@
    }
}

impl Clone for SecretKey {
    fn clone(&self) -> (r: Self)
        ensures
            r@ == self@,
    {
        proof {
            use_type_invariant(self);
        }
        SecretKey { bytes: copy_bytes(&self.bytes) }
    }
}

impl SecretKey {
    /// An ed25519 secret key is 32 bytes long.
    #[verifier::type_invariant]
    spec fn has_key_length(self) -> bool {
        self.bytes@.len() == 32
    }

    /// A fresh random secret key.
    pub fn generate() -> (s: SecretKey)
        ensures
            s@.len() == 32,
    {
        SecretKey { bytes: secret_key_generate() }
    }

    /// The secret key with bytes `bytes`; fails exactly when `bytes` is not
    /// 32 bytes long. On success `bytes` is zeroed.
    pub fn try_from_bytes(bytes: &mut Vec<u8>) -> (r: Result<SecretKey>)
        ensures
            r is Ok <==> old(bytes)@.len() == 32,
            r matches Ok(s) ==> s@ == old(bytes)@,
            r matches Err(e) ==> e is WalletDecoding && final(bytes)@ == old(bytes)@,
            r is Ok ==> final(bytes)@ == Seq::new(32, |i: int| 0u8),
    {
        match secret_key_try_from_bytes(bytes) {
            Ok(key) => Ok(SecretKey { bytes: key }),
            Err(e) => Err(MarkChainError::WalletDecoding(e)),
        }
    }

    /// The key's bytes.
    pub fn to_bytes(&self) -> (b: Vec<u8>)
        ensures
            b@ == self@,
            b@.len() == 32,
    {
        proof {
            use_type_invariant(self);
        }
        copy_bytes(&self.bytes)
    }
}

/// An ed25519 public key: its 32 bytes.
#[derive(Debug, Clone, PartialEq, Eq)]
pub struct PublicKey {
    bytes: Vec<u8>,
}

impl View for PublicKey {
    type V = Seq<u8>;

    closed spec fn view(&self) -> Seq<u8> {
        self.bytes@
    }
}

impl PublicKey {
    /// The key's bytes.
    pub fn as_bytes(&self) -> (b: &[u8])
        ensures
            b@ == self@,
    {
        self.bytes.as_slice()
    }
}

/// An ed25519 key pair, kept as its secret key; the public key derives from
/// it.
pub struct Keypair {
    secret: SecretKey,
}

impl View for Keypair {
    type V = Seq<u8>;

    /// The bytes of the secret key.
    closed spec fn view(&self) -> Seq<u8> {
        self.secret@
    }
}

impl Keypair {
    /// A fresh random key pair.
    pub fn generate() -> (k: Keypair)
        ensures
            k@.len() == 32,
    {
        Keypair { secret: SecretKey::generate() }
    }

    /// The secret half of the pair.
    pub fn secret(&self) -> (s: SecretKey)
        ensures
            s@ == self@,
    {
        self.secret.clone()
    }

    /// The public half of the pair.
    pub fn public(&self) -> (p: PublicKey)
        ensures
            p@ == ed25519_public_key(self@),
    {
        proof {
            use_type_invariant(&self.secret);
        }
        PublicKey { bytes: public_key_of_secret(self.secret.bytes.as_slice()) }
    }
}

impl From<SecretKey> for Keypair {
    /// The key pair whose secret half is `secret`.
    fn from(secret: SecretKey) -> (k: Keypair)
        ensures
            k@ == secret@,
    {
        Keypair { secret }
    }
}

impl vstd::std_specs::convert::FromSpecImpl<SecretKey> for Keypair {
    open spec fn obeys_from_spec() -> bool {
        true
    }

    closed spec fn from_spec(secret: SecretKey) -> Keypair {
        Keypair { secret }
    }
}

/// The address of a wallet: its public key.
pub type WalletAddress = PublicKey;

/// An ed25519 key pair that holds funds.
pub struct Wallet {
    keypair: Keypair,
}

impl View for Wallet {
    type V = Seq<u8>;

    /// The bytes of the wallet's secret key.
    closed spec fn view(&self) -> Seq<u8> {
        self.keypair@
    }
}

impl Wallet {
    /// A wallet with a fresh random key pair.
    pub fn new() -> (w: Wallet)
        ensures
            w@.len() == 32,
    {
        Wallet { keypair: Keypair::generate() }
    }

    /// The public key of the wallet's key pair.
    pub fn address(&self) -> (a: WalletAddress)
        ensures
            a@ == ed25519_public_key(self@),
    {
        self.keypair.public()
    }

    /// The 32 bytes of the wallet's secret key, as a wallet file holds them.
    pub fn secret_bytes(&self) -> (b: Vec<u8>)
        ensures
            b@ == self@,
            b@.len() == 32,
    {
        self.keypair.secret.to_bytes()
    }

    /// The wallet whose secret key is `bytes`; fails exactly when `bytes`
    /// is not 32 bytes long. On success `bytes` is zeroed.
    pub fn from_secret_bytes(bytes: &mut Vec<u8>) -> (r: Result<Wallet>)
        ensures
            r is Ok <==> old(bytes)@.len() == 32,
            r matches Ok(w) ==> w@ == old(bytes)@,
            r matches Err(e) ==> e is WalletDecoding && final(bytes)@ == old(bytes)@,
            r is Ok ==> final(bytes)@ == Seq::new(32, |i: int| 0u8),
    {
        let secret = SecretKey::try_from_bytes(bytes)?;
        Ok(Wallet::from(secret))
    }
}

/// A wallet written out as its secret bytes (`secret_bytes`) and read back
/// (`from_secret_bytes`, which succeeds on them, as they are 32 bytes long)
/// has the address it had.
pub proof fn lemma_reloaded_wallet_keeps_address(w: Wallet, stored: Seq<u8>, loaded: Wallet)
    requires
        stored == w@,
        loaded@ == stored,
    ensures
        ed25519_public_key(loaded@) == ed25519_public_key(w@),
{
}

impl From<Keypair> for Wallet {
    /// The wallet that holds `keypair`.
    fn from(keypair: Keypair) -> (w: Wallet)
        ensures
            w@ == keypair@,
    {
        Wallet { keypair }
    }
}

impl vstd::std_specs::convert::FromSpecImpl<Keypair> for Wallet {
    open spec fn obeys_from_spec() -> bool {
        true
    }

    closed spec fn from_spec(keypair: Keypair) -> Wallet {
        Wallet { keypair }
    }
}

impl From<SecretKey> for Wallet {
    /// The wallet whose key pair is built from `secret`.
    fn from(secret: SecretKey) -> (w: Wallet)
        ensures
            w@ == secret@,
    {
        Wallet { keypair: Keypair::from(secret) }
    }
}

impl vstd::std_specs::convert::FromSpecImpl<SecretKey> for Wallet {
    open spec fn obeys_from_spec() -> bool {
        true
    }

    closed spec fn from_spec(secret: SecretKey) -> Wallet {
        Wallet { keypair: Keypair { secret } }
    }
}

} // verus!
