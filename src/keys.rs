//! Hierarchical key derivation (BIP32). Keys are held as their 78-byte
//! BIP32 serialisation: version, depth, parent fingerprint, child number,
//! chain code, then the key itself (a zero byte and the secret scalar, or
//! the compressed public point).
use vstd::prelude::*;
use crate::params::{Error, Network, opt_bytes};

verus! {

/// The length of a serialised extended key.
pub const XKEY_LEN: usize = 78;

/// The largest index of a non-hardened child, plus one.
pub const INDEX_LIMIT: u32 = 0x8000_0000;

/// The master extended private key of a seed on a network.
pub uninterp spec fn master_xpriv_of(network: Network, seed: Seq<u8>) -> Option<Seq<u8>>;

/// The extended public key that belongs to a serialised extended private key.
pub uninterp spec fn xpub_of_xpriv(xpriv: Seq<u8>) -> Option<Seq<u8>>;

/// The public child of a serialised extended public key.
pub uninterp spec fn child_xpub_of(xpub: Seq<u8>, index: u32) -> Option<Seq<u8>>;

/// The private child of a serialised extended private key.
pub uninterp spec fn child_xpriv_of(xpriv: Seq<u8>, index: u32) -> Option<Seq<u8>>;

/// The depth byte of a serialised extended key.
pub open spec fn depth_of(xkey: Seq<u8>) -> u8 {
    xkey[4]
}

/// An extended key from which a child may be derived: the right length, and
/// a depth that still has a successor.
pub open spec fn derivable(xkey: Seq<u8>) -> bool {
    xkey.len() == XKEY_LEN && depth_of(xkey) < 255
}

/// Relies on bitcoin's `ExtendedPrivKey::new_master` (BIP32 master key from a
/// seed: HMAC-SHA512 keyed by "Bitcoin seed"), serialised by `encode`.
#[verifier::external_body]
fn new_master_xpriv(network: Network, seed: &[u8]) -> (r: Option<Vec<u8>>)
    ensures
        opt_bytes(r) == master_xpriv_of(network, seed@),
        r matches Some(k) ==> k@.len() == XKEY_LEN && depth_of(k@) == 0,
{
    let net = match network {
        Network::Bitcoin => bitcoin::Network::Bitcoin,
        Network::Testnet => bitcoin::Network::Testnet,
        Network::Signet => bitcoin::Network::Signet,
        Network::Regtest => bitcoin::Network::Regtest,
    };
    match bitcoin::util::bip32::ExtendedPrivKey::new_master(net, seed) {
        Ok(k) => Some(k.encode().to_vec()),
        Err(_) => None,
    }
}

/// Relies on bitcoin's `ExtendedPubKey::from_priv`: the public key of an
/// extended private key, with its depth, fingerprint, child number and chain
/// code. The key is read by `ExtendedPrivKey::decode` and written by `encode`.
#[verifier::external_body]
fn public_of_xpriv(xpriv: &[u8]) -> (r: Option<Vec<u8>>)
    ensures
        opt_bytes(r) == xpub_of_xpriv(xpriv@),
        r matches Some(k) ==> k@.len() == XKEY_LEN && depth_of(k@) == depth_of(xpriv@),
{
    let secp = bitcoin::secp256k1::Secp256k1::signing_only();
    match bitcoin::util::bip32::ExtendedPrivKey::decode(xpriv) {
        Ok(k) => Some(bitcoin::util::bip32::ExtendedPubKey::from_priv(&secp, &k).encode().to_vec()),
        Err(_) => None,
    }
}

/// Relies on bitcoin's `ExtendedPubKey::derive_pub` along a one-step path
/// (BIP32 public-to-public child derivation). It adds one to the depth, so
/// the depth must not be 255.
#[verifier::external_body]
fn public_child(xpub: &[u8], index: u32) -> (r: Option<Vec<u8>>)
    requires
        xpub@.len() == XKEY_LEN ==> depth_of(xpub@) < 255,
    ensures
        opt_bytes(r) == child_xpub_of(xpub@, index),
        r matches Some(k) ==> k@.len() == XKEY_LEN,
{
    let secp = bitcoin::secp256k1::Secp256k1::verification_only();
    let path = [bitcoin::util::bip32::ChildNumber::from(index)];
    match bitcoin::util::bip32::ExtendedPubKey::decode(xpub) {
        Ok(k) => match k.derive_pub(&secp, &path) {
            Ok(c) => Some(c.encode().to_vec()),
            Err(_) => None,
        },
        Err(_) => None,
    }
}

/// Relies on bitcoin's `ExtendedPrivKey::derive_priv` along a one-step path
/// (BIP32 private child derivation). It adds one to the depth, so the depth
/// must not be 255.
#[verifier::external_body]
fn private_child(xpriv: &[u8], index: u32) -> (r: Option<Vec<u8>>)
    requires
        xpriv@.len() == XKEY_LEN ==> depth_of(xpriv@) < 255,
    ensures
        opt_bytes(r) == child_xpriv_of(xpriv@, index),
        r matches Some(k) ==> k@.len() == XKEY_LEN,
{
    let secp = bitcoin::secp256k1::Secp256k1::signing_only();
    let path = [bitcoin::util::bip32::ChildNumber::from(index)];
    match bitcoin::util::bip32::ExtendedPrivKey::decode(xpriv) {
        Ok(k) => match k.derive_priv(&secp, &path) {
            Ok(c) => Some(c.encode().to_vec()),
            Err(_) => None,
        },
        Err(_) => None,
    }
}

/// A derived key pair, both halves in their 78-byte serialisation.
#[derive(Debug, Clone)]
pub struct KeyPair {
    pub public_key: Vec<u8>,
    pub private_key: Vec<u8>,
}

/// The master extended private key of a seed, or `InvalidKey` where the
/// seed's hash is not a valid scalar.
pub open spec fn master_spec(network: Network, seed: Seq<u8>) -> Result<Seq<u8>, Error> {
    match master_xpriv_of(network, seed) {
        Some(k) => Ok(k),
        None => Err(Error::InvalidKey),
    }
}

/// The extended public key of an extended private key.
pub open spec fn public_spec(xpriv: Seq<u8>) -> Result<Seq<u8>, Error> {
    match xpub_of_xpriv(xpriv) {
        Some(k) => Ok(k),
        None => Err(Error::InvalidKey),
    }
}

/// The public child at `index` of a root extended public key.
pub open spec fn public_child_spec(xpub: Seq<u8>, index: u32) -> Result<Seq<u8>, Error> {
    if index >= INDEX_LIMIT {
        Err(Error::InvalidIndex)
    } else if !derivable(xpub) {
        Err(Error::MalformedBackup)
    } else {
        match child_xpub_of(xpub, index) {
            Some(k) => Ok(k),
            None => Err(Error::InvalidKey),
        }
    }
}

/// The private child at `index` of a root extended private key.
pub open spec fn private_child_spec(xpriv: Seq<u8>, index: u32) -> Result<Seq<u8>, Error> {
    if index >= INDEX_LIMIT {
        Err(Error::InvalidIndex)
    } else if !derivable(xpriv) {
        Err(Error::MalformedBackup)
    } else {
        match child_xpriv_of(xpriv, index) {
            Some(k) => Ok(k),
            None => Err(Error::InvalidKey),
        }
    }
}

/// The key pair at `index` of the tree rooted at `seed`.
pub open spec fn key_pair_spec(network: Network, seed: Seq<u8>, index: u32) -> Result<(Seq<u8>, Seq<u8>), Error> {
    match master_spec(network, seed) {
        Err(e) => Err(e),
        Ok(root) => match private_child_spec(root, index) {
            Err(e) => Err(e),
            Ok(child) => match public_spec(child) {
                Err(e) => Err(e),
                Ok(public) => Ok((public, child)),
            },
        },
    }
}

pub fn master_key(network: Network, seed: &[u8]) -> (r: Result<Vec<u8>, Error>)
    ensures
        match r {
            Ok(k) => master_spec(network, seed@) == Ok::<Seq<u8>, Error>(k@) && k@.len() == XKEY_LEN
                && depth_of(k@) == 0,
            Err(e) => master_spec(network, seed@) == Err::<Seq<u8>, Error>(e),
        },
{
    match new_master_xpriv(network, seed) {
        Some(k) => Ok(k),
        None => Err(Error::InvalidKey),
    }
}

pub fn public_key(xpriv: &[u8]) -> (r: Result<Vec<u8>, Error>)
    ensures
        match r {
            Ok(k) => public_spec(xpriv@) == Ok::<Seq<u8>, Error>(k@) && k@.len() == XKEY_LEN
                && depth_of(k@) == depth_of(xpriv@),
            Err(e) => public_spec(xpriv@) == Err::<Seq<u8>, Error>(e),
        },
{
    match public_of_xpriv(xpriv) {
        Some(k) => Ok(k),
        None => Err(Error::InvalidKey),
    }
}

/// Derives the public key at `index` from the public root alone, without the
/// seed.
pub fn derive_public_only(root: &[u8], index: u32) -> (r: Result<Vec<u8>, Error>)
    ensures
        match r {
            Ok(k) => public_child_spec(root@, index) == Ok::<Seq<u8>, Error>(k@) && k@.len() == XKEY_LEN,
            Err(e) => public_child_spec(root@, index) == Err::<Seq<u8>, Error>(e),
        },
{
    if index >= INDEX_LIMIT {
        return Err(Error::InvalidIndex);
    }
    if root.len() != XKEY_LEN || root[4] == 255 {
        return Err(Error::MalformedBackup);
    }
    match public_child(root, index) {
        Some(k) => Ok(k),
        None => Err(Error::InvalidKey),
    }
}

/// Derives the private key at `index` from a root extended private key.
pub fn derive_private(root: &[u8], index: u32) -> (r: Result<Vec<u8>, Error>)
    ensures
        match r {
            Ok(k) => private_child_spec(root@, index) == Ok::<Seq<u8>, Error>(k@) && k@.len() == XKEY_LEN,
            Err(e) => private_child_spec(root@, index) == Err::<Seq<u8>, Error>(e),
        },
{
    if index >= INDEX_LIMIT {
        return Err(Error::InvalidIndex);
    }
    if root.len() != XKEY_LEN || root[4] == 255 {
        return Err(Error::MalformedBackup);
    }
    match private_child(root, index) {
        Some(k) => Ok(k),
        None => Err(Error::InvalidKey),
    }
}

/// Derives the key pair at `index` of the tree rooted at `seed`. The result
/// is a function of the seed, the network and the index alone.
pub fn derive_key_pair(network: Network, seed: &[u8], index: u32) -> (r: Result<KeyPair, Error>)
    ensures
        match r {
            Ok(p) => key_pair_spec(network, seed@, index) == Ok::<(Seq<u8>, Seq<u8>), Error>(
                (p.public_key@, p.private_key@),
            ),
            Err(e) => key_pair_spec(network, seed@, index) == Err::<(Seq<u8>, Seq<u8>), Error>(e),
        },
{
    let root = master_key(network, seed)?;
    let child = derive_private(root.as_slice(), index)?;
    let public = public_key(child.as_slice())?;
    Ok(KeyPair { public_key: public, private_key: child })
}

/// Derivation is deterministic: two derivations with the same seed, network
/// and index that both succeed give the same key pair.
pub proof fn lemma_derivation_deterministic(
    network: Network,
    seed: Seq<u8>,
    index: u32,
    first: (Seq<u8>, Seq<u8>),
    second: (Seq<u8>, Seq<u8>),
)
    requires
        key_pair_spec(network, seed, index) == Ok::<(Seq<u8>, Seq<u8>), Error>(first),
        key_pair_spec(network, seed, index) == Ok::<(Seq<u8>, Seq<u8>), Error>(second),
    ensures
        first == second,
{
}

} // verus!
