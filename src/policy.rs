//! The two-step recovery policy of an address, and the taproot commitment
//! that binds it to the owner's key.
//!
//! An address for an amount is a taproot output whose internal key is the
//! owner's key: the owner spends at once by the key path. Its one script
//! leaf lets the recovery key spend, but only into a fixed transaction
//! (CHECKTEMPLATEVERIFY) whose first output re-locks the amount, less the
//! fee and an anchor, under the owner's key or the recovery key after the
//! delay, and whose second output is a small anchor for fee bumping.
use vstd::prelude::*;
use crate::codec::{append_bytes, u32_le, u64_le, write_u32_le, write_u64_le};
use crate::params::{opt_bytes, Error};
use crate::splitter::{sha256, sha256_of};

verus! {

/// The value of the fee-bumping anchor output, in satoshis.
pub const DUST_AMOUNT: u64 = 546;

pub const OP_0: u8 = 0x00;
pub const OP_PUSHBYTES_32: u8 = 0x20;
pub const OP_1: u8 = 0x51;
pub const OP_CHECKSIG: u8 = 0xac;
pub const OP_CHECKSIGVERIFY: u8 = 0xad;
pub const OP_CHECKSEQUENCEVERIFY: u8 = 0xb2;
pub const OP_CHECKTEMPLATEVERIFY: u8 = 0xb3;

/// The tagged hash of a tapscript leaf (BIP341).
pub uninterp spec fn tap_leaf_hash_of(script: Seq<u8>) -> Seq<u8>;

/// The output key, and whether its y coordinate is odd, of an x-only key
/// tweaked by a merkle root (BIP341), or `None` where the key or root is
/// not valid.
pub uninterp spec fn tweaked_public_of(key: Seq<u8>, merkle_root: Seq<u8>) -> Option<(Seq<u8>, bool)>;

/// The secret key of a key pair tweaked by a merkle root (BIP341), or
/// `None` where the secret or root is not valid.
pub uninterp spec fn tweaked_secret_of(secret: Seq<u8>, merkle_root: Seq<u8>) -> Option<Seq<u8>>;

pub open spec fn opt_key_parity(o: Option<(Vec<u8>, bool)>) -> Option<(Seq<u8>, bool)> {
    match o {
        Some(p) => Some((p.0@, p.1)),
        None => None,
    }
}

/// Relies on `TapLeafHash::from_script` of bitcoin, for a tapscript leaf.
#[verifier::external_body]
fn tap_leaf_hash(script: &[u8]) -> (r: Vec<u8>)
    ensures
        r@ == tap_leaf_hash_of(script@),
        r@.len() == 32,
{
    let script = bitcoin::Script::from(script.to_vec());
    let leaf = bitcoin::util::taproot::TapLeafHash::from_script(&script, bitcoin::util::taproot::LeafVersion::TapScript);
    bitcoin::hashes::Hash::into_inner(leaf).to_vec()
}

/// Relies on bitcoin's `TapTweakHash::from_key_and_tweak` and on
/// `XOnlyPublicKey::tweak_add_assign` of secp256k1: the two steps of
/// `TapTweak::tap_tweak` for a public key, Q = P + H(P || root)·G, with the
/// failure of the addition returned rather than raised.
#[verifier::external_body]
fn tweak_public(key: &[u8], merkle_root: &[u8]) -> (r: Option<(Vec<u8>, bool)>)
    ensures
        opt_key_parity(r) == tweaked_public_of(key@, merkle_root@),
        r matches Some(q) ==> q.0@.len() == 32,
{
    let secp = bitcoin::secp256k1::Secp256k1::verification_only();
    let mut output = match bitcoin::secp256k1::XOnlyPublicKey::from_slice(key) { Ok(k) => k, Err(_) => return None };
    let root = match <bitcoin::util::taproot::TapBranchHash as bitcoin::hashes::Hash>::from_slice(merkle_root) { Ok(h) => h, Err(_) => return None };
    let tweak = bitcoin::util::taproot::TapTweakHash::from_key_and_tweak(output, Some(root));
    match output.tweak_add_assign(&secp, &bitcoin::hashes::Hash::into_inner(tweak)) {
        Ok(parity) => Some((output.serialize().to_vec(), parity == bitcoin::secp256k1::Parity::Odd)),
        Err(_) => None,
    }
}

/// Relies on bitcoin's `TapTweakHash::from_key_and_tweak` and on
/// `KeyPair::tweak_add_assign` of secp256k1: the two steps of
/// `TapTweak::tap_tweak` for a key pair, q = ±p + H(P || root), with the
/// failure of the addition returned rather than raised.
#[verifier::external_body]
fn tweak_secret(secret: &[u8], merkle_root: &[u8]) -> (r: Option<Vec<u8>>)
    ensures
        opt_bytes(r) == tweaked_secret_of(secret@, merkle_root@),
        r matches Some(q) ==> q@.len() == 32,
{
    let secp = bitcoin::secp256k1::Secp256k1::new();
    let mut pair = match bitcoin::secp256k1::KeyPair::from_seckey_slice(&secp, secret) { Ok(p) => p, Err(_) => return None };
    let root = match <bitcoin::util::taproot::TapBranchHash as bitcoin::hashes::Hash>::from_slice(merkle_root) { Ok(h) => h, Err(_) => return None };
    let internal = bitcoin::secp256k1::XOnlyPublicKey::from_keypair(&pair);
    let tweak = bitcoin::util::taproot::TapTweakHash::from_key_and_tweak(internal, Some(root));
    match pair.tweak_add_assign(&secp, &bitcoin::hashes::Hash::into_inner(tweak)) {
        Ok(()) => Some(pair.secret_bytes().to_vec()),
        Err(_) => None,
    }
}

/// The minimal little-endian magnitude of a script number.
pub open spec fn scriptnum_magnitude(n: nat) -> Seq<u8>
    decreases n,
{
    if n == 0 {
        seq![]
    } else {
        seq![(n % 256) as u8] + scriptnum_magnitude(n / 256)
    }
}

/// A non-negative script number: its magnitude, with a zero byte added
/// where the top bit of the last byte would read as a sign.
pub open spec fn scriptnum(n: nat) -> Seq<u8> {
    let m = scriptnum_magnitude(n);
    if m.len() > 0 && m.last() >= 0x80 {
        m.push(0)
    } else {
        m
    }
}

/// The shortest script that pushes a non-negative number: `OP_0`,
/// `OP_1`..`OP_16`, or a push of its script-number bytes.
pub open spec fn int_push(n: u32) -> Seq<u8> {
    if n == 0 {
        seq![OP_0]
    } else if n <= 16 {
        seq![(0x50 + n) as u8]
    } else {
        seq![scriptnum(n as nat).len() as u8] + scriptnum(n as nat)
    }
}

proof fn lemma_magnitude_len(n: nat)
    ensures
        n < 0x1_0000_0000 ==> scriptnum_magnitude(n).len() <= 4,
        n < 0x100_0000 ==> scriptnum_magnitude(n).len() <= 3,
        n < 0x1_0000 ==> scriptnum_magnitude(n).len() <= 2,
        n < 0x100 ==> scriptnum_magnitude(n).len() <= 1,
    decreases n,
{
    if n > 0 {
        lemma_magnitude_len(n / 256);
    }
}

pub fn write_int_push(out: &mut Vec<u8>, n: u32)
    ensures
        final(out)@ == old(out)@ + int_push(n),
{
    if n == 0 {
        out.push(OP_0);
        assert(final(out)@ =~= old(out)@ + int_push(n));
        return;
    }
    if n <= 16 {
        out.push((0x50 + n) as u8);
        assert(final(out)@ =~= old(out)@ + int_push(n));
        return;
    }
    let mut digits: Vec<u8> = Vec::new();
    let mut v: u32 = n;
    while v > 0
        invariant
            digits@ + scriptnum_magnitude(v as nat) == scriptnum_magnitude(n as nat),
        decreases v,
    {
        let ghost before = digits@;
        digits.push((v % 256) as u8);
        assert(digits@ + scriptnum_magnitude((v / 256) as nat) =~= before + scriptnum_magnitude(v as nat));
        v = v / 256;
    }
    assert(digits@ =~= scriptnum_magnitude(n as nat));
    proof {
        lemma_magnitude_len(n as nat);
    }
    if digits.len() > 0 && digits[digits.len() - 1] >= 0x80 {
        digits.push(0);
    }
    assert(digits@ == scriptnum(n as nat));
    out.push(digits.len() as u8);
    append_bytes(out, digits.as_slice());
    assert(final(out)@ =~= old(out)@ + int_push(n));
}

/// A push of a 32-byte key.
pub open spec fn key_push(key: Seq<u8>) -> Seq<u8> {
    seq![OP_PUSHBYTES_32] + key
}

/// The first step of recovery: the recovery key signs, and the spending
/// transaction must be the template whose hash is `template`.
pub open spec fn recover_leaf(recovery_key: Seq<u8>, template: Seq<u8>) -> Seq<u8> {
    key_push(recovery_key) + seq![OP_CHECKSIGVERIFY, OP_PUSHBYTES_32] + template + seq![OP_CHECKTEMPLATEVERIFY]
}

/// The second step: the recovery key signs once the delay has passed.
pub open spec fn delayed_leaf(recovery_key: Seq<u8>, delay: u32) -> Seq<u8> {
    key_push(recovery_key) + seq![OP_CHECKSIGVERIFY] + int_push(delay) + seq![OP_CHECKSEQUENCEVERIFY]
}

/// The anchor: the recovery key alone.
pub open spec fn anchor_leaf(recovery_key: Seq<u8>) -> Seq<u8> {
    key_push(recovery_key) + seq![OP_CHECKSIG]
}

/// The script of a segwit v1 (taproot) output.
pub open spec fn p2tr_script(output_key: Seq<u8>) -> Seq<u8> {
    seq![OP_1, OP_PUSHBYTES_32] + output_key
}

/// A serialised transaction output: value, script length, script.
pub open spec fn tx_out(value: u64, script: Seq<u8>) -> Seq<u8> {
    u64_le(value) + seq![script.len() as u8] + script
}

/// The template hash preimage (BIP119) of a version 2 transaction without
/// lock time, with one input of final sequence and two outputs.
pub open spec fn template_preimage(outputs: Seq<u8>) -> Seq<u8> {
    u32_le(2) + u32_le(0) + u32_le(1) + sha256_of(u32_le(0xffff_ffff)) + u32_le(2) + sha256_of(outputs) + u32_le(0)
}

/// What the commitment of an address consists of.
pub struct SpendInfoView {
    pub internal_key: Seq<u8>,
    pub script: Seq<u8>,
    pub merkle_root: Seq<u8>,
    pub output_key: Seq<u8>,
    pub output_key_odd: bool,
}

/// The commitment of an address: its taproot tree and output key.
#[derive(Debug, Clone)]
pub struct SpendInfo {
    pub internal_key: Vec<u8>,
    pub script: Vec<u8>,
    pub merkle_root: Vec<u8>,
    pub output_key: Vec<u8>,
    pub output_key_odd: bool,
}

impl View for SpendInfo {
    type V = SpendInfoView;

    open spec fn view(&self) -> SpendInfoView {
        SpendInfoView {
            internal_key: self.internal_key@,
            script: self.script@,
            merkle_root: self.merkle_root@,
            output_key: self.output_key@,
            output_key_odd: self.output_key_odd,
        }
    }
}

/// Whether the amount covers the fee, the anchor and a nonzero remainder.
pub open spec fn amount_sufficient(amount: u64, fee: u32) -> bool {
    amount > fee + DUST_AMOUNT
}

/// The output of a taproot tree with one leaf under the owner's key.
pub open spec fn leaf_output(user_key: Seq<u8>, leaf: Seq<u8>) -> Option<(Seq<u8>, bool)> {
    tweaked_public_of(user_key, tap_leaf_hash_of(leaf))
}

/// The commitment of the two-step recovery policy for an amount.
pub open spec fn compile_spec(
    user_key: Seq<u8>,
    recovery_key: Seq<u8>,
    delay: u32,
    amount: u64,
    fee: u32,
) -> Result<SpendInfoView, Error> {
    if !amount_sufficient(amount, fee) {
        Err(Error::PolicyCompilationError)
    } else {
        match (
            leaf_output(user_key, delayed_leaf(recovery_key, delay)),
            leaf_output(user_key, anchor_leaf(recovery_key)),
        ) {
            (Some(relock), Some(anchor)) => {
                let outputs = tx_out((amount - fee - DUST_AMOUNT) as u64, p2tr_script(relock.0)) + tx_out(
                    DUST_AMOUNT,
                    p2tr_script(anchor.0),
                );
                let script = recover_leaf(recovery_key, sha256_of(template_preimage(outputs)));
                let root = tap_leaf_hash_of(script);
                match tweaked_public_of(user_key, root) {
                    Some(q) => Ok(
                        SpendInfoView {
                            internal_key: user_key,
                            script,
                            merkle_root: root,
                            output_key: q.0,
                            output_key_odd: q.1,
                        },
                    ),
                    None => Err(Error::InvalidKey),
                }
            },
            _ => Err(Error::InvalidKey),
        }
    }
}

fn leaf_output_key(user_key: &[u8], leaf: &Vec<u8>) -> (r: Option<(Vec<u8>, bool)>)
    ensures
        opt_key_parity(r) == leaf_output(user_key@, leaf@),
        r matches Some(q) ==> q.0@.len() == 32,
{
    let root = tap_leaf_hash(leaf.as_slice());
    tweak_public(user_key, root.as_slice())
}

fn write_tx_out(out: &mut Vec<u8>, value: u64, script: &Vec<u8>)
    requires
        script@.len() < 253,
    ensures
        final(out)@ == old(out)@ + tx_out(value, script@),
{
    write_u64_le(out, value);
    out.push(script.len() as u8);
    append_bytes(out, script.as_slice());
    assert(final(out)@ =~= old(out)@ + tx_out(value, script@));
}

fn make_p2tr_script(output_key: &Vec<u8>) -> (r: Vec<u8>)
    ensures
        r@ == p2tr_script(output_key@),
{
    let mut s: Vec<u8> = vec![OP_1, OP_PUSHBYTES_32];
    append_bytes(&mut s, output_key.as_slice());
    assert(s@ =~= p2tr_script(output_key@));
    s
}

fn make_key_push(key: &[u8]) -> (r: Vec<u8>)
    ensures
        r@ == key_push(key@),
{
    let mut s: Vec<u8> = vec![OP_PUSHBYTES_32];
    append_bytes(&mut s, key);
    assert(s@ =~= key_push(key@));
    s
}

fn template_hash(outputs: &Vec<u8>) -> (r: Vec<u8>)
    ensures
        r@ == sha256_of(template_preimage(outputs@)),
{
    let mut pre: Vec<u8> = Vec::new();
    write_u32_le(&mut pre, 2);
    write_u32_le(&mut pre, 0);
    write_u32_le(&mut pre, 1);
    let mut seq_bytes: Vec<u8> = Vec::new();
    write_u32_le(&mut seq_bytes, 0xffff_ffff);
    let sequences = sha256(seq_bytes.as_slice());
    append_bytes(&mut pre, sequences.as_slice());
    write_u32_le(&mut pre, 2);
    let outputs_hash = sha256(outputs.as_slice());
    append_bytes(&mut pre, outputs_hash.as_slice());
    write_u32_le(&mut pre, 0);
    assert(pre@ =~= template_preimage(outputs@));
    sha256(pre.as_slice())
}

/// Compiles the two-step recovery policy for the owner's and recovery
/// x-only keys, the delay, the amount and the fee into the address's
/// commitment. Fails with `PolicyCompilationError` where the amount does
/// not leave a nonzero remainder after the fee and the anchor.
pub fn compile_two_step_recovery(
    user_key: &[u8],
    recovery_key: &[u8],
    delay: u32,
    amount: u64,
    fee: u32,
) -> (r: Result<SpendInfo, Error>)
    ensures
        match r {
            Ok(info) => compile_spec(user_key@, recovery_key@, delay, amount, fee) == Ok::<SpendInfoView, Error>(info@),
            Err(e) => compile_spec(user_key@, recovery_key@, delay, amount, fee) == Err::<SpendInfoView, Error>(e),
        },
{
    if amount <= fee as u64 + DUST_AMOUNT {
        return Err(Error::PolicyCompilationError);
    }
    let mut delayed = make_key_push(recovery_key);
    delayed.push(OP_CHECKSIGVERIFY);
    write_int_push(&mut delayed, delay);
    delayed.push(OP_CHECKSEQUENCEVERIFY);
    assert(delayed@ =~= delayed_leaf(recovery_key@, delay));
    let mut anchor = make_key_push(recovery_key);
    anchor.push(OP_CHECKSIG);
    assert(anchor@ =~= anchor_leaf(recovery_key@));
    let relock = match leaf_output_key(user_key, &delayed) {
        Some(q) => q,
        None => return Err(Error::InvalidKey),
    };
    let anchor_out = match leaf_output_key(user_key, &anchor) {
        Some(q) => q,
        None => return Err(Error::InvalidKey),
    };
    let relock_script = make_p2tr_script(&relock.0);
    let anchor_script = make_p2tr_script(&anchor_out.0);
    let mut outputs: Vec<u8> = Vec::new();
    write_tx_out(&mut outputs, amount - fee as u64 - DUST_AMOUNT, &relock_script);
    write_tx_out(&mut outputs, DUST_AMOUNT, &anchor_script);
    let template = template_hash(&outputs);
    let mut script = make_key_push(recovery_key);
    script.push(OP_CHECKSIGVERIFY);
    script.push(OP_PUSHBYTES_32);
    append_bytes(&mut script, template.as_slice());
    script.push(OP_CHECKTEMPLATEVERIFY);
    assert(script@ =~= recover_leaf(recovery_key@, template@));
    let root = tap_leaf_hash(script.as_slice());
    match tweak_public(user_key, root.as_slice()) {
        Some(q) => Ok(
            SpendInfo {
                internal_key: copy_bytes(user_key),
                script,
                merkle_root: root,
                output_key: q.0,
                output_key_odd: q.1,
            },
        ),
        None => Err(Error::InvalidKey),
    }
}

fn copy_bytes(b: &[u8]) -> (r: Vec<u8>)
    ensures
        r@ == b@,
{
    let mut r: Vec<u8> = Vec::new();
    append_bytes(&mut r, b);
    assert(r@ =~= b@);
    r
}

/// The secret key of the owner's key pair tweaked by an address's merkle root.
pub fn tweak_key_pair(secret: &[u8], merkle_root: &[u8]) -> (r: Result<Vec<u8>, Error>)
    ensures
        match r {
            Ok(k) => tweaked_secret_of(secret@, merkle_root@) == Some(k@) && k@.len() == 32,
            Err(e) => tweaked_secret_of(secret@, merkle_root@) is None && e == Error::InvalidKey,
        },
{
    match tweak_secret(secret, merkle_root) {
        Some(k) => Ok(k),
        None => Err(Error::InvalidKey),
    }
}

/// The owner's x-only key tweaked by an address's merkle root, and its parity.
pub fn tweak_public_key(key: &[u8], merkle_root: &[u8]) -> (r: Result<(Vec<u8>, bool), Error>)
    ensures
        match r {
            Ok(q) => tweaked_public_of(key@, merkle_root@) == Some((q.0@, q.1)) && q.0@.len() == 32,
            Err(e) => tweaked_public_of(key@, merkle_root@) is None && e == Error::InvalidKey,
        },
{
    match tweak_public(key, merkle_root) {
        Some(q) => Ok(q),
        None => Err(Error::InvalidKey),
    }
}

} // verus!
