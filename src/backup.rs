//! The two backups a wallet is created with, their fixed binary layout and
//! hexadecimal transport form, and the split of the recovery backup into
//! shares.
//!
//! Layout of both backups (120 bytes): total shares (1), needed shares (1),
//! delay (4, little-endian), fee (4, little-endian), then for the owner's
//! backup the owner seed (32) and the recovery root public key (78), and for
//! the recovery backup the owner root public key (78) and the recovery seed
//! (32).
use vstd::prelude::*;
use crate::codec::{
    append_bytes, copy_range, from_hex, hex_text, lemma_u32_le_round_trip, parse_hex, read_u32_le,
    to_hex, u32_from_le, u32_le, write_u32_le,
};
use crate::keys::{master_key, master_spec, public_key, public_spec, XKEY_LEN};
use crate::params::{params_valid, Error, Network};
pub use crate::params::RecoveryParams;
use crate::splitter::{
    distinct_indices, drawn_from, recover_secret, recover_spec, share_list, split_secret, DIGEST_LEN,
};

pub use crate::splitter::RecoveryShare;

verus! {

pub const SEED_LEN: usize = 32;

pub const PARAMS_LEN: usize = 10;

pub const BACKUP_LEN: usize = 120;

/// The backup held by the owner: immediate, unconditional control of the funds.
#[derive(Debug, Clone)]
pub struct UserBackup {
    pub params: RecoveryParams,
    pub user_seed: Vec<u8>,
    /// The root extended public key of the recovery tree.
    pub recovery_xpub: Vec<u8>,
}

/// Everything recovery needs; it is split into shares.
#[derive(Debug, Clone)]
pub struct RecoveryBackup {
    pub params: RecoveryParams,
    /// The root extended public key of the owner's tree.
    pub user_xpub: Vec<u8>,
    pub recovery_seed: Vec<u8>,
}

pub struct UserBackupView {
    pub params: RecoveryParams,
    pub user_seed: Seq<u8>,
    pub recovery_xpub: Seq<u8>,
}

pub struct RecoveryBackupView {
    pub params: RecoveryParams,
    pub user_xpub: Seq<u8>,
    pub recovery_seed: Seq<u8>,
}

impl View for UserBackup {
    type V = UserBackupView;

    open spec fn view(&self) -> UserBackupView {
        UserBackupView { params: self.params, user_seed: self.user_seed@, recovery_xpub: self.recovery_xpub@ }
    }
}

impl View for RecoveryBackup {
    type V = RecoveryBackupView;

    open spec fn view(&self) -> RecoveryBackupView {
        RecoveryBackupView { params: self.params, user_xpub: self.user_xpub@, recovery_seed: self.recovery_seed@ }
    }
}

pub open spec fn user_backup_wf(b: UserBackupView) -> bool {
    &&& params_valid(b.params)
    &&& b.user_seed.len() == SEED_LEN
    &&& b.recovery_xpub.len() == XKEY_LEN
}

pub open spec fn recovery_backup_wf(b: RecoveryBackupView) -> bool {
    &&& params_valid(b.params)
    &&& b.user_xpub.len() == XKEY_LEN
    &&& b.recovery_seed.len() == SEED_LEN
}

pub open spec fn params_bytes(p: RecoveryParams) -> Seq<u8> {
    seq![p.total_shares, p.needed_shares] + u32_le(p.delay) + u32_le(p.fee)
}

pub open spec fn parse_params(b: Seq<u8>) -> RecoveryParams {
    RecoveryParams {
        total_shares: b[0],
        needed_shares: b[1],
        delay: u32_from_le(b.subrange(2, 6)),
        fee: u32_from_le(b.subrange(6, 10)),
    }
}

pub open spec fn user_backup_bytes(b: UserBackupView) -> Seq<u8> {
    params_bytes(b.params) + b.user_seed + b.recovery_xpub
}

pub open spec fn recovery_backup_bytes(b: RecoveryBackupView) -> Seq<u8> {
    params_bytes(b.params) + b.user_xpub + b.recovery_seed
}

/// The owner's backup that bytes hold, if they have its layout and a valid threshold.
pub open spec fn parse_user_backup(s: Seq<u8>) -> Option<UserBackupView> {
    if s.len() == BACKUP_LEN && params_valid(parse_params(s)) {
        Some(
            UserBackupView {
                params: parse_params(s),
                user_seed: s.subrange(10, 42),
                recovery_xpub: s.subrange(42, 120),
            },
        )
    } else {
        None
    }
}

/// The recovery backup that bytes hold, if they have its layout and a valid threshold.
pub open spec fn parse_recovery_backup(s: Seq<u8>) -> Option<RecoveryBackupView> {
    if s.len() == BACKUP_LEN && params_valid(parse_params(s)) {
        Some(
            RecoveryBackupView {
                params: parse_params(s),
                user_xpub: s.subrange(10, 88),
                recovery_seed: s.subrange(88, 120),
            },
        )
    } else {
        None
    }
}

proof fn lemma_params_round_trip(p: RecoveryParams, rest: Seq<u8>)
    ensures
        parse_params(params_bytes(p) + rest) == p,
{
    let s = params_bytes(p) + rest;
    lemma_u32_le_round_trip(p.delay);
    lemma_u32_le_round_trip(p.fee);
    assert(s.subrange(2, 6) =~= u32_le(p.delay));
    assert(s.subrange(6, 10) =~= u32_le(p.fee));
}

/// Decoding the encoding of a well-formed owner backup gives it back, field for field.
pub proof fn lemma_user_backup_round_trip(b: UserBackupView)
    requires
        user_backup_wf(b),
    ensures
        parse_user_backup(user_backup_bytes(b)) == Some(b),
{
    let s = user_backup_bytes(b);
    lemma_params_round_trip(b.params, b.user_seed + b.recovery_xpub);
    assert(s =~= params_bytes(b.params) + (b.user_seed + b.recovery_xpub));
    assert(s.subrange(10, 42) =~= b.user_seed);
    assert(s.subrange(42, 120) =~= b.recovery_xpub);
}

/// Decoding the encoding of a well-formed recovery backup gives it back, field for field.
pub proof fn lemma_recovery_backup_round_trip(b: RecoveryBackupView)
    requires
        recovery_backup_wf(b),
    ensures
        parse_recovery_backup(recovery_backup_bytes(b)) == Some(b),
{
    let s = recovery_backup_bytes(b);
    lemma_params_round_trip(b.params, b.user_xpub + b.recovery_seed);
    assert(s =~= params_bytes(b.params) + (b.user_xpub + b.recovery_seed));
    assert(s.subrange(10, 88) =~= b.user_xpub);
    assert(s.subrange(88, 120) =~= b.recovery_seed);
}

fn write_params(out: &mut Vec<u8>, p: RecoveryParams)
    ensures
        final(out)@ == old(out)@ + params_bytes(p),
{
    out.push(p.total_shares);
    out.push(p.needed_shares);
    write_u32_le(out, p.delay);
    write_u32_le(out, p.fee);
    assert(final(out)@ =~= old(out)@ + params_bytes(p));
}

fn read_params(b: &[u8]) -> (r: RecoveryParams)
    requires
        b@.len() >= PARAMS_LEN,
    ensures
        r == parse_params(b@),
{
    RecoveryParams {
        total_shares: b[0],
        needed_shares: b[1],
        delay: read_u32_le(b, 2),
        fee: read_u32_le(b, 6),
    }
}

impl UserBackup {
    pub fn as_blob(&self) -> (r: Vec<u8>)
        ensures
            r@ == user_backup_bytes(self@),
    {
        let mut out: Vec<u8> = Vec::new();
        write_params(&mut out, self.params);
        append_bytes(&mut out, self.user_seed.as_slice());
        append_bytes(&mut out, self.recovery_xpub.as_slice());
        assert(out@ =~= user_backup_bytes(self@));
        out
    }

    pub fn as_hex(&self) -> (r: String)
        ensures
            r@ == hex_text(user_backup_bytes(self@)),
    {
        to_hex(self.as_blob().as_slice())
    }

    pub fn from_blob(blob: &[u8]) -> (r: Result<UserBackup, Error>)
        ensures
            match r {
                Ok(b) => parse_user_backup(blob@) == Some(b@),
                Err(e) => parse_user_backup(blob@) is None && e == Error::MalformedBackup,
            },
    {
        if blob.len() != BACKUP_LEN {
            return Err(Error::MalformedBackup);
        }
        let params = read_params(blob);
        if params.validate().is_err() {
            return Err(Error::MalformedBackup);
        }
        let user_seed = copy_range(blob, 10, 42);
        let recovery_xpub = copy_range(blob, 42, 120);
        Ok(UserBackup { params, user_seed, recovery_xpub })
    }

    pub fn from_hex(s: &str) -> (r: Result<UserBackup, Error>)
        ensures
            match r {
                Ok(b) => parse_hex(s@) matches Some(bytes) && parse_user_backup(bytes) == Some(b@),
                Err(e) => e == Error::MalformedBackup && match parse_hex(s@) {
                    Some(bytes) => parse_user_backup(bytes) is None,
                    None => true,
                },
            },
    {
        match from_hex(s) {
            Some(bytes) => UserBackup::from_blob(bytes.as_slice()),
            None => Err(Error::MalformedBackup),
        }
    }
}

impl RecoveryBackup {
    pub fn as_blob(&self) -> (r: Vec<u8>)
        ensures
            r@ == recovery_backup_bytes(self@),
    {
        let mut out: Vec<u8> = Vec::new();
        write_params(&mut out, self.params);
        append_bytes(&mut out, self.user_xpub.as_slice());
        append_bytes(&mut out, self.recovery_seed.as_slice());
        assert(out@ =~= recovery_backup_bytes(self@));
        out
    }

    pub fn as_hex(&self) -> (r: String)
        ensures
            r@ == hex_text(recovery_backup_bytes(self@)),
    {
        to_hex(self.as_blob().as_slice())
    }

    pub fn from_blob(blob: &[u8]) -> (r: Result<RecoveryBackup, Error>)
        ensures
            match r {
                Ok(b) => parse_recovery_backup(blob@) == Some(b@),
                Err(e) => parse_recovery_backup(blob@) is None && e == Error::MalformedBackup,
            },
    {
        if blob.len() != BACKUP_LEN {
            return Err(Error::MalformedBackup);
        }
        let params = read_params(blob);
        if params.validate().is_err() {
            return Err(Error::MalformedBackup);
        }
        let user_xpub = copy_range(blob, 10, 88);
        let recovery_seed = copy_range(blob, 88, 120);
        Ok(RecoveryBackup { params, user_xpub, recovery_seed })
    }

    pub fn from_hex(s: &str) -> (r: Result<RecoveryBackup, Error>)
        ensures
            match r {
                Ok(b) => parse_hex(s@) matches Some(bytes) && parse_recovery_backup(bytes) == Some(b@),
                Err(e) => e == Error::MalformedBackup && match parse_hex(s@) {
                    Some(bytes) => parse_recovery_backup(bytes) is None,
                    None => true,
                },
            },
    {
        match from_hex(s) {
            Some(bytes) => RecoveryBackup::from_blob(bytes.as_slice()),
            None => Err(Error::MalformedBackup),
        }
    }

    /// Splits the backup's encoding into `total_shares` shares, any
    /// `needed_shares` of which reconstruct it.
    pub fn split_shares(&self) -> (r: Result<Vec<RecoveryShare>, Error>)
        ensures
            r is Err <==> !params_valid(self.params),
            r is Err ==> r->Err_0 == Error::InvalidThreshold,
            r matches Ok(shares) ==> {
                &&& shares@.len() == self.params.total_shares
                &&& forall|i: int|
                    0 <= i < shares@.len() ==> (#[trigger] shares@[i])@.len()
                        == recovery_backup_bytes(self@).len() + DIGEST_LEN + 1 && shares@[i]@[0] == i + 1
                &&& forall|s: Seq<Seq<u8>>|
                    #![trigger recover_spec(s)]
                    s.len() >= self.params.needed_shares && drawn_from(s, share_list(shares@)) && distinct_indices(s)
                        ==> recover_spec(s) == Some(recovery_backup_bytes(self@))
                &&& recovery_backup_wf(self@) ==> parse_recovery_backup(recovery_backup_bytes(self@)) == Some(self@)
            },
    {
        let blob = self.as_blob();
        proof {
            if recovery_backup_wf(self@) {
                lemma_recovery_backup_round_trip(self@);
            }
        }
        split_secret(blob.as_slice(), self.params.needed_shares, self.params.total_shares)
    }

    /// Reconstructs the backup from shares. Fails with `ReconstructionFailed`
    /// where the shares do not reconstruct a sealed secret, or where that
    /// secret is not a recovery backup.
    pub fn recover_from_shares(shares: &[RecoveryShare]) -> (r: Result<RecoveryBackup, Error>)
        ensures
            match r {
                Ok(b) => recover_spec(share_list(shares@)) matches Some(bytes)
                    && parse_recovery_backup(bytes) == Some(b@),
                Err(e) => e == Error::ReconstructionFailed && match recover_spec(share_list(shares@)) {
                    Some(bytes) => parse_recovery_backup(bytes) is None,
                    None => true,
                },
            },
            forall|p: Seq<Seq<u8>>|
                #![trigger recover_spec(p)]
                p.to_multiset() == share_list(shares@).to_multiset() ==> recover_spec(p) == recover_spec(
                    share_list(shares@),
                ),
    {
        let blob = recover_secret(shares)?;
        match RecoveryBackup::from_blob(blob.as_slice()) {
            Ok(b) => Ok(b),
            Err(_) => Err(Error::ReconstructionFailed),
        }
    }
}

/// Relies on `rand::thread_rng`, a cryptographically secure generator seeded
/// from the operating system: 32 fresh random bytes.
#[verifier::external_body]
fn random_seed() -> (r: Vec<u8>)
    ensures
        r@.len() == SEED_LEN,
{
    rand::Rng::gen::<[u8; 32]>(&mut rand::thread_rng()).to_vec()
}

/// The root extended public key of the tree that a seed is the root of.
pub open spec fn root_xpub_spec(network: Network, seed: Seq<u8>) -> Result<Seq<u8>, Error> {
    match master_spec(network, seed) {
        Ok(xpriv) => public_spec(xpriv),
        Err(e) => Err(e),
    }
}

fn root_xpub(network: Network, seed: &[u8]) -> (r: Result<Vec<u8>, Error>)
    ensures
        match r {
            Ok(k) => root_xpub_spec(network, seed@) == Ok::<Seq<u8>, Error>(k@) && k@.len() == XKEY_LEN,
            Err(e) => root_xpub_spec(network, seed@) == Err::<Seq<u8>, Error>(e),
        },
{
    let xpriv = master_key(network, seed)?;
    public_key(xpriv.as_slice())
}

/// The backups of a wallet whose two seeds are given.
pub open spec fn wallet_from_seeds_spec(
    params: RecoveryParams,
    network: Network,
    user_seed: Seq<u8>,
    recovery_seed: Seq<u8>,
) -> Result<(UserBackupView, RecoveryBackupView), Error> {
    if !params_valid(params) {
        Err(Error::InvalidThreshold)
    } else if user_seed.len() != SEED_LEN || recovery_seed.len() != SEED_LEN {
        Err(Error::MalformedBackup)
    } else {
        match root_xpub_spec(network, recovery_seed) {
            Err(e) => Err(e),
            Ok(recovery_xpub) => match root_xpub_spec(network, user_seed) {
                Err(e) => Err(e),
                Ok(user_xpub) => Ok(
                    (
                        UserBackupView { params, user_seed, recovery_xpub },
                        RecoveryBackupView { params, user_xpub, recovery_seed },
                    ),
                ),
            },
        }
    }
}

/// Builds the two backups of a wallet from its two seeds: each backup holds
/// its own seed and the other tree's root public key.
pub fn create_wallet_from_seeds(
    params: RecoveryParams,
    network: Network,
    user_seed: &[u8],
    recovery_seed: &[u8],
) -> (r: Result<(UserBackup, RecoveryBackup), Error>)
    ensures
        match r {
            Ok((user, recovery)) => wallet_from_seeds_spec(params, network, user_seed@, recovery_seed@) == Ok::<
                (UserBackupView, RecoveryBackupView),
                Error,
            >((user@, recovery@)) && user_backup_wf(user@) && recovery_backup_wf(recovery@),
            Err(e) => wallet_from_seeds_spec(params, network, user_seed@, recovery_seed@) == Err::<
                (UserBackupView, RecoveryBackupView),
                Error,
            >(e),
        },
{
    params.validate()?;
    if user_seed.len() != SEED_LEN || recovery_seed.len() != SEED_LEN {
        return Err(Error::MalformedBackup);
    }
    let recovery_xpub = root_xpub(network, recovery_seed)?;
    let user_xpub = root_xpub(network, user_seed)?;
    let user = UserBackup { params, user_seed: copy_range(user_seed, 0, user_seed.len()), recovery_xpub };
    let recovery = RecoveryBackup {
        params,
        user_xpub,
        recovery_seed: copy_range(recovery_seed, 0, recovery_seed.len()),
    };
    assert(user@.user_seed =~= user_seed@);
    assert(recovery@.recovery_seed =~= recovery_seed@);
    Ok((user, recovery))
}

/// Creates a wallet: two fresh, independent random seeds, the owner's and
/// the recovery tree's, each backup holding its own seed and the other
/// tree's root public key.
pub fn create_wallet(params: RecoveryParams, network: Network) -> (r: Result<
    (UserBackup, RecoveryBackup),
    Error,
>)
    ensures
        !params_valid(params) ==> r == Err::<(UserBackup, RecoveryBackup), Error>(Error::InvalidThreshold),
        r matches Err(e) ==> (e == Error::InvalidThreshold <==> !params_valid(params)),
        r matches Err(e) ==> e == Error::InvalidThreshold || e == Error::InvalidKey,
        r matches Ok((user, recovery)) ==> {
            &&& user.params == params
            &&& recovery.params == params
            &&& user_backup_wf(user@)
            &&& recovery_backup_wf(recovery@)
            &&& wallet_from_seeds_spec(params, network, user.user_seed@, recovery.recovery_seed@) == Ok::<
                (UserBackupView, RecoveryBackupView),
                Error,
            >((user@, recovery@))
        },
{
    params.validate()?;
    let user_seed = random_seed();
    let recovery_seed = random_seed();
    create_wallet_from_seeds(params, network, user_seed.as_slice(), recovery_seed.as_slice())
}

} // verus!
