//! The owner's wallet: per-address keys of both trees, the address's
//! commitment, its tweaked output key and address, and the tweaked key
//! pairs for export.
use vstd::prelude::*;
use crate::backup::{user_backup_wf, UserBackup};
use crate::codec::copy_range;
use crate::keys::{
    derive_private, derive_public_only, master_key, master_spec, private_child_spec, public_child_spec,
    public_key, public_spec, XKEY_LEN,
};
use crate::params::{Error, Network, RecoveryParams};
use crate::policy::{
    compile_spec, compile_two_step_recovery, tweak_key_pair, tweak_public_key, tweaked_public_of,
    tweaked_secret_of, SpendInfo, SpendInfoView,
};

verus! {

/// The encoding of a pay-to-taproot address for an output key on a network.
pub uninterp spec fn p2tr_address_of(output_key: Seq<u8>, network: Network) -> Option<Seq<char>>;

pub open spec fn opt_text(o: Option<String>) -> Option<Seq<char>> {
    match o {
        Some(s) => Some(s@),
        None => None,
    }
}

/// Relies on bitcoin's `Address::p2tr_tweaked` and its `Display`: the
/// bech32m address of a segwit v1 output key. The key is read by
/// `XOnlyPublicKey::from_slice`.
#[verifier::external_body]
fn p2tr_address(output_key: &[u8], network: Network) -> (r: Option<String>)
    ensures
        opt_text(r) == p2tr_address_of(output_key@, network),
{
    let net = match network {
        Network::Bitcoin => bitcoin::Network::Bitcoin,
        Network::Testnet => bitcoin::Network::Testnet,
        Network::Signet => bitcoin::Network::Signet,
        Network::Regtest => bitcoin::Network::Regtest,
    };
    match bitcoin::secp256k1::XOnlyPublicKey::from_slice(output_key) {
        Ok(k) => Some(bitcoin::Address::p2tr_tweaked(bitcoin::util::schnorr::TweakedPublicKey::dangerous_assume_tweaked(k), net).to_string()),
        Err(_) => None,
    }
}

/// The x-only key of a serialised extended public key: the x coordinate of
/// its compressed point.
pub open spec fn xonly_of(xpub: Seq<u8>) -> Seq<u8> {
    xpub.subrange(46, 78)
}

/// The secret scalar of a serialised extended private key.
pub open spec fn secret_of(xpriv: Seq<u8>) -> Seq<u8> {
    xpriv.subrange(46, 78)
}

pub struct UserWalletView {
    pub params: RecoveryParams,
    pub user_xpriv: Seq<u8>,
    pub user_xpub: Seq<u8>,
    pub recovery_xpub: Seq<u8>,
    pub network: Network,
}

/// The wallet that the owner's backup opens.
pub struct UserWallet {
    params: RecoveryParams,
    user_xpriv: Vec<u8>,
    user_xpub: Vec<u8>,
    recovery_xpub: Vec<u8>,
    network: Network,
}

impl View for UserWallet {
    type V = UserWalletView;

    closed spec fn view(&self) -> UserWalletView {
        UserWalletView {
            params: self.params,
            user_xpriv: self.user_xpriv@,
            user_xpub: self.user_xpub@,
            recovery_xpub: self.recovery_xpub@,
            network: self.network,
        }
    }
}

/// The wallet that a backup opens on a network.
pub open spec fn from_backup_spec(b: crate::backup::UserBackupView, network: Network) -> Result<
    UserWalletView,
    Error,
> {
    if !user_backup_wf(b) {
        Err(Error::MalformedBackup)
    } else {
        match master_spec(network, b.user_seed) {
            Err(e) => Err(e),
            Ok(xpriv) => match public_spec(xpriv) {
                Err(e) => Err(e),
                Ok(xpub) => Ok(
                    UserWalletView {
                        params: b.params,
                        user_xpriv: xpriv,
                        user_xpub: xpub,
                        recovery_xpub: b.recovery_xpub,
                        network,
                    },
                ),
            },
        }
    }
}

/// The public keys of both trees at an index.
pub open spec fn address_pks_spec(w: UserWalletView, index: u32) -> Result<(Seq<u8>, Seq<u8>), Error> {
    match public_child_spec(w.user_xpub, index) {
        Err(e) => Err(e),
        Ok(user) => match public_child_spec(w.recovery_xpub, index) {
            Err(e) => Err(e),
            Ok(recovery) => Ok((user, recovery)),
        },
    }
}

/// The commitment of the address at an index for an amount.
pub open spec fn tapinfo_spec(w: UserWalletView, index: u32, amount: u64) -> Result<SpendInfoView, Error> {
    match address_pks_spec(w, index) {
        Err(e) => Err(e),
        Ok(pks) => compile_spec(xonly_of(pks.0), xonly_of(pks.1), w.params.delay, amount, w.params.fee),
    }
}

/// The output key of the address at an index for an amount, and its parity.
pub open spec fn output_pubkey_spec(w: UserWalletView, index: u32, amount: u64) -> Result<(Seq<u8>, bool), Error> {
    match public_child_spec(w.user_xpub, index) {
        Err(e) => Err(e),
        Ok(user) => match tapinfo_spec(w, index, amount) {
            Err(e) => Err(e),
            Ok(info) => match tweaked_public_of(xonly_of(user), info.merkle_root) {
                Some(q) => Ok(q),
                None => Err(Error::InvalidKey),
            },
        },
    }
}

/// The secret key that spends the address at an index for an amount by
/// the key path.
pub open spec fn output_keypair_spec(w: UserWalletView, index: u32, amount: u64) -> Result<Seq<u8>, Error> {
    match private_child_spec(w.user_xpriv, index) {
        Err(e) => Err(e),
        Ok(user) => match tapinfo_spec(w, index, amount) {
            Err(e) => Err(e),
            Ok(info) => match tweaked_secret_of(secret_of(user), info.merkle_root) {
                Some(k) => Ok(k),
                None => Err(Error::InvalidKey),
            },
        },
    }
}

/// The address at an index for an amount.
pub open spec fn address_spec(w: UserWalletView, index: u32, amount: u64) -> Result<Seq<char>, Error> {
    match output_pubkey_spec(w, index, amount) {
        Err(e) => Err(e),
        Ok(q) => match p2tr_address_of(q.0, w.network) {
            Some(a) => Ok(a),
            None => Err(Error::InvalidKey),
        },
    }
}

/// The key pairs of an export, index by index, and within an index amount by amount.
pub open spec fn export_spec(w: UserWalletView, start: u32, amounts: Seq<u64>, k: int) -> Result<Seq<u8>, Error> {
    output_keypair_spec(w, (start + k / (amounts.len() as int)) as u32, amounts[k % (amounts.len() as int)])
}

impl UserWallet {
    pub closed spec fn wf(&self) -> bool {
        &&& self.user_xpub@.len() == XKEY_LEN
        &&& self.user_xpriv@.len() == XKEY_LEN
    }

    pub fn from_backup(backup: UserBackup, network: Network) -> (r: Result<UserWallet, Error>)
        ensures
            match r {
                Ok(w) => w.wf() && from_backup_spec(backup@, network) == Ok::<UserWalletView, Error>(w@),
                Err(e) => from_backup_spec(backup@, network) == Err::<UserWalletView, Error>(e),
            },
    {
        if backup.params.validate().is_err() || backup.user_seed.len() != 32 || backup.recovery_xpub.len()
            != XKEY_LEN {
            return Err(Error::MalformedBackup);
        }
        let user_xpriv = master_key(network, backup.user_seed.as_slice())?;
        let user_xpub = public_key(user_xpriv.as_slice())?;
        Ok(
            UserWallet {
                params: backup.params,
                user_xpriv,
                user_xpub,
                recovery_xpub: backup.recovery_xpub,
                network,
            },
        )
    }

    /// The public keys of the owner's and the recovery tree at an index.
    pub fn address_pks(&self, index: u32) -> (r: Result<(Vec<u8>, Vec<u8>), Error>)
        ensures
            match r {
                Ok(pks) => address_pks_spec(self@, index) == Ok::<(Seq<u8>, Seq<u8>), Error>((pks.0@, pks.1@))
                    && pks.0@.len() == XKEY_LEN && pks.1@.len() == XKEY_LEN,
                Err(e) => address_pks_spec(self@, index) == Err::<(Seq<u8>, Seq<u8>), Error>(e),
            },
    {
        let user = derive_public_only(self.user_xpub.as_slice(), index)?;
        let recovery = derive_public_only(self.recovery_xpub.as_slice(), index)?;
        Ok((user, recovery))
    }

    /// The commitment of the address at an index for an amount (in satoshis).
    pub fn tapinfo(&self, index: u32, amount: u64) -> (r: Result<SpendInfo, Error>)
        ensures
            match r {
                Ok(info) => tapinfo_spec(self@, index, amount) == Ok::<SpendInfoView, Error>(info@),
                Err(e) => tapinfo_spec(self@, index, amount) == Err::<SpendInfoView, Error>(e),
            },
    {
        let (user, recovery) = self.address_pks(index)?;
        let user_key = copy_range(user.as_slice(), 46, 78);
        let recovery_key = copy_range(recovery.as_slice(), 46, 78);
        compile_two_step_recovery(
            user_key.as_slice(),
            recovery_key.as_slice(),
            self.params.delay,
            amount,
            self.params.fee,
        )
    }

    /// The secret key that spends the address at an index for an amount by
    /// the key path: the owner's key there, tweaked by the commitment.
    pub fn tweaked_output_keypair(&self, index: u32, amount: u64) -> (r: Result<Vec<u8>, Error>)
        ensures
            match r {
                Ok(k) => output_keypair_spec(self@, index, amount) == Ok::<Seq<u8>, Error>(k@),
                Err(e) => output_keypair_spec(self@, index, amount) == Err::<Seq<u8>, Error>(e),
            },
    {
        let user = derive_private(self.user_xpriv.as_slice(), index)?;
        let info = self.tapinfo(index, amount)?;
        let secret = copy_range(user.as_slice(), 46, 78);
        tweak_key_pair(secret.as_slice(), info.merkle_root.as_slice())
    }

    /// The output key of the address at an index for an amount, and whether
    /// its y coordinate is odd.
    pub fn tweaked_output_pubkey(&self, index: u32, amount: u64) -> (r: Result<(Vec<u8>, bool), Error>)
        ensures
            match r {
                Ok(q) => output_pubkey_spec(self@, index, amount) == Ok::<(Seq<u8>, bool), Error>((q.0@, q.1)),
                Err(e) => output_pubkey_spec(self@, index, amount) == Err::<(Seq<u8>, bool), Error>(e),
            },
    {
        let user = derive_public_only(self.user_xpub.as_slice(), index)?;
        let info = self.tapinfo(index, amount)?;
        let key = copy_range(user.as_slice(), 46, 78);
        tweak_public_key(key.as_slice(), info.merkle_root.as_slice())
    }

    /// The address at an index for an amount.
    pub fn address(&self, index: u32, amount: u64) -> (r: Result<String, Error>)
        ensures
            match r {
                Ok(a) => address_spec(self@, index, amount) == Ok::<Seq<char>, Error>(a@),
                Err(e) => address_spec(self@, index, amount) == Err::<Seq<char>, Error>(e),
            },
    {
        let (key, _odd) = self.tweaked_output_pubkey(index, amount)?;
        match p2tr_address(key.as_slice(), self.network) {
            Some(a) => Ok(a),
            None => Err(Error::InvalidKey),
        }
    }

    /// The tweaked secret keys of every index from `start_index` to
    /// `end_index` inclusive, for each amount: index by index, and within an
    /// index in the order of the amounts.
    pub fn export_tweaked(&self, start_index: u32, end_index: u32, amounts: &[u64]) -> (r: Result<
        Vec<Vec<u8>>,
        Error,
    >)
        requires
            start_index <= end_index,
            (end_index - start_index + 1) * amounts@.len() <= usize::MAX,
        ensures
            match r {
                Ok(keys) => {
                    &&& keys@.len() == (end_index - start_index + 1) * amounts@.len()
                    &&& forall|k: int|
                        0 <= k < keys@.len() ==> export_spec(self@, start_index, amounts@, k) == Ok::<
                            Seq<u8>,
                            Error,
                        >((#[trigger] keys@[k])@)
                },
                Err(e) => exists|k: int|
                    0 <= k < (end_index - start_index + 1) * amounts@.len() && export_spec(
                        self@,
                        start_index,
                        amounts@,
                        k,
                    ) == Err::<Seq<u8>, Error>(e),
            },
    {
        let mut keys: Vec<Vec<u8>> = Vec::new();
        let n = amounts.len();
        let mut index: u32 = start_index;
        loop
            invariant
                start_index <= index <= end_index,
                n == amounts@.len(),
                (end_index - start_index + 1) * n <= usize::MAX,
                keys@.len() == (index - start_index) * n,
                forall|k: int|
                    0 <= k < keys@.len() ==> export_spec(self@, start_index, amounts@, k) == Ok::<
                        Seq<u8>,
                        Error,
                    >((#[trigger] keys@[k])@),
            decreases end_index - index,
        {
            let mut j: usize = 0;
            while j < n
                invariant
                    start_index <= index <= end_index,
                    n == amounts@.len(),
                    (end_index - start_index + 1) * n <= usize::MAX,
                    j <= n,
                    keys@.len() == (index - start_index) * n + j,
                    forall|k: int|
                        0 <= k < keys@.len() ==> export_spec(self@, start_index, amounts@, k) == Ok::<
                            Seq<u8>,
                            Error,
                        >((#[trigger] keys@[k])@),
                decreases n - j,
            {
                let ghost k = keys@.len() as int;
                proof {
                    assert(k / (n as int) == index - start_index && k % (n as int) == j) by (nonlinear_arith)
                        requires
                            k == (index - start_index) * n + j,
                            j < n,
                            index >= start_index,
                    ;
                    assert((index - start_index + 1) * n <= (end_index - start_index + 1) * n) by (nonlinear_arith)
                        requires
                            index <= end_index,
                    ;
                }
                match self.tweaked_output_keypair(index, amounts[j]) {
                    Ok(key) => {
                        keys.push(key);
                    },
                    Err(e) => {
                        proof {
                            assert(k < (index - start_index + 1) * n) by (nonlinear_arith)
                                requires
                                    k == (index - start_index) * n + j,
                                    j < n,
                            ;
                            assert(export_spec(self@, start_index, amounts@, k) == Err::<Seq<u8>, Error>(e));
                        }
                        return Err(e);
                    },
                }
                j = j + 1;
            }
            if index == end_index {
                proof {
                    assert(keys@.len() == (end_index - start_index + 1) * n) by (nonlinear_arith)
                        requires
                            keys@.len() == (index - start_index) * n + n,
                            index == end_index,
                    ;
                }
                return Ok(keys);
            }
            proof {
                assert((index + 1 - start_index) * n == (index - start_index) * n + n) by (nonlinear_arith);
            }
            index = index + 1;
        }
    }
}

/// The output key of an address is the output key of its commitment: the
/// public key that the address publishes is the one the commitment binds.
pub proof fn lemma_address_key_is_commitment_key(w: UserWalletView, index: u32, amount: u64)
    requires
        output_pubkey_spec(w, index, amount) is Ok,
    ensures
        tapinfo_spec(w, index, amount) matches Ok(info) && output_pubkey_spec(w, index, amount)
            == Ok::<(Seq<u8>, bool), Error>((info.output_key, info.output_key_odd)),
{
}

} // verus!
