//! The wallet's configuration, the networks it may be bound to, and the
//! errors that its operations report.
use vstd::prelude::*;

verus! {

/// The recovery parameters, kept by the owner and by every trustee.
#[derive(Debug, Clone, Copy, PartialEq, Eq, Structural)]
pub struct RecoveryParams {
    /// How many shares the recovery backup is split into (N).
    pub total_shares: u8,
    /// How many shares are needed to reconstruct it (K).
    pub needed_shares: u8,
    /// The relative time lock of the delayed spending path.
    pub delay: u32,
    /// The fee budget of the recovery transaction, in satoshis.
    pub fee: u32,
}

/// The network that keys and addresses are bound to.
#[derive(Debug, Clone, Copy, PartialEq, Eq, Structural)]
pub enum Network {
    Bitcoin,
    Testnet,
    Signet,
    Regtest,
}

#[derive(Debug, Clone, Copy, PartialEq, Eq, Structural)]
pub enum Error {
    /// The share threshold is zero or exceeds the number of shares.
    InvalidThreshold,
    /// The shares are too few, inconsistent, or interpolate to bytes that
    /// fail the integrity check.
    ReconstructionFailed,
    /// Bytes or text that do not have the layout of a backup or share.
    MalformedBackup,
    /// A derivation index outside `[0, 2^31)`.
    InvalidIndex,
    /// The amount does not cover the fee, the anchor output and a nonzero remainder.
    PolicyCompilationError,
    /// A key could not be derived or tweaked: the curve arithmetic left the
    /// valid range (an event of negligible probability).
    InvalidKey,
}

/// A threshold of at least one share and at most all of them.
pub open spec fn params_valid(p: RecoveryParams) -> bool {
    1 <= p.needed_shares <= p.total_shares
}

impl RecoveryParams {
    pub fn validate(&self) -> (r: Result<(), Error>)
        ensures
            r is Ok <==> params_valid(*self),
            r is Err ==> r == Err::<(), Error>(Error::InvalidThreshold),
    {
        if self.needed_shares == 0 || self.needed_shares > self.total_shares {
            Err(Error::InvalidThreshold)
        } else {
            Ok(())
        }
    }
}

/// The bytes held by an optional vector.
pub open spec fn opt_bytes(o: Option<Vec<u8>>) -> Option<Seq<u8>> {
    match o {
        Some(v) => Some(v@),
        None => None,
    }
}

} // verus!
