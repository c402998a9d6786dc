//! Threshold secret sharing of byte strings (Shamir's scheme over GF(256)),
//! with an integrity seal: the secret is dealt together with its SHA-256
//! digest, and a reconstruction is accepted only where the digest matches.
use vstd::prelude::*;
use crate::codec::{append_bytes, copy_range, from_hex, hex_text, parse_hex, to_hex};
use crate::params::Error;

verus! {

/// The length of the integrity digest.
pub const DIGEST_LEN: usize = 32;

/// The SHA-256 digest of a byte string.
pub uninterp spec fn sha256_of(b: Seq<u8>) -> Seq<u8>;

/// What Lagrange interpolation at zero gives for a set of shares, each a
/// field index followed by one value per secret byte.
pub uninterp spec fn interpolated_of(shares: Seq<Seq<u8>>) -> Seq<u8>;

/// Relies on `bitcoin::hashes::sha256::Hash::hash`: the SHA-256 digest, 32 bytes.
#[verifier::external_body]
pub(crate) fn sha256(b: &[u8]) -> (r: Vec<u8>)
    ensures
        r@ == sha256_of(b@),
        r@.len() == DIGEST_LEN,
{
    <bitcoin::hashes::sha256::Hash as bitcoin::hashes::Hash>::hash(b).to_vec()
}

/// Relies on `sharks::Sharks::dealer` (random polynomials of degree `k - 1`
/// over GF(256), one per byte, whose constant terms are the secret's bytes,
/// evaluated at x = 1, 2, ...) and on `Vec<u8>: From<&Share>`, which writes
/// a share as its x coordinate followed by its values. Interpolating any
/// `k` or more of these points with distinct x gives the constant terms.
#[verifier::external_body]
fn deal(k: u8, n: u8, secret: &[u8]) -> (r: Vec<Vec<u8>>)
    ensures
        r@.len() == n,
        forall|i: int|
            0 <= i < n ==> (#[trigger] r@[i])@.len() == secret@.len() + 1 && r@[i]@[0] == i + 1,
        forall|s: Seq<Seq<u8>>|
            #![trigger interpolated_of(s)]
            s.len() >= k && s.len() >= 1 && drawn_from(s, share_views(r@)) && distinct_indices(s)
                ==> interpolated_of(s) == secret@,
{
    sharks::Sharks(k).dealer(secret).take(n as usize).map(|s| Vec::from(&s)).collect()
}

/// Relies on `sharks::Sharks::recover` with no threshold of its own and on
/// `Share::try_from`, which reads a share back from its bytes. With at least
/// one share, all of one length of at least two bytes, it interpolates one
/// byte for each value of a share. The interpolation is a sum over the
/// shares of products over the other shares, in GF(256), so the order of
/// the shares does not matter.
#[verifier::external_body]
fn interpolate(shares: &Vec<Vec<u8>>) -> (r: Vec<u8>)
    requires
        shares_consistent(share_views(shares@)),
    ensures
        r@ == interpolated_of(share_views(shares@)),
        r@.len() == shares@[0]@.len() - 1,
        forall|p: Seq<Seq<u8>>|
            #![trigger interpolated_of(p)]
            p.to_multiset() == share_views(shares@).to_multiset() ==> interpolated_of(p) == r@,
{
    let parsed: Result<Vec<sharks::Share>, &str> =
        shares.iter().map(|s| sharks::Share::try_from(s.as_slice())).collect();
    match parsed {
        Ok(parsed) => match sharks::Sharks(0).recover(&parsed) {
            Ok(secret) => secret,
            Err(_) => Vec::new(),
        },
        Err(_) => Vec::new(),
    }
}

pub open spec fn share_views(shares: Seq<Vec<u8>>) -> Seq<Seq<u8>> {
    shares.map_values(|s: Vec<u8>| s@)
}

/// Every share of `s` is one of `all`.
pub open spec fn drawn_from(s: Seq<Seq<u8>>, all: Seq<Seq<u8>>) -> bool {
    forall|i: int| 0 <= i < s.len() ==> all.contains(#[trigger] s[i])
}

/// No two shares of `s` carry the same field index.
pub open spec fn distinct_indices(s: Seq<Seq<u8>>) -> bool {
    forall|i: int, j: int| 0 <= i < s.len() && 0 <= j < s.len() && i != j ==> s[i][0] != s[j][0]
}

/// At least one share, all of one length, each with an index and a value.
pub open spec fn shares_consistent(shares: Seq<Seq<u8>>) -> bool {
    &&& shares.len() >= 1
    &&& shares[0].len() >= 2
    &&& forall|i: int| 0 <= i < shares.len() ==> (#[trigger] shares[i]).len() == shares[0].len()
}

/// A secret followed by its digest.
pub open spec fn sealed(secret: Seq<u8>) -> Seq<u8> {
    secret + sha256_of(secret)
}

/// The secret of a sealed byte string whose digest matches.
pub open spec fn unsealed(blob: Seq<u8>) -> Option<Seq<u8>> {
    if blob.len() >= DIGEST_LEN && sha256_of(blob.subrange(0, blob.len() - DIGEST_LEN))
        == blob.subrange(blob.len() - DIGEST_LEN, blob.len() as int) {
        Some(blob.subrange(0, blob.len() - DIGEST_LEN))
    } else {
        None
    }
}

/// What a set of shares reconstructs: the interpolated secret, where the
/// shares are consistent and its digest matches.
pub open spec fn recover_spec(shares: Seq<Seq<u8>>) -> Option<Seq<u8>> {
    if shares_consistent(shares) {
        unsealed(interpolated_of(shares))
    } else {
        None
    }
}

/// Sealing a secret and opening the result gives the secret back.
pub proof fn lemma_unseal_sealed(secret: Seq<u8>)
    requires
        sha256_of(secret).len() == DIGEST_LEN,
    ensures
        unsealed(sealed(secret)) == Some(secret),
{
    let b = sealed(secret);
    assert(b.subrange(0, b.len() - DIGEST_LEN) =~= secret);
    assert(b.subrange(b.len() - DIGEST_LEN, b.len() as int) =~= sha256_of(secret));
}

/// Shares that interpolate to a sealed secret reconstruct exactly that
/// secret.
pub proof fn lemma_recover_sealed(shares: Seq<Seq<u8>>, secret: Seq<u8>)
    requires
        shares_consistent(shares),
        interpolated_of(shares) == sealed(secret),
        sha256_of(secret).len() == DIGEST_LEN,
    ensures
        recover_spec(shares) == Some(secret),
{
    lemma_unseal_sealed(secret);
}

/// The secret followed by its SHA-256 digest.
pub fn seal(secret: &[u8]) -> (r: Vec<u8>)
    ensures
        r@ == sealed(secret@),
        r@.len() == secret@.len() + DIGEST_LEN,
{
    let digest = sha256(secret);
    let mut out: Vec<u8> = Vec::new();
    append_bytes(&mut out, secret);
    append_bytes(&mut out, digest.as_slice());
    assert(out@ =~= sealed(secret@));
    out
}

/// Checks the digest at the end of an interpolated byte string and returns
/// the secret before it.
pub fn unseal(blob: &[u8]) -> (r: Result<Vec<u8>, Error>)
    ensures
        match r {
            Ok(s) => unsealed(blob@) == Some(s@),
            Err(e) => unsealed(blob@) is None && e == Error::ReconstructionFailed,
        },
{
    if blob.len() < DIGEST_LEN {
        return Err(Error::ReconstructionFailed);
    }
    let n = blob.len();
    let cut = n - DIGEST_LEN;
    let secret = copy_range(blob, 0, cut);
    let digest = sha256(secret.as_slice());
    let mut i: usize = 0;
    while i < DIGEST_LEN
        invariant
            n == blob@.len(),
            n >= DIGEST_LEN,
            cut == n - DIGEST_LEN,
            secret@ == blob@.subrange(0, cut as int),
            digest@ == sha256_of(secret@),
            digest@.len() == DIGEST_LEN,
            i <= DIGEST_LEN,
            forall|j: int| 0 <= j < i ==> digest@[j] == blob@[cut + j],
        decreases DIGEST_LEN - i,
    {
        if digest[i] != blob[cut + i] {
            assert(digest@[i as int] != blob@.subrange(cut as int, blob@.len() as int)[i as int]);
            return Err(Error::ReconstructionFailed);
        }
        i = i + 1;
    }
    assert(digest@ =~= blob@.subrange(cut as int, blob@.len() as int));
    Ok(secret)
}

/// A share of a secret: its field index followed by one value per byte of
/// the sealed secret.
#[derive(Debug)]
pub struct RecoveryShare {
    bytes: Vec<u8>,
}

impl View for RecoveryShare {
    type V = Seq<u8>;

    closed spec fn view(&self) -> Seq<u8> {
        self.bytes@
    }
}

impl Clone for RecoveryShare {
    fn clone(&self) -> (r: RecoveryShare)
        ensures
            r@ == self@,
    {
        proof {
            use_type_invariant(self);
        }
        RecoveryShare { bytes: copy_range(self.bytes.as_slice(), 0, self.bytes.len()) }
    }
}

/// The shares that a byte string may hold: an index and at least one value.
pub open spec fn parse_share(b: Seq<u8>) -> Option<Seq<u8>> {
    if b.len() >= 2 {
        Some(b)
    } else {
        None
    }
}

impl RecoveryShare {
    /// A share holds its index and at least one value.
    #[verifier::type_invariant]
    spec fn inv(&self) -> bool {
        self.bytes@.len() >= 2
    }

    /// The share's bytes: its index, then its values. They read back as the
    /// same share.
    pub fn as_blob(&self) -> (r: Vec<u8>)
        ensures
            r@ == self@,
            parse_share(r@) == Some(self@),
    {
        proof {
            use_type_invariant(self);
        }
        copy_range(self.bytes.as_slice(), 0, self.bytes.len())
    }

    pub fn from_blob(blob: &[u8]) -> (r: Result<RecoveryShare, Error>)
        ensures
            match r {
                Ok(s) => parse_share(blob@) == Some(s@),
                Err(e) => parse_share(blob@) is None && e == Error::MalformedBackup,
            },
    {
        if blob.len() < 2 {
            Err(Error::MalformedBackup)
        } else {
            let bytes = copy_range(blob, 0, blob.len());
            assert(bytes@ =~= blob@);
            Ok(RecoveryShare { bytes })
        }
    }

    /// The share's bytes as hexadecimal text.
    pub fn as_hex(&self) -> (r: String)
        ensures
            r@ == hex_text(self@),
    {
        to_hex(self.as_blob().as_slice())
    }

    pub fn from_hex(s: &str) -> (r: Result<RecoveryShare, Error>)
        ensures
            match r {
                Ok(share) => parse_hex(s@) matches Some(bytes) && parse_share(bytes) == Some(share@),
                Err(e) => e == Error::MalformedBackup && match parse_hex(s@) {
                    Some(bytes) => parse_share(bytes) is None,
                    None => true,
                },
            },
    {
        match from_hex(s) {
            Some(bytes) => RecoveryShare::from_blob(bytes.as_slice()),
            None => Err(Error::MalformedBackup),
        }
    }

    /// The field index that the share was evaluated at.
    pub fn index(&self) -> (r: u8)
        ensures
            r == self@[0],
    {
        proof {
            use_type_invariant(self);
        }
        self.bytes[0]
    }
}

/// A share's encoding reads back as the same share.
pub proof fn lemma_share_round_trip(share: Seq<u8>)
    requires
        share.len() >= 2,
    ensures
        parse_share(share) == Some(share),
{
}

proof fn lemma_dealt_consistent(s: Seq<Seq<u8>>, all: Seq<Seq<u8>>, len: nat)
    requires
        s.len() >= 1,
        len >= 2,
        drawn_from(s, all),
        forall|j: int| 0 <= j < all.len() ==> (#[trigger] all[j]).len() == len,
    ensures
        shares_consistent(s),
{
    assert forall|i: int| 0 <= i < s.len() implies (#[trigger] s[i]).len() == len by {
        assert(all.contains(s[i]));
        let j = choose|j: int| 0 <= j < all.len() && all[j] == s[i];
        assert(all[j].len() == len);
    }
}

/// Splits a secret into `n` shares, any `k` of which reconstruct it.
pub fn split_secret(secret: &[u8], k: u8, n: u8) -> (r: Result<Vec<RecoveryShare>, Error>)
    ensures
        r is Err <==> (k == 0 || k > n),
        r is Err ==> r->Err_0 == Error::InvalidThreshold,
        r matches Ok(shares) ==> {
            &&& shares@.len() == n
            &&& forall|i: int|
                0 <= i < n ==> (#[trigger] shares@[i])@.len() == secret@.len() + DIGEST_LEN + 1
                    && shares@[i]@[0] == i + 1
            &&& forall|s: Seq<Seq<u8>>|
                #![trigger recover_spec(s)]
                s.len() >= k && drawn_from(s, share_list(shares@)) && distinct_indices(s) ==> recover_spec(s)
                    == Some(secret@)
        },
{
    if k == 0 || k > n {
        return Err(Error::InvalidThreshold);
    }
    let blob = seal(secret);
    let dealt = deal(k, n, blob.as_slice());
    let mut shares: Vec<RecoveryShare> = Vec::new();
    let mut i: usize = 0;
    while i < dealt.len()
        invariant
            dealt@.len() == n,
            blob@.len() == secret@.len() + DIGEST_LEN,
            forall|j: int|
                0 <= j < n ==> (#[trigger] dealt@[j])@.len() == blob@.len() + 1 && dealt@[j]@[0] == j + 1,
            i <= dealt@.len(),
            shares@.len() == i,
            forall|j: int| 0 <= j < i ==> (#[trigger] shares@[j])@ == dealt@[j]@,
        decreases dealt@.len() - i,
    {
        let bytes = copy_range(dealt[i].as_slice(), 0, dealt[i].len());
        assert(bytes@ =~= dealt@[i as int]@);
        shares.push(RecoveryShare { bytes });
        i = i + 1;
    }
    proof {
        let views = share_views(dealt@);
        assert(share_list(shares@) =~= views);
        assert(sha256_of(secret@) =~= blob@.subrange(secret@.len() as int, blob@.len() as int));
        assert forall|s: Seq<Seq<u8>>|
            s.len() >= k && drawn_from(s, share_list(shares@)) && distinct_indices(s) implies #[trigger] recover_spec(s)
                == Some(secret@) by {
            assert forall|j: int| 0 <= j < views.len() implies (#[trigger] views[j]).len() == blob@.len() + 1 by {
                assert(views[j] == dealt@[j]@);
            }
            lemma_dealt_consistent(s, views, (blob@.len() + 1) as nat);
            assert(interpolated_of(s) == blob@);
            lemma_recover_sealed(s, secret@);
        }
    }
    Ok(shares)
}

/// Two lists of the same shares, in any order, are both consistent or both not.
proof fn lemma_consistent_perm(s: Seq<Seq<u8>>, p: Seq<Seq<u8>>)
    requires
        shares_consistent(s),
        p.to_multiset() == s.to_multiset(),
    ensures
        shares_consistent(p),
{
    broadcast use vstd::seq_lib::group_to_multiset_ensures;

    vstd::seq_lib::to_multiset_len(p);
    vstd::seq_lib::to_multiset_len(s);
    assert(p.len() == s.len());
    assert forall|i: int| 0 <= i < p.len() implies (#[trigger] p[i]).len() == s[0].len() by {
        assert(p.contains(p[i]));
        assert(p.to_multiset().count(p[i]) > 0);
        assert(s.to_multiset().count(p[i]) > 0);
        assert(s.contains(p[i]));
        let j = choose|j: int| 0 <= j < s.len() && s[j] == p[i];
        assert(s[j].len() == s[0].len());
    }
}

fn check_consistent(raw: &Vec<Vec<u8>>) -> (r: bool)
    ensures
        r == shares_consistent(share_views(raw@)),
{
    if raw.len() == 0 || raw[0].len() < 2 {
        return false;
    }
    let len0 = raw[0].len();
    let mut j: usize = 0;
    while j < raw.len()
        invariant
            raw@.len() >= 1,
            len0 == raw@[0]@.len(),
            len0 >= 2,
            j <= raw@.len(),
            forall|m: int| 0 <= m < j ==> (#[trigger] raw@[m])@.len() == len0,
        decreases raw@.len() - j,
    {
        if raw[j].len() != len0 {
            assert(share_views(raw@)[j as int].len() != len0);
            assert(share_views(raw@)[0].len() == len0);
            return false;
        }
        j = j + 1;
    }
    assert forall|m: int| 0 <= m < raw@.len() implies (#[trigger] share_views(raw@)[m]).len()
        == share_views(raw@)[0].len() by {
        assert(raw@[m]@.len() == len0);
    }
    true
}

/// Reconstructs a secret from shares. Fails with `ReconstructionFailed`
/// where the shares are inconsistent or interpolate to bytes whose digest
/// does not match, as fewer than the threshold of shares, or a tampered
/// share, give with overwhelming probability. The order of the shares does
/// not matter.
pub fn recover_secret(shares: &[RecoveryShare]) -> (r: Result<Vec<u8>, Error>)
    ensures
        match r {
            Ok(s) => recover_spec(share_list(shares@)) == Some(s@),
            Err(e) => recover_spec(share_list(shares@)) is None && e == Error::ReconstructionFailed,
        },
        forall|p: Seq<Seq<u8>>|
            #![trigger recover_spec(p)]
            p.to_multiset() == share_list(shares@).to_multiset() ==> recover_spec(p) == recover_spec(
                share_list(shares@),
            ),
{
    let mut raw: Vec<Vec<u8>> = Vec::new();
    let mut i: usize = 0;
    while i < shares.len()
        invariant
            i <= shares@.len(),
            raw@.len() == i,
            forall|j: int| 0 <= j < i ==> (#[trigger] raw@[j])@ == shares@[j]@,
        decreases shares@.len() - i,
    {
        raw.push(shares[i].as_blob());
        i = i + 1;
    }
    let ghost list = share_list(shares@);
    assert(share_views(raw@) =~= list);
    proof {
        assert forall|p: Seq<Seq<u8>>| p.to_multiset() == list.to_multiset() implies shares_consistent(p)
            == shares_consistent(list) by {
            if shares_consistent(p) {
                lemma_consistent_perm(p, list);
            }
            if shares_consistent(list) {
                lemma_consistent_perm(list, p);
            }
        }
    }
    if !check_consistent(&raw) {
        return Err(Error::ReconstructionFailed);
    }
    let blob = interpolate(&raw);
    unseal(blob.as_slice())
}

/// The bytes of each share in a list.
pub open spec fn share_list(shares: Seq<RecoveryShare>) -> Seq<Seq<u8>> {
    shares.map_values(|s: RecoveryShare| s@)
}

} // verus!
