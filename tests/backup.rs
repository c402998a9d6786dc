use social_recovery::backup::{create_wallet, RecoveryBackup, RecoveryShare, UserBackup};
use social_recovery::params::{Error, Network, RecoveryParams};
use social_recovery::splitter::{recover_secret, seal, split_secret, unseal};

fn params() -> RecoveryParams {
    RecoveryParams { total_shares: 7, needed_shares: 5, delay: 100, fee: 250 }
}

fn same_user(a: &UserBackup, b: &UserBackup) -> bool {
    a.params == b.params && a.user_seed == b.user_seed && a.recovery_xpub == b.recovery_xpub
}

fn same_recovery(a: &RecoveryBackup, b: &RecoveryBackup) -> bool {
    a.params == b.params && a.user_xpub == b.user_xpub && a.recovery_seed == b.recovery_seed
}

#[test]
fn test_create_backup() {
    let backup = create_wallet(params(), Network::Bitcoin).unwrap();
    println!("user backup: {:?}", backup.0);
    println!("user backup blob: {}", backup.0.as_hex());
    let roundtrip = UserBackup::from_hex(&backup.0.as_hex()).unwrap();
    println!("user backup roundtrip: {:?}", roundtrip);
    assert!(same_user(&roundtrip, &backup.0));

    println!("recovery backup: {:?}", backup.1);
    let mut shares = backup.1.split_shares().unwrap();
    println!(
        "recovery shares: {:?}",
        shares.iter().map(|s| s.as_blob()).collect::<Vec<_>>()
    );
    shares.remove(0);
    shares.remove(0);
    let recovered = RecoveryBackup::recover_from_shares(&shares).unwrap();
    println!("recovered from 5 shares: {:?}", recovered);
    assert!(same_recovery(&recovered, &backup.1));
}

#[test]
fn create_wallet_uses_independent_seeds() {
    let (user, recovery) = create_wallet(params(), Network::Signet).unwrap();
    assert_eq!(user.user_seed.len(), 32);
    assert_eq!(recovery.recovery_seed.len(), 32);
    assert_ne!(user.user_seed, recovery.recovery_seed);
    assert_eq!(user.recovery_xpub.len(), 78);
    assert_eq!(recovery.user_xpub.len(), 78);
    assert_eq!(user.params, params());
    assert_eq!(recovery.params, params());
}

#[test]
fn create_wallet_rejects_bad_threshold() {
    let zero = RecoveryParams { total_shares: 3, needed_shares: 0, delay: 100, fee: 250 };
    assert_eq!(create_wallet(zero, Network::Bitcoin).unwrap_err(), Error::InvalidThreshold);
    let above = RecoveryParams { total_shares: 3, needed_shares: 4, delay: 100, fee: 250 };
    assert_eq!(create_wallet(above, Network::Bitcoin).unwrap_err(), Error::InvalidThreshold);
    let all = RecoveryParams { total_shares: 255, needed_shares: 255, delay: 1, fee: 0 };
    assert!(create_wallet(all, Network::Bitcoin).is_ok());
}

#[test]
fn backup_layout_is_fixed() {
    let backup = UserBackup {
        params: RecoveryParams { total_shares: 7, needed_shares: 5, delay: 0x01020304, fee: 250 },
        user_seed: vec![0xaa; 32],
        recovery_xpub: vec![0xbb; 78],
    };
    let blob = backup.as_blob();
    assert_eq!(blob.len(), 120);
    assert_eq!(&blob[0..10], &[7, 5, 4, 3, 2, 1, 250, 0, 0, 0]);
    assert_eq!(&blob[10..42], &[0xaa; 32][..]);
    assert_eq!(&blob[42..120], &[0xbb; 78][..]);
    let back = UserBackup::from_blob(&blob).unwrap();
    assert!(same_user(&back, &backup));
    let hex = backup.as_hex();
    assert!(hex.starts_with("07050403020"));
    assert_eq!(hex.len(), 240);
}

#[test]
fn recovery_backup_round_trip() {
    let (_, recovery) = create_wallet(params(), Network::Testnet).unwrap();
    let back = RecoveryBackup::from_blob(&recovery.as_blob()).unwrap();
    assert!(same_recovery(&back, &recovery));
    let back = RecoveryBackup::from_hex(&recovery.as_hex()).unwrap();
    assert!(same_recovery(&back, &recovery));
    assert_eq!(&recovery.as_blob()[10..88], &recovery.user_xpub[..]);
}

#[test]
fn malformed_backups_are_rejected() {
    assert_eq!(UserBackup::from_blob(&[0u8; 119]).unwrap_err(), Error::MalformedBackup);
    assert_eq!(RecoveryBackup::from_blob(&[0u8; 121]).unwrap_err(), Error::MalformedBackup);
    let mut blob = vec![0u8; 120];
    blob[0] = 3;
    blob[1] = 4;
    assert_eq!(UserBackup::from_blob(&blob).unwrap_err(), Error::MalformedBackup);
    blob[1] = 3;
    assert!(UserBackup::from_blob(&blob).is_ok());
    assert_eq!(UserBackup::from_hex("0g").unwrap_err(), Error::MalformedBackup);
    assert_eq!(UserBackup::from_hex("abc").unwrap_err(), Error::MalformedBackup);
    assert_eq!(RecoveryShare::from_blob(&[1]).unwrap_err(), Error::MalformedBackup);
}

#[test]
fn share_round_trip() {
    let share = RecoveryShare::from_blob(&[3, 9, 8, 7]).unwrap();
    assert_eq!(share.as_blob(), vec![3, 9, 8, 7]);
    assert_eq!(share.index(), 3);
}

#[test]
fn split_shares_have_indices_and_length() {
    let (_, recovery) = create_wallet(params(), Network::Bitcoin).unwrap();
    let shares = recovery.split_shares().unwrap();
    assert_eq!(shares.len(), 7);
    for (i, s) in shares.iter().enumerate() {
        assert_eq!(s.index() as usize, i + 1);
        assert_eq!(s.as_blob().len(), 120 + 32 + 1);
    }
}

#[test]
fn split_rejects_bad_threshold() {
    assert_eq!(split_secret(b"abc", 0, 3).unwrap_err(), Error::InvalidThreshold);
    assert_eq!(split_secret(b"abc", 4, 3).unwrap_err(), Error::InvalidThreshold);
    let mut recovery = create_wallet(params(), Network::Bitcoin).unwrap().1;
    recovery.params.needed_shares = 8;
    assert_eq!(recovery.split_shares().unwrap_err(), Error::InvalidThreshold);
}

fn subsets(n: usize, k: usize) -> Vec<Vec<usize>> {
    let mut out = Vec::new();
    for mask in 0u32..(1 << n) {
        if mask.count_ones() as usize == k {
            out.push((0..n).filter(|i| mask & (1 << i) != 0).collect());
        }
    }
    out
}

#[test]
fn any_threshold_subset_recovers() {
    let secret = b"the recovery backup".to_vec();
    let shares = split_secret(&secret, 3, 5).unwrap();
    for subset in subsets(5, 3).into_iter().chain(subsets(5, 4)).chain(subsets(5, 5)) {
        let chosen: Vec<RecoveryShare> = subset.iter().rev().map(|&i| shares[i].clone()).collect();
        assert_eq!(recover_secret(&chosen).unwrap(), secret);
    }
}

#[test]
fn one_of_one_and_empty_secret() {
    let shares = split_secret(&[], 1, 1).unwrap();
    assert_eq!(recover_secret(&shares).unwrap(), Vec::<u8>::new());
    let shares = split_secret(&[42], 1, 3).unwrap();
    assert_eq!(recover_secret(&shares[2..]).unwrap(), vec![42]);
}

#[test]
fn sub_threshold_fails() {
    let (_, recovery) = create_wallet(params(), Network::Bitcoin).unwrap();
    let shares = recovery.split_shares().unwrap();
    for subset in subsets(7, 4) {
        let chosen: Vec<RecoveryShare> = subset.iter().map(|&i| shares[i].clone()).collect();
        assert_eq!(
            RecoveryBackup::recover_from_shares(&chosen).unwrap_err(),
            Error::ReconstructionFailed
        );
    }
    assert_eq!(recover_secret(&[]).unwrap_err(), Error::ReconstructionFailed);
}

#[test]
fn tampered_share_is_detected() {
    let (_, recovery) = create_wallet(params(), Network::Bitcoin).unwrap();
    let shares = recovery.split_shares().unwrap();
    let len = shares[0].as_blob().len();
    for pos in 0..len {
        let mut chosen: Vec<RecoveryShare> = shares[..5].to_vec();
        let mut bytes = chosen[2].as_blob();
        bytes[pos] ^= 0x01;
        chosen[2] = RecoveryShare::from_blob(&bytes).unwrap();
        assert_eq!(
            RecoveryBackup::recover_from_shares(&chosen).unwrap_err(),
            Error::ReconstructionFailed
        );
    }
}

#[test]
fn mismatched_share_lengths_fail() {
    let shares = split_secret(b"abcd", 2, 3).unwrap();
    let short = RecoveryShare::from_blob(&shares[1].as_blob()[..5]).unwrap();
    assert_eq!(
        recover_secret(&[shares[0].clone(), short]).unwrap_err(),
        Error::ReconstructionFailed
    );
}

#[test]
fn seal_appends_sha256() {
    let sealed = seal(b"");
    assert_eq!(sealed.len(), 32);
    assert_eq!(sealed[0..4], [0xe3, 0xb0, 0xc4, 0x42]);
    assert_eq!(unseal(&sealed).unwrap(), Vec::<u8>::new());
    let mut broken = seal(b"abc");
    assert_eq!(&broken[0..3], b"abc");
    assert_eq!(broken[3..7], [0xba, 0x78, 0x16, 0xbf]);
    broken[0] ^= 1;
    assert_eq!(unseal(&broken).unwrap_err(), Error::ReconstructionFailed);
    assert_eq!(unseal(&[0u8; 31]).unwrap_err(), Error::ReconstructionFailed);
}

#[test]
fn wallet_from_given_seeds_holds_them() {
    let user_seed = [1u8; 32];
    let recovery_seed = [2u8; 32];
    let (user, recovery) =
        social_recovery::backup::create_wallet_from_seeds(params(), Network::Bitcoin, &user_seed, &recovery_seed).unwrap();
    assert_eq!(user.user_seed, user_seed.to_vec());
    assert_eq!(recovery.recovery_seed, recovery_seed.to_vec());
    let user_root = social_recovery::keys::public_key(
        &social_recovery::keys::master_key(Network::Bitcoin, &user_seed).unwrap(),
    )
    .unwrap();
    let recovery_root = social_recovery::keys::public_key(
        &social_recovery::keys::master_key(Network::Bitcoin, &recovery_seed).unwrap(),
    )
    .unwrap();
    assert_eq!(recovery.user_xpub, user_root);
    assert_eq!(user.recovery_xpub, recovery_root);
    let again =
        social_recovery::backup::create_wallet_from_seeds(params(), Network::Bitcoin, &user_seed, &recovery_seed).unwrap();
    assert!(same_user(&again.0, &user) && same_recovery(&again.1, &recovery));
}

#[test]
fn wallet_from_seeds_rejects_bad_input() {
    let bad = RecoveryParams { total_shares: 2, needed_shares: 3, delay: 1, fee: 0 };
    assert_eq!(
        social_recovery::backup::create_wallet_from_seeds(bad, Network::Bitcoin, &[1; 32], &[2; 32]).unwrap_err(),
        Error::InvalidThreshold
    );
    assert_eq!(
        social_recovery::backup::create_wallet_from_seeds(params(), Network::Bitcoin, &[1; 31], &[2; 32]).unwrap_err(),
        Error::MalformedBackup
    );
}

#[test]
fn share_hex_round_trip() {
    let shares = split_secret(b"xyz", 2, 3).unwrap();
    for s in &shares {
        let hex = s.as_hex();
        assert_eq!(hex.len(), 2 * (3 + 32 + 1));
        let back = RecoveryShare::from_hex(&hex).unwrap();
        assert_eq!(back.as_blob(), s.as_blob());
        assert_eq!(back.clone().as_blob(), s.as_blob());
    }
    assert_eq!(RecoveryShare::from_hex("01").unwrap_err(), Error::MalformedBackup);
    assert_eq!(RecoveryShare::from_hex("0102zz").unwrap_err(), Error::MalformedBackup);
    assert_eq!(RecoveryShare::from_hex("0a0b").unwrap().as_hex(), "0a0b");
}

#[test]
fn share_order_is_irrelevant() {
    let (_, recovery) = create_wallet(params(), Network::Bitcoin).unwrap();
    let shares = recovery.split_shares().unwrap();
    let forward: Vec<RecoveryShare> = shares[1..6].to_vec();
    let backward: Vec<RecoveryShare> = shares[1..6].iter().rev().cloned().collect();
    let a = RecoveryBackup::recover_from_shares(&forward).unwrap();
    let b = RecoveryBackup::recover_from_shares(&backward).unwrap();
    assert!(same_recovery(&a, &b) && same_recovery(&a, &recovery));
    let more = RecoveryBackup::recover_from_shares(&shares).unwrap();
    assert!(same_recovery(&more, &recovery));
}
