use std::str::FromStr;
use social_recovery::backup::create_wallet;
use social_recovery::keys::{derive_key_pair, derive_public_only, master_key, public_key};
use social_recovery::params::{Error, Network, RecoveryParams};
use social_recovery::policy::{compile_two_step_recovery, write_int_push, DUST_AMOUNT};
use social_recovery::wallet::UserWallet;

const QUARTER_BTC: u64 = 25_000_000;
const ONE_BTC: u64 = 100_000_000;

fn params() -> RecoveryParams {
    RecoveryParams { total_shares: 7, needed_shares: 5, delay: 100, fee: 250 }
}

fn wallet(network: Network) -> UserWallet {
    let (user_backup, _) = create_wallet(params(), network).unwrap();
    UserWallet::from_backup(user_backup, network).unwrap()
}

fn xonly_of_secret(secret: &[u8]) -> Vec<u8> {
    let secp = bitcoin::secp256k1::Secp256k1::new();
    let pair = bitcoin::secp256k1::KeyPair::from_seckey_slice(&secp, secret).unwrap();
    bitcoin::secp256k1::XOnlyPublicKey::from_keypair(&pair).serialize().to_vec()
}

#[test]
fn test_wallet() {
    let wallet = wallet(Network::Signet);
    let tapinfo = wallet.tapinfo(0, QUARTER_BTC).unwrap();
    println!("address 0 tapinfo: {:?}", tapinfo);
    let keypair = wallet.tweaked_output_keypair(0, QUARTER_BTC).unwrap();
    println!("address 0 keypair: {:?}", keypair);
    let pubkey = wallet.tweaked_output_pubkey(0, QUARTER_BTC).unwrap();
    println!("address 0 pubkey: {:?}", pubkey);
    println!("address 0: {:?}", wallet.address(0, QUARTER_BTC).unwrap());
    let exported = wallet.export_tweaked(0, 3, &[QUARTER_BTC, ONE_BTC]).unwrap();
    println!("export 0-3 with 2 amounts: {} total keypairs", exported.len());
    assert_eq!(exported.len(), 8);
}

#[test]
fn wallet_test_wallet() {
    let wallet = wallet(Network::Signet);
    let tapinfo = wallet.tapinfo(0, QUARTER_BTC).unwrap();
    println!("address 0 tapinfo: {:?}", tapinfo);
    let keypair = wallet.tweaked_output_keypair(0, QUARTER_BTC).unwrap();
    println!("address 0 keypair: {:?}", keypair);
    let pubkey = wallet.tweaked_output_pubkey(0, QUARTER_BTC).unwrap();
    println!("address 0 pubkey: {:?}", pubkey);
    println!("address 0: {:?}", wallet.address(0, QUARTER_BTC).unwrap());
    let amounts = vec![QUARTER_BTC, ONE_BTC];
    let exported = wallet.export_tweaked(0, 4, &amounts).unwrap();
    println!("export 0-3 with 2 amounts: {} total keypairs", exported.len());
    assert_eq!(exported.len(), 10);
    assert_eq!(exported[3], wallet.tweaked_output_keypair(1, ONE_BTC).unwrap());
}

#[test]
fn end_to_end_scenario() {
    let (user_backup, recovery_backup) = create_wallet(params(), Network::Signet).unwrap();
    assert_ne!(user_backup.user_seed, recovery_backup.recovery_seed);
    let shares = recovery_backup.split_shares().unwrap();
    assert_eq!(shares.len(), 7);
    let chosen = vec![shares[6].clone(), shares[1].clone(), shares[3].clone(), shares[0].clone(), shares[4].clone()];
    let recovered = social_recovery::backup::RecoveryBackup::recover_from_shares(&chosen).unwrap();
    assert_eq!(recovered.recovery_seed, recovery_backup.recovery_seed);
    assert_eq!(recovered.user_xpub, recovery_backup.user_xpub);

    let wallet = UserWallet::from_backup(user_backup, Network::Signet).unwrap();
    let a0 = wallet.address(0, QUARTER_BTC).unwrap();
    assert_eq!(a0, wallet.address(0, QUARTER_BTC).unwrap());
    assert!(a0.starts_with("tb1p"));
    assert_ne!(a0, wallet.address(1, QUARTER_BTC).unwrap());
    assert_ne!(a0, wallet.address(0, ONE_BTC).unwrap());
}

#[test]
fn tweak_commutes_with_public_key() {
    let wallet = wallet(Network::Bitcoin);
    for index in 0..3u32 {
        for amount in [QUARTER_BTC, ONE_BTC] {
            let secret = wallet.tweaked_output_keypair(index, amount).unwrap();
            let (public, _) = wallet.tweaked_output_pubkey(index, amount).unwrap();
            assert_eq!(xonly_of_secret(&secret), public);
        }
    }
}

#[test]
fn output_key_matches_taproot_builder() {
    let wallet = wallet(Network::Bitcoin);
    let info = wallet.tapinfo(2, ONE_BTC).unwrap();
    let secp = bitcoin::secp256k1::Secp256k1::new();
    let internal = bitcoin::secp256k1::XOnlyPublicKey::from_slice(&info.internal_key).unwrap();
    let built = bitcoin::util::taproot::TaprootBuilder::new()
        .add_leaf(0, bitcoin::Script::from(info.script.clone()))
        .unwrap()
        .finalize(&secp, internal)
        .unwrap();
    assert_eq!(built.merkle_root().unwrap().to_vec(), info.merkle_root);
    assert_eq!(built.output_key().serialize().to_vec(), info.output_key);
    assert_eq!(built.output_key_parity() == bitcoin::secp256k1::Parity::Odd, info.output_key_odd);
    let (public, odd) = wallet.tweaked_output_pubkey(2, ONE_BTC).unwrap();
    assert_eq!(public, info.output_key);
    assert_eq!(odd, info.output_key_odd);
    let address = wallet.address(2, ONE_BTC).unwrap();
    assert!(address.starts_with("bc1p"));
    let expected = bitcoin::Address::p2tr_tweaked(built.output_key(), bitcoin::Network::Bitcoin);
    assert_eq!(address, expected.to_string());
}

#[test]
fn derivation_is_deterministic_and_public_only() {
    let seed = [7u8; 32];
    let a = derive_key_pair(Network::Bitcoin, &seed, 5).unwrap();
    let b = derive_key_pair(Network::Bitcoin, &seed, 5).unwrap();
    assert_eq!(a.public_key, b.public_key);
    assert_eq!(a.private_key, b.private_key);
    let root = public_key(&master_key(Network::Bitcoin, &seed).unwrap()).unwrap();
    assert_eq!(derive_public_only(&root, 5).unwrap(), a.public_key);
    assert_ne!(derive_key_pair(Network::Bitcoin, &seed, 6).unwrap().public_key, a.public_key);
    assert_eq!(a.public_key[4], 1);
    assert_eq!(&a.public_key[9..13], &[0, 0, 0, 5]);
}

#[test]
fn master_key_matches_bip32_vector() {
    let seed: Vec<u8> = (0u8..16).collect();
    let xpriv = master_key(Network::Bitcoin, &seed).unwrap();
    let expected = bitcoin::util::bip32::ExtendedPrivKey::from_str(
        "xprv9s21ZrQH143K3QTDL4LXw2F7HEK3wJUD2nW2nRk4stbPy6cq3jPPqjiChkVvvNKmPGJxWUtg6LnF5kejMRNNU3TGtRBeJgk33yuGBxrMPHi",
    )
    .unwrap();
    assert_eq!(xpriv, expected.encode().to_vec());
}

#[test]
fn hardened_indices_are_rejected() {
    let wallet = wallet(Network::Bitcoin);
    assert_eq!(wallet.address_pks(0x8000_0000).unwrap_err(), Error::InvalidIndex);
    assert_eq!(wallet.address(0x8000_0000, ONE_BTC).unwrap_err(), Error::InvalidIndex);
    assert!(wallet.address_pks(0x7fff_ffff).is_ok());
    let seed = [1u8; 32];
    assert_eq!(derive_key_pair(Network::Bitcoin, &seed, 0x8000_0000).unwrap_err(), Error::InvalidIndex);
}

#[test]
fn address_keys_differ_between_trees() {
    let wallet = wallet(Network::Regtest);
    let (user, recovery) = wallet.address_pks(3).unwrap();
    assert_eq!(user.len(), 78);
    assert_ne!(user, recovery);
}

#[test]
fn amount_must_cover_fee_and_anchor() {
    let wallet = wallet(Network::Testnet);
    let floor = 250 + DUST_AMOUNT;
    assert_eq!(wallet.tapinfo(0, floor).unwrap_err(), Error::PolicyCompilationError);
    assert!(wallet.tapinfo(0, floor + 1).is_ok());
    assert_eq!(wallet.address(0, 0).unwrap_err(), Error::PolicyCompilationError);
}

#[test]
fn recovery_leaf_layout() {
    let wallet = wallet(Network::Bitcoin);
    let (user, recovery) = wallet.address_pks(0).unwrap();
    let info = compile_two_step_recovery(&user[46..], &recovery[46..], 100, ONE_BTC, 250).unwrap();
    assert_eq!(info.script.len(), 1 + 32 + 1 + 1 + 32 + 1);
    assert_eq!(info.script[0], 0x20);
    assert_eq!(&info.script[1..33], &recovery[46..]);
    assert_eq!(info.script[33], 0xad);
    assert_eq!(info.script[34], 0x20);
    assert_eq!(info.script[67], 0xb3);
    assert_eq!(info.internal_key, user[46..].to_vec());
    assert_ne!(info.merkle_root, info.script);
    let other = compile_two_step_recovery(&user[46..], &recovery[46..], 101, ONE_BTC, 250).unwrap();
    assert_ne!(other.script, info.script);
}

#[test]
fn script_number_pushes() {
    let push = |n: u32| {
        let mut v = Vec::new();
        write_int_push(&mut v, n);
        v
    };
    assert_eq!(push(0), vec![0x00]);
    assert_eq!(push(1), vec![0x51]);
    assert_eq!(push(16), vec![0x60]);
    assert_eq!(push(17), vec![1, 17]);
    assert_eq!(push(100), vec![1, 100]);
    assert_eq!(push(128), vec![2, 0x80, 0]);
    assert_eq!(push(0x10000), vec![3, 0, 0, 1]);
    assert_eq!(push(0xffff_ffff), vec![5, 0xff, 0xff, 0xff, 0xff, 0]);
}

#[test]
fn from_backup_rejects_short_seed() {
    let (mut user_backup, _) = create_wallet(params(), Network::Bitcoin).unwrap();
    user_backup.user_seed.pop();
    assert_eq!(UserWallet::from_backup(user_backup, Network::Bitcoin).err(), Some(Error::MalformedBackup));
}
