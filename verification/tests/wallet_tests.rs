use markchain::error::MarkChainError;
use libp2p::identity::ed25519;
use markchain::wallet::{Keypair, SecretKey, Wallet};

#[test]
fn secret_bytes_are_32_long_and_reload() {
    let w = Wallet::new();
    let mut bytes = w.secret_bytes();
    assert_eq!(bytes.len(), 32);
    let copy = bytes.clone();
    let reloaded = Wallet::from_secret_bytes(&mut bytes).unwrap();
    assert_eq!(bytes, vec![0u8; 32]);
    assert_eq!(reloaded.secret_bytes(), copy);
    assert_eq!(reloaded.address(), w.address());
}

#[test]
fn wrong_length_secret_is_rejected() {
    let mut bytes = vec![1u8; 31];
    match Wallet::from_secret_bytes(&mut bytes) {
        Err(MarkChainError::WalletDecoding(_)) => {}
        _ => panic!("expected a decoding error"),
    }
    assert_eq!(bytes, vec![1u8; 31]);
}

#[test]
fn fresh_wallets_differ() {
    assert_ne!(Wallet::new().secret_bytes(), Wallet::new().secret_bytes());
}

#[test]
fn wallets_from_keys_share_the_address() {
    let kp = Keypair::generate();
    let a = Wallet::from(Keypair::from(kp.secret()));
    let b = Wallet::from(kp.secret());
    assert_eq!(a.address(), b.address());
    assert_eq!(a.address(), kp.public());
}

#[test]
fn address_is_the_ed25519_public_key_of_the_secret() {
    let secret: Vec<u8> = (1u8..33).collect();
    let mut bytes = secret.clone();
    let w = Wallet::from_secret_bytes(&mut bytes).unwrap();
    let key = ed25519::SecretKey::try_from_bytes(secret.clone()).unwrap();
    let expected = ed25519::Keypair::from(key).public().to_bytes().to_vec();
    assert_eq!(w.address().as_bytes(), expected.as_slice());
    assert_eq!(w.address().as_bytes().len(), 32);
    assert_ne!(w.address().as_bytes(), secret.as_slice());
}

#[test]
fn loaded_wallet_keeps_the_stored_secret() {
    let mut bytes: Vec<u8> = (0u8..32).collect();
    let w = Wallet::from_secret_bytes(&mut bytes).unwrap();
    assert_eq!(w.secret_bytes(), (0u8..32).collect::<Vec<u8>>());
    let mut again = w.secret_bytes();
    let w2 = Wallet::from_secret_bytes(&mut again).unwrap();
    assert_eq!(w2.secret_bytes(), w.secret_bytes());
    assert_eq!(w2.address(), w.address());
}

#[test]
fn wallet_from_keypair_holds_its_secret() {
    let kp = Keypair::generate();
    let secret = kp.secret().to_bytes();
    let w = Wallet::from(kp);
    assert_eq!(w.secret_bytes(), secret);
}

#[test]
fn secret_key_from_bytes_zeroes_the_input() {
    let mut bytes = vec![7u8; 32];
    let key = SecretKey::try_from_bytes(&mut bytes).unwrap();
    assert_eq!(bytes, vec![0u8; 32]);
    assert_eq!(key.to_bytes(), vec![7u8; 32]);
    let mut short = vec![7u8; 33];
    assert!(matches!(
        SecretKey::try_from_bytes(&mut short),
        Err(MarkChainError::WalletDecoding(_))
    ));
    assert_eq!(short, vec![7u8; 33]);
}
