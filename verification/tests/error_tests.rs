use markchain::error::MarkChainError;

#[test]
fn io_errors_convert() {
    let e = MarkChainError::from(std::io::Error::new(std::io::ErrorKind::Other, "boom"));
    assert!(matches!(e, MarkChainError::Io(_)));
}

#[test]
fn serde_json_errors_convert() {
    let err = serde_json::from_slice::<u8>(b"x").unwrap_err();
    assert!(matches!(MarkChainError::from(err), MarkChainError::SerdeJson(_)));
}

#[test]
fn multiaddr_errors_convert() {
    let err = "not an address".parse::<libp2p::Multiaddr>().unwrap_err();
    assert!(matches!(MarkChainError::from(err), MarkChainError::Multiaddr(_)));
}

#[test]
fn decoding_errors_convert() {
    let err = libp2p::identity::ed25519::SecretKey::try_from_bytes(vec![0u8; 3]).unwrap_err();
    assert!(matches!(MarkChainError::from(err), MarkChainError::WalletDecoding(_)));
}

#[test]
fn bincode_errors_convert() {
    let err: bincode::Error = Box::new(bincode::ErrorKind::SizeLimit);
    assert!(matches!(MarkChainError::from(err), MarkChainError::Bincode(_)));
}

#[test]
fn io_error_text_names_the_variant() {
    let e = MarkChainError::from(std::io::Error::new(std::io::ErrorKind::Other, "boom"));
    assert_eq!(e.to_string(), "Io: boom ");
}

#[test]
fn serde_json_error_text_names_the_variant() {
    let err = serde_json::from_slice::<u8>(b"x").unwrap_err();
    let shown = format!("SerdeJson: {}", err);
    assert_eq!(MarkChainError::from(err).to_string(), shown);
}

#[test]
fn wallet_decoding_error_text_names_the_variant() {
    let mut bytes = vec![0u8; 3];
    let e = markchain::wallet::Wallet::from_secret_bytes(&mut bytes).err().unwrap();
    let text = e.to_string();
    assert!(text.starts_with("WalletDecoding: "));
    assert!(text.len() > "WalletDecoding: ".len());
}
