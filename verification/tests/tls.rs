use moq_rs::tls::{configure_identity, load_or_generate_certificate, make_server_config};

#[test]
fn stored_identity_is_kept() {
    let cert = vec![1u8, 2, 3];
    let key = vec![4u8, 5];
    let (c, k, generated) = load_or_generate_certificate(Some((cert.clone(), key.clone()))).unwrap();
    assert_eq!(c, cert);
    assert_eq!(k, key);
    assert!(!generated);
}

#[test]
fn missing_identity_is_generated() {
    let (cert, key, generated) = load_or_generate_certificate(None).unwrap();
    assert!(generated);
    assert!(!cert.is_empty());
    assert!(!key.is_empty());
}

#[test]
fn garbage_stored_identity_gives_no_config() {
    let result = make_server_config(Some((vec![0u8; 4], vec![0u8; 4])));
    assert_eq!(result.err(), Some("failed to create server config"));
}

#[test]
fn generated_identity_is_served_and_written() {
    let (_config, to_write) = make_server_config(None).unwrap();
    let (cert, key) = to_write.unwrap();
    assert!(!cert.is_empty());
    assert!(!key.is_empty());
    // The written pair serves again, as a stored identity.
    let (_config, to_write) = make_server_config(Some((cert, key))).unwrap();
    assert!(to_write.is_none());
}

#[test]
fn configure_identity_hands_back_exactly_the_generated_pair() {
    let (cert, key, _) = load_or_generate_certificate(None).unwrap();
    let (_config, to_write) = configure_identity(cert.clone(), key.clone(), true).unwrap();
    assert_eq!(to_write, Some((cert.clone(), key.clone())));
    let (_config, to_write) = configure_identity(cert.clone(), key.clone(), false).unwrap();
    assert_eq!(to_write, None);
    // Certificate and key swapped are refused.
    assert_eq!(
        configure_identity(key, cert, true).err(),
        Some("failed to create server config")
    );
}

#[test]
fn mismatched_key_is_refused() {
    let (cert, _, _) = load_or_generate_certificate(None).unwrap();
    let (_, other_key, _) = load_or_generate_certificate(None).unwrap();
    assert_eq!(
        make_server_config(Some((cert, other_key))).err(),
        Some("failed to create server config")
    );
}
