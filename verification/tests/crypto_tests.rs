use obn_core::crypto::{
    bytes_equal, content_hash, hash_for_signing, random_bytes, sha256, sign_with_keypair, verify_with_public_key, CryptoError,
    IdentityKeypair, IdentityPublicKey,
};

#[test]
fn test_random_bytes() {
    let bytes = random_bytes(32).unwrap();
    assert_eq!(bytes.len(), 32);
    let bytes2 = random_bytes(32).unwrap();
    assert_ne!(bytes, bytes2);
}

#[test]
fn test_sha256() {
    let data = b"hello, world";
    let hash = sha256(data);
    assert_eq!(hash.len(), 32);
    let hash2 = sha256(b"hello, world!");
    assert_ne!(hash, hash2);
}

#[test]
fn test_sha256_known_digest() {
    // SHA-256 of the empty input.
    let hash = sha256(b"");
    assert_eq!(hash[0], 0xe3);
    assert_eq!(hash[1], 0xb0);
    assert_eq!(hash[31], 0x55);
}

#[test]
fn test_hash_for_signing() {
    let hash = hash_for_signing(b"test data");
    assert_eq!(hash.len(), 32);
    let hash2 = hash_for_signing(b"different data");
    assert_ne!(hash, hash2);
}

#[test]
fn test_content_hash_is_prefix_of_blake3() {
    let full = hash_for_signing(b"abc");
    let short = content_hash(b"abc");
    assert_eq!(short.len(), 16);
    assert_eq!(&full[..16], &short[..]);
    assert_ne!(short, b"abc".to_vec());
}

#[test]
fn test_bytes_equal() {
    assert!(bytes_equal(b"abc", b"abc"));
    assert!(!bytes_equal(b"abc", b"abd"));
    assert!(!bytes_equal(b"ab", b"abc"));
}

#[test]
fn test_crypto_error_text() {
    let e = CryptoError::from("bad");
    assert_eq!(e.to_string(), "Crypto error: bad");
    let e2 = CryptoError::from(String::from("worse"));
    assert_eq!(e2.to_string(), "Crypto error: worse");
}

#[test]
fn test_sign_and_verify_with_keypair() {
    let raw = libp2p::identity::Keypair::generate_ed25519();
    let pubkey = IdentityPublicKey::from_public_key(raw.public());
    let keypair = IdentityKeypair::from_keypair(raw);
    let data = b"hello, signed world";

    let signature = sign_with_keypair(&keypair, data).unwrap();
    assert!(!signature.is_empty());

    let valid = verify_with_public_key(&pubkey, data, &signature).unwrap();
    assert!(valid);

    // Tampered data should fail
    let invalid = verify_with_public_key(&pubkey, b"tampered", &signature).unwrap();
    assert!(!invalid);
}

#[test]
fn test_signature_is_over_the_hash() {
    let raw = libp2p::identity::Keypair::generate_ed25519();
    let public = raw.public();
    let keypair = IdentityKeypair::from_keypair(raw.clone());
    let signature = sign_with_keypair(&keypair, b"payload").unwrap();
    // The key signs the BLAKE3 hash, not the data itself.
    assert!(public.verify(&hash_for_signing(b"payload"), &signature));
    assert!(!public.verify(b"payload", &signature));
    // The encodings held are those of the keys taken in.
    assert_eq!(keypair.encoding_bytes(), raw.to_protobuf_encoding().unwrap().as_slice());
    let pubkey = IdentityPublicKey::from_public_key(public.clone());
    assert_eq!(pubkey.encoding_bytes(), public.encode_protobuf().as_slice());
}

#[test]
fn test_random_bytes_empty() {
    assert_eq!(random_bytes(0).unwrap(), Vec::<u8>::new());
}
