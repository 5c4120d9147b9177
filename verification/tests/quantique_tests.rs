use nyx_daemon::quantique::{
    decapsulate, encapsulate, establish_shared, get_public_keys, get_shared, hash, hash_hex,
    keygen, sign, verify, verify_integrity, OrganKeys, KEM_CIPHERTEXT_BYTES,
    KEM_PUBLIC_KEY_BYTES, KEM_SECRET_KEY_BYTES, SHARED_SECRET_BYTES, SIG_PUBLIC_KEY_BYTES,
    SIG_SECRET_KEY_BYTES,
};

#[test]
fn test_hash() {
    let h = hash(b"flow");
    assert_eq!(h.len(), 32);
}

#[test]
fn test_keygen_and_sign() {
    let mut keys = OrganKeys::new();
    keygen(&mut keys);
    let msg = b"test message";
    let sig = sign(&keys, msg).unwrap();
    let (_, sig_pk) = get_public_keys(&keys).unwrap();
    assert!(verify(msg, &sig, &sig_pk));
}

#[test]
fn hash_hex_of_empty_input() {
    // the SHA3-256 digest of the empty string, in lowercase hex
    assert_eq!(
        hash_hex(b""),
        "a7ffc6f8bf1ed76651c14756a061d662f580ff4de43b49fa82d80a4b80f8434a"
    );
}

#[test]
fn keygen_produces_sized_keys() {
    let mut keys = OrganKeys::new();
    let (kem_pk, kem_sk, sig_pk, sig_sk) = keygen(&mut keys);
    assert_eq!(kem_pk.len(), KEM_PUBLIC_KEY_BYTES);
    assert_eq!(kem_sk.len(), KEM_SECRET_KEY_BYTES);
    assert_eq!(sig_pk.len(), SIG_PUBLIC_KEY_BYTES);
    assert_eq!(sig_sk.len(), SIG_SECRET_KEY_BYTES);
}

#[test]
fn integrity_tracks_key_changes() {
    let keys = OrganKeys::new();
    // fresh state: the stored hash is empty, the computed one is not
    assert!(!verify_integrity(&keys));
    let mut keys = keys;
    keygen(&mut keys);
    assert!(verify_integrity(&keys));
}

#[test]
fn encapsulate_rejects_bad_key() {
    assert_eq!(encapsulate(&[0u8; 7]), Err("invalid public key"));
}

#[test]
fn kem_roundtrip() {
    let mut alice = OrganKeys::new();
    let (alice_kem_pk, _, _, _) = keygen(&mut alice);
    let (ss_sender, ct) = encapsulate(&alice_kem_pk).unwrap();
    assert_eq!(ss_sender.len(), SHARED_SECRET_BYTES);
    assert_eq!(ct.len(), KEM_CIPHERTEXT_BYTES);
    let ss_receiver = decapsulate(&alice, &ct).unwrap();
    assert_eq!(ss_sender, ss_receiver);
}

#[test]
fn decapsulate_errors() {
    let keys = OrganKeys::new();
    assert_eq!(decapsulate(&keys, &[0u8; KEM_CIPHERTEXT_BYTES]), Err("no secret key"));
    let mut keys = keys;
    keygen(&mut keys);
    assert_eq!(decapsulate(&keys, &[0u8; 5]), Err("invalid ciphertext"));
}

#[test]
fn sign_requires_key() {
    let keys = OrganKeys::new();
    assert_eq!(sign(&keys, b"hello"), Err("no signing key"));
}

#[test]
fn verify_rejects_tampered_message() {
    let mut keys = OrganKeys::new();
    keygen(&mut keys);
    let sig = sign(&keys, b"authentic").unwrap();
    let (_, sig_pk) = get_public_keys(&keys).unwrap();
    assert!(verify(b"authentic", &sig, &sig_pk));
    assert!(!verify(b"tampered", &sig, &sig_pk));
    assert!(!verify(b"authentic", &sig, &[0u8; 4]));
}

#[test]
fn shared_secret_bookkeeping() {
    let mut alice = OrganKeys::new();
    let mut bob = OrganKeys::new();
    let (bob_kem_pk, _, _, _) = keygen(&mut bob);
    keygen(&mut alice);

    assert!(get_shared(&alice, "bob").is_none());
    let ss = establish_shared(&mut alice, "bob", &bob_kem_pk).unwrap();
    assert_eq!(ss.len(), SHARED_SECRET_BYTES);
    assert_eq!(get_shared(&alice, "bob"), Some(ss.clone()));
    assert!(verify_integrity(&alice));

    // establishing again replaces the stored secret
    let ss2 = establish_shared(&mut alice, "bob", &bob_kem_pk).unwrap();
    assert_eq!(get_shared(&alice, "bob"), Some(ss2));
    assert!(verify_integrity(&alice));

    // bad peer key leaves everything unchanged
    assert_eq!(establish_shared(&mut alice, "carol", &[1, 2, 3]), Err("invalid public key"));
    assert!(get_shared(&alice, "carol").is_none());
    assert!(verify_integrity(&alice));
}

#[test]
fn get_public_keys_errors() {
    let keys = OrganKeys::new();
    assert_eq!(get_public_keys(&keys), Err("no kem key"));
}
