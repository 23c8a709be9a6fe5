use aiueos::edn::Edn;
use aiueos::error::AiueError;
use aiueos::manifest::Manifest;
use aiueos::policy::{Policy, ViolationKind};
use aiueos::signing::{from_hex, signature_verdict, verify, SigStatus, SignedMaterial};
use ed25519_dalek::{Signer, SigningKey};

fn hex(bytes: &[u8]) -> String {
    bytes.iter().map(|b| format!("{b:02x}")).collect()
}

/// A deterministic keypair from a fixed seed (test-only).
fn keypair() -> SigningKey {
    SigningKey::from_bytes(&[7u8; 32])
}

fn policy_with_signer(name: &str, key_hex: &str) -> Policy {
    let mut p = Policy::new();
    p.add_signer(name.to_string(), key_hex.to_string());
    p
}

fn manifest_of(pairs: Vec<(&str, Edn)>) -> Manifest {
    let es = pairs.into_iter().map(|(k, v)| (Edn::Keyword(k.to_string()), v)).collect();
    Manifest::from_edn(&Edn::MapOf(es)).unwrap()
}

fn signed_manifest(sig_hex: &str) -> Manifest {
    manifest_of(vec![
        ("aiueos/component", Edn::Keyword("driver/sensor".into())),
        ("aiueos/kind", Edn::Keyword("driver".into())),
        ("aiueos/wasm-sha256", Edn::Str("abc123".into())),
        ("aiueos/signer", Edn::Str("alice".into())),
        ("aiueos/signature", Edn::Str(sig_hex.into())),
    ])
}

#[test]
fn a_valid_signature_verifies_and_names_the_signer() {
    let key = keypair();
    let sig = key.sign(b"driver/sensor\nabc123");
    let m = signed_manifest(&hex(&sig.to_bytes()));
    let policy = policy_with_signer("alice", &hex(key.verifying_key().as_bytes()));
    assert_eq!(
        verify(&m, &policy).unwrap(),
        SigStatus::Verified("alice".into())
    );
}

#[test]
fn a_tampered_signature_is_denied() {
    let key = keypair();
    let sig = key.sign(b"driver/sensor\nDIFFERENT");
    let m = signed_manifest(&hex(&sig.to_bytes()));
    let policy = policy_with_signer("alice", &hex(key.verifying_key().as_bytes()));
    assert!(
        verify(&m, &policy).is_err(),
        "wrong-message signature must be denied"
    );
}

#[test]
fn an_unregistered_signer_is_denied() {
    let key = keypair();
    let sig = key.sign(b"driver/sensor\nabc123");
    let m = signed_manifest(&hex(&sig.to_bytes()));
    let policy = policy_with_signer("bob", &hex(key.verifying_key().as_bytes()));
    assert!(
        verify(&m, &policy).is_err(),
        "unregistered signer must be denied"
    );
}

#[test]
fn an_unsigned_manifest_is_unsigned() {
    let m = manifest_of(vec![
        ("aiueos/component", Edn::Keyword("driver/s".into())),
        ("aiueos/kind", Edn::Keyword("driver".into())),
        ("aiueos/wasm-sha256", Edn::Str("abc123".into())),
    ]);
    assert_eq!(verify(&m, &Policy::new()).unwrap(), SigStatus::Unsigned);
}

#[test]
fn a_signature_without_artifact_hash_is_denied() {
    let m = manifest_of(vec![
        ("aiueos/component", Edn::Keyword("driver/s".into())),
        ("aiueos/kind", Edn::Keyword("driver".into())),
        ("aiueos/signer", Edn::Str("alice".into())),
        ("aiueos/signature", Edn::Str("deadbeef".into())),
    ]);
    let policy = policy_with_signer("alice", &hex(keypair().verifying_key().as_bytes()));
    assert!(verify(&m, &policy).is_err(), "no hash to bind → denied");
}

fn denial_message(r: Result<SigStatus, AiueError>) -> String {
    match r {
        Err(AiueError::Denied(vs)) => {
            assert_eq!(vs.len(), 1);
            assert_eq!(vs[0].kind, ViolationKind::BadSignature);
            vs[0].message.clone()
        },
        other => panic!("expected a denial, got {other:?}"),
    }
}

#[test]
fn denials_say_why() {
    let key = keypair();
    let sig = key.sign(b"driver/sensor\nDIFFERENT");
    let m = signed_manifest(&hex(&sig.to_bytes()));
    let policy = policy_with_signer("alice", &hex(key.verifying_key().as_bytes()));
    assert_eq!(denial_message(verify(&m, &policy)), "signature does not verify for signer `alice`");
    let other = policy_with_signer("bob", &hex(key.verifying_key().as_bytes()));
    assert_eq!(denial_message(verify(&m, &other)), "signer `alice` is not a registered signer");
}

#[test]
fn a_signature_without_signer_is_denied() {
    let m = manifest_of(vec![
        ("aiueos/component", Edn::Keyword("app/s".into())),
        ("aiueos/kind", Edn::Keyword("app".into())),
        ("aiueos/wasm-sha256", Edn::Str("abc".into())),
        ("aiueos/signature", Edn::Str("00".into())),
    ]);
    assert_eq!(
        denial_message(verify(&m, &Policy::new())),
        "signature present but no :aiueos/signer"
    );
}

#[test]
fn short_or_malformed_signatures_are_denied() {
    let key = keypair();
    let policy = policy_with_signer("alice", &hex(key.verifying_key().as_bytes()));
    let short = signed_manifest("00");
    assert_eq!(denial_message(verify(&short, &policy)), "signature must be 64 bytes");
    let odd = signed_manifest("abc");
    assert_eq!(denial_message(verify(&odd, &policy)), "signature: odd-length hex");
    let non_hex = signed_manifest("a\u{e9}a");
    assert_eq!(denial_message(verify(&non_hex, &policy)), "signature: invalid hex");
    let bad_key = policy_with_signer("alice", "zz");
    let sig = key.sign(b"driver/sensor\nabc123");
    let m = signed_manifest(&hex(&sig.to_bytes()));
    assert_eq!(denial_message(verify(&m, &bad_key)), "signer key: invalid hex");
    let short_key = policy_with_signer("alice", "0011");
    assert_eq!(denial_message(verify(&m, &short_key)), "signer key must be 32 bytes");
}

#[test]
fn from_hex_decodes_both_cases_and_rejects_other_digits() {
    assert_eq!(from_hex("00ffA5", "x").unwrap(), vec![0x00, 0xff, 0xa5]);
    assert_eq!(from_hex("", "x").unwrap(), Vec::<u8>::new());
    assert!(matches!(from_hex("+f", "x"), Err(AiueError::Schema(m)) if m == "x: invalid hex"));
    assert!(matches!(from_hex("-f", "x"), Err(AiueError::Schema(m)) if m == "x: invalid hex"));
    assert!(matches!(from_hex("zz", "x"), Err(AiueError::Schema(m)) if m == "x: invalid hex"));
    assert!(matches!(from_hex("0g", "key"), Err(AiueError::Schema(m)) if m == "key: invalid hex"));
    assert!(matches!(from_hex("123", "key"), Err(AiueError::Schema(m)) if m == "key: odd-length hex"));
}

#[test]
fn from_hex_rejects_non_ascii_text() {
    assert!(matches!(from_hex("a\u{e9}a", "w"), Err(AiueError::Schema(m)) if m == "w: invalid hex"));
    assert!(matches!(from_hex("\u{e9}", "w"), Err(AiueError::Schema(m)) if m == "w: invalid hex"));
}

#[test]
fn verdict_after_the_library_answers() {
    let mat = SignedMaterial {
        component: "app/s".into(),
        signer: "carol".into(),
        key: vec![0; 32],
        signature: vec![0; 64],
        message: b"app/s\nabc".to_vec(),
    };
    assert_eq!(signature_verdict(&mat, true, true).unwrap(), SigStatus::Verified("carol".into()));
    assert_eq!(denial_message(signature_verdict(&mat, false, false)), "bad public key");
    assert_eq!(denial_message(signature_verdict(&mat, true, false)), "signature does not verify for signer `carol`");
}

#[test]
fn registering_a_signer_again_replaces_its_key() {
    let key = keypair();
    let sig = key.sign(b"driver/sensor\nabc123");
    let m = signed_manifest(&hex(&sig.to_bytes()));
    let mut policy = Policy::new();
    policy.add_signer("alice".to_string(), "00".to_string());
    policy.add_signer("bob".to_string(), "11".to_string());
    policy.add_signer("alice".to_string(), hex(key.verifying_key().as_bytes()));
    assert_eq!(verify(&m, &policy).unwrap(), SigStatus::Verified("alice".into()));
    assert_eq!(policy.signer_key("alice"), Some(&hex(key.verifying_key().as_bytes())));
    assert_eq!(policy.signer_key("bob"), Some(&"11".to_string()));
    assert_eq!(policy.signer_key("carol"), None);
}

#[test]
fn hex_rendering_decodes_back() {
    let bytes: Vec<u8> = (0..=255u8).collect();
    let text = aiueos::text::to_hex_lower(&bytes);
    assert_eq!(from_hex(&text, "round trip").unwrap(), bytes);
}
