use vaultsyn::json::{envelope_to_json, transport_to_json};
use vaultsyn::parse::parse_transport;
use vaultsyn::keygen::{generate_identity, Identity};
use vaultsyn::message::{MessageEnvelope, VaultsynTransport};

fn sample_identity() -> Identity {
    Identity {
        username: "alice".to_string(),
        ed25519_public: "EDPUB".to_string(),
        ed25519_private: "EDPRIV".to_string(),
        x25519_public: "XPUB".to_string(),
        x25519_private: "XPRIV".to_string(),
    }
}

#[test]
fn public_info_json_exact() {
    let id = sample_identity();
    assert_eq!(
        id.public_info_json(),
        "{\"username\":\"alice\",\"ed25519_public\":\"EDPUB\",\"x25519_public\":\"XPUB\"}"
    );
}

#[test]
fn public_info_json_never_leaks_private_keys() {
    let id = generate_identity("alice".to_string());
    let json = id.public_info_json();
    assert!(!json.contains(&id.ed25519_private));
    assert!(!json.contains(&id.x25519_private));
    assert!(json.contains(&id.ed25519_public));
    assert!(json.contains(&id.x25519_public));
}

#[test]
fn json_escaping_is_exact() {
    let mut id = sample_identity();
    id.username = "a\"b\\c\nd\u{1f}".to_string();
    assert_eq!(
        id.public_info_json(),
        "{\"username\":\"a\\\"b\\\\c\\u000ad\\u001f\",\"ed25519_public\":\"EDPUB\",\"x25519_public\":\"XPUB\"}"
    );
}

fn sample_transport() -> VaultsynTransport {
    VaultsynTransport {
        envelope: MessageEnvelope {
            from: "alice".to_string(),
            to: "receiver".to_string(),
            ciphertext: "CT+/=".to_string(),
            nonce: "NONCE".to_string(),
            signature: "SIG".to_string(),
        },
        sender_ed25519_pub: "EDPUB".to_string(),
        sender_x25519_pub: "XPUB".to_string(),
    }
}

#[test]
fn envelope_json_exact() {
    let t = sample_transport();
    assert_eq!(
        envelope_to_json(&t.envelope),
        "{\"from\":\"alice\",\"to\":\"receiver\",\"ciphertext\":\"CT+/=\",\"nonce\":\"NONCE\",\"signature\":\"SIG\"}"
    );
}

#[test]
fn transport_json_exact() {
    let t = sample_transport();
    assert_eq!(
        transport_to_json(&t),
        "{\"envelope\":{\"from\":\"alice\",\"to\":\"receiver\",\"ciphertext\":\"CT+/=\",\"nonce\":\"NONCE\",\"signature\":\"SIG\"},\"sender_ed25519_pub\":\"EDPUB\",\"sender_x25519_pub\":\"XPUB\"}"
    );
}

#[test]
fn transport_json_reads_back_with_a_stock_parser() {
    let a = generate_identity("al\"ice".to_string());
    let b = generate_identity("bob".to_string());
    let env = vaultsyn::message::try_encrypt_and_sign_message(&a, &b.x25519_public, "hi").unwrap();
    let t = VaultsynTransport {
        envelope: env,
        sender_ed25519_pub: a.ed25519_public.clone(),
        sender_x25519_pub: a.x25519_public.clone(),
    };
    let text = transport_to_json(&t);
    let value: serde_json::Value = serde_json::from_str(&text).unwrap();
    assert_eq!(value["sender_ed25519_pub"].as_str().unwrap(), a.ed25519_public);
    assert_eq!(value["sender_x25519_pub"].as_str().unwrap(), a.x25519_public);
    assert_eq!(value["envelope"]["from"].as_str().unwrap(), "al\"ice");
    assert_eq!(
        value["envelope"]["ciphertext"].as_str().unwrap(),
        t.envelope.ciphertext
    );
    assert_eq!(value["envelope"]["nonce"].as_str().unwrap(), t.envelope.nonce);
    assert_eq!(
        value["envelope"]["signature"].as_str().unwrap(),
        t.envelope.signature
    );
}

#[test]
fn parse_inverts_the_writer() {
    let t = sample_transport();
    let text = transport_to_json(&t);
    let back = parse_transport(&text).unwrap();
    assert_eq!(back.envelope.from, t.envelope.from);
    assert_eq!(back.envelope.to, t.envelope.to);
    assert_eq!(back.envelope.ciphertext, t.envelope.ciphertext);
    assert_eq!(back.envelope.nonce, t.envelope.nonce);
    assert_eq!(back.envelope.signature, t.envelope.signature);
    assert_eq!(back.sender_ed25519_pub, t.sender_ed25519_pub);
    assert_eq!(back.sender_x25519_pub, t.sender_x25519_pub);
}

#[test]
fn parse_inverts_the_writer_with_escapes() {
    let mut t = sample_transport();
    t.envelope.from = "a\"b\\c\nd\u{1f}\u{0}".to_string();
    let text = transport_to_json(&t);
    let back = parse_transport(&text).unwrap();
    assert_eq!(back.envelope.from, t.envelope.from);
}

#[test]
fn parse_rejects_malformed_frames() {
    let t = sample_transport();
    let good = transport_to_json(&t);
    assert!(parse_transport("").is_none());
    assert!(parse_transport("{}").is_none());
    assert!(parse_transport("not json at all").is_none());
    assert!(parse_transport(&good[..good.len() - 1]).is_none());
    assert!(parse_transport(&format!("{} ", good)).is_none());
    assert!(parse_transport(&format!(" {}", good)).is_none());
    let reordered = good.replace("\"nonce\"", "\"n0nce\"");
    assert!(parse_transport(&reordered).is_none());
    assert!(parse_transport(&good.replace(":\"alice\"", ": \"alice\"")).is_none());
    assert!(parse_transport(&good).is_some());
}

#[test]
fn dispatched_frame_survives_the_wire() {
    let a = generate_identity("alice".to_string());
    let b = generate_identity("bob".to_string());
    let t = match vaultsyn::session::send_step(&a, &b.x25519_public, "over the wire") {
        vaultsyn::session::SendDecision::Dispatch { transport } => transport,
        _ => panic!("expected a dispatched frame"),
    };
    let text = transport_to_json(&t);
    let back = parse_transport(&text).unwrap();
    match vaultsyn::session::receive_action(&b, Some(&back)) {
        vaultsyn::session::RecvOutcome::Shown { from, plaintext } => {
            assert_eq!(from, "alice");
            assert_eq!(plaintext, "over the wire");
        }
        _ => panic!("the frame must survive serialization"),
    }
}
