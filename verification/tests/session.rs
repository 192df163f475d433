use vaultsyn::keygen::generate_identity;
use vaultsyn::message::{DecodeError, VaultsynTransport};
use vaultsyn::session::{
    classify_line, receive_action, send_step, LineKind, RecvOutcome, SendDecision,
};

fn dispatch(
    sender: &vaultsyn::keygen::Identity,
    receiver_pub: &str,
    line: &str,
) -> VaultsynTransport {
    match send_step(sender, receiver_pub, line) {
        SendDecision::Dispatch { transport } => transport,
        _ => panic!("expected a dispatched frame"),
    }
}

#[test]
fn self_echo_is_discarded() {
    let a = generate_identity("alice".to_string());
    let b = generate_identity("bob".to_string());
    let t = dispatch(&a, &b.x25519_public, "ping");
    match receive_action(&a, Some(&t)) {
        RecvOutcome::SelfEcho => {},
        _ => panic!("a frame carrying our own signing key must be discarded"),
    }
}

#[test]
fn peer_frame_is_shown() {
    let a = generate_identity("alice".to_string());
    let b = generate_identity("bob".to_string());
    let t = dispatch(&a, &b.x25519_public, "ping");
    match receive_action(&b, Some(&t)) {
        RecvOutcome::Shown { from, plaintext } => {
            assert_eq!(from, "alice");
            assert_eq!(plaintext, "ping");
        },
        _ => panic!("an honest peer frame must be shown"),
    }
}

#[test]
fn unparsed_frame_warns_malformed() {
    let b = generate_identity("bob".to_string());
    match receive_action(&b, None) {
        RecvOutcome::Warn { error } => assert_eq!(error, DecodeError::MalformedTransport),
        _ => panic!("an unparsed frame must warn"),
    }
}

#[test]
fn tampered_frame_warns_not_shown() {
    let a = generate_identity("alice".to_string());
    let b = generate_identity("bob".to_string());
    let mut t = dispatch(&a, &b.x25519_public, "ping");
    // Swap in the wrong DH public key: the pair key no longer matches.
    t.sender_x25519_pub = b.x25519_public.clone();
    match receive_action(&b, Some(&t)) {
        RecvOutcome::Warn { error } => assert_eq!(error, DecodeError::DecryptionFailure),
        _ => panic!("a tampered frame must warn"),
    }
}

#[test]
fn classify_line_kinds() {
    assert_eq!(classify_line(&b"/exit".to_vec()), LineKind::Exit);
    assert_eq!(classify_line(&b"  /exit \r\n".to_vec()), LineKind::Exit);
    assert_eq!(classify_line(&b"".to_vec()), LineKind::Blank);
    assert_eq!(classify_line(&b" \t \r\n".to_vec()), LineKind::Blank);
    assert_eq!(classify_line(&b"hello".to_vec()), LineKind::Text);
    assert_eq!(classify_line(&b" /exit now".to_vec()), LineKind::Text);
    assert_eq!(classify_line(&b"/exitx".to_vec()), LineKind::Text);
    assert_eq!(classify_line(&b"x/exit".to_vec()), LineKind::Text);
}

#[test]
fn send_step_decisions() {
    let a = generate_identity("alice".to_string());
    let b = generate_identity("bob".to_string());
    assert!(matches!(
        send_step(&a, &b.x25519_public, " /exit "),
        SendDecision::Exit
    ));
    assert!(matches!(
        send_step(&a, &b.x25519_public, "   "),
        SendDecision::Ignore
    ));
    let t = dispatch(&a, &b.x25519_public, "hi there");
    assert_eq!(t.sender_ed25519_pub, a.ed25519_public);
    assert_eq!(t.sender_x25519_pub, a.x25519_public);
    assert_eq!(t.envelope.from, "alice");
    match send_step(&a, "not a key", "hi there") {
        SendDecision::Reject { error } => assert_eq!(error, DecodeError::KeyDecodeError),
        _ => panic!("a bad receiver key must be rejected"),
    }
}

#[test]
fn dispatched_frame_round_trips_to_the_peer() {
    let a = generate_identity("alice".to_string());
    let b = generate_identity("bob".to_string());
    // The line is sealed as typed, untrimmed.
    let t = dispatch(&a, &b.x25519_public, "  padded line  ");
    match receive_action(&b, Some(&t)) {
        RecvOutcome::Shown { plaintext, .. } => assert_eq!(plaintext, "  padded line  "),
        _ => panic!("the peer must see the dispatched line"),
    }
}
