use wsp::ratchet::{RatchetError, RatchetHeader, RatchetSession};

#[test]
fn test_basic_ratchet() {
    let shared = [42u8; 32];
    let mut alice = RatchetSession::init(&shared, true);
    let mut bob = RatchetSession::init(&shared, false);

    // Exchange initial DH keys (simulates the key-exchange reply carrying them).
    let alice_dh = alice.public_key();
    let bob_dh = bob.public_key();
    alice.set_remote_dh(bob_dh);
    bob.set_remote_dh(alice_dh);

    // Alice sends, Bob receives.
    let (header, nonce, ct) = alice.encrypt(b"hello from alice").unwrap();
    let pt = bob.decrypt(&header, &nonce, &ct).unwrap();
    assert_eq!(pt, b"hello from alice");

    // Bob sends, Alice receives.
    let (header, nonce, ct) = bob.encrypt(b"hello from bob").unwrap();
    let pt = alice.decrypt(&header, &nonce, &ct).unwrap();
    assert_eq!(pt, b"hello from bob");
}

#[test]
fn test_bob_sends_first_then_alice_replies() {
    let shared = [42u8; 32];
    let mut alice = RatchetSession::init(&shared, true);
    let mut bob = RatchetSession::init(&shared, false);

    let alice_dh = alice.public_key();
    let bob_dh = bob.public_key();
    alice.set_remote_dh(bob_dh);
    bob.set_remote_dh(alice_dh);

    // Bob sends first.
    let (header, nonce, ct) = bob.encrypt(b"hey").unwrap();
    let pt = alice.decrypt(&header, &nonce, &ct).unwrap();
    assert_eq!(pt, b"hey");

    // Alice replies — this triggers her initial send-side DH step.
    let (header, nonce, ct) = alice.encrypt(b"hey back").unwrap();
    // Bob must detect the DH key change and take the receive-side step.
    let pt = bob.decrypt(&header, &nonce, &ct).unwrap();
    assert_eq!(pt, b"hey back");

    // Continue the conversation.
    let (header, nonce, ct) = bob.encrypt(b"how are you?").unwrap();
    let pt = alice.decrypt(&header, &nonce, &ct).unwrap();
    assert_eq!(pt, b"how are you?");
}

#[test]
fn test_multiple_messages() {
    let shared = [42u8; 32];
    let mut alice = RatchetSession::init(&shared, true);
    let mut bob = RatchetSession::init(&shared, false);

    let alice_dh = alice.public_key();
    let bob_dh = bob.public_key();
    alice.set_remote_dh(bob_dh);
    bob.set_remote_dh(alice_dh);

    for i in 0..10 {
        let msg = format!("alice msg {}", i);
        let (header, nonce, ct) = alice.encrypt(msg.as_bytes()).unwrap();
        let pt = bob.decrypt(&header, &nonce, &ct).unwrap();
        assert_eq!(pt, msg.as_bytes());
    }

    for i in 0..10 {
        let msg = format!("bob msg {}", i);
        let (header, nonce, ct) = bob.encrypt(msg.as_bytes()).unwrap();
        let pt = alice.decrypt(&header, &nonce, &ct).unwrap();
        assert_eq!(pt, msg.as_bytes());
    }
}

#[test]
fn test_alternating_messages_triggers_ratchet() {
    let shared = [42u8; 32];
    let mut alice = RatchetSession::init(&shared, true);
    let mut bob = RatchetSession::init(&shared, false);

    let alice_dh = alice.public_key();
    let bob_dh = bob.public_key();
    alice.set_remote_dh(bob_dh);
    bob.set_remote_dh(alice_dh);

    let (h, n, c) = alice.encrypt(b"a1").unwrap();
    assert_eq!(bob.decrypt(&h, &n, &c).unwrap(), b"a1");

    let (h, n, c) = bob.encrypt(b"b1").unwrap();
    assert_eq!(alice.decrypt(&h, &n, &c).unwrap(), b"b1");

    let (h, n, c) = alice.encrypt(b"a2").unwrap();
    assert_eq!(bob.decrypt(&h, &n, &c).unwrap(), b"a2");

    let (h, n, c) = bob.encrypt(b"b2").unwrap();
    assert_eq!(alice.decrypt(&h, &n, &c).unwrap(), b"b2");
}

#[test]
fn test_no_dh_exchange_symmetric_still_works() {
    // Without the DH key exchange, the symmetric bootstrap chains carry the
    // conversation as long as the initiator sends before learning a key.
    let shared = [42u8; 32];
    let mut alice = RatchetSession::init(&shared, true);
    let mut bob = RatchetSession::init(&shared, false);

    let (header, nonce, ct) = alice.encrypt(b"alice first").unwrap();
    let pt = bob.decrypt(&header, &nonce, &ct).unwrap();
    assert_eq!(pt, b"alice first");

    let (header, nonce, ct) = bob.encrypt(b"bob reply").unwrap();
    let pt = alice.decrypt(&header, &nonce, &ct).unwrap();
    assert_eq!(pt, b"bob reply");
}

#[test]
fn test_voice_key_derivation() {
    let shared = [42u8; 32];
    let mut alice = RatchetSession::init(&shared, true);
    let mut bob = RatchetSession::init(&shared, false);

    let vk_a = alice.derive_voice_key();
    let vk_b = bob.derive_voice_key();
    assert_eq!(vk_a, vk_b, "Voice keys should match");

    // Calling again returns the cached value.
    assert_eq!(alice.derive_voice_key(), vk_a);

    // Clearing and re-deriving still matches.
    alice.clear_voice_key();
    assert_eq!(alice.derive_voice_key(), vk_a);
}

#[test]
fn test_media_keys_survive_ratchet_advancement() {
    let shared = [7u8; 32];
    let mut alice = RatchetSession::init(&shared, true);
    let mut bob = RatchetSession::init(&shared, false);
    alice.set_remote_dh(bob.public_key());
    bob.set_remote_dh(alice.public_key());

    let vk_before = alice.derive_voice_key();
    let sk_before = alice.derive_screen_key();
    assert_ne!(vk_before, sk_before, "voice and screen keys must differ");

    // Advance both ratchets through several DH steps.
    for i in 0..4 {
        let msg = format!("ping {}", i);
        let (h, n, c) = alice.encrypt(msg.as_bytes()).unwrap();
        assert_eq!(bob.decrypt(&h, &n, &c).unwrap(), msg.as_bytes());
        let (h, n, c) = bob.encrypt(b"pong").unwrap();
        assert_eq!(alice.decrypt(&h, &n, &c).unwrap(), b"pong");
    }

    // The media keys never rotated, and both sides still agree.
    assert_eq!(alice.derive_voice_key(), vk_before);
    assert_eq!(alice.derive_screen_key(), sk_before);
    assert_eq!(bob.derive_voice_key(), vk_before);
    assert_eq!(bob.derive_screen_key(), sk_before);
}

#[test]
fn test_out_of_order_delivery_uses_skipped_keys() {
    let shared = [42u8; 32];
    let mut alice = RatchetSession::init(&shared, true);
    let mut bob = RatchetSession::init(&shared, false);
    alice.set_remote_dh(bob.public_key());
    bob.set_remote_dh(alice.public_key());

    let mut frames = Vec::new();
    for i in 0..6 {
        let msg = format!("m{}", i);
        frames.push((alice.encrypt(msg.as_bytes()).unwrap(), msg));
    }

    // Deliver the newest first: five keys get skipped and stored.
    let ((h, n, c), msg) = frames.pop().unwrap();
    assert_eq!(bob.decrypt(&h, &n, &c).unwrap(), msg.as_bytes());
    assert_eq!(bob.skipped_len(), 5);
    assert!(bob.skipped_len() <= 100);

    // The earlier messages still decrypt, each from its stored key.
    for ((h, n, c), msg) in frames {
        assert_eq!(bob.decrypt(&h, &n, &c).unwrap(), msg.as_bytes());
    }
    assert_eq!(bob.skipped_len(), 0);

    // A replayed frame no longer decrypts: its one-time key is gone.
    let (h, n, c) = alice.encrypt(b"fresh").unwrap();
    let c2 = c.clone();
    assert_eq!(bob.decrypt(&h, &n, &c).unwrap(), b"fresh");
    assert!(bob.decrypt(&h, &n, &c2).is_err());
}

#[test]
fn test_skipped_key_eviction_drops_oldest() {
    let shared = [42u8; 32];
    let mut alice = RatchetSession::init(&shared, true);
    let mut bob = RatchetSession::init(&shared, false);
    alice.set_remote_dh(bob.public_key());
    bob.set_remote_dh(alice.public_key());

    // 101 messages; delivering the last one stores exactly 100 skipped keys.
    let mut frames = Vec::new();
    for i in 0..101 {
        let msg = format!("m{}", i);
        frames.push((alice.encrypt(msg.as_bytes()).unwrap(), msg));
    }
    let ((h, n, c), msg) = frames.pop().unwrap();
    assert_eq!(bob.decrypt(&h, &n, &c).unwrap(), msg.as_bytes());
    assert_eq!(bob.skipped_len(), 100);

    // Nine more skips push the map over its bound; the oldest keys go.
    for i in 101..111 {
        let msg = format!("m{}", i);
        frames.push((alice.encrypt(msg.as_bytes()).unwrap(), msg));
    }
    let ((h, n, c), msg) = frames.pop().unwrap();
    assert_eq!(bob.decrypt(&h, &n, &c).unwrap(), msg.as_bytes());
    assert_eq!(bob.skipped_len(), 100);

    // The very first message's key was evicted; a later one is still held.
    let (h0, n0, c0) = &frames[0].0;
    assert!(bob.decrypt(h0, n0, c0).is_err(), "the oldest key must be gone");
    let ((h9, n9, c9), msg9) = &frames[9];
    assert_eq!(bob.decrypt(h9, n9, c9).unwrap(), msg9.as_bytes());
}

#[test]
fn test_excessive_skip_rejected_without_state_change() {
    let shared = [42u8; 32];
    let mut alice = RatchetSession::init(&shared, true);
    let mut bob = RatchetSession::init(&shared, false);
    alice.set_remote_dh(bob.public_key());
    bob.set_remote_dh(alice.public_key());

    // Warm the pair up.
    let (h, n, c) = alice.encrypt(b"one").unwrap();
    assert_eq!(bob.decrypt(&h, &n, &c).unwrap(), b"one");

    // A header demanding a gap beyond MAX_SKIP is refused.
    let (mut h2, n2, c2) = alice.encrypt(b"two").unwrap();
    let good_num = h2.msg_num;
    h2.msg_num = good_num + 200;
    match bob.decrypt(&h2, &n2, &c2) {
        Err(RatchetError::ExcessiveSkip) => {}
        other => panic!("expected an excessive-skip error, got {:?}", other.map(|_| ())),
    }

    // The refusal did not corrupt the session: the real frame still decrypts.
    h2.msg_num = good_num;
    assert_eq!(bob.decrypt(&h2, &n2, &c2).unwrap(), b"two");
}

#[test]
fn test_garbage_ciphertext_rejected_without_state_change() {
    let shared = [42u8; 32];
    let mut alice = RatchetSession::init(&shared, true);
    let mut bob = RatchetSession::init(&shared, false);
    alice.set_remote_dh(bob.public_key());
    bob.set_remote_dh(alice.public_key());

    let (h, n, c) = alice.encrypt(b"attack at dawn").unwrap();

    // Same header and nonce, random bytes as ciphertext: AEAD failure.
    let garbage: Vec<u8> = c.iter().map(|b| b.wrapping_add(1)).collect();
    match bob.decrypt(&h, &n, &garbage) {
        Err(RatchetError::DecryptFailed) => {}
        other => panic!("expected an AEAD failure, got {:?}", other.map(|_| ())),
    }

    // Counters were not mutated: the genuine frame still decrypts.
    assert_eq!(bob.decrypt(&h, &n, &c).unwrap(), b"attack at dawn");

    // A bad nonce is also refused cleanly.
    let (h3, _n3, c3) = alice.encrypt(b"next").unwrap();
    assert!(matches!(bob.decrypt(&h3, &[0u8; 5], &c3), Err(RatchetError::InvalidNonce)));
}

#[test]
fn test_header_wire_roundtrip() {
    let shared = [1u8; 32];
    let mut alice = RatchetSession::init(&shared, true);
    let (h, _, _) = alice.encrypt(b"x").unwrap();

    let encoded = h.encode();
    assert_eq!(encoded.len(), 40);
    let decoded = RatchetHeader::decode(&encoded).unwrap();
    assert_eq!(decoded.dh_public, h.dh_public);
    assert_eq!(decoded.prev_chain_len, h.prev_chain_len);
    assert_eq!(decoded.msg_num, h.msg_num);

    // Any other length is refused.
    assert!(RatchetHeader::decode(&encoded[..39]).is_none());
    assert!(RatchetHeader::decode(&[]).is_none());
}
