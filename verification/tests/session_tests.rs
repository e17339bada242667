use wsp::client::{ClientState, KeyExchangeOutcome, RecvOutcome, SendError};
use wsp::crypto::Identity;
use wsp::protocol::{Message, PlainMessage};
use wsp::relay::RelayState;
use wsp::screen::{bgra_to_rgb_scaled, sample_pixel, DecodedFrame, ScreenWidget};
use wsp::storage::HistoryStorage;
use wsp::tui_types::ActiveTransfer;

fn manager(session_id: &str) -> ClientState {
    ClientState::new(Identity::generate(), session_id.to_string(), None)
}

/// Run the full bootstrap, as the relay would deliver it: A announces, B
/// replies with its ratchet key, and A's own reply carries its ratchet key
/// back (landing at B as a duplicate that completes the remote DH).
fn link(a: &mut ClientState, b: &mut ClientState) {
    let a_id = a.session_id.clone();
    let b_id = b.session_id.clone();
    let outcome = b.handle_key_exchange(&a_id, a.identity.public_key_bytes(), Vec::new());
    assert_eq!(outcome, KeyExchangeOutcome::NewPeer);
    match b.key_exchange_reply(&a_id).unwrap() {
        Message::KeyExchange { from, public_key, dh_ratchet_key } => {
            assert_eq!(from, b_id);
            let outcome = a.handle_key_exchange(&b_id, public_key, dh_ratchet_key);
            assert_eq!(outcome, KeyExchangeOutcome::NewPeer);
        }
        _ => panic!("reply must be a key exchange"),
    }
    match a.key_exchange_reply(&b_id).unwrap() {
        Message::KeyExchange { from, public_key, dh_ratchet_key } => {
            assert_eq!(from, a_id);
            let outcome = b.handle_key_exchange(&a_id, public_key, dh_ratchet_key);
            assert_eq!(outcome, KeyExchangeOutcome::Duplicate);
            let _ = from;
        }
        _ => panic!("reply must be a key exchange"),
    }
}

#[test]
fn test_session_manager_text_roundtrip() {
    let mut a = manager("aaaa000000000000");
    let mut b = manager("bbbb000000000000");
    link(&mut a, &mut b);

    let frame = a.encrypt_direct(&b.session_id.clone(), b"hi bob").unwrap();
    match frame {
        Message::Encrypted { from, target, header, nonce, ciphertext } => {
            assert_eq!(from, a.session_id);
            assert_eq!(target, b.session_id);
            match b.decrypt_from(&from, &header, &nonce, &ciphertext) {
                RecvOutcome::Plaintext(pt) => assert_eq!(pt, b"hi bob"),
                _ => panic!("decrypt should succeed"),
            }
        }
        _ => panic!("expected an encrypted frame"),
    }

    // And the reply direction.
    let a_id = a.session_id.clone();
    let frame = b.encrypt_direct(&a_id, b"hi alice").unwrap();
    match frame {
        Message::Encrypted { from, header, nonce, ciphertext, .. } => {
            match a.decrypt_from(&from, &header, &nonce, &ciphertext) {
                RecvOutcome::Plaintext(pt) => assert_eq!(pt, b"hi alice"),
                _ => panic!("decrypt should succeed"),
            }
        }
        _ => panic!("expected an encrypted frame"),
    }
}

#[test]
fn test_duplicate_key_exchange_keeps_ratchet() {
    let mut a = manager("aaaa000000000000");
    let mut b = manager("bbbb000000000000");
    link(&mut a, &mut b);

    // A frame encrypted before the duplicate arrives...
    let frame = a.encrypt_direct(&b.session_id.clone(), b"before").unwrap();

    // ...survives a replayed key exchange: the existing ratchet is untouched.
    let a_id = a.session_id.clone();
    let outcome = b.handle_key_exchange(&a_id, a.identity.public_key_bytes(), Vec::new());
    assert_eq!(outcome, KeyExchangeOutcome::Duplicate);

    match frame {
        Message::Encrypted { from, header, nonce, ciphertext, .. } => {
            match b.decrypt_from(&from, &header, &nonce, &ciphertext) {
                RecvOutcome::Plaintext(pt) => assert_eq!(pt, b"before"),
                _ => panic!("ratchet must survive a duplicate key exchange"),
            }
        }
        _ => panic!("expected an encrypted frame"),
    }

    // Our own announcement echoed back is ignored too.
    let b_id = b.session_id.clone();
    let outcome = b.handle_key_exchange(&b_id, b.identity.public_key_bytes(), Vec::new());
    assert_eq!(outcome, KeyExchangeOutcome::OwnEcho);
}

#[test]
fn test_unknown_peer_paths() {
    let mut a = manager("aaaa000000000000");
    let stranger = "cccc000000000000".to_string();
    assert!(matches!(a.encrypt_direct(&stranger, b"x"), Err(SendError::UnknownPeer)));
    assert!(matches!(
        a.decrypt_from(&stranger, &[0u8; 40], &[0u8; 12], b"ct"),
        RecvOutcome::UnknownPeer
    ));
    assert!(a.decrypt_audio(&stranger, &[0u8; 12], b"ct").is_none());
}

#[test]
fn test_audio_frame_roundtrip() {
    let mut a = manager("aaaa000000000000");
    let mut b = manager("bbbb000000000000");
    link(&mut a, &mut b);

    let opus = vec![1u8, 2, 3, 4, 5];
    let frame = a.encrypt_audio(&b.session_id.clone(), &opus).unwrap();
    match frame {
        Message::AudioFrame { from, nonce, ciphertext } => {
            assert_eq!(from, a.session_id);
            let pt = b.decrypt_audio(&from, &nonce, &ciphertext).unwrap();
            assert_eq!(pt, opus);
        }
        _ => panic!("expected an audio frame"),
    }
}

#[test]
fn test_group_frame_and_nickname() {
    let mut a = manager("aaaa000000000000");
    let mut b = manager("bbbb000000000000");
    link(&mut a, &mut b);

    let b_id = b.session_id.clone();
    let gid = "deadbeef".to_string();
    let frame = a.encrypt_group_frame(&b_id, &gid, b"group hello").unwrap();
    match frame {
        Message::GroupEncrypted { from, group_id, header, nonce, ciphertext } => {
            assert_eq!(group_id, gid);
            match b.decrypt_from(&from, &header, &nonce, &ciphertext) {
                RecvOutcome::Plaintext(pt) => assert_eq!(pt, b"group hello"),
                _ => panic!("group frame should decrypt"),
            }
        }
        _ => panic!("expected a group frame"),
    }

    let a_id = a.session_id.clone();
    assert!(b.set_peer_nickname(&a_id, "ada".to_string()));
    let displays = b.peer_displays();
    assert_eq!(displays.len(), 1);
    assert_eq!(displays[0].0, a_id);
    assert_eq!(displays[0].1.nickname.as_deref(), Some("ada"));
    assert_eq!(b.peer_ids(), vec![a_id]);
}

#[test]
fn test_relay_connect_resume_preserves_rooms() {
    let mut relay = RelayState::new();
    let s = "session-s".to_string();
    let g = "room-g".to_string();

    assert!(!relay.connect(s.clone()));
    relay.group_join(s.clone(), g.clone());
    assert_eq!(relay.room_targets(&g, &"other".to_string()), vec![s.clone()]);

    // Reconnecting under the same session id is a resumption: the routing
    // slot is replaced, room memberships stay.
    assert!(relay.connect(s.clone()));
    assert_eq!(relay.room_targets(&g, &"other".to_string()), vec![s.clone()]);

    // A disconnect tears everything down; a later resume must rejoin.
    relay.disconnect(&s);
    assert!(!relay.online_target(&s));
    assert!(relay.room_targets(&g, &"other".to_string()).is_empty());
    assert!(!relay.connect(s.clone()));
    assert!(relay.room_targets(&g, &"other".to_string()).is_empty());
    relay.group_join(s.clone(), g.clone());
    assert_eq!(relay.room_targets(&g, &"other".to_string()), vec![s]);
}

#[test]
fn test_relay_routing_policy() {
    let mut relay = RelayState::new();
    let r = relay.route(None, &Message::Connect { session_id: "s1".to_string() });
    assert!(r.ack);
    assert_eq!(r.register.as_deref(), Some("s1"));
    relay.route(None, &Message::Connect { session_id: "s2".to_string() });
    relay.route(None, &Message::Connect { session_id: "s3".to_string() });

    // Key exchanges broadcast to everyone but the sender.
    let s1 = "s1".to_string();
    let ke = Message::KeyExchange {
        from: s1.clone(),
        public_key: vec![0u8; 32],
        dh_ratchet_key: Vec::new(),
    };
    let mut targets = relay.route(Some(&s1), &ke).recipients;
    targets.sort();
    assert_eq!(targets, vec!["s2".to_string(), "s3".to_string()]);

    // Targeted traffic goes to its target alone, and only while online.
    let enc = Message::Encrypted {
        from: s1.clone(),
        target: "s2".to_string(),
        header: Vec::new(),
        nonce: Vec::new(),
        ciphertext: Vec::new(),
    };
    assert_eq!(relay.route(Some(&s1), &enc).recipients, vec!["s2".to_string()]);
    let enc_offline = Message::Typing {
        from: s1.clone(),
        target: "nobody".to_string(),
        is_typing: true,
    };
    assert!(relay.route(Some(&s1), &enc_offline).recipients.is_empty());

    // Group fan-out reaches the room minus the sender.
    relay.route(None, &Message::GroupJoin { session_id: "s1".to_string(), group_id: "g".to_string() });
    relay.route(None, &Message::GroupJoin { session_id: "s2".to_string(), group_id: "g".to_string() });
    let ge = Message::GroupEncrypted {
        from: s1.clone(),
        group_id: "g".to_string(),
        header: Vec::new(),
        nonce: Vec::new(),
        ciphertext: Vec::new(),
    };
    assert_eq!(relay.route(Some(&s1), &ge).recipients, vec!["s2".to_string()]);

    // Leaving empties the room.
    relay.route(None, &Message::GroupLeave { session_id: "s2".to_string(), group_id: "g".to_string() });
    assert!(relay.route(Some(&s1), &ge).recipients.is_empty());
}

#[test]
fn test_history_log_roundtrip() {
    let store = HistoryStorage::new("unused".to_string(), &[5u8; 32]);
    let mut log: Vec<u8> = Vec::new();
    log.extend(store.encode_entry(b"first message").unwrap());
    log.extend(store.encode_entry(b"second message").unwrap());
    log.extend(store.encode_entry(b"third").unwrap());

    let entries = store.decode_entries(&log);
    assert_eq!(entries, vec![b"first message".to_vec(), b"second message".to_vec(), b"third".to_vec()]);

    // A corrupted middle entry is skipped; the others survive.
    let mut corrupt = log.clone();
    let first_len = store.encode_entry(b"first message").unwrap().len();
    corrupt[first_len + 6] ^= 0xff;
    let entries = store.decode_entries(&corrupt);
    assert_eq!(entries, vec![b"first message".to_vec(), b"third".to_vec()]);

    // A truncated tail stops the read without losing earlier entries.
    let mut truncated = log.clone();
    truncated.truncate(log.len() - 3);
    let entries = store.decode_entries(&truncated);
    assert_eq!(entries, vec![b"first message".to_vec(), b"second message".to_vec()]);

    // The wrong key reads nothing.
    let other = HistoryStorage::new("unused".to_string(), &[6u8; 32]);
    assert!(other.decode_entries(&log).is_empty());
}

#[test]
fn test_screen_pixel_sampling() {
    // A 2x2 frame: red, green / blue, white.
    let frame = DecodedFrame {
        width: 2,
        height: 2,
        rgb: vec![255, 0, 0, 0, 255, 0, 0, 0, 255, 255, 255, 255],
    };
    assert_eq!(frame.pixel(0, 0), (255, 0, 0));
    assert_eq!(frame.pixel(1, 0), (0, 255, 0));
    assert_eq!(frame.pixel(0, 1), (0, 0, 255));
    assert_eq!(frame.pixel(1, 1), (255, 255, 255));
    assert_eq!(frame.pixel(2, 0), (0, 0, 0), "out of bounds reads black");

    // Identity-sized render area maps one to one; margins are black.
    assert_eq!(sample_pixel(&frame, 0, 0, 0, 0, 2, 2), (255, 0, 0));
    assert_eq!(sample_pixel(&frame, 1, 1, 0, 0, 2, 2), (255, 255, 255));
    assert_eq!(sample_pixel(&frame, 0, 0, 1, 1, 2, 2), (0, 0, 0));
    // Upscaling doubles each source pixel.
    assert_eq!(sample_pixel(&frame, 3, 3, 0, 0, 4, 4), (255, 255, 255));

    let widget = ScreenWidget::new(&frame);
    assert_eq!(widget.frame.width, 2);
}

#[test]
fn test_bgra_conversion_reorders_channels() {
    // One BGRA pixel: blue=1, green=2, red=3, alpha=9.
    let bgra = [1u8, 2, 3, 9];
    let rgb = bgra_to_rgb_scaled(&bgra, 1, 1, 4, 1, 1);
    assert_eq!(rgb, vec![3, 2, 1]);

    // Downscale 2x1 to 1x1: nearest neighbour picks the left pixel.
    let bgra2 = [1u8, 2, 3, 9, 10, 20, 30, 9];
    let rgb2 = bgra_to_rgb_scaled(&bgra2, 2, 1, 8, 1, 1);
    assert_eq!(rgb2, vec![3, 2, 1]);

    // A short buffer yields black for the missing pixels.
    let rgb3 = bgra_to_rgb_scaled(&bgra, 2, 1, 8, 2, 1);
    assert_eq!(rgb3, vec![3, 2, 1, 0, 0, 0]);
}

#[test]
fn test_transfer_chunk_assembly() {
    let offer = wsp::protocol::FileOffer {
        file_id: "f1".to_string(),
        filename: "notes.txt".to_string(),
        size: 6,
        checksum: String::new(),
        total_chunks: 2,
    };
    let mut t = ActiveTransfer {
        offer,
        chunks_received: vec![None, None],
        save_path: "notes.txt".to_string(),
        chunks_done: 0,
    };
    assert!(!t.is_complete());
    assert!(t.store_chunk(1, vec![4, 5, 6]));
    assert!(!t.store_chunk(1, vec![9, 9, 9]), "duplicate chunks are ignored");
    assert!(!t.store_chunk(7, vec![0]), "out-of-range chunks are ignored");
    assert!(!t.is_complete());
    assert!(t.store_chunk(0, vec![1, 2, 3]));
    assert!(t.is_complete());
    assert_eq!(t.chunks_received[0].as_deref(), Some(&[1u8, 2, 3][..]));
    assert_eq!(t.chunks_received[1].as_deref(), Some(&[4u8, 5, 6][..]));
}

#[test]
fn test_plain_message_constructors() {
    let m = PlainMessage::new("s1".to_string(), "hello".to_string());
    assert_eq!(m.sender, "s1");
    assert_eq!(m.content, "hello");
    assert!(!m.direct && !m.system);

    let m = PlainMessage::direct("s1".to_string(), "psst".to_string());
    assert!(m.direct && !m.system);

    let m = PlainMessage::nickname("s1".to_string(), "ada".to_string());
    assert!(m.system);
    assert_eq!(m.nickname.as_deref(), Some("ada"));

    let m = PlainMessage::group("s1".to_string(), "hi".to_string(), "g1".to_string());
    assert_eq!(m.group_id.as_deref(), Some("g1"));

    let m = PlainMessage::call_accept("s1".to_string(), false);
    assert_eq!(m.call_accept, Some(false));
    assert!(m.direct && m.system);

    let m = PlainMessage::read_receipt("s1".to_string(), "mid".to_string(), true);
    assert_eq!(m.read_receipt.as_deref(), Some("mid"));

    let m = PlainMessage::file_response("s1".to_string(), "fid".to_string(), true, true);
    assert_eq!(m.content, "fid");
    assert_eq!(m.file_response, Some(true));

    let s = wsp::protocol::Session::new("sess".to_string());
    assert_eq!(s.session_id, "sess");
    assert!(s.peer_id.is_none() && s.shared_secret.is_none());
}
