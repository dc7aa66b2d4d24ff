use taior::builder::{BuildStep, CircuitBuilder};
use chacha20poly1305::aead::{Aead, KeyInit};
use chacha20poly1305::ChaCha20Poly1305;
use taior::circuit::{message_nonce_of, Circuit, CircuitError, CircuitNode, OnionEncryptor};
use taior::identity::TaiorAddress;
use taior::packet::pad_payload;

fn node(fill: u8) -> CircuitNode {
    CircuitNode {
        address: TaiorAddress::generate().1,
        shared_key: vec![fill; 32],
        nonce: vec![fill; 12],
    }
}

/// Runs a construction to its end, answering each question with the
/// candidate at `pick` (counted from the front, wrapping around).
fn drive(builder: &CircuitBuilder, target_hops: usize, pick: usize) -> Result<Circuit, CircuitError> {
    let mut step = builder.start_build(target_hops);
    loop {
        match step {
            BuildStep::Ask(draft, query) => {
                assert!(query.candidates.len() >= 2);
                let answer = query.candidates[pick % query.candidates.len()].clone();
                step = builder.resume_build(draft, Some(answer));
            }
            BuildStep::Finished(result) => return result,
        }
    }
}

fn pool(names: &[&str]) -> CircuitBuilder {
    let mut builder = CircuitBuilder::new(1, 5, 600);
    for name in names {
        builder.add_node(name.to_string(), TaiorAddress::generate().1);
    }
    builder
}

#[test]
fn test_circuit_creation() {
    let nodes = vec![
        CircuitNode {
            address: TaiorAddress::generate().1,
            shared_key: vec![0u8; 32],
            nonce: vec![0u8; 12],
        },
        CircuitNode {
            address: TaiorAddress::generate().1,
            shared_key: vec![1u8; 32],
            nonce: vec![1u8; 12],
        },
    ];

    let circuit = Circuit::new(nodes, 3600);
    assert_eq!(circuit.hop_count(), 2);
    assert!(!circuit.is_expired());
}

#[test]
fn test_onion_encryption() {
    let nodes = vec![CircuitNode {
        address: TaiorAddress::generate().1,
        shared_key: vec![0u8; 32],
        nonce: vec![0u8; 12],
    }];

    let circuit = Circuit::new(nodes, 3600);
    let mut encryptor = OnionEncryptor::new(circuit);

    let payload = b"test message";
    let encrypted = encryptor.encrypt_onion(payload).unwrap();

    assert_ne!(encrypted, payload);
    assert!(encrypted.len() > payload.len());
}

#[test]
fn circuit_expires_after_its_time_to_live() {
    let circuit = Circuit::with_id(vec![node(1)], 600, [7u8; 16], 1000);
    assert!(!circuit.is_expired_at(1000));
    assert!(!circuit.is_expired_at(1600));
    assert!(circuit.is_expired_at(1601));
    assert!(!circuit.is_expired_at(0));
    assert_eq!(circuit.id, [7u8; 16]);
    assert_eq!(circuit.created_at, 1000);
}

#[test]
fn circuit_with_unbounded_life_never_expires() {
    let circuit = Circuit::with_id(vec![node(1)], u64::MAX, [0u8; 16], 5);
    assert!(!circuit.is_expired());
    assert!(!circuit.is_expired_at(u64::MAX));
}

#[test]
fn expired_circuit_refuses_to_encrypt() {
    let circuit = Circuit::with_id(vec![node(1), node(2)], 10, [0u8; 16], 100);
    let mut encryptor = OnionEncryptor::new(circuit);
    assert!(matches!(encryptor.encrypt_onion_at(b"payload", 111), Err(CircuitError::CircuitExpired)));
    assert!(matches!(encryptor.encrypt_onion_at(b"", 1_000_000), Err(CircuitError::CircuitExpired)));
    // A refusal uses up no message number.
    assert_eq!(encryptor.next_message(), 0);
    assert!(encryptor.encrypt_onion_at(b"payload", 110).is_ok());
    assert_eq!(encryptor.next_message(), 1);
    // A circuit that was created long ago and lives ten seconds has expired by now.
    assert!(matches!(encryptor.encrypt_onion(b"payload"), Err(CircuitError::CircuitExpired)));
}

#[test]
fn expired_circuit_refuses_whatever_the_payload_and_the_path() {
    for hops in 0..4u8 {
        let nodes = (0..hops).map(node).collect();
        let mut encryptor = OnionEncryptor::new(Circuit::with_id(nodes, 600, [0u8; 16], 1000));
        for len in [0usize, 1, 16, 1000] {
            let result = encryptor.encrypt_onion_at(&vec![7u8; len], 1601);
            assert!(matches!(result, Err(CircuitError::CircuitExpired)));
        }
        assert!(encryptor.encrypt_onion_at(b"in time", 1600).is_ok());
    }
}

#[test]
fn two_relays_round_trip_with_lengths() {
    let nodes = vec![
        CircuitNode {
            address: TaiorAddress("taior://a".into()),
            shared_key: vec![0u8; 32],
            nonce: vec![0u8; 12],
        },
        CircuitNode {
            address: TaiorAddress("taior://b".into()),
            shared_key: vec![1u8; 32],
            nonce: vec![1u8; 12],
        },
    ];
    let mut encryptor = OnionEncryptor::new(Circuit::new(nodes, 3600));
    let onion = encryptor.encrypt_onion(b"test message").unwrap();
    assert_eq!(onion.len(), 44);
    let middle = encryptor.decrypt_layer(&onion, 0, 0).unwrap();
    assert_eq!(middle.len(), 28);
    assert_eq!(encryptor.decrypt_layer(&middle, 1, 0).unwrap(), b"test message".to_vec());
}

#[test]
fn every_encryption_takes_a_number_of_its_own() {
    let circuit = Circuit::with_id(vec![node(1), node(2)], u64::MAX, [0u8; 16], 0);
    let mut encryptor = OnionEncryptor::new(circuit);
    let first = encryptor.encrypt_onion_at(b"same payload", 1).unwrap();
    let second = encryptor.encrypt_onion_at(b"same payload", 1).unwrap();
    let third = encryptor.encrypt_onion(b"same payload").unwrap();
    assert_eq!(encryptor.next_message(), 3);
    // The same payload never gives the same bytes twice.
    assert_ne!(first, second);
    assert_ne!(first, third);
    assert_ne!(second, third);
    // Each onion opens under its own number, and under no other.
    for (number, onion) in [(0u64, &first), (1, &second), (2, &third)] {
        for other in 0..3u64 {
            let opened = encryptor.decrypt_layer(onion, 0, other);
            assert_eq!(opened.is_ok(), number == other);
        }
        let inner = encryptor.decrypt_layer(onion, 0, number).unwrap();
        assert_eq!(encryptor.decrypt_layer(&inner, 1, number).unwrap(), b"same payload".to_vec());
    }
}

#[test]
fn used_up_message_numbers_refuse_to_encrypt() {
    let circuit = Circuit::with_id(vec![node(1)], u64::MAX, [0u8; 16], 0);
    let mut last = OnionEncryptor::for_message(circuit.clone(), u64::MAX - 1);
    let onion = last.encrypt_onion_at(b"the last message", 1).unwrap();
    assert_eq!(last.decrypt_layer(&onion, 0, u64::MAX - 1).unwrap(), b"the last message".to_vec());
    assert_eq!(last.next_message(), u64::MAX);
    assert!(matches!(last.encrypt_onion_at(b"one more", 1), Err(CircuitError::CircuitExpired)));
    assert!(matches!(last.encrypt_onion(b"one more"), Err(CircuitError::CircuitExpired)));
    assert_eq!(last.next_message(), u64::MAX);
    let mut spent = OnionEncryptor::for_message(circuit, u64::MAX);
    assert!(matches!(spent.encrypt_onion_at(b"", 0), Err(CircuitError::CircuitExpired)));
}

#[test]
fn onion_peels_layer_by_layer_from_the_head() {
    let circuit = Circuit::with_id(vec![node(1), node(2), node(3)], 600, [0u8; 16], 50);
    let mut encryptor = OnionEncryptor::new(circuit);
    let payload = b"the innermost payload".to_vec();
    let onion = encryptor.encrypt_onion_at(&payload, 60).unwrap();
    assert_eq!(onion.len(), payload.len() + 3 * 16);

    let after_first = encryptor.decrypt_layer(&onion, 0, 0).unwrap();
    assert_eq!(after_first.len(), payload.len() + 2 * 16);
    let after_second = encryptor.decrypt_layer(&after_first, 1, 0).unwrap();
    assert_eq!(after_second.len(), payload.len() + 16);
    let after_third = encryptor.decrypt_layer(&after_second, 2, 0).unwrap();
    assert_eq!(after_third, payload);
}

#[test]
fn onion_does_not_peel_out_of_order() {
    let circuit = Circuit::with_id(vec![node(1), node(2)], 600, [0u8; 16], 50);
    let mut encryptor = OnionEncryptor::new(circuit);
    let onion = encryptor.encrypt_onion_at(b"abc", 60).unwrap();
    match encryptor.decrypt_layer(&onion, 1, 0) {
        Err(CircuitError::EncryptionError(text)) => assert_eq!(text, "Error"),
        other => panic!("unexpected: {:?}", other),
    }
}

#[test]
fn onion_over_one_layer_is_one_sealing() {
    let key = vec![9u8; 32];
    let nonce = vec![4u8; 12];
    let only = CircuitNode { address: TaiorAddress::generate().1, shared_key: key, nonce };
    let circuit = Circuit::with_id(vec![only], 600, [0u8; 16], 0);
    let mut encryptor = OnionEncryptor::for_message(circuit, 3);
    let onion = encryptor.encrypt_onion_at(b"same input", 1).unwrap();
    assert_ne!(&onion[..10], b"same input");
    let cipher = ChaCha20Poly1305::new(chacha20poly1305::Key::from_slice(&[9u8; 32]));
    let nonce = message_nonce_of(&[4u8; 12], 3);
    let expected = cipher
        .encrypt(chacha20poly1305::Nonce::from_slice(&nonce), &b"same input"[..])
        .unwrap();
    assert_eq!(onion, expected);
}

#[test]
fn first_message_is_sealed_under_the_base_nonce() {
    let circuit = Circuit::with_id(vec![node(5)], 600, [0u8; 16], 0);
    let mut encryptor = OnionEncryptor::new(circuit);
    let onion = encryptor.encrypt_onion_at(b"first", 1).unwrap();
    let cipher = ChaCha20Poly1305::new(chacha20poly1305::Key::from_slice(&[5u8; 32]));
    let expected =
        cipher.encrypt(chacha20poly1305::Nonce::from_slice(&[5u8; 12]), &b"first"[..]).unwrap();
    assert_eq!(onion, expected);
}

#[test]
fn message_numbers_change_the_last_eight_nonce_bytes() {
    let base = [0xf0u8; 12];
    assert_eq!(message_nonce_of(&base, 0), base.to_vec());
    assert_eq!(
        message_nonce_of(&base, 1),
        vec![0xf0, 0xf0, 0xf0, 0xf0, 0xf1, 0xf0, 0xf0, 0xf0, 0xf0, 0xf0, 0xf0, 0xf0]
    );
    assert_eq!(
        message_nonce_of(&base, 0x0102_0304_0506_0708),
        vec![0xf0, 0xf0, 0xf0, 0xf0, 0xf8, 0xf7, 0xf6, 0xf5, 0xf4, 0xf3, 0xf2, 0xf1]
    );
    assert_eq!(
        message_nonce_of(&[0u8; 8], u64::MAX),
        vec![0xffu8; 8]
    );
}

#[test]
fn each_message_of_a_circuit_has_its_own_nonce() {
    let circuit = Circuit::with_id(vec![node(1), node(2)], 600, [0u8; 16], 0);
    let mut first = OnionEncryptor::for_message(circuit.clone(), 0);
    let mut later = OnionEncryptor::for_message(circuit, 256);
    let a = first.encrypt_onion_at(b"same payload", 1).unwrap();
    let b = later.encrypt_onion_at(b"same payload", 1).unwrap();
    assert_ne!(a, b);
    // A layer opens under its own message number only.
    assert!(first.decrypt_layer(&a, 0, 0).is_ok());
    assert!(first.decrypt_layer(&a, 0, 256).is_err());
    let inner = first.decrypt_layer(&b, 0, 256).unwrap();
    assert_eq!(first.decrypt_layer(&inner, 1, 256).unwrap(), b"same payload".to_vec());
}

#[test]
fn onion_over_no_layer_is_the_payload() {
    let mut encryptor = OnionEncryptor::new(Circuit::with_id(vec![], 600, [0u8; 16], 0));
    assert_eq!(encryptor.encrypt_onion_at(b"bare", 1).unwrap(), b"bare".to_vec());
}

#[test]
fn decrypt_layer_rejects_an_index_past_the_end() {
    let encryptor = OnionEncryptor::new(Circuit::with_id(vec![node(1)], 600, [0u8; 16], 0));
    match encryptor.decrypt_layer(b"anything", 1, 0) {
        Err(CircuitError::EncryptionError(text)) => assert_eq!(text, "Hop index fuera de rango"),
        other => panic!("unexpected: {:?}", other),
    }
}

#[test]
fn decrypt_layer_rejects_a_tampered_layer() {
    let mut encryptor = OnionEncryptor::new(Circuit::with_id(vec![node(1)], 600, [0u8; 16], 0));
    let onion = encryptor.encrypt_onion_at(b"payload", 1).unwrap();
    assert_eq!(encryptor.decrypt_layer(&onion, 0, 0).unwrap(), b"payload".to_vec());
    // Any altered bit, and any truncation, is refused.
    for bit in 0..(onion.len() * 8) {
        let mut altered = onion.clone();
        altered[bit / 8] ^= 1 << (bit % 8);
        assert!(matches!(
            encryptor.decrypt_layer(&altered, 0, 0),
            Err(CircuitError::EncryptionError(_))
        ));
    }
    for len in 0..onion.len() {
        assert!(matches!(
            encryptor.decrypt_layer(&onion[..len], 0, 0),
            Err(CircuitError::EncryptionError(_))
        ));
    }
    assert!(matches!(encryptor.decrypt_layer(b"short", 0, 0), Err(CircuitError::EncryptionError(_))));
}

#[test]
fn build_of_four_hops_from_four_nodes() {
    let builder = pool(&["n1", "n2", "n3", "n4"]);
    for pick in 0..4 {
        let circuit = drive(&builder, 4, pick).unwrap();
        assert_eq!(circuit.hop_count(), 4);
        assert_eq!(circuit.ttl_seconds, 600);
        for i in 0..4 {
            assert_eq!(circuit.nodes[i].shared_key.len(), 32);
            assert_eq!(circuit.nodes[i].nonce.len(), 12);
            for j in (i + 1)..4 {
                assert_ne!(circuit.nodes[i].address, circuit.nodes[j].address);
            }
        }
        let padded = pad_payload(b"0123456789", 512);
        let onion = OnionEncryptor::new(circuit).encrypt_onion(&padded).unwrap();
        assert_eq!(onion.len(), 512 + 4 * 16);
    }
}

#[test]
fn build_beyond_the_pool_is_refused() {
    let builder = pool(&["n1", "n2"]);
    assert!(matches!(drive(&builder, 5, 0), Err(CircuitError::InsufficientNodes(5))));
    assert!(matches!(drive(&builder, 3, 0), Err(CircuitError::InsufficientNodes(3))));
}

#[test]
fn build_is_capped_at_the_maximum() {
    let builder = pool(&["a", "b", "c", "d", "e", "f", "g"]);
    let circuit = drive(&builder, 40, 1).unwrap();
    assert_eq!(circuit.hop_count(), 5);
}

#[test]
fn build_below_the_minimum_is_refused() {
    let mut builder = CircuitBuilder::new(3, 5, 600);
    for name in ["a", "b", "c", "d"] {
        builder.add_node(name.to_string(), TaiorAddress::generate().1);
    }
    assert!(matches!(drive(&builder, 2, 0), Err(CircuitError::InsufficientNodes(3))));
    assert_eq!(drive(&builder, 3, 0).unwrap().hop_count(), 3);
}

#[test]
fn build_takes_the_only_node_without_asking() {
    let builder = pool(&["solo"]);
    match builder.start_build(1) {
        BuildStep::Finished(Ok(circuit)) => assert_eq!(circuit.hop_count(), 1),
        _ => panic!("a single relay leaves nothing to choose"),
    }
}

#[test]
fn build_offers_only_unused_names() {
    let builder = pool(&["n1", "n2", "n3"]);
    let (draft, query) = match builder.start_build_at(3, 77) {
        BuildStep::Ask(draft, query) => (draft, query),
        _ => panic!("three relays leave a choice"),
    };
    assert_eq!(query.candidates, vec!["n1", "n2", "n3"]);
    assert_eq!(query.policy.max_hops, 3);
    assert!(query.policy.avoid_loops);
    let (draft, query) = match builder.resume_build_at(draft, Some("n2".to_string()), 77) {
        BuildStep::Ask(draft, query) => (draft, query),
        _ => panic!("two relays leave a choice"),
    };
    assert_eq!(query.candidates, vec!["n1", "n3"]);
    assert_eq!(query.policy.max_hops, 2);
    match builder.resume_build_at(draft, Some("n3".to_string()), 77) {
        BuildStep::Finished(Ok(circuit)) => {
            assert_eq!(circuit.hop_count(), 3);
            assert_eq!(circuit.created_at, 77);
        }
        _ => panic!("the last relay is taken without a question"),
    }
}

#[test]
fn build_refuses_an_answer_that_was_not_offered() {
    let builder = pool(&["n1", "n2", "n3"]);
    let first = |builder: &CircuitBuilder| match builder.start_build(3) {
        BuildStep::Ask(draft, _) => draft,
        _ => panic!("three relays leave a choice"),
    };
    let draft = match builder.resume_build(first(&builder), Some("n1".to_string())) {
        BuildStep::Ask(draft, _) => draft,
        _ => panic!("two relays leave a choice"),
    };
    // A name that the path already holds.
    assert!(matches!(
        builder.resume_build(draft, Some("n1".to_string())),
        BuildStep::Finished(Err(CircuitError::InsufficientNodes(3)))
    ));
    // A name unknown to the pool.
    assert!(matches!(
        builder.resume_build(first(&builder), Some("stranger".to_string())),
        BuildStep::Finished(Err(CircuitError::InsufficientNodes(3)))
    ));
    // No answer at all.
    assert!(matches!(
        builder.resume_build(first(&builder), None),
        BuildStep::Finished(Err(CircuitError::InsufficientNodes(3)))
    ));
}

#[test]
fn pool_registers_replaces_and_removes() {
    let mut builder = CircuitBuilder::new(1, 5, 600);
    assert_eq!(builder.node_count(), 0);
    builder.add_node("a".to_string(), TaiorAddress("taior://first".to_string()));
    builder.add_node("b".to_string(), TaiorAddress("taior://second".to_string()));
    builder.add_node("a".to_string(), TaiorAddress("taior://third".to_string()));
    assert_eq!(builder.node_count(), 2);
    builder.remove_node("b");
    builder.remove_node("missing");
    assert_eq!(builder.node_count(), 1);
    match builder.start_build(1) {
        BuildStep::Finished(Ok(circuit)) => {
            assert_eq!(circuit.nodes[0].address.as_str(), "taior://third")
        }
        _ => panic!("one relay is left"),
    }
}
