use taior::circuit::{Circuit, CircuitNode, OnionEncryptor};
use taior::identity::TaiorAddress;
use taior::packet::{pad_payload, TaiorPacket};
use taior::text::decimal;

fn payload(len: usize) -> Vec<u8> {
    (0..len).map(|i| (i * 7 + 3) as u8).collect()
}

#[test]
fn padding_reaches_every_target_at_or_above_the_length() {
    for len in 0..40 {
        let p = payload(len);
        for target in len..(len + 40) {
            let padded = pad_payload(&p, target);
            assert_eq!(padded.len(), target.max(len));
            assert_eq!(&padded[..len], &p[..]);
        }
    }
}

#[test]
fn padding_below_the_length_cuts_to_the_target() {
    for len in 1..40 {
        let p = payload(len);
        for target in 1..len {
            assert_eq!(pad_payload(&p, target), p[..target].to_vec());
        }
        assert_eq!(pad_payload(&p, 0), p);
    }
}

#[test]
fn packets_recover_their_payload() {
    for len in [0usize, 1, 15, 16, 17, 63, 64] {
        let p = payload(len);
        for padding in [0usize, 64, 65, 256, 512] {
            let packet = TaiorPacket::new(&p, 1, padding, false).unwrap();
            let expected = if padding == 0 { len } else { padding };
            assert_eq!(packet.encrypted_payload.len(), expected + 16);
            let plain = packet.decrypt_with_ikm().unwrap();
            assert_eq!(plain.len(), expected);
            assert_eq!(&plain[..len], &p[..]);
            let wire = packet.to_wire().unwrap();
            let back = TaiorPacket::from_wire(&wire, 1, false).unwrap();
            assert_eq!(back.decrypt_with_ikm().unwrap(), plain);
        }
    }
}

#[test]
fn onions_of_every_depth_peel_to_the_payload() {
    for depth in 0..=5usize {
        let nodes: Vec<CircuitNode> = (0..depth)
            .map(|i| CircuitNode {
                address: TaiorAddress::generate().1,
                shared_key: vec![i as u8 + 1; 32],
                nonce: vec![0x80 | i as u8; 12],
            })
            .collect();
        let circuit = Circuit::with_id(nodes, 600, [0u8; 16], 10);
        for start in [0u64, 1, 255, 256, u64::MAX - 3] {
            let mut encryptor = OnionEncryptor::for_message(circuit.clone(), start);
            for (sent, len) in [0usize, 1, 100].into_iter().enumerate() {
                let p = payload(len);
                let message = start + sent as u64;
                assert_eq!(encryptor.next_message(), message);
                let mut data = encryptor.encrypt_onion_at(&p, 20).unwrap();
                assert_eq!(data.len(), len + 16 * depth);
                for hop in 0..depth {
                    data = encryptor.decrypt_layer(&data, hop, message).unwrap();
                    assert_eq!(data.len(), len + 16 * (depth - hop - 1));
                }
                assert_eq!(data, p);
            }
        }
    }
}

#[test]
fn onion_layers_are_ordered_from_the_tail() {
    let nodes = vec![
        CircuitNode { address: TaiorAddress::generate().1, shared_key: vec![1; 32], nonce: vec![1; 12] },
        CircuitNode { address: TaiorAddress::generate().1, shared_key: vec![2; 32], nonce: vec![2; 12] },
    ];
    let mut both = OnionEncryptor::new(Circuit::with_id(nodes.clone(), 600, [0u8; 16], 0));
    let mut tail = OnionEncryptor::new(Circuit::with_id(vec![nodes[1].clone()], 600, [0u8; 16], 0));
    let mut head = OnionEncryptor::new(Circuit::with_id(vec![nodes[0].clone()], 600, [0u8; 16], 0));
    let inner = tail.encrypt_onion_at(b"payload", 0).unwrap();
    let outer = head.encrypt_onion_at(&inner, 0).unwrap();
    assert_eq!(both.encrypt_onion_at(b"payload", 0).unwrap(), outer);
}

#[test]
fn decimal_matches_the_standard_formatting() {
    let mut n: usize = 1;
    for _ in 0..19 {
        for value in [n - 1, n, n + 1, n * 9] {
            assert_eq!(decimal(value), value.to_string());
        }
        n *= 10;
    }
}

#[test]
fn addresses_of_many_keys_are_well_formed() {
    for i in 0..=255u8 {
        let address = TaiorAddress::from_public_key(&[i; 32]);
        let text = address.as_str();
        assert_eq!(text.len(), 72);
        assert_eq!(&text[..8], "taior://");
        assert!(text[8..].bytes().all(|b| b.is_ascii_digit() || (b'a'..=b'f').contains(&b)));
    }
}
