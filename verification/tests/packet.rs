use chacha20poly1305::aead::{Aead, KeyInit};
use chacha20poly1305::ChaCha20Poly1305;
use hkdf::Hkdf;
use sha2::Sha256;
use taior::modes::ModeConfig;
use taior::packet::{
    derive_key_from_ikm, derive_packet_key, pad_payload, pad_payload_with, TaiorPacket,
};

#[test]
fn pad_reaches_the_target() {
    for target in [5usize, 6, 64, 512, 4096] {
        let padded = pad_payload(b"hello", target);
        assert_eq!(padded.len(), target);
        assert_eq!(&padded[..5], b"hello");
    }
    assert_eq!(pad_payload(b"", 0), Vec::<u8>::new());
    assert_eq!(pad_payload(b"", 3).len(), 3);
}

#[test]
fn pad_with_zero_target_leaves_the_payload() {
    assert_eq!(pad_payload(b"hello", 0), b"hello".to_vec());
    assert_eq!(pad_payload_with(b"hello", 0, b""), b"hello".to_vec());
}

#[test]
fn pad_cuts_a_payload_longer_than_a_positive_target() {
    assert_eq!(pad_payload(b"hello world", 5), b"hello".to_vec());
    assert_eq!(pad_payload_with(b"hello world", 11, b""), b"hello world".to_vec());
    assert_eq!(pad_payload_with(b"hello world", 1, b""), b"h".to_vec());
}

#[test]
fn pad_with_given_filler_is_exact() {
    assert_eq!(pad_payload_with(b"ab", 5, b"xyz"), b"abxyz".to_vec());
    assert_eq!(pad_payload_with(b"", 2, &[0, 255]), vec![0u8, 255]);
}

#[test]
fn pad_filler_is_drawn_afresh() {
    let first = pad_payload(b"", 64);
    let second = pad_payload(b"", 64);
    assert_ne!(first, second);
}

#[test]
fn key_derivation_is_hkdf_sha256() {
    let ikm = [7u8; 32];
    let (key, nonce) = derive_key_from_ikm(&ikm).unwrap();
    let hk = Hkdf::<Sha256>::new(None, &ikm);
    let mut okm = [0u8; 44];
    hk.expand(b"taior-packet-v1", &mut okm).unwrap();
    assert_eq!(&key[..], &okm[..32]);
    assert_eq!(&nonce[..], &okm[32..]);
    assert_ne!(&key[..], &ikm[..]);
}

#[test]
fn key_derivation_takes_longer_material_whole() {
    let long = [1u8; 40];
    let (key, _) = derive_key_from_ikm(&long).unwrap();
    let (short_key, _) = derive_key_from_ikm(&long[..32]).unwrap();
    assert_ne!(key, short_key);
}

#[test]
fn key_derivation_rejects_short_material() {
    for len in [0usize, 1, 31] {
        let err = derive_key_from_ikm(&vec![0u8; len]).unwrap_err();
        assert_eq!(err, "IKM too short: expected at least 32 bytes");
    }
    assert!(derive_key_from_ikm(&[0u8; 32]).is_ok());
}

#[test]
fn fresh_packet_key_matches_its_material() {
    let (key, nonce, ikm) = derive_packet_key();
    let (again_key, again_nonce) = derive_key_from_ikm(&ikm).unwrap();
    assert_eq!(key, again_key);
    assert_eq!(nonce, again_nonce);
    let (_, _, other) = derive_packet_key();
    assert_ne!(ikm, other);
}

#[test]
fn fast_mode_packet_of_hello() {
    let config = ModeConfig::fast();
    let packet = TaiorPacket::new(b"hello", config.hops, config.padding_size, false).unwrap();
    assert_eq!(packet.encrypted_payload.len(), 64 + 16);
    assert_eq!(packet.ikm.len(), 32);
    assert_eq!(packet.ttl, 1);
    assert!(!packet.is_cover);
    let plain = packet.decrypt_with_ikm().unwrap();
    assert_eq!(plain.len(), 64);
    assert_eq!(&plain[..5], b"hello");
    assert_eq!(packet.size(), 64 + 16 + 32);
}

#[test]
fn packet_without_padding_keeps_the_payload_length() {
    let packet = TaiorPacket::new(b"exactly this", 3, 0, true).unwrap();
    assert_eq!(packet.encrypted_payload.len(), 12 + 16);
    assert!(packet.is_cover);
    assert_eq!(packet.ttl, 3);
    assert_eq!(packet.decrypt_with_ikm().unwrap(), b"exactly this".to_vec());
}

#[test]
fn packet_cut_by_small_padding_recovers_a_prefix() {
    let packet = TaiorPacket::new(b"hello world", 1, 5, false).unwrap();
    assert_eq!(packet.encrypted_payload.len(), 5 + 16);
    assert_eq!(packet.decrypt_with_ikm().unwrap(), b"hello".to_vec());
}

#[test]
fn packet_with_given_material_is_the_cipher_output() {
    let ikm = [3u8; 32];
    let packet = TaiorPacket::with_ikm(b"padded already", &ikm, 9, false).unwrap();
    let (key, nonce) = derive_key_from_ikm(&ikm).unwrap();
    let cipher = ChaCha20Poly1305::new(chacha20poly1305::Key::from_slice(&key));
    let expected = cipher
        .encrypt(chacha20poly1305::Nonce::from_slice(&nonce), &b"padded already"[..])
        .unwrap();
    assert_eq!(packet.encrypted_payload, expected);
    assert_ne!(&packet.encrypted_payload[..14], b"padded already");
    assert_eq!(packet.ikm, ikm.to_vec());
    assert_eq!(packet.ttl, 9);
    assert_eq!(packet.decrypt(&key, &nonce).unwrap(), b"padded already".to_vec());
}

#[test]
fn packet_does_not_open_under_another_key() {
    let packet = TaiorPacket::new(b"secret", 1, 64, false).unwrap();
    let (key, nonce) = derive_key_from_ikm(&packet.ikm).unwrap();
    let mut wrong = key;
    wrong[0] ^= 1;
    assert_eq!(packet.decrypt(&wrong, &nonce).unwrap_err(), "decrypt error: Error");
    assert!(packet.decrypt(&key, &nonce).is_ok());
}

#[test]
fn packet_rejects_tampering() {
    let mut packet = TaiorPacket::new(b"secret", 1, 64, false).unwrap();
    packet.encrypted_payload[10] ^= 0x80;
    assert_eq!(packet.decrypt_with_ikm().unwrap_err(), "decrypt error: Error");
}

#[test]
fn packet_rejects_short_keying_material() {
    let mut packet = TaiorPacket::new(b"secret", 1, 64, false).unwrap();
    packet.ikm.truncate(31);
    assert_eq!(
        packet.decrypt_with_ikm().unwrap_err(),
        "IKM too short: expected at least 32 bytes"
    );
}

#[test]
fn packet_rejects_a_payload_shorter_than_a_tag() {
    let packet = TaiorPacket { encrypted_payload: vec![1, 2, 3], ikm: vec![0; 32], ttl: 1, is_cover: false };
    assert_eq!(packet.decrypt_with_ikm().unwrap_err(), "decrypt error: Error");
}

#[test]
fn cover_flag_does_not_change_the_shape() {
    let real = TaiorPacket::new(b"payload", 2, 256, false).unwrap();
    let cover = TaiorPacket::new(b"payload", 2, 256, true).unwrap();
    assert_eq!(real.encrypted_payload.len(), cover.encrypted_payload.len());
    assert_eq!(real.ikm.len(), cover.ikm.len());
    assert_eq!(real.size(), cover.size());
}

#[test]
fn packet_clone_is_equal_field_by_field() {
    let packet = TaiorPacket::new(b"payload", 2, 64, true).unwrap();
    let copy = packet.clone();
    assert_eq!(copy.encrypted_payload, packet.encrypted_payload);
    assert_eq!(copy.ikm, packet.ikm);
    assert_eq!(copy.ttl, 2);
    assert!(copy.is_cover);
}
