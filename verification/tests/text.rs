use taior::api::SendError;
use taior::circuit::CircuitError;
use taior::cover_traffic::CoverTrafficError;
use taior::packet::{TaiorPacket, WireError};
use taior::text::decimal;
use taior::transport::TransportError;

#[test]
fn decimal_forms() {
    assert_eq!(decimal(0), "0");
    assert_eq!(decimal(7), "7");
    assert_eq!(decimal(10), "10");
    assert_eq!(decimal(909), "909");
    assert_eq!(decimal(1_234_567_890), "1234567890");
    assert_eq!(decimal(usize::MAX), usize::MAX.to_string());
}

#[test]
fn circuit_error_messages() {
    assert_eq!(
        CircuitError::InsufficientNodes(5).message(),
        "No hay suficientes nodos para construir circuito de 5 hops"
    );
    assert_eq!(
        CircuitError::EncryptionError("Error".to_string()).message(),
        "Error de cifrado: Error"
    );
    assert_eq!(CircuitError::CircuitExpired.message(), "Circuito expirado");
    assert_eq!(CircuitError::HopTimeout(12).message(), "Hop 12 no responde");
}

#[test]
fn cover_error_messages() {
    assert_eq!(
        CoverTrafficError::GenerationError("encrypt error: Error".to_string()).message(),
        "Error generando paquete cover: encrypt error: Error"
    );
    assert_eq!(CoverTrafficError::NoCircuit.message(), "Circuito no disponible");
}

#[test]
fn send_error_messages() {
    assert_eq!(SendError::EncryptError("encrypt error: Error".to_string()).message(), "encrypt error: Error");
    assert_eq!(
        SendError::CircuitBuildError(CircuitError::CircuitExpired).message(),
        "Circuit build failed: Circuito expirado"
    );
    assert_eq!(SendError::NoNeighbors.message(), "No neighbors and no circuit");
}

#[test]
fn transport_error_messages() {
    assert_eq!(TransportError::ConnectionFailed("bind".to_string()).message(), "Connection failed: bind");
    assert_eq!(TransportError::SendFailed("x".to_string()).message(), "Send failed: x");
    assert_eq!(TransportError::ReceiveFailed("y".to_string()).message(), "Receive failed: y");
    assert_eq!(
        TransportError::NatTraversalFailed("timeout".to_string()).message(),
        "NAT traversal failed: timeout"
    );
    assert_eq!(TransportError::RelayError("auth expired".to_string()).message(), "Relay error: auth expired");
    let io = std::io::Error::new(std::io::ErrorKind::Other, "socket closed");
    assert_eq!(TransportError::Io(io).message(), "IO error: socket closed");
}

#[test]
fn wire_error_messages() {
    assert_eq!(WireError::TooLong.message(), "payload too long for the length field");
    assert_eq!(WireError::Truncated.message(), "packet ends before its payload");
    assert_eq!(WireError::IkmTooShort.message(), "IKM too short: expected at least 32 bytes");
    assert_eq!(WireError::TrailingBytes.message(), "bytes after the keying material");
}

#[test]
fn wire_form_layout() {
    let packet = TaiorPacket {
        encrypted_payload: vec![0xaa; 258],
        ikm: vec![0x11; 32],
        ttl: 9,
        is_cover: true,
    };
    let wire = packet.to_wire().unwrap();
    assert_eq!(wire.len(), 4 + 258 + 32);
    assert_eq!(&wire[..4], &[0, 0, 1, 2]);
    assert_eq!(&wire[4..262], &[0xaa; 258][..]);
    assert_eq!(&wire[262..], &[0x11; 32][..]);
}

#[test]
fn wire_form_round_trip() {
    let packet = TaiorPacket::new(b"hello", 1, 64, false).unwrap();
    let wire = packet.to_wire().unwrap();
    assert_eq!(wire.len(), 4 + 80 + 32);
    assert_eq!(&wire[..4], &80u32.to_be_bytes());
    // The time to live and the cover flag are the receiver's to set.
    let back = TaiorPacket::from_wire(&wire, 7, true).unwrap();
    assert_eq!(back.encrypted_payload, packet.encrypted_payload);
    assert_eq!(back.ikm, packet.ikm);
    assert_eq!(back.ttl, 7);
    assert!(back.is_cover);
    assert_eq!(&back.decrypt_with_ikm().unwrap()[..5], b"hello");
    let empty = TaiorPacket { encrypted_payload: vec![], ikm: vec![3; 32], ttl: 0, is_cover: false };
    let wire = empty.to_wire().unwrap();
    assert_eq!(wire.len(), 36);
    assert_eq!(TaiorPacket::from_wire(&wire, 0, false).unwrap().ikm, vec![3; 32]);
}

#[test]
fn wire_form_needs_32_bytes_of_keying_material() {
    let short = TaiorPacket { encrypted_payload: vec![1], ikm: vec![0; 31], ttl: 1, is_cover: false };
    assert_eq!(short.to_wire().unwrap_err(), WireError::IkmTooShort);
    let long = TaiorPacket { encrypted_payload: vec![1], ikm: vec![0; 33], ttl: 1, is_cover: false };
    assert_eq!(long.to_wire().unwrap_err(), WireError::TrailingBytes);
}

#[test]
fn wire_reading_rejects_malformed_bytes() {
    let read = |bytes: &[u8]| TaiorPacket::from_wire(bytes, 1, false).map(|p| p.encrypted_payload);
    assert_eq!(read(&[]).unwrap_err(), WireError::Truncated);
    assert_eq!(read(&[0, 0, 0]).unwrap_err(), WireError::Truncated);
    assert_eq!(read(&[0, 0, 0, 5, 1, 2, 3, 4]).unwrap_err(), WireError::Truncated);
    assert_eq!(read(&[0xff, 0xff, 0xff, 0xff, 1]).unwrap_err(), WireError::Truncated);
    assert_eq!(read(&[0, 0, 0, 0]).unwrap_err(), WireError::IkmTooShort);
    let mut frame = vec![0, 0, 0, 2, 9, 9];
    frame.extend_from_slice(&[7u8; 31]);
    assert_eq!(read(&frame).unwrap_err(), WireError::IkmTooShort);
    frame.push(7);
    assert_eq!(read(&frame).unwrap(), vec![9, 9]);
    frame.push(7);
    assert_eq!(read(&frame).unwrap_err(), WireError::TrailingBytes);
}
