//! The packet envelope: padding, per-packet key derivation and sealing.
//!
//! Each packet carries the 32 bytes of input keying material (IKM) from
//! which its key and nonce were derived, so that the one receiver of a direct
//! packet can recreate them without shared state.

use crate::aead::{
    aead_error_text, aead_open, aead_seal, describe_error, open, seal, sealable, Key, Nonce,
    KEY_LEN, NONCE_LEN, TAG_LEN,
};
use crate::bytes::{copy_range, to_array};
use crate::entropy::random_bytes;
use hkdf::Hkdf;
use sha2::Sha256;
use vstd::prelude::*;
use vstd::slice::{slice_subrange, slice_to_vec};
use vstd::string::{StringExecFns, StringSliceAdditionalSpecFns};

verus! {

/// Length of the keying material that a packet carries, in bytes.
pub const IKM_LEN: usize = 32;

/// Length of the key material that is derived per packet: a key and a nonce.
pub const OKM_LEN: usize = 44;

/// The context string of the per-packet key derivation.
pub const PACKET_KDF_INFO: &'static str = "taior-packet-v1";

/// The first `len` bytes of HKDF-SHA256 output for `ikm` with an empty salt
/// and the context `info` (RFC 5869: extract, then expand).
pub uninterp spec fn hkdf_sha256(ikm: Seq<u8>, info: Seq<u8>, len: nat) -> Seq<u8>;

/// The error of `Hkdf::expand`: an opaque unit value.
#[verifier::external_type_specification]
#[verifier::external_body]
pub struct ExInvalidLength(hkdf::InvalidLength);

/// Calls `Hkdf::<Sha256>::new` with no salt and `Hkdf::expand` on a fresh
/// buffer of `len` bytes.
///
/// Trusted, from the source of `hkdf`: `expand` refuses exactly the outputs
/// longer than 255 hash blocks of 32 bytes; otherwise the buffer holds the
/// named output and has the length asked for.
#[verifier::external_body]
pub(crate) fn hkdf_expand(ikm: &[u8], info: &[u8], len: usize) -> (r: Result<
    Vec<u8>,
    hkdf::InvalidLength,
>)
    ensures
        r is Ok <==> len <= 255 * 32,
        r matches Ok(okm) ==> okm@ == hkdf_sha256(ikm@, info@, len as nat) && okm@.len() == len,
{
    let hk = Hkdf::<Sha256>::new(None, ikm);
    let mut okm = vec![0u8; len];
    match hk.expand(info, &mut okm) {
        Ok(()) => Ok(okm),
        Err(e) => Err(e),
    }
}

/// The 44 bytes derived from a packet's keying material.
pub open spec fn packet_okm(ikm: Seq<u8>) -> Seq<u8> {
    hkdf_sha256(ikm, PACKET_KDF_INFO.spec_bytes(), OKM_LEN as nat)
}

/// The key of a packet: the first 32 derived bytes.
pub open spec fn packet_key(ikm: Seq<u8>) -> Seq<u8> {
    packet_okm(ikm).subrange(0, KEY_LEN as int)
}

/// The nonce of a packet: the 12 derived bytes after the key.
pub open spec fn packet_nonce(ikm: Seq<u8>) -> Seq<u8> {
    packet_okm(ikm).subrange(KEY_LEN as int, OKM_LEN as int)
}

/// The message for keying material of fewer than 32 bytes.
pub open spec fn ikm_too_short_text() -> Seq<char> {
    "IKM too short: expected at least 32 bytes"@
}

/// The message for a payload that the cipher refuses to seal.
pub open spec fn encrypt_error_text() -> Seq<char> {
    "encrypt error: "@ + aead_error_text()
}

/// The message for a ciphertext that does not authenticate.
pub open spec fn decrypt_error_text() -> Seq<char> {
    "decrypt error: "@ + aead_error_text()
}

/// The length of a payload once padded: the target, or the payload's own
/// length where the target is zero (no padding).
pub open spec fn padded_len(payload_len: nat, target_len: nat) -> nat {
    if target_len == 0 {
        payload_len
    } else {
        target_len
    }
}

/// The number of filler bytes that padding appends.
pub open spec fn fill_len(payload_len: nat, target_len: nat) -> nat {
    if target_len > payload_len {
        (target_len - payload_len) as nat
    } else {
        0
    }
}

/// The padded form of `payload` with the given filler: the payload as it is
/// for a zero target, its first `target_len` bytes where it is longer than a
/// positive target, and otherwise the payload followed by the filler.
pub open spec fn pad_with(payload: Seq<u8>, target_len: nat, filler: Seq<u8>) -> Seq<u8> {
    if target_len == 0 {
        payload
    } else if target_len <= payload.len() {
        payload.subrange(0, target_len as int)
    } else {
        payload + filler
    }
}

/// `padded` is `payload` padded to `target_len` with some filler: it has the
/// padded length and agrees with the payload wherever both have a byte.
pub open spec fn is_padding_of(padded: Seq<u8>, payload: Seq<u8>, target_len: nat) -> bool {
    &&& padded.len() == padded_len(payload.len(), target_len)
    &&& forall|i: int| 0 <= i < padded.len() && i < payload.len() ==> padded[i] == payload[i]
}

/// The packet envelope. The time-to-live and the cover flag are local
/// metadata: neither is part of what is sealed.
#[derive(Debug)]
pub struct TaiorPacket {
    pub encrypted_payload: Vec<u8>,
    /// Keying material from which the receiver derives the key and nonce.
    pub ikm: Vec<u8>,
    pub ttl: u8,
    pub is_cover: bool,
}

impl Clone for TaiorPacket {
    fn clone(&self) -> (r: Self)
        ensures
            r.encrypted_payload@ == self.encrypted_payload@,
            r.ikm@ == self.ikm@,
            r.ttl == self.ttl,
            r.is_cover == self.is_cover,
    {
        TaiorPacket {
            encrypted_payload: self.encrypted_payload.clone(),
            ikm: self.ikm.clone(),
            ttl: self.ttl,
            is_cover: self.is_cover,
        }
    }
}

/// `sealed` is `padded`, sealed under the key and nonce that the 32 bytes of
/// keying material `ikm` give; opening it with them gives `padded` back.
pub open spec fn sealed_under(ikm: Seq<u8>, sealed: Seq<u8>, padded: Seq<u8>) -> bool {
    &&& ikm.len() == IKM_LEN
    &&& sealed == aead_seal(packet_key(ikm), packet_nonce(ikm), padded)
    &&& sealed.len() == padded.len() + TAG_LEN
    &&& aead_open(packet_key(ikm), packet_nonce(ikm), sealed) == Some(padded)
}

/// `sealed` is some padding of `payload` to `padding_size`, sealed under the
/// key and nonce that `ikm` gives.
pub open spec fn carries(ikm: Seq<u8>, sealed: Seq<u8>, payload: Seq<u8>, padding_size: nat) -> bool {
    exists|padded: Seq<u8>| #[trigger]
        sealed_under(ikm, sealed, padded) && is_padding_of(padded, payload, padding_size)
}

/// Pads `payload` to `target_len` with the bytes of `filler`.
pub fn pad_payload_with(payload: &[u8], target_len: usize, filler: &[u8]) -> (out: Vec<u8>)
    requires
        filler@.len() == fill_len(payload@.len(), target_len as nat),
    ensures
        out@ == pad_with(payload@, target_len as nat, filler@),
        is_padding_of(out@, payload@, target_len as nat),
{
    let keep = if target_len == 0 || target_len > payload.len() {
        payload.len()
    } else {
        target_len
    };
    let mut out: Vec<u8> = Vec::with_capacity(target_len);
    let mut i: usize = 0;
    while i < keep
        invariant
            i <= keep <= payload@.len(),
            out@ == payload@.subrange(0, i as int),
        decreases keep - i,
    {
        out.push(payload[i]);
        i += 1;
    }
    let mut j: usize = 0;
    while j < filler.len()
        invariant
            j <= filler@.len(),
            out@ == payload@.subrange(0, keep as int) + filler@.subrange(0, j as int),
        decreases filler@.len() - j,
    {
        out.push(filler[j]);
        j += 1;
    }
    assert(filler@.subrange(0, filler@.len() as int) == filler@);
    assert(payload@.subrange(0, payload@.len() as int) == payload@);
    out
}

/// Pads `payload` to `target_len` with random bytes.
///
/// A zero target leaves the payload as it is; a positive target below the
/// payload's length cuts the payload to the target.
pub fn pad_payload(payload: &[u8], target_len: usize) -> (out: Vec<u8>)
    ensures
        is_padding_of(out@, payload@, target_len as nat),
        target_len >= payload@.len() ==> out@.len() == target_len,
        exists|filler: Seq<u8>| #[trigger]
            pad_with(payload@, target_len as nat, filler) == out@ && filler.len() == fill_len(
                payload@.len(),
                target_len as nat,
            ),
{
    let need = if target_len > payload.len() {
        target_len - payload.len()
    } else {
        0
    };
    let filler = random_bytes(need);
    pad_payload_with(payload, target_len, filler.as_slice())
}

/// Derives the key and the nonce of a packet from its keying material.
///
/// Fails, with `ikm_too_short_text`, exactly when fewer than 32 bytes are
/// given.
pub fn derive_key_from_ikm(ikm: &[u8]) -> (r: Result<(Key, Nonce), String>)
    ensures
        r is Ok <==> ikm@.len() >= IKM_LEN,
        r matches Ok((key, nonce)) ==> key@ == packet_key(ikm@) && nonce@ == packet_nonce(ikm@),
        r matches Err(e) ==> e@ == ikm_too_short_text(),
{
    if ikm.len() < IKM_LEN {
        return Err(String::from_str("IKM too short: expected at least 32 bytes"));
    }
    match hkdf_expand(ikm, PACKET_KDF_INFO.as_bytes(), OKM_LEN) {
        Ok(okm) => {
            let key: Key = to_array(slice_subrange(okm.as_slice(), 0, KEY_LEN));
            let nonce: Nonce = to_array(slice_subrange(okm.as_slice(), KEY_LEN, OKM_LEN));
            Ok((key, nonce))
        },
        Err(_) => vstd::pervasive::unreached(),
    }
}

/// Draws fresh keying material and derives a packet's key and nonce from it.
pub fn derive_packet_key() -> (r: (Key, Nonce, [u8; 32]))
    ensures
        r.0@ == packet_key(r.2@),
        r.1@ == packet_nonce(r.2@),
{
    let bytes = random_bytes(IKM_LEN);
    let ikm: [u8; 32] = to_array(bytes.as_slice());
    match derive_key_from_ikm(ikm.as_slice()) {
        Ok((key, nonce)) => (key, nonce, ikm),
        Err(_) => vstd::pervasive::unreached(),
    }
}

impl TaiorPacket {
    /// The invariants of an envelope: 32 bytes of keying material, a payload
    /// that has room for its tag, and a time to live of at least one hop.
    pub open spec fn wf(&self) -> bool {
        &&& self.ikm@.len() == IKM_LEN
        &&& self.encrypted_payload@.len() >= TAG_LEN
        &&& self.ttl >= 1
    }

    /// What the packet's own keying material recovers from its payload:
    /// nothing where the material is too short or the payload does not
    /// authenticate.
    pub open spec fn opened(&self) -> Option<Seq<u8>> {
        if self.ikm@.len() < IKM_LEN {
            None
        } else {
            aead_open(packet_key(self.ikm@), packet_nonce(self.ikm@), self.encrypted_payload@)
        }
    }

    /// The payload is `padded`, sealed under the key and nonce that the
    /// packet's 32 bytes of keying material give.
    pub open spec fn seals(&self, padded: Seq<u8>) -> bool {
        sealed_under(self.ikm@, self.encrypted_payload@, padded)
    }

    /// What `new` promises of a packet built from `payload`: it seals some
    /// padding of the payload.
    pub open spec fn built_from(&self, payload: Seq<u8>, padding_size: nat) -> bool {
        carries(self.ikm@, self.encrypted_payload@, payload, padding_size)
    }

    fn assemble(padded: &[u8], key: &Key, nonce: &Nonce, ikm: &[u8; 32], ttl: u8, is_cover: bool) -> (r:
        Result<Self, String>)
        requires
            padded@.len() + TAG_LEN <= usize::MAX,
            key@ == packet_key(ikm@),
            nonce@ == packet_nonce(ikm@),
        ensures
            r is Ok <==> sealable(padded@.len() as int),
            r matches Ok(p) ==> p.seals(padded@) && p.ikm@ == ikm@ && p.ttl == ttl && p.is_cover
                == is_cover,
            r matches Err(e) ==> e@ == encrypt_error_text(),
    {
        match seal(key.as_slice(), nonce.as_slice(), padded) {
            Ok(encrypted_payload) => {
                let packet = Self {
                    encrypted_payload,
                    ikm: slice_to_vec(ikm.as_slice()),
                    ttl,
                    is_cover,
                };
                Ok(packet)
            },
            Err(e) => {
                let text = describe_error(&e);
                Err(String::from_str("encrypt error: ").concat(text.as_str()))
            },
        }
    }

    /// Seals an already padded payload under the key and nonce derived from
    /// `ikm`.
    ///
    /// Fails, with `encrypt_error_text`, exactly when the cipher refuses the
    /// length.
    pub fn with_ikm(padded: &[u8], ikm: &[u8; 32], ttl: u8, is_cover: bool) -> (r: Result<
        Self,
        String,
    >)
        requires
            padded@.len() + TAG_LEN <= usize::MAX,
        ensures
            r is Ok <==> sealable(padded@.len() as int),
            r matches Ok(p) ==> p.seals(padded@) && p.ikm@ == ikm@ && p.ttl == ttl && p.is_cover
                == is_cover,
            r matches Err(e) ==> e@ == encrypt_error_text(),
    {
        match derive_key_from_ikm(ikm.as_slice()) {
            Ok((key, nonce)) => Self::assemble(padded, &key, &nonce, ikm, ttl, is_cover),
            Err(_) => vstd::pervasive::unreached(),
        }
    }

    /// Pads `payload` to `padding_size` with random bytes (not at all for a
    /// zero size), draws fresh keying material and seals the result.
    ///
    /// Fails, with `encrypt_error_text`, exactly when the cipher refuses the
    /// padded length.
    pub fn new(payload: &[u8], ttl: u8, padding_size: usize, is_cover: bool) -> (r: Result<
        Self,
        String,
    >)
        requires
            padded_len(payload@.len(), padding_size as nat) + TAG_LEN <= usize::MAX,
        ensures
            r is Ok <==> sealable(padded_len(payload@.len(), padding_size as nat) as int),
            r matches Ok(p) ==> {
                &&& p.built_from(payload@, padding_size as nat)
                &&& p.encrypted_payload@.len() == padded_len(payload@.len(), padding_size as nat)
                    + TAG_LEN
                &&& p.ikm@.len() == IKM_LEN
                &&& p.ttl == ttl
                &&& p.is_cover == is_cover
                &&& ttl >= 1 ==> p.wf()
            },
            r matches Err(e) ==> e@ == encrypt_error_text(),
    {
        let target = if padding_size > 0 {
            padding_size
        } else {
            payload.len()
        };
        let padded = pad_payload(payload, target);
        let (key, nonce, ikm) = derive_packet_key();
        Self::assemble(padded.as_slice(), &key, &nonce, &ikm, ttl, is_cover)
    }

    /// Opens the payload with the key and nonce derived from the packet's
    /// own keying material. What comes back is one tag shorter than the
    /// payload.
    ///
    /// Fails with `ikm_too_short_text` for keying material of fewer than 32
    /// bytes, and with `decrypt_error_text` where the payload does not
    /// authenticate, as a payload shorter than a tag never does.
    pub fn decrypt_with_ikm(&self) -> (r: Result<Vec<u8>, String>)
        ensures
            match r {
                Ok(plain) => self.opened() == Some(plain@) && plain@.len() + TAG_LEN
                    == self.encrypted_payload@.len(),
                Err(e) => self.opened() is None && e@ == if self.ikm@.len() < IKM_LEN {
                    ikm_too_short_text()
                } else {
                    decrypt_error_text()
                },
            },
            self.ikm@.len() < IKM_LEN || self.encrypted_payload@.len() < TAG_LEN ==> r is Err,
    {
        match derive_key_from_ikm(self.ikm.as_slice()) {
            Ok((key, nonce)) => self.decrypt(&key, &nonce),
            Err(e) => Err(e),
        }
    }

    /// Opens the payload with the given key and nonce. What comes back is
    /// one tag shorter than the payload.
    ///
    /// Fails, with `decrypt_error_text`, exactly when the payload does not
    /// authenticate under them, as a payload shorter than a tag never does.
    pub fn decrypt(&self, key: &Key, nonce: &Nonce) -> (r: Result<Vec<u8>, String>)
        ensures
            match r {
                Ok(plain) => aead_open(key@, nonce@, self.encrypted_payload@) == Some(plain@)
                    && plain@.len() + TAG_LEN == self.encrypted_payload@.len(),
                Err(e) => aead_open(key@, nonce@, self.encrypted_payload@) is None && e@
                    == decrypt_error_text(),
            },
            self.encrypted_payload@.len() < TAG_LEN ==> r is Err,
    {
        match open(key.as_slice(), nonce.as_slice(), self.encrypted_payload.as_slice()) {
            Ok(plain) => Ok(plain),
            Err(e) => {
                let text = describe_error(&e);
                Err(String::from_str("decrypt error: ").concat(text.as_str()))
            },
        }
    }

    /// The bytes that the packet occupies: its payload and its keying
    /// material.
    pub fn size(&self) -> (n: usize)
        requires
            self.encrypted_payload@.len() + self.ikm@.len() <= usize::MAX,
        ensures
            n == self.encrypted_payload@.len() + self.ikm@.len(),
    {
        self.encrypted_payload.len() + self.ikm.len()
    }
}

/// A packet built from a payload that was not cut decrypts, with its own
/// keying material, to a buffer that begins with the payload.
pub proof fn lemma_packet_recovers_payload(p: TaiorPacket, payload: Seq<u8>, padding_size: nat)
    requires
        p.built_from(payload, padding_size),
        padding_size == 0 || padding_size >= payload.len(),
    ensures
        p.opened() matches Some(plain) && plain.len() >= payload.len() && plain.subrange(
            0,
            payload.len() as int,
        ) == payload,
{
    let padded = choose|padded: Seq<u8>| #[trigger]
        sealed_under(p.ikm@, p.encrypted_payload@, padded) && is_padding_of(
            padded,
            payload,
            padding_size,
        );
    assert(padded.subrange(0, payload.len() as int) =~= payload);
}

/// Length of the length field that opens a packet on the wire, in bytes.
pub const WIRE_PREFIX_LEN: usize = 4;

/// Why a packet has no wire form, or why bytes are not the wire form of a
/// packet.
#[derive(Debug, Clone, Copy, PartialEq, Eq, Structural)]
pub enum WireError {
    /// The payload is longer than the length field can say.
    TooLong,
    /// The bytes end before the payload does.
    Truncated,
    /// Fewer than 32 bytes of keying material.
    IkmTooShort,
    /// More than 32 bytes where the keying material belongs.
    TrailingBytes,
}

impl WireError {
    /// The message of the error.
    pub open spec fn message_text(&self) -> Seq<char> {
        match self {
            WireError::TooLong => "payload too long for the length field"@,
            WireError::Truncated => "packet ends before its payload"@,
            WireError::IkmTooShort => ikm_too_short_text(),
            WireError::TrailingBytes => "bytes after the keying material"@,
        }
    }

    /// The message of the error.
    pub fn message(&self) -> (s: String)
        ensures
            s@ == self.message_text(),
    {
        match self {
            WireError::TooLong => String::from_str("payload too long for the length field"),
            WireError::Truncated => String::from_str("packet ends before its payload"),
            WireError::IkmTooShort => String::from_str("IKM too short: expected at least 32 bytes"),
            WireError::TrailingBytes => String::from_str("bytes after the keying material"),
        }
    }
}

/// The four bytes that spell `n`, the highest first.
pub open spec fn be32(n: u32) -> Seq<u8> {
    seq![
        (n / 256 / 256 / 256) as u8,
        (n / 256 / 256 % 256) as u8,
        (n / 256 % 256) as u8,
        (n % 256) as u8,
    ]
}

/// The number that the first four bytes of `bytes` spell, the highest
/// first.
pub open spec fn from_be32(bytes: Seq<u8>) -> int {
    ((bytes[0] * 256 + bytes[1]) * 256 + bytes[2]) * 256 + bytes[3]
}

/// Four bytes spell the number that they were made of.
pub proof fn lemma_be32_round_trip(n: u32)
    ensures
        be32(n).len() == 4,
        from_be32(be32(n)) == n,
{
    let q1 = n / 256;
    let q2 = q1 / 256;
    let q3 = q2 / 256;
    assert(n == q1 * 256 + n % 256);
    assert(q1 == q2 * 256 + q1 % 256);
    assert(q2 == q3 * 256 + q2 % 256);
    assert(q3 < 256);
}

/// The wire form of a direct packet: the length of the payload in four
/// bytes, the payload, and the keying material. The time to live and the
/// cover flag stay behind.
pub open spec fn wire_form(payload: Seq<u8>, ikm: Seq<u8>) -> Seq<u8> {
    be32(payload.len() as u32) + payload + ikm
}

/// What bytes from the wire hold.
pub enum WireReading {
    /// A payload and 32 bytes of keying material.
    Packet(Seq<u8>, Seq<u8>),
    /// Not the wire form of a packet, for this reason.
    Malformed(WireError),
}

/// The reading of bytes from the wire: a length field, a payload of that
/// length, and exactly 32 bytes of keying material.
pub open spec fn read_wire(bytes: Seq<u8>) -> WireReading {
    if bytes.len() < WIRE_PREFIX_LEN {
        WireReading::Malformed(WireError::Truncated)
    } else {
        let len = from_be32(bytes);
        let rest = bytes.len() - WIRE_PREFIX_LEN - len;
        if rest < 0 {
            WireReading::Malformed(WireError::Truncated)
        } else if rest < IKM_LEN {
            WireReading::Malformed(WireError::IkmTooShort)
        } else if rest > IKM_LEN {
            WireReading::Malformed(WireError::TrailingBytes)
        } else {
            WireReading::Packet(
                bytes.subrange(WIRE_PREFIX_LEN as int, WIRE_PREFIX_LEN + len),
                bytes.subrange(WIRE_PREFIX_LEN + len, bytes.len() as int),
            )
        }
    }
}

/// Reading undoes writing: the wire form of a payload that the length field
/// can describe, with 32 bytes of keying material, reads as that payload and
/// that material.
pub proof fn lemma_wire_round_trip(payload: Seq<u8>, ikm: Seq<u8>)
    requires
        payload.len() <= u32::MAX,
        ikm.len() == IKM_LEN,
    ensures
        read_wire(wire_form(payload, ikm)) == WireReading::Packet(payload, ikm),
{
    let n = payload.len() as u32;
    let bytes = wire_form(payload, ikm);
    lemma_be32_round_trip(n);
    assert(bytes.len() == WIRE_PREFIX_LEN + n + IKM_LEN);
    assert(from_be32(bytes) == from_be32(be32(n))) by {
        assert(bytes[0] == be32(n)[0]);
        assert(bytes[1] == be32(n)[1]);
        assert(bytes[2] == be32(n)[2]);
        assert(bytes[3] == be32(n)[3]);
    }
    assert(bytes.subrange(WIRE_PREFIX_LEN as int, WIRE_PREFIX_LEN + n) =~= payload);
    assert(bytes.subrange(WIRE_PREFIX_LEN + n, bytes.len() as int) =~= ikm);
}

impl TaiorPacket {
    /// The wire form of the packet, for direct use over a single hop.
    ///
    /// Fails with `TooLong` for a payload of 2^32 bytes or more, and with
    /// `IkmTooShort` or `TrailingBytes` for keying material that is not 32
    /// bytes long.
    pub fn to_wire(&self) -> (r: Result<Vec<u8>, WireError>)
        ensures
            match r {
                Ok(bytes) => {
                    &&& self.encrypted_payload@.len() <= u32::MAX
                    &&& self.ikm@.len() == IKM_LEN
                    &&& bytes@ == wire_form(self.encrypted_payload@, self.ikm@)
                    &&& read_wire(bytes@) == WireReading::Packet(
                        self.encrypted_payload@,
                        self.ikm@,
                    )
                },
                Err(e) => e == if self.encrypted_payload@.len() > u32::MAX {
                    WireError::TooLong
                } else if self.ikm@.len() < IKM_LEN {
                    WireError::IkmTooShort
                } else {
                    WireError::TrailingBytes
                } && !(self.encrypted_payload@.len() <= u32::MAX && self.ikm@.len() == IKM_LEN),
            },
    {
        let len = self.encrypted_payload.len();
        if len as u64 > u32::MAX as u64 {
            return Err(WireError::TooLong);
        }
        if self.ikm.len() < IKM_LEN {
            return Err(WireError::IkmTooShort);
        }
        if self.ikm.len() > IKM_LEN {
            return Err(WireError::TrailingBytes);
        }
        let n = len as u32;
        let mut out: Vec<u8> = Vec::new();
        out.push((n / 256 / 256 / 256) as u8);
        out.push((n / 256 / 256 % 256) as u8);
        out.push((n / 256 % 256) as u8);
        out.push((n % 256) as u8);
        assert(out@ =~= be32(n));
        let mut i: usize = 0;
        while i < len
            invariant
                i <= len,
                len == self.encrypted_payload@.len(),
                out@ == be32(n) + self.encrypted_payload@.subrange(0, i as int),
            decreases len - i,
        {
            out.push(self.encrypted_payload[i]);
            i += 1;
        }
        assert(self.encrypted_payload@.subrange(0, len as int) =~= self.encrypted_payload@);
        let mut j: usize = 0;
        while j < IKM_LEN
            invariant
                j <= IKM_LEN,
                self.ikm@.len() == IKM_LEN,
                out@ == be32(n) + self.encrypted_payload@ + self.ikm@.subrange(0, j as int),
            decreases IKM_LEN - j,
        {
            out.push(self.ikm[j]);
            j += 1;
        }
        assert(self.ikm@.subrange(0, IKM_LEN as int) =~= self.ikm@);
        proof {
            lemma_wire_round_trip(self.encrypted_payload@, self.ikm@);
        }
        Ok(out)
    }

    /// The packet that `bytes` are the wire form of, with the given time to
    /// live and cover flag, which the wire does not carry.
    ///
    /// Fails exactly as `read_wire` says.
    pub fn from_wire(bytes: &[u8], ttl: u8, is_cover: bool) -> (r: Result<Self, WireError>)
        ensures
            match r {
                Ok(p) => read_wire(bytes@) == WireReading::Packet(p.encrypted_payload@, p.ikm@)
                    && p.ttl == ttl && p.is_cover == is_cover,
                Err(e) => read_wire(bytes@) == WireReading::Malformed(e),
            },
    {
        if bytes.len() < WIRE_PREFIX_LEN {
            return Err(WireError::Truncated);
        }
        let len: u64 = ((bytes[0] as u64 * 256 + bytes[1] as u64) * 256 + bytes[2] as u64) * 256
            + bytes[3] as u64;
        let after_prefix = bytes.len() - WIRE_PREFIX_LEN;
        if (after_prefix as u64) < len {
            return Err(WireError::Truncated);
        }
        let rest = after_prefix - len as usize;
        if rest < IKM_LEN {
            return Err(WireError::IkmTooShort);
        }
        if rest > IKM_LEN {
            return Err(WireError::TrailingBytes);
        }
        let split = WIRE_PREFIX_LEN + len as usize;
        let encrypted_payload = copy_range(bytes, WIRE_PREFIX_LEN, split);
        let ikm = copy_range(bytes, split, bytes.len());
        Ok(Self { encrypted_payload, ikm, ttl, is_cover })
    }
}

} // verus!
