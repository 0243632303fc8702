//! The receiver's ephemeral TLS identity and pairing PIN: a self-signed
//! certificate generated at startup, its SHA-256 fingerprint rendered as
//! colon-separated uppercase hex, and a 6-digit PIN derived from the wall
//! clock's subsecond nanoseconds.

use vstd::prelude::*;
use crate::errors::DualLinkError;
use crate::fmt::{ascii_to_string, hex_colon_bytes, lemma_hex_colon_ascii, spec_chars_of_bytes,
    spec_hex_colon};
use crate::sha256::{sha256_digest, spec_sha256};

verus! {

/// The TLS material generated once at receiver startup.  The runtime builds
/// its TLS acceptor from the DER pair; the fingerprint is shown to the user
/// for trust-on-first-use.
pub struct TlsIdentity {
    /// The self-signed certificate, DER encoded.
    pub cert_der: Vec<u8>,
    /// The private key, DER encoded (PKCS#8).
    pub key_der: Vec<u8>,
    /// Colon-separated uppercase hex SHA-256 fingerprint of `cert_der`.
    pub fingerprint: String,
}

/// The fingerprint text of a certificate: the SHA-256 digest of its DER
/// bytes as colon-separated uppercase hex.
pub open spec fn spec_fingerprint(cert_der: Seq<u8>) -> Seq<char> {
    spec_chars_of_bytes(spec_hex_colon(spec_sha256(cert_der)))
}

/// Render a certificate's fingerprint.
pub fn fingerprint_of(cert_der: &[u8]) -> (s: String)
    requires
        cert_der@.len() < 0x2000_0000_0000_0000,
    ensures
        s@ == spec_fingerprint(cert_der@),
{
    let digest = sha256_digest(cert_der);
    let hex = hex_colon_bytes(digest.as_slice());
    proof {
        lemma_hex_colon_ascii(digest@);
    }
    ascii_to_string(hex)
}

/// Relies on rcgen: `KeyPair::generate` makes a fresh key pair,
/// `CertificateParams::new(..).self_signed(..)` builds a self-signed
/// certificate for the given subject-alternative names, and `der` /
/// `serialize_der` expose both as DER bytes.  Key generation is random, so
/// nothing is promised of the bytes beyond the error path.
#[verifier::external_body]
fn rcgen_self_signed(subject_alt_names: Vec<String>) -> (r: Result<(Vec<u8>, Vec<u8>), String>) {
    let key_pair = match rcgen::KeyPair::generate() {
        Ok(k) => k,
        Err(e) => return Err(format!("{}", e)),
    };
    let params = match rcgen::CertificateParams::new(subject_alt_names) {
        Ok(p) => p,
        Err(e) => return Err(format!("{}", e)),
    };
    let cert = match params.self_signed(&key_pair) {
        Ok(c) => c,
        Err(e) => return Err(format!("{}", e)),
    };
    Ok((cert.der().to_vec(), key_pair.serialize_der()))
}

/// Relies on `std::time::SystemTime`: read the wall clock's subsecond
/// nanoseconds, which are below one billion for every outcome.
#[verifier::external_body]
fn clock_subsec_nanos() -> (n: u32)
    ensures
        n < 1_000_000_000,
{
    std::time::SystemTime::now()
        .duration_since(std::time::SystemTime::UNIX_EPOCH)
        .unwrap_or_default()
        .subsec_nanos()
}

/// The six ASCII digits of `seed` modulo one million, zero padded, most
/// significant first.
pub open spec fn spec_pin_bytes(seed: u32) -> Seq<u8> {
    let m = seed as int % 1_000_000;
    seq![
        (48 + (m / 100_000) % 10) as u8,
        (48 + (m / 10_000) % 10) as u8,
        (48 + (m / 1_000) % 10) as u8,
        (48 + (m / 100) % 10) as u8,
        (48 + (m / 10) % 10) as u8,
        (48 + m % 10) as u8,
    ]
}

/// Format a seed as a 6-digit PIN.
pub fn format_pin(seed: u32) -> (pin: String)
    ensures
        pin@ == spec_chars_of_bytes(spec_pin_bytes(seed)),
        pin@.len() == 6,
{
    let m = seed % 1_000_000;
    let mut v: Vec<u8> = Vec::new();
    v.push(48 + ((m / 100_000) % 10) as u8);
    v.push(48 + ((m / 10_000) % 10) as u8);
    v.push(48 + ((m / 1_000) % 10) as u8);
    v.push(48 + ((m / 100) % 10) as u8);
    v.push(48 + ((m / 10) % 10) as u8);
    v.push(48 + (m % 10) as u8);
    proof {
        assert(v@ =~= spec_pin_bytes(seed));
    }
    ascii_to_string(v)
}

/// Every byte of a PIN rendering is an ASCII digit.
pub proof fn lemma_pin_digits(seed: u32)
    ensures
        spec_pin_bytes(seed).len() == 6,
        forall|i: int|
            0 <= i < 6 ==> 48 <= #[trigger] spec_pin_bytes(seed)[i] <= 57,
{
}

/// Generate a 6-digit pairing PIN from the wall clock.  A UX nonce, not a
/// secret: its only job is to authorise this session's hello.
pub fn generate_pairing_pin() -> (pin: String)
    ensures
        pin@.len() == 6,
        forall|i: int| 0 <= i < 6 ==> 48 <= (#[trigger] pin@[i]) as int <= 57,
{
    let seed = clock_subsec_nanos();
    let pin = format_pin(seed);
    proof {
        lemma_pin_digits(seed);
        assert forall|i: int| 0 <= i < 6 implies 48 <= (#[trigger] pin@[i]) as int <= 57 by {
            assert(pin@[i] == spec_pin_bytes(seed)[i] as char);
        }
    }
    pin
}

/// Generate the receiver's TLS identity: a fresh self-signed certificate
/// whose subject-alternative names cover the mirroring hostname, localhost
/// and the USB-gadget fallback address, together with its fingerprint.
/// Fails only when the crypto provider does; no retry.
pub fn generate_tls_identity() -> (r: Result<TlsIdentity, DualLinkError>)
    ensures
        r matches Ok(t) ==> t.fingerprint@ == spec_fingerprint(t.cert_der@),
        r matches Ok(t) ==> t.cert_der@.len() < 0x2000_0000_0000_0000,
        r matches Err(e) ==> e is ConnectionFailed,
{
    let mut names: Vec<String> = Vec::new();
    names.push(String::from_str("duallink.local"));
    names.push(String::from_str("localhost"));
    names.push(String::from_str("10.0.1.1"));
    match rcgen_self_signed(names) {
        Ok((cert_der, key_der)) => {
            if cert_der.len() as u64 >= 0x2000_0000_0000_0000u64 {
                return Err(
                    DualLinkError::ConnectionFailed {
                        reason: String::from_str("oversized certificate"),
                    },
                );
            }
            let fingerprint = fingerprint_of(cert_der.as_slice());
            Ok(TlsIdentity { cert_der, key_der, fingerprint })
        },
        Err(reason) => Err(DualLinkError::ConnectionFailed { reason }),
    }
}

} // verus!
