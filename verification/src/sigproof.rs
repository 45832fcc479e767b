//! The type-and-flags byte of a transaction signature proof.
//!
//! A signature proof starts with one byte on the wire: the signature
//! algorithm in the low nibble and the proof flags in the high nibble.
//! The only flag so far marks the presence of WebAuthn fields. The
//! cryptographic verification of the proof lives outside the core.

use vstd::prelude::*;

verus! {

/// The signature algorithm of a proof.
#[derive(Clone, Copy, Debug, PartialEq, Eq, Structural)]
pub enum SignatureProofAlgorithm {
    Ed25519,
    ES256,
}

/// Flags of a serialized signature proof; only four bits are available.
#[derive(Clone, Copy, Debug, PartialEq, Eq, Structural, Hash)]
pub struct SignatureProofFlags {
    pub bits: u8,
}

/// The flag bit marking the presence of WebAuthn fields.
pub const WEBAUTHN_FIELDS_FLAG: u8 = 1;

impl SignatureProofFlags {
    /// Whether the proof carries WebAuthn fields.
    pub fn contains_webauthn_fields(&self) -> (r: bool)
        ensures
            r == (self.bits % 2 == 1),
    {
        self.bits % 2 == 1
    }
}

impl Default for SignatureProofFlags {
    /// No flags set.
    fn default() -> (r: Self)
        ensures
            r.bits == 0,
    {
        SignatureProofFlags { bits: 0 }
    }
}

/// Extra data needed to verify a WebAuthn signature: the parts of the
/// client data the verifier must reconstruct exactly as they appeared.
#[derive(Clone, Debug, PartialEq, Eq)]
pub struct WebauthnExtraFields {
    /// The `origin` field exactly as it appears in the client data,
    /// escaping untouched.
    pub origin_json_str: String,
    /// Whether the client data carries a `crossOrigin: false` field.
    pub has_cross_origin_field: bool,
    /// Unknown extra fields of the client data, verbatim, with their
    /// leading comma and without the closing brace.
    pub client_data_extra_json: String,
    /// Extra signed data between the relying-party hash and the client
    /// data hash.
    pub authenticator_data_suffix: Vec<u8>,
}

/// Error raised when a proof representation cannot be read or written.
#[derive(Debug)]
pub struct SerializationError {
    pub msg: String,
}

impl SerializationError {
    /// Wraps a message.
    pub fn new(msg: &str) -> (r: SerializationError)
        ensures
            r.msg@ == msg@,
    {
        SerializationError { msg: <String as vstd::string::StringExecFns>::from_str(msg) }
    }
}

/// The algorithm variant's wire value: its position in the enumeration.
pub open spec fn spec_algorithm_value(algorithm: SignatureProofAlgorithm) -> u8 {
    match algorithm {
        SignatureProofAlgorithm::Ed25519 => 0,
        SignatureProofAlgorithm::ES256 => 1,
    }
}

/// The type-and-flags byte: the algorithm in the low nibble, the
/// WebAuthn flag in the high nibble.
pub open spec fn spec_type_and_flags_byte(
    algorithm: SignatureProofAlgorithm,
    has_webauthn_fields: bool,
) -> u8 {
    (spec_algorithm_value(algorithm) + if has_webauthn_fields {
        16u8
    } else {
        0u8
    }) as u8
}

/// Builds the type-and-flags byte of a proof.
pub fn make_type_and_flags_byte(
    algorithm: SignatureProofAlgorithm,
    has_webauthn_fields: bool,
) -> (r: u8)
    ensures
        r == spec_type_and_flags_byte(algorithm, has_webauthn_fields),
{
    let type_value: u8 = match algorithm {
        SignatureProofAlgorithm::Ed25519 => 0,
        SignatureProofAlgorithm::ES256 => 1,
    };
    if has_webauthn_fields {
        type_value + 16
    } else {
        type_value
    }
}

/// Reads the type-and-flags byte back: the algorithm from the low
/// nibble, the flags from the high nibble with unknown flag bits
/// dropped. A low nibble that names no algorithm is refused.
pub fn parse_type_and_flags_byte(byte: u8) -> (r: Result<
    (SignatureProofAlgorithm, SignatureProofFlags),
    String,
>)
    ensures
        match r {
            Ok((algorithm, flags)) => {
                &&& byte % 16 == spec_algorithm_value(algorithm)
                &&& flags.bits == (byte / 16) % 2
            },
            Err(_) => byte % 16 >= 2,
        },
{
    let type_value = byte % 16;
    let algorithm = if type_value == 0 {
        SignatureProofAlgorithm::Ed25519
    } else if type_value == 1 {
        SignatureProofAlgorithm::ES256
    } else {
        return Err(<String as vstd::string::StringExecFns>::from_str("invalid signature proof algorithm"));
    };
    let flags = SignatureProofFlags { bits: (byte / 16) % 2 };
    Ok((algorithm, flags))
}

/// Writing the type-and-flags byte and reading it back gives the
/// algorithm and the WebAuthn flag out unchanged.
pub proof fn lemma_type_byte_round_trip(
    algorithm: SignatureProofAlgorithm,
    has_webauthn_fields: bool,
)
    ensures
        ({
            let byte = spec_type_and_flags_byte(algorithm, has_webauthn_fields);
            &&& byte % 16 == spec_algorithm_value(algorithm)
            &&& (byte / 16) % 2 == if has_webauthn_fields {
                1int
            } else {
                0int
            }
        }),
{
}

} // verus!
