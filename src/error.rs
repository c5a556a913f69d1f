use vstd::prelude::*;

verus! {

/// The transport's error, carried through opaque.
#[verifier::external_type_specification]
#[verifier::external_body]
pub struct ExTransportError(reqwest::Error);

/// The JSON codec's error, carried through opaque.
#[verifier::external_type_specification]
#[verifier::external_body]
pub struct ExCodecError(serde_json::Error);

/// Why a request failed: the exchange with the server, or the JSON on either side of it.
#[derive(Debug)]
pub enum GeminiError {
    /// The transport failed: resolution, connection, TLS, timeout or an error status.
    Network(reqwest::Error),
    /// A JSON text could not be written or read.
    Serialization(serde_json::Error),
}

} // verus!
