//! Configuration of the one-time-password verification backend and the
//! checks the engine performs on it before the backend client is built.

use vstd::prelude::*;

verus! {

/// Settings of the one-time-password verification backend.
pub struct YubikeyConfig {
    /// Client ID for the verification API service; never zero.
    pub client_id: u64,
    /// Base64-encoded secret key for the verification API service.
    pub secret_key: String,
    /// Seconds until an external API request times out.
    pub api_timeout_seconds: u64,
}

/// What can go wrong talking to the verification backend.
#[derive(Debug, Clone, PartialEq, Eq, Structural)]
pub enum YubikeyError {
    RandError,
    NetworkError,
    NoStatus,
    NoData,
    BadData,
    NoSignature,
    BadSignature,
    NoSuchClient,
    OperationNotAllowed,
    MissingParameter,
    NotEnoughAnswers,
    NonceMismatch,
    SignatureMismatch,
}

/// Checks a client ID read from the configuration: zero is refused.
pub fn validate_yubi_client_id(id: u64) -> (r: Result<u64, YubikeyError>)
    ensures
        id != 0 ==> r == Ok::<_, YubikeyError>(id),
        id == 0 ==> r == Err::<u64, _>(YubikeyError::BadData),
{
    if id == 0 {
        Err(YubikeyError::BadData)
    } else {
        Ok(id)
    }
}

/// The bytes a base64 string decodes to, or nothing when it is not valid
/// base64; a function of the string alone.
pub uninterp spec fn base64_decoded(s: Seq<char>) -> Option<Seq<u8>>;

/// Relies on base64::decode: decodes standard base64, and the outcome
/// depends on the input characters alone.
#[verifier::external_body]
fn base64_decode(s: &str) -> (r: Option<Vec<u8>>)
    ensures
        (match r {
            Some(v) => base64_decoded(s@) == Some(v@),
            None => base64_decoded(s@) is None,
        }),
{
    base64::decode(s).ok()
}

impl YubikeyConfig {
    /// Decodes the configured secret key into the raw signing key bytes;
    /// a key that is not valid base64 is refused.
    pub fn decode_secret_key(&self) -> (r: Result<Vec<u8>, YubikeyError>)
        ensures
            (match r {
                Ok(v) => base64_decoded(self.secret_key@) == Some(v@),
                Err(e) => base64_decoded(self.secret_key@) is None && e == YubikeyError::BadData,
            }),
    {
        match base64_decode(self.secret_key.as_str()) {
            Some(v) => Ok(v),
            None => Err(YubikeyError::BadData),
        }
    }
}

} // verus!
