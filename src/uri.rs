use vstd::prelude::*;
use vstd::string::StringExecFns;
use base64::engine::general_purpose;
use base64::Engine;
use crate::encoder::{MAX_PEAKS, encoding, rate_code};
use crate::fingerprint::{Fingerprint, FingerprintError};

verus! {

/// What precedes the base64 text in a data URI of an envelope.
pub const DATA_URI_PREFIX: &'static str = "data:audio/vnd.shazam.sig;base64,";

/// The standard base64 text (with `=` padding) of a byte sequence.
pub uninterp spec fn base64_of(data: Seq<u8>) -> Seq<char>;

/// The largest input that base64 encodes without its length computation
/// overflowing.
pub const MAX_BASE64_INPUT: usize = 0xbfff_fff0;

/// Relies on base64's `general_purpose::STANDARD.encode`: the standard
/// alphabet with padding, a function of the bytes alone. It panics only where
/// the encoded length overflows `usize`, which the bound on the input rules out.
#[verifier::external_body]
fn base64_standard(data: &[u8]) -> (r: String)
    requires
        data@.len() <= MAX_BASE64_INPUT,
    ensures
        r@ == base64_of(data@),
{
    general_purpose::STANDARD.encode(data)
}

/// A data URI from base64 text: the fixed prefix followed by the text.
pub fn uri_from_base64(encoded: &str) -> (r: String)
    ensures
        r@ == DATA_URI_PREFIX@ + encoded@,
{
    let mut s = String::from_str(DATA_URI_PREFIX);
    s.append(encoded);
    s
}

/// The data URI of an envelope: the fixed prefix and the base64 of the bytes.
pub fn data_uri(bytes: &[u8]) -> (r: String)
    requires
        bytes@.len() <= MAX_BASE64_INPUT,
    ensures
        r@ == DATA_URI_PREFIX@ + base64_of(bytes@),
{
    let encoded = base64_standard(bytes);
    uri_from_base64(encoded.as_str())
}

impl Fingerprint {
    /// The data URI of the fingerprint's envelope; fails as `encode_to_binary` does.
    pub fn to_data_uri(&self) -> (r: Result<String, FingerprintError>)
        requires
            self.total_peaks() <= MAX_PEAKS,
        ensures
            rate_code(self.sample_rate_hz).is_none() ==> r == Err::<String, FingerprintError>(
                FingerprintError::UnsupportedSampleRate,
            ),
            rate_code(self.sample_rate_hz).is_some() && !self.well_ordered() ==> r == Err::<
                String,
                FingerprintError,
            >(FingerprintError::MalformedPeakOrder),
            rate_code(self.sample_rate_hz).is_some() && self.well_ordered() ==> (r matches Ok(s)
                && s@ == DATA_URI_PREFIX@ + base64_of(encoding(*self))),
    {
        match self.encode_to_binary() {
            Ok(bytes) => {
                proof {
                    crate::encoder::lemma_encoding_len(*self);
                }
                Ok(data_uri(bytes.as_slice()))
            },
            Err(e) => Err(e),
        }
    }
}

} // verus!
