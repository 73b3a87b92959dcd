//! Trusted seams to the text codecs the governor relies on: GBK decoding
//! of console output, base64 for the obfuscated configuration file, and
//! UTF-8 validation. Each wrapper names what the outside call returns; the
//! logic around them is verified against those names.

use vstd::prelude::*;
use vstd::string::StringSliceAdditionalSpecFns;
use base64::Engine;
use crate::text;
use crate::types::AppError;

verus! {

/// Every byte of the string is ASCII.
pub open spec fn all_ascii(s: Seq<u8>) -> bool {
    forall|i: int| 0 <= i < s.len() ==> s[i] < 128
}

/// The bytes are the UTF-8 encoding of some text.
pub open spec fn is_utf8_encoding(bytes: Seq<u8>) -> bool {
    exists|cs: Seq<char>| bytes == vstd::utf8::encode_utf8(cs)
}

pub uninterp spec fn gbk_decoding(bytes: Seq<u8>) -> Seq<char>;

/// Decode GBK-encoded console output, as `powercfg` and `reg.exe` emit it.
///
/// Relies on encoding_rs::GBK.decode: the decoded text is a function of
/// the input bytes alone, and empty input decodes to the empty string.
#[verifier::external_body]
pub fn decode_output(bytes: &[u8]) -> (r: String)
    ensures
        r@ == gbk_decoding(bytes@),
        bytes@.len() == 0 ==> r@.len() == 0,
{
    let (cow, _, _) = encoding_rs::GBK.decode(bytes);
    cow.to_string()
}

pub uninterp spec fn base64_encoding(data: Seq<u8>) -> Seq<char>;

/// Relies on base64's standard engine `encode`: the padded encoding is a
/// function of the input bytes alone, four characters per three bytes, and
/// the engine's own `decode` inverts it. The length bound keeps the
/// engine's output-size computation, which aborts on overflow, in range.
#[verifier::external_body]
fn b64_encode(data: &[u8]) -> (r: String)
    requires
        data@.len() <= 0x1000_0000_0000_0000,
    ensures
        r@ == base64_encoding(data@),
        r@.len() == 4 * ((data@.len() + 2) / 3),
        base64_decoding(text::bytes_of(r)) == Some(data@),
{
    base64::engine::general_purpose::STANDARD.encode(data)
}

pub uninterp spec fn base64_decoding(text: Seq<u8>) -> Option<Seq<u8>>;

/// Relies on base64's standard engine `decode`: whether the text decodes,
/// and to which bytes, is a function of the text alone.
#[verifier::external_body]
fn b64_decode(data: &str) -> (r: Option<Vec<u8>>)
    ensures
        match base64_decoding(data.spec_bytes()) {
            Some(b) => (r matches Some(v) && v@ == b),
            None => r is None,
        },
{
    base64::engine::general_purpose::STANDARD.decode(data).ok()
}

/// Relies on String::from_utf8: it accepts exactly valid UTF-8 and returns
/// the bytes unchanged; ASCII bytes are always valid UTF-8.
#[verifier::external_body]
pub fn utf8_to_string(bytes: Vec<u8>) -> (r: Option<String>)
    ensures
        (r matches Some(s) ==> text::bytes_of(s) == bytes@),
        all_ascii(bytes@) ==> r is Some,
        is_utf8_encoding(bytes@) ==> r is Some,
{
    String::from_utf8(bytes).ok()
}

/// Obfuscate configuration text for the file on disk.
pub fn encrypt_data(data: &str) -> (r: String)
    requires
        data.spec_bytes().len() <= 0x1000_0000_0000_0000,
    ensures
        r@ == base64_encoding(data.spec_bytes()),
        base64_decoding(text::bytes_of(r)) == Some(data.spec_bytes()),
{
    b64_encode(data.as_bytes())
}

/// Read obfuscated configuration text back. Text that does not decode, or
/// decodes to invalid UTF-8, is rejected; decodable text whose bytes are
/// well-formed UTF-8 is accepted. With `encrypt_data`'s guarantee that
/// decoding inverts encoding, reading back what it wrote yields the
/// original text's bytes.
pub fn decrypt_data(data: &str) -> (r: Result<String, AppError>)
    ensures
        (r matches Ok(s) ==> base64_decoding(data.spec_bytes()) == Some(text::bytes_of(s))),
        base64_decoding(data.spec_bytes()) is None ==> r is Err,
        (base64_decoding(data.spec_bytes()) matches Some(b) && is_utf8_encoding(b)) ==> r is Ok,
{
    match b64_decode(data) {
        Some(bytes) => {
            match utf8_to_string(bytes) {
                Some(s) => Ok(s),
                None => Err(AppError::SystemError(String::from_str("not valid text"))),
            }
        },
        None => Err(AppError::SystemError(String::from_str("not valid base64"))),
    }
}

/// The identifier this build reports for license binding.
pub fn get_machine_code() -> (r: String)
    ensures
        r@ == "TASK-NEXUS-DEV-MACHINE"@,
{
    String::from_str("TASK-NEXUS-DEV-MACHINE")
}

/// License verification of the development build: every key passes.
pub fn verify_license(_key: &str) -> (r: bool)
    ensures
        r,
{
    true
}

/// The outcome of the build-expiry check.
#[derive(Debug, Clone)]
pub struct TimeBombStatus {
    pub is_expired: bool,
    pub expiration_date: String,
    pub current_date: String,
    pub days_remaining: i64,
    /// Where the current time came from.
    pub verification_source: String,
}

/// Judge the build expiry from day numbers: the host fetches the network
/// time and renders the date strings; this decides.
pub fn evaluate_expiration(
    now_day: i64,
    expiry_day: i64,
    expiration_date: String,
    current_date: String,
    verification_source: String,
) -> (r: TimeBombStatus)
    requires
        -0x1000_0000 <= now_day <= 0x1000_0000,
        -0x1000_0000 <= expiry_day <= 0x1000_0000,
    ensures
        r.is_expired == (now_day > expiry_day),
        r.is_expired ==> r.days_remaining == 0,
        !r.is_expired ==> r.days_remaining == expiry_day - now_day,
        r.expiration_date == expiration_date,
        r.current_date == current_date,
        r.verification_source == verification_source,
{
    let is_expired = now_day > expiry_day;
    let days_remaining: i64 = if is_expired {
        0
    } else {
        expiry_day - now_day
    };
    TimeBombStatus { is_expired, expiration_date, current_date, days_remaining, verification_source }
}

} // verus!
