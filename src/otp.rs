use boringauth::oath::{ErrorCode, HOTPBuilder, HashFunction};
use vstd::prelude::*;

verus! {

#[verifier::external_type_specification]
#[verifier::external_body]
pub struct ExErrorCode(ErrorCode);

/// Length of one time step, in seconds.
pub const TIME_STEP: u64 = 30;

/// Number of digits of a passcode.
pub const CODE_DIGITS: usize = 6;

/// The HMAC-SHA1 one-time password (RFC 4226) of `digits` digits of the
/// base32 key `seed` for the counter value `counter`.
pub uninterp spec fn hotp_sha1_code(seed: Seq<char>, counter: u64, digits: usize) -> Seq<char>;

/// A character that a base32 key may hold: a letter of either case, a digit
/// from 2 to 7, or the padding sign.
pub open spec fn is_base32_char(c: char) -> bool {
    ('A' <= c && c <= 'Z') || ('a' <= c && c <= 'z') || ('2' <= c && c <= '7') || c == '='
}

/// A seed that decodes as base32.
pub open spec fn valid_seed(seed: Seq<char>) -> bool {
    forall|i: int| 0 <= i < seed.len() ==> is_base32_char(#[trigger] seed[i])
}

/// Exactly `n` ASCII digits.
pub open spec fn is_digits(code: Seq<char>, n: usize) -> bool {
    &&& code.len() == n
    &&& forall|i: int| 0 <= i < code.len() ==> '0' <= #[trigger] code[i] && code[i] <= '9'
}

/// Exactly six ASCII digits.
pub open spec fn is_code(code: Seq<char>) -> bool {
    is_digits(code, CODE_DIGITS)
}

/// The time-step counter of a Unix time (RFC 6238, starting at time zero).
pub open spec fn time_window(time: u64) -> u64 {
    time / TIME_STEP
}

/// The TOTP code of `seed` at Unix time `time`.
pub open spec fn totp_code(seed: Seq<char>, time: u64) -> Seq<char> {
    hotp_sha1_code(seed, time_window(time), CODE_DIGITS)
}

/// Why no passcode could be made.
#[derive(Clone, Copy, Debug, PartialEq, Eq)]
pub enum TotpError {
    /// The seed is not valid base32.
    InvalidSeed,
}

/// Relies on boringauth's `HOTPBuilder` (`base32_key`, `counter`,
/// `output_len`, SHA-1) and `HOTP::generate`. `base32_key` records an error
/// exactly when `base32::decode` refuses the key, which it does for a
/// character outside letters, `2`-`7` and `=`; `finalize` refuses no other
/// key for 6 to 9 digits; `generate` writes the code in that many digits,
/// zero-padded.
#[verifier::external_body]
fn hotp_sha1(seed: &str, counter: u64, digits: usize) -> (r: Result<String, ErrorCode>)
    requires
        6 <= digits <= 9,
    ensures
        r is Ok <==> valid_seed(seed@),
        r is Ok ==> r->Ok_0@ == hotp_sha1_code(seed@, counter, digits),
        r is Ok ==> is_digits(r->Ok_0@, digits),
{
    #[allow(deprecated)]
    let hash = HashFunction::Sha1;
    let built = HOTPBuilder::new().base32_key(seed).counter(counter).output_len(digits)
        .hash_function(hash).finalize();
    match built {
        Ok(hotp) => Ok(hotp.generate()),
        Err(e) => Err(e),
    }
}

/// The one-time passcode of `seed` at Unix time `time` (seconds): HMAC-SHA1
/// over the number of whole 30-second steps since time zero, as six
/// zero-padded digits. Fails when the seed is not valid base32.
pub fn generate(seed: &str, time: u64) -> (r: Result<String, TotpError>)
    ensures
        r is Err <==> !valid_seed(seed@),
        r is Err ==> r == Err::<String, TotpError>(TotpError::InvalidSeed),
        r is Ok ==> r->Ok_0@ == totp_code(seed@, time),
        r is Ok ==> is_code(r->Ok_0@),
{
    let counter = time / TIME_STEP;
    match hotp_sha1(seed, counter, CODE_DIGITS) {
        Ok(code) => Ok(code),
        Err(_) => Err(TotpError::InvalidSeed),
    }
}

/// Two times in the same 30-second window give the same passcode.
pub proof fn lemma_same_window(seed: Seq<char>, t1: u64, t2: u64)
    requires
        t1 / TIME_STEP == t2 / TIME_STEP,
    ensures
        totp_code(seed, t1) == totp_code(seed, t2),
{
}

} // verus!
