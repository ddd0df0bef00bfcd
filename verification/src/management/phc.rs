//! What this crate takes on trust of `pbkdf2` and of its `password_hash`.
//!
//! Password hashes travel as text in the PHC string format. Each call below is
//! a function of its arguments alone, and its outcome has a name.

use pbkdf2::password_hash::{
    Encoding, PasswordHash, PasswordHasher, PasswordVerifier, SaltString,
};
use pbkdf2::Pbkdf2;
use vstd::prelude::*;

verus! {

/// `password_hash::Error`, why a hash could not be made, read or matched.
/// Nothing inside it is visible here.
#[verifier::external_type_specification]
#[verifier::external_body]
pub struct ExPasswordHashError(pbkdf2::password_hash::Error);

/// The longest salt, in bytes, whose encoding fits a salt string.
pub const MAX_SALT_BYTES: usize = 48;

/// Bytes in "B64", which is Base64 without padding.
pub uninterp spec fn b64_unpadded(bytes: Seq<u8>) -> Seq<char>;

/// The PHC string of the PBKDF2-SHA256 hash of a password under a salt that is
/// given in B64, with the default parameters of `pbkdf2`; `None` where `pbkdf2`
/// refuses the salt.
pub uninterp spec fn pbkdf2_phc(password: Seq<u8>, salt: Seq<char>) -> Option<Seq<char>>;

/// A PHC string as `password_hash` writes it after reading it; `None` for a
/// text that it cannot read.
pub uninterp spec fn phc_reencoded(text: Seq<char>) -> Option<Seq<char>>;

/// The text is a PHC string whose fields are in B64.
pub uninterp spec fn phc_parses(text: Seq<char>) -> bool;

/// The password gives the hash that the PHC string holds, under the algorithm,
/// the parameters and the salt that the string names.
pub uninterp spec fn pbkdf2_verifies(password: Seq<u8>, hashed: Seq<char>) -> bool;

/// `SaltString::b64_encode`: the bytes in B64. A salt string holds 64
/// characters, which are the encoding of 48 bytes: more bytes are an error.
#[verifier::external_body]
pub(crate) fn encode_salt(salt: &[u8]) -> (res: Result<String, pbkdf2::password_hash::Error>)
    ensures
        res is Ok <==> salt@.len() <= MAX_SALT_BYTES,
        res matches Ok(text) ==> text@ == b64_unpadded(salt@),
{
    SaltString::b64_encode(salt).map(|text| text.as_str().to_owned())
}

/// `Pbkdf2.hash_password`, the hash written out as a PHC string.
#[verifier::external_body]
pub(crate) fn pbkdf2_hash(password: &[u8], salt: &str) -> (res: Result<
    String,
    pbkdf2::password_hash::Error,
>)
    ensures
        match res {
            Ok(hash) => pbkdf2_phc(password@, salt@) == Some(hash@),
            Err(_) => pbkdf2_phc(password@, salt@) is None,
        },
{
    Pbkdf2.hash_password(password, salt).map(|hash| hash.to_string())
}

/// `PasswordHash::new`, the hash that was read written out again.
#[verifier::external_body]
pub(crate) fn phc_reencode(text: &str) -> (res: Result<String, pbkdf2::password_hash::Error>)
    ensures
        match res {
            Ok(hash) => phc_reencoded(text@) == Some(hash@),
            Err(_) => phc_reencoded(text@) is None,
        },
{
    PasswordHash::new(text).map(|hash| hash.to_string())
}

/// `PasswordHash::parse` with the encoding B64: whether the text can be read.
#[verifier::external_body]
pub(crate) fn phc_parse(text: &str) -> (res: Result<(), pbkdf2::password_hash::Error>)
    ensures
        res is Ok <==> phc_parses(text@),
{
    PasswordHash::parse(text, Encoding::B64).map(|_| ())
}

/// `Pbkdf2.verify_password` on a PHC string that can be read.
#[verifier::external_body]
pub(crate) fn pbkdf2_verify(password: &[u8], hashed: &str) -> (res: Result<
    (),
    pbkdf2::password_hash::Error,
>)
    requires
        phc_parses(hashed@),
    ensures
        res is Ok <==> pbkdf2_verifies(password@, hashed@),
{
    Pbkdf2.verify_password(password, &PasswordHash::parse(hashed, Encoding::B64)?)
}

} // verus!
