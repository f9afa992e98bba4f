//! Accounts: users, password hashing and verification, and the hashing of
//! one-time tokens.
use vstd::prelude::*;
use argon2::password_hash::{PasswordHash, PasswordHasher, PasswordVerifier, SaltString};
use argon2::Argon2;
use rand::rngs::OsRng;
use sha2::{Digest, Sha256};
use crate::error::{AppError, AppResult};
use crate::text::{hex_lower, is_hex_lower_char, push_hex, push_str};

verus! {

/// A row of the `users` table.
#[derive(Debug, Clone)]
pub struct User {
    pub id: i64,
    pub email: String,
    pub password_hash: String,
    pub email_verification_token_hash: Option<String>,
    pub email_verification_sent_at: Option<String>,
    pub email_verified_at: Option<String>,
    pub password_reset_token_hash: Option<String>,
    pub password_reset_sent_at: Option<String>,
    pub created_at: String,
    pub updated_at: String,
    pub deleted_at: Option<String>,
}

// ---------------------------------------------------------------------------
// Token hashes
// ---------------------------------------------------------------------------
/// The SHA-256 digest of `data`.
pub uninterp spec fn sha256(data: Seq<u8>) -> Seq<u8>;

/// `Sha256::digest` of the sha2 crate: the 32-byte SHA-256 digest of `data`.
#[verifier::external_body]
fn sha256_digest(data: &[u8]) -> (r: Vec<u8>)
    ensures
        r@ == sha256(data@),
        r@.len() == 32,
{
    Sha256::digest(data).to_vec()
}

/// The stored form of a one-time token: the lowercase hexadecimal SHA-256
/// digest of its UTF-8 bytes.
pub open spec fn token_hash(token: Seq<char>) -> Seq<char> {
    hex_lower(sha256(vstd::utf8::encode_utf8(token)))
}

/// Hashes a one-time token for storage; only the hash is kept, so a leaked
/// table does not leak usable tokens.
pub fn hash_token(token: &str) -> (r: String)
    ensures
        r@ == token_hash(token@),
        r@.len() == 64,
        forall|i: int| 0 <= i < r@.len() ==> is_hex_lower_char(#[trigger] r@[i]),
{
    let digest = sha256_digest(token.as_bytes());
    let mut r = String::new();
    push_hex(&mut r, digest.as_slice());
    proof {
        crate::text::lemma_hex_lower_shape(digest@);
        assert(r@ =~= hex_lower(digest@));
    }
    r
}

// ---------------------------------------------------------------------------
// Passwords
// ---------------------------------------------------------------------------
/// Whether argon2 takes `password` as input: its UTF-8 encoding is at most
/// `0xFFFF_FFFF` bytes long.
pub open spec fn argon2_accepts(password: Seq<char>) -> bool {
    vstd::utf8::encode_utf8(password).len() <= 0xFFFF_FFFF
}

/// Whether `c` belongs to the unpadded Base64 alphabet of PHC strings.
pub open spec fn is_b64_char(c: char) -> bool {
    ||| 'A' <= c <= 'Z'
    ||| 'a' <= c <= 'z'
    ||| '0' <= c <= '9'
    ||| c == '+'
    ||| c == '/'
}

/// The head of every PHC string that argon2 writes with its default
/// configuration: algorithm argon2id, version 19, 19456 KiB of memory, two
/// passes, one lane.
pub open spec fn argon2_default_head() -> Seq<char> {
    "$argon2id$v=19$m=19456,t=2,p=1$"@
}

/// Whether `h` has the shape of a PHC string that argon2 writes with its
/// default configuration: the head, a 16-byte salt in 22 Base64 characters,
/// a separator, and a 32-byte hash in 43 Base64 characters.
pub open spec fn is_default_argon2_phc(h: Seq<char>) -> bool {
    let head = argon2_default_head();
    let sep = head.len() as int + 22;
    &&& h.len() == sep + 44
    &&& h.subrange(0, head.len() as int) == head
    &&& h[sep] == '$'
    &&& forall|i: int| head.len() <= i < h.len() && i != sep ==> is_b64_char(#[trigger] h[i])
}

/// `PasswordHasher::hash_password` of argon2 with the default Argon2
/// configuration and a fresh 16-byte salt from the operating system's
/// generator, written as a PHC string; on failure, the error's message.
/// The only input argon2 refuses here is a password of more than
/// `0xFFFF_FFFF` bytes, with the message "invalid password"; the salt, and
/// so the hash, is random. Whatever the salt, the PHC string parses and
/// verifies against the password it was made from, since verification
/// recomputes the hash with the salt and parameters the string records.
#[verifier::external_body]
fn argon2_hash(password: &str) -> (r: Result<String, String>)
    ensures
        r is Ok <==> argon2_accepts(password@),
        r matches Ok(h) ==> is_default_argon2_phc(h@),
        r matches Ok(h) ==> phc_parse_error(h@) is None && argon2_matches(password@, h@),
        r matches Err(m) ==> m@ == "invalid password"@,
{
    match Argon2::default().hash_password(password.as_bytes(), &SaltString::generate(&mut OsRng)) {
        Ok(h) => Ok(h.to_string()),
        Err(e) => Err(e.to_string()),
    }
}

/// Hashes a password for storage as an argon2id PHC string with a random
/// salt; the password then verifies against the hash (`verify_password`
/// accepts exactly the pairs of `password_verifies`). Only a password longer
/// than argon2 takes fails, as a bad request carrying the hasher's message.
pub fn hash_password(password: &str) -> (r: AppResult<String>)
    ensures
        r is Ok <==> argon2_accepts(password@),
        r matches Ok(h) ==> is_default_argon2_phc(h@),
        r matches Ok(h) ==> password_verifies(password@, h@),
        r matches Err(e) ==> (e matches AppError::BadRequest(m) && m@ == "invalid password"@),
{
    match argon2_hash(password) {
        Ok(h) => Ok(h),
        Err(msg) => Err(AppError::BadRequest(msg)),
    }
}

/// The message of the error that `PasswordHash::new` of the password-hash
/// crate gives for `hash`, or `None` where `hash` is a well-formed PHC
/// string.
pub uninterp spec fn phc_parse_error(hash: Seq<char>) -> Option<Seq<char>>;

/// `PasswordHash::new` of the password-hash crate (re-exported by argon2):
/// the message of its error, where `hash` is not a PHC string.
#[verifier::external_body]
fn password_hash_error(hash: &str) -> (r: Option<String>)
    ensures
        r matches Some(m) ==> phc_parse_error(hash@) == Some(m@),
        r is None ==> phc_parse_error(hash@) is None,
{
    match PasswordHash::new(hash) {
        Ok(_) => None,
        Err(e) => Some(e.to_string()),
    }
}

/// Whether `password` matches the PHC string `hash`, by argon2.
pub uninterp spec fn argon2_matches(password: Seq<char>, hash: Seq<char>) -> bool;

/// Whether a login with `password` against the stored `hash` succeeds: the
/// hash is a well-formed PHC string and argon2 matches the password to it.
pub open spec fn password_verifies(password: Seq<char>, hash: Seq<char>) -> bool {
    phc_parse_error(hash) is None && argon2_matches(password, hash)
}

/// `PasswordVerifier::verify_password` of argon2 with the default
/// configuration, on a well-formed PHC string: whether the password
/// matches.
#[verifier::external_body]
fn argon2_verify(password: &str, hash: &str) -> (r: bool)
    requires
        phc_parse_error(hash@) is None,
    ensures
        r == argon2_matches(password@, hash@),
{
    match PasswordHash::new(hash) {
        Ok(h) => Argon2::default().verify_password(password.as_bytes(), &h).is_ok(),
        Err(_) => false,
    }
}

/// The answer to a login attempt, from what the hash parser and the
/// verifier said: a malformed hash is a bad request carrying the parser's
/// message, a mismatch is unauthorized.
pub fn password_outcome(parse_error: Option<String>, matched: bool) -> (r: AppResult<()>)
    ensures
        parse_error matches Some(m) ==> (r matches Err(AppError::BadRequest(x)) && x@ == m@),
        parse_error is None ==> (matched ==> r is Ok),
        parse_error is None ==> (!matched ==> r matches Err(AppError::Unauthorized)),
{
    match parse_error {
        Some(m) => Err(AppError::BadRequest(m)),
        None => if matched {
            Ok(())
        } else {
            Err(AppError::Unauthorized)
        },
    }
}

/// Checks a password against its stored hash.
pub fn verify_password(password: &str, hash: &str) -> (r: AppResult<()>)
    ensures
        r is Ok <==> password_verifies(password@, hash@),
        match phc_parse_error(hash@) {
            Some(m) => r matches Err(AppError::BadRequest(x)) && x@ == m,
            None => if argon2_matches(password@, hash@) {
                r is Ok
            } else {
                r matches Err(AppError::Unauthorized)
            },
        },
{
    let parse_error = password_hash_error(hash);
    let matched = match &parse_error {
        Some(_) => false,
        None => argon2_verify(password, hash),
    };
    password_outcome(parse_error, matched)
}

// ---------------------------------------------------------------------------
// Sessions
// ---------------------------------------------------------------------------
/// The `Set-Cookie` value that ends a session: the session cookie emptied,
/// for the whole site, expiring now.
pub open spec fn logout_cookie_text(cookie_name: Seq<char>) -> Seq<char> {
    cookie_name + "=; Path=/; Max-Age=0"@
}

/// The `Set-Cookie` value that ends a session.
pub fn logout_cookie(cookie_name: &str) -> (r: String)
    ensures
        r@ == logout_cookie_text(cookie_name@),
{
    let mut r = cookie_name.to_owned();
    push_str(&mut r, "=; Path=/; Max-Age=0");
    r
}

} // verus!
