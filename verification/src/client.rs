//! The client side of the credential flow: key derivation runs here, never
//! on the server, which only ever sees the derived key. The deliberately
//! slow derivation is PBKDF2 over HMAC-SHA-512 with a fixed iteration count
//! and a salt as wide as the digest output.

use vstd::prelude::*;
use vstd::string::StringSliceAdditionalSpecFns;

use crate::jsonio::{exact_bytes, json_u64_array_field, json_u64s_of, to_exact_bytes};
use crate::models::{NewUser, NewUserV};

verus! {

/// The fixed iteration count of the key derivation.
pub const PBKDF2_ITERATIONS: u32 = 100000;

/// The width of the derived key and of the salt: the digest output width.
pub const CREDENTIAL_LEN: usize = 64;

/// The PBKDF2 key over HMAC-SHA-512 with these iterations, salt and secret,
/// at this output width: a function of its arguments alone, the same on
/// every machine.
pub uninterp spec fn pbkdf2_sha512_of(
    iterations: u32,
    salt: Seq<u8>,
    secret: Seq<u8>,
    out_len: nat,
) -> Seq<u8>;

/// Relies on ring::pbkdf2::derive with PBKDF2_HMAC_SHA512: fills the output
/// buffer with the key derived from the secret and salt, a deterministic
/// function of them; it panics only on inputs far beyond the bounds
/// required here.
#[verifier::external_body]
fn pbkdf2_sha512(iterations: u32, salt: &Vec<u8>, password: &str, out_len: usize) -> (r: Vec<u8>)
    requires
        1 <= iterations,
        salt@.len() < 0x1000000,
        password@.len() < 0x1000000,
        1 <= out_len <= 1024,
    ensures
        r@ == pbkdf2_sha512_of(iterations, salt@, password.spec_bytes(), out_len as nat),
        r@.len() == out_len,
{
    let mut out = vec![0u8; out_len];
    ring::pbkdf2::derive(
        ring::pbkdf2::PBKDF2_HMAC_SHA512,
        core::num::NonZeroU32::new(iterations).unwrap(),
        salt.as_slice(),
        password.as_bytes(),
        &mut out,
    );
    out
}

/// Relies on ring::rand::SystemRandom and SecureRandom::fill: fills the
/// buffer with random bytes. Nothing holds of the values; only the length
/// of a successful fill is known.
#[verifier::external_body]
fn random_bytes(len: usize) -> (r: Option<Vec<u8>>)
    ensures
        r matches Some(v) ==> v@.len() == len,
{
    let mut buf = vec![0u8; len];
    let rng = ring::rand::SystemRandom::new();
    match ring::rand::SecureRandom::fill(&rng, &mut buf) {
        Ok(()) => Some(buf),
        Err(_) => None,
    }
}

/// Derives the credential for this password and salt, as both registration
/// and login do: the fixed iteration count, the fixed output width.
pub fn derive_credential(password: &str, salt: &Vec<u8>) -> (r: Vec<u8>)
    requires
        salt@.len() < 0x1000000,
        password@.len() < 0x1000000,
    ensures
        r@ == pbkdf2_sha512_of(
            PBKDF2_ITERATIONS,
            salt@,
            password.spec_bytes(),
            CREDENTIAL_LEN as nat,
        ),
        r@.len() == CREDENTIAL_LEN,
{
    pbkdf2_sha512(PBKDF2_ITERATIONS, salt, password, CREDENTIAL_LEN)
}

/// Builds the registration record for this username, password and salt:
/// rejected exactly when the two password entries differ; otherwise the
/// record carries the derived key and the salt it was derived with.
pub fn prepare_registration(username: &str, password: &str, confirm: &str, salt: Vec<u8>) -> (r:
    Option<NewUser>)
    requires
        salt@.len() == CREDENTIAL_LEN,
        password@.len() < 0x1000000,
    ensures
        match r {
            Some(nu) => password@ == confirm@ && nu@ == (NewUserV {
                username: username@,
                hash: pbkdf2_sha512_of(
                    PBKDF2_ITERATIONS,
                    salt@,
                    password.spec_bytes(),
                    CREDENTIAL_LEN as nat,
                ),
                salt: salt@,
            }),
            None => password@ != confirm@,
        },
{
    if !crate::text::str_eq(password, confirm) {
        return None;
    }
    let hash = derive_credential(password, &salt);
    Some(NewUser { username: String::from_str(username), hash, salt })
}

/// Draws a fresh random salt and builds the registration record. `None`
/// comes back when the password entries differ, or when the system's
/// randomness source fails; whatever came back, a returned record carries a
/// salt of the fixed width and the key derived from it.
pub fn create_account_request(username: &str, password: &str, confirm: &str) -> (r: Option<
    NewUser,
>)
    requires
        password@.len() < 0x1000000,
    ensures
        r matches Some(nu) ==> password@ == confirm@ && nu@.username == username@ && nu@.salt.len()
            == CREDENTIAL_LEN && nu@.hash == pbkdf2_sha512_of(
            PBKDF2_ITERATIONS,
            nu@.salt,
            password.spec_bytes(),
            CREDENTIAL_LEN as nat,
        ),
{
    let salt = match random_bytes(CREDENTIAL_LEN) {
        Some(s) => s,
        None => {
            return None;
        },
    };
    prepare_registration(username, password, confirm, salt)
}

/// Reads the salt out of a `GET_ACCOUNT_KEYS` success payload: present
/// exactly when the payload carries a `salt` array whose elements all fit
/// in a byte.
pub fn salt_from_response(payload: &str) -> (r: Option<Vec<u8>>)
    ensures
        match json_u64s_of(payload@, "salt"@) {
            None => r is None,
            Some(raw) => r.deep_view() == exact_bytes(raw),
        },
{
    match json_u64_array_field(payload, "salt") {
        Some(raw) => to_exact_bytes(&raw),
        None => None,
    }
}

} // verus!
