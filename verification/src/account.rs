//! The account-checking flow: the handlers behind the first registration
//! protocol, which check a username, store a prepared account record, hand
//! out stored salts and validate submitted keys.

use vstd::prelude::*;

use crate::commands::{create_user_record, get_salt, validate_user_key};
use crate::errors::ServerError;
use crate::jsonio::{
    bytes_or_zero, json_str_field, json_str_of, json_u64_array_field, json_u64s_of,
    to_bytes_or_zero,
};
use crate::models::{NewUser, User, UserV};
use crate::store::{Store, StoreV, has_user};
use crate::text::keys_match;

verus! {

/// An error without contents: the account flow reports only that a payload
/// could not be read.
#[derive(Debug, Clone)]
pub struct PlainError;

impl PlainError {
    /// A fresh error value.
    pub fn new() -> (r: PlainError) {
        PlainError
    }
}

/// Whether the username named by the payload is free: `Ok(true)` when no
/// user has it, `Ok(false)` when one does, and an error when the payload
/// carries no `username` string.
pub fn check_username(store: &Store, payload: &str) -> (r: Result<bool, PlainError>)
    ensures
        match json_str_of(payload@, "username"@) {
            None => r is Err,
            Some(name) => match r {
                Ok(free) => free == !has_user(store@, name),
                Err(_) => false,
            },
        },
{
    match json_str_field(payload, "username") {
        Some(name) => {
            match store.find_user(name.as_str()) {
                Some(_) => Ok(false),
                None => Ok(true),
            }
        },
        None => Err(PlainError::new()),
    }
}

/// Stores a prepared account record: the record is appended under a fresh
/// id and the count of stored records is returned. A taken username is an
/// error — usernames are unique at all times, so a conflicting record is
/// never written — and then nothing changes.
pub fn store_in_database(store: &mut Store, new_user: NewUser) -> (r: Result<usize, PlainError>)
    requires
        old(store)@.wf(),
        old(store)@.next_id < i32::MAX,
    ensures
        final(store)@.wf(),
        match r {
            Ok(n) => n == 1 && !has_user(old(store)@, new_user@.username) && final(store)@
                == (StoreV {
                users: old(store)@.users.push(
                    UserV {
                        id: old(store)@.next_id,
                        username: new_user@.username,
                        hash: new_user@.hash,
                        salt: new_user@.salt,
                    },
                ),
                next_id: old(store)@.next_id + 1,
                ..old(store)@
            }),
            Err(_) => has_user(old(store)@, new_user@.username) && final(store)@ == old(store)@,
        },
{
    match create_user_record(store, new_user) {
        Ok(()) => Ok(1),
        Err(_) => Err(PlainError::new()),
    }
}

/// Returns the stored salt for the username named by the payload, rendered
/// as the salt response document: `Ok(Some(..))` when the user exists,
/// `Ok(None)` when not, and an error when the payload carries no
/// `username` string.
pub fn get_account_keys(store: &Store, payload: &str) -> (r: Result<Option<String>, PlainError>)
    ensures
        match json_str_of(payload@, "username"@) {
            None => r is Err,
            Some(name) => match r {
                Ok(Some(out)) => exists|i: int|
                    0 <= i < store@.users.len() && store@.users[i].username == name && out@
                        == crate::codec::salt_payload_of(store@.users[i].salt),
                Ok(None) => !has_user(store@, name),
                Err(_) => false,
            },
        },
{
    let name = match json_str_field(payload, "username") {
        Some(n) => n,
        None => {
            return Err(PlainError::new());
        },
    };
    match get_salt(store, name.as_str()) {
        Ok(salt) => Ok(Some(crate::codec::render_salt_payload(&salt))),
        Err(_) => Ok(None),
    }
}

/// Reads the submitted key and username from the payload — a submitted
/// array element that is missing or out of range counts as zero — and
/// compares the key byte for byte, in full, against the stored one.
/// `Ok(Some((user, verified)))` when the user exists, `Ok(None)` when not,
/// and an error when a field is missing.
pub fn validate_key(store: &Store, payload: &str) -> (r: Result<
    Option<(User, bool)>,
    PlainError,
>)
    ensures
        match json_u64s_of(payload@, "hash"@) {
            None => r is Err,
            Some(raw) => match json_str_of(payload@, "username"@) {
                None => r is Err,
                Some(name) => match r {
                    Ok(Some((u, verified))) => exists|i: int|
                        0 <= i < store@.users.len() && store@.users[i].username == name && u@
                            == store@.users[i] && verified == (store@.users[i].hash
                            == bytes_or_zero(raw)),
                    Ok(None) => !has_user(store@, name),
                    Err(_) => false,
                },
            },
        },
{
    let raw = match json_u64_array_field(payload, "hash") {
        Some(h) => h,
        None => {
            return Err(PlainError::new());
        },
    };
    let key = to_bytes_or_zero(&raw);
    let name = match json_str_field(payload, "username") {
        Some(n) => n,
        None => {
            return Err(PlainError::new());
        },
    };
    match store.find_user(name.as_str()) {
        Some(i) => {
            let verified = keys_match(&key, &store.users[i].hash);
            Ok(Some((store.users[i].duplicate(), verified)))
        },
        None => Ok(None),
    }
}

} // verus!
