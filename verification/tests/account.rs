//! The account-checking flow and the client side of the credential
//! derivation, run against the real key-derivation library.

use kms::account::{check_username, get_account_keys, store_in_database, validate_key};
use kms::client::{
    create_account_request, derive_credential, prepare_registration, salt_from_response,
};
use kms::commands::{create_user_record, validate_user_key};
use kms::models::NewUser;
use kms::store::Store;

#[test]
fn check_username_reports_whether_the_name_is_free() {
    let mut store = Store::new();
    assert_eq!(check_username(&store, "{\"username\":\"ana\"}").unwrap(), true);
    store_in_database(
        &mut store,
        NewUser {
            username: String::from("ana"),
            hash: vec![1],
            salt: vec![2],
        },
    )
    .unwrap();
    assert_eq!(check_username(&store, "{\"username\":\"ana\"}").unwrap(), false);
    assert!(check_username(&store, "{}").is_err());
}

#[test]
fn account_keys_and_validation_round_trip() {
    let mut store = Store::new();
    store_in_database(
        &mut store,
        NewUser {
            username: String::from("ana"),
            hash: vec![5, 6],
            salt: vec![7, 8],
        },
    )
    .unwrap();
    let out = get_account_keys(&store, "{\"username\":\"ana\"}").unwrap().unwrap();
    assert_eq!(out, "{\"salt\":[7,8]}");
    assert!(get_account_keys(&store, "{\"username\":\"bob\"}").unwrap().is_none());
    let (user, verified) = validate_key(
        &store,
        "{\"username\":\"ana\",\"hash\":[5,6]}",
    )
    .unwrap()
    .unwrap();
    assert!(verified);
    assert_eq!(user.username, "ana");
    let (_, verified) = validate_key(
        &store,
        "{\"username\":\"ana\",\"hash\":[5,7]}",
    )
    .unwrap()
    .unwrap();
    assert!(!verified);
    assert!(validate_key(&store, "{\"username\":\"ana\"}").is_err());
}

#[test]
fn derivation_is_deterministic_and_depends_on_its_inputs() {
    let salt = vec![1u8; 64];
    let key1 = derive_credential("correct horse", &salt);
    let key2 = derive_credential("correct horse", &salt);
    assert_eq!(key1, key2);
    assert_eq!(key1.len(), 64);
    let other_password = derive_credential("battery staple", &salt);
    assert_ne!(key1, other_password);
    let other_salt = derive_credential("correct horse", &vec![2u8; 64]);
    assert_ne!(key1, other_salt);
    // The derived key is not the password echoed back.
    assert_ne!(&key1[..], "correct horse".as_bytes());
}

#[test]
fn prepare_registration_requires_matching_passwords() {
    assert!(prepare_registration("ana", "pw", "other", vec![0u8; 64]).is_none());
    let record = prepare_registration("ana", "pw", "pw", vec![3u8; 64]).unwrap();
    assert_eq!(record.username, "ana");
    assert_eq!(record.salt, vec![3u8; 64]);
    assert_eq!(record.hash, derive_credential("pw", &vec![3u8; 64]));
}

#[test]
fn registration_through_derivation_validates_with_the_same_password() {
    let mut store = Store::new();
    let record = create_account_request("ana", "secret", "secret").unwrap();
    let salt = record.salt.clone();
    create_user_record(&mut store, record).unwrap();
    let key = derive_credential("secret", &salt);
    assert!(validate_user_key(&store, "ana", &key).is_ok());
    let wrong = derive_credential("wrong", &salt);
    assert_eq!(
        validate_user_key(&store, "ana", &wrong).unwrap_err(),
        kms::errors::ServerError::InvalidPassword
    );
}

#[test]
fn salt_from_response_reads_the_salt_array() {
    assert_eq!(
        salt_from_response("{\"salt\":[1,2,255]}").unwrap(),
        vec![1, 2, 255]
    );
    assert!(salt_from_response("{\"salt\":[1,300]}").is_none());
    assert!(salt_from_response("{}").is_none());
}

#[test]
fn store_in_database_rejects_a_taken_username() {
    let mut store = Store::new();
    store_in_database(
        &mut store,
        NewUser {
            username: String::from("ana"),
            hash: vec![1],
            salt: vec![2],
        },
    )
    .unwrap();
    let second = store_in_database(
        &mut store,
        NewUser {
            username: String::from("ana"),
            hash: vec![3],
            salt: vec![4],
        },
    );
    assert!(second.is_err());
    assert_eq!(store.users.len(), 1);
    assert_eq!(store.users[0].hash, vec![1]);
}
