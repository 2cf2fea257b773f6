//! The storage-layer handlers: registration, credential checks, entry and
//! group creation, and the cross-reference maintenance they perform.

use kms::commands::{
    create_group, create_group_kanji, create_group_vocab, create_kanji, create_user,
    create_user_record, create_vocab, get_account_keys, validate_key, validate_user_key,
};
use kms::errors::ServerError;
use kms::models::{NewUser, User};
use kms::store::Store;

fn store_with_ana() -> (Store, User) {
    let mut store = Store::new();
    create_user_record(
        &mut store,
        NewUser {
            username: String::from("ana"),
            hash: vec![7; 64],
            salt: vec![9; 64],
        },
    )
    .unwrap();
    let user = validate_user_key(&store, "ana", &vec![7; 64]).unwrap();
    (store, user)
}

#[test]
fn register_then_validate_with_correct_key_succeeds() {
    let (store, user) = store_with_ana();
    assert_eq!(user.username, "ana");
    assert_eq!(user.id, 1);
    let again = validate_user_key(&store, "ana", &vec![7; 64]);
    assert!(again.is_ok());
}

#[test]
fn validate_with_other_key_fails_with_invalid_password() {
    let (store, _user) = store_with_ana();
    let mut other = vec![7; 64];
    other[63] = 8;
    assert_eq!(
        validate_user_key(&store, "ana", &other).unwrap_err(),
        ServerError::InvalidPassword
    );
    let mut shorter = vec![7; 63];
    shorter.pop();
    assert_eq!(
        validate_user_key(&store, "ana", &shorter).unwrap_err(),
        ServerError::InvalidPassword
    );
    assert_eq!(
        validate_user_key(&store, "bob", &vec![7; 64]).unwrap_err(),
        ServerError::InvalidUser
    );
}

#[test]
fn registration_rejects_a_repeat_and_keeps_the_record() {
    let (mut store, _user) = store_with_ana();
    let second = create_user_record(
        &mut store,
        NewUser {
            username: String::from("ana"),
            hash: vec![1; 64],
            salt: vec![2; 64],
        },
    );
    assert_eq!(second.unwrap_err(), ServerError::UserExists);
    assert_eq!(store.users.len(), 1);
    assert_eq!(store.users[0].hash, vec![7; 64]);
    assert_eq!(store.users[0].salt, vec![9; 64]);
}

#[test]
fn create_user_parses_payload_and_rejects_bad_ones() {
    let mut store = Store::new();
    assert!(create_user(&mut store, "{\"username\":\"ana\",\"hash\":[1,2],\"salt\":[3]}").is_ok());
    assert_eq!(store.users.len(), 1);
    assert_eq!(store.users[0].hash, vec![1, 2]);
    assert_eq!(
        create_user(&mut store, "{\"username\":\"bob\",\"hash\":[300],\"salt\":[]}").unwrap_err(),
        ServerError::InvalidFormat
    );
    assert_eq!(
        create_user(&mut store, "{\"username\":\"bob\",\"hash\":[1]}").unwrap_err(),
        ServerError::InvalidFormat
    );
    assert_eq!(
        create_user(&mut store, "no json at all").unwrap_err(),
        ServerError::InvalidFormat
    );
    assert_eq!(store.users.len(), 1);
}

#[test]
fn get_account_keys_returns_stored_salt() {
    let (store, _user) = store_with_ana();
    let out = get_account_keys(&store, "{\"user_username\":\"ana\"}").unwrap();
    let value: serde_json::Value = serde_json::from_str(&out).unwrap();
    assert_eq!(value["salt"].as_array().unwrap().len(), 64);
    assert_eq!(value["salt"][0].as_u64().unwrap(), 9);
    assert_eq!(
        get_account_keys(&store, "{\"user_username\":\"bob\"}").unwrap_err(),
        ServerError::InvalidUser
    );
    assert_eq!(
        get_account_keys(&store, "{}").unwrap_err(),
        ServerError::InvalidFormat
    );
}

#[test]
fn validate_key_reads_submitted_array_with_zero_default() {
    let (store, _user) = store_with_ana();
    // A 64-element array of sevens, written out, matches the stored key.
    let sevens = vec!["7"; 64].join(",");
    let ok = validate_key(
        &store,
        &format!("{{\"user_username\":\"ana\",\"user_hash\":[{}]}}", sevens),
    );
    assert!(ok.is_ok());
    // An element that is not a number counts as zero and mismatches.
    let mut parts = vec!["7"; 63];
    parts.push("\"x\"");
    let bad = validate_key(
        &store,
        &format!("{{\"user_username\":\"ana\",\"user_hash\":[{}]}}", parts.join(",")),
    );
    assert_eq!(bad.unwrap_err(), ServerError::InvalidPassword);
}

#[test]
fn create_kanji_links_existing_phrases_both_ways() {
    let (mut store, user) = store_with_ana();
    create_vocab(
        &mut store,
        &user,
        "{\"phrase\":\"言語\",\"meaning\":\"language\",\"reading\":[\"げんご\"],\"kanji_refs\":[]}",
    )
    .unwrap();
    // No character entry for either character yet: no references.
    assert!(store.vocab[0].kanji_refs.is_empty());
    create_kanji(
        &mut store,
        &user,
        "{\"symbol\":\"語\",\"meaning\":\"word\",\"onyomi\":[\"ゴ\"],\"kunyomi\":[null],\"vocab_refs\":[]}",
    )
    .unwrap();
    assert_eq!(store.kanji[0].vocab_refs, vec![Some(String::from("言語"))]);
    assert_eq!(store.vocab[0].kanji_refs, vec![Some(String::from("語"))]);
}

#[test]
fn create_vocab_links_existing_characters_both_ways() {
    let (mut store, user) = store_with_ana();
    create_kanji(
        &mut store,
        &user,
        "{\"symbol\":\"語\",\"meaning\":\"word\",\"onyomi\":[\"ゴ\"],\"kunyomi\":[null],\"vocab_refs\":[]}",
    )
    .unwrap();
    create_vocab(
        &mut store,
        &user,
        "{\"phrase\":\"言語\",\"meaning\":\"language\",\"reading\":[\"げんご\"],\"kanji_refs\":[]}",
    )
    .unwrap();
    assert_eq!(store.kanji[0].vocab_refs, vec![Some(String::from("言語"))]);
    assert_eq!(store.vocab[0].kanji_refs, vec![Some(String::from("語"))]);
}

#[test]
fn duplicate_entries_are_rejected_per_owner() {
    let (mut store, user) = store_with_ana();
    let kanji_payload =
        "{\"symbol\":\"語\",\"meaning\":\"word\",\"onyomi\":[],\"kunyomi\":[],\"vocab_refs\":[]}";
    create_kanji(&mut store, &user, kanji_payload).unwrap();
    assert_eq!(
        create_kanji(&mut store, &user, kanji_payload).unwrap_err(),
        ServerError::KanjiExists
    );
    let vocab_payload =
        "{\"phrase\":\"言語\",\"meaning\":\"language\",\"reading\":[],\"kanji_refs\":[]}";
    create_vocab(&mut store, &user, vocab_payload).unwrap();
    assert_eq!(
        create_vocab(&mut store, &user, vocab_payload).unwrap_err(),
        ServerError::VocabExists
    );
    assert_eq!(store.kanji.len(), 1);
    assert_eq!(store.vocab.len(), 1);
}

#[test]
fn create_group_validates_colour() {
    let (mut store, user) = store_with_ana();
    assert_eq!(
        create_group(
            &mut store,
            &user,
            "{\"title\":\"JLPT N5\",\"vocab\":false,\"colour\":\"#ZZZZZZ\"}"
        )
        .unwrap_err(),
        ServerError::InvalidHexcode
    );
    assert!(store.groups.is_empty());
    assert!(create_group(
        &mut store,
        &user,
        "{\"title\":\"JLPT N5\",\"vocab\":false,\"colour\":\"#1a2B3c\"}"
    )
    .is_ok());
    assert_eq!(store.groups[0].colour, Some(String::from("#1a2B3c")));
    // Absent colour is accepted.
    assert!(create_group(&mut store, &user, "{\"title\":\"plain\",\"vocab\":false}").is_ok());
    assert_eq!(store.groups[1].colour, None);
}

#[test]
fn create_group_rejects_duplicate_title_of_same_kind() {
    let (mut store, user) = store_with_ana();
    create_group(&mut store, &user, "{\"title\":\"t\",\"vocab\":false}").unwrap();
    assert_eq!(
        create_group(&mut store, &user, "{\"title\":\"t\",\"vocab\":false}").unwrap_err(),
        ServerError::GroupExists
    );
    // The same title with the other kind is a different group.
    assert!(create_group(&mut store, &user, "{\"title\":\"t\",\"vocab\":true}").is_ok());
}

#[test]
fn character_entry_never_joins_a_phrase_group() {
    let (mut store, user) = store_with_ana();
    create_group(&mut store, &user, "{\"title\":\"words\",\"vocab\":true}").unwrap();
    create_kanji(
        &mut store,
        &user,
        "{\"symbol\":\"語\",\"meaning\":\"word\",\"onyomi\":[],\"kunyomi\":[],\"vocab_refs\":[]}",
    )
    .unwrap();
    assert_eq!(
        create_group_kanji(
            &mut store,
            &user,
            "{\"group_title\":\"words\",\"kanji_symbol\":\"語\"}"
        )
        .unwrap_err(),
        ServerError::InvalidGroup
    );
    assert_eq!(store.kanji[0].group_id, None);
}

#[test]
fn group_membership_is_set_once() {
    let (mut store, user) = store_with_ana();
    create_group(&mut store, &user, "{\"title\":\"chars\",\"vocab\":false}").unwrap();
    create_kanji(
        &mut store,
        &user,
        "{\"symbol\":\"語\",\"meaning\":\"word\",\"onyomi\":[],\"kunyomi\":[],\"vocab_refs\":[]}",
    )
    .unwrap();
    let payload = "{\"group_title\":\"chars\",\"kanji_symbol\":\"語\"}";
    assert!(create_group_kanji(&mut store, &user, payload).is_ok());
    assert_eq!(store.kanji[0].group_id, Some(store.groups[0].id));
    assert_eq!(
        create_group_kanji(&mut store, &user, payload).unwrap_err(),
        ServerError::AlreadyAdded
    );
    assert_eq!(
        create_group_kanji(
            &mut store,
            &user,
            "{\"group_title\":\"chars\",\"kanji_symbol\":\"missing\"}"
        )
        .unwrap_err(),
        ServerError::InvalidKanji
    );
}

#[test]
fn phrase_entry_joins_only_a_phrase_group() {
    let (mut store, user) = store_with_ana();
    create_group(&mut store, &user, "{\"title\":\"words\",\"vocab\":true}").unwrap();
    create_vocab(
        &mut store,
        &user,
        "{\"phrase\":\"言語\",\"meaning\":\"language\",\"reading\":[],\"kanji_refs\":[]}",
    )
    .unwrap();
    assert!(create_group_vocab(
        &mut store,
        &user,
        "{\"group_title\":\"words\",\"vocab_phrase\":\"言語\"}"
    )
    .is_ok());
    assert_eq!(store.vocab[0].group_id, Some(store.groups[0].id));
    assert_eq!(
        create_group_vocab(
            &mut store,
            &user,
            "{\"group_title\":\"missing\",\"vocab_phrase\":\"言語\"}"
        )
        .unwrap_err(),
        ServerError::InvalidGroup
    );
    assert_eq!(
        create_group_vocab(
            &mut store,
            &user,
            "{\"group_title\":\"words\",\"vocab_phrase\":\"none\"}"
        )
        .unwrap_err(),
        ServerError::InvalidVocab
    );
}

#[test]
fn handlers_reject_a_vanished_owner() {
    let (mut store, user) = store_with_ana();
    store.users.clear();
    assert_eq!(
        create_kanji(
            &mut store,
            &user,
            "{\"symbol\":\"語\",\"meaning\":\"w\",\"onyomi\":[],\"kunyomi\":[],\"vocab_refs\":[]}"
        )
        .unwrap_err(),
        ServerError::InvalidUser
    );
    assert_eq!(
        create_group(&mut store, &user, "{\"title\":\"t\",\"vocab\":false}").unwrap_err(),
        ServerError::InvalidUser
    );
}

#[test]
fn record_ids_are_allocated_up_to_the_limit() {
    let mut store = Store::new();
    store.next_id = i32::MAX - 1;
    assert!(create_user(&mut store, "{\"username\":\"ana\",\"hash\":[1],\"salt\":[2]}").is_ok());
    assert_eq!(store.users[0].id, i32::MAX - 1);
    assert_eq!(store.next_id, i32::MAX);
}
