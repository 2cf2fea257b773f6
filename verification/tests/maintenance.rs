//! The storage-layer delete and edit operations that no wire command
//! reaches.

use kms::commands::{create_group, create_group_kanji, create_kanji, create_user_record, create_vocab, validate_user_key};
use kms::errors::ServerError;
use kms::maintenance::{
    delete_group, delete_group_kanji, delete_group_vocab, delete_kanji, delete_user, delete_vocab,
    edit_kanji_group,
};
use kms::models::{NewUser, User};
use kms::store::Store;

fn populated_store() -> (Store, User) {
    let mut store = Store::new();
    create_user_record(
        &mut store,
        NewUser {
            username: String::from("ana"),
            hash: vec![7; 64],
            salt: vec![9; 64],
        },
    )
    .unwrap();
    let user = validate_user_key(&store, "ana", &vec![7; 64]).unwrap();
    create_kanji(
        &mut store,
        &user,
        "{\"symbol\":\"語\",\"meaning\":\"word\",\"onyomi\":[],\"kunyomi\":[],\"vocab_refs\":[]}",
    )
    .unwrap();
    create_vocab(
        &mut store,
        &user,
        "{\"phrase\":\"言語\",\"meaning\":\"language\",\"reading\":[],\"kanji_refs\":[]}",
    )
    .unwrap();
    create_group(&mut store, &user, "{\"title\":\"chars\",\"vocab\":false}").unwrap();
    create_group_kanji(
        &mut store,
        &user,
        "{\"group_title\":\"chars\",\"kanji_symbol\":\"語\"}",
    )
    .unwrap();
    (store, user)
}

#[test]
fn delete_user_cascades_to_every_owned_record() {
    let (mut store, user) = populated_store();
    assert!(delete_user(&mut store, &user).is_ok());
    assert!(store.users.is_empty());
    assert!(store.kanji.is_empty());
    assert!(store.vocab.is_empty());
    assert!(store.groups.is_empty());
    assert_eq!(
        delete_user(&mut store, &user).unwrap_err(),
        ServerError::InvalidUser
    );
}

#[test]
fn delete_kanji_removes_only_the_named_entry() {
    let (mut store, user) = populated_store();
    assert!(delete_kanji(&mut store, &user, "{\"kanji_symbol\":\"語\"}").is_ok());
    assert!(store.kanji.is_empty());
    // The phrase entry keeps its now-dangling textual reference.
    assert_eq!(store.vocab[0].kanji_refs, vec![Some(String::from("語"))]);
    assert_eq!(
        delete_kanji(&mut store, &user, "{\"kanji_symbol\":\"語\"}").unwrap_err(),
        ServerError::InvalidKanji
    );
    assert_eq!(
        delete_kanji(&mut store, &user, "{}").unwrap_err(),
        ServerError::InvalidFormat
    );
}

#[test]
fn delete_vocab_removes_only_the_named_entry() {
    let (mut store, user) = populated_store();
    assert!(delete_vocab(&mut store, &user, "{\"vocab_phrase\":\"言語\"}").is_ok());
    assert!(store.vocab.is_empty());
    assert_eq!(
        delete_vocab(&mut store, &user, "{\"vocab_phrase\":\"言語\"}").unwrap_err(),
        ServerError::InvalidVocab
    );
}

#[test]
fn delete_group_clears_members_before_removing_the_group() {
    let (mut store, user) = populated_store();
    assert_eq!(store.kanji[0].group_id, Some(store.groups[0].id));
    assert!(delete_group(
        &mut store,
        &user,
        "{\"group_title\":\"chars\",\"group_vocab\":false}"
    )
    .is_ok());
    assert!(store.groups.is_empty());
    assert_eq!(store.kanji[0].group_id, None);
    assert_eq!(
        delete_group(
            &mut store,
            &user,
            "{\"group_title\":\"chars\",\"group_vocab\":false}"
        )
        .unwrap_err(),
        ServerError::InvalidGroup
    );
}

#[test]
fn delete_group_kanji_clears_one_membership() {
    let (mut store, user) = populated_store();
    let payload = "{\"group_title\":\"chars\",\"kanji_symbol\":\"語\"}";
    assert!(delete_group_kanji(&mut store, &user, payload).is_ok());
    assert_eq!(store.kanji[0].group_id, None);
    assert_eq!(
        delete_group_kanji(&mut store, &user, payload).unwrap_err(),
        ServerError::AlreadyRemoved
    );
}

#[test]
fn delete_group_vocab_clears_one_membership() {
    let (mut store, user) = populated_store();
    create_group(&mut store, &user, "{\"title\":\"words\",\"vocab\":true}").unwrap();
    kms::commands::create_group_vocab(
        &mut store,
        &user,
        "{\"group_title\":\"words\",\"vocab_phrase\":\"言語\"}",
    )
    .unwrap();
    let payload = "{\"group_title\":\"words\",\"vocab_phrase\":\"言語\"}";
    assert!(delete_group_vocab(&mut store, &user, payload).is_ok());
    assert_eq!(store.vocab[0].group_id, None);
    assert_eq!(
        delete_group_vocab(&mut store, &user, payload).unwrap_err(),
        ServerError::AlreadyRemoved
    );
}

#[test]
fn edit_kanji_group_never_succeeds_but_unlinks_listed_members() {
    let (mut store, user) = populated_store();
    // The named group exists, so nothing happens.
    assert_eq!(
        edit_kanji_group(
            &mut store,
            &user,
            "{\"group_title\":\"chars\",\"group_colour\":\"#012345\",\"members_removed\":[\"語\"]}"
        )
        .unwrap_err(),
        ServerError::GroupExists
    );
    assert_eq!(store.kanji[0].group_id, Some(store.groups[0].id));
    // An invalid colour is reported before anything else.
    assert_eq!(
        edit_kanji_group(
            &mut store,
            &user,
            "{\"group_title\":\"other\",\"group_colour\":\"#01234Z\",\"members_removed\":[]}"
        )
        .unwrap_err(),
        ServerError::InvalidHexcode
    );
    // With the group absent, the listed members are unlinked — and the
    // operation still reports a format failure, as the storage layer
    // always has.
    assert_eq!(
        edit_kanji_group(
            &mut store,
            &user,
            "{\"group_title\":\"other\",\"group_colour\":\"#012345\",\"members_removed\":[\"語\"]}"
        )
        .unwrap_err(),
        ServerError::InvalidFormat
    );
    assert_eq!(store.kanji[0].group_id, None);
}

#[test]
fn edit_kanji_group_skips_updates_when_a_member_is_not_a_string() {
    let (mut store, user) = populated_store();
    assert_eq!(
        edit_kanji_group(
            &mut store,
            &user,
            "{\"group_title\":\"other\",\"group_colour\":\"#012345\",\"members_removed\":[\"語\",7]}"
        )
        .unwrap_err(),
        ServerError::InvalidFormat
    );
    assert_eq!(store.kanji[0].group_id, Some(store.groups[0].id));
}
