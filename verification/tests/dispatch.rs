//! The dispatcher: session gating, error envelopes, and the full
//! registration-to-group scenario over the wire shapes.

use kms::Package;
use kms::dispatch::handle_request;
use kms::models::User;
use kms::store::Store;

fn request(header: &str, payload: &str) -> Package {
    Package {
        header: String::from(header),
        payload: String::from(payload),
    }
}

fn send(
    store: &mut Store,
    session: &mut Option<User>,
    header: &str,
    payload: &str,
) -> Package {
    assert!(store.next_id < i32::MAX);
    handle_request(store, session, &request(header, payload))
}

#[test]
fn unauthenticated_create_kanji_is_rejected_whatever_the_payload() {
    let mut store = Store::new();
    let mut session: Option<User> = None;
    let valid =
        "{\"symbol\":\"語\",\"meaning\":\"word\",\"onyomi\":[],\"kunyomi\":[],\"vocab_refs\":[]}";
    for payload in [valid, "", "garbage", "{}"] {
        let response = send(&mut store, &mut session, "CREATE_KANJI", payload);
        assert_eq!(response.header, "BAD");
        assert_eq!(
            response.payload,
            "{\"error\":\"Unverified request! Login to a valid account to make this request...\"}"
        );
    }
    assert!(store.kanji.is_empty());
    assert!(session.is_none());
}

#[test]
fn unknown_header_yields_bad_invalid_request() {
    let mut store = Store::new();
    let mut session: Option<User> = None;
    let response = send(&mut store, &mut session, "NO_SUCH_COMMAND", "{}");
    assert_eq!(response.header, "BAD");
    assert_eq!(response.payload, "{\"error\":\"Invalid request header!\"}");
}

#[test]
fn end_to_end_scenario_registers_logs_in_and_creates_a_group() {
    let mut store = Store::new();
    let mut session: Option<User> = None;

    // Register.
    let response = send(
        &mut store,
        &mut session,
        "CREATE_USER",
        "{\"username\":\"ana\",\"hash\":[1,2,3],\"salt\":[4,5,6]}",
    );
    assert_eq!(response.header, "GOOD");
    assert_eq!(response.payload, "");

    // Fetch the salt back.
    let response = send(
        &mut store,
        &mut session,
        "GET_ACCOUNT_KEYS",
        "{\"user_username\":\"ana\"}",
    );
    assert_eq!(response.header, "GOOD");
    assert_eq!(response.payload, "{\"salt\":[4,5,6]}");

    // Validate the key: the session becomes authenticated.
    assert!(session.is_none());
    let response = send(
        &mut store,
        &mut session,
        "VALIDATE_KEY",
        "{\"user_username\":\"ana\",\"user_hash\":[1,2,3]}",
    );
    assert_eq!(response.header, "GOOD");
    assert_eq!(response.payload, "");
    assert_eq!(session.as_ref().unwrap().username, "ana");

    // Create a group.
    let group_payload = "{\"title\":\"JLPT N5\",\"vocab\":false,\"colour\":\"#ff0000\"}";
    let response = send(&mut store, &mut session, "CREATE_GROUP", group_payload);
    assert_eq!(response.header, "GOOD");
    assert_eq!(response.payload, "");

    // The same group again is rejected.
    let response = send(&mut store, &mut session, "CREATE_GROUP", group_payload);
    assert_eq!(response.header, "BAD");
    assert_eq!(
        response.payload,
        "{\"error\":\"Group already exists in database!\"}"
    );
    assert_eq!(store.groups.len(), 1);
}

#[test]
fn validate_key_reports_wrong_password_and_unknown_user() {
    let mut store = Store::new();
    let mut session: Option<User> = None;
    send(
        &mut store,
        &mut session,
        "CREATE_USER",
        "{\"username\":\"ana\",\"hash\":[1,2,3],\"salt\":[4]}",
    );
    let response = send(
        &mut store,
        &mut session,
        "VALIDATE_KEY",
        "{\"user_username\":\"ana\",\"user_hash\":[1,2,4]}",
    );
    assert_eq!(response.header, "BAD");
    assert_eq!(
        response.payload,
        "{\"error\":\"Password is invalid! Please re-enter your password...\"}"
    );
    assert!(session.is_none());
    let response = send(
        &mut store,
        &mut session,
        "VALIDATE_KEY",
        "{\"user_username\":\"bob\",\"user_hash\":[1]}",
    );
    assert_eq!(response.header, "BAD");
    assert_eq!(
        response.payload,
        "{\"error\":\"User does not exist! Please enter a valid username...\"}"
    );
}

#[test]
fn duplicate_registration_reports_user_exists() {
    let mut store = Store::new();
    let mut session: Option<User> = None;
    let payload = "{\"username\":\"ana\",\"hash\":[1],\"salt\":[2]}";
    send(&mut store, &mut session, "CREATE_USER", payload);
    let response = send(&mut store, &mut session, "CREATE_USER", payload);
    assert_eq!(response.header, "BAD");
    assert_eq!(
        response.payload,
        "{\"error\":\"Username already exists! Please enter a different username...\"}"
    );
}

#[test]
fn authenticated_commands_work_through_the_dispatcher() {
    let mut store = Store::new();
    let mut session: Option<User> = None;
    send(
        &mut store,
        &mut session,
        "CREATE_USER",
        "{\"username\":\"ana\",\"hash\":[1],\"salt\":[2]}",
    );
    send(
        &mut store,
        &mut session,
        "VALIDATE_KEY",
        "{\"user_username\":\"ana\",\"user_hash\":[1]}",
    );
    let response = send(
        &mut store,
        &mut session,
        "CREATE_KANJI",
        "{\"symbol\":\"語\",\"meaning\":\"word\",\"onyomi\":[],\"kunyomi\":[],\"vocab_refs\":[]}",
    );
    assert_eq!(response.header, "GOOD");
    let response = send(
        &mut store,
        &mut session,
        "CREATE_VOCAB",
        "{\"phrase\":\"言語\",\"meaning\":\"language\",\"reading\":[],\"kanji_refs\":[]}",
    );
    assert_eq!(response.header, "GOOD");
    assert_eq!(store.kanji[0].vocab_refs, vec![Some(String::from("言語"))]);
    assert_eq!(store.vocab[0].kanji_refs, vec![Some(String::from("語"))]);
    let response = send(
        &mut store,
        &mut session,
        "CREATE_GROUP",
        "{\"title\":\"chars\",\"vocab\":false}",
    );
    assert_eq!(response.header, "GOOD");
    let response = send(
        &mut store,
        &mut session,
        "CREATE_GROUP_KANJI",
        "{\"group_title\":\"chars\",\"kanji_symbol\":\"語\"}",
    );
    assert_eq!(response.header, "GOOD");
    assert_eq!(store.kanji[0].group_id, Some(store.groups[0].id));
    let response = send(
        &mut store,
        &mut session,
        "CREATE_GROUP_VOCAB",
        "{\"group_title\":\"chars\",\"vocab_phrase\":\"言語\"}",
    );
    assert_eq!(response.header, "BAD");
    assert_eq!(
        response.payload,
        "{\"error\":\"Group selected does not exist! Pick a valid group...\"}"
    );
    let response = send(&mut store, &mut session, "CREATE_KANJI", "{\"symbol\":7}");
    assert_eq!(response.header, "BAD");
    assert_eq!(
        response.payload,
        "{\"error\":\"Request body format is ill-formed!\"}"
    );
}

#[test]
fn a_bound_session_is_never_reassigned() {
    let mut store = Store::new();
    let mut session: Option<User> = None;
    send(
        &mut store,
        &mut session,
        "CREATE_USER",
        "{\"username\":\"ana\",\"hash\":[1],\"salt\":[2]}",
    );
    send(
        &mut store,
        &mut session,
        "CREATE_USER",
        "{\"username\":\"bob\",\"hash\":[3],\"salt\":[4]}",
    );
    send(
        &mut store,
        &mut session,
        "VALIDATE_KEY",
        "{\"user_username\":\"ana\",\"user_hash\":[1]}",
    );
    assert_eq!(session.as_ref().unwrap().username, "ana");
    // A second successful validation, for another user, leaves the
    // session bound to the first: the transition is one-way.
    let response = send(
        &mut store,
        &mut session,
        "VALIDATE_KEY",
        "{\"user_username\":\"bob\",\"user_hash\":[3]}",
    );
    assert_eq!(response.header, "GOOD");
    assert_eq!(session.as_ref().unwrap().username, "ana");
    // A failed validation leaves it bound too.
    let response = send(
        &mut store,
        &mut session,
        "VALIDATE_KEY",
        "{\"user_username\":\"bob\",\"user_hash\":[9]}",
    );
    assert_eq!(response.header, "BAD");
    assert_eq!(session.as_ref().unwrap().username, "ana");
}
