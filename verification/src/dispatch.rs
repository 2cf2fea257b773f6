//! The command dispatcher: one request in, one response out. A connection's
//! session starts unauthenticated and is bound to a user by the first
//! successful `VALIDATE_KEY`; the transition is one-way — a bound session
//! is never cleared and never re-assigned on the same connection. Commands
//! that require a session are rejected with `UNVERIFIED` while it is
//! absent. Every handler failure becomes a `BAD` envelope carrying a
//! human-readable message, and the connection lives on.

use vstd::prelude::*;

use crate::Package;
use crate::codec::{error_payload_of, salt_payload_of};
use crate::commands::{
    colour_ok, create_group, create_group_kanji, create_group_vocab, create_kanji, create_user,
    create_vocab, get_account_keys, link_kanji, link_vocab, matched_phrase_refs,
    matched_symbol_refs, parsed_new_group, parsed_new_kanji, parsed_new_user, parsed_new_vocab,
    validate_key,
};
use crate::errors::ServerError;
use crate::jsonio::{bytes_or_zero, json_str_of, json_u64s_of};
use crate::models::{GroupV, KanjiV, User, UserV, VocabV};
use crate::store::{Store, StoreV, has_group, has_kanji, has_user, has_user_id, has_vocab};
use crate::text::str_eq;

verus! {

/// A success envelope with this payload.
pub open spec fn is_good_with(r: Package, payload: Seq<char>) -> bool {
    r.header@ == "GOOD"@ && r.payload@ == payload
}

/// A success envelope with an empty payload.
pub open spec fn is_good_empty(r: Package) -> bool {
    r.header@ == "GOOD"@ && r.payload@ == Seq::<char>::empty()
}

/// A failure envelope carrying this failure's message.
pub open spec fn is_bad_with(r: Package, e: ServerError) -> bool {
    r.header@ == "BAD"@ && r.payload@ == error_payload_of(e.spec_message())
}

/// A failure envelope for a request whose header names no command.
pub open spec fn is_bad_invalid_header(r: Package) -> bool {
    r.header@ == "BAD"@ && r.payload@ == error_payload_of("Invalid request header!"@)
}

/// The command names the dispatcher recognises.
pub open spec fn known_command(h: Seq<char>) -> bool {
    ||| h == "GET_ACCOUNT_KEYS"@
    ||| h == "VALIDATE_KEY"@
    ||| h == "CREATE_USER"@
    ||| h == "CREATE_KANJI"@
    ||| h == "CREATE_VOCAB"@
    ||| h == "CREATE_GROUP"@
    ||| h == "CREATE_GROUP_KANJI"@
    ||| h == "CREATE_GROUP_VOCAB"@
}

fn good_with(payload: String) -> (r: Package)
    ensures
        is_good_with(r, payload@),
{
    Package { header: String::from_str("GOOD"), payload }
}

fn good_empty() -> (r: Package)
    ensures
        is_good_empty(r),
{
    Package { header: String::from_str("GOOD"), payload: String::new() }
}

fn bad_with(e: ServerError) -> (r: Package)
    ensures
        is_bad_with(r, e),
{
    Package {
        header: String::from_str("BAD"),
        payload: crate::codec::render_error_payload(e.message()),
    }
}

/// Dispatches one decoded request against the store and this connection's
/// session, and returns the response envelope. The contract spells out,
/// for each command, when the store changes and to what, when the session
/// is bound, and which failure is reported for every other input.
pub fn handle_request(store: &mut Store, session: &mut Option<User>, request: &Package) -> (r:
    Package)
    requires
        old(store)@.wf(),
        old(store)@.next_id < i32::MAX,
    ensures
        final(store)@.wf(),
        // A salt request reads the store and leaves everything unchanged.
        request.header@ == "GET_ACCOUNT_KEYS"@ ==> final(store)@ == old(store)@ && *final(session)
            == *old(session) && (match json_str_of(request.payload@, "user_username"@) {
            None => is_bad_with(r, ServerError::InvalidFormat),
            Some(name) => if has_user(old(store)@, name) {
                exists|i: int|
                    0 <= i < old(store)@.users.len() && old(store)@.users[i].username == name
                        && is_good_with(r, salt_payload_of(old(store)@.users[i].salt))
            } else {
                is_bad_with(r, ServerError::InvalidUser)
            },
        }),
        // Key validation binds the session exactly on a full byte-for-byte
        // match of the submitted key against the stored one — and only an
        // unbound session: a session is set at most once per connection and
        // never re-assigned.
        request.header@ == "VALIDATE_KEY"@ ==> final(store)@ == old(store)@ && (*old(session)
            is Some ==> *final(session) == *old(session)) && (match json_u64s_of(
            request.payload@,
            "user_hash"@,
        ) {
            None => is_bad_with(r, ServerError::InvalidFormat) && *final(session) == *old(session),
            Some(raw) => match json_str_of(request.payload@, "user_username"@) {
                None => is_bad_with(r, ServerError::InvalidFormat) && *final(session) == *old(session),
                Some(name) => if exists|i: int|
                    0 <= i < old(store)@.users.len() && old(store)@.users[i].username == name
                        && old(store)@.users[i].hash == bytes_or_zero(raw) {
                    is_good_empty(r) && (*old(session) is None ==> exists|i: int|
                        0 <= i < old(store)@.users.len() && old(store)@.users[i].username == name
                            && old(store)@.users[i].hash == bytes_or_zero(raw) && match *final(session) {
                            Some(u) => u@ == old(store)@.users[i],
                            None => false,
                        })
                } else if has_user(old(store)@, name) {
                    is_bad_with(r, ServerError::InvalidPassword) && *final(session) == *old(session)
                } else {
                    is_bad_with(r, ServerError::InvalidUser) && *final(session) == *old(session)
                },
            },
        }),
        // Registration needs no session.
        request.header@ == "CREATE_USER"@ ==> *final(session) == *old(session) && (match
        parsed_new_user(request.payload@) {
            None => is_bad_with(r, ServerError::InvalidFormat) && final(store)@ == old(store)@,
            Some(nu) => if has_user(old(store)@, nu.username) {
                is_bad_with(r, ServerError::UserExists) && final(store)@ == old(store)@
            } else {
                is_good_empty(r) && final(store)@ == (StoreV {
                    users: old(store)@.users.push(
                        UserV {
                            id: old(store)@.next_id,
                            username: nu.username,
                            hash: nu.hash,
                            salt: nu.salt,
                        },
                    ),
                    next_id: old(store)@.next_id + 1,
                    ..old(store)@
                })
            },
        }),
        // Commands below require a bound session; without one they are
        // rejected out of hand, whatever the payload holds.
        (request.header@ == "CREATE_KANJI"@ || request.header@ == "CREATE_VOCAB"@
            || request.header@ == "CREATE_GROUP"@ || request.header@ == "CREATE_GROUP_KANJI"@
            || request.header@ == "CREATE_GROUP_VOCAB"@) ==> *final(session) == *old(session) && (
        *old(session) is None ==> is_bad_with(r, ServerError::Unverified) && final(store)@ == old(store)@),
        request.header@ == "CREATE_KANJI"@ && *old(session) is Some ==> {
            let u = (*old(session))->0;
            &&& !has_user_id(old(store)@, u@.id) ==> is_bad_with(r, ServerError::InvalidUser)
                && final(store)@ == old(store)@
            &&& has_user_id(old(store)@, u@.id) ==> match parsed_new_kanji(request.payload@) {
                None => is_bad_with(r, ServerError::InvalidFormat) && final(store)@ == old(store)@,
                Some(nk) => if has_kanji(old(store)@, u@.id, nk.symbol) {
                    is_bad_with(r, ServerError::KanjiExists) && final(store)@ == old(store)@
                } else {
                    is_good_empty(r) && final(store)@ == (StoreV {
                        vocab: old(store)@.vocab.map_values(
                            |v: VocabV| link_vocab(v, u@.id, nk.symbol),
                        ),
                        kanji: old(store)@.kanji.push(
                            KanjiV {
                                id: old(store)@.next_id,
                                symbol: nk.symbol,
                                meaning: nk.meaning,
                                onyomi: nk.onyomi,
                                kunyomi: nk.kunyomi,
                                description: nk.description,
                                vocab_refs: nk.vocab_refs + matched_phrase_refs(
                                    old(store)@.vocab,
                                    u@.id,
                                    nk.symbol,
                                ),
                                user_id: u@.id,
                                group_id: None,
                            },
                        ),
                        next_id: old(store)@.next_id + 1,
                        ..old(store)@
                    })
                },
            }
        },
        request.header@ == "CREATE_VOCAB"@ && *old(session) is Some ==> {
            let u = (*old(session))->0;
            &&& !has_user_id(old(store)@, u@.id) ==> is_bad_with(r, ServerError::InvalidUser)
                && final(store)@ == old(store)@
            &&& has_user_id(old(store)@, u@.id) ==> match parsed_new_vocab(request.payload@) {
                None => is_bad_with(r, ServerError::InvalidFormat) && final(store)@ == old(store)@,
                Some(nv) => if has_vocab(old(store)@, u@.id, nv.phrase) {
                    is_bad_with(r, ServerError::VocabExists) && final(store)@ == old(store)@
                } else {
                    is_good_empty(r) && final(store)@ == (StoreV {
                        kanji: old(store)@.kanji.map_values(
                            |k: KanjiV| link_kanji(k, u@.id, nv.phrase),
                        ),
                        vocab: old(store)@.vocab.push(
                            VocabV {
                                id: old(store)@.next_id,
                                phrase: nv.phrase,
                                meaning: nv.meaning,
                                reading: nv.reading,
                                description: nv.description,
                                kanji_refs: nv.kanji_refs + matched_symbol_refs(
                                    old(store)@.kanji,
                                    u@.id,
                                    nv.phrase,
                                ),
                                user_id: u@.id,
                                group_id: None,
                            },
                        ),
                        next_id: old(store)@.next_id + 1,
                        ..old(store)@
                    })
                },
            }
        },
        request.header@ == "CREATE_GROUP"@ && *old(session) is Some ==> {
            let u = (*old(session))->0;
            &&& !has_user_id(old(store)@, u@.id) ==> is_bad_with(r, ServerError::InvalidUser)
                && final(store)@ == old(store)@
            &&& has_user_id(old(store)@, u@.id) ==> match parsed_new_group(request.payload@) {
                None => is_bad_with(r, ServerError::InvalidFormat) && final(store)@ == old(store)@,
                Some(ng) => if !colour_ok(ng.colour) {
                    is_bad_with(r, ServerError::InvalidHexcode) && final(store)@ == old(store)@
                } else if has_group(old(store)@, u@.id, ng.title, ng.vocab) {
                    is_bad_with(r, ServerError::GroupExists) && final(store)@ == old(store)@
                } else {
                    is_good_empty(r) && final(store)@ == (StoreV {
                        groups: old(store)@.groups.push(
                            GroupV {
                                id: old(store)@.next_id,
                                title: ng.title,
                                colour: ng.colour,
                                vocab: ng.vocab,
                                user_id: u@.id,
                            },
                        ),
                        next_id: old(store)@.next_id + 1,
                        ..old(store)@
                    })
                },
            }
        },
        request.header@ == "CREATE_GROUP_KANJI"@ && *old(session) is Some ==> {
            let u = (*old(session))->0;
            &&& !has_user_id(old(store)@, u@.id) ==> is_bad_with(r, ServerError::InvalidUser)
                && final(store)@ == old(store)@
            &&& has_user_id(old(store)@, u@.id) ==> match (json_str_of(
                request.payload@,
                "group_title"@,
            ), json_str_of(request.payload@, "kanji_symbol"@)) {
                (Some(title), Some(symbol)) => if !has_group(old(store)@, u@.id, title, false) {
                    is_bad_with(r, ServerError::InvalidGroup) && final(store)@ == old(store)@
                } else if !has_kanji(old(store)@, u@.id, symbol) {
                    is_bad_with(r, ServerError::InvalidKanji) && final(store)@ == old(store)@
                } else {
                    (is_good_empty(r) && exists|gi: int, ki: int|
                        0 <= gi < old(store)@.groups.len() && old(store)@.groups[gi].user_id
                            == u@.id && old(store)@.groups[gi].title == title
                            && old(store)@.groups[gi].vocab == false && 0 <= ki
                            < old(store)@.kanji.len() && old(store)@.kanji[ki].user_id == u@.id
                            && old(store)@.kanji[ki].symbol == symbol
                            && old(store)@.kanji[ki].group_id is None && final(store)@
                            == (StoreV {
                            kanji: old(store)@.kanji.update(
                                ki,
                                KanjiV {
                                    group_id: Some(old(store)@.groups[gi].id),
                                    ..old(store)@.kanji[ki]
                                },
                            ),
                            ..old(store)@
                        })) || (is_bad_with(r, ServerError::AlreadyAdded) && final(store)@ == old(store)@ && exists|ki: int|
                        0 <= ki < old(store)@.kanji.len() && old(store)@.kanji[ki].user_id
                            == u@.id && old(store)@.kanji[ki].symbol == symbol
                            && old(store)@.kanji[ki].group_id is Some)
                },
                _ => is_bad_with(r, ServerError::InvalidFormat) && final(store)@ == old(store)@,
            }
        },
        request.header@ == "CREATE_GROUP_VOCAB"@ && *old(session) is Some ==> {
            let u = (*old(session))->0;
            &&& !has_user_id(old(store)@, u@.id) ==> is_bad_with(r, ServerError::InvalidUser)
                && final(store)@ == old(store)@
            &&& has_user_id(old(store)@, u@.id) ==> match (json_str_of(
                request.payload@,
                "group_title"@,
            ), json_str_of(request.payload@, "vocab_phrase"@)) {
                (Some(title), Some(phrase)) => if !has_group(old(store)@, u@.id, title, true) {
                    is_bad_with(r, ServerError::InvalidGroup) && final(store)@ == old(store)@
                } else if !has_vocab(old(store)@, u@.id, phrase) {
                    is_bad_with(r, ServerError::InvalidVocab) && final(store)@ == old(store)@
                } else {
                    (is_good_empty(r) && exists|gi: int, vi: int|
                        0 <= gi < old(store)@.groups.len() && old(store)@.groups[gi].user_id
                            == u@.id && old(store)@.groups[gi].title == title
                            && old(store)@.groups[gi].vocab == true && 0 <= vi
                            < old(store)@.vocab.len() && old(store)@.vocab[vi].user_id == u@.id
                            && old(store)@.vocab[vi].phrase == phrase
                            && old(store)@.vocab[vi].group_id is None && final(store)@
                            == (StoreV {
                            vocab: old(store)@.vocab.update(
                                vi,
                                VocabV {
                                    group_id: Some(old(store)@.groups[gi].id),
                                    ..old(store)@.vocab[vi]
                                },
                            ),
                            ..old(store)@
                        })) || (is_bad_with(r, ServerError::AlreadyAdded) && final(store)@ == old(store)@ && exists|vi: int|
                        0 <= vi < old(store)@.vocab.len() && old(store)@.vocab[vi].user_id
                            == u@.id && old(store)@.vocab[vi].phrase == phrase
                            && old(store)@.vocab[vi].group_id is Some)
                },
                _ => is_bad_with(r, ServerError::InvalidFormat) && final(store)@ == old(store)@,
            }
        },
        // Anything else names no command.
        !known_command(request.header@) ==> is_bad_invalid_header(r) && final(store)@ == old(store)@ && *final(session) == *old(session),
{
    proof {
        reveal_strlit("GET_ACCOUNT_KEYS");
        reveal_strlit("VALIDATE_KEY");
        reveal_strlit("CREATE_USER");
        reveal_strlit("CREATE_KANJI");
        reveal_strlit("CREATE_VOCAB");
        reveal_strlit("CREATE_GROUP");
        reveal_strlit("CREATE_GROUP_KANJI");
        reveal_strlit("CREATE_GROUP_VOCAB");
        assert("GET_ACCOUNT_KEYS"@.len() == 16 && "VALIDATE_KEY"@.len() == 12
            && "CREATE_USER"@.len() == 11 && "CREATE_KANJI"@.len() == 12 && "CREATE_VOCAB"@.len()
            == 12 && "CREATE_GROUP"@.len() == 12 && "CREATE_GROUP_KANJI"@.len() == 18
            && "CREATE_GROUP_VOCAB"@.len() == 18);
        assert("VALIDATE_KEY"@[0] == 'V' && "CREATE_KANJI"@[0] == 'C' && "CREATE_VOCAB"@[0] == 'C'
            && "CREATE_GROUP"@[0] == 'C');
        assert("CREATE_KANJI"@[7] == 'K' && "CREATE_VOCAB"@[7] == 'V' && "CREATE_GROUP"@[7]
            == 'G');
        assert("CREATE_GROUP_KANJI"@[13] == 'K' && "CREATE_GROUP_VOCAB"@[13] == 'V');
    }
    let header = request.header.as_str();
    let payload = request.payload.as_str();
    if str_eq(header, "GET_ACCOUNT_KEYS") {
        match get_account_keys(store, payload) {
            Ok(out) => good_with(out),
            Err(e) => bad_with(e),
        }
    } else if str_eq(header, "VALIDATE_KEY") {
        match validate_key(store, payload) {
            Ok(u) => {
                // The session is bound at most once per connection: a
                // successful validation never replaces an existing binding.
                if session.is_none() {
                    *session = Some(u);
                }
                good_empty()
            },
            Err(e) => bad_with(e),
        }
    } else if str_eq(header, "CREATE_USER") {
        match create_user(store, payload) {
            Ok(()) => good_empty(),
            Err(e) => bad_with(e),
        }
    } else if str_eq(header, "CREATE_KANJI") {
        match session.as_ref() {
            Some(u) => match create_kanji(store, u, payload) {
                Ok(()) => good_empty(),
                Err(e) => bad_with(e),
            },
            None => bad_with(ServerError::Unverified),
        }
    } else if str_eq(header, "CREATE_VOCAB") {
        match session.as_ref() {
            Some(u) => match create_vocab(store, u, payload) {
                Ok(()) => good_empty(),
                Err(e) => bad_with(e),
            },
            None => bad_with(ServerError::Unverified),
        }
    } else if str_eq(header, "CREATE_GROUP") {
        match session.as_ref() {
            Some(u) => match create_group(store, u, payload) {
                Ok(()) => good_empty(),
                Err(e) => bad_with(e),
            },
            None => bad_with(ServerError::Unverified),
        }
    } else if str_eq(header, "CREATE_GROUP_KANJI") {
        match session.as_ref() {
            Some(u) => match create_group_kanji(store, u, payload) {
                Ok(()) => good_empty(),
                Err(e) => bad_with(e),
            },
            None => bad_with(ServerError::Unverified),
        }
    } else if str_eq(header, "CREATE_GROUP_VOCAB") {
        match session.as_ref() {
            Some(u) => match create_group_vocab(store, u, payload) {
                Ok(()) => good_empty(),
                Err(e) => bad_with(e),
            },
            None => bad_with(ServerError::Unverified),
        }
    } else {
        Package {
            header: String::from_str("BAD"),
            payload: crate::codec::render_error_payload("Invalid request header!"),
        }
    }
}

} // verus!
