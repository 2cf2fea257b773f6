//! The storage-layer command handlers, each an atomic transformation of the
//! record store with an exact contract: what it checks, in which order, what
//! it mutates, and which failure code it returns on every other input.

use vstd::prelude::*;

use crate::errors::ServerError;
use crate::jsonio::{
    bytes_or_zero, exact_bytes, json_bool_field, json_bool_of, json_str_array_field, json_str_field,
    json_str_of, json_strs_of, json_u64_array_field, json_u64s_of, to_bytes_or_zero,
    to_exact_bytes,
};
use crate::models::{
    Group, GroupV, Kanji, KanjiV, NewGroup, NewGroupV, NewKanji, NewKanjiV, NewUser, NewUserV,
    NewVocab, NewVocabV, User, UserV, Vocab, VocabV, clone_bytes, clone_string,
};
use crate::store::{
    Store, StoreV, group_ref_ok, has_group, has_kanji, has_user, has_user_id, has_vocab,
};
use crate::text::{contains_seq, contains_str, is_valid_colour, keys_match, spec_valid_colour};

verus! {

/// A group colour is acceptable when it is absent or a valid colour code.
pub open spec fn colour_ok(c: Option<Seq<char>>) -> bool {
    match c {
        None => true,
        Some(s) => spec_valid_colour(s),
    }
}

proof fn lemma_user_push_wf(s1: StoreV, s2: StoreV, u: UserV)
    requires
        s1.wf(),
        s1.next_id < i32::MAX,
        u.id == s1.next_id,
        forall|i: int| 0 <= i < s1.users.len() ==> s1.users[i].username != u.username,
        s2.users == s1.users.push(u),
        s2.kanji == s1.kanji,
        s2.vocab == s1.vocab,
        s2.groups == s1.groups,
        s2.next_id == s1.next_id + 1,
    ensures
        s2.wf(),
{
    assert forall|i: int| 0 <= i < s2.kanji.len() implies has_user_id(
        s2,
        #[trigger] s2.kanji[i].user_id,
    ) by {
        let w = choose|k: int|
            0 <= k < s1.users.len() && s1.users[k].id == s1.kanji[i].user_id;
        assert(s2.users[w].id == s2.kanji[i].user_id);
    }
    assert forall|i: int| 0 <= i < s2.vocab.len() implies has_user_id(
        s2,
        #[trigger] s2.vocab[i].user_id,
    ) by {
        let w = choose|k: int|
            0 <= k < s1.users.len() && s1.users[k].id == s1.vocab[i].user_id;
        assert(s2.users[w].id == s2.vocab[i].user_id);
    }
    assert forall|i: int| 0 <= i < s2.groups.len() implies has_user_id(
        s2,
        #[trigger] s2.groups[i].user_id,
    ) by {
        let w = choose|k: int|
            0 <= k < s1.users.len() && s1.users[k].id == s1.groups[i].user_id;
        assert(s2.users[w].id == s2.groups[i].user_id);
    }
    assert forall|i: int| 0 <= i < s2.kanji.len() implies group_ref_ok(
        s2,
        #[trigger] s2.kanji[i].group_id,
        s2.kanji[i].user_id,
        false,
    ) by {
        assert(group_ref_ok(s1, s1.kanji[i].group_id, s1.kanji[i].user_id, false));
        if s1.kanji[i].group_id is Some {
            let g = s1.kanji[i].group_id->0;
            let w = choose|k: int|
                0 <= k < s1.groups.len() && s1.groups[k].id == g && s1.groups[k].user_id
                    == s1.kanji[i].user_id && s1.groups[k].vocab == false;
            assert(0 <= w < s2.groups.len() && s2.groups[w].id == g && s2.groups[w].user_id
                == s2.kanji[i].user_id && s2.groups[w].vocab == false);
        }
    }
    assert forall|i: int| 0 <= i < s2.vocab.len() implies group_ref_ok(
        s2,
        #[trigger] s2.vocab[i].group_id,
        s2.vocab[i].user_id,
        true,
    ) by {
        assert(group_ref_ok(s1, s1.vocab[i].group_id, s1.vocab[i].user_id, true));
        if s1.vocab[i].group_id is Some {
            let g = s1.vocab[i].group_id->0;
            let w = choose|k: int|
                0 <= k < s1.groups.len() && s1.groups[k].id == g && s1.groups[k].user_id
                    == s1.vocab[i].user_id && s1.groups[k].vocab == true;
            assert(0 <= w < s2.groups.len() && s2.groups[w].id == g && s2.groups[w].user_id
                == s2.vocab[i].user_id && s2.groups[w].vocab == true);
        }
    }
}

/// Registers a user: appends the record under a fresh id unless the
/// username is already taken, in which case nothing changes.
pub fn create_user_record(store: &mut Store, nu: NewUser) -> (r: Result<(), ServerError>)
    requires
        old(store)@.wf(),
        old(store)@.next_id < i32::MAX,
    ensures
        final(store)@.wf(),
        match r {
            Ok(()) => !has_user(old(store)@, nu@.username) && final(store)@ == (StoreV {
                users: old(store)@.users.push(
                    UserV {
                        id: old(store)@.next_id,
                        username: nu@.username,
                        hash: nu@.hash,
                        salt: nu@.salt,
                    },
                ),
                next_id: old(store)@.next_id + 1,
                ..old(store)@
            }),
            Err(e) => e == ServerError::UserExists && has_user(old(store)@, nu@.username)
                && final(store)@ == old(store)@,
        },
{
    match store.find_user(nu.username.as_str()) {
        Some(_) => Err(ServerError::UserExists),
        None => {
            let ghost s1 = store@;
            let id = store.next_id;
            let ghost u = UserV { id: id as int, username: nu@.username, hash: nu@.hash, salt: nu@.salt };
            store.users.push(
                User { id, username: nu.username, hash: nu.hash, salt: nu.salt },
            );
            store.next_id = id + 1;
            proof {
                assert(store@.users =~= s1.users.push(u));
                assert(store@ =~~= (StoreV {
                    users: s1.users.push(u),
                    next_id: s1.next_id + 1,
                    ..s1
                }));
                lemma_user_push_wf(s1, store@, u);
            }
            Ok(())
        },
    }
}

/// Looks a user up by username and returns the stored salt, or
/// `INVALID_USER` if no such user exists. The store is read, never changed.
pub fn get_salt(store: &Store, name: &str) -> (r: Result<Vec<u8>, ServerError>)
    ensures
        match r {
            Ok(salt) => exists|i: int|
                0 <= i < store@.users.len() && store@.users[i].username == name@
                    && salt@ == store@.users[i].salt,
            Err(e) => e == ServerError::InvalidUser && !has_user(store@, name@),
        },
{
    match store.find_user(name) {
        Some(i) => Ok(clone_bytes(&store.users[i].salt)),
        None => Err(ServerError::InvalidUser),
    }
}

/// Verifies a submitted derived key against the stored one for this
/// username, comparing byte for byte in full. On a match the user record is
/// returned, so the caller can bind the session to it; otherwise
/// `INVALID_PASSWORD`, or `INVALID_USER` when the username is unknown. The
/// store is read, never changed.
pub fn validate_user_key(store: &Store, name: &str, key: &Vec<u8>) -> (r: Result<
    User,
    ServerError,
>)
    ensures
        match r {
            Ok(u) => exists|i: int|
                0 <= i < store@.users.len() && store@.users[i].username == name@ && u@
                    == store@.users[i] && store@.users[i].hash == key@,
            Err(e) => {
                ||| (e == ServerError::InvalidUser && !has_user(store@, name@))
                ||| (e == ServerError::InvalidPassword && exists|i: int|
                    0 <= i < store@.users.len() && store@.users[i].username == name@
                        && store@.users[i].hash != key@)
            },
        },
{
    match store.find_user(name) {
        Some(i) => {
            if keys_match(key, &store.users[i].hash) {
                Ok(store.users[i].duplicate())
            } else {
                Err(ServerError::InvalidPassword)
            }
        },
        None => Err(ServerError::InvalidUser),
    }
}

proof fn lemma_group_push_wf(s1: StoreV, s2: StoreV, g: GroupV)
    requires
        s1.wf(),
        s1.next_id < i32::MAX,
        g.id == s1.next_id,
        has_user_id(s1, g.user_id),
        forall|i: int|
            0 <= i < s1.groups.len() ==> !(s1.groups[i].user_id == g.user_id
                && s1.groups[i].title == g.title && s1.groups[i].vocab == g.vocab),
        s2.groups == s1.groups.push(g),
        s2.kanji == s1.kanji,
        s2.vocab == s1.vocab,
        s2.users == s1.users,
        s2.next_id == s1.next_id + 1,
    ensures
        s2.wf(),
{
    assert forall|i: int| 0 <= i < s2.kanji.len() implies has_user_id(
        s2,
        #[trigger] s2.kanji[i].user_id,
    ) by {
        let w = choose|k: int|
            0 <= k < s1.users.len() && s1.users[k].id == s1.kanji[i].user_id;
        assert(s2.users[w].id == s2.kanji[i].user_id);
    }
    assert forall|i: int| 0 <= i < s2.vocab.len() implies has_user_id(
        s2,
        #[trigger] s2.vocab[i].user_id,
    ) by {
        let w = choose|k: int|
            0 <= k < s1.users.len() && s1.users[k].id == s1.vocab[i].user_id;
        assert(s2.users[w].id == s2.vocab[i].user_id);
    }
    assert forall|i: int| 0 <= i < s2.groups.len() implies has_user_id(
        s2,
        #[trigger] s2.groups[i].user_id,
    ) by {
        if i < s1.groups.len() {
            let w = choose|k: int|
                0 <= k < s1.users.len() && s1.users[k].id == s1.groups[i].user_id;
            assert(s2.users[w].id == s2.groups[i].user_id);
        } else {
            assert(s2.groups[i] == g);
            let w = choose|k: int| 0 <= k < s1.users.len() && s1.users[k].id == g.user_id;
            assert(s2.users[w].id == s2.groups[i].user_id);
        }
    }
    assert forall|i: int| 0 <= i < s2.kanji.len() implies group_ref_ok(
        s2,
        #[trigger] s2.kanji[i].group_id,
        s2.kanji[i].user_id,
        false,
    ) by {
        assert(group_ref_ok(s1, s1.kanji[i].group_id, s1.kanji[i].user_id, false));
        if s1.kanji[i].group_id is Some {
            let gg = s1.kanji[i].group_id->0;
            let w = choose|k: int|
                0 <= k < s1.groups.len() && s1.groups[k].id == gg && s1.groups[k].user_id
                    == s1.kanji[i].user_id && s1.groups[k].vocab == false;
            assert(0 <= w < s2.groups.len() && s2.groups[w].id == gg && s2.groups[w].user_id
                == s2.kanji[i].user_id && s2.groups[w].vocab == false);
        }
    }
    assert forall|i: int| 0 <= i < s2.vocab.len() implies group_ref_ok(
        s2,
        #[trigger] s2.vocab[i].group_id,
        s2.vocab[i].user_id,
        true,
    ) by {
        assert(group_ref_ok(s1, s1.vocab[i].group_id, s1.vocab[i].user_id, true));
        if s1.vocab[i].group_id is Some {
            let gg = s1.vocab[i].group_id->0;
            let w = choose|k: int|
                0 <= k < s1.groups.len() && s1.groups[k].id == gg && s1.groups[k].user_id
                    == s1.vocab[i].user_id && s1.groups[k].vocab == true;
            assert(0 <= w < s2.groups.len() && s2.groups[w].id == gg && s2.groups[w].user_id
                == s2.vocab[i].user_id && s2.groups[w].vocab == true);
        }
    }
}

/// Creates a group for the user: checks that the owner still exists, that
/// the colour (if given) is a valid code, and that no group with the same
/// title and kind exists for this owner; then appends the group under a
/// fresh id. On any failure nothing changes.
pub fn create_group_record(store: &mut Store, uid: i32, ng: NewGroup) -> (r: Result<
    (),
    ServerError,
>)
    requires
        old(store)@.wf(),
        old(store)@.next_id < i32::MAX,
    ensures
        final(store)@.wf(),
        match r {
            Ok(()) => has_user_id(old(store)@, uid as int) && colour_ok(ng@.colour) && !has_group(
                old(store)@,
                uid as int,
                ng@.title,
                ng@.vocab,
            ) && final(store)@ == (StoreV {
                groups: old(store)@.groups.push(
                    GroupV {
                        id: old(store)@.next_id,
                        title: ng@.title,
                        colour: ng@.colour,
                        vocab: ng@.vocab,
                        user_id: uid as int,
                    },
                ),
                next_id: old(store)@.next_id + 1,
                ..old(store)@
            }),
            Err(e) => final(store)@ == old(store)@ && {
                ||| (e == ServerError::InvalidUser && !has_user_id(old(store)@, uid as int))
                ||| (e == ServerError::InvalidHexcode && has_user_id(old(store)@, uid as int)
                    && !colour_ok(ng@.colour))
                ||| (e == ServerError::GroupExists && has_user_id(old(store)@, uid as int)
                    && colour_ok(ng@.colour) && has_group(
                    old(store)@,
                    uid as int,
                    ng@.title,
                    ng@.vocab,
                ))
            },
        },
{
    if store.find_user_by_id(uid).is_none() {
        return Err(ServerError::InvalidUser);
    }
    let colour_is_ok = match &ng.colour {
        None => true,
        Some(c) => is_valid_colour(c.as_str()),
    };
    if !colour_is_ok {
        return Err(ServerError::InvalidHexcode);
    }
    match store.find_group(uid, ng.title.as_str(), ng.vocab) {
        Some(_) => Err(ServerError::GroupExists),
        None => {
            let ghost s1 = store@;
            let id = store.next_id;
            let ghost g = GroupV {
                id: id as int,
                title: ng@.title,
                colour: ng@.colour,
                vocab: ng@.vocab,
                user_id: uid as int,
            };
            store.groups.push(
                Group { id, title: ng.title, colour: ng.colour, vocab: ng.vocab, user_id: uid },
            );
            store.next_id = id + 1;
            proof {
                assert(store@.groups =~= s1.groups.push(g));
                assert(store@ =~~= (StoreV {
                    groups: s1.groups.push(g),
                    next_id: s1.next_id + 1,
                    ..s1
                }));
                lemma_group_push_wf(s1, store@, g);
            }
            Ok(())
        },
    }
}

/// The phrase entry as creating a character entry with symbol `sym` for
/// owner `uid` leaves it: an entry of that owner whose phrase contains the
/// symbol gains a reference to it; every other entry is untouched.
pub open spec fn link_vocab(v: VocabV, uid: int, sym: Seq<char>) -> VocabV {
    if v.user_id == uid && contains_seq(v.phrase, sym) {
        VocabV { kanji_refs: v.kanji_refs.push(Some(sym)), ..v }
    } else {
        v
    }
}

/// The phrase references a new character entry picks up: the phrase of each
/// entry of the owner that contains the symbol, in store order.
pub open spec fn matched_phrase_refs(vs: Seq<VocabV>, uid: int, sym: Seq<char>) -> Seq<
    Option<Seq<char>>,
>
    decreases vs.len(),
{
    if vs.len() == 0 {
        Seq::empty()
    } else {
        matched_phrase_refs(vs.drop_last(), uid, sym) + (
        if vs.last().user_id == uid && contains_seq(vs.last().phrase, sym) {
            seq![Some(vs.last().phrase)]
        } else {
            Seq::empty()
        })
    }
}

proof fn lemma_create_kanji_wf(s1: StoreV, s2: StoreV, k: KanjiV)
    requires
        s1.wf(),
        s1.next_id < i32::MAX,
        has_user_id(s1, k.user_id),
        !has_kanji(s1, k.user_id, k.symbol),
        k.id == s1.next_id,
        k.group_id is None,
        s2.users == s1.users,
        s2.groups == s1.groups,
        s2.kanji == s1.kanji.push(k),
        s2.vocab.len() == s1.vocab.len(),
        forall|i: int|
            0 <= i < s1.vocab.len() ==> #[trigger] s2.vocab[i] == link_vocab(
                s1.vocab[i],
                k.user_id,
                k.symbol,
            ),
        s2.next_id == s1.next_id + 1,
    ensures
        s2.wf(),
{
    assert forall|i: int| 0 <= i < s1.vocab.len() implies s2.vocab[i].id == s1.vocab[i].id
        && s2.vocab[i].user_id == s1.vocab[i].user_id && s2.vocab[i].phrase == s1.vocab[i].phrase
        && s2.vocab[i].group_id == s1.vocab[i].group_id by {
        assert(s2.vocab[i] == link_vocab(s1.vocab[i], k.user_id, k.symbol));
    }
    assert forall|i: int, j: int| 0 <= i < j < s2.kanji.len() implies s2.kanji[i].id
        != s2.kanji[j].id && !(s2.kanji[i].user_id == s2.kanji[j].user_id && s2.kanji[i].symbol
        == s2.kanji[j].symbol) by {
        if j == s1.kanji.len() {
            assert(s2.kanji[j] == k);
            assert(s2.kanji[i] == s1.kanji[i]);
            if s1.kanji[i].user_id == k.user_id && s1.kanji[i].symbol == k.symbol {
                assert(has_kanji(s1, k.user_id, k.symbol));
            }
        }
    }
    assert forall|i: int| 0 <= i < s2.kanji.len() implies has_user_id(
        s2,
        #[trigger] s2.kanji[i].user_id,
    ) by {
        let uid = s2.kanji[i].user_id;
        assert(has_user_id(s1, uid)) by {
            if i < s1.kanji.len() {
                assert(s2.kanji[i] == s1.kanji[i]);
            } else {
                assert(s2.kanji[i] == k);
            }
        }
        let w = choose|q: int| 0 <= q < s1.users.len() && s1.users[q].id == uid;
        assert(s2.users[w].id == uid);
    }
    assert forall|i: int| 0 <= i < s2.vocab.len() implies has_user_id(
        s2,
        #[trigger] s2.vocab[i].user_id,
    ) by {
        let w = choose|q: int|
            0 <= q < s1.users.len() && s1.users[q].id == s1.vocab[i].user_id;
        assert(s2.users[w].id == s2.vocab[i].user_id);
    }
    assert forall|i: int| 0 <= i < s2.groups.len() implies has_user_id(
        s2,
        #[trigger] s2.groups[i].user_id,
    ) by {
        let w = choose|q: int|
            0 <= q < s1.users.len() && s1.users[q].id == s1.groups[i].user_id;
        assert(s2.users[w].id == s2.groups[i].user_id);
    }
    assert forall|i: int| 0 <= i < s2.kanji.len() implies group_ref_ok(
        s2,
        #[trigger] s2.kanji[i].group_id,
        s2.kanji[i].user_id,
        false,
    ) by {
        if i < s1.kanji.len() {
            assert(s2.kanji[i] == s1.kanji[i]);
            assert(group_ref_ok(s1, s1.kanji[i].group_id, s1.kanji[i].user_id, false));
            if s1.kanji[i].group_id is Some {
                let g = s1.kanji[i].group_id->0;
                let w = choose|q: int|
                    0 <= q < s1.groups.len() && s1.groups[q].id == g && s1.groups[q].user_id
                        == s1.kanji[i].user_id && s1.groups[q].vocab == false;
                assert(0 <= w < s2.groups.len() && s2.groups[w].id == g && s2.groups[w].user_id
                    == s2.kanji[i].user_id && s2.groups[w].vocab == false);
            }
        } else {
            assert(s2.kanji[i] == k);
        }
    }
    assert forall|i: int| 0 <= i < s2.vocab.len() implies group_ref_ok(
        s2,
        #[trigger] s2.vocab[i].group_id,
        s2.vocab[i].user_id,
        true,
    ) by {
        assert(group_ref_ok(s1, s1.vocab[i].group_id, s1.vocab[i].user_id, true));
        if s1.vocab[i].group_id is Some {
            let g = s1.vocab[i].group_id->0;
            let w = choose|q: int|
                0 <= q < s1.groups.len() && s1.groups[q].id == g && s1.groups[q].user_id
                    == s1.vocab[i].user_id && s1.groups[q].vocab == true;
            assert(0 <= w < s2.groups.len() && s2.groups[w].id == g && s2.groups[w].user_id
                == s2.vocab[i].user_id && s2.groups[w].vocab == true);
        }
    }
}

/// Creates a character entry for the user and establishes its two-sided
/// links: every phrase entry of the same owner whose phrase contains the
/// new symbol gains a reference to the symbol, and the new entry's phrase
/// references are extended, in store order, with those phrases. Fails with
/// `INVALID_USER` when the owner is gone and `KANJI_EXISTS` when the owner
/// already has the symbol; then nothing changes.
pub fn create_kanji_entry(store: &mut Store, uid: i32, nk: NewKanji) -> (r: Result<
    (),
    ServerError,
>)
    requires
        old(store)@.wf(),
        old(store)@.next_id < i32::MAX,
    ensures
        final(store)@.wf(),
        match r {
            Ok(()) => has_user_id(old(store)@, uid as int) && !has_kanji(
                old(store)@,
                uid as int,
                nk@.symbol,
            ) && final(store)@ == (StoreV {
                vocab: old(store)@.vocab.map_values(
                    |v: VocabV| link_vocab(v, uid as int, nk@.symbol),
                ),
                kanji: old(store)@.kanji.push(
                    KanjiV {
                        id: old(store)@.next_id,
                        symbol: nk@.symbol,
                        meaning: nk@.meaning,
                        onyomi: nk@.onyomi,
                        kunyomi: nk@.kunyomi,
                        description: nk@.description,
                        vocab_refs: nk@.vocab_refs + matched_phrase_refs(
                            old(store)@.vocab,
                            uid as int,
                            nk@.symbol,
                        ),
                        user_id: uid as int,
                        group_id: None,
                    },
                ),
                next_id: old(store)@.next_id + 1,
                ..old(store)@
            }),
            Err(e) => final(store)@ == old(store)@ && {
                ||| (e == ServerError::InvalidUser && !has_user_id(old(store)@, uid as int))
                ||| (e == ServerError::KanjiExists && has_user_id(old(store)@, uid as int)
                    && has_kanji(old(store)@, uid as int, nk@.symbol))
            },
        },
{
    if store.find_user_by_id(uid).is_none() {
        return Err(ServerError::InvalidUser);
    }
    if store.find_kanji(uid, nk.symbol.as_str()).is_some() {
        return Err(ServerError::KanjiExists);
    }
    let ghost s1 = store@;
    let ghost sym = nk@.symbol;
    let ghost nk0 = nk@;
    let mut nk = nk;
    let n = store.vocab.len();
    let mut i: usize = 0;
    while i < n
        invariant
            s1.wf(),
            store@.users == s1.users,
            store@.kanji == s1.kanji,
            store@.groups == s1.groups,
            store@.next_id == s1.next_id,
            n == s1.vocab.len(),
            store@.vocab.len() == n,
            0 <= i <= n,
            forall|j: int|
                0 <= j < i ==> #[trigger] store@.vocab[j] == link_vocab(
                    s1.vocab[j],
                    uid as int,
                    sym,
                ),
            forall|j: int| i <= j < n ==> #[trigger] store@.vocab[j] == s1.vocab[j],
            nk@.symbol == sym,
            nk@.meaning == nk0.meaning,
            nk@.onyomi == nk0.onyomi,
            nk@.kunyomi == nk0.kunyomi,
            nk@.description == nk0.description,
            nk@.user_id == nk0.user_id,
            nk@.vocab_refs == nk0.vocab_refs + matched_phrase_refs(
                s1.vocab.take(i as int),
                uid as int,
                sym,
            ),
        decreases n - i,
    {
        let is_match = store.vocab[i].user_id == uid && contains_str(
            store.vocab[i].phrase.as_str(),
            nk.symbol.as_str(),
        );
        proof {
            assert(s1.vocab.take(i + 1).drop_last() =~= s1.vocab.take(i as int));
            assert(s1.vocab.take(i + 1).last() == s1.vocab[i as int]);
        }
        if is_match {
            let phrase_copy = clone_string(&store.vocab[i].phrase);
            let symbol_copy = clone_string(&nk.symbol);
            let ghost pre = store@;
            let ghost prevec = store.vocab@;
            let ghost prerefs = nk@.vocab_refs;
            store.vocab[i].kanji_refs.push(Some(symbol_copy));
            nk.vocab_refs.push(Some(phrase_copy));
            proof {
                assert(store.vocab@ =~= prevec.update(i as int, store.vocab@[i as int]));
                assert forall|j: int| 0 <= j < n && j != i implies #[trigger] store@.vocab[j]
                    == pre.vocab[j] by {
                    assert(store.vocab@[j] == prevec[j]);
                }
                assert(store@.vocab[i as int] =~~= (VocabV {
                    kanji_refs: pre.vocab[i as int].kanji_refs.push(Some(sym)),
                    ..pre.vocab[i as int]
                }));
                assert(store@.vocab[i as int] =~~= link_vocab(s1.vocab[i as int], uid as int, sym));
                assert(nk@.vocab_refs =~~= prerefs.push(Some(s1.vocab[i as int].phrase)));
                assert(matched_phrase_refs(s1.vocab.take(i + 1), uid as int, sym)
                    == matched_phrase_refs(s1.vocab.take(i as int), uid as int, sym) + seq![
                    Some(s1.vocab[i as int].phrase),
                ]);
                assert(nk@.vocab_refs =~~= nk0.vocab_refs + matched_phrase_refs(
                    s1.vocab.take(i + 1),
                    uid as int,
                    sym,
                ));
                assert(store@.users == s1.users && store@.kanji == s1.kanji && store@.groups
                    == s1.groups && store@.next_id == s1.next_id);
            }
        } else {
            proof {
                assert(store@.vocab[i as int] == s1.vocab[i as int]);
                assert(!(s1.vocab[i as int].user_id == uid as int && contains_seq(
                    s1.vocab[i as int].phrase,
                    sym,
                )));
                assert(matched_phrase_refs(s1.vocab.take(i + 1), uid as int, sym)
                    == matched_phrase_refs(s1.vocab.take(i as int), uid as int, sym)
                    + Seq::<Option<Seq<char>>>::empty());
                assert(nk@.vocab_refs =~~= nk0.vocab_refs + matched_phrase_refs(
                    s1.vocab.take(i + 1),
                    uid as int,
                    sym,
                ));
            }
        }
        i += 1;
    }
    proof {
        assert(s1.vocab.take(n as int) =~= s1.vocab);
    }
    let ghost refs_final = nk@.vocab_refs;
    let id = store.next_id;
    store.kanji.push(
        Kanji {
            id,
            symbol: nk.symbol,
            meaning: nk.meaning,
            onyomi: nk.onyomi,
            kunyomi: nk.kunyomi,
            description: nk.description,
            vocab_refs: nk.vocab_refs,
            user_id: uid,
            group_id: None,
        },
    );
    store.next_id = id + 1;
    proof {
        let k = KanjiV {
            id: s1.next_id,
            symbol: sym,
            meaning: nk0.meaning,
            onyomi: nk0.onyomi,
            kunyomi: nk0.kunyomi,
            description: nk0.description,
            vocab_refs: nk0.vocab_refs + matched_phrase_refs(s1.vocab, uid as int, sym),
            user_id: uid as int,
            group_id: None,
        };
        assert(store@.kanji =~~= s1.kanji.push(k));
        assert(store@ =~~= (StoreV {
            vocab: s1.vocab.map_values(|v: VocabV| link_vocab(v, uid as int, sym)),
            kanji: s1.kanji.push(k),
            next_id: s1.next_id + 1,
            ..s1
        }));
        lemma_create_kanji_wf(s1, store@, k);
    }
    Ok(())
}

proof fn lemma_same_shape_wf(s1: StoreV, s2: StoreV)
    requires
        s1.wf(),
        s2.users == s1.users,
        s2.groups == s1.groups,
        s2.next_id == s1.next_id,
        s2.kanji.len() == s1.kanji.len(),
        s2.vocab.len() == s1.vocab.len(),
        forall|i: int|
            0 <= i < s1.kanji.len() ==> #[trigger] s2.kanji[i].id == s1.kanji[i].id
                && s2.kanji[i].user_id == s1.kanji[i].user_id && s2.kanji[i].symbol
                == s1.kanji[i].symbol,
        forall|i: int|
            0 <= i < s1.vocab.len() ==> #[trigger] s2.vocab[i].id == s1.vocab[i].id
                && s2.vocab[i].user_id == s1.vocab[i].user_id && s2.vocab[i].phrase
                == s1.vocab[i].phrase,
        forall|i: int|
            0 <= i < s1.kanji.len() ==> group_ref_ok(
                s2,
                #[trigger] s2.kanji[i].group_id,
                s2.kanji[i].user_id,
                false,
            ),
        forall|i: int|
            0 <= i < s1.vocab.len() ==> group_ref_ok(
                s2,
                #[trigger] s2.vocab[i].group_id,
                s2.vocab[i].user_id,
                true,
            ),
    ensures
        s2.wf(),
{
    assert forall|i: int| 0 <= i < s2.kanji.len() implies has_user_id(
        s2,
        #[trigger] s2.kanji[i].user_id,
    ) by {
        assert(s2.kanji[i].id == s1.kanji[i].id);
        assert(has_user_id(s1, s1.kanji[i].user_id));
        let w = choose|q: int|
            0 <= q < s1.users.len() && s1.users[q].id == s1.kanji[i].user_id;
        assert(s2.users[w].id == s2.kanji[i].user_id);
    }
    assert forall|i: int| 0 <= i < s2.vocab.len() implies has_user_id(
        s2,
        #[trigger] s2.vocab[i].user_id,
    ) by {
        assert(s2.vocab[i].id == s1.vocab[i].id);
        assert(has_user_id(s1, s1.vocab[i].user_id));
        let w = choose|q: int|
            0 <= q < s1.users.len() && s1.users[q].id == s1.vocab[i].user_id;
        assert(s2.users[w].id == s2.vocab[i].user_id);
    }
    assert forall|i: int| 0 <= i < s2.groups.len() implies has_user_id(
        s2,
        #[trigger] s2.groups[i].user_id,
    ) by {
        assert(has_user_id(s1, s1.groups[i].user_id));
        let w = choose|q: int|
            0 <= q < s1.users.len() && s1.users[q].id == s1.groups[i].user_id;
        assert(s2.users[w].id == s2.groups[i].user_id);
    }
}

/// Adds this owner's character entry to this owner's character group: the
/// entry's group reference is set to the group's id. The group must exist
/// with kind character (`INVALID_GROUP` otherwise — a phrase group of the
/// same title never matches), the entry must exist (`INVALID_KANJI`), and
/// the entry must not already be in a group (`ALREADY_ADDED`); the owner
/// must still exist (`INVALID_USER`). On any failure nothing changes.
pub fn create_group_kanji_record(store: &mut Store, uid: i32, group_title: &str, kanji_symbol: &str) -> (r: Result<(), ServerError>)
    requires
        old(store)@.wf(),
    ensures
        final(store)@.wf(),
        match r {
            Ok(()) => has_user_id(old(store)@, uid as int) && exists|gi: int, ki: int|
                0 <= gi < old(store)@.groups.len() && old(store)@.groups[gi].user_id == uid as int
                    && old(store)@.groups[gi].title == group_title@
                    && old(store)@.groups[gi].vocab == false && 0 <= ki
                    < old(store)@.kanji.len() && old(store)@.kanji[ki].user_id == uid as int
                    && old(store)@.kanji[ki].symbol == kanji_symbol@
                    && old(store)@.kanji[ki].group_id is None && final(store)@ == (StoreV {
                    kanji: old(store)@.kanji.update(
                        ki,
                        KanjiV {
                            group_id: Some(old(store)@.groups[gi].id),
                            ..old(store)@.kanji[ki]
                        },
                    ),
                    ..old(store)@
                }),
            Err(e) => final(store)@ == old(store)@ && {
                ||| (e == ServerError::InvalidUser && !has_user_id(old(store)@, uid as int))
                ||| (e == ServerError::InvalidGroup && has_user_id(old(store)@, uid as int)
                    && !has_group(old(store)@, uid as int, group_title@, false))
                ||| (e == ServerError::InvalidKanji && has_user_id(old(store)@, uid as int)
                    && has_group(old(store)@, uid as int, group_title@, false) && !has_kanji(
                    old(store)@,
                    uid as int,
                    kanji_symbol@,
                ))
                ||| (e == ServerError::AlreadyAdded && has_user_id(old(store)@, uid as int)
                    && has_group(old(store)@, uid as int, group_title@, false) && exists|ki: int|
                    0 <= ki < old(store)@.kanji.len() && old(store)@.kanji[ki].user_id
                        == uid as int && old(store)@.kanji[ki].symbol == kanji_symbol@
                        && old(store)@.kanji[ki].group_id is Some)
            },
        },
{
    if store.find_user_by_id(uid).is_none() {
        return Err(ServerError::InvalidUser);
    }
    let gi = match store.find_group(uid, group_title, false) {
        Some(gi) => gi,
        None => {
            return Err(ServerError::InvalidGroup);
        },
    };
    let ki = match store.find_kanji(uid, kanji_symbol) {
        Some(ki) => ki,
        None => {
            return Err(ServerError::InvalidKanji);
        },
    };
    if store.kanji[ki].group_id.is_some() {
        return Err(ServerError::AlreadyAdded);
    }
    let gid = store.groups[gi].id;
    let ghost s1 = store@;
    let ghost prevec = store.kanji@;
    store.kanji[ki].group_id = Some(gid);
    proof {
        assert(store.kanji@ =~= prevec.update(ki as int, store.kanji@[ki as int]));
        assert forall|j: int| 0 <= j < s1.kanji.len() && j != ki implies #[trigger] store@.kanji[j]
            == s1.kanji[j] by {
            assert(store.kanji@[j] == prevec[j]);
        }
        assert(store@.kanji[ki as int] =~~= (KanjiV {
            group_id: Some(s1.groups[gi as int].id),
            ..s1.kanji[ki as int]
        }));
        assert(store@.kanji =~~= s1.kanji.update(
            ki as int,
            KanjiV { group_id: Some(s1.groups[gi as int].id), ..s1.kanji[ki as int] },
        ));
        assert(store@ =~~= (StoreV {
            kanji: s1.kanji.update(
                ki as int,
                KanjiV { group_id: Some(s1.groups[gi as int].id), ..s1.kanji[ki as int] },
            ),
            ..s1
        }));
        assert forall|i: int| 0 <= i < store@.kanji.len() implies group_ref_ok(
            store@,
            #[trigger] store@.kanji[i].group_id,
            store@.kanji[i].user_id,
            false,
        ) by {
            if i == ki {
                assert(store@.groups[gi as int].id == s1.groups[gi as int].id);
            } else {
                assert(group_ref_ok(s1, s1.kanji[i].group_id, s1.kanji[i].user_id, false));
                if s1.kanji[i].group_id is Some {
                    let g = s1.kanji[i].group_id->0;
                    let w = choose|q: int|
                        0 <= q < s1.groups.len() && s1.groups[q].id == g && s1.groups[q].user_id
                            == s1.kanji[i].user_id && s1.groups[q].vocab == false;
                    assert(0 <= w < store@.groups.len() && store@.groups[w].id == g
                        && store@.groups[w].user_id == store@.kanji[i].user_id
                        && store@.groups[w].vocab == false);
                }
            }
        }
        assert forall|i: int| 0 <= i < store@.vocab.len() implies group_ref_ok(
            store@,
            #[trigger] store@.vocab[i].group_id,
            store@.vocab[i].user_id,
            true,
        ) by {
            assert(group_ref_ok(s1, s1.vocab[i].group_id, s1.vocab[i].user_id, true));
            if s1.vocab[i].group_id is Some {
                let g = s1.vocab[i].group_id->0;
                let w = choose|q: int|
                    0 <= q < s1.groups.len() && s1.groups[q].id == g && s1.groups[q].user_id
                        == s1.vocab[i].user_id && s1.groups[q].vocab == true;
                assert(0 <= w < store@.groups.len() && store@.groups[w].id == g
                    && store@.groups[w].user_id == store@.vocab[i].user_id
                    && store@.groups[w].vocab == true);
            }
        }
        lemma_same_shape_wf(s1, store@);
    }
    Ok(())
}

/// Adds this owner's phrase entry to this owner's phrase group: the entry's
/// group reference is set to the group's id. The group must exist with kind
/// phrase (`INVALID_GROUP` otherwise — a character group of the same title
/// never matches), the entry must exist (`INVALID_VOCAB`), and the entry
/// must not already be in a group (`ALREADY_ADDED`); the owner must still
/// exist (`INVALID_USER`). On any failure nothing changes.
pub fn create_group_vocab_record(store: &mut Store, uid: i32, group_title: &str, vocab_phrase: &str) -> (r: Result<(), ServerError>)
    requires
        old(store)@.wf(),
    ensures
        final(store)@.wf(),
        match r {
            Ok(()) => has_user_id(old(store)@, uid as int) && exists|gi: int, vi: int|
                0 <= gi < old(store)@.groups.len() && old(store)@.groups[gi].user_id == uid as int
                    && old(store)@.groups[gi].title == group_title@
                    && old(store)@.groups[gi].vocab == true && 0 <= vi
                    < old(store)@.vocab.len() && old(store)@.vocab[vi].user_id == uid as int
                    && old(store)@.vocab[vi].phrase == vocab_phrase@
                    && old(store)@.vocab[vi].group_id is None && final(store)@ == (StoreV {
                    vocab: old(store)@.vocab.update(
                        vi,
                        VocabV {
                            group_id: Some(old(store)@.groups[gi].id),
                            ..old(store)@.vocab[vi]
                        },
                    ),
                    ..old(store)@
                }),
            Err(e) => final(store)@ == old(store)@ && {
                ||| (e == ServerError::InvalidUser && !has_user_id(old(store)@, uid as int))
                ||| (e == ServerError::InvalidGroup && has_user_id(old(store)@, uid as int)
                    && !has_group(old(store)@, uid as int, group_title@, true))
                ||| (e == ServerError::InvalidVocab && has_user_id(old(store)@, uid as int)
                    && has_group(old(store)@, uid as int, group_title@, true) && !has_vocab(
                    old(store)@,
                    uid as int,
                    vocab_phrase@,
                ))
                ||| (e == ServerError::AlreadyAdded && has_user_id(old(store)@, uid as int)
                    && has_group(old(store)@, uid as int, group_title@, true) && exists|vi: int|
                    0 <= vi < old(store)@.vocab.len() && old(store)@.vocab[vi].user_id
                        == uid as int && old(store)@.vocab[vi].phrase == vocab_phrase@
                        && old(store)@.vocab[vi].group_id is Some)
            },
        },
{
    if store.find_user_by_id(uid).is_none() {
        return Err(ServerError::InvalidUser);
    }
    let gi = match store.find_group(uid, group_title, true) {
        Some(gi) => gi,
        None => {
            return Err(ServerError::InvalidGroup);
        },
    };
    let vi = match store.find_vocab(uid, vocab_phrase) {
        Some(vi) => vi,
        None => {
            return Err(ServerError::InvalidVocab);
        },
    };
    if store.vocab[vi].group_id.is_some() {
        return Err(ServerError::AlreadyAdded);
    }
    let gid = store.groups[gi].id;
    let ghost s1 = store@;
    let ghost prevec = store.vocab@;
    store.vocab[vi].group_id = Some(gid);
    proof {
        assert(store.vocab@ =~= prevec.update(vi as int, store.vocab@[vi as int]));
        assert forall|j: int| 0 <= j < s1.vocab.len() && j != vi implies #[trigger] store@.vocab[j]
            == s1.vocab[j] by {
            assert(store.vocab@[j] == prevec[j]);
        }
        assert(store@.vocab[vi as int] =~~= (VocabV {
            group_id: Some(s1.groups[gi as int].id),
            ..s1.vocab[vi as int]
        }));
        assert(store@.vocab =~~= s1.vocab.update(
            vi as int,
            VocabV { group_id: Some(s1.groups[gi as int].id), ..s1.vocab[vi as int] },
        ));
        assert(store@ =~~= (StoreV {
            vocab: s1.vocab.update(
                vi as int,
                VocabV { group_id: Some(s1.groups[gi as int].id), ..s1.vocab[vi as int] },
            ),
            ..s1
        }));
        assert forall|i: int| 0 <= i < store@.vocab.len() implies group_ref_ok(
            store@,
            #[trigger] store@.vocab[i].group_id,
            store@.vocab[i].user_id,
            true,
        ) by {
            if i == vi {
                assert(store@.groups[gi as int].id == s1.groups[gi as int].id);
            } else {
                assert(group_ref_ok(s1, s1.vocab[i].group_id, s1.vocab[i].user_id, true));
                if s1.vocab[i].group_id is Some {
                    let g = s1.vocab[i].group_id->0;
                    let w = choose|q: int|
                        0 <= q < s1.groups.len() && s1.groups[q].id == g && s1.groups[q].user_id
                            == s1.vocab[i].user_id && s1.groups[q].vocab == true;
                    assert(0 <= w < store@.groups.len() && store@.groups[w].id == g
                        && store@.groups[w].user_id == store@.vocab[i].user_id
                        && store@.groups[w].vocab == true);
                }
            }
        }
        assert forall|i: int| 0 <= i < store@.kanji.len() implies group_ref_ok(
            store@,
            #[trigger] store@.kanji[i].group_id,
            store@.kanji[i].user_id,
            false,
        ) by {
            assert(group_ref_ok(s1, s1.kanji[i].group_id, s1.kanji[i].user_id, false));
            if s1.kanji[i].group_id is Some {
                let g = s1.kanji[i].group_id->0;
                let w = choose|q: int|
                    0 <= q < s1.groups.len() && s1.groups[q].id == g && s1.groups[q].user_id
                        == s1.kanji[i].user_id && s1.groups[q].vocab == false;
                assert(0 <= w < store@.groups.len() && store@.groups[w].id == g
                    && store@.groups[w].user_id == store@.kanji[i].user_id
                    && store@.groups[w].vocab == false);
            }
        }
        lemma_same_shape_wf(s1, store@);
    }
    Ok(())
}

/// How many positions of `s` hold the character `c`.
pub open spec fn occurrences(s: Seq<char>, c: char) -> nat
    decreases s.len(),
{
    if s.len() == 0 {
        0
    } else {
        occurrences(s.drop_last(), c) + (if s.last() == c {
            1nat
        } else {
            0nat
        })
    }
}

/// `n` copies of a reference to the phrase `p`.
pub open spec fn phrase_ref_times(p: Seq<char>, n: nat) -> Seq<Option<Seq<char>>> {
    Seq::new(n, |i: int| Some(p))
}

/// Whether some entry of this sequence belongs to `uid` and carries the
/// symbol `sym`.
pub open spec fn seq_has_symbol(ks: Seq<KanjiV>, uid: int, sym: Seq<char>) -> bool {
    exists|i: int| 0 <= i < ks.len() && ks[i].user_id == uid && ks[i].symbol == sym
}

/// The character entry as creating a phrase entry with text `phrase` for
/// owner `uid` leaves it, but counting only the characters of `prefix`: an
/// entry of that owner whose symbol is a single character gains one
/// reference to the phrase for every position of `prefix` holding that
/// character.
pub open spec fn link_kanji_upto(k: KanjiV, uid: int, phrase: Seq<char>, prefix: Seq<char>) -> KanjiV {
    if k.user_id == uid && k.symbol.len() == 1 {
        KanjiV {
            vocab_refs: k.vocab_refs + phrase_ref_times(
                phrase,
                occurrences(prefix, k.symbol[0]),
            ),
            ..k
        }
    } else {
        k
    }
}

/// The character entry as creating a phrase entry with text `phrase` for
/// owner `uid` leaves it: an entry of that owner whose symbol is a single
/// character gains one reference to the phrase for every position of the
/// phrase holding that character.
pub open spec fn link_kanji(k: KanjiV, uid: int, phrase: Seq<char>) -> KanjiV {
    link_kanji_upto(k, uid, phrase, phrase)
}

/// The symbol references a new phrase entry picks up: one single-character
/// symbol for each position of `chars`, in order, whose character is the
/// symbol of an entry of the owner; positions with no matching entry
/// contribute nothing.
pub open spec fn matched_symbol_refs(ks: Seq<KanjiV>, uid: int, chars: Seq<char>) -> Seq<
    Option<Seq<char>>,
>
    decreases chars.len(),
{
    if chars.len() == 0 {
        Seq::empty()
    } else {
        matched_symbol_refs(ks, uid, chars.drop_last()) + (
        if seq_has_symbol(ks, uid, seq![chars.last()]) {
            seq![Some(seq![chars.last()])]
        } else {
            Seq::empty()
        })
    }
}

proof fn lemma_create_vocab_wf(s1: StoreV, s2: StoreV, v: VocabV)
    requires
        s1.wf(),
        s1.next_id < i32::MAX,
        has_user_id(s1, v.user_id),
        !has_vocab(s1, v.user_id, v.phrase),
        v.id == s1.next_id,
        v.group_id is None,
        s2.users == s1.users,
        s2.groups == s1.groups,
        s2.vocab == s1.vocab.push(v),
        s2.kanji.len() == s1.kanji.len(),
        forall|i: int|
            0 <= i < s1.kanji.len() ==> #[trigger] s2.kanji[i] == link_kanji(
                s1.kanji[i],
                v.user_id,
                v.phrase,
            ),
        s2.next_id == s1.next_id + 1,
    ensures
        s2.wf(),
{
    assert forall|i: int| 0 <= i < s1.kanji.len() implies s2.kanji[i].id == s1.kanji[i].id
        && s2.kanji[i].user_id == s1.kanji[i].user_id && s2.kanji[i].symbol == s1.kanji[i].symbol
        && s2.kanji[i].group_id == s1.kanji[i].group_id by {
        assert(s2.kanji[i] == link_kanji(s1.kanji[i], v.user_id, v.phrase));
    }
    assert forall|i: int, j: int| 0 <= i < j < s2.vocab.len() implies s2.vocab[i].id
        != s2.vocab[j].id && !(s2.vocab[i].user_id == s2.vocab[j].user_id && s2.vocab[i].phrase
        == s2.vocab[j].phrase) by {
        if j == s1.vocab.len() {
            assert(s2.vocab[j] == v);
            assert(s2.vocab[i] == s1.vocab[i]);
            if s1.vocab[i].user_id == v.user_id && s1.vocab[i].phrase == v.phrase {
                assert(has_vocab(s1, v.user_id, v.phrase));
            }
        }
    }
    assert forall|i: int| 0 <= i < s2.vocab.len() implies has_user_id(
        s2,
        #[trigger] s2.vocab[i].user_id,
    ) by {
        let uid = s2.vocab[i].user_id;
        assert(has_user_id(s1, uid)) by {
            if i < s1.vocab.len() {
                assert(s2.vocab[i] == s1.vocab[i]);
            } else {
                assert(s2.vocab[i] == v);
            }
        }
        let w = choose|q: int| 0 <= q < s1.users.len() && s1.users[q].id == uid;
        assert(s2.users[w].id == uid);
    }
    assert forall|i: int| 0 <= i < s2.kanji.len() implies has_user_id(
        s2,
        #[trigger] s2.kanji[i].user_id,
    ) by {
        let w = choose|q: int|
            0 <= q < s1.users.len() && s1.users[q].id == s1.kanji[i].user_id;
        assert(s2.users[w].id == s2.kanji[i].user_id);
    }
    assert forall|i: int| 0 <= i < s2.groups.len() implies has_user_id(
        s2,
        #[trigger] s2.groups[i].user_id,
    ) by {
        let w = choose|q: int|
            0 <= q < s1.users.len() && s1.users[q].id == s1.groups[i].user_id;
        assert(s2.users[w].id == s2.groups[i].user_id);
    }
    assert forall|i: int| 0 <= i < s2.kanji.len() implies group_ref_ok(
        s2,
        #[trigger] s2.kanji[i].group_id,
        s2.kanji[i].user_id,
        false,
    ) by {
        assert(group_ref_ok(s1, s1.kanji[i].group_id, s1.kanji[i].user_id, false));
        if s1.kanji[i].group_id is Some {
            let g = s1.kanji[i].group_id->0;
            let w = choose|q: int|
                0 <= q < s1.groups.len() && s1.groups[q].id == g && s1.groups[q].user_id
                    == s1.kanji[i].user_id && s1.groups[q].vocab == false;
            assert(0 <= w < s2.groups.len() && s2.groups[w].id == g && s2.groups[w].user_id
                == s2.kanji[i].user_id && s2.groups[w].vocab == false);
        }
    }
    assert forall|i: int| 0 <= i < s2.vocab.len() implies group_ref_ok(
        s2,
        #[trigger] s2.vocab[i].group_id,
        s2.vocab[i].user_id,
        true,
    ) by {
        if i < s1.vocab.len() {
            assert(s2.vocab[i] == s1.vocab[i]);
            assert(group_ref_ok(s1, s1.vocab[i].group_id, s1.vocab[i].user_id, true));
            if s1.vocab[i].group_id is Some {
                let g = s1.vocab[i].group_id->0;
                let w = choose|q: int|
                    0 <= q < s1.groups.len() && s1.groups[q].id == g && s1.groups[q].user_id
                        == s1.vocab[i].user_id && s1.groups[q].vocab == true;
                assert(0 <= w < s2.groups.len() && s2.groups[w].id == g && s2.groups[w].user_id
                    == s2.vocab[i].user_id && s2.groups[w].vocab == true);
            }
        } else {
            assert(s2.vocab[i] == v);
        }
    }
}

/// Creates a phrase entry for the user and establishes its two-sided links:
/// each character of the phrase is looked up among the owner's
/// single-character symbols, and for every position with a match, the
/// matching character entry gains a reference to the phrase and the new
/// entry's symbol references are extended with that symbol. Fails with
/// `INVALID_USER` when the owner is gone and `VOCAB_EXISTS` when the owner
/// already has the phrase; then nothing changes.
pub fn create_vocab_entry(store: &mut Store, uid: i32, nv: NewVocab) -> (r: Result<
    (),
    ServerError,
>)
    requires
        old(store)@.wf(),
        old(store)@.next_id < i32::MAX,
    ensures
        final(store)@.wf(),
        match r {
            Ok(()) => has_user_id(old(store)@, uid as int) && !has_vocab(
                old(store)@,
                uid as int,
                nv@.phrase,
            ) && final(store)@ == (StoreV {
                kanji: old(store)@.kanji.map_values(
                    |k: KanjiV| link_kanji(k, uid as int, nv@.phrase),
                ),
                vocab: old(store)@.vocab.push(
                    VocabV {
                        id: old(store)@.next_id,
                        phrase: nv@.phrase,
                        meaning: nv@.meaning,
                        reading: nv@.reading,
                        description: nv@.description,
                        kanji_refs: nv@.kanji_refs + matched_symbol_refs(
                            old(store)@.kanji,
                            uid as int,
                            nv@.phrase,
                        ),
                        user_id: uid as int,
                        group_id: None,
                    },
                ),
                next_id: old(store)@.next_id + 1,
                ..old(store)@
            }),
            Err(e) => final(store)@ == old(store)@ && {
                ||| (e == ServerError::InvalidUser && !has_user_id(old(store)@, uid as int))
                ||| (e == ServerError::VocabExists && has_user_id(old(store)@, uid as int)
                    && has_vocab(old(store)@, uid as int, nv@.phrase))
            },
        },
{
    if store.find_user_by_id(uid).is_none() {
        return Err(ServerError::InvalidUser);
    }
    if store.find_vocab(uid, nv.phrase.as_str()).is_some() {
        return Err(ServerError::VocabExists);
    }
    let ghost s1 = store@;
    let ghost phr = nv@.phrase;
    let ghost nv0 = nv@;
    let mut nv = nv;
    let n = nv.phrase.unicode_len();
    proof {
        assert forall|j: int| 0 <= j < s1.kanji.len() implies #[trigger] store@.kanji[j]
            == link_kanji_upto(s1.kanji[j], uid as int, phr, phr.take(0)) by {
            assert(s1.kanji[j].vocab_refs + phrase_ref_times(
                phr,
                occurrences(phr.take(0), s1.kanji[j].symbol[0]),
            ) =~= s1.kanji[j].vocab_refs);
            assert(link_kanji_upto(s1.kanji[j], uid as int, phr, phr.take(0)) =~~= s1.kanji[j]);
        }
        assert(nv@.kanji_refs =~= nv0.kanji_refs + matched_symbol_refs(
            s1.kanji,
            uid as int,
            phr.take(0),
        ));
    }
    let mut p: usize = 0;
    while p < n
        invariant
            s1.wf(),
            store@.users == s1.users,
            store@.vocab == s1.vocab,
            store@.groups == s1.groups,
            store@.next_id == s1.next_id,
            n == phr.len(),
            0 <= p <= n,
            store@.kanji.len() == s1.kanji.len(),
            nv@.phrase == phr,
            nv@.meaning == nv0.meaning,
            nv@.reading == nv0.reading,
            nv@.description == nv0.description,
            nv@.user_id == nv0.user_id,
            forall|j: int|
                0 <= j < s1.kanji.len() ==> #[trigger] store@.kanji[j] == link_kanji_upto(
                    s1.kanji[j],
                    uid as int,
                    phr,
                    phr.take(p as int),
                ),
            nv@.kanji_refs == nv0.kanji_refs + matched_symbol_refs(
                s1.kanji,
                uid as int,
                phr.take(p as int),
            ),
        decreases n - p,
    {
        let c = nv.phrase.get_char(p);
        proof {
            assert(phr.take(p + 1).drop_last() =~= phr.take(p as int));
            assert(phr.take(p + 1).last() == phr[p as int]);
            assert(phr[p as int] == c);
        }
        match store.find_kanji_by_char(uid, c) {
            Some(k) => {
                proof {
                    assert(store@.kanji[k as int] == link_kanji_upto(
                        s1.kanji[k as int],
                        uid as int,
                        phr,
                        phr.take(p as int),
                    ));
                    assert(s1.kanji[k as int].symbol == seq![c]);
                    assert(s1.kanji[k as int].user_id == uid as int);
                }
                let phrase_copy = clone_string(&nv.phrase);
                let sym_copy = clone_string(&store.kanji[k].symbol);
                proof {
                    assert(sym_copy@ == store@.kanji[k as int].symbol);
                }
                let ghost pre = store@;
                let ghost prevec = store.kanji@;
                let ghost prerefs = nv@.kanji_refs;
                store.kanji[k].vocab_refs.push(Some(phrase_copy));
                nv.kanji_refs.push(Some(sym_copy));
                proof {
                    assert(store.kanji@ =~= prevec.update(k as int, store.kanji@[k as int]));
                    assert forall|j: int|
                        0 <= j < s1.kanji.len() && j != k implies #[trigger] store@.kanji[j]
                        == pre.kanji[j] by {
                        assert(store.kanji@[j] == prevec[j]);
                    }
                    assert(store@.kanji[k as int] =~~= (KanjiV {
                        vocab_refs: pre.kanji[k as int].vocab_refs.push(Some(phr)),
                        ..pre.kanji[k as int]
                    }));
                    let sym0 = s1.kanji[k as int].symbol[0];
                    assert(sym0 == c);
                    assert(occurrences(phr.take(p + 1), c) == occurrences(phr.take(p as int), c)
                        + 1);
                    assert(phrase_ref_times(phr, occurrences(phr.take(p + 1), c))
                        =~= phrase_ref_times(phr, occurrences(phr.take(p as int), c)).push(
                        Some(phr),
                    ));
                    assert(store@.kanji[k as int] =~~= link_kanji_upto(
                        s1.kanji[k as int],
                        uid as int,
                        phr,
                        phr.take(p + 1),
                    ));
                    assert forall|j: int|
                        0 <= j < s1.kanji.len() && j != k implies #[trigger] store@.kanji[j]
                        == link_kanji_upto(s1.kanji[j], uid as int, phr, phr.take(p + 1)) by {
                        assert(pre.kanji[j] == link_kanji_upto(
                            s1.kanji[j],
                            uid as int,
                            phr,
                            phr.take(p as int),
                        ));
                        if s1.kanji[j].user_id == uid as int && s1.kanji[j].symbol.len() == 1 {
                            assert(s1.kanji[j].symbol[0] != c) by {
                                if s1.kanji[j].symbol[0] == c {
                                    assert(s1.kanji[j].symbol =~= seq![c]);
                                    if j < k {
                                        assert(s1.kanji[j].id != s1.kanji[k as int].id && !(
                                        s1.kanji[j].user_id == s1.kanji[k as int].user_id
                                            && s1.kanji[j].symbol
                                            == s1.kanji[k as int].symbol));
                                    } else {
                                        assert(s1.kanji[k as int].id != s1.kanji[j].id && !(
                                        s1.kanji[k as int].user_id == s1.kanji[j].user_id
                                            && s1.kanji[k as int].symbol
                                            == s1.kanji[j].symbol));
                                    }
                                }
                            }
                            assert(occurrences(phr.take(p + 1), s1.kanji[j].symbol[0])
                                == occurrences(phr.take(p as int), s1.kanji[j].symbol[0]));
                        }
                    }
                    assert(seq_has_symbol(s1.kanji, uid as int, seq![c])) by {
                        assert(0 <= k < s1.kanji.len() && s1.kanji[k as int].user_id == uid as int
                            && s1.kanji[k as int].symbol == seq![c]);
                    }
                    assert(matched_symbol_refs(s1.kanji, uid as int, phr.take(p + 1))
                        == matched_symbol_refs(s1.kanji, uid as int, phr.take(p as int)) + seq![
                        Some(seq![c]),
                    ]);
                    assert(sym_copy@ == seq![c]);
                    assert(nv@.kanji_refs =~~= prerefs.push(Some(seq![c])));
                    assert(nv@.kanji_refs =~~= nv0.kanji_refs + matched_symbol_refs(
                        s1.kanji,
                        uid as int,
                        phr.take(p + 1),
                    ));
                }
            },
            None => {
                proof {
                    assert forall|j: int| 0 <= j < s1.kanji.len() implies #[trigger] store@.kanji[j]
                        == link_kanji_upto(s1.kanji[j], uid as int, phr, phr.take(p + 1)) by {
                        assert(store@.kanji[j] == link_kanji_upto(
                            s1.kanji[j],
                            uid as int,
                            phr,
                            phr.take(p as int),
                        ));
                        if s1.kanji[j].user_id == uid as int && s1.kanji[j].symbol.len() == 1 {
                            assert(s1.kanji[j].symbol[0] != c) by {
                                if s1.kanji[j].symbol[0] == c {
                                    assert(s1.kanji[j].symbol =~= seq![c]);
                                    assert(store@.kanji[j].symbol == seq![c]
                                        && store@.kanji[j].user_id == uid as int);
                                    assert(has_kanji(store@, uid as int, seq![c]));
                                }
                            }
                            assert(occurrences(phr.take(p + 1), s1.kanji[j].symbol[0])
                                == occurrences(phr.take(p as int), s1.kanji[j].symbol[0]));
                        }
                    }
                    assert(!seq_has_symbol(s1.kanji, uid as int, seq![c])) by {
                        if seq_has_symbol(s1.kanji, uid as int, seq![c]) {
                            let w = choose|q: int|
                                0 <= q < s1.kanji.len() && s1.kanji[q].user_id == uid as int
                                    && s1.kanji[q].symbol == seq![c];
                            assert(store@.kanji[w] == link_kanji_upto(
                                s1.kanji[w],
                                uid as int,
                                phr,
                                phr.take(p + 1),
                            ));
                            assert(store@.kanji[w].symbol == seq![c] && store@.kanji[w].user_id
                                == uid as int);
                            assert(has_kanji(store@, uid as int, seq![c]));
                        }
                    }
                    assert(matched_symbol_refs(s1.kanji, uid as int, phr.take(p + 1))
                        == matched_symbol_refs(s1.kanji, uid as int, phr.take(p as int))
                        + Seq::<Option<Seq<char>>>::empty());
                    assert(nv@.kanji_refs =~~= nv0.kanji_refs + matched_symbol_refs(
                        s1.kanji,
                        uid as int,
                        phr.take(p + 1),
                    ));
                }
            },
        }
        p += 1;
    }
    proof {
        assert(phr.take(n as int) =~= phr);
        assert forall|j: int| 0 <= j < s1.kanji.len() implies #[trigger] store@.kanji[j]
            == link_kanji(s1.kanji[j], uid as int, phr) by {
            assert(store@.kanji[j] == link_kanji_upto(s1.kanji[j], uid as int, phr, phr.take(n as int)));
        }
    }
    let id = store.next_id;
    store.vocab.push(
        Vocab {
            id,
            phrase: nv.phrase,
            meaning: nv.meaning,
            reading: nv.reading,
            description: nv.description,
            kanji_refs: nv.kanji_refs,
            user_id: uid,
            group_id: None,
        },
    );
    store.next_id = id + 1;
    proof {
        let v = VocabV {
            id: s1.next_id,
            phrase: phr,
            meaning: nv0.meaning,
            reading: nv0.reading,
            description: nv0.description,
            kanji_refs: nv0.kanji_refs + matched_symbol_refs(s1.kanji, uid as int, phr),
            user_id: uid as int,
            group_id: None,
        };
        assert(store@.vocab =~~= s1.vocab.push(v));
        assert(store@ =~~= (StoreV {
            kanji: s1.kanji.map_values(|k: KanjiV| link_kanji(k, uid as int, phr)),
            vocab: s1.vocab.push(v),
            next_id: s1.next_id + 1,
            ..s1
        }));
        lemma_create_vocab_wf(s1, store@, v);
    }
    Ok(())
}

/// The registration request carried by a `CREATE_USER` payload: a username
/// and the derived key and salt as byte arrays, every element of which must
/// fit in a byte.
pub open spec fn parsed_new_user(p: Seq<char>) -> Option<NewUserV> {
    match json_str_of(p, "username"@) {
        None => None,
        Some(u) => match json_u64s_of(p, "hash"@) {
            None => None,
            Some(h) => match json_u64s_of(p, "salt"@) {
                None => None,
                Some(s) => match exact_bytes(h) {
                    None => None,
                    Some(hb) => match exact_bytes(s) {
                        None => None,
                        Some(sb) => Some(NewUserV { username: u, hash: hb, salt: sb }),
                    },
                },
            },
        },
    }
}

/// Registers the user described by a `CREATE_USER` payload. A payload that
/// does not carry the required fields is rejected with `INVALID_FORMAT`; a
/// taken username with `USER_EXISTS`; otherwise the record is stored.
pub fn create_user(store: &mut Store, payload: &str) -> (r: Result<(), ServerError>)
    requires
        old(store)@.wf(),
        old(store)@.next_id < i32::MAX,
    ensures
        final(store)@.wf(),
        match parsed_new_user(payload@) {
            None => r == Err::<(), ServerError>(ServerError::InvalidFormat) && final(store)@
                == old(store)@,
            Some(nu) => match r {
                Ok(()) => !has_user(old(store)@, nu.username) && final(store)@ == (StoreV {
                    users: old(store)@.users.push(
                        UserV {
                            id: old(store)@.next_id,
                            username: nu.username,
                            hash: nu.hash,
                            salt: nu.salt,
                        },
                    ),
                    next_id: old(store)@.next_id + 1,
                    ..old(store)@
                }),
                Err(e) => e == ServerError::UserExists && has_user(old(store)@, nu.username)
                    && final(store)@ == old(store)@,
            },
        },
{
    let username = match json_str_field(payload, "username") {
        Some(u) => u,
        None => {
            return Err(ServerError::InvalidFormat);
        },
    };
    let hash_raw = match json_u64_array_field(payload, "hash") {
        Some(h) => h,
        None => {
            return Err(ServerError::InvalidFormat);
        },
    };
    let salt_raw = match json_u64_array_field(payload, "salt") {
        Some(s) => s,
        None => {
            return Err(ServerError::InvalidFormat);
        },
    };
    let hash = match to_exact_bytes(&hash_raw) {
        Some(h) => h,
        None => {
            return Err(ServerError::InvalidFormat);
        },
    };
    let salt = match to_exact_bytes(&salt_raw) {
        Some(s) => s,
        None => {
            return Err(ServerError::InvalidFormat);
        },
    };
    let nu = NewUser { username, hash, salt };
    proof {
        assert(parsed_new_user(payload@) == Some(nu@)) by {
            assert(nu@.hash =~= exact_bytes(hash_raw.deep_view())->0);
            assert(nu@.salt =~= exact_bytes(salt_raw.deep_view())->0);
        }
    }
    create_user_record(store, nu)
}

/// Looks up the salt for the username in a `GET_ACCOUNT_KEYS` payload and
/// renders it as the success payload. `INVALID_FORMAT` when the field is
/// missing, `INVALID_USER` when the username is unknown.
pub fn get_account_keys(store: &Store, payload: &str) -> (r: Result<String, ServerError>)
    ensures
        match json_str_of(payload@, "user_username"@) {
            None => r == Err::<String, ServerError>(ServerError::InvalidFormat),
            Some(name) => match r {
                Ok(out) => exists|i: int|
                    0 <= i < store@.users.len() && store@.users[i].username == name && out@
                        == crate::codec::salt_payload_of(store@.users[i].salt),
                Err(e) => e == ServerError::InvalidUser && !has_user(store@, name),
            },
        },
{
    let name = match json_str_field(payload, "user_username") {
        Some(n) => n,
        None => {
            return Err(ServerError::InvalidFormat);
        },
    };
    match get_salt(store, name.as_str()) {
        Ok(salt) => Ok(crate::codec::render_salt_payload(&salt)),
        Err(e) => Err(e),
    }
}

/// Verifies the submitted key in a `VALIDATE_KEY` payload. The submitted
/// array is read byte for byte, an element that is missing or out of range
/// counting as zero; the username is then looked up and the stored key
/// compared in full. On a match the user record is returned so the caller
/// can bind the session. `INVALID_FORMAT` when a field is missing,
/// `INVALID_USER` for an unknown username, `INVALID_PASSWORD` on mismatch.
pub fn validate_key(store: &Store, payload: &str) -> (r: Result<User, ServerError>)
    ensures
        match json_u64s_of(payload@, "user_hash"@) {
            None => r == Err::<User, ServerError>(ServerError::InvalidFormat),
            Some(raw) => match json_str_of(payload@, "user_username"@) {
                None => r == Err::<User, ServerError>(ServerError::InvalidFormat),
                Some(name) => match r {
                    Ok(u) => exists|i: int|
                        0 <= i < store@.users.len() && store@.users[i].username == name && u@
                            == store@.users[i] && store@.users[i].hash == bytes_or_zero(raw),
                    Err(e) => {
                        ||| (e == ServerError::InvalidUser && !has_user(store@, name))
                        ||| (e == ServerError::InvalidPassword && exists|i: int|
                            0 <= i < store@.users.len() && store@.users[i].username == name
                                && store@.users[i].hash != bytes_or_zero(raw))
                    },
                },
            },
        },
{
    let raw = match json_u64_array_field(payload, "user_hash") {
        Some(h) => h,
        None => {
            return Err(ServerError::InvalidFormat);
        },
    };
    let key = to_bytes_or_zero(&raw);
    let name = match json_str_field(payload, "user_username") {
        Some(n) => n,
        None => {
            return Err(ServerError::InvalidFormat);
        },
    };
    validate_user_key(store, name.as_str(), &key)
}

/// The character entry carried by a `CREATE_KANJI` payload: symbol,
/// meaning, the two reading sets and the starting phrase references are
/// required; the description is optional.
pub open spec fn parsed_new_kanji(p: Seq<char>) -> Option<NewKanjiV> {
    match json_str_of(p, "symbol"@) {
        None => None,
        Some(symbol) => match json_str_of(p, "meaning"@) {
            None => None,
            Some(meaning) => match json_strs_of(p, "onyomi"@) {
                None => None,
                Some(onyomi) => match json_strs_of(p, "kunyomi"@) {
                    None => None,
                    Some(kunyomi) => match json_strs_of(p, "vocab_refs"@) {
                        None => None,
                        Some(vocab_refs) => Some(
                            NewKanjiV {
                                symbol,
                                meaning,
                                onyomi,
                                kunyomi,
                                description: json_str_of(p, "description"@),
                                vocab_refs,
                                user_id: 0,
                            },
                        ),
                    },
                },
            },
        },
    }
}

/// Creates a character entry for the authenticated user from a
/// `CREATE_KANJI` payload, linking it both ways with the user's phrase
/// entries. The owner is checked first (`INVALID_USER`), then the payload
/// (`INVALID_FORMAT`), then uniqueness (`KANJI_EXISTS`).
pub fn create_kanji(store: &mut Store, user: &User, payload: &str) -> (r: Result<
    (),
    ServerError,
>)
    requires
        old(store)@.wf(),
        old(store)@.next_id < i32::MAX,
    ensures
        final(store)@.wf(),
        !has_user_id(old(store)@, user@.id) ==> r == Err::<(), ServerError>(
            ServerError::InvalidUser,
        ) && final(store)@ == old(store)@,
        has_user_id(old(store)@, user@.id) ==> match parsed_new_kanji(payload@) {
            None => r == Err::<(), ServerError>(ServerError::InvalidFormat) && final(store)@
                == old(store)@,
            Some(nk) => match r {
                Ok(()) => !has_kanji(old(store)@, user@.id, nk.symbol) && final(store)@
                    == (StoreV {
                    vocab: old(store)@.vocab.map_values(
                        |v: VocabV| link_vocab(v, user@.id, nk.symbol),
                    ),
                    kanji: old(store)@.kanji.push(
                        KanjiV {
                            id: old(store)@.next_id,
                            symbol: nk.symbol,
                            meaning: nk.meaning,
                            onyomi: nk.onyomi,
                            kunyomi: nk.kunyomi,
                            description: nk.description,
                            vocab_refs: nk.vocab_refs + matched_phrase_refs(
                                old(store)@.vocab,
                                user@.id,
                                nk.symbol,
                            ),
                            user_id: user@.id,
                            group_id: None,
                        },
                    ),
                    next_id: old(store)@.next_id + 1,
                    ..old(store)@
                }),
                Err(e) => e == ServerError::KanjiExists && has_kanji(
                    old(store)@,
                    user@.id,
                    nk.symbol,
                ) && final(store)@ == old(store)@,
            },
        },
{
    if store.find_user_by_id(user.id).is_none() {
        return Err(ServerError::InvalidUser);
    }
    let symbol = match json_str_field(payload, "symbol") {
        Some(s) => s,
        None => {
            return Err(ServerError::InvalidFormat);
        },
    };
    let meaning = match json_str_field(payload, "meaning") {
        Some(s) => s,
        None => {
            return Err(ServerError::InvalidFormat);
        },
    };
    let onyomi = match json_str_array_field(payload, "onyomi") {
        Some(s) => s,
        None => {
            return Err(ServerError::InvalidFormat);
        },
    };
    let kunyomi = match json_str_array_field(payload, "kunyomi") {
        Some(s) => s,
        None => {
            return Err(ServerError::InvalidFormat);
        },
    };
    let vocab_refs = match json_str_array_field(payload, "vocab_refs") {
        Some(s) => s,
        None => {
            return Err(ServerError::InvalidFormat);
        },
    };
    let description = json_str_field(payload, "description");
    let nk = NewKanji { symbol, meaning, onyomi, kunyomi, description, vocab_refs, user_id: 0 };
    proof {
        assert(parsed_new_kanji(payload@) == Some(nk@));
    }
    create_kanji_entry(store, user.id, nk)
}

/// The phrase entry carried by a `CREATE_VOCAB` payload: phrase, meaning,
/// the reading set and the starting symbol references are required; the
/// description is optional.
pub open spec fn parsed_new_vocab(p: Seq<char>) -> Option<NewVocabV> {
    match json_str_of(p, "phrase"@) {
        None => None,
        Some(phrase) => match json_str_of(p, "meaning"@) {
            None => None,
            Some(meaning) => match json_strs_of(p, "reading"@) {
                None => None,
                Some(reading) => match json_strs_of(p, "kanji_refs"@) {
                    None => None,
                    Some(kanji_refs) => Some(
                        NewVocabV {
                            phrase,
                            meaning,
                            reading,
                            description: json_str_of(p, "description"@),
                            kanji_refs,
                            user_id: 0,
                        },
                    ),
                },
            },
        },
    }
}

/// Creates a phrase entry for the authenticated user from a `CREATE_VOCAB`
/// payload, linking it both ways with the user's character entries. The
/// owner is checked first (`INVALID_USER`), then the payload
/// (`INVALID_FORMAT`), then uniqueness (`VOCAB_EXISTS`).
pub fn create_vocab(store: &mut Store, user: &User, payload: &str) -> (r: Result<
    (),
    ServerError,
>)
    requires
        old(store)@.wf(),
        old(store)@.next_id < i32::MAX,
    ensures
        final(store)@.wf(),
        !has_user_id(old(store)@, user@.id) ==> r == Err::<(), ServerError>(
            ServerError::InvalidUser,
        ) && final(store)@ == old(store)@,
        has_user_id(old(store)@, user@.id) ==> match parsed_new_vocab(payload@) {
            None => r == Err::<(), ServerError>(ServerError::InvalidFormat) && final(store)@
                == old(store)@,
            Some(nv) => match r {
                Ok(()) => !has_vocab(old(store)@, user@.id, nv.phrase) && final(store)@
                    == (StoreV {
                    kanji: old(store)@.kanji.map_values(
                        |k: KanjiV| link_kanji(k, user@.id, nv.phrase),
                    ),
                    vocab: old(store)@.vocab.push(
                        VocabV {
                            id: old(store)@.next_id,
                            phrase: nv.phrase,
                            meaning: nv.meaning,
                            reading: nv.reading,
                            description: nv.description,
                            kanji_refs: nv.kanji_refs + matched_symbol_refs(
                                old(store)@.kanji,
                                user@.id,
                                nv.phrase,
                            ),
                            user_id: user@.id,
                            group_id: None,
                        },
                    ),
                    next_id: old(store)@.next_id + 1,
                    ..old(store)@
                }),
                Err(e) => e == ServerError::VocabExists && has_vocab(
                    old(store)@,
                    user@.id,
                    nv.phrase,
                ) && final(store)@ == old(store)@,
            },
        },
{
    if store.find_user_by_id(user.id).is_none() {
        return Err(ServerError::InvalidUser);
    }
    let phrase = match json_str_field(payload, "phrase") {
        Some(s) => s,
        None => {
            return Err(ServerError::InvalidFormat);
        },
    };
    let meaning = match json_str_field(payload, "meaning") {
        Some(s) => s,
        None => {
            return Err(ServerError::InvalidFormat);
        },
    };
    let reading = match json_str_array_field(payload, "reading") {
        Some(s) => s,
        None => {
            return Err(ServerError::InvalidFormat);
        },
    };
    let kanji_refs = match json_str_array_field(payload, "kanji_refs") {
        Some(s) => s,
        None => {
            return Err(ServerError::InvalidFormat);
        },
    };
    let description = json_str_field(payload, "description");
    let nv = NewVocab { phrase, meaning, reading, description, kanji_refs, user_id: 0 };
    proof {
        assert(parsed_new_vocab(payload@) == Some(nv@));
    }
    create_vocab_entry(store, user.id, nv)
}

/// The group carried by a `CREATE_GROUP` payload: title and kind are
/// required, the colour is optional.
pub open spec fn parsed_new_group(p: Seq<char>) -> Option<NewGroupV> {
    match json_str_of(p, "title"@) {
        None => None,
        Some(title) => match json_bool_of(p, "vocab"@) {
            None => None,
            Some(vocab) => Some(
                NewGroupV { title, colour: json_str_of(p, "colour"@), vocab, user_id: 0 },
            ),
        },
    }
}

/// Creates a group for the authenticated user from a `CREATE_GROUP`
/// payload. The owner is checked first (`INVALID_USER`), then the payload
/// (`INVALID_FORMAT`), then the colour (`INVALID_HEXCODE`), then
/// uniqueness of (title, kind) (`GROUP_EXISTS`).
pub fn create_group(store: &mut Store, user: &User, payload: &str) -> (r: Result<
    (),
    ServerError,
>)
    requires
        old(store)@.wf(),
        old(store)@.next_id < i32::MAX,
    ensures
        final(store)@.wf(),
        !has_user_id(old(store)@, user@.id) ==> r == Err::<(), ServerError>(
            ServerError::InvalidUser,
        ) && final(store)@ == old(store)@,
        has_user_id(old(store)@, user@.id) ==> match parsed_new_group(payload@) {
            None => r == Err::<(), ServerError>(ServerError::InvalidFormat) && final(store)@
                == old(store)@,
            Some(ng) => match r {
                Ok(()) => colour_ok(ng.colour) && !has_group(
                    old(store)@,
                    user@.id,
                    ng.title,
                    ng.vocab,
                ) && final(store)@ == (StoreV {
                    groups: old(store)@.groups.push(
                        GroupV {
                            id: old(store)@.next_id,
                            title: ng.title,
                            colour: ng.colour,
                            vocab: ng.vocab,
                            user_id: user@.id,
                        },
                    ),
                    next_id: old(store)@.next_id + 1,
                    ..old(store)@
                }),
                Err(e) => final(store)@ == old(store)@ && {
                    ||| (e == ServerError::InvalidHexcode && !colour_ok(ng.colour))
                    ||| (e == ServerError::GroupExists && colour_ok(ng.colour) && has_group(
                        old(store)@,
                        user@.id,
                        ng.title,
                        ng.vocab,
                    ))
                },
            },
        },
{
    if store.find_user_by_id(user.id).is_none() {
        return Err(ServerError::InvalidUser);
    }
    let title = match json_str_field(payload, "title") {
        Some(s) => s,
        None => {
            return Err(ServerError::InvalidFormat);
        },
    };
    let vocab = match json_bool_field(payload, "vocab") {
        Some(b) => b,
        None => {
            return Err(ServerError::InvalidFormat);
        },
    };
    let colour = json_str_field(payload, "colour");
    let ng = NewGroup { title, colour, vocab, user_id: 0 };
    proof {
        assert(parsed_new_group(payload@) == Some(ng@));
    }
    create_group_record(store, user.id, ng)
}

/// Adds a character entry to a character group, both named by a
/// `CREATE_GROUP_KANJI` payload. The owner is checked first
/// (`INVALID_USER`), then the payload (`INVALID_FORMAT`), then the group,
/// the entry, and its current membership.
pub fn create_group_kanji(store: &mut Store, user: &User, payload: &str) -> (r: Result<
    (),
    ServerError,
>)
    requires
        old(store)@.wf(),
    ensures
        final(store)@.wf(),
        !has_user_id(old(store)@, user@.id) ==> r == Err::<(), ServerError>(
            ServerError::InvalidUser,
        ) && final(store)@ == old(store)@,
        has_user_id(old(store)@, user@.id) ==> match (json_str_of(payload@, "group_title"@),
        json_str_of(payload@, "kanji_symbol"@)) {
            (Some(title), Some(symbol)) => match r {
                Ok(()) => exists|gi: int, ki: int|
                    0 <= gi < old(store)@.groups.len() && old(store)@.groups[gi].user_id
                        == user@.id && old(store)@.groups[gi].title == title
                        && old(store)@.groups[gi].vocab == false && 0 <= ki
                        < old(store)@.kanji.len() && old(store)@.kanji[ki].user_id == user@.id
                        && old(store)@.kanji[ki].symbol == symbol
                        && old(store)@.kanji[ki].group_id is None && final(store)@ == (StoreV {
                        kanji: old(store)@.kanji.update(
                            ki,
                            KanjiV {
                                group_id: Some(old(store)@.groups[gi].id),
                                ..old(store)@.kanji[ki]
                            },
                        ),
                        ..old(store)@
                    }),
                Err(e) => final(store)@ == old(store)@ && {
                    ||| (e == ServerError::InvalidGroup && !has_group(
                        old(store)@,
                        user@.id,
                        title,
                        false,
                    ))
                    ||| (e == ServerError::InvalidKanji && has_group(
                        old(store)@,
                        user@.id,
                        title,
                        false,
                    ) && !has_kanji(old(store)@, user@.id, symbol))
                    ||| (e == ServerError::AlreadyAdded && has_group(
                        old(store)@,
                        user@.id,
                        title,
                        false,
                    ) && exists|ki: int|
                        0 <= ki < old(store)@.kanji.len() && old(store)@.kanji[ki].user_id
                            == user@.id && old(store)@.kanji[ki].symbol == symbol
                            && old(store)@.kanji[ki].group_id is Some)
                },
            },
            _ => r == Err::<(), ServerError>(ServerError::InvalidFormat) && final(store)@
                == old(store)@,
        },
{
    if store.find_user_by_id(user.id).is_none() {
        return Err(ServerError::InvalidUser);
    }
    let title = match json_str_field(payload, "group_title") {
        Some(s) => s,
        None => {
            return Err(ServerError::InvalidFormat);
        },
    };
    let symbol = match json_str_field(payload, "kanji_symbol") {
        Some(s) => s,
        None => {
            return Err(ServerError::InvalidFormat);
        },
    };
    create_group_kanji_record(store, user.id, title.as_str(), symbol.as_str())
}

/// Adds a phrase entry to a phrase group, both named by a
/// `CREATE_GROUP_VOCAB` payload. The owner is checked first
/// (`INVALID_USER`), then the payload (`INVALID_FORMAT`), then the group,
/// the entry, and its current membership.
pub fn create_group_vocab(store: &mut Store, user: &User, payload: &str) -> (r: Result<
    (),
    ServerError,
>)
    requires
        old(store)@.wf(),
    ensures
        final(store)@.wf(),
        !has_user_id(old(store)@, user@.id) ==> r == Err::<(), ServerError>(
            ServerError::InvalidUser,
        ) && final(store)@ == old(store)@,
        has_user_id(old(store)@, user@.id) ==> match (json_str_of(payload@, "group_title"@),
        json_str_of(payload@, "vocab_phrase"@)) {
            (Some(title), Some(phrase)) => match r {
                Ok(()) => exists|gi: int, vi: int|
                    0 <= gi < old(store)@.groups.len() && old(store)@.groups[gi].user_id
                        == user@.id && old(store)@.groups[gi].title == title
                        && old(store)@.groups[gi].vocab == true && 0 <= vi
                        < old(store)@.vocab.len() && old(store)@.vocab[vi].user_id == user@.id
                        && old(store)@.vocab[vi].phrase == phrase
                        && old(store)@.vocab[vi].group_id is None && final(store)@ == (StoreV {
                        vocab: old(store)@.vocab.update(
                            vi,
                            VocabV {
                                group_id: Some(old(store)@.groups[gi].id),
                                ..old(store)@.vocab[vi]
                            },
                        ),
                        ..old(store)@
                    }),
                Err(e) => final(store)@ == old(store)@ && {
                    ||| (e == ServerError::InvalidGroup && !has_group(
                        old(store)@,
                        user@.id,
                        title,
                        true,
                    ))
                    ||| (e == ServerError::InvalidVocab && has_group(
                        old(store)@,
                        user@.id,
                        title,
                        true,
                    ) && !has_vocab(old(store)@, user@.id, phrase))
                    ||| (e == ServerError::AlreadyAdded && has_group(
                        old(store)@,
                        user@.id,
                        title,
                        true,
                    ) && exists|vi: int|
                        0 <= vi < old(store)@.vocab.len() && old(store)@.vocab[vi].user_id
                            == user@.id && old(store)@.vocab[vi].phrase == phrase
                            && old(store)@.vocab[vi].group_id is Some)
                },
            },
            _ => r == Err::<(), ServerError>(ServerError::InvalidFormat) && final(store)@
                == old(store)@,
        },
{
    if store.find_user_by_id(user.id).is_none() {
        return Err(ServerError::InvalidUser);
    }
    let title = match json_str_field(payload, "group_title") {
        Some(s) => s,
        None => {
            return Err(ServerError::InvalidFormat);
        },
    };
    let phrase = match json_str_field(payload, "vocab_phrase") {
        Some(s) => s,
        None => {
            return Err(ServerError::InvalidFormat);
        },
    };
    create_group_vocab_record(store, user.id, title.as_str(), phrase.as_str())
}

} // verus!
