//! The storage-layer delete and edit operations. The record store exposes
//! them, but no command of the wire catalog reaches them: they are kept as
//! storage surface, verified like the rest, and deliberately not wired into
//! the dispatcher.

use vstd::prelude::*;

use crate::errors::ServerError;
use crate::jsonio::{json_bool_field, json_bool_of, json_str_array_field, json_str_field, json_str_of, json_strs_of};
use crate::models::{GroupV, KanjiV, UserV, VocabV};
use crate::store::{
    Store, StoreV, group_ref_ok, has_group, has_kanji, has_user, has_user_id, has_vocab,
};
use crate::text::{is_valid_colour, spec_valid_colour};

verus! {

/// The elements of `s` that satisfy `pred`, in order.
pub open spec fn kept<T>(s: Seq<T>, pred: spec_fn(T) -> bool) -> Seq<T>
    decreases s.len(),
{
    if s.len() == 0 {
        Seq::empty()
    } else {
        kept(s.drop_last(), pred) + (if pred(s.last()) {
            seq![s.last()]
        } else {
            Seq::empty()
        })
    }
}

/// Everything `kept` hands back satisfies the predicate and stands in the
/// original; everything of the original that satisfies the predicate is
/// kept; and any two kept elements come from two original positions in the
/// same order.
proof fn lemma_kept_facts<T>(s: Seq<T>, pred: spec_fn(T) -> bool)
    ensures
        forall|i: int|
            0 <= i < kept(s, pred).len() ==> pred(#[trigger] kept(s, pred)[i]) && exists|j: int|
                0 <= j < s.len() && s[j] == kept(s, pred)[i],
        forall|j: int|
            0 <= j < s.len() && pred(s[j]) ==> kept(s, pred).contains(#[trigger] s[j]),
        forall|i1: int, i2: int|
            #![trigger kept(s, pred)[i1], kept(s, pred)[i2]]
            0 <= i1 < i2 < kept(s, pred).len() ==> exists|j1: int, j2: int|
                0 <= j1 < j2 < s.len() && s[j1] == kept(s, pred)[i1] && s[j2] == kept(s, pred)[i2],
    decreases s.len(),
{
    if s.len() > 0 {
        let rest = s.drop_last();
        lemma_kept_facts(rest, pred);
        let out = kept(s, pred);
        let prefix = kept(rest, pred);
        assert forall|i: int| 0 <= i < out.len() implies pred(#[trigger] out[i]) && exists|j: int|
            0 <= j < s.len() && s[j] == out[i] by {
            if i < prefix.len() {
                assert(out[i] == prefix[i]);
                let j = choose|j: int| 0 <= j < rest.len() && rest[j] == prefix[i];
                assert(s[j] == out[i]);
            } else {
                assert(out[i] == s.last());
                assert(s[s.len() - 1] == out[i]);
            }
        }
        assert forall|j: int| 0 <= j < s.len() && pred(s[j]) implies kept(s, pred).contains(
            #[trigger] s[j],
        ) by {
            if j < s.len() - 1 {
                assert(rest[j] == s[j]);
                assert(prefix.contains(rest[j]));
                let w = choose|w: int| 0 <= w < prefix.len() && prefix[w] == s[j];
                assert(out[w] == s[j]);
            } else {
                assert(out[out.len() - 1] == s.last());
            }
        }
        assert forall|i1: int, i2: int|
            #![trigger out[i1], out[i2]]
            0 <= i1 < i2 < out.len() implies exists|j1: int, j2: int|
            0 <= j1 < j2 < s.len() && s[j1] == out[i1] && s[j2] == out[i2] by {
            if i2 < prefix.len() {
                assert(out[i1] == prefix[i1] && out[i2] == prefix[i2]);
                let (j1, j2) = choose|j1: int, j2: int|
                    0 <= j1 < j2 < rest.len() && rest[j1] == prefix[i1] && rest[j2] == prefix[i2];
                assert(s[j1] == out[i1] && s[j2] == out[i2]);
            } else {
                assert(pred(s.last()));
                assert(out[i2] == s.last());
                assert(out[i1] == prefix[i1]);
                let j1 = choose|j: int| 0 <= j < rest.len() && rest[j] == prefix[i1];
                assert(s[j1] == out[i1] && s[s.len() - 1] == out[i2]);
            }
        }
    }
}

/// The users that survive deleting the user with this id.
pub open spec fn users_without(us: Seq<UserV>, uid: int) -> Seq<UserV> {
    kept(us, |u: UserV| u.id != uid)
}

/// The character entries that survive deleting this owner.
pub open spec fn kanji_without_owner(ks: Seq<KanjiV>, uid: int) -> Seq<KanjiV> {
    kept(ks, |k: KanjiV| k.user_id != uid)
}

/// The phrase entries that survive deleting this owner.
pub open spec fn vocab_without_owner(vs: Seq<VocabV>, uid: int) -> Seq<VocabV> {
    kept(vs, |v: VocabV| v.user_id != uid)
}

/// The groups that survive deleting this owner.
pub open spec fn groups_without_owner(gs: Seq<GroupV>, uid: int) -> Seq<GroupV> {
    kept(gs, |g: GroupV| g.user_id != uid)
}

/// Deletes a user and every record the user owns: character entries,
/// phrase entries and groups all go with the owner, so no record is left
/// whose owner reference dangles. Fails with `INVALID_USER` when the user
/// is already gone; then nothing changes.
pub fn delete_user(store: &mut Store, user: &crate::models::User) -> (r: Result<(), ServerError>)
    requires
        old(store)@.wf(),
    ensures
        final(store)@.wf(),
        match r {
            Ok(()) => has_user_id(old(store)@, user@.id) && final(store)@ == (StoreV {
                users: users_without(old(store)@.users, user@.id),
                kanji: kanji_without_owner(old(store)@.kanji, user@.id),
                vocab: vocab_without_owner(old(store)@.vocab, user@.id),
                groups: groups_without_owner(old(store)@.groups, user@.id),
                next_id: old(store)@.next_id,
            }),
            Err(e) => e == ServerError::InvalidUser && !has_user_id(old(store)@, user@.id)
                && final(store)@ == old(store)@,
        },
{
    let uid = user.id;
    if store.find_user_by_id(uid).is_none() {
        return Err(ServerError::InvalidUser);
    }
    let ghost s1 = store@;
    let ghost ukeep = |u: UserV| u.id != uid as int;
    let ghost kkeep = |k: KanjiV| k.user_id != uid as int;
    let ghost vkeep = |v: VocabV| v.user_id != uid as int;
    let ghost gkeep = |g: GroupV| g.user_id != uid as int;

    let ghost korig = s1.kanji;
    let mut i: usize = 0;
    let ghost mut c: int = 0;
    while i < store.kanji.len()
        invariant
            store@.users == s1.users,
            store@.vocab == s1.vocab,
            store@.groups == s1.groups,
            store@.next_id == s1.next_id,
            0 <= c <= korig.len(),
            i == kept(korig.take(c), kkeep).len(),
            store@.kanji == kept(korig.take(c), kkeep) + korig.skip(c),
            kkeep == (|k: KanjiV| k.user_id != uid as int),
        decreases korig.len() - c,
    {
        proof {
            assert(korig.take(c + 1).drop_last() =~= korig.take(c));
            assert(korig.take(c + 1).last() == korig[c]);
            assert(store@.kanji[i as int] == korig[c]);
        }
        let ghost pre = store@.kanji;
        if store.kanji[i].user_id == uid {
            let ghost prevec = store.kanji@;
            let _removed = store.kanji.remove(i);
            proof {
                assert forall|j: int| 0 <= j < store@.kanji.len() implies #[trigger] store@.kanji[j]
                    == pre.remove(i as int)[j] by {
                    if j < i {
                        assert(store.kanji@[j] == prevec[j]);
                    } else {
                        assert(store.kanji@[j] == prevec[j + 1]);
                    }
                }
                assert(store@.kanji =~= pre.remove(i as int));
                assert(kept(korig.take(c + 1), kkeep) =~= kept(korig.take(c), kkeep));
                assert(store@.kanji =~= kept(korig.take(c + 1), kkeep) + korig.skip(c + 1));
                c = c + 1;
            }
        } else {
            proof {
                assert(kept(korig.take(c + 1), kkeep) =~= kept(korig.take(c), kkeep).push(
                    korig[c],
                ));
                assert(store@.kanji =~= kept(korig.take(c + 1), kkeep) + korig.skip(c + 1));
                c = c + 1;
            }
            i += 1;
        }
    }
    proof {
        assert(store@.kanji.len() == i + korig.len() - c);
        assert(c == korig.len());
        assert(korig.take(c) =~= korig);
    }

    let ghost vorig = s1.vocab;
    let mut i: usize = 0;
    let ghost mut c: int = 0;
    while i < store.vocab.len()
        invariant
            store@.users == s1.users,
            store@.kanji == kanji_without_owner(s1.kanji, uid as int),
            store@.groups == s1.groups,
            store@.next_id == s1.next_id,
            0 <= c <= vorig.len(),
            i == kept(vorig.take(c), vkeep).len(),
            store@.vocab == kept(vorig.take(c), vkeep) + vorig.skip(c),
            vkeep == (|v: VocabV| v.user_id != uid as int),
        decreases vorig.len() - c,
    {
        proof {
            assert(vorig.take(c + 1).drop_last() =~= vorig.take(c));
            assert(vorig.take(c + 1).last() == vorig[c]);
            assert(store@.vocab[i as int] == vorig[c]);
        }
        let ghost pre = store@.vocab;
        if store.vocab[i].user_id == uid {
            let ghost prevec = store.vocab@;
            let _removed = store.vocab.remove(i);
            proof {
                assert forall|j: int| 0 <= j < store@.vocab.len() implies #[trigger] store@.vocab[j]
                    == pre.remove(i as int)[j] by {
                    if j < i {
                        assert(store.vocab@[j] == prevec[j]);
                    } else {
                        assert(store.vocab@[j] == prevec[j + 1]);
                    }
                }
                assert(store@.vocab =~= pre.remove(i as int));
                assert(kept(vorig.take(c + 1), vkeep) =~= kept(vorig.take(c), vkeep));
                assert(store@.vocab =~= kept(vorig.take(c + 1), vkeep) + vorig.skip(c + 1));
                c = c + 1;
            }
        } else {
            proof {
                assert(kept(vorig.take(c + 1), vkeep) =~= kept(vorig.take(c), vkeep).push(
                    vorig[c],
                ));
                assert(store@.vocab =~= kept(vorig.take(c + 1), vkeep) + vorig.skip(c + 1));
                c = c + 1;
            }
            i += 1;
        }
    }
    proof {
        assert(store@.vocab.len() == i + vorig.len() - c);
        assert(c == vorig.len());
        assert(vorig.take(c) =~= vorig);
    }

    let ghost gorig = s1.groups;
    let mut i: usize = 0;
    let ghost mut c: int = 0;
    while i < store.groups.len()
        invariant
            store@.users == s1.users,
            store@.kanji == kanji_without_owner(s1.kanji, uid as int),
            store@.vocab == vocab_without_owner(s1.vocab, uid as int),
            store@.next_id == s1.next_id,
            0 <= c <= gorig.len(),
            i == kept(gorig.take(c), gkeep).len(),
            store@.groups == kept(gorig.take(c), gkeep) + gorig.skip(c),
            gkeep == (|g: GroupV| g.user_id != uid as int),
        decreases gorig.len() - c,
    {
        proof {
            assert(gorig.take(c + 1).drop_last() =~= gorig.take(c));
            assert(gorig.take(c + 1).last() == gorig[c]);
            assert(store@.groups[i as int] == gorig[c]);
        }
        let ghost pre = store@.groups;
        if store.groups[i].user_id == uid {
            let ghost prevec = store.groups@;
            let _removed = store.groups.remove(i);
            proof {
                assert forall|j: int| 0 <= j < store@.groups.len() implies #[trigger] store@.groups[j]
                    == pre.remove(i as int)[j] by {
                    if j < i {
                        assert(store.groups@[j] == prevec[j]);
                    } else {
                        assert(store.groups@[j] == prevec[j + 1]);
                    }
                }
                assert(store@.groups =~= pre.remove(i as int));
                assert(kept(gorig.take(c + 1), gkeep) =~= kept(gorig.take(c), gkeep));
                assert(store@.groups =~= kept(gorig.take(c + 1), gkeep) + gorig.skip(c + 1));
                c = c + 1;
            }
        } else {
            proof {
                assert(kept(gorig.take(c + 1), gkeep) =~= kept(gorig.take(c), gkeep).push(
                    gorig[c],
                ));
                assert(store@.groups =~= kept(gorig.take(c + 1), gkeep) + gorig.skip(c + 1));
                c = c + 1;
            }
            i += 1;
        }
    }
    proof {
        assert(store@.groups.len() == i + gorig.len() - c);
        assert(c == gorig.len());
        assert(gorig.take(c) =~= gorig);
    }

    let ghost uorig = s1.users;
    let mut i: usize = 0;
    let ghost mut c: int = 0;
    while i < store.users.len()
        invariant
            store@.kanji == kanji_without_owner(s1.kanji, uid as int),
            store@.vocab == vocab_without_owner(s1.vocab, uid as int),
            store@.groups == groups_without_owner(s1.groups, uid as int),
            store@.next_id == s1.next_id,
            0 <= c <= uorig.len(),
            i == kept(uorig.take(c), ukeep).len(),
            store@.users == kept(uorig.take(c), ukeep) + uorig.skip(c),
            ukeep == (|u: UserV| u.id != uid as int),
        decreases uorig.len() - c,
    {
        proof {
            assert(uorig.take(c + 1).drop_last() =~= uorig.take(c));
            assert(uorig.take(c + 1).last() == uorig[c]);
            assert(store@.users[i as int] == uorig[c]);
        }
        let ghost pre = store@.users;
        if store.users[i].id == uid {
            let ghost prevec = store.users@;
            let _removed = store.users.remove(i);
            proof {
                assert forall|j: int| 0 <= j < store@.users.len() implies #[trigger] store@.users[j]
                    == pre.remove(i as int)[j] by {
                    if j < i {
                        assert(store.users@[j] == prevec[j]);
                    } else {
                        assert(store.users@[j] == prevec[j + 1]);
                    }
                }
                assert(store@.users =~= pre.remove(i as int));
                assert(kept(uorig.take(c + 1), ukeep) =~= kept(uorig.take(c), ukeep));
                assert(store@.users =~= kept(uorig.take(c + 1), ukeep) + uorig.skip(c + 1));
                c = c + 1;
            }
        } else {
            proof {
                assert(kept(uorig.take(c + 1), ukeep) =~= kept(uorig.take(c), ukeep).push(
                    uorig[c],
                ));
                assert(store@.users =~= kept(uorig.take(c + 1), ukeep) + uorig.skip(c + 1));
                c = c + 1;
            }
            i += 1;
        }
    }
    proof {
        assert(store@.users.len() == i + uorig.len() - c);
        assert(c == uorig.len());
        assert(uorig.take(c) =~= uorig);
        assert(store@ =~~= (StoreV {
            users: users_without(s1.users, uid as int),
            kanji: kanji_without_owner(s1.kanji, uid as int),
            vocab: vocab_without_owner(s1.vocab, uid as int),
            groups: groups_without_owner(s1.groups, uid as int),
            next_id: s1.next_id,
        }));
        lemma_delete_user_wf(s1, store@, uid as int);
    }
    Ok(())
}

proof fn lemma_remove_kanji_wf(s1: StoreV, s2: StoreV, ki: int)
    requires
        s1.wf(),
        0 <= ki < s1.kanji.len(),
        s2 == (StoreV { kanji: s1.kanji.remove(ki), ..s1 }),
    ensures
        s2.wf(),
{
    assert forall|i: int| 0 <= i < s2.kanji.len() implies 0 <= #[trigger] s2.kanji[i].id
        < s2.next_id && has_user_id(s2, s2.kanji[i].user_id) && group_ref_ok(
        s2,
        s2.kanji[i].group_id,
        s2.kanji[i].user_id,
        false,
    ) by {
        let j: int = if i < ki {
            i
        } else {
            i + 1
        };
        assert(s2.kanji[i] == s1.kanji[j]);
        assert(has_user_id(s1, s1.kanji[j].user_id));
        let w = choose|q: int| 0 <= q < s1.users.len() && s1.users[q].id == s1.kanji[j].user_id;
        assert(s2.users[w].id == s2.kanji[i].user_id);
        assert(group_ref_ok(s1, s1.kanji[j].group_id, s1.kanji[j].user_id, false));
        if s1.kanji[j].group_id is Some {
            let g = s1.kanji[j].group_id->0;
            let gw = choose|q: int|
                0 <= q < s1.groups.len() && s1.groups[q].id == g && s1.groups[q].user_id
                    == s1.kanji[j].user_id && s1.groups[q].vocab == false;
            assert(0 <= gw < s2.groups.len() && s2.groups[gw].id == g && s2.groups[gw].user_id
                == s2.kanji[i].user_id && s2.groups[gw].vocab == false);
        }
    }
    assert forall|i: int| 0 <= i < s2.vocab.len() implies has_user_id(
        s2,
        #[trigger] s2.vocab[i].user_id,
    ) && group_ref_ok(s2, s2.vocab[i].group_id, s2.vocab[i].user_id, true) by {
        assert(has_user_id(s1, s1.vocab[i].user_id));
        let w = choose|q: int| 0 <= q < s1.users.len() && s1.users[q].id == s1.vocab[i].user_id;
        assert(s2.users[w].id == s2.vocab[i].user_id);
        assert(group_ref_ok(s1, s1.vocab[i].group_id, s1.vocab[i].user_id, true));
        if s1.vocab[i].group_id is Some {
            let g = s1.vocab[i].group_id->0;
            let gw = choose|q: int|
                0 <= q < s1.groups.len() && s1.groups[q].id == g && s1.groups[q].user_id
                    == s1.vocab[i].user_id && s1.groups[q].vocab == true;
            assert(0 <= gw < s2.groups.len() && s2.groups[gw].id == g && s2.groups[gw].user_id
                == s2.vocab[i].user_id && s2.groups[gw].vocab == true);
        }
    }
    assert forall|i: int| 0 <= i < s2.groups.len() implies has_user_id(
        s2,
        #[trigger] s2.groups[i].user_id,
    ) by {
        assert(has_user_id(s1, s1.groups[i].user_id));
        let w = choose|q: int| 0 <= q < s1.users.len() && s1.users[q].id == s1.groups[i].user_id;
        assert(s2.users[w].id == s2.groups[i].user_id);
    }
    assert forall|i: int| 0 <= i < s2.kanji.len() implies has_user_id(
        s2,
        #[trigger] s2.kanji[i].user_id,
    ) && group_ref_ok(s2, s2.kanji[i].group_id, s2.kanji[i].user_id, false) by {
        let j: int = if i < ki {
            i
        } else {
            i + 1
        };
        assert(s2.kanji[i] == s1.kanji[j]);
        assert(has_user_id(s1, s1.kanji[j].user_id));
        let w = choose|q: int| 0 <= q < s1.users.len() && s1.users[q].id == s1.kanji[j].user_id;
        assert(s2.users[w].id == s2.kanji[i].user_id);
        assert(group_ref_ok(s1, s1.kanji[j].group_id, s1.kanji[j].user_id, false));
        if s1.kanji[j].group_id is Some {
            let g = s1.kanji[j].group_id->0;
            let gw = choose|q: int|
                0 <= q < s1.groups.len() && s1.groups[q].id == g && s1.groups[q].user_id
                    == s1.kanji[j].user_id && s1.groups[q].vocab == false;
            assert(0 <= gw < s2.groups.len() && s2.groups[gw].id == g && s2.groups[gw].user_id
                == s2.kanji[i].user_id && s2.groups[gw].vocab == false);
        }
    }
    assert forall|i1: int, i2: int| 0 <= i1 < i2 < s2.kanji.len() implies s2.kanji[i1].id
        != s2.kanji[i2].id && !(s2.kanji[i1].user_id == s2.kanji[i2].user_id && s2.kanji[i1].symbol
        == s2.kanji[i2].symbol) by {
        let j1: int = if i1 < ki {
            i1
        } else {
            i1 + 1
        };
        let j2: int = if i2 < ki {
            i2
        } else {
            i2 + 1
        };
        assert(s2.kanji[i1] == s1.kanji[j1] && s2.kanji[i2] == s1.kanji[j2]);
    }
    assert forall|i1: int, i2: int| 0 <= i1 < i2 < s2.users.len() implies s2.users[i1].id
        != s2.users[i2].id && s2.users[i1].username != s2.users[i2].username by {
        assert(s2.users[i1] == s1.users[i1] && s2.users[i2] == s1.users[i2]);
    }
    assert forall|i: int| 0 <= i < s2.users.len() implies 0 <= #[trigger] s2.users[i].id
        < s2.next_id by {
        assert(s2.users[i] == s1.users[i]);
    }
    assert forall|i1: int, i2: int| 0 <= i1 < i2 < s2.vocab.len() implies s2.vocab[i1].id
        != s2.vocab[i2].id && !(s2.vocab[i1].user_id == s2.vocab[i2].user_id && s2.vocab[i1].phrase
        == s2.vocab[i2].phrase) by {
        assert(s2.vocab[i1] == s1.vocab[i1] && s2.vocab[i2] == s1.vocab[i2]);
    }
    assert forall|i: int| 0 <= i < s2.vocab.len() implies 0 <= #[trigger] s2.vocab[i].id
        < s2.next_id by {
        assert(s2.vocab[i] == s1.vocab[i]);
    }
    assert forall|i1: int, i2: int| 0 <= i1 < i2 < s2.groups.len() implies s2.groups[i1].id
        != s2.groups[i2].id && !(s2.groups[i1].user_id == s2.groups[i2].user_id
        && s2.groups[i1].title == s2.groups[i2].title && s2.groups[i1].vocab
        == s2.groups[i2].vocab) by {
        assert(s2.groups[i1] == s1.groups[i1] && s2.groups[i2] == s1.groups[i2]);
    }
    assert forall|i: int| 0 <= i < s2.groups.len() implies 0 <= #[trigger] s2.groups[i].id
        < s2.next_id by {
        assert(s2.groups[i] == s1.groups[i]);
    }
}

/// Deletes this owner's character entry with the symbol named by the
/// payload. The phrase entries that reference the symbol keep their
/// references: deletion does not unlink survivors. `INVALID_USER` when the
/// owner is gone, `INVALID_FORMAT` when the payload carries no symbol,
/// `INVALID_KANJI` when no such entry exists; then nothing changes.
pub fn delete_kanji(store: &mut Store, user: &crate::models::User, payload: &str) -> (r: Result<
    (),
    ServerError,
>)
    requires
        old(store)@.wf(),
    ensures
        final(store)@.wf(),
        !has_user_id(old(store)@, user@.id) ==> r == Err::<(), ServerError>(
            ServerError::InvalidUser,
        ) && final(store)@ == old(store)@,
        has_user_id(old(store)@, user@.id) ==> match json_str_of(payload@, "kanji_symbol"@) {
            None => r == Err::<(), ServerError>(ServerError::InvalidFormat) && final(store)@
                == old(store)@,
            Some(symbol) => match r {
                Ok(()) => exists|ki: int|
                    0 <= ki < old(store)@.kanji.len() && old(store)@.kanji[ki].user_id == user@.id
                        && old(store)@.kanji[ki].symbol == symbol && final(store)@ == (StoreV {
                        kanji: old(store)@.kanji.remove(ki),
                        ..old(store)@
                    }),
                Err(e) => e == ServerError::InvalidKanji && !has_kanji(
                    old(store)@,
                    user@.id,
                    symbol,
                ) && final(store)@ == old(store)@,
            },
        },
{
    if store.find_user_by_id(user.id).is_none() {
        return Err(ServerError::InvalidUser);
    }
    let symbol = match json_str_field(payload, "kanji_symbol") {
        Some(s) => s,
        None => {
            return Err(ServerError::InvalidFormat);
        },
    };
    let ki = match store.find_kanji(user.id, symbol.as_str()) {
        Some(ki) => ki,
        None => {
            return Err(ServerError::InvalidKanji);
        },
    };
    let ghost s1 = store@;
    let ghost prevec = store.kanji@;
    let _removed = store.kanji.remove(ki);
    proof {
        assert forall|j: int| 0 <= j < store@.kanji.len() implies #[trigger] store@.kanji[j]
            == s1.kanji.remove(ki as int)[j] by {
            if j < ki {
                assert(store.kanji@[j] == prevec[j]);
            } else {
                assert(store.kanji@[j] == prevec[j + 1]);
            }
        }
        assert(store@.kanji =~= s1.kanji.remove(ki as int));
        assert(store@ =~~= (StoreV { kanji: s1.kanji.remove(ki as int), ..s1 }));
        lemma_remove_kanji_wf(s1, store@, ki as int);
    }
    Ok(())
}

proof fn lemma_remove_vocab_wf(s1: StoreV, s2: StoreV, vi: int)
    requires
        s1.wf(),
        0 <= vi < s1.vocab.len(),
        s2 == (StoreV { vocab: s1.vocab.remove(vi), ..s1 }),
    ensures
        s2.wf(),
{
    assert forall|i: int| 0 <= i < s2.vocab.len() implies 0 <= #[trigger] s2.vocab[i].id
        < s2.next_id && has_user_id(s2, s2.vocab[i].user_id) && group_ref_ok(
        s2,
        s2.vocab[i].group_id,
        s2.vocab[i].user_id,
        true,
    ) by {
        let j: int = if i < vi {
            i
        } else {
            i + 1
        };
        assert(s2.vocab[i] == s1.vocab[j]);
        assert(has_user_id(s1, s1.vocab[j].user_id));
        let w = choose|q: int| 0 <= q < s1.users.len() && s1.users[q].id == s1.vocab[j].user_id;
        assert(s2.users[w].id == s2.vocab[i].user_id);
        assert(group_ref_ok(s1, s1.vocab[j].group_id, s1.vocab[j].user_id, true));
        if s1.vocab[j].group_id is Some {
            let g = s1.vocab[j].group_id->0;
            let gw = choose|q: int|
                0 <= q < s1.groups.len() && s1.groups[q].id == g && s1.groups[q].user_id
                    == s1.vocab[j].user_id && s1.groups[q].vocab == true;
            assert(0 <= gw < s2.groups.len() && s2.groups[gw].id == g && s2.groups[gw].user_id
                == s2.vocab[i].user_id && s2.groups[gw].vocab == true);
        }
    }
    assert forall|i: int| 0 <= i < s2.kanji.len() implies has_user_id(
        s2,
        #[trigger] s2.kanji[i].user_id,
    ) && group_ref_ok(s2, s2.kanji[i].group_id, s2.kanji[i].user_id, false) by {
        assert(has_user_id(s1, s1.kanji[i].user_id));
        let w = choose|q: int| 0 <= q < s1.users.len() && s1.users[q].id == s1.kanji[i].user_id;
        assert(s2.users[w].id == s2.kanji[i].user_id);
        assert(group_ref_ok(s1, s1.kanji[i].group_id, s1.kanji[i].user_id, false));
        if s1.kanji[i].group_id is Some {
            let g = s1.kanji[i].group_id->0;
            let gw = choose|q: int|
                0 <= q < s1.groups.len() && s1.groups[q].id == g && s1.groups[q].user_id
                    == s1.kanji[i].user_id && s1.groups[q].vocab == false;
            assert(0 <= gw < s2.groups.len() && s2.groups[gw].id == g && s2.groups[gw].user_id
                == s2.kanji[i].user_id && s2.groups[gw].vocab == false);
        }
    }
    assert forall|i: int| 0 <= i < s2.groups.len() implies has_user_id(
        s2,
        #[trigger] s2.groups[i].user_id,
    ) by {
        assert(has_user_id(s1, s1.groups[i].user_id));
        let w = choose|q: int| 0 <= q < s1.users.len() && s1.users[q].id == s1.groups[i].user_id;
        assert(s2.users[w].id == s2.groups[i].user_id);
    }
    assert forall|i: int| 0 <= i < s2.vocab.len() implies has_user_id(
        s2,
        #[trigger] s2.vocab[i].user_id,
    ) && group_ref_ok(s2, s2.vocab[i].group_id, s2.vocab[i].user_id, true) by {
        let j: int = if i < vi {
            i
        } else {
            i + 1
        };
        assert(s2.vocab[i] == s1.vocab[j]);
        assert(has_user_id(s1, s1.vocab[j].user_id));
        let w = choose|q: int| 0 <= q < s1.users.len() && s1.users[q].id == s1.vocab[j].user_id;
        assert(s2.users[w].id == s2.vocab[i].user_id);
        assert(group_ref_ok(s1, s1.vocab[j].group_id, s1.vocab[j].user_id, true));
        if s1.vocab[j].group_id is Some {
            let g = s1.vocab[j].group_id->0;
            let gw = choose|q: int|
                0 <= q < s1.groups.len() && s1.groups[q].id == g && s1.groups[q].user_id
                    == s1.vocab[j].user_id && s1.groups[q].vocab == true;
            assert(0 <= gw < s2.groups.len() && s2.groups[gw].id == g && s2.groups[gw].user_id
                == s2.vocab[i].user_id && s2.groups[gw].vocab == true);
        }
    }
    assert forall|i1: int, i2: int| 0 <= i1 < i2 < s2.vocab.len() implies s2.vocab[i1].id
        != s2.vocab[i2].id && !(s2.vocab[i1].user_id == s2.vocab[i2].user_id && s2.vocab[i1].phrase
        == s2.vocab[i2].phrase) by {
        let j1: int = if i1 < vi {
            i1
        } else {
            i1 + 1
        };
        let j2: int = if i2 < vi {
            i2
        } else {
            i2 + 1
        };
        assert(s2.vocab[i1] == s1.vocab[j1] && s2.vocab[i2] == s1.vocab[j2]);
    }
    assert forall|i1: int, i2: int| 0 <= i1 < i2 < s2.users.len() implies s2.users[i1].id
        != s2.users[i2].id && s2.users[i1].username != s2.users[i2].username by {
        assert(s2.users[i1] == s1.users[i1] && s2.users[i2] == s1.users[i2]);
    }
    assert forall|i: int| 0 <= i < s2.users.len() implies 0 <= #[trigger] s2.users[i].id
        < s2.next_id by {
        assert(s2.users[i] == s1.users[i]);
    }
    assert forall|i1: int, i2: int| 0 <= i1 < i2 < s2.kanji.len() implies s2.kanji[i1].id
        != s2.kanji[i2].id && !(s2.kanji[i1].user_id == s2.kanji[i2].user_id && s2.kanji[i1].symbol
        == s2.kanji[i2].symbol) by {
        assert(s2.kanji[i1] == s1.kanji[i1] && s2.kanji[i2] == s1.kanji[i2]);
    }
    assert forall|i: int| 0 <= i < s2.kanji.len() implies 0 <= #[trigger] s2.kanji[i].id
        < s2.next_id by {
        assert(s2.kanji[i] == s1.kanji[i]);
    }
    assert forall|i1: int, i2: int| 0 <= i1 < i2 < s2.groups.len() implies s2.groups[i1].id
        != s2.groups[i2].id && !(s2.groups[i1].user_id == s2.groups[i2].user_id
        && s2.groups[i1].title == s2.groups[i2].title && s2.groups[i1].vocab
        == s2.groups[i2].vocab) by {
        assert(s2.groups[i1] == s1.groups[i1] && s2.groups[i2] == s1.groups[i2]);
    }
    assert forall|i: int| 0 <= i < s2.groups.len() implies 0 <= #[trigger] s2.groups[i].id
        < s2.next_id by {
        assert(s2.groups[i] == s1.groups[i]);
    }
}

/// Deletes this owner's phrase entry with the phrase named by the payload.
/// Character entries that reference the phrase keep their references:
/// deletion does not unlink survivors. `INVALID_USER` when the owner is
/// gone, `INVALID_FORMAT` when the payload carries no phrase,
/// `INVALID_VOCAB` when no such entry exists; then nothing changes.
pub fn delete_vocab(store: &mut Store, user: &crate::models::User, payload: &str) -> (r: Result<
    (),
    ServerError,
>)
    requires
        old(store)@.wf(),
    ensures
        final(store)@.wf(),
        !has_user_id(old(store)@, user@.id) ==> r == Err::<(), ServerError>(
            ServerError::InvalidUser,
        ) && final(store)@ == old(store)@,
        has_user_id(old(store)@, user@.id) ==> match json_str_of(payload@, "vocab_phrase"@) {
            None => r == Err::<(), ServerError>(ServerError::InvalidFormat) && final(store)@
                == old(store)@,
            Some(phrase) => match r {
                Ok(()) => exists|vi: int|
                    0 <= vi < old(store)@.vocab.len() && old(store)@.vocab[vi].user_id == user@.id
                        && old(store)@.vocab[vi].phrase == phrase && final(store)@ == (StoreV {
                        vocab: old(store)@.vocab.remove(vi),
                        ..old(store)@
                    }),
                Err(e) => e == ServerError::InvalidVocab && !has_vocab(
                    old(store)@,
                    user@.id,
                    phrase,
                ) && final(store)@ == old(store)@,
            },
        },
{
    if store.find_user_by_id(user.id).is_none() {
        return Err(ServerError::InvalidUser);
    }
    let phrase = match json_str_field(payload, "vocab_phrase") {
        Some(s) => s,
        None => {
            return Err(ServerError::InvalidFormat);
        },
    };
    let vi = match store.find_vocab(user.id, phrase.as_str()) {
        Some(vi) => vi,
        None => {
            return Err(ServerError::InvalidVocab);
        },
    };
    let ghost s1 = store@;
    let ghost prevec = store.vocab@;
    let _removed = store.vocab.remove(vi);
    proof {
        assert forall|j: int| 0 <= j < store@.vocab.len() implies #[trigger] store@.vocab[j]
            == s1.vocab.remove(vi as int)[j] by {
            if j < vi {
                assert(store.vocab@[j] == prevec[j]);
            } else {
                assert(store.vocab@[j] == prevec[j + 1]);
            }
        }
        assert(store@.vocab =~= s1.vocab.remove(vi as int));
        assert(store@ =~~= (StoreV { vocab: s1.vocab.remove(vi as int), ..s1 }));
        lemma_remove_vocab_wf(s1, store@, vi as int);
    }
    Ok(())
}

/// Removes this owner's character entry from whatever group it is in: the
/// entry's group reference is cleared. The named group must exist with
/// character kind (`INVALID_GROUP`), the entry must exist
/// (`INVALID_KANJI`), and the entry must currently be in a group
/// (`ALREADY_REMOVED`); `INVALID_USER` and `INVALID_FORMAT` as everywhere.
pub fn delete_group_kanji(store: &mut Store, user: &crate::models::User, payload: &str) -> (r:
    Result<(), ServerError>)
    requires
        old(store)@.wf(),
    ensures
        final(store)@.wf(),
        !has_user_id(old(store)@, user@.id) ==> r == Err::<(), ServerError>(
            ServerError::InvalidUser,
        ) && final(store)@ == old(store)@,
        has_user_id(old(store)@, user@.id) ==> match (json_str_of(payload@, "group_title"@),
        json_str_of(payload@, "kanji_symbol"@)) {
            (Some(title), Some(symbol)) => match r {
                Ok(()) => has_group(old(store)@, user@.id, title, false) && exists|ki: int|
                    0 <= ki < old(store)@.kanji.len() && old(store)@.kanji[ki].user_id == user@.id
                        && old(store)@.kanji[ki].symbol == symbol
                        && old(store)@.kanji[ki].group_id is Some && final(store)@ == (StoreV {
                        kanji: old(store)@.kanji.update(
                            ki,
                            KanjiV { group_id: None, ..old(store)@.kanji[ki] },
                        ),
                        ..old(store)@
                    }),
                Err(e) => final(store)@ == old(store)@ && {
                    ||| (e == ServerError::InvalidGroup && !has_group(
                        old(store)@,
                        user@.id,
                        title,
                        false,
                    ))
                    ||| (e == ServerError::InvalidKanji && has_group(
                        old(store)@,
                        user@.id,
                        title,
                        false,
                    ) && !has_kanji(old(store)@, user@.id, symbol))
                    ||| (e == ServerError::AlreadyRemoved && has_group(
                        old(store)@,
                        user@.id,
                        title,
                        false,
                    ) && exists|ki: int|
                        0 <= ki < old(store)@.kanji.len() && old(store)@.kanji[ki].user_id
                            == user@.id && old(store)@.kanji[ki].symbol == symbol
                            && old(store)@.kanji[ki].group_id is None)
                },
            },
            _ => r == Err::<(), ServerError>(ServerError::InvalidFormat) && final(store)@ == old(
                store,
            )@,
        },
{
    if store.find_user_by_id(user.id).is_none() {
        return Err(ServerError::InvalidUser);
    }
    let title = match json_str_field(payload, "group_title") {
        Some(s) => s,
        None => {
            return Err(ServerError::InvalidFormat);
        },
    };
    let symbol = match json_str_field(payload, "kanji_symbol") {
        Some(s) => s,
        None => {
            return Err(ServerError::InvalidFormat);
        },
    };
    if store.find_group(user.id, title.as_str(), false).is_none() {
        return Err(ServerError::InvalidGroup);
    }
    let ki = match store.find_kanji(user.id, symbol.as_str()) {
        Some(ki) => ki,
        None => {
            return Err(ServerError::InvalidKanji);
        },
    };
    if store.kanji[ki].group_id.is_none() {
        return Err(ServerError::AlreadyRemoved);
    }
    let ghost s1 = store@;
    let ghost prevec = store.kanji@;
    store.kanji[ki].group_id = None;
    proof {
        assert(store.kanji@ =~= prevec.update(ki as int, store.kanji@[ki as int]));
        assert forall|j: int| 0 <= j < s1.kanji.len() && j != ki implies #[trigger] store@.kanji[j]
            == s1.kanji[j] by {
            assert(store.kanji@[j] == prevec[j]);
        }
        assert(store@.kanji[ki as int] =~~= (KanjiV { group_id: None, ..s1.kanji[ki as int] }));
        assert(store@ =~~= (StoreV {
            kanji: s1.kanji.update(ki as int, KanjiV { group_id: None, ..s1.kanji[ki as int] }),
            ..s1
        }));
        lemma_clear_kanji_group_wf(s1, store@, ki as int);
    }
    Ok(())
}

proof fn lemma_clear_kanji_group_wf(s1: StoreV, s2: StoreV, ki: int)
    requires
        s1.wf(),
        0 <= ki < s1.kanji.len(),
        s2 == (StoreV {
            kanji: s1.kanji.update(ki, KanjiV { group_id: None, ..s1.kanji[ki] }),
            ..s1
        }),
    ensures
        s2.wf(),
{
    assert forall|i: int| 0 <= i < s2.kanji.len() implies 0 <= #[trigger] s2.kanji[i].id
        < s2.next_id && has_user_id(s2, s2.kanji[i].user_id) && group_ref_ok(
        s2,
        s2.kanji[i].group_id,
        s2.kanji[i].user_id,
        false,
    ) by {
        assert(s2.kanji[i].id == s1.kanji[i].id && s2.kanji[i].user_id == s1.kanji[i].user_id);
        assert(has_user_id(s1, s1.kanji[i].user_id));
        let w = choose|q: int| 0 <= q < s1.users.len() && s1.users[q].id == s1.kanji[i].user_id;
        assert(s2.users[w].id == s2.kanji[i].user_id);
        if i != ki {
            assert(s2.kanji[i] == s1.kanji[i]);
            assert(group_ref_ok(s1, s1.kanji[i].group_id, s1.kanji[i].user_id, false));
            if s1.kanji[i].group_id is Some {
                let g = s1.kanji[i].group_id->0;
                let gw = choose|q: int|
                    0 <= q < s1.groups.len() && s1.groups[q].id == g && s1.groups[q].user_id
                        == s1.kanji[i].user_id && s1.groups[q].vocab == false;
                assert(0 <= gw < s2.groups.len() && s2.groups[gw].id == g && s2.groups[gw].user_id
                    == s2.kanji[i].user_id && s2.groups[gw].vocab == false);
            }
        }
    }
    assert forall|i: int| 0 <= i < s2.vocab.len() implies has_user_id(
        s2,
        #[trigger] s2.vocab[i].user_id,
    ) && group_ref_ok(s2, s2.vocab[i].group_id, s2.vocab[i].user_id, true) by {
        assert(has_user_id(s1, s1.vocab[i].user_id));
        let w = choose|q: int| 0 <= q < s1.users.len() && s1.users[q].id == s1.vocab[i].user_id;
        assert(s2.users[w].id == s2.vocab[i].user_id);
        assert(group_ref_ok(s1, s1.vocab[i].group_id, s1.vocab[i].user_id, true));
        if s1.vocab[i].group_id is Some {
            let g = s1.vocab[i].group_id->0;
            let gw = choose|q: int|
                0 <= q < s1.groups.len() && s1.groups[q].id == g && s1.groups[q].user_id
                    == s1.vocab[i].user_id && s1.groups[q].vocab == true;
            assert(0 <= gw < s2.groups.len() && s2.groups[gw].id == g && s2.groups[gw].user_id
                == s2.vocab[i].user_id && s2.groups[gw].vocab == true);
        }
    }
    assert forall|i: int| 0 <= i < s2.groups.len() implies has_user_id(
        s2,
        #[trigger] s2.groups[i].user_id,
    ) by {
        assert(has_user_id(s1, s1.groups[i].user_id));
        let w = choose|q: int| 0 <= q < s1.users.len() && s1.users[q].id == s1.groups[i].user_id;
        assert(s2.users[w].id == s2.groups[i].user_id);
    }
    assert forall|i1: int, i2: int| 0 <= i1 < i2 < s2.kanji.len() implies s2.kanji[i1].id
        != s2.kanji[i2].id && !(s2.kanji[i1].user_id == s2.kanji[i2].user_id && s2.kanji[i1].symbol
        == s2.kanji[i2].symbol) by {
        assert(s2.kanji[i1].id == s1.kanji[i1].id && s2.kanji[i1].user_id == s1.kanji[i1].user_id
            && s2.kanji[i1].symbol == s1.kanji[i1].symbol);
        assert(s2.kanji[i2].id == s1.kanji[i2].id && s2.kanji[i2].user_id == s1.kanji[i2].user_id
            && s2.kanji[i2].symbol == s1.kanji[i2].symbol);
    }
}

proof fn lemma_clear_vocab_group_wf(s1: StoreV, s2: StoreV, vi: int)
    requires
        s1.wf(),
        0 <= vi < s1.vocab.len(),
        s2 == (StoreV {
            vocab: s1.vocab.update(vi, VocabV { group_id: None, ..s1.vocab[vi] }),
            ..s1
        }),
    ensures
        s2.wf(),
{
    assert forall|i: int| 0 <= i < s2.vocab.len() implies 0 <= #[trigger] s2.vocab[i].id
        < s2.next_id && has_user_id(s2, s2.vocab[i].user_id) && group_ref_ok(
        s2,
        s2.vocab[i].group_id,
        s2.vocab[i].user_id,
        true,
    ) by {
        assert(s2.vocab[i].id == s1.vocab[i].id && s2.vocab[i].user_id == s1.vocab[i].user_id);
        assert(has_user_id(s1, s1.vocab[i].user_id));
        let w = choose|q: int| 0 <= q < s1.users.len() && s1.users[q].id == s1.vocab[i].user_id;
        assert(s2.users[w].id == s2.vocab[i].user_id);
        if i != vi {
            assert(s2.vocab[i] == s1.vocab[i]);
            assert(group_ref_ok(s1, s1.vocab[i].group_id, s1.vocab[i].user_id, true));
            if s1.vocab[i].group_id is Some {
                let g = s1.vocab[i].group_id->0;
                let gw = choose|q: int|
                    0 <= q < s1.groups.len() && s1.groups[q].id == g && s1.groups[q].user_id
                        == s1.vocab[i].user_id && s1.groups[q].vocab == true;
                assert(0 <= gw < s2.groups.len() && s2.groups[gw].id == g && s2.groups[gw].user_id
                    == s2.vocab[i].user_id && s2.groups[gw].vocab == true);
            }
        }
    }
    assert forall|i: int| 0 <= i < s2.kanji.len() implies has_user_id(
        s2,
        #[trigger] s2.kanji[i].user_id,
    ) && group_ref_ok(s2, s2.kanji[i].group_id, s2.kanji[i].user_id, false) by {
        assert(has_user_id(s1, s1.kanji[i].user_id));
        let w = choose|q: int| 0 <= q < s1.users.len() && s1.users[q].id == s1.kanji[i].user_id;
        assert(s2.users[w].id == s2.kanji[i].user_id);
        assert(group_ref_ok(s1, s1.kanji[i].group_id, s1.kanji[i].user_id, false));
        if s1.kanji[i].group_id is Some {
            let g = s1.kanji[i].group_id->0;
            let gw = choose|q: int|
                0 <= q < s1.groups.len() && s1.groups[q].id == g && s1.groups[q].user_id
                    == s1.kanji[i].user_id && s1.groups[q].vocab == false;
            assert(0 <= gw < s2.groups.len() && s2.groups[gw].id == g && s2.groups[gw].user_id
                == s2.kanji[i].user_id && s2.groups[gw].vocab == false);
        }
    }
    assert forall|i: int| 0 <= i < s2.groups.len() implies has_user_id(
        s2,
        #[trigger] s2.groups[i].user_id,
    ) by {
        assert(has_user_id(s1, s1.groups[i].user_id));
        let w = choose|q: int| 0 <= q < s1.users.len() && s1.users[q].id == s1.groups[i].user_id;
        assert(s2.users[w].id == s2.groups[i].user_id);
    }
    assert forall|i1: int, i2: int| 0 <= i1 < i2 < s2.vocab.len() implies s2.vocab[i1].id
        != s2.vocab[i2].id && !(s2.vocab[i1].user_id == s2.vocab[i2].user_id && s2.vocab[i1].phrase
        == s2.vocab[i2].phrase) by {
        assert(s2.vocab[i1].id == s1.vocab[i1].id && s2.vocab[i1].user_id == s1.vocab[i1].user_id
            && s2.vocab[i1].phrase == s1.vocab[i1].phrase);
        assert(s2.vocab[i2].id == s1.vocab[i2].id && s2.vocab[i2].user_id == s1.vocab[i2].user_id
            && s2.vocab[i2].phrase == s1.vocab[i2].phrase);
    }
}

/// Removes this owner's phrase entry from whatever group it is in: the
/// entry's group reference is cleared. The named group must exist with
/// phrase kind (`INVALID_GROUP`), the entry must exist (`INVALID_VOCAB`),
/// and the entry must currently be in a group (`ALREADY_REMOVED`);
/// `INVALID_USER` and `INVALID_FORMAT` as everywhere.
pub fn delete_group_vocab(store: &mut Store, user: &crate::models::User, payload: &str) -> (r:
    Result<(), ServerError>)
    requires
        old(store)@.wf(),
    ensures
        final(store)@.wf(),
        !has_user_id(old(store)@, user@.id) ==> r == Err::<(), ServerError>(
            ServerError::InvalidUser,
        ) && final(store)@ == old(store)@,
        has_user_id(old(store)@, user@.id) ==> match (json_str_of(payload@, "group_title"@),
        json_str_of(payload@, "vocab_phrase"@)) {
            (Some(title), Some(phrase)) => match r {
                Ok(()) => has_group(old(store)@, user@.id, title, true) && exists|vi: int|
                    0 <= vi < old(store)@.vocab.len() && old(store)@.vocab[vi].user_id == user@.id
                        && old(store)@.vocab[vi].phrase == phrase
                        && old(store)@.vocab[vi].group_id is Some && final(store)@ == (StoreV {
                        vocab: old(store)@.vocab.update(
                            vi,
                            VocabV { group_id: None, ..old(store)@.vocab[vi] },
                        ),
                        ..old(store)@
                    }),
                Err(e) => final(store)@ == old(store)@ && {
                    ||| (e == ServerError::InvalidGroup && !has_group(
                        old(store)@,
                        user@.id,
                        title,
                        true,
                    ))
                    ||| (e == ServerError::InvalidVocab && has_group(
                        old(store)@,
                        user@.id,
                        title,
                        true,
                    ) && !has_vocab(old(store)@, user@.id, phrase))
                    ||| (e == ServerError::AlreadyRemoved && has_group(
                        old(store)@,
                        user@.id,
                        title,
                        true,
                    ) && exists|vi: int|
                        0 <= vi < old(store)@.vocab.len() && old(store)@.vocab[vi].user_id
                            == user@.id && old(store)@.vocab[vi].phrase == phrase
                            && old(store)@.vocab[vi].group_id is None)
                },
            },
            _ => r == Err::<(), ServerError>(ServerError::InvalidFormat) && final(store)@ == old(
                store,
            )@,
        },
{
    if store.find_user_by_id(user.id).is_none() {
        return Err(ServerError::InvalidUser);
    }
    let title = match json_str_field(payload, "group_title") {
        Some(s) => s,
        None => {
            return Err(ServerError::InvalidFormat);
        },
    };
    let phrase = match json_str_field(payload, "vocab_phrase") {
        Some(s) => s,
        None => {
            return Err(ServerError::InvalidFormat);
        },
    };
    if store.find_group(user.id, title.as_str(), true).is_none() {
        return Err(ServerError::InvalidGroup);
    }
    let vi = match store.find_vocab(user.id, phrase.as_str()) {
        Some(vi) => vi,
        None => {
            return Err(ServerError::InvalidVocab);
        },
    };
    if store.vocab[vi].group_id.is_none() {
        return Err(ServerError::AlreadyRemoved);
    }
    let ghost s1 = store@;
    let ghost prevec = store.vocab@;
    store.vocab[vi].group_id = None;
    proof {
        assert(store.vocab@ =~= prevec.update(vi as int, store.vocab@[vi as int]));
        assert forall|j: int| 0 <= j < s1.vocab.len() && j != vi implies #[trigger] store@.vocab[j]
            == s1.vocab[j] by {
            assert(store.vocab@[j] == prevec[j]);
        }
        assert(store@.vocab[vi as int] =~~= (VocabV { group_id: None, ..s1.vocab[vi as int] }));
        assert(store@ =~~= (StoreV {
            vocab: s1.vocab.update(vi as int, VocabV { group_id: None, ..s1.vocab[vi as int] }),
            ..s1
        }));
        lemma_clear_vocab_group_wf(s1, store@, vi as int);
    }
    Ok(())
}

/// The character entries as deleting the group with this id leaves them:
/// members have their group reference cleared, everything else is kept.
pub open spec fn kanji_ungrouped(ks: Seq<KanjiV>, gid: int) -> Seq<KanjiV> {
    ks.map_values(
        |k: KanjiV| if k.group_id == Some(gid) {
            KanjiV { group_id: None, ..k }
        } else {
            k
        },
    )
}

/// The phrase entries as deleting the group with this id leaves them.
pub open spec fn vocab_ungrouped(vs: Seq<VocabV>, gid: int) -> Seq<VocabV> {
    vs.map_values(
        |v: VocabV| if v.group_id == Some(gid) {
            VocabV { group_id: None, ..v }
        } else {
            v
        },
    )
}

proof fn lemma_delete_group_wf(s1: StoreV, s2: StoreV, gi: int, kind: bool)
    requires
        s1.wf(),
        0 <= gi < s1.groups.len(),
        s1.groups[gi].vocab == kind,
        s2.users == s1.users,
        s2.groups == s1.groups.remove(gi),
        s2.next_id == s1.next_id,
        kind == false ==> s2.kanji == kanji_ungrouped(s1.kanji, s1.groups[gi].id) && s2.vocab
            == s1.vocab,
        kind == true ==> s2.vocab == vocab_ungrouped(s1.vocab, s1.groups[gi].id) && s2.kanji
            == s1.kanji,
    ensures
        s2.wf(),
{
    let gid = s1.groups[gi].id;
    assert forall|i: int| 0 <= i < s2.kanji.len() implies s2.kanji[i].id == s1.kanji[i].id
        && s2.kanji[i].user_id == s1.kanji[i].user_id && s2.kanji[i].symbol == s1.kanji[i].symbol
        && (s2.kanji[i].group_id == s1.kanji[i].group_id || s2.kanji[i].group_id is None) by {
        if kind == false {
            assert(s2.kanji[i] == kanji_ungrouped(s1.kanji, gid)[i]);
        }
    }
    assert forall|i: int| 0 <= i < s2.vocab.len() implies s2.vocab[i].id == s1.vocab[i].id
        && s2.vocab[i].user_id == s1.vocab[i].user_id && s2.vocab[i].phrase == s1.vocab[i].phrase
        && (s2.vocab[i].group_id == s1.vocab[i].group_id || s2.vocab[i].group_id is None) by {
        if kind == true {
            assert(s2.vocab[i] == vocab_ungrouped(s1.vocab, gid)[i]);
        }
    }
    assert forall|i1: int, i2: int| 0 <= i1 < i2 < s2.users.len() implies s2.users[i1].id
        != s2.users[i2].id && s2.users[i1].username != s2.users[i2].username by {
        assert(s2.users[i1] == s1.users[i1] && s2.users[i2] == s1.users[i2]);
    }
    assert forall|i: int| 0 <= i < s2.users.len() implies 0 <= #[trigger] s2.users[i].id
        < s2.next_id by {
        assert(s2.users[i] == s1.users[i]);
    }
    assert forall|i1: int, i2: int| 0 <= i1 < i2 < s2.kanji.len() implies s2.kanji[i1].id
        != s2.kanji[i2].id && !(s2.kanji[i1].user_id == s2.kanji[i2].user_id && s2.kanji[i1].symbol
        == s2.kanji[i2].symbol) by {}
    assert forall|i: int| 0 <= i < s2.kanji.len() implies 0 <= #[trigger] s2.kanji[i].id
        < s2.next_id by {}
    assert forall|i1: int, i2: int| 0 <= i1 < i2 < s2.vocab.len() implies s2.vocab[i1].id
        != s2.vocab[i2].id && !(s2.vocab[i1].user_id == s2.vocab[i2].user_id && s2.vocab[i1].phrase
        == s2.vocab[i2].phrase) by {}
    assert forall|i: int| 0 <= i < s2.vocab.len() implies 0 <= #[trigger] s2.vocab[i].id
        < s2.next_id by {}
    assert forall|i1: int, i2: int| 0 <= i1 < i2 < s2.groups.len() implies s2.groups[i1].id
        != s2.groups[i2].id && !(s2.groups[i1].user_id == s2.groups[i2].user_id
        && s2.groups[i1].title == s2.groups[i2].title && s2.groups[i1].vocab
        == s2.groups[i2].vocab) by {
        let j1: int = if i1 < gi {
            i1
        } else {
            i1 + 1
        };
        let j2: int = if i2 < gi {
            i2
        } else {
            i2 + 1
        };
        assert(s2.groups[i1] == s1.groups[j1] && s2.groups[i2] == s1.groups[j2]);
    }
    assert forall|i: int| 0 <= i < s2.groups.len() implies 0 <= #[trigger] s2.groups[i].id
        < s2.next_id && has_user_id(s2, s2.groups[i].user_id) by {
        let j: int = if i < gi {
            i
        } else {
            i + 1
        };
        assert(s2.groups[i] == s1.groups[j]);
        assert(has_user_id(s1, s1.groups[j].user_id));
        let w = choose|q: int| 0 <= q < s1.users.len() && s1.users[q].id == s1.groups[j].user_id;
        assert(s2.users[w].id == s2.groups[i].user_id);
    }
    assert forall|i: int| 0 <= i < s2.kanji.len() implies has_user_id(
        s2,
        #[trigger] s2.kanji[i].user_id,
    ) && group_ref_ok(s2, s2.kanji[i].group_id, s2.kanji[i].user_id, false) by {
        assert(has_user_id(s1, s1.kanji[i].user_id));
        let w = choose|q: int| 0 <= q < s1.users.len() && s1.users[q].id == s1.kanji[i].user_id;
        assert(s2.users[w].id == s2.kanji[i].user_id);
        if s2.kanji[i].group_id is Some {
            let g = s2.kanji[i].group_id->0;
            assert(s2.kanji[i].group_id == s1.kanji[i].group_id);
            assert(group_ref_ok(s1, s1.kanji[i].group_id, s1.kanji[i].user_id, false));
            let gw = choose|q: int|
                0 <= q < s1.groups.len() && s1.groups[q].id == g && s1.groups[q].user_id
                    == s1.kanji[i].user_id && s1.groups[q].vocab == false;
            assert(gw != gi) by {
                if gw == gi {
                    if kind == false {
                        assert(s1.kanji[i].group_id == Some(gid));
                        assert(kanji_ungrouped(s1.kanji, gid)[i].group_id is None);
                    }
                }
            }
            let gw2: int = if gw < gi {
                gw
            } else {
                gw - 1
            };
            assert(s2.groups[gw2] == s1.groups[gw]);
            assert(0 <= gw2 < s2.groups.len() && s2.groups[gw2].id == g && s2.groups[gw2].user_id
                == s2.kanji[i].user_id && s2.groups[gw2].vocab == false);
        }
    }
    assert forall|i: int| 0 <= i < s2.vocab.len() implies has_user_id(
        s2,
        #[trigger] s2.vocab[i].user_id,
    ) && group_ref_ok(s2, s2.vocab[i].group_id, s2.vocab[i].user_id, true) by {
        assert(has_user_id(s1, s1.vocab[i].user_id));
        let w = choose|q: int| 0 <= q < s1.users.len() && s1.users[q].id == s1.vocab[i].user_id;
        assert(s2.users[w].id == s2.vocab[i].user_id);
        if s2.vocab[i].group_id is Some {
            let g = s2.vocab[i].group_id->0;
            assert(s2.vocab[i].group_id == s1.vocab[i].group_id);
            assert(group_ref_ok(s1, s1.vocab[i].group_id, s1.vocab[i].user_id, true));
            let gw = choose|q: int|
                0 <= q < s1.groups.len() && s1.groups[q].id == g && s1.groups[q].user_id
                    == s1.vocab[i].user_id && s1.groups[q].vocab == true;
            assert(gw != gi) by {
                if gw == gi {
                    if kind == true {
                        assert(s1.vocab[i].group_id == Some(gid));
                        assert(vocab_ungrouped(s1.vocab, gid)[i].group_id is None);
                    }
                }
            }
            let gw2: int = if gw < gi {
                gw
            } else {
                gw - 1
            };
            assert(s2.groups[gw2] == s1.groups[gw]);
            assert(0 <= gw2 < s2.groups.len() && s2.groups[gw2].id == g && s2.groups[gw2].user_id
                == s2.vocab[i].user_id && s2.groups[gw2].vocab == true);
        }
    }
}

/// Deletes this owner's group with the title and kind named by the payload.
/// Every entry still linked to the group has its group reference cleared
/// first, so no entry is left pointing at a group that is gone; then the
/// group itself is removed. `INVALID_USER` when the owner is gone,
/// `INVALID_FORMAT` when the payload misses a field, `INVALID_GROUP` when
/// no such group exists; then nothing changes.
pub fn delete_group(store: &mut Store, user: &crate::models::User, payload: &str) -> (r: Result<
    (),
    ServerError,
>)
    requires
        old(store)@.wf(),
    ensures
        final(store)@.wf(),
        !has_user_id(old(store)@, user@.id) ==> r == Err::<(), ServerError>(
            ServerError::InvalidUser,
        ) && final(store)@ == old(store)@,
        has_user_id(old(store)@, user@.id) ==> match (json_str_of(payload@, "group_title"@),
        json_bool_of(payload@, "group_vocab"@)) {
            (Some(title), Some(kind)) => match r {
                Ok(()) => exists|gi: int|
                    0 <= gi < old(store)@.groups.len() && old(store)@.groups[gi].user_id
                        == user@.id && old(store)@.groups[gi].title == title
                        && old(store)@.groups[gi].vocab == kind && final(store)@ == (StoreV {
                        groups: old(store)@.groups.remove(gi),
                        kanji: if kind {
                            old(store)@.kanji
                        } else {
                            kanji_ungrouped(old(store)@.kanji, old(store)@.groups[gi].id)
                        },
                        vocab: if kind {
                            vocab_ungrouped(old(store)@.vocab, old(store)@.groups[gi].id)
                        } else {
                            old(store)@.vocab
                        },
                        ..old(store)@
                    }),
                Err(e) => e == ServerError::InvalidGroup && !has_group(
                    old(store)@,
                    user@.id,
                    title,
                    kind,
                ) && final(store)@ == old(store)@,
            },
            _ => r == Err::<(), ServerError>(ServerError::InvalidFormat) && final(store)@ == old(
                store,
            )@,
        },
{
    if store.find_user_by_id(user.id).is_none() {
        return Err(ServerError::InvalidUser);
    }
    let title = match json_str_field(payload, "group_title") {
        Some(s) => s,
        None => {
            return Err(ServerError::InvalidFormat);
        },
    };
    let kind = match json_bool_field(payload, "group_vocab") {
        Some(b) => b,
        None => {
            return Err(ServerError::InvalidFormat);
        },
    };
    let gi = match store.find_group(user.id, title.as_str(), kind) {
        Some(gi) => gi,
        None => {
            return Err(ServerError::InvalidGroup);
        },
    };
    let gid = store.groups[gi].id;
    let ghost s1 = store@;
    if kind {
        let mut j: usize = 0;
        while j < store.vocab.len()
            invariant
                store@.users == s1.users,
                store@.kanji == s1.kanji,
                store@.groups == s1.groups,
                store@.next_id == s1.next_id,
                store@.vocab.len() == s1.vocab.len(),
                0 <= j <= s1.vocab.len(),
                forall|q: int|
                    0 <= q < j ==> #[trigger] store@.vocab[q] == (if s1.vocab[q].group_id == Some(
                        gid as int,
                    ) {
                        VocabV { group_id: None, ..s1.vocab[q] }
                    } else {
                        s1.vocab[q]
                    }),
                forall|q: int| j <= q < s1.vocab.len() ==> #[trigger] store@.vocab[q] == s1.vocab[q],
            decreases s1.vocab.len() - j,
        {
            let is_member = match store.vocab[j].group_id {
                Some(g) => g == gid,
                None => false,
            };
            if is_member {
                let ghost prevec = store.vocab@;
                let ghost pre = store@.vocab;
                proof {
                    assert(store@.vocab[j as int] == s1.vocab[j as int]);
                    assert(store@.vocab[j as int] == store.vocab@[j as int].deep_view());
                }
                store.vocab[j].group_id = None;
                proof {
                    assert(store.vocab@ =~= prevec.update(j as int, store.vocab@[j as int]));
                    assert forall|q: int| 0 <= q < s1.vocab.len() && q != j
                        implies #[trigger] store@.vocab[q] == pre[q] by {
                        assert(store.vocab@[q] == prevec[q]);
                    }
                    assert(s1.vocab[j as int] == prevec[j as int].deep_view());
                    assert(store@.vocab[j as int] == store.vocab@[j as int].deep_view());
                    assert(store@.vocab[j as int] =~~= (VocabV {
                        group_id: None,
                        ..s1.vocab[j as int]
                    }));
                }
            }
            j += 1;
        }
        proof {
            assert(store@.vocab =~~= vocab_ungrouped(s1.vocab, gid as int));
        }
    } else {
        let mut j: usize = 0;
        while j < store.kanji.len()
            invariant
                store@.users == s1.users,
                store@.vocab == s1.vocab,
                store@.groups == s1.groups,
                store@.next_id == s1.next_id,
                store@.kanji.len() == s1.kanji.len(),
                0 <= j <= s1.kanji.len(),
                forall|q: int|
                    0 <= q < j ==> #[trigger] store@.kanji[q] == (if s1.kanji[q].group_id == Some(
                        gid as int,
                    ) {
                        KanjiV { group_id: None, ..s1.kanji[q] }
                    } else {
                        s1.kanji[q]
                    }),
                forall|q: int| j <= q < s1.kanji.len() ==> #[trigger] store@.kanji[q] == s1.kanji[q],
            decreases s1.kanji.len() - j,
        {
            let is_member = match store.kanji[j].group_id {
                Some(g) => g == gid,
                None => false,
            };
            if is_member {
                let ghost prevec = store.kanji@;
                let ghost pre = store@.kanji;
                proof {
                    assert(store@.kanji[j as int] == s1.kanji[j as int]);
                    assert(store@.kanji[j as int] == store.kanji@[j as int].deep_view());
                }
                store.kanji[j].group_id = None;
                proof {
                    assert(store.kanji@ =~= prevec.update(j as int, store.kanji@[j as int]));
                    assert forall|q: int| 0 <= q < s1.kanji.len() && q != j
                        implies #[trigger] store@.kanji[q] == pre[q] by {
                        assert(store.kanji@[q] == prevec[q]);
                    }
                    assert(s1.kanji[j as int] == prevec[j as int].deep_view());
                    assert(store@.kanji[j as int] == store.kanji@[j as int].deep_view());
                    assert(store@.kanji[j as int] =~~= (KanjiV {
                        group_id: None,
                        ..s1.kanji[j as int]
                    }));
                }
            }
            j += 1;
        }
        proof {
            assert(store@.kanji =~~= kanji_ungrouped(s1.kanji, gid as int));
        }
    }
    let ghost prevec = store.groups@;
    let ghost pre = store@.groups;
    let _removed = store.groups.remove(gi);
    proof {
        assert forall|q: int| 0 <= q < store@.groups.len() implies #[trigger] store@.groups[q]
            == pre.remove(gi as int)[q] by {
            if q < gi {
                assert(store.groups@[q] == prevec[q]);
            } else {
                assert(store.groups@[q] == prevec[q + 1]);
            }
        }
        assert(store@.groups =~= s1.groups.remove(gi as int));
        assert(store@ =~~= (StoreV {
            groups: s1.groups.remove(gi as int),
            kanji: if kind {
                s1.kanji
            } else {
                kanji_ungrouped(s1.kanji, gid as int)
            },
            vocab: if kind {
                vocab_ungrouped(s1.vocab, gid as int)
            } else {
                s1.vocab
            },
            ..s1
        }));
        lemma_delete_group_wf(s1, store@, gi as int, kind);
    }
    Ok(())
}

/// Every member of the removal list is a string.
pub open spec fn all_strings(ms: Seq<Option<Seq<char>>>) -> bool {
    forall|i: int| 0 <= i < ms.len() ==> ms[i] is Some
}

/// The character entries with this owner's entry under this symbol taken
/// out of its group.
pub open spec fn kanji_unlinked_by_symbol(ks: Seq<KanjiV>, uid: int, sym: Seq<char>) -> Seq<
    KanjiV,
> {
    ks.map_values(
        |k: KanjiV| if k.user_id == uid && k.symbol == sym {
            KanjiV { group_id: None, ..k }
        } else {
            k
        },
    )
}

/// The character entries after unlinking each listed symbol in turn.
pub open spec fn kanji_unlinked_all(ks: Seq<KanjiV>, uid: int, ms: Seq<Option<Seq<char>>>) -> Seq<
    KanjiV,
>
    decreases ms.len(),
{
    if ms.len() == 0 {
        ks
    } else {
        let prev = kanji_unlinked_all(ks, uid, ms.drop_last());
        match ms.last() {
            Some(sym) => kanji_unlinked_by_symbol(prev, uid, sym),
            None => prev,
        }
    }
}

proof fn lemma_unlinked_all_shape(ks: Seq<KanjiV>, uid: int, ms: Seq<Option<Seq<char>>>)
    ensures
        kanji_unlinked_all(ks, uid, ms).len() == ks.len(),
        forall|i: int|
            0 <= i < ks.len() ==> #[trigger] kanji_unlinked_all(ks, uid, ms)[i].id == ks[i].id
                && kanji_unlinked_all(ks, uid, ms)[i].user_id == ks[i].user_id
                && kanji_unlinked_all(ks, uid, ms)[i].symbol == ks[i].symbol && (
            kanji_unlinked_all(ks, uid, ms)[i].group_id == ks[i].group_id || kanji_unlinked_all(
                ks,
                uid,
                ms,
            )[i].group_id is None),
    decreases ms.len(),
{
    if ms.len() > 0 {
        lemma_unlinked_all_shape(ks, uid, ms.drop_last());
    }
}

proof fn lemma_kanji_refs_weakened_wf(s1: StoreV, s2: StoreV)
    requires
        s1.wf(),
        s2.users == s1.users,
        s2.vocab == s1.vocab,
        s2.groups == s1.groups,
        s2.next_id == s1.next_id,
        s2.kanji.len() == s1.kanji.len(),
        forall|i: int|
            0 <= i < s1.kanji.len() ==> #[trigger] s2.kanji[i].id == s1.kanji[i].id
                && s2.kanji[i].user_id == s1.kanji[i].user_id && s2.kanji[i].symbol
                == s1.kanji[i].symbol && (s2.kanji[i].group_id == s1.kanji[i].group_id
                || s2.kanji[i].group_id is None),
    ensures
        s2.wf(),
{
    assert forall|i: int| 0 <= i < s2.kanji.len() implies has_user_id(
        s2,
        #[trigger] s2.kanji[i].user_id,
    ) && group_ref_ok(s2, s2.kanji[i].group_id, s2.kanji[i].user_id, false) by {
        assert(s2.kanji[i].id == s1.kanji[i].id);
        assert(has_user_id(s1, s1.kanji[i].user_id));
        let w = choose|q: int| 0 <= q < s1.users.len() && s1.users[q].id == s1.kanji[i].user_id;
        assert(s2.users[w].id == s2.kanji[i].user_id);
        if s2.kanji[i].group_id is Some {
            assert(s2.kanji[i].group_id == s1.kanji[i].group_id);
            assert(group_ref_ok(s1, s1.kanji[i].group_id, s1.kanji[i].user_id, false));
            let g = s1.kanji[i].group_id->0;
            let gw = choose|q: int|
                0 <= q < s1.groups.len() && s1.groups[q].id == g && s1.groups[q].user_id
                    == s1.kanji[i].user_id && s1.groups[q].vocab == false;
            assert(0 <= gw < s2.groups.len() && s2.groups[gw].id == g && s2.groups[gw].user_id
                == s2.kanji[i].user_id && s2.groups[gw].vocab == false);
        }
    }
    assert forall|i: int| 0 <= i < s2.vocab.len() implies has_user_id(
        s2,
        #[trigger] s2.vocab[i].user_id,
    ) && group_ref_ok(s2, s2.vocab[i].group_id, s2.vocab[i].user_id, true) by {
        assert(has_user_id(s1, s1.vocab[i].user_id));
        let w = choose|q: int| 0 <= q < s1.users.len() && s1.users[q].id == s1.vocab[i].user_id;
        assert(s2.users[w].id == s2.vocab[i].user_id);
        assert(group_ref_ok(s1, s1.vocab[i].group_id, s1.vocab[i].user_id, true));
        if s1.vocab[i].group_id is Some {
            let g = s1.vocab[i].group_id->0;
            let gw = choose|q: int|
                0 <= q < s1.groups.len() && s1.groups[q].id == g && s1.groups[q].user_id
                    == s1.vocab[i].user_id && s1.groups[q].vocab == true;
            assert(0 <= gw < s2.groups.len() && s2.groups[gw].id == g && s2.groups[gw].user_id
                == s2.vocab[i].user_id && s2.groups[gw].vocab == true);
        }
    }
    assert forall|i: int| 0 <= i < s2.groups.len() implies has_user_id(
        s2,
        #[trigger] s2.groups[i].user_id,
    ) by {
        assert(has_user_id(s1, s1.groups[i].user_id));
        let w = choose|q: int| 0 <= q < s1.users.len() && s1.users[q].id == s1.groups[i].user_id;
        assert(s2.users[w].id == s2.groups[i].user_id);
    }
}

/// The group-edit operation, kept exactly as the storage layer has it: it
/// validates the new colour, requires that no character group already
/// carry the new title, and — only when the edited group is indeed absent —
/// takes each listed member out of its group; it then reports
/// `INVALID_FORMAT` in every case, so no caller ever sees it succeed.
#[verifier::loop_isolation(false)]
pub fn edit_kanji_group(store: &mut Store, user: &crate::models::User, payload: &str) -> (r:
    Result<(), ServerError>)
    requires
        old(store)@.wf(),
    ensures
        final(store)@.wf(),
        r is Err,
        !has_user_id(old(store)@, user@.id) ==> r == Err::<(), ServerError>(
            ServerError::InvalidUser,
        ) && final(store)@ == old(store)@,
        has_user_id(old(store)@, user@.id) ==> match (json_str_of(payload@, "group_title"@),
        json_str_of(payload@, "group_colour"@), json_strs_of(payload@, "members_removed"@)) {
            (Some(title), Some(colour), Some(members)) => if !spec_valid_colour(colour) {
                r == Err::<(), ServerError>(ServerError::InvalidHexcode) && final(store)@ == old(
                    store,
                )@
            } else if has_group(old(store)@, user@.id, title, false) {
                r == Err::<(), ServerError>(ServerError::GroupExists) && final(store)@ == old(
                    store,
                )@
            } else {
                r == Err::<(), ServerError>(ServerError::InvalidFormat) && final(store)@ == (
                if all_strings(members) {
                    StoreV {
                        kanji: kanji_unlinked_all(old(store)@.kanji, user@.id, members),
                        ..old(store)@
                    }
                } else {
                    old(store)@
                })
            },
            _ => r == Err::<(), ServerError>(ServerError::InvalidFormat) && final(store)@ == old(
                store,
            )@,
        },
{
    let uidx = match store.find_user_by_id(user.id) {
        Some(i) => i,
        None => {
            return Err(ServerError::InvalidUser);
        },
    };
    proof {
        assert(store@.users[uidx as int].id == user@.id);
        assert(has_user_id(store@, user@.id));
    }
    let uid = user.id;
    let title = match json_str_field(payload, "group_title") {
        Some(s) => s,
        None => {
            return Err(ServerError::InvalidFormat);
        },
    };
    let colour = match json_str_field(payload, "group_colour") {
        Some(s) => s,
        None => {
            return Err(ServerError::InvalidFormat);
        },
    };
    let members = match json_str_array_field(payload, "members_removed") {
        Some(m) => m,
        None => {
            return Err(ServerError::InvalidFormat);
        },
    };
    if !is_valid_colour(colour.as_str()) {
        return Err(ServerError::InvalidHexcode);
    }
    match store.find_group(uid, title.as_str(), false) {
        Some(gi) => {
            proof {
                assert(store@.groups[gi as int].user_id == uid as int && store@.groups[
                    gi as int
                ].title == title@ && store@.groups[gi as int].vocab == false);
                assert(has_group(store@, uid as int, title@, false));
            }
            return Err(ServerError::GroupExists);
        },
        None => {},
    }
    let ghost mdeep = members.deep_view();
    let ghost s0 = store@;
    proof {
        assert(s0 == old(store)@);
        assert(json_strs_of(payload@, "members_removed"@) == Some(mdeep));
    }
    let mut i: usize = 0;
    while i < members.len()
        invariant
            store@ == s0,
            s0 == old(store)@,
            s0.wf(),
            mdeep == members.deep_view(),
            json_strs_of(payload@, "members_removed"@) == Some(mdeep),
            0 <= i <= mdeep.len(),
            forall|j: int| 0 <= j < i ==> mdeep[j] is Some,
        decreases mdeep.len() - i,
    {
        proof {
            assert(mdeep[i as int] == members@[i as int].deep_view());
        }
        match &members[i] {
            Some(_) => {},
            None => {
                proof {
                    assert(mdeep[i as int] is None);
                    assert(!all_strings(mdeep));
                    assert(json_strs_of(payload@, "members_removed"@) == Some(mdeep));
                }
                return Err(ServerError::InvalidFormat);
            },
        }
        i += 1;
    }
    assert(all_strings(mdeep));
    let ghost s1 = store@;
    proof {
        assert(kanji_unlinked_all(s1.kanji, uid as int, mdeep.take(0)) == s1.kanji);
    }
    let mut p: usize = 0;
    while p < members.len()
        invariant
            store@.users == s1.users,
            store@.vocab == s1.vocab,
            store@.groups == s1.groups,
            store@.next_id == s1.next_id,
            mdeep == members.deep_view(),
            all_strings(mdeep),
            0 <= p <= mdeep.len(),
            store@.kanji == kanji_unlinked_all(s1.kanji, uid as int, mdeep.take(p as int)),
        decreases mdeep.len() - p,
    {
        proof {
            assert(mdeep.take(p + 1).drop_last() =~= mdeep.take(p as int));
            assert(mdeep.take(p + 1).last() == mdeep[p as int]);
            assert(mdeep[p as int] == members@[p as int].deep_view());
        }
        let ghost start = store@.kanji;
        match &members[p] {
            Some(m) => {
                let ghost sym = m@;
                proof {
                    assert(mdeep[p as int] == Some(sym));
                }
                let mut j: usize = 0;
                while j < store.kanji.len()
                    invariant
                        store@.users == s1.users,
                        store@.vocab == s1.vocab,
                        store@.groups == s1.groups,
                        store@.next_id == s1.next_id,
                        store@.kanji.len() == start.len(),
                        0 <= j <= start.len(),
                        forall|q: int|
                            0 <= q < j ==> #[trigger] store@.kanji[q] == (if start[q].user_id
                                == uid as int && start[q].symbol == sym {
                                KanjiV { group_id: None, ..start[q] }
                            } else {
                                start[q]
                            }),
                        forall|q: int|
                            j <= q < start.len() ==> #[trigger] store@.kanji[q] == start[q],
                        sym == m@,
                    decreases start.len() - j,
                {
                    let is_target = store.kanji[j].user_id == uid && crate::text::str_eq(
                        store.kanji[j].symbol.as_str(),
                        m.as_str(),
                    );
                    if is_target {
                        let ghost prevec = store.kanji@;
                        let ghost pre = store@.kanji;
                        proof {
                            assert(store@.kanji[j as int] == start[j as int]);
                            assert(store@.kanji[j as int] == store.kanji@[
                                j as int
                            ].deep_view());
                        }
                        store.kanji[j].group_id = None;
                        proof {
                            assert(store.kanji@ =~= prevec.update(
                                j as int,
                                store.kanji@[j as int],
                            ));
                            assert forall|q: int| 0 <= q < start.len() && q != j
                                implies #[trigger] store@.kanji[q] == pre[q] by {
                                assert(store.kanji@[q] == prevec[q]);
                            }
                            assert(store@.kanji[j as int] =~~= (KanjiV {
                                group_id: None,
                                ..start[j as int]
                            }));
                            assert(start[j as int].user_id == uid as int && start[
                                j as int
                            ].symbol == sym);
                        }
                    } else {
                        proof {
                            assert(store@.kanji[j as int] == store.kanji@[
                                j as int
                            ].deep_view());
                            assert(store@.kanji[j as int] == start[j as int]);
                            assert(!(start[j as int].user_id == uid as int && start[
                                j as int
                            ].symbol == sym));
                        }
                    }
                    j += 1;
                }
                proof {
                    assert(store@.kanji =~~= kanji_unlinked_by_symbol(start, uid as int, sym));
                    assert(store@.kanji =~~= kanji_unlinked_all(
                        s1.kanji,
                        uid as int,
                        mdeep.take(p + 1),
                    ));
                }
            },
            None => {
                proof {
                    assert(mdeep[p as int] is Some);
                    assert(false);
                }
            },
        }
        p += 1;
    }
    proof {
        assert(mdeep.take(mdeep.len() as int) =~= mdeep);
        let s2 = store@;
        lemma_unlinked_all_shape(s1.kanji, uid as int, mdeep);
        assert(store@ =~~= (StoreV {
            kanji: kanji_unlinked_all(s1.kanji, uid as int, mdeep),
            ..s1
        }));
        lemma_kanji_refs_weakened_wf(s1, store@);
    }
    Err(ServerError::InvalidFormat)
}

proof fn lemma_delete_user_wf(s1: StoreV, s2: StoreV, uid: int)
    requires
        s1.wf(),
        s2 == (StoreV {
            users: users_without(s1.users, uid),
            kanji: kanji_without_owner(s1.kanji, uid),
            vocab: vocab_without_owner(s1.vocab, uid),
            groups: groups_without_owner(s1.groups, uid),
            next_id: s1.next_id,
        }),
    ensures
        s2.wf(),
{
    let ukeep = |u: UserV| u.id != uid;
    let kkeep = |k: KanjiV| k.user_id != uid;
    let vkeep = |v: VocabV| v.user_id != uid;
    let gkeep = |g: GroupV| g.user_id != uid;
    lemma_kept_facts(s1.users, ukeep);
    lemma_kept_facts(s1.kanji, kkeep);
    lemma_kept_facts(s1.vocab, vkeep);
    lemma_kept_facts(s1.groups, gkeep);
    assert forall|i1: int, i2: int| 0 <= i1 < i2 < s2.users.len() implies s2.users[i1].id
        != s2.users[i2].id && s2.users[i1].username != s2.users[i2].username by {
        let (j1, j2) = choose|j1: int, j2: int|
            0 <= j1 < j2 < s1.users.len() && s1.users[j1] == s2.users[i1] && s1.users[j2]
                == s2.users[i2];
    }
    assert forall|i: int| 0 <= i < s2.users.len() implies 0 <= #[trigger] s2.users[i].id
        < s2.next_id by {
        let j = choose|j: int| 0 <= j < s1.users.len() && s1.users[j] == s2.users[i];
    }
    assert forall|i1: int, i2: int| 0 <= i1 < i2 < s2.kanji.len() implies s2.kanji[i1].id
        != s2.kanji[i2].id && !(s2.kanji[i1].user_id == s2.kanji[i2].user_id && s2.kanji[i1].symbol
        == s2.kanji[i2].symbol) by {
        let (j1, j2) = choose|j1: int, j2: int|
            0 <= j1 < j2 < s1.kanji.len() && s1.kanji[j1] == s2.kanji[i1] && s1.kanji[j2]
                == s2.kanji[i2];
    }
    assert forall|i: int| 0 <= i < s2.kanji.len() implies 0 <= #[trigger] s2.kanji[i].id
        < s2.next_id && has_user_id(s2, s2.kanji[i].user_id) && group_ref_ok(
        s2,
        s2.kanji[i].group_id,
        s2.kanji[i].user_id,
        false,
    ) by {
        let j = choose|j: int| 0 <= j < s1.kanji.len() && s1.kanji[j] == s2.kanji[i];
        assert(kkeep(s2.kanji[i]));
        assert(has_user_id(s1, s1.kanji[j].user_id));
        let w = choose|w: int|
            0 <= w < s1.users.len() && s1.users[w].id == s1.kanji[j].user_id;
        assert(ukeep(s1.users[w]));
        assert(s2.users.contains(s1.users[w]));
        let w2 = choose|w2: int| 0 <= w2 < s2.users.len() && s2.users[w2] == s1.users[w];
        assert(s2.users[w2].id == s2.kanji[i].user_id);
        assert(group_ref_ok(s1, s1.kanji[j].group_id, s1.kanji[j].user_id, false));
        if s1.kanji[j].group_id is Some {
            let g = s1.kanji[j].group_id->0;
            let gw = choose|gw: int|
                0 <= gw < s1.groups.len() && s1.groups[gw].id == g && s1.groups[gw].user_id
                    == s1.kanji[j].user_id && s1.groups[gw].vocab == false;
            assert(gkeep(s1.groups[gw]));
            assert(s2.groups.contains(s1.groups[gw]));
            let gw2 = choose|gw2: int| 0 <= gw2 < s2.groups.len() && s2.groups[gw2] == s1.groups[gw];
            assert(0 <= gw2 < s2.groups.len() && s2.groups[gw2].id == g && s2.groups[gw2].user_id
                == s2.kanji[i].user_id && s2.groups[gw2].vocab == false);
        }
    }
    assert forall|i1: int, i2: int| 0 <= i1 < i2 < s2.vocab.len() implies s2.vocab[i1].id
        != s2.vocab[i2].id && !(s2.vocab[i1].user_id == s2.vocab[i2].user_id && s2.vocab[i1].phrase
        == s2.vocab[i2].phrase) by {
        let (j1, j2) = choose|j1: int, j2: int|
            0 <= j1 < j2 < s1.vocab.len() && s1.vocab[j1] == s2.vocab[i1] && s1.vocab[j2]
                == s2.vocab[i2];
    }
    assert forall|i: int| 0 <= i < s2.vocab.len() implies 0 <= #[trigger] s2.vocab[i].id
        < s2.next_id && has_user_id(s2, s2.vocab[i].user_id) && group_ref_ok(
        s2,
        s2.vocab[i].group_id,
        s2.vocab[i].user_id,
        true,
    ) by {
        let j = choose|j: int| 0 <= j < s1.vocab.len() && s1.vocab[j] == s2.vocab[i];
        assert(vkeep(s2.vocab[i]));
        assert(has_user_id(s1, s1.vocab[j].user_id));
        let w = choose|w: int|
            0 <= w < s1.users.len() && s1.users[w].id == s1.vocab[j].user_id;
        assert(ukeep(s1.users[w]));
        assert(s2.users.contains(s1.users[w]));
        let w2 = choose|w2: int| 0 <= w2 < s2.users.len() && s2.users[w2] == s1.users[w];
        assert(s2.users[w2].id == s2.vocab[i].user_id);
        assert(group_ref_ok(s1, s1.vocab[j].group_id, s1.vocab[j].user_id, true));
        if s1.vocab[j].group_id is Some {
            let g = s1.vocab[j].group_id->0;
            let gw = choose|gw: int|
                0 <= gw < s1.groups.len() && s1.groups[gw].id == g && s1.groups[gw].user_id
                    == s1.vocab[j].user_id && s1.groups[gw].vocab == true;
            assert(gkeep(s1.groups[gw]));
            assert(s2.groups.contains(s1.groups[gw]));
            let gw2 = choose|gw2: int| 0 <= gw2 < s2.groups.len() && s2.groups[gw2] == s1.groups[gw];
            assert(0 <= gw2 < s2.groups.len() && s2.groups[gw2].id == g && s2.groups[gw2].user_id
                == s2.vocab[i].user_id && s2.groups[gw2].vocab == true);
        }
    }
    assert forall|i1: int, i2: int| 0 <= i1 < i2 < s2.groups.len() implies s2.groups[i1].id
        != s2.groups[i2].id && !(s2.groups[i1].user_id == s2.groups[i2].user_id
        && s2.groups[i1].title == s2.groups[i2].title && s2.groups[i1].vocab
        == s2.groups[i2].vocab) by {
        let (j1, j2) = choose|j1: int, j2: int|
            0 <= j1 < j2 < s1.groups.len() && s1.groups[j1] == s2.groups[i1] && s1.groups[j2]
                == s2.groups[i2];
    }
    assert forall|i: int| 0 <= i < s2.groups.len() implies 0 <= #[trigger] s2.groups[i].id
        < s2.next_id && has_user_id(s2, s2.groups[i].user_id) by {
        let j = choose|j: int| 0 <= j < s1.groups.len() && s1.groups[j] == s2.groups[i];
        assert(gkeep(s2.groups[i]));
        assert(has_user_id(s1, s1.groups[j].user_id));
        let w = choose|w: int|
            0 <= w < s1.users.len() && s1.users[w].id == s1.groups[j].user_id;
        assert(ukeep(s1.users[w]));
        assert(s2.users.contains(s1.users[w]));
        let w2 = choose|w2: int| 0 <= w2 < s2.users.len() && s2.users[w2] == s1.users[w];
        assert(s2.users[w2].id == s2.groups[i].user_id);
    }
}

} // verus!
