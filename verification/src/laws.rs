//! The laws of the store: properties that relate several operations, stated
//! over the same views and spec functions as the operations' own contracts,
//! and proved once for all inputs.

use vstd::prelude::*;

use crate::commands::{
    link_kanji, link_vocab, matched_phrase_refs, matched_symbol_refs, occurrences,
    phrase_ref_times, seq_has_symbol,
};
use crate::models::{KanjiV, NewKanjiV, NewUserV, NewVocabV, UserV, VocabV};
use crate::store::{StoreV, has_user};
use crate::text::contains_seq;

verus! {

/// Registering a valid account and then validating against it behaves as
/// the credential flow promises: with the key that was stored, validation
/// finds a user whose stored key matches — the condition under which
/// `validate_key` succeeds, and under which the dispatcher binds a not yet
/// authenticated session — and with any other key every user under that
/// username mismatches, the condition under which `validate_key` answers
/// `INVALID_PASSWORD`.
pub proof fn lemma_register_then_validate(
    s0: StoreV,
    s1: StoreV,
    nu: NewUserV,
    submitted: Seq<u8>,
)
    requires
        s0.wf(),
        s0.next_id < i32::MAX,
        !has_user(s0, nu.username),
        s1 == (StoreV {
            users: s0.users.push(
                UserV {
                    id: s0.next_id,
                    username: nu.username,
                    hash: nu.hash,
                    salt: nu.salt,
                },
            ),
            next_id: s0.next_id + 1,
            ..s0
        }),
    ensures
        submitted == nu.hash ==> exists|i: int|
            0 <= i < s1.users.len() && s1.users[i].username == nu.username && s1.users[i].hash
                == submitted,
        submitted != nu.hash ==> has_user(s1, nu.username) && forall|i: int|
            0 <= i < s1.users.len() && s1.users[i].username == nu.username
                ==> #[trigger] s1.users[i].hash != submitted,
{
    let w = s0.users.len() as int;
    assert(s1.users[w].username == nu.username && s1.users[w].hash == nu.hash);
    if submitted != nu.hash {
        assert forall|i: int|
            0 <= i < s1.users.len() && s1.users[i].username == nu.username
                implies #[trigger] s1.users[i].hash != submitted by {
            if i < w {
                assert(s1.users[i] == s0.users[i]);
                assert(has_user(s0, nu.username));
            }
        }
    }
}

/// Registration rejects a repeat: once a record with this username stands
/// in the store, the username is taken, so a second registration under it
/// answers `USER_EXISTS` and — by the registration contract — leaves every
/// record unchanged.
pub proof fn lemma_register_twice(s0: StoreV, s1: StoreV, nu: NewUserV)
    requires
        !has_user(s0, nu.username),
        s1 == (StoreV {
            users: s0.users.push(
                UserV {
                    id: s0.next_id,
                    username: nu.username,
                    hash: nu.hash,
                    salt: nu.salt,
                },
            ),
            next_id: s0.next_id + 1,
            ..s0
        }),
    ensures
        has_user(s1, nu.username),
{
    let w = s0.users.len() as int;
    assert(s1.users[w].username == nu.username);
}

proof fn lemma_matched_phrase_refs_contains(vs: Seq<VocabV>, uid: int, sym: Seq<char>, vi: int)
    requires
        0 <= vi < vs.len(),
        vs[vi].user_id == uid,
        contains_seq(vs[vi].phrase, sym),
    ensures
        matched_phrase_refs(vs, uid, sym).contains(Some(vs[vi].phrase)),
    decreases vs.len(),
{
    if vi == vs.len() - 1 {
        let prefix = matched_phrase_refs(vs.drop_last(), uid, sym);
        assert(matched_phrase_refs(vs, uid, sym)[prefix.len() as int] == Some(vs[vi].phrase));
    } else {
        lemma_matched_phrase_refs_contains(vs.drop_last(), uid, sym, vi);
        let whole = matched_phrase_refs(vs, uid, sym);
        let prefix = matched_phrase_refs(vs.drop_last(), uid, sym);
        let w = choose|j: int| 0 <= j < prefix.len() && prefix[j] == Some(vs[vi].phrase);
        assert(vs.drop_last()[vi] == vs[vi]);
        assert(whole[w] == Some(vs[vi].phrase));
    }
}

proof fn lemma_matched_symbol_refs_contains(ks: Seq<KanjiV>, uid: int, chars: Seq<char>, c: char)
    requires
        seq_has_symbol(ks, uid, seq![c]),
        occurrences(chars, c) > 0,
    ensures
        matched_symbol_refs(ks, uid, chars).contains(Some(seq![c])),
    decreases chars.len(),
{
    if chars.len() > 0 {
        if chars.last() == c {
            let prefix = matched_symbol_refs(ks, uid, chars.drop_last());
            assert(matched_symbol_refs(ks, uid, chars)[prefix.len() as int] == Some(seq![c]));
        } else {
            lemma_matched_symbol_refs_contains(ks, uid, chars.drop_last(), c);
            let prefix = matched_symbol_refs(ks, uid, chars.drop_last());
            let w = choose|j: int| 0 <= j < prefix.len() && prefix[j] == Some(seq![c]);
            assert(matched_symbol_refs(ks, uid, chars)[w] == Some(seq![c]));
        }
    }
}

/// The two-sided link, character first: when the owner already has a
/// character entry and then creates a phrase entry whose phrase contains
/// that entry's (single-character) symbol, the store that the creation
/// contract describes links both ways — the character entry's phrase
/// references now contain the new phrase, and the new phrase entry's
/// symbol references contain the symbol.
pub proof fn lemma_bidirectional_link_vocab_created(
    s: StoreV,
    s2: StoreV,
    uid: int,
    ki: int,
    nv: NewVocabV,
)
    requires
        s.wf(),
        0 <= ki < s.kanji.len(),
        s.kanji[ki].user_id == uid,
        s.kanji[ki].symbol.len() == 1,
        occurrences(nv.phrase, s.kanji[ki].symbol[0]) > 0,
        s2 == (StoreV {
            kanji: s.kanji.map_values(|k: KanjiV| link_kanji(k, uid, nv.phrase)),
            vocab: s.vocab.push(
                VocabV {
                    id: s.next_id,
                    phrase: nv.phrase,
                    meaning: nv.meaning,
                    reading: nv.reading,
                    description: nv.description,
                    kanji_refs: nv.kanji_refs + matched_symbol_refs(s.kanji, uid, nv.phrase),
                    user_id: uid,
                    group_id: None,
                },
            ),
            next_id: s.next_id + 1,
            ..s
        }),
    ensures
        s2.kanji[ki].vocab_refs.contains(Some(nv.phrase)),
        s2.vocab.last().kanji_refs.contains(Some(s.kanji[ki].symbol)),
{
    let c = s.kanji[ki].symbol[0];
    assert(s.kanji[ki].symbol =~= seq![c]);
    // The character entry gained one reference per occurrence, and there is
    // at least one.
    assert(s2.kanji[ki] == link_kanji(s.kanji[ki], uid, nv.phrase));
    let n = occurrences(nv.phrase, c);
    let base = s.kanji[ki].vocab_refs;
    assert(s2.kanji[ki].vocab_refs == base + phrase_ref_times(nv.phrase, n));
    assert(s2.kanji[ki].vocab_refs[base.len() as int] == Some(nv.phrase));
    // The new phrase entry picked up the symbol at some matched position.
    assert(seq_has_symbol(s.kanji, uid, seq![c]));
    lemma_matched_symbol_refs_contains(s.kanji, uid, nv.phrase, c);
    let refs = matched_symbol_refs(s.kanji, uid, nv.phrase);
    let w = choose|j: int| 0 <= j < refs.len() && refs[j] == Some(seq![c]);
    assert(s2.vocab.last().kanji_refs[nv.kanji_refs.len() + w] == Some(seq![c]));
}

/// The two-sided link, phrase first: when the owner already has a phrase
/// entry whose phrase contains a symbol and then creates a character entry
/// under that symbol, the store that the creation contract describes links
/// both ways — the phrase entry's symbol references now contain the new
/// symbol, and the new character entry's phrase references contain the
/// phrase.
pub proof fn lemma_bidirectional_link_kanji_created(
    s: StoreV,
    s2: StoreV,
    uid: int,
    vi: int,
    nk: NewKanjiV,
)
    requires
        s.wf(),
        0 <= vi < s.vocab.len(),
        s.vocab[vi].user_id == uid,
        contains_seq(s.vocab[vi].phrase, nk.symbol),
        s2 == (StoreV {
            vocab: s.vocab.map_values(|v: VocabV| link_vocab(v, uid, nk.symbol)),
            kanji: s.kanji.push(
                KanjiV {
                    id: s.next_id,
                    symbol: nk.symbol,
                    meaning: nk.meaning,
                    onyomi: nk.onyomi,
                    kunyomi: nk.kunyomi,
                    description: nk.description,
                    vocab_refs: nk.vocab_refs + matched_phrase_refs(s.vocab, uid, nk.symbol),
                    user_id: uid,
                    group_id: None,
                },
            ),
            next_id: s.next_id + 1,
            ..s
        }),
    ensures
        s2.vocab[vi].kanji_refs.contains(Some(nk.symbol)),
        s2.kanji.last().vocab_refs.contains(Some(s.vocab[vi].phrase)),
{
    assert(s2.vocab[vi] == link_vocab(s.vocab[vi], uid, nk.symbol));
    let base = s.vocab[vi].kanji_refs;
    assert(s2.vocab[vi].kanji_refs[base.len() as int] == Some(nk.symbol));
    lemma_matched_phrase_refs_contains(s.vocab, uid, nk.symbol, vi);
    let refs = matched_phrase_refs(s.vocab, uid, nk.symbol);
    let w = choose|j: int| 0 <= j < refs.len() && refs[j] == Some(s.vocab[vi].phrase);
    assert(s2.kanji.last().vocab_refs[nk.vocab_refs.len() + w] == Some(s.vocab[vi].phrase));
}

/// Group kinds are exclusive: in a well-formed store, a character entry is
/// never a member of a phrase group — whatever group its reference names
/// has character kind and belongs to the entry's owner — and a phrase entry
/// is never a member of a character group.
pub proof fn lemma_group_kind_exclusive(s: StoreV, ki: int, gi: int)
    requires
        s.wf(),
        0 <= gi < s.groups.len(),
    ensures
        0 <= ki < s.kanji.len() && s.kanji[ki].group_id == Some(s.groups[gi].id)
            ==> s.groups[gi].vocab == false && s.groups[gi].user_id == s.kanji[ki].user_id,
        0 <= ki < s.vocab.len() && s.vocab[ki].group_id == Some(s.groups[gi].id)
            ==> s.groups[gi].vocab == true && s.groups[gi].user_id == s.vocab[ki].user_id,
{
    if 0 <= ki < s.kanji.len() && s.kanji[ki].group_id == Some(s.groups[gi].id) {
        assert(crate::store::group_ref_ok(s, s.kanji[ki].group_id, s.kanji[ki].user_id, false));
        let w = choose|q: int|
            0 <= q < s.groups.len() && s.groups[q].id == s.groups[gi].id && s.groups[q].user_id
                == s.kanji[ki].user_id && s.groups[q].vocab == false;
        if w < gi {
            assert(s.groups[w].id != s.groups[gi].id);
        } else if gi < w {
            assert(s.groups[gi].id != s.groups[w].id);
        }
    }
    if 0 <= ki < s.vocab.len() && s.vocab[ki].group_id == Some(s.groups[gi].id) {
        assert(crate::store::group_ref_ok(s, s.vocab[ki].group_id, s.vocab[ki].user_id, true));
        let w = choose|q: int|
            0 <= q < s.groups.len() && s.groups[q].id == s.groups[gi].id && s.groups[q].user_id
                == s.vocab[ki].user_id && s.groups[q].vocab == true;
        if w < gi {
            assert(s.groups[w].id != s.groups[gi].id);
        } else if gi < w {
            assert(s.groups[gi].id != s.groups[w].id);
        }
    }
}

} // verus!
