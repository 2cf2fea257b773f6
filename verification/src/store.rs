//! The record store: all users, character entries, phrase entries and
//! groups, with the uniqueness and referential invariants that hold at all
//! times, and the linear lookups the command handlers use.

use vstd::prelude::*;

use crate::models::{Group, GroupV, Kanji, KanjiV, User, UserV, Vocab, VocabV};
use crate::text::str_eq;

verus! {

/// The relational store, held in memory: one table per record type and the
/// next free record id.
pub struct Store {
    pub users: Vec<User>,
    pub kanji: Vec<Kanji>,
    pub vocab: Vec<Vocab>,
    pub groups: Vec<Group>,
    pub next_id: i32,
}

/// The view of a [`Store`].
#[verifier::ext_equal]
pub struct StoreV {
    pub users: Seq<UserV>,
    pub kanji: Seq<KanjiV>,
    pub vocab: Seq<VocabV>,
    pub groups: Seq<GroupV>,
    pub next_id: int,
}

impl View for Store {
    type V = StoreV;

    open spec fn view(&self) -> StoreV {
        StoreV {
            users: self.users.deep_view(),
            kanji: self.kanji.deep_view(),
            vocab: self.vocab.deep_view(),
            groups: self.groups.deep_view(),
            next_id: self.next_id as int,
        }
    }
}

/// Whether some user has this username.
pub open spec fn has_user(s: StoreV, name: Seq<char>) -> bool {
    exists|i: int| 0 <= i < s.users.len() && s.users[i].username == name
}

/// Whether some user has this id.
pub open spec fn has_user_id(s: StoreV, id: int) -> bool {
    exists|i: int| 0 <= i < s.users.len() && s.users[i].id == id
}

/// Whether this owner has a character entry with this symbol.
pub open spec fn has_kanji(s: StoreV, uid: int, sym: Seq<char>) -> bool {
    exists|i: int| 0 <= i < s.kanji.len() && s.kanji[i].user_id == uid && s.kanji[i].symbol == sym
}

/// Whether this owner has a phrase entry with this phrase.
pub open spec fn has_vocab(s: StoreV, uid: int, phrase: Seq<char>) -> bool {
    exists|i: int| 0 <= i < s.vocab.len() && s.vocab[i].user_id == uid && s.vocab[i].phrase
        == phrase
}

/// Whether this owner has a group with this title and kind.
pub open spec fn has_group(s: StoreV, uid: int, title: Seq<char>, vocab: bool) -> bool {
    exists|i: int|
        0 <= i < s.groups.len() && s.groups[i].user_id == uid && s.groups[i].title == title
            && s.groups[i].vocab == vocab
}

/// Whether a group reference of an entry resolves: absent, or naming a group
/// of the required kind that belongs to the same owner.
pub open spec fn group_ref_ok(s: StoreV, gid: Option<int>, uid: int, kind: bool) -> bool {
    match gid {
        None => true,
        Some(g) => exists|i: int|
            0 <= i < s.groups.len() && s.groups[i].id == g && s.groups[i].user_id == uid
                && s.groups[i].vocab == kind,
    }
}

impl StoreV {
    /// Usernames and user ids are unique, and every id lies below the next
    /// free one.
    pub open spec fn users_wf(self) -> bool {
        &&& forall|i: int, j: int|
            0 <= i < j < self.users.len() ==> self.users[i].id != self.users[j].id
                && self.users[i].username != self.users[j].username
        &&& forall|i: int|
            0 <= i < self.users.len() ==> 0 <= #[trigger] self.users[i].id < self.next_id
    }

    /// Character entries: ids unique, (owner, symbol) unique, the owner
    /// exists, and a group reference resolves to a character group of the
    /// same owner.
    pub open spec fn kanji_wf(self) -> bool {
        &&& forall|i: int, j: int|
            0 <= i < j < self.kanji.len() ==> self.kanji[i].id != self.kanji[j].id && !(
            self.kanji[i].user_id == self.kanji[j].user_id && self.kanji[i].symbol
                == self.kanji[j].symbol)
        &&& forall|i: int|
            0 <= i < self.kanji.len() ==> 0 <= #[trigger] self.kanji[i].id < self.next_id
        &&& forall|i: int|
            0 <= i < self.kanji.len() ==> has_user_id(self, #[trigger] self.kanji[i].user_id)
        &&& forall|i: int|
            0 <= i < self.kanji.len() ==> group_ref_ok(
                self,
                #[trigger] self.kanji[i].group_id,
                self.kanji[i].user_id,
                false,
            )
    }

    /// Phrase entries: ids unique, (owner, phrase) unique, the owner exists,
    /// and a group reference resolves to a phrase group of the same owner.
    pub open spec fn vocab_wf(self) -> bool {
        &&& forall|i: int, j: int|
            0 <= i < j < self.vocab.len() ==> self.vocab[i].id != self.vocab[j].id && !(
            self.vocab[i].user_id == self.vocab[j].user_id && self.vocab[i].phrase
                == self.vocab[j].phrase)
        &&& forall|i: int|
            0 <= i < self.vocab.len() ==> 0 <= #[trigger] self.vocab[i].id < self.next_id
        &&& forall|i: int|
            0 <= i < self.vocab.len() ==> has_user_id(self, #[trigger] self.vocab[i].user_id)
        &&& forall|i: int|
            0 <= i < self.vocab.len() ==> group_ref_ok(
                self,
                #[trigger] self.vocab[i].group_id,
                self.vocab[i].user_id,
                true,
            )
    }

    /// Groups: ids unique, (owner, title, kind) unique, and the owner
    /// exists.
    pub open spec fn groups_wf(self) -> bool {
        &&& forall|i: int, j: int|
            0 <= i < j < self.groups.len() ==> self.groups[i].id != self.groups[j].id && !(
            self.groups[i].user_id == self.groups[j].user_id && self.groups[i].title
                == self.groups[j].title && self.groups[i].vocab == self.groups[j].vocab)
        &&& forall|i: int|
            0 <= i < self.groups.len() ==> 0 <= #[trigger] self.groups[i].id < self.next_id
        &&& forall|i: int|
            0 <= i < self.groups.len() ==> has_user_id(self, #[trigger] self.groups[i].user_id)
    }

    /// The store's invariant: the uniqueness and referential conditions that
    /// every operation preserves.
    pub open spec fn wf(self) -> bool {
        &&& 1 <= self.next_id <= i32::MAX
        &&& self.users_wf()
        &&& self.kanji_wf()
        &&& self.vocab_wf()
        &&& self.groups_wf()
    }
}

impl Store {
    /// An empty store.
    pub fn new() -> (r: Store)
        ensures
            r@.wf(),
            r@.users == Seq::<UserV>::empty(),
            r@.kanji == Seq::<KanjiV>::empty(),
            r@.vocab == Seq::<VocabV>::empty(),
            r@.groups == Seq::<GroupV>::empty(),
            r@.next_id == 1,
    {
        let s = Store {
            users: Vec::new(),
            kanji: Vec::new(),
            vocab: Vec::new(),
            groups: Vec::new(),
            next_id: 1,
        };
        assert(s@.users =~= Seq::<UserV>::empty());
        assert(s@.kanji =~= Seq::<KanjiV>::empty());
        assert(s@.vocab =~= Seq::<VocabV>::empty());
        assert(s@.groups =~= Seq::<GroupV>::empty());
        s
    }

    /// The index of the user with this username, if any.
    pub fn find_user(&self, name: &str) -> (r: Option<usize>)
        ensures
            match r {
                Some(i) => i < self@.users.len() && self@.users[i as int].username == name@,
                None => !has_user(self@, name@),
            },
    {
        let mut i: usize = 0;
        while i < self.users.len()
            invariant
                0 <= i <= self@.users.len(),
                self@.users.len() == self.users@.len(),
                forall|j: int| 0 <= j < i ==> self@.users[j].username != name@,
            decreases self@.users.len() - i,
        {
            if str_eq(self.users[i].username.as_str(), name) {
                return Some(i);
            }
            i += 1;
        }
        None
    }

    /// The index of the user with this id, if any.
    pub fn find_user_by_id(&self, id: i32) -> (r: Option<usize>)
        ensures
            match r {
                Some(i) => i < self@.users.len() && self@.users[i as int].id == id as int,
                None => !has_user_id(self@, id as int),
            },
    {
        let mut i: usize = 0;
        while i < self.users.len()
            invariant
                0 <= i <= self@.users.len(),
                self@.users.len() == self.users@.len(),
                forall|j: int| 0 <= j < i ==> self@.users[j].id != id as int,
            decreases self@.users.len() - i,
        {
            if self.users[i].id == id {
                return Some(i);
            }
            i += 1;
        }
        None
    }

    /// The index of this owner's character entry with this symbol, if any.
    pub fn find_kanji(&self, uid: i32, symbol: &str) -> (r: Option<usize>)
        ensures
            match r {
                Some(i) => i < self@.kanji.len() && self@.kanji[i as int].user_id == uid as int
                    && self@.kanji[i as int].symbol == symbol@,
                None => !has_kanji(self@, uid as int, symbol@),
            },
    {
        let mut i: usize = 0;
        while i < self.kanji.len()
            invariant
                0 <= i <= self@.kanji.len(),
                self@.kanji.len() == self.kanji@.len(),
                forall|j: int|
                    0 <= j < i ==> !(self@.kanji[j].user_id == uid as int && self@.kanji[j].symbol
                        == symbol@),
            decreases self@.kanji.len() - i,
        {
            if self.kanji[i].user_id == uid && str_eq(self.kanji[i].symbol.as_str(), symbol) {
                return Some(i);
            }
            i += 1;
        }
        None
    }

    /// The index of this owner's character entry whose symbol is exactly the
    /// single character `c`, if any.
    pub fn find_kanji_by_char(&self, uid: i32, c: char) -> (r: Option<usize>)
        ensures
            match r {
                Some(i) => i < self@.kanji.len() && self@.kanji[i as int].user_id == uid as int
                    && self@.kanji[i as int].symbol == seq![c],
                None => !has_kanji(self@, uid as int, seq![c]),
            },
    {
        let mut i: usize = 0;
        while i < self.kanji.len()
            invariant
                0 <= i <= self@.kanji.len(),
                self@.kanji.len() == self.kanji@.len(),
                forall|j: int|
                    0 <= j < i ==> !(self@.kanji[j].user_id == uid as int && self@.kanji[j].symbol
                        =~= seq![c]),
            decreases self@.kanji.len() - i,
        {
            let sym: &str = self.kanji[i].symbol.as_str();
            if self.kanji[i].user_id == uid && sym.unicode_len() == 1 && sym.get_char(0) == c {
                assert(self@.kanji[i as int].symbol =~= seq![c]);
                return Some(i);
            }
            assert(!(self@.kanji[i as int].user_id == uid as int && self@.kanji[i as int].symbol
                =~= seq![c]));
            i += 1;
        }
        assert forall|j: int|
            0 <= j < self@.kanji.len() implies !(self@.kanji[j].user_id == uid as int
            && self@.kanji[j].symbol == seq![c]) by {
            assert(!(self@.kanji[j].user_id == uid as int && self@.kanji[j].symbol =~= seq![c]));
        }
        None
    }

    /// The index of this owner's phrase entry with this phrase, if any.
    pub fn find_vocab(&self, uid: i32, phrase: &str) -> (r: Option<usize>)
        ensures
            match r {
                Some(i) => i < self@.vocab.len() && self@.vocab[i as int].user_id == uid as int
                    && self@.vocab[i as int].phrase == phrase@,
                None => !has_vocab(self@, uid as int, phrase@),
            },
    {
        let mut i: usize = 0;
        while i < self.vocab.len()
            invariant
                0 <= i <= self@.vocab.len(),
                self@.vocab.len() == self.vocab@.len(),
                forall|j: int|
                    0 <= j < i ==> !(self@.vocab[j].user_id == uid as int && self@.vocab[j].phrase
                        == phrase@),
            decreases self@.vocab.len() - i,
        {
            if self.vocab[i].user_id == uid && str_eq(self.vocab[i].phrase.as_str(), phrase) {
                return Some(i);
            }
            i += 1;
        }
        None
    }

    /// The index of this owner's group with this title and kind, if any.
    pub fn find_group(&self, uid: i32, title: &str, vocab: bool) -> (r: Option<usize>)
        ensures
            match r {
                Some(i) => i < self@.groups.len() && self@.groups[i as int].user_id == uid as int
                    && self@.groups[i as int].title == title@ && self@.groups[i as int].vocab
                    == vocab,
                None => !has_group(self@, uid as int, title@, vocab),
            },
    {
        let mut i: usize = 0;
        while i < self.groups.len()
            invariant
                0 <= i <= self@.groups.len(),
                self@.groups.len() == self.groups@.len(),
                forall|j: int|
                    0 <= j < i ==> !(self@.groups[j].user_id == uid as int && self@.groups[j].title
                        == title@ && self@.groups[j].vocab == vocab),
            decreases self@.groups.len() - i,
        {
            if self.groups[i].user_id == uid && self.groups[i].vocab == vocab && str_eq(
                self.groups[i].title.as_str(),
                title,
            ) {
                return Some(i);
            }
            i += 1;
        }
        None
    }
}

} // verus!
