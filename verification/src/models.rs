//! The record types of the store — users, character entries, phrase entries
//! and groups — together with their mathematical views.
//!
//! Each exec struct has a view struct whose fields are `int`, `Seq` and
//! `Option` values; every contract in the crate speaks of those views.

use vstd::prelude::*;

verus! {

/// A registered account: a unique username with the stored derived key and
/// the salt it was derived with.
#[derive(Debug)]
pub struct User {
    pub id: i32,
    pub username: String,
    pub hash: Vec<u8>,
    pub salt: Vec<u8>,
}

/// The view of a [`User`].
#[verifier::ext_equal]
pub struct UserV {
    pub id: int,
    pub username: Seq<char>,
    pub hash: Seq<u8>,
    pub salt: Seq<u8>,
}

impl View for User {
    type V = UserV;

    open spec fn view(&self) -> UserV {
        UserV {
            id: self.id as int,
            username: self.username@,
            hash: self.hash@,
            salt: self.salt@,
        }
    }
}

impl DeepView for User {
    type V = UserV;

    open spec fn deep_view(&self) -> UserV {
        self.view()
    }
}

/// The fields of a user as a registration request carries them, before the
/// store assigns an id.
#[derive(Debug)]
pub struct NewUser {
    pub username: String,
    pub hash: Vec<u8>,
    pub salt: Vec<u8>,
}

/// The view of a [`NewUser`].
#[verifier::ext_equal]
pub struct NewUserV {
    pub username: Seq<char>,
    pub hash: Seq<u8>,
    pub salt: Seq<u8>,
}

impl View for NewUser {
    type V = NewUserV;

    open spec fn view(&self) -> NewUserV {
        NewUserV { username: self.username@, hash: self.hash@, salt: self.salt@ }
    }
}

/// A character entry: a symbol unique per owner, its meaning, its two
/// reading sets, and the phrases of the same owner that contain it.
#[derive(Debug)]
pub struct Kanji {
    pub id: i32,
    pub symbol: String,
    pub meaning: String,
    pub onyomi: Vec<Option<String>>,
    pub kunyomi: Vec<Option<String>>,
    pub description: Option<String>,
    pub vocab_refs: Vec<Option<String>>,
    pub user_id: i32,
    pub group_id: Option<i32>,
}

/// The view of a [`Kanji`].
#[verifier::ext_equal]
pub struct KanjiV {
    pub id: int,
    pub symbol: Seq<char>,
    pub meaning: Seq<char>,
    pub onyomi: Seq<Option<Seq<char>>>,
    pub kunyomi: Seq<Option<Seq<char>>>,
    pub description: Option<Seq<char>>,
    pub vocab_refs: Seq<Option<Seq<char>>>,
    pub user_id: int,
    pub group_id: Option<int>,
}

impl View for Kanji {
    type V = KanjiV;

    open spec fn view(&self) -> KanjiV {
        KanjiV {
            id: self.id as int,
            symbol: self.symbol@,
            meaning: self.meaning@,
            onyomi: self.onyomi.deep_view(),
            kunyomi: self.kunyomi.deep_view(),
            description: self.description.deep_view(),
            vocab_refs: self.vocab_refs.deep_view(),
            user_id: self.user_id as int,
            group_id: match self.group_id {
                Some(g) => Some(g as int),
                None => None,
            },
        }
    }
}

impl DeepView for Kanji {
    type V = KanjiV;

    open spec fn deep_view(&self) -> KanjiV {
        self.view()
    }
}

/// The fields of a character entry as a create request carries them.
#[derive(Debug)]
pub struct NewKanji {
    pub symbol: String,
    pub meaning: String,
    pub onyomi: Vec<Option<String>>,
    pub kunyomi: Vec<Option<String>>,
    pub description: Option<String>,
    pub vocab_refs: Vec<Option<String>>,
    pub user_id: i32,
}

/// The view of a [`NewKanji`].
#[verifier::ext_equal]
pub struct NewKanjiV {
    pub symbol: Seq<char>,
    pub meaning: Seq<char>,
    pub onyomi: Seq<Option<Seq<char>>>,
    pub kunyomi: Seq<Option<Seq<char>>>,
    pub description: Option<Seq<char>>,
    pub vocab_refs: Seq<Option<Seq<char>>>,
    pub user_id: int,
}

impl View for NewKanji {
    type V = NewKanjiV;

    open spec fn view(&self) -> NewKanjiV {
        NewKanjiV {
            symbol: self.symbol@,
            meaning: self.meaning@,
            onyomi: self.onyomi.deep_view(),
            kunyomi: self.kunyomi.deep_view(),
            description: self.description.deep_view(),
            vocab_refs: self.vocab_refs.deep_view(),
            user_id: self.user_id as int,
        }
    }
}

/// A phrase entry: a phrase unique per owner, its meaning and readings, and
/// the symbols of the owner's character entries that occur in it.
#[derive(Debug)]
pub struct Vocab {
    pub id: i32,
    pub phrase: String,
    pub meaning: String,
    pub reading: Vec<Option<String>>,
    pub description: Option<String>,
    pub kanji_refs: Vec<Option<String>>,
    pub user_id: i32,
    pub group_id: Option<i32>,
}

/// The view of a [`Vocab`].
#[verifier::ext_equal]
pub struct VocabV {
    pub id: int,
    pub phrase: Seq<char>,
    pub meaning: Seq<char>,
    pub reading: Seq<Option<Seq<char>>>,
    pub description: Option<Seq<char>>,
    pub kanji_refs: Seq<Option<Seq<char>>>,
    pub user_id: int,
    pub group_id: Option<int>,
}

impl View for Vocab {
    type V = VocabV;

    open spec fn view(&self) -> VocabV {
        VocabV {
            id: self.id as int,
            phrase: self.phrase@,
            meaning: self.meaning@,
            reading: self.reading.deep_view(),
            description: self.description.deep_view(),
            kanji_refs: self.kanji_refs.deep_view(),
            user_id: self.user_id as int,
            group_id: match self.group_id {
                Some(g) => Some(g as int),
                None => None,
            },
        }
    }
}

impl DeepView for Vocab {
    type V = VocabV;

    open spec fn deep_view(&self) -> VocabV {
        self.view()
    }
}

/// The fields of a phrase entry as a create request carries them.
#[derive(Debug)]
pub struct NewVocab {
    pub phrase: String,
    pub meaning: String,
    pub reading: Vec<Option<String>>,
    pub description: Option<String>,
    pub kanji_refs: Vec<Option<String>>,
    pub user_id: i32,
}

/// The view of a [`NewVocab`].
#[verifier::ext_equal]
pub struct NewVocabV {
    pub phrase: Seq<char>,
    pub meaning: Seq<char>,
    pub reading: Seq<Option<Seq<char>>>,
    pub description: Option<Seq<char>>,
    pub kanji_refs: Seq<Option<Seq<char>>>,
    pub user_id: int,
}

impl View for NewVocab {
    type V = NewVocabV;

    open spec fn view(&self) -> NewVocabV {
        NewVocabV {
            phrase: self.phrase@,
            meaning: self.meaning@,
            reading: self.reading.deep_view(),
            description: self.description.deep_view(),
            kanji_refs: self.kanji_refs.deep_view(),
            user_id: self.user_id as int,
        }
    }
}

/// A user-defined grouping. A group collects either character entries
/// (`vocab == false`) or phrase entries (`vocab == true`), never both.
#[derive(Debug)]
pub struct Group {
    pub id: i32,
    pub title: String,
    pub colour: Option<String>,
    pub vocab: bool,
    pub user_id: i32,
}

/// The view of a [`Group`].
#[verifier::ext_equal]
pub struct GroupV {
    pub id: int,
    pub title: Seq<char>,
    pub colour: Option<Seq<char>>,
    pub vocab: bool,
    pub user_id: int,
}

impl View for Group {
    type V = GroupV;

    open spec fn view(&self) -> GroupV {
        GroupV {
            id: self.id as int,
            title: self.title@,
            colour: self.colour.deep_view(),
            vocab: self.vocab,
            user_id: self.user_id as int,
        }
    }
}

impl DeepView for Group {
    type V = GroupV;

    open spec fn deep_view(&self) -> GroupV {
        self.view()
    }
}

/// The fields of a group as a create request carries them.
#[derive(Debug)]
pub struct NewGroup {
    pub title: String,
    pub colour: Option<String>,
    pub vocab: bool,
    pub user_id: i32,
}

/// The view of a [`NewGroup`].
#[verifier::ext_equal]
pub struct NewGroupV {
    pub title: Seq<char>,
    pub colour: Option<Seq<char>>,
    pub vocab: bool,
    pub user_id: int,
}

impl View for NewGroup {
    type V = NewGroupV;

    open spec fn view(&self) -> NewGroupV {
        NewGroupV {
            title: self.title@,
            colour: self.colour.deep_view(),
            vocab: self.vocab,
            user_id: self.user_id as int,
        }
    }
}

impl User {
    /// An exact copy of this user, as the session keeps one when a
    /// connection authenticates.
    pub fn duplicate(&self) -> (r: User)
        ensures
            r@ == self@,
    {
        User {
            id: self.id,
            username: clone_string(&self.username),
            hash: clone_bytes(&self.hash),
            salt: clone_bytes(&self.salt),
        }
    }
}

/// An exact copy of a string.
pub fn clone_string(s: &String) -> (r: String)
    ensures
        r@ == s@,
{
    s.clone()
}

/// An exact copy of a byte vector.
pub fn clone_bytes(v: &Vec<u8>) -> (r: Vec<u8>)
    ensures
        r@ == v@,
{
    let mut r: Vec<u8> = Vec::new();
    let mut i: usize = 0;
    while i < v.len()
        invariant
            0 <= i <= v@.len(),
            r@ == v@.subrange(0, i as int),
        decreases v@.len() - i,
    {
        r.push(v[i]);
        assert(r@ =~= v@.subrange(0, i + 1 as int));
        i += 1;
    }
    assert(r@ =~= v@);
    r
}

} // verus!
