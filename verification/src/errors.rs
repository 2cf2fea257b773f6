//! The closed set of failure codes that command handlers return, with the
//! machine code and human-readable message each one carries on the wire.

use vstd::prelude::*;

verus! {

/// A named failure of one command. Every handler-level failure is one of
/// these; the dispatcher turns it into a `BAD` envelope and keeps the
/// connection open.
#[derive(PartialEq, Eq, Structural, Clone, Copy, Debug)]
pub enum ServerError {
    /// The payload is missing a required field or a field is mistyped.
    InvalidFormat,
    /// The named user does not exist (or the session's user was deleted).
    InvalidUser,
    /// The submitted derived key does not match the stored one.
    InvalidPassword,
    /// A user with this username already exists.
    UserExists,
    /// A character entry with this symbol already exists for this owner.
    KanjiExists,
    /// A phrase entry with this phrase already exists for this owner.
    VocabExists,
    /// A group with this title and kind already exists for this owner.
    GroupExists,
    /// The colour is not `#` followed by six hexadecimal digits.
    InvalidHexcode,
    /// No group of the required kind with this title belongs to the user.
    InvalidGroup,
    /// No character entry with this symbol belongs to the user.
    InvalidKanji,
    /// No phrase entry with this phrase belongs to the user.
    InvalidVocab,
    /// The entry is already a member of a group.
    AlreadyAdded,
    /// The entry is not a member of any group.
    AlreadyRemoved,
    /// The command requires an authenticated session and none is bound.
    Unverified,
}

impl ServerError {
    /// The machine code for this failure, as the storage-layer handlers
    /// report it.
    pub fn code(&self) -> (r: &'static str)
        ensures
            r@ == self.spec_code(),
    {
        match self {
            ServerError::InvalidFormat => "INVALID_FORMAT",
            ServerError::InvalidUser => "INVALID_USER",
            ServerError::InvalidPassword => "INVALID_PASSWORD",
            ServerError::UserExists => "USER_EXISTS",
            ServerError::KanjiExists => "KANJI_EXISTS",
            ServerError::VocabExists => "VOCAB_EXISTS",
            ServerError::GroupExists => "GROUP_EXISTS",
            ServerError::InvalidHexcode => "INVALID_HEXCODE",
            ServerError::InvalidGroup => "INVALID_GROUP",
            ServerError::InvalidKanji => "INVALID_KANJI",
            ServerError::InvalidVocab => "INVALID_VOCAB",
            ServerError::AlreadyAdded => "ALREADY_ADDED",
            ServerError::AlreadyRemoved => "ALREADY_REMOVED",
            ServerError::Unverified => "UNVERIFIED",
        }
    }

    /// The machine code, as a sequence of characters.
    pub open spec fn spec_code(&self) -> Seq<char> {
        match self {
            ServerError::InvalidFormat => "INVALID_FORMAT"@,
            ServerError::InvalidUser => "INVALID_USER"@,
            ServerError::InvalidPassword => "INVALID_PASSWORD"@,
            ServerError::UserExists => "USER_EXISTS"@,
            ServerError::KanjiExists => "KANJI_EXISTS"@,
            ServerError::VocabExists => "VOCAB_EXISTS"@,
            ServerError::GroupExists => "GROUP_EXISTS"@,
            ServerError::InvalidHexcode => "INVALID_HEXCODE"@,
            ServerError::InvalidGroup => "INVALID_GROUP"@,
            ServerError::InvalidVocab => "INVALID_VOCAB"@,
            ServerError::InvalidKanji => "INVALID_KANJI"@,
            ServerError::AlreadyAdded => "ALREADY_ADDED"@,
            ServerError::AlreadyRemoved => "ALREADY_REMOVED"@,
            ServerError::Unverified => "UNVERIFIED"@,
        }
    }

    /// The human-readable message that the dispatcher puts in the `BAD`
    /// envelope for this failure.
    pub fn message(&self) -> (r: &'static str)
        ensures
            r@ == self.spec_message(),
    {
        match self {
            ServerError::InvalidFormat => "Request body format is ill-formed!",
            ServerError::InvalidUser => "User does not exist! Please enter a valid username...",
            ServerError::InvalidPassword => "Password is invalid! Please re-enter your password...",
            ServerError::UserExists => "Username already exists! Please enter a different username...",
            ServerError::KanjiExists => "Kanji already exists in database!",
            ServerError::VocabExists => "Vocab already exists in database!",
            ServerError::GroupExists => "Group already exists in database!",
            ServerError::InvalidHexcode => "Invalid format for hexcode! Provide a valid colour hexcode...",
            ServerError::InvalidGroup => "Group selected does not exist! Pick a valid group...",
            ServerError::InvalidKanji => "Kanji selected does not exist! Pick a valid Kanji...",
            ServerError::InvalidVocab => "Vocab selected does not exist! Pick a valid vocab...",
            ServerError::AlreadyAdded => "Kanji already added to group!",
            ServerError::AlreadyRemoved => "Entry is not in any group!",
            ServerError::Unverified => "Unverified request! Login to a valid account to make this request...",
        }
    }

    /// The human-readable message, as a sequence of characters.
    pub open spec fn spec_message(&self) -> Seq<char> {
        match self {
            ServerError::InvalidFormat => "Request body format is ill-formed!"@,
            ServerError::InvalidUser => "User does not exist! Please enter a valid username..."@,
            ServerError::InvalidPassword => "Password is invalid! Please re-enter your password..."@,
            ServerError::UserExists => "Username already exists! Please enter a different username..."@,
            ServerError::KanjiExists => "Kanji already exists in database!"@,
            ServerError::VocabExists => "Vocab already exists in database!"@,
            ServerError::GroupExists => "Group already exists in database!"@,
            ServerError::InvalidHexcode => "Invalid format for hexcode! Provide a valid colour hexcode..."@,
            ServerError::InvalidGroup => "Group selected does not exist! Pick a valid group..."@,
            ServerError::InvalidKanji => "Kanji selected does not exist! Pick a valid Kanji..."@,
            ServerError::InvalidVocab => "Vocab selected does not exist! Pick a valid vocab..."@,
            ServerError::AlreadyAdded => "Kanji already added to group!"@,
            ServerError::AlreadyRemoved => "Entry is not in any group!"@,
            ServerError::Unverified => "Unverified request! Login to a valid account to make this request..."@,
        }
    }
}

} // verus!
