use vstd::prelude::*;

verus! {

/// Why a group or user configuration document was rejected at load time.
#[derive(Debug)]
pub enum ConfigError {
    /// The group or user has no `name` key, or its value is empty.
    MissingName,
    /// A key that the loader does not recognize; carries the key.
    UnknownKey(String),
    /// A recognized key whose value has the wrong shape; carries the key.
    InvalidValue(String),
    /// A required key is absent; carries the key.
    MissingKey(String),
    /// Two user records share a username; carries the username.
    DuplicateUser(String),
    /// Two group definitions share a name; carries the name.
    DuplicateGroup(String),
    /// A refresh interval of zero (or a negative integer) was given.
    NonPositiveInterval,
    /// A date-time field that is not a well-formed RFC 3339 string; carries the key.
    InvalidDatetime(String),
}

/// The ghost image of a `ConfigError`: the same variants over sequences of
/// characters, so that contracts can speak of the carried names.
pub enum CfgErr {
    MissingName,
    UnknownKey(Seq<char>),
    InvalidValue(Seq<char>),
    MissingKey(Seq<char>),
    DuplicateUser(Seq<char>),
    DuplicateGroup(Seq<char>),
    NonPositiveInterval,
    InvalidDatetime(Seq<char>),
}

impl View for ConfigError {
    type V = CfgErr;

    open spec fn view(&self) -> CfgErr {
        match self {
            ConfigError::MissingName => CfgErr::MissingName,
            ConfigError::UnknownKey(k) => CfgErr::UnknownKey(k@),
            ConfigError::InvalidValue(k) => CfgErr::InvalidValue(k@),
            ConfigError::MissingKey(k) => CfgErr::MissingKey(k@),
            ConfigError::DuplicateUser(n) => CfgErr::DuplicateUser(n@),
            ConfigError::DuplicateGroup(n) => CfgErr::DuplicateGroup(n@),
            ConfigError::NonPositiveInterval => CfgErr::NonPositiveInterval,
            ConfigError::InvalidDatetime(k) => CfgErr::InvalidDatetime(k@),
        }
    }
}

/// Why a fetched credential payload was rejected; treated as a fetch
/// failure for retry purposes.
#[derive(Debug)]
pub enum DecodeError {
    /// The payload is not a sequence of records.
    NotSequence,
    /// A record was rejected; carries why, with the offending name or key.
    BadRecord(ConfigError),
}

/// The ghost image of a `DecodeError`.
pub enum DecErr {
    NotSequence,
    BadRecord(CfgErr),
}

impl View for DecodeError {
    type V = DecErr;

    open spec fn view(&self) -> DecErr {
        match self {
            DecodeError::NotSequence => DecErr::NotSequence,
            DecodeError::BadRecord(e) => DecErr::BadRecord(e@),
        }
    }
}

/// Why a date-time value embedded in a credential feed was rejected.
#[derive(Clone, Copy, PartialEq, Eq, Structural, Debug)]
pub enum DatetimeError {
    /// The value is not a string at all.
    NotText,
    /// The value is string data that is not valid UTF-8.
    InvalidUtf8,
    /// The text is not a well-formed RFC 3339 date-time.
    InvalidFormat,
}

/// Why a fetch of a dynamic credential feed failed; transient, never fatal.
#[derive(Clone, Copy, PartialEq, Eq, Structural, Debug)]
pub enum FetchError {
    Timeout,
    NotFound,
    Network,
}

/// Why a lookup against the registry found no credential record.
#[derive(Clone, Copy, PartialEq, Eq, Structural, Debug)]
pub enum LookupError {
    UnknownGroup,
    UnknownUser,
}

/// Why a write to session routing notes was refused.
#[derive(Clone, Copy, PartialEq, Eq, Structural, Debug)]
pub enum NotesError {
    /// The field was already set once; routing notes are write-once.
    AlreadySet,
    /// The requested expiry does not lie in the future.
    ExpiryNotFuture,
}

} // verus!
