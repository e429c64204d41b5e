//! The ways a decode can fail.

use crate::bytes::EndOfInput;
use std::string::FromUtf8Error;
use vstd::prelude::*;

verus! {

/// Declares std's UTF-8 conversion error so that it can travel in [`Error`].
#[verifier::external_type_specification]
#[verifier::external_body]
pub struct ExFromUtf8Error(FromUtf8Error);

/// The error type for decoding a replay header and for parsing the names of
/// maps, missions, game modes and results.
///
/// Running out of input is the one I/O failure a decode over bytes can meet.
#[derive(Debug)]
pub enum Error {
    Io(EndOfInput),
    InvalidIdentifier,
    UnsupportedReplayVersion(u32),
    UnsupportedResultVersion(u32),
    MissingSpyUsername,
    MissingSniperUsername,
    InvalidString(FromUtf8Error),
    InvalidGameResult(u32),
    InvalidGameMode(u32),
    UnknownMap(String),
    UnknownGameResult(String),
    UnknownGameMode(String),
    UnknownMission(String),
}

/// An [`Error`] as contracts see it: the same variants, with strings as
/// character sequences and the UTF-8 error reduced to its kind.
pub enum Fail {
    Io(EndOfInput),
    InvalidIdentifier,
    UnsupportedReplayVersion(u32),
    UnsupportedResultVersion(u32),
    MissingSpyUsername,
    MissingSniperUsername,
    InvalidString,
    InvalidGameResult(u32),
    InvalidGameMode(u32),
    UnknownMap(Seq<char>),
    UnknownGameResult(Seq<char>),
    UnknownGameMode(Seq<char>),
    UnknownMission(Seq<char>),
}

impl View for Error {
    type V = Fail;

    open spec fn view(&self) -> Fail {
        match self {
            Error::Io(e) => Fail::Io(*e),
            Error::InvalidIdentifier => Fail::InvalidIdentifier,
            Error::UnsupportedReplayVersion(v) => Fail::UnsupportedReplayVersion(*v),
            Error::UnsupportedResultVersion(v) => Fail::UnsupportedResultVersion(*v),
            Error::MissingSpyUsername => Fail::MissingSpyUsername,
            Error::MissingSniperUsername => Fail::MissingSniperUsername,
            Error::InvalidString(_) => Fail::InvalidString,
            Error::InvalidGameResult(v) => Fail::InvalidGameResult(*v),
            Error::InvalidGameMode(v) => Fail::InvalidGameMode(*v),
            Error::UnknownMap(s) => Fail::UnknownMap(s@),
            Error::UnknownGameResult(s) => Fail::UnknownGameResult(s@),
            Error::UnknownGameMode(s) => Fail::UnknownGameMode(s@),
            Error::UnknownMission(s) => Fail::UnknownMission(s@),
        }
    }
}

} // verus!
