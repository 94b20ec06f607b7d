//! What can go wrong, in words.

use vstd::prelude::*;

use crate::text::to_decimal;
#[allow(unused_imports)]
use crate::text::{decimal, number_in, number_is_read_back};

verus! {

/// What was being done when it failed.
#[derive(Debug, Clone, Copy, PartialEq, Eq)]
pub enum ErrorKind {
    FileDescriptorLimit,
    Configuration,
    Logging,
    ReadConfigFile,
    ParseToml,
    NoToolSection,
    NoBlackSection,
    BlackSectionIsNoTable,
    ConfigShape,
    NoExclude,
    InvalidExclude,
    NoInclude,
    InvalidInclude,
    ReadStdin,
    OpenSource,
    SendRequest,
    UnexpectedStatus(u16),
    ReadResponse,
    OpenTarget,
    OpenStdout,
    WriteOutput,
}

/// A failure of some kind, with the error underneath it where there is one.
#[derive(Debug)]
pub struct Failure<E> {
    pub kind: ErrorKind,
    pub cause: Option<E>,
}

impl ErrorKind {
    /// The kind in words.
    pub open spec fn words(self) -> Seq<char> {
        match self {
            ErrorKind::FileDescriptorLimit => "Unable to get file descriptor limit"@,
            ErrorKind::Configuration => "Unable to set up configuration"@,
            ErrorKind::Logging => "Unable to set up logging"@,
            ErrorKind::ReadConfigFile => "Unable to read config file"@,
            ErrorKind::ParseToml => "Unable to parse TOML"@,
            ErrorKind::NoToolSection => "No `tool` section in config"@,
            ErrorKind::NoBlackSection => "No `tool.black` section in config"@,
            ErrorKind::BlackSectionIsNoTable => "`tool.black` is not a table"@,
            ErrorKind::ConfigShape => "Invalid config shape"@,
            ErrorKind::NoExclude => "no exclude regex set"@,
            ErrorKind::InvalidExclude => "exclude is not a valid regex"@,
            ErrorKind::NoInclude => "no include regex set"@,
            ErrorKind::InvalidInclude => "include is not a valid regex"@,
            ErrorKind::ReadStdin => "Unable to read stdin"@,
            ErrorKind::OpenSource => "error opening file"@,
            ErrorKind::SendRequest => "Error sending format request"@,
            ErrorKind::UnexpectedStatus(status) => "unexpected status: "@ + decimal(status as nat),
            ErrorKind::ReadResponse => "Error reading HTTP response"@,
            ErrorKind::OpenTarget => "Unable to open file for writing"@,
            ErrorKind::OpenStdout => "Unable to open stdout for writing"@,
            ErrorKind::WriteOutput => "Error writing output"@,
        }
    }

    /// Puts the kind into words.
    pub fn description(&self) -> (text: String)
        ensures
            text@ == self.words(),
    {
        match *self {
            ErrorKind::FileDescriptorLimit => "Unable to get file descriptor limit".to_owned(),
            ErrorKind::Configuration => "Unable to set up configuration".to_owned(),
            ErrorKind::Logging => "Unable to set up logging".to_owned(),
            ErrorKind::ReadConfigFile => "Unable to read config file".to_owned(),
            ErrorKind::ParseToml => "Unable to parse TOML".to_owned(),
            ErrorKind::NoToolSection => "No `tool` section in config".to_owned(),
            ErrorKind::NoBlackSection => "No `tool.black` section in config".to_owned(),
            ErrorKind::BlackSectionIsNoTable => "`tool.black` is not a table".to_owned(),
            ErrorKind::ConfigShape => "Invalid config shape".to_owned(),
            ErrorKind::NoExclude => "no exclude regex set".to_owned(),
            ErrorKind::InvalidExclude => "exclude is not a valid regex".to_owned(),
            ErrorKind::NoInclude => "no include regex set".to_owned(),
            ErrorKind::InvalidInclude => "include is not a valid regex".to_owned(),
            ErrorKind::ReadStdin => "Unable to read stdin".to_owned(),
            ErrorKind::OpenSource => "error opening file".to_owned(),
            ErrorKind::SendRequest => "Error sending format request".to_owned(),
            ErrorKind::UnexpectedStatus(status) => {
                let mut text = "unexpected status: ".to_owned();
                let number = to_decimal(status as u64);
                text.append(number.as_str());
                text
            },
            ErrorKind::ReadResponse => "Error reading HTTP response".to_owned(),
            ErrorKind::OpenTarget => "Unable to open file for writing".to_owned(),
            ErrorKind::OpenStdout => "Unable to open stdout for writing".to_owned(),
            ErrorKind::WriteOutput => "Error writing output".to_owned(),
        }
    }
}

impl<E> Failure<E> {
    /// A failure with nothing underneath.
    pub fn plain(kind: ErrorKind) -> (failure: Self)
        ensures
            failure.kind == kind,
            failure.cause is None,
    {
        Failure { kind, cause: None }
    }

    /// A failure that another error caused.
    pub fn caused_by(kind: ErrorKind, cause: E) -> (failure: Self)
        ensures
            failure.kind == kind,
            failure.cause == Some(cause),
    {
        Failure { kind, cause: Some(cause) }
    }
}

/// An unexpected status is named by its number.
pub proof fn unexpected_statuses_are_named(status: u16)
    ensures
        ErrorKind::UnexpectedStatus(status).words() == "unexpected status: "@ + decimal(
            status as nat,
        ),
        number_in(
            ErrorKind::UnexpectedStatus(status).words().skip("unexpected status: "@.len() as int),
        ) == Some(status as u64),
{
    let prefix = "unexpected status: "@;
    assert((prefix + decimal(status as nat)).skip(prefix.len() as int) == decimal(status as nat));
    number_is_read_back(status as u64);
}

} // verus!
