//! The errors that the library reports.

use vstd::prelude::*;

verus! {

/// An error of the library.
#[derive(Clone, Copy, Debug, PartialEq, Eq, Structural)]
pub enum Error {
    /// The command-line arguments do not form options.
    InvalidArguments,
    /// No table name was given.
    TableRequired,
    /// No database was given.
    DatabaseRequired,
    /// No database file was given.
    DatabaseFileRequired,
    /// No queue name was given.
    QueueRequired,
    /// No McPAT configuration file was given.
    McpatConfigRequired,
    /// No configuration file was given.
    ConfigRequired,
    /// The configuration file does not exist.
    ConfigMissing,
    /// The server answered with something other than a list ending in bytes.
    UnexpectedReply,
    /// The bytes of a message are not UTF-8: those after the first
    /// `valid_up_to` begin an invalid sequence of `error_len` bytes.
    InvalidUtf8 { valid_up_to: usize, error_len: usize },
    /// The bytes of a message are not UTF-8: they end within a character
    /// that begins after the first `valid_up_to`.
    IncompleteUtf8 { valid_up_to: usize },
    /// The system shares its L2 caches.
    SharedL2,
    /// A file path does not have the expected form.
    MalformedPath,
    /// A message does not have the expected form.
    MalformedMessage,
    /// A record of a worker does not have as many values as it has columns.
    DimensionMismatch,
    /// A row does not have as many values as the table has columns.
    RowMismatch,
    /// A write did not go into the database after all tries.
    WriteFailed,
    /// A record did not go into the database.
    RecordFailed,
    /// The command is unknown.
    UnknownCommand,
}

/// The text of each error.
pub open spec fn spec_message(e: Error) -> Seq<char> {
    match e {
        Error::InvalidArguments => "the arguments are invalid"@,
        Error::TableRequired => "a table name is required"@,
        Error::DatabaseRequired => "a database is required"@,
        Error::DatabaseFileRequired => "a database file is required"@,
        Error::QueueRequired => "a queue name is required"@,
        Error::McpatConfigRequired => "a configuration file of McPAT is required"@,
        Error::ConfigRequired => "a configuration file is required"@,
        Error::ConfigMissing => "the configuration file does not exist"@,
        Error::UnexpectedReply => "received an unexpected reply from the server"@,
        Error::InvalidUtf8 { valid_up_to, error_len } => "invalid utf-8 sequence of "@
            + crate::text::decimal(error_len as nat) + " bytes from index "@ + crate::text::decimal(
            valid_up_to as nat,
        ),
        Error::IncompleteUtf8 { valid_up_to } => "incomplete utf-8 byte sequence from index "@
            + crate::text::decimal(valid_up_to as nat),
        Error::SharedL2 => "shared L2 caches are currently not supported"@,
        Error::MalformedPath => "encountered a malformed file path"@,
        Error::MalformedMessage => "received a malformed message"@,
        Error::DimensionMismatch => "encoundered a dimensionality mismatch"@,
        Error::RowMismatch => "encoundered a dimensionality mistmatch"@,
        Error::WriteFailed => "cannot write into the database"@,
        Error::RecordFailed => "cannot write data into the database"@,
        Error::UnknownCommand => "the command is unknown"@,
    }
}

impl Error {
    /// The text that describes the error.
    pub fn message(&self) -> (res: String)
        ensures
            res@ == spec_message(*self),
    {
        match self {
            Error::InvalidUtf8 { valid_up_to, error_len } => {
                let mut res = "invalid utf-8 sequence of ".to_string();
                res.append(crate::text::format_usize(*error_len).as_str());
                res.append(" bytes from index ");
                res.append(crate::text::format_usize(*valid_up_to).as_str());
                res
            },
            Error::IncompleteUtf8 { valid_up_to } => {
                let mut res = "incomplete utf-8 byte sequence from index ".to_string();
                res.append(crate::text::format_usize(*valid_up_to).as_str());
                res
            },
            _ => self.text().to_string(),
        }
    }

    /// The text of an error whose text is fixed.
    fn text(&self) -> (res: &'static str)
        requires
            !(*self is InvalidUtf8) && !(*self is IncompleteUtf8),
        ensures
            res@ == spec_message(*self),
    {
        match self {
            Error::InvalidArguments => "the arguments are invalid",
            Error::TableRequired => "a table name is required",
            Error::DatabaseRequired => "a database is required",
            Error::DatabaseFileRequired => "a database file is required",
            Error::QueueRequired => "a queue name is required",
            Error::McpatConfigRequired => "a configuration file of McPAT is required",
            Error::ConfigRequired => "a configuration file is required",
            Error::ConfigMissing => "the configuration file does not exist",
            Error::UnexpectedReply => "received an unexpected reply from the server",
            Error::SharedL2 => "shared L2 caches are currently not supported",
            Error::MalformedPath => "encountered a malformed file path",
            Error::MalformedMessage => "received a malformed message",
            Error::DimensionMismatch => "encoundered a dimensionality mismatch",
            Error::RowMismatch => "encoundered a dimensionality mistmatch",
            Error::WriteFailed => "cannot write into the database",
            Error::RecordFailed => "cannot write data into the database",
            Error::UnknownCommand => "the command is unknown",
            Error::InvalidUtf8 { .. } => "",
            Error::IncompleteUtf8 { .. } => "",
        }
    }
}

/// A result of the library.
pub type Result<T> = core::result::Result<T, Error>;

} // verus!
