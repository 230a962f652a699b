//! What can go wrong in the client.

use crate::text::push_decimal;
use vstd::prelude::*;
use vstd::string::StringExecFns;

verus! {

/// Why a text is not the JSON value it should be.
#[derive(Clone, Copy, PartialEq, Eq, Debug, Structural)]
pub enum JsonCategory {
    /// The text could not be read.
    Io,
    /// The text is not well-formed JSON.
    Syntax,
    /// The text is JSON of the wrong shape.
    Data,
    /// The text ends too early.
    Eof,
}

impl JsonCategory {
    pub open spec fn name_of(self) -> Seq<char> {
        match self {
            JsonCategory::Io => "Io"@,
            JsonCategory::Syntax => "Syntax"@,
            JsonCategory::Data => "Data"@,
            JsonCategory::Eof => "Eof"@,
        }
    }

    /// The name of the category.
    pub fn name(self) -> (name: &'static str)
        ensures
            name@ == self.name_of(),
    {
        match self {
            JsonCategory::Io => "Io",
            JsonCategory::Syntax => "Syntax",
            JsonCategory::Data => "Data",
            JsonCategory::Eof => "Eof",
        }
    }
}

/// The errors of the client.
#[derive(Debug, PartialEq, Eq)]
pub enum Error {
    /// An argument has no separator between key and value; holds the
    /// argument.
    ParameterMissingSeparator(String),
    /// Neither a URL nor a method with its URL was given.
    MissingUrlAndCommand,
    /// A file is to be uploaded though form mode is off.
    NotFormButHasFormFile,
    /// The request or the response could not be serialized.
    ClientSerialization,
    /// The request timed out.
    ClientTimeout,
    /// The server answered with this status.
    ClientWithStatus(u16),
    /// The request failed for another reason.
    ClientOther,
    /// A text that should be JSON is not.
    SerdeJson(JsonCategory),
    /// A file could not be read or written; holds the name of the kind of
    /// failure.
    IO(String),
    /// The URL could not be parsed; holds the reason.
    UrlParseError(String),
}

pub type HurlResult<T> = Result<T, Error>;

impl Error {
    /// The text that describes the error.
    pub open spec fn message_of(self) -> Seq<char> {
        match self {
            Error::ParameterMissingSeparator(s) => "Missing separator when parsing parameter: "@
                + s@,
            Error::MissingUrlAndCommand => "Must specify a url or a command"@,
            Error::NotFormButHasFormFile =>
                "Cannot have a form file 'key@filename' unless --form option is set"@,
            Error::ClientSerialization => "Serializing the request/response failed"@,
            Error::ClientTimeout => "Timeout during request"@,
            Error::ClientWithStatus(status) => "Got status code: "@ + crate::text::decimal(
                status as nat,
            ),
            Error::ClientOther => "Unknown client error"@,
            Error::SerdeJson(c) => "JSON error: "@ + c.name_of(),
            Error::IO(k) => "IO Error: "@ + k@,
            Error::UrlParseError(e) => "URL Parsing Error: "@ + e@,
        }
    }

    /// Describes the error in words. A status is given by its number; the
    /// phrase that goes with it is for the program around to add.
    pub fn message(&self) -> (text: String)
        ensures
            text@ == self.message_of(),
    {
        match self {
            Error::ParameterMissingSeparator(s) => String::from_str(
                "Missing separator when parsing parameter: ",
            ).concat(s.as_str()),
            Error::MissingUrlAndCommand => String::from_str("Must specify a url or a command"),
            Error::NotFormButHasFormFile => String::from_str(
                "Cannot have a form file 'key@filename' unless --form option is set",
            ),
            Error::ClientSerialization => String::from_str(
                "Serializing the request/response failed",
            ),
            Error::ClientTimeout => String::from_str("Timeout during request"),
            Error::ClientWithStatus(status) => {
                let mut text = String::from_str("Got status code: ");
                push_decimal(&mut text, *status as u64);
                text
            },
            Error::ClientOther => String::from_str("Unknown client error"),
            Error::SerdeJson(c) => String::from_str("JSON error: ").concat(c.name()),
            Error::IO(k) => String::from_str("IO Error: ").concat(k.as_str()),
            Error::UrlParseError(e) => String::from_str("URL Parsing Error: ").concat(e.as_str()),
        }
    }

    /// The error for a request that failed in the HTTP client, from what
    /// the client says of the failure: a failure to serialize comes before
    /// a timeout, a timeout before a status.
    pub fn from_client(is_serialization: bool, is_timeout: bool, status: Option<u16>) -> (error:
        Error)
        ensures
            error == (if is_serialization {
                Error::ClientSerialization
            } else if is_timeout {
                Error::ClientTimeout
            } else {
                match status {
                    Some(s) => Error::ClientWithStatus(s),
                    None => Error::ClientOther,
                }
            }),
    {
        if is_serialization {
            return Error::ClientSerialization;
        }
        if is_timeout {
            return Error::ClientTimeout;
        }
        if let Some(s) = status {
            return Error::ClientWithStatus(s);
        }
        Error::ClientOther
    }
}

} // verus!
