//! Closed error taxonomy of the judge. Errors from the host environment are
//! carried as plain message strings; every error maps to the user-visible
//! SystemError verdict through `crate::result::system_error`.

use vstd::prelude::*;

verus! {

/// The closed set of internal error kinds.
#[derive(Debug)]
pub enum Error {
    /// A file read, write or copy failed; the payload is the host's message.
    IOError(String),
    /// A string could not be handed to the C interface.
    StringToCStringError(String),
    /// Free-form internal error (protocol violations and the like).
    CustomError(String),
    /// The requested language is not in the configuration table.
    LanguageNotFound(String),
    /// A sandbox-level failure surfaced to the verdict layer.
    SystemError(String),
    /// A result-file line did not split into a key and a value.
    StringSplitError,
    /// A result-file value did not parse as a base-10 integer.
    StringToIntError(String),
    /// A host-side reading (a control-group counter) did not parse as an
    /// integer.
    ParseIntError(String),
    /// A command string held no token at all.
    BadCommand,
    /// A command token held an interior NUL byte.
    NullInString(String),
}

impl Error {
    /// The human-readable message attached to the SystemError verdict.
    pub open spec fn spec_message(&self) -> Seq<char> {
        match self {
            Error::IOError(m) => "IOError: `"@ + m@ + "`"@,
            Error::StringToCStringError(m) => "StringToCStringError: `"@ + m@ + "`"@,
            Error::CustomError(m) => "Internal Server Error: `"@ + m@ + "`"@,
            Error::LanguageNotFound(m) => "Language Not Found: `"@ + m@ + "`"@,
            Error::SystemError(m) => "System Error: `"@ + m@ + "`"@,
            Error::StringSplitError => "StringSplitError"@,
            Error::StringToIntError(m) => "StringToIntError: `"@ + m@ + "`"@,
            Error::ParseIntError(m) => "ParseIntError: `"@ + m@ + "`"@,
            Error::BadCommand => "BadCommand"@,
            Error::NullInString(m) => "NullInString: `"@ + m@ + "`"@,
        }
    }

    /// Renders the error as the message `spec_message` describes.
    pub fn message(&self) -> (r: String)
        ensures
            r@ == self.spec_message(),
    {
        match self {
            Error::IOError(m) => compose("IOError: `", m, "`"),
            Error::StringToCStringError(m) => compose("StringToCStringError: `", m, "`"),
            Error::CustomError(m) => compose("Internal Server Error: `", m, "`"),
            Error::LanguageNotFound(m) => compose("Language Not Found: `", m, "`"),
            Error::SystemError(m) => compose("System Error: `", m, "`"),
            Error::StringSplitError => "StringSplitError".to_owned(),
            Error::StringToIntError(m) => compose("StringToIntError: `", m, "`"),
            Error::ParseIntError(m) => compose("ParseIntError: `", m, "`"),
            Error::BadCommand => "BadCommand".to_owned(),
            Error::NullInString(m) => compose("NullInString: `", m, "`"),
        }
    }
}

/// `prefix`, then `body`, then `suffix`, as one string.
fn compose(prefix: &str, body: &String, suffix: &str) -> (r: String)
    ensures
        r@ == prefix@ + body@ + suffix@,
{
    let mut r = prefix.to_owned();
    r.append(body.as_str());
    r.append(suffix);
    r
}

} // verus!
