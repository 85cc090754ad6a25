use vstd::prelude::*;
use vstd::string::{to_string_from_display_ensures, StringExecFns};

verus! {

/// The error type of the `regex` crate, carried through unchanged.
#[verifier::external_type_specification]
#[verifier::external_body]
pub struct ExRegexError(regex::Error);

/// Every way an editor command can fail.
#[derive(Debug)]
pub enum FeditError {
    /// Reading or writing a file failed; the message is the system's.
    Io(String),
    /// Encoding or decoding persisted data failed.
    Serde(String),
    /// The search pattern is not a valid regular expression.
    Regex(regex::Error),
    /// The tab has never been saved and no path was given.
    NoPath,
    /// No open tab has the given id.
    NoTab,
    /// The shared editor state could not be locked.
    Poisoned,
}

/// The name under which an error is reported to the frontend.
pub open spec fn kind_name(e: FeditError) -> Seq<char> {
    match e {
        FeditError::Io(_) => "Io"@,
        FeditError::Serde(_) => "Serde"@,
        FeditError::Regex(_) => "Regex"@,
        FeditError::NoPath => "NoPath"@,
        FeditError::NoTab => "NoTab"@,
        FeditError::Poisoned => "Poisoned"@,
    }
}

impl FeditError {
    /// The variant's name, as the frontend sees it in the `kind` field.
    pub fn kind(&self) -> (k: &'static str)
        ensures
            k@ == kind_name(*self),
    {
        match self {
            FeditError::Io(_) => "Io",
            FeditError::Serde(_) => "Serde",
            FeditError::Regex(_) => "Regex",
            FeditError::NoPath => "NoPath",
            FeditError::NoTab => "NoTab",
            FeditError::Poisoned => "Poisoned",
        }
    }

    /// The error's text, as the frontend sees it in the `message` field. A
    /// bad pattern is described by the `regex` crate's own text for the
    /// error.
    pub fn message(&self) -> (m: String)
        ensures
            match *self {
                FeditError::Io(e) => m@ == "i/o error: "@ + e@,
                FeditError::Serde(e) => m@ == "serde error: "@ + e@,
                FeditError::Regex(e) => exists|t: String|
                    to_string_from_display_ensures::<regex::Error>(&e, t) && m@ == "bad regex: "@ + t@,
                FeditError::NoPath => m@ == "no file is open"@,
                FeditError::NoTab => m@ == "no such tab"@,
                FeditError::Poisoned => m@ == "state is poisoned"@,
            },
    {
        match self {
            FeditError::Io(e) => {
                let mut m = String::from_str("i/o error: ");
                m.append(e.as_str());
                m
            },
            FeditError::Serde(e) => {
                let mut m = String::from_str("serde error: ");
                m.append(e.as_str());
                m
            },
            FeditError::Regex(e) => {
                let t = e.to_string();
                let mut m = String::from_str("bad regex: ");
                m.append(t.as_str());
                m
            },
            FeditError::NoPath => String::from_str("no file is open"),
            FeditError::NoTab => String::from_str("no such tab"),
            FeditError::Poisoned => String::from_str("state is poisoned"),
        }
    }
}

} // verus!
