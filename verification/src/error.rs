//! The failure taxonomy, its HTTP status mapping, and diagnostic messages.

use vstd::prelude::*;
use vstd::string::StringExecFns;
use crate::numbers::int_chars;
use crate::numbers::i64_to_chars;
use crate::text::string_of;

verus! {

/// One case per failure kind, each carrying its own context.
pub enum Error {
    /// The remote API could not be reached; carries the network error's text.
    BadGateway(String),
    /// The remote API answered with a non-success status.
    BadRequest(u16),
    /// The remote API rejected the configured credentials.
    InvalidCredentials,
    /// The remote API's answer could not be read; carries a description.
    InvalidResponse(String),
    /// The rule contains no '@'; carries the whole rule.
    InvalidTag(String),
    /// The rule's pattern is not a regular expression; carries the pattern.
    InvalidRegex(String),
    /// The rule's offset is not an integer; carries the offending text.
    InvalidOffset(String),
    /// The pattern matches nowhere in the filename; carries both.
    NoMatch(String, String),
    /// The pattern matched without capture group 1; carries the pattern.
    NoGroup(String),
    /// Group 1's text is not an integer; carries the captured text.
    GroupNotANumber(String),
    /// The shifted number does not fit; carries the number and the offset.
    NumberOverflow(i32, i32),
}

/// The HTTP-style status an error is reported as: 502 when the remote API is
/// unreachable, 400 for everything else.
pub open spec fn spec_status_code(e: Error) -> u16 {
    match e {
        Error::BadGateway(_) => 502,
        _ => 400,
    }
}

/// The diagnostic message for an error, with its full context.
pub open spec fn spec_message(e: Error) -> Seq<char> {
    match e {
        Error::BadGateway(d) => "Unable to reach qBittorrent: `"@ + d@ + "`"@,
        Error::BadRequest(code) => "Bad request: "@ + int_chars(code as int),
        Error::InvalidCredentials => "Invalid credentials"@,
        Error::InvalidResponse(d) => "Unable to parse qBittorrent data: `"@ + d@ + "`"@,
        Error::InvalidTag(t) => "Invalid tag: `"@ + t@ + "`"@,
        Error::InvalidRegex(p) => "Invalid regex pattern: `"@ + p@ + "`"@,
        Error::InvalidOffset(o) => "Offset must be an integer, found: `"@ + o@ + "`"@,
        Error::NoMatch(f, p) => "`"@ + f@ + "` contains no matches with pattern `"@ + p@ + "`"@,
        Error::NoGroup(p) => "Pattern `"@ + p@ + "` does not contain a group"@,
        Error::GroupNotANumber(g) => "Group `"@ + g@ + "` is not a number"@,
        Error::NumberOverflow(v, o) => "New number `"@ + int_chars(v as int) + " + "@
            + int_chars(o as int) + "` is out of range"@,
    }
}

impl Error {
    /// The HTTP-style status this error is reported as.
    pub fn status_code(&self) -> (c: u16)
        ensures
            c == spec_status_code(*self),
    {
        match self {
            Error::BadGateway(_) => 502,
            _ => 400,
        }
    }

    /// The diagnostic message, carrying the error's full context.
    pub fn message(&self) -> (m: String)
        ensures
            m@ == spec_message(*self),
    {
        match self {
            Error::BadGateway(d) => {
                let mut m = "Unable to reach qBittorrent: `".to_owned();
                m.append(d.as_str());
                m.append("`");
                m
            },
            Error::BadRequest(code) => {
                let mut m = "Bad request: ".to_owned();
                let digits = i64_to_chars(*code as i64);
                m.append(string_of(digits.as_slice()).as_str());
                m
            },
            Error::InvalidCredentials => "Invalid credentials".to_owned(),
            Error::InvalidResponse(d) => {
                let mut m = "Unable to parse qBittorrent data: `".to_owned();
                m.append(d.as_str());
                m.append("`");
                m
            },
            Error::InvalidTag(t) => {
                let mut m = "Invalid tag: `".to_owned();
                m.append(t.as_str());
                m.append("`");
                m
            },
            Error::InvalidRegex(p) => {
                let mut m = "Invalid regex pattern: `".to_owned();
                m.append(p.as_str());
                m.append("`");
                m
            },
            Error::InvalidOffset(o) => {
                let mut m = "Offset must be an integer, found: `".to_owned();
                m.append(o.as_str());
                m.append("`");
                m
            },
            Error::NoMatch(f, p) => {
                let mut m = "`".to_owned();
                m.append(f.as_str());
                m.append("` contains no matches with pattern `");
                m.append(p.as_str());
                m.append("`");
                m
            },
            Error::NoGroup(p) => {
                let mut m = "Pattern `".to_owned();
                m.append(p.as_str());
                m.append("` does not contain a group");
                m
            },
            Error::GroupNotANumber(g) => {
                let mut m = "Group `".to_owned();
                m.append(g.as_str());
                m.append("` is not a number");
                m
            },
            Error::NumberOverflow(v, o) => {
                let mut m = "New number `".to_owned();
                let vd = i64_to_chars(*v as i64);
                m.append(string_of(vd.as_slice()).as_str());
                m.append(" + ");
                let od = i64_to_chars(*o as i64);
                m.append(string_of(od.as_slice()).as_str());
                m.append("` is out of range");
                m
            },
        }
    }
}

} // verus!
