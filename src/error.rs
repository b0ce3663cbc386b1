//! The library's error type.

use vstd::prelude::*;

verus! {

/// Errors that can occur during a WordPress audit.
#[derive(Debug, Clone)]
pub enum Error {
    /// Invalid URL provided
    InvalidUrl(String),
    /// Failed to create HTTP client
    HttpClient(String),
    /// HTTP request failed
    HttpRequest(String),
    /// HTTP response error status
    HttpStatus(u16),
    /// Site does not appear to be WordPress
    NotWordPress,
    /// Invalid output format specified
    InvalidOutputFormat(String),
    /// Invalid output detail level specified
    InvalidOutputDetail(String),
    /// Invalid output sort order specified
    InvalidOutputSort(String),
    /// Output operation failed
    OutputFailed(String),
    /// JSON serialization failed
    SerializationFailed(String),
}

pub open spec fn digit_chars() -> Seq<char> {
    seq!['0', '1', '2', '3', '4', '5', '6', '7', '8', '9']
}

/// The decimal digits of `n`.
pub open spec fn decimal(n: nat) -> Seq<char>
    decreases n,
{
    if n < 10 {
        seq![digit_chars()[n as int]]
    } else {
        decimal(n / 10).push(digit_chars()[(n % 10) as int])
    }
}

fn digit_text(d: u16) -> (r: &'static str)
    requires
        d < 10,
    ensures
        r@ == seq![digit_chars()[d as int]],
{
    proof {
        reveal_strlit("0");
        reveal_strlit("1");
        reveal_strlit("2");
        reveal_strlit("3");
        reveal_strlit("4");
        reveal_strlit("5");
        reveal_strlit("6");
        reveal_strlit("7");
        reveal_strlit("8");
        reveal_strlit("9");
    }
    let r = match d {
        0 => "0",
        1 => "1",
        2 => "2",
        3 => "3",
        4 => "4",
        5 => "5",
        6 => "6",
        7 => "7",
        8 => "8",
        _ => "9",
    };
    assert(r@ =~= seq![digit_chars()[d as int]]);
    r
}

/// The decimal text of `n`.
pub fn decimal_text(n: u16) -> (r: String)
    ensures
        r@ == decimal(n as nat),
    decreases n,
{
    if n < 10 {
        String::from_str(digit_text(n))
    } else {
        let mut r = decimal_text(n / 10);
        r.append(digit_text(n % 10));
        r
    }
}

/// The text of an error.
pub open spec fn error_message(e: Error) -> Seq<char> {
    match e {
        Error::InvalidUrl(s) => "invalid URL: "@ + s@,
        Error::HttpClient(s) => "failed to create HTTP client: "@ + s@,
        Error::HttpRequest(s) => "HTTP request failed: "@ + s@,
        Error::HttpStatus(n) => "HTTP error: status "@ + decimal(n as nat),
        Error::NotWordPress => "site does not appear to be WordPress"@,
        Error::InvalidOutputFormat(s) => "invalid output format: '"@ + s@
            + "' (valid: human, json, none)"@,
        Error::InvalidOutputDetail(s) => "invalid output detail: '"@ + s@ + "' (valid: all, nok)"@,
        Error::InvalidOutputSort(s) => "invalid output sort: '"@ + s@
            + "' (valid: type, name, status)"@,
        Error::OutputFailed(s) => "output failed: "@ + s@,
        Error::SerializationFailed(_) => "JSON serialization failed"@,
    }
}

fn prefixed(head: &str, body: &str) -> (r: String)
    ensures
        r@ == head@ + body@,
{
    let mut r = String::from_str(head);
    r.append(body);
    r
}

fn quoted(head: &str, body: &str, tail: &str) -> (r: String)
    ensures
        r@ == head@ + body@ + tail@,
{
    let mut r = String::from_str(head);
    r.append(body);
    r.append(tail);
    r
}

impl Error {
    /// The text of the error, as shown to a user.
    pub fn message(&self) -> (r: String)
        ensures
            r@ == error_message(*self),
    {
        match self {
            Error::InvalidUrl(s) => prefixed("invalid URL: ", s.as_str()),
            Error::HttpClient(s) => prefixed("failed to create HTTP client: ", s.as_str()),
            Error::HttpRequest(s) => prefixed("HTTP request failed: ", s.as_str()),
            Error::HttpStatus(n) => {
                let d = decimal_text(*n);
                prefixed("HTTP error: status ", d.as_str())
            },
            Error::NotWordPress => String::from_str("site does not appear to be WordPress"),
            Error::InvalidOutputFormat(s) => quoted(
                "invalid output format: '",
                s.as_str(),
                "' (valid: human, json, none)",
            ),
            Error::InvalidOutputDetail(s) => quoted(
                "invalid output detail: '",
                s.as_str(),
                "' (valid: all, nok)",
            ),
            Error::InvalidOutputSort(s) => quoted(
                "invalid output sort: '",
                s.as_str(),
                "' (valid: type, name, status)",
            ),
            Error::OutputFailed(s) => prefixed("output failed: ", s.as_str()),
            Error::SerializationFailed(_) => String::from_str("JSON serialization failed"),
        }
    }
}

} // verus!
