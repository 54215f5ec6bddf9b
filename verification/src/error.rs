use vstd::prelude::*;
use vstd::string::*;
use crate::text::concat2;

verus! {

/// The kind of a failure.
#[derive(PartialEq, Eq, Structural, Clone, Copy, Debug)]
pub enum ErrorKind {
    Network,
    Config,
    Generic,
}

/// A failure of the manager, with its message.
#[derive(Debug)]
pub enum WwError {
    Network(String),
    Config(String),
    Generic(String),
}

impl View for WwError {
    type V = (ErrorKind, Seq<char>);

    open spec fn view(&self) -> (ErrorKind, Seq<char>) {
        match self {
            WwError::Network(m) => (ErrorKind::Network, m@),
            WwError::Config(m) => (ErrorKind::Config, m@),
            WwError::Generic(m) => (ErrorKind::Generic, m@),
        }
    }
}

/// The text shown for an error: network and configuration errors are
/// prefixed with their kind, other errors are their message alone.
pub open spec fn error_text(e: (ErrorKind, Seq<char>)) -> Seq<char> {
    match e.0 {
        ErrorKind::Network => "Network error: "@ + e.1,
        ErrorKind::Config => "Config error: "@ + e.1,
        ErrorKind::Generic => e.1,
    }
}

impl WwError {
    /// The text shown for this error.
    pub fn message(&self) -> (r: String)
        ensures
            r@ == error_text(self@),
    {
        match self {
            WwError::Network(m) => concat2("Network error: ", m.as_str()),
            WwError::Config(m) => concat2("Config error: ", m.as_str()),
            WwError::Generic(m) => m.clone(),
        }
    }
}

/// A network error with the message `m`.
pub fn network_error(m: &str) -> (r: WwError)
    ensures
        r@ == (ErrorKind::Network, m@),
{
    WwError::Network(m.to_owned())
}

/// A configuration error with the message `m`.
pub fn config_error(m: &str) -> (r: WwError)
    ensures
        r@ == (ErrorKind::Config, m@),
{
    WwError::Config(m.to_owned())
}

/// A generic error with the message `m`.
pub fn generic_error(m: &str) -> (r: WwError)
    ensures
        r@ == (ErrorKind::Generic, m@),
{
    WwError::Generic(m.to_owned())
}

/// The error for a URL that could not be parsed or joined, from the parser's
/// description `detail`.
pub fn url_parse_failure(detail: &str) -> (r: WwError)
    ensures
        r@ == (ErrorKind::Network, "URL parse error: "@ + detail@),
{
    WwError::Network(concat2("URL parse error: ", detail))
}

/// The error for a JSON text that could not be read or written, from the
/// parser's description `detail`.
pub fn json_failure(detail: &str) -> (r: WwError)
    ensures
        r@ == (ErrorKind::Generic, "JSON error: "@ + detail@),
{
    WwError::Generic(concat2("JSON error: ", detail))
}

} // verus!
