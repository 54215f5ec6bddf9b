//! Resolving download addresses against a CDN base with the `url` crate.

use vstd::prelude::*;
use crate::error::{WwError, ErrorKind};

verus! {

/// What `url::Url::parse` makes of `s`: the serialization of the URL, or the
/// description of the error it refuses `s` with.
pub uninterp spec fn url_parse_of(s: Seq<char>) -> Result<Seq<char>, Seq<char>>;

/// What `url::Url::join` makes of `rel` against the URL that `url::Url::parse`
/// makes of `base`: the serialization of the result, or the description of
/// the error with which either call refuses its input.
pub uninterp spec fn url_join_of(base: Seq<char>, rel: Seq<char>) -> Result<Seq<char>, Seq<char>>;

/// Whether `d` is one of the descriptions that `url::ParseError` displays.
pub open spec fn is_parse_error_description(d: Seq<char>) -> bool {
    ||| d == "empty host"@
    ||| d == "invalid international domain name"@
    ||| d == "invalid port number"@
    ||| d == "invalid IPv4 address"@
    ||| d == "invalid IPv6 address"@
    ||| d == "invalid domain character"@
    ||| d == "relative URL without a base"@
    ||| d == "relative URL with a cannot-be-a-base base"@
    ||| d == "a cannot-be-a-base URL doesn’t have a host to set"@
    ||| d == "URLs more than 4 GB are not supported"@
}

/// The error the manager reports for a URL refused with the description `d`.
pub open spec fn url_error(d: Seq<char>) -> (ErrorKind, Seq<char>) {
    (ErrorKind::Network, "URL parse error: "@ + d)
}

/// Calls `url::Url::parse` on `s` and gives back the serialization of the URL
/// (`Url::to_string`), or the description of the error (`ParseError`'s
/// `Display`). The contract ties the result to `s` through the name
/// `url_parse_of`, and states that an error's description is one of those
/// that `ParseError` displays; the URL standard that the parser follows is
/// not stated.
#[verifier::external_body]
fn parse_url(s: &str) -> (r: Result<String, String>)
    ensures
        match r {
            Ok(t) => url_parse_of(s@) == Ok::<Seq<char>, Seq<char>>(t@),
            Err(d) => url_parse_of(s@) == Err::<Seq<char>, Seq<char>>(d@) && is_parse_error_description(d@),
        },
{
    match url::Url::parse(s) {
        Ok(u) => Ok(u.to_string()),
        Err(e) => Err(e.to_string()),
    }
}

/// Calls `url::Url::join` with `rel` on the URL that `url::Url::parse` makes of
/// `base` (the parse converts the argument; its error is passed on), and
/// gives back the serialization of the result or the description of the
/// error. The contract ties the result to its arguments through the name
/// `url_join_of`, and states that an error's description is one of those that
/// `ParseError` displays.
#[verifier::external_body]
fn join_url(base: &str, rel: &str) -> (r: Result<String, String>)
    ensures
        match r {
            Ok(t) => url_join_of(base@, rel@) == Ok::<Seq<char>, Seq<char>>(t@),
            Err(d) => url_join_of(base@, rel@) == Err::<Seq<char>, Seq<char>>(d@) && is_parse_error_description(d@),
        },
{
    match url::Url::parse(base) {
        Ok(u) => match u.join(rel) {
            Ok(j) => Ok(j.to_string()),
            Err(e) => Err(e.to_string()),
        },
        Err(e) => Err(e.to_string()),
    }
}

/// Whether `s` parses as a URL; when it does not, the network error that the
/// manager reports for it, which carries the parser's description.
pub fn check_url(s: &str) -> (r: Result<(), WwError>)
    ensures
        r is Ok <==> url_parse_of(s@) is Ok,
        r matches Err(e) ==> url_parse_of(s@) matches Err(d) && e@ == url_error(d) && is_parse_error_description(d),
{
    match parse_url(s) {
        Ok(_) => Ok(()),
        Err(d) => Err(crate::error::url_parse_failure(d.as_str())),
    }
}

/// `rel` resolved against the URL `base`; on failure, the network error that
/// the manager reports for it, which carries the parser's description.
pub fn resolve_url(base: &str, rel: &str) -> (r: Result<String, WwError>)
    ensures
        match r {
            Ok(t) => url_join_of(base@, rel@) == Ok::<Seq<char>, Seq<char>>(t@),
            Err(e) => url_join_of(base@, rel@) matches Err(d) && e@ == url_error(d) && is_parse_error_description(d),
        },
{
    match join_url(base, rel) {
        Ok(t) => Ok(t),
        Err(d) => Err(crate::error::url_parse_failure(d.as_str())),
    }
}

/// `rel` resolved against the URL `base`, when that succeeds.
pub fn try_resolve_url(base: &str, rel: &str) -> (r: Option<String>)
    ensures
        match r {
            Some(t) => url_join_of(base@, rel@) == Ok::<Seq<char>, Seq<char>>(t@),
            None => url_join_of(base@, rel@) is Err,
        },
{
    match join_url(base, rel) {
        Ok(t) => Some(t),
        Err(_) => None,
    }
}

} // verus!
