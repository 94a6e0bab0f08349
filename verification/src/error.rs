use vstd::prelude::*;
use vstd::string::*;

verus! {

/// `std::io::Error`, carried through unchanged.
#[verifier::external_type_specification]
#[verifier::external_body]
pub struct ExIoError(std::io::Error);

/// `std::num::ParseIntError`, as produced by parsing a port number.
#[verifier::external_type_specification]
#[verifier::external_body]
pub struct ExParseIntError(std::num::ParseIntError);

/// `url::ParseError`, carried through unchanged.
#[verifier::external_type_specification]
#[verifier::external_body]
pub struct ExUrlParseError(url::ParseError);

/// Every way the proxy's operations can fail.
#[derive(Debug)]
pub enum RetError {
    Unexpected(String),
    UnexpectIO(std::io::Error),
    UrlParseError(url::ParseError),
    AddrParseError(String),
    ParseIntError(std::num::ParseIntError),
}

pub type RetResult<T> = Result<T, RetError>;

/// The text that `url::ParseError`'s `Display` writes for `e`.
pub uninterp spec fn url_error_text(e: url::ParseError) -> Seq<char>;

/// The text that `std::num::ParseIntError`'s `Display` writes for `e`.
pub uninterp spec fn int_error_text(e: std::num::ParseIntError) -> Seq<char>;

/// Writes a `url::ParseError` with its `Display`.
///
/// Trusted: the url source writes one fixed message per variant, so the text
/// is a function of the error alone, named `url_error_text`.
#[verifier::external_body]
fn url_error_display(e: &url::ParseError) -> (r: String)
    ensures
        r@ == url_error_text(*e),
{
    e.to_string()
}

/// Writes a `std::num::ParseIntError` with its `Display`.
///
/// Trusted: std writes a fixed description of the error's kind, so the text is
/// a function of the error alone, named `int_error_text`.
#[verifier::external_body]
fn int_error_display(e: &std::num::ParseIntError) -> (r: String)
    ensures
        r@ == int_error_text(*e),
{
    e.to_string()
}

/// Writes a `std::io::Error` with its `Display`.
///
/// Trusted, with nothing stated: the text of an operating-system error comes
/// from the system and may depend on its locale.
#[verifier::external_body]
fn io_error_display(e: &std::io::Error) -> String {
    e.to_string()
}

impl RetError {
    /// The error's message: a fixed prefix naming the variant, followed by the
    /// text it carries or its cause's own message.
    pub fn message(&self) -> (r: String)
        ensures
            match self {
                RetError::Unexpected(s) => r@ == "Unexpected: "@ + s@,
                RetError::UnexpectIO(_) => exists|t: Seq<char>| r@ == "Unexpected IO: "@ + t,
                RetError::UrlParseError(e) => r@ == "Parse url error: "@ + url_error_text(*e),
                RetError::AddrParseError(s) => r@ == "Addr parse url error: "@ + s@,
                RetError::ParseIntError(e) => r@ == "Parse int error: "@ + int_error_text(*e),
            },
    {
        match self {
            RetError::Unexpected(s) => {
                let mut r = String::from_str("Unexpected: ");
                r.append(s.as_str());
                r
            },
            RetError::UnexpectIO(e) => {
                let mut r = String::from_str("Unexpected IO: ");
                let t = io_error_display(e);
                r.append(t.as_str());
                r
            },
            RetError::UrlParseError(e) => {
                let mut r = String::from_str("Parse url error: ");
                let t = url_error_display(e);
                r.append(t.as_str());
                r
            },
            RetError::AddrParseError(s) => {
                let mut r = String::from_str("Addr parse url error: ");
                r.append(s.as_str());
                r
            },
            RetError::ParseIntError(e) => {
                let mut r = String::from_str("Parse int error: ");
                let t = int_error_display(e);
                r.append(t.as_str());
                r
            },
        }
    }
}

impl From<url::ParseError> for RetError {
    fn from(e: url::ParseError) -> (r: Self) {
        RetError::UrlParseError(e)
    }
}

impl vstd::std_specs::convert::FromSpecImpl<url::ParseError> for RetError {
    open spec fn obeys_from_spec() -> bool {
        true
    }

    open spec fn from_spec(e: url::ParseError) -> Self {
        RetError::UrlParseError(e)
    }
}

impl From<std::num::ParseIntError> for RetError {
    fn from(e: std::num::ParseIntError) -> (r: Self) {
        RetError::ParseIntError(e)
    }
}

impl vstd::std_specs::convert::FromSpecImpl<std::num::ParseIntError> for RetError {
    open spec fn obeys_from_spec() -> bool {
        true
    }

    open spec fn from_spec(e: std::num::ParseIntError) -> Self {
        RetError::ParseIntError(e)
    }
}

} // verus!
