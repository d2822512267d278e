use vstd::prelude::*;

use reqwest::Error as ReqwestError;
use std::io::Error as IoError;

verus! {

#[verifier::external_type_specification]
#[verifier::external_body]
pub struct ExUrlParseError(url::ParseError);

#[verifier::external_type_specification]
#[verifier::external_body]
pub struct ExIoError(IoError);

#[verifier::external_type_specification]
#[verifier::external_body]
pub struct ExReqwestError(ReqwestError);

/// Why a resolution, request or connect failed.
#[derive(Debug)]
pub enum Error {
    /// The URL did not parse.
    Url(url::ParseError),
    /// The DNS lookup itself failed.
    Dns { host: String, port: u16, source: IoError },
    /// The DNS lookup returned no address.
    NoAddresses { host: String, port: u16 },
    /// Every ranked address was tried and none answered.
    AllIpsFailed { host: String, port: u16 },
    /// The HTTP request failed.
    Http(ReqwestError),
    /// The WebSocket connect failed (or the URL does not fit one).
    WebSocket(String),
    /// A header name was not valid.
    InvalidHeader,
}

} // verus!
