use vstd::prelude::*;

verus! {

/// Whether an HTTP status is a gateway failure (502, 503, 504) that should
/// move the request to the next ranked address; only when `enabled`.
pub fn should_failover_gateway(status: u16, enabled: bool) -> (r: bool)
    ensures
        r <==> enabled && (status == 502 || status == 503 || status == 504),
{
    enabled && (status == 502 || status == 503 || status == 504)
}

/// Whether a transport error of the given kinds should move the request to
/// the next ranked address: connect failures, timeouts, and body or decode
/// errors do; anything else does not.
pub fn transport_error_warrants_failover(is_connect: bool, is_timeout: bool, is_body: bool, is_decode: bool) -> (r: bool)
    ensures
        r <==> is_connect || is_timeout || is_body || is_decode,
{
    is_connect || is_timeout || is_body || is_decode
}

/// What `reqwest::Error::is_connect` answers for an error: whether it is
/// a failure to connect. The answer depends on the error value alone.
pub uninterp spec fn reports_connect(err: reqwest::Error) -> bool;

/// Calls `reqwest::Error::is_connect`; its answer is named by [`reports_connect`].
#[verifier::external_body]
fn reqwest_is_connect(err: &reqwest::Error) -> (r: bool)
    ensures
        r == reports_connect(*err),
{
    err.is_connect()
}

/// What `reqwest::Error::is_timeout` answers for an error: whether it is
/// a timeout. The answer depends on the error value alone.
pub uninterp spec fn reports_timeout(err: reqwest::Error) -> bool;

/// Calls `reqwest::Error::is_timeout`; its answer is named by [`reports_timeout`].
#[verifier::external_body]
fn reqwest_is_timeout(err: &reqwest::Error) -> (r: bool)
    ensures
        r == reports_timeout(*err),
{
    err.is_timeout()
}

/// What `reqwest::Error::is_body` answers for an error: whether it is
/// a request or response body error. The answer depends on the error value alone.
pub uninterp spec fn reports_body(err: reqwest::Error) -> bool;

/// Calls `reqwest::Error::is_body`; its answer is named by [`reports_body`].
#[verifier::external_body]
fn reqwest_is_body(err: &reqwest::Error) -> (r: bool)
    ensures
        r == reports_body(*err),
{
    err.is_body()
}

/// What `reqwest::Error::is_decode` answers for an error: whether it is
/// a response body decoding error. The answer depends on the error value alone.
pub uninterp spec fn reports_decode(err: reqwest::Error) -> bool;

/// Calls `reqwest::Error::is_decode`; its answer is named by [`reports_decode`].
#[verifier::external_body]
fn reqwest_is_decode(err: &reqwest::Error) -> (r: bool)
    ensures
        r == reports_decode(*err),
{
    err.is_decode()
}

/// Whether an HTTP transport error should move the request to the next
/// ranked address: the verdict of [`transport_error_warrants_failover`] on
/// what `reqwest` reports of the error (connect, timeout, body, decode).
pub fn should_failover_transport(err: &reqwest::Error) -> (r: bool)
    ensures
        r <==> reports_connect(*err) || reports_timeout(*err) || reports_body(*err) || reports_decode(*err),
{
    let c = reqwest_is_connect(err);
    let t = reqwest_is_timeout(err);
    let b = reqwest_is_body(err);
    let d = reqwest_is_decode(err);
    transport_error_warrants_failover(c, t, b, d)
}

} // verus!
