use vstd::prelude::*;

use crate::ip::IpAddress;
use crate::policy::should_failover_gateway;
use crate::resolve::ResolveResult;

verus! {

/// The answer to an HTTP request.
#[derive(Debug, Clone)]
pub struct HttpResponse {
    pub status: u16,
    pub body: String,
}

/// What came of sending a request to one address.
#[derive(Clone, Copy, Debug, PartialEq, Eq, Structural)]
pub enum HttpAttemptOutcome {
    /// The server answered with this status.
    Response { status: u16 },
    /// The transport failed; `failover` tells whether the error is one that
    /// warrants trying the next address (see
    /// [`crate::should_failover_transport`]).
    TransportError { failover: bool },
}

/// What to do after an attempt.
#[derive(Clone, Copy, Debug, PartialEq, Eq, Structural)]
pub enum HttpVerdict {
    /// Hand the response to the caller.
    Deliver,
    /// Try the next ranked address.
    TryNext,
    /// Give up with the transport error of this attempt.
    Fail,
}

/// Why a request failed once every ranked address was tried.
#[derive(Clone, Copy, Debug, PartialEq, Eq, Structural)]
pub enum HttpExhausted {
    /// Report the last transport error that caused a failover.
    LastTransportError,
    /// No transport error: report that every address failed.
    AllIpsFailed,
}

/// The verdict on an attempt's outcome: gateway failures (502/503/504, when
/// gateway failover is on) and failover-worthy transport errors move on to
/// the next address; any other response is delivered, even a 4xx or 5xx;
/// any other transport error fails the request.
pub open spec fn http_verdict(outcome: HttpAttemptOutcome, gateway_failover: bool) -> HttpVerdict {
    match outcome {
        HttpAttemptOutcome::Response { status } => if gateway_failover && (status == 502 || status
            == 503 || status == 504) {
            HttpVerdict::TryNext
        } else {
            HttpVerdict::Deliver
        },
        HttpAttemptOutcome::TransportError { failover } => if failover {
            HttpVerdict::TryNext
        } else {
            HttpVerdict::Fail
        },
    }
}

/// Sequential failover of one HTTP request across the ranked addresses.
pub struct HttpFailover {
    ranked: Vec<IpAddress>,
    next: usize,
    transport_error_seen: bool,
    gateway_failover: bool,
}

impl HttpFailover {
    /// The addresses to try, best first.
    pub closed spec fn ranked(&self) -> Seq<IpAddress> {
        self.ranked@
    }

    /// How many addresses have been handed out.
    pub closed spec fn tried(&self) -> nat {
        self.next as nat
    }

    /// Whether a failover-worthy transport error has occurred.
    pub closed spec fn transport_error_seen(&self) -> bool {
        self.transport_error_seen
    }

    /// Whether gateway failures move on to the next address.
    pub closed spec fn gateway_failover(&self) -> bool {
        self.gateway_failover
    }

    /// At most every address has been handed out.
    pub closed spec fn wf(&self) -> bool {
        self.next <= self.ranked@.len()
    }

    /// Plans a request over `resolved`: `None` when failover is off (send
    /// the request directly), else a failover over its ranked addresses.
    pub fn start(resolved: ResolveResult, gateway_failover: bool) -> (r: Option<Self>)
        ensures
            !resolved.failover_enabled ==> r is None,
            resolved.failover_enabled ==> (r matches Some(f) && f.wf() && f.ranked() == resolved.ranked_ips@
                && f.tried() == 0 && !f.transport_error_seen() && f.gateway_failover() == gateway_failover),
    {
        if !resolved.failover_enabled {
            return None;
        }
        Some(
            HttpFailover {
                ranked: resolved.ranked_ips,
                next: 0,
                transport_error_seen: false,
                gateway_failover,
            },
        )
    }

    /// The next address to try, in ranked order, each once; `None` when all
    /// have been tried.
    pub fn next_ip(&mut self) -> (r: Option<IpAddress>)
        requires
            old(self).wf(),
        ensures
            final(self).wf(),
            final(self).ranked() == old(self).ranked(),
            final(self).transport_error_seen() == old(self).transport_error_seen(),
            final(self).gateway_failover() == old(self).gateway_failover(),
            old(self).tried() < old(self).ranked().len() ==> r == Some(old(self).ranked()[old(self).tried() as int])
                && final(self).tried() == old(self).tried() + 1,
            old(self).tried() >= old(self).ranked().len() ==> r is None && final(self).tried() == old(self).tried(),
    {
        if self.next < self.ranked.len() {
            let ip = self.ranked[self.next];
            self.next = self.next + 1;
            Some(ip)
        } else {
            None
        }
    }

    /// Records the outcome of the latest attempt and says what to do.
    pub fn on_outcome(&mut self, outcome: HttpAttemptOutcome) -> (r: HttpVerdict)
        requires
            old(self).wf(),
        ensures
            final(self).wf(),
            final(self).ranked() == old(self).ranked(),
            final(self).tried() == old(self).tried(),
            final(self).gateway_failover() == old(self).gateway_failover(),
            r == http_verdict(outcome, old(self).gateway_failover()),
            final(self).transport_error_seen() == (old(self).transport_error_seen()
                || outcome == (HttpAttemptOutcome::TransportError { failover: true })),
    {
        match outcome {
            HttpAttemptOutcome::Response { status } => {
                if should_failover_gateway(status, self.gateway_failover) {
                    HttpVerdict::TryNext
                } else {
                    HttpVerdict::Deliver
                }
            },
            HttpAttemptOutcome::TransportError { failover } => {
                if failover {
                    self.transport_error_seen = true;
                    HttpVerdict::TryNext
                } else {
                    HttpVerdict::Fail
                }
            },
        }
    }

    /// The failure to report once every address was tried: the last
    /// failover-worthy transport error if there was one, else that all
    /// addresses failed.
    pub fn exhausted(&self) -> (r: HttpExhausted)
        ensures
            self.transport_error_seen() ==> r == HttpExhausted::LastTransportError,
            !self.transport_error_seen() ==> r == HttpExhausted::AllIpsFailed,
    {
        if self.transport_error_seen {
            HttpExhausted::LastTransportError
        } else {
            HttpExhausted::AllIpsFailed
        }
    }
}

/// HTTP failover: an answer from the server is never a reason to try
/// another address, whatever its status, unless gateway failover is on and
/// the status is 502, 503 or 504; and a transport error moves on exactly
/// when it is failover-worthy.
pub proof fn law_http_failover_only_on_transport_or_gateway(status: u16, gateway_failover: bool, failover: bool)
    ensures
        !(gateway_failover && (status == 502 || status == 503 || status == 504)) ==> http_verdict(
            HttpAttemptOutcome::Response { status },
            gateway_failover,
        ) == HttpVerdict::Deliver,
        http_verdict(HttpAttemptOutcome::Response { status }, gateway_failover) != HttpVerdict::Fail,
        (http_verdict(HttpAttemptOutcome::TransportError { failover }, gateway_failover) == HttpVerdict::TryNext)
            <==> failover,
{
}

/// Whether `reqwest::header::HeaderName::from_bytes` accepts `name`.
pub uninterp spec fn valid_header_name(name: Seq<u8>) -> bool;

/// Calls `reqwest::header::HeaderName::from_bytes`: whether it accepts
/// `name`, as named by [`valid_header_name`].
#[verifier::external_body]
fn header_name_ok(name: &[u8]) -> (r: bool)
    ensures
        r == valid_header_name(name@),
{
    reqwest::header::HeaderName::from_bytes(name).is_ok()
}

/// Whether `reqwest::header::HeaderValue::from_str` accepts `value`.
pub uninterp spec fn valid_header_value(value: Seq<char>) -> bool;

/// Calls `reqwest::header::HeaderValue::from_str`: whether it accepts
/// `value`, as named by [`valid_header_value`].
#[verifier::external_body]
fn header_value_ok(value: &str) -> (r: bool)
    ensures
        r == valid_header_value(value@),
{
    reqwest::header::HeaderValue::from_str(value).is_ok()
}

/// Whether a header with this name and value can be sent: the name's UTF-8
/// bytes form a header name and the value a header value.
pub open spec fn header_usable(name: Seq<char>, value: Seq<char>) -> bool {
    valid_header_name(vstd::utf8::encode_utf8(name)) && valid_header_value(value)
}

/// A header pair as text.
pub open spec fn header_view(p: (String, String)) -> (Seq<char>, Seq<char>) {
    (p.0@, p.1@)
}

/// The usable pairs of `headers`, in order.
pub open spec fn usable_headers(headers: Seq<(String, String)>) -> Seq<(Seq<char>, Seq<char>)>
    decreases headers.len(),
{
    if headers.len() == 0 {
        Seq::empty()
    } else {
        let rest = usable_headers(headers.drop_last());
        let last = headers.last();
        if header_usable(last.0@, last.1@) {
            rest.push(header_view(last))
        } else {
            rest
        }
    }
}

/// The headers that a request carries, in order: each usable pair of
/// `headers`; then the idempotency header (name, id), when given and
/// usable; then `content-type` and `accept`, both `application/json`, for
/// a JSON body.
pub open spec fn request_header_list(
    headers: Seq<(String, String)>,
    idempotency: Option<(Seq<char>, Seq<char>)>,
    json_body: bool,
) -> Seq<(Seq<char>, Seq<char>)> {
    usable_headers(headers) + match idempotency {
        Some((name, id)) => if header_usable(name, id) {
            seq![(name, id)]
        } else {
            Seq::empty()
        },
        None => Seq::empty(),
    } + if json_body {
        seq![("content-type"@, "application/json"@), ("accept"@, "application/json"@)]
    } else {
        Seq::empty()
    }
}

fn usable(name: &String, value: &String) -> (r: bool)
    ensures
        r == header_usable(name@, value@),
{
    header_name_ok(name.as_str().as_bytes()) && header_value_ok(value.as_str())
}

/// The headers to send with a request (see [`request_header_list`]).
pub fn request_headers(headers: &Vec<(String, String)>, idempotency: Option<(String, String)>, json_body: bool) -> (r:
    Vec<(String, String)>)
    ensures
        r@.map_values(|p: (String, String)| header_view(p)) == request_header_list(
            headers@,
            match idempotency {
                Some(p) => Some(header_view(p)),
                None => None,
            },
            json_body,
        ),
{
    let mut r: Vec<(String, String)> = Vec::new();
    let mut i: usize = 0;
    while i < headers.len()
        invariant
            i <= headers.len(),
            r@.map_values(|p: (String, String)| header_view(p)) == usable_headers(headers@.take(i as int)),
        decreases headers.len() - i,
    {
        assert(headers@.take(i + 1).drop_last() =~= headers@.take(i as int));
        assert(headers@.take(i + 1).last() == headers@[i as int]);
        let ghost before = r@;
        if usable(&headers[i].0, &headers[i].1) {
            r.push((headers[i].0.clone(), headers[i].1.clone()));
            assert(r@.map_values(|p: (String, String)| header_view(p)) =~= before.map_values(
                |p: (String, String)| header_view(p),
            ).push(header_view(headers@[i as int])));
        }
        i = i + 1;
    }
    assert(headers@.take(headers.len() as int) =~= headers@);
    let ghost base = r@.map_values(|p: (String, String)| header_view(p));
    let ghost idem_view = match &idempotency {
        Some(p) => Some(header_view(*p)),
        None => None,
    };
    let ghost idem_part: Seq<(Seq<char>, Seq<char>)> = match idem_view {
        Some((name, id)) => if header_usable(name, id) {
            seq![(name, id)]
        } else {
            Seq::empty()
        },
        None => Seq::empty(),
    };
    if let Some((name, id)) = idempotency {
        if usable(&name, &id) {
            r.push((name, id));
        }
    }
    assert(r@.map_values(|p: (String, String)| header_view(p)) =~= base + idem_part);
    let ghost with_idem = r@.map_values(|p: (String, String)| header_view(p));
    if json_body {
        r.push((String::from_str("content-type"), String::from_str("application/json")));
        r.push((String::from_str("accept"), String::from_str("application/json")));
        assert(r@.map_values(|p: (String, String)| header_view(p)) =~= with_idem + seq![
            ("content-type"@, "application/json"@),
            ("accept"@, "application/json"@),
        ]);
    } else {
        assert(with_idem =~= with_idem + Seq::<(Seq<char>, Seq<char>)>::empty());
    }
    r
}

} // verus!
