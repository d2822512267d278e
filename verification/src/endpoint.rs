use vstd::prelude::*;

use crate::text::string_is;

use crate::error::Error;

verus! {

/// The URL schemes that the failover client serves.
#[derive(Clone, Copy, Debug, PartialEq, Eq, Structural)]
pub enum Scheme {
    Http,
    Https,
    Ws,
    Wss,
}

/// The port a scheme uses when the URL names none.
pub open spec fn scheme_default_port(s: Scheme) -> u16 {
    match s {
        Scheme::Http | Scheme::Ws => 80,
        Scheme::Https | Scheme::Wss => 443,
    }
}

impl Scheme {
    /// 80 for `http` and `ws`, 443 for `https` and `wss`.
    pub fn default_port(self) -> (r: u16)
        ensures
            r == scheme_default_port(self),
    {
        match self {
            Scheme::Http | Scheme::Ws => 80,
            Scheme::Https | Scheme::Wss => 443,
        }
    }

    /// Whether the scheme runs over TLS (`https`, `wss`).
    pub fn is_tls(self) -> (r: bool)
        ensures
            r <==> (self == Scheme::Https || self == Scheme::Wss),
    {
        match self {
            Scheme::Https | Scheme::Wss => true,
            _ => false,
        }
    }
}

/// Where a URL points: host, port (the scheme's default when the URL names
/// none), scheme and the URL's ASCII origin.
#[derive(Clone, Debug)]
pub struct Endpoint {
    pub host: String,
    pub port: u16,
    pub scheme: Scheme,
    pub origin: String,
}

/// What the endpoint logic reads of a parsed URL.
#[derive(Clone, Debug)]
pub struct UrlParts {
    /// The scheme, without the `:`.
    pub scheme: String,
    /// The host, when the URL has one.
    pub host: Option<String>,
    /// The port, when the URL names one other than the scheme's default.
    pub port: Option<u16>,
    /// The ASCII serialization of the URL's origin.
    pub origin: String,
}

/// The mathematical content of [`UrlParts`].
pub struct UrlPartsView {
    pub scheme: Seq<char>,
    pub host: Option<Seq<char>>,
    pub port: Option<u16>,
    pub origin: Seq<char>,
}

impl View for UrlParts {
    type V = UrlPartsView;

    open spec fn view(&self) -> UrlPartsView {
        UrlPartsView {
            scheme: self.scheme@,
            host: match self.host {
                Some(h) => Some(h@),
                None => None,
            },
            port: self.port,
            origin: self.origin@,
        }
    }
}

/// What `url::Url::parse` makes of `input`: `None` when it does not parse,
/// otherwise the parts that the endpoint logic reads.
pub uninterp spec fn parsed_url(input: Seq<char>) -> Option<UrlPartsView>;

/// Calls `url::Url::parse` on `input` and reads the scheme, host, port and
/// origin of the URL it returns. Claims only that the outcome is a function
/// of `input`, named by [`parsed_url`].
#[verifier::external_body]
fn parse_url(input: &str) -> (r: Result<UrlParts, url::ParseError>)
    ensures
        r is Ok <==> parsed_url(input@) is Some,
        r matches Ok(p) ==> p@ == parsed_url(input@).unwrap(),
{
    match url::Url::parse(input) {
        Ok(u) => Ok(
            UrlParts {
                scheme: u.scheme().to_string(),
                host: match u.host_str() {
                    Some(h) => Some(h.to_string()),
                    None => None,
                },
                port: u.port(),
                origin: u.origin().ascii_serialization(),
            },
        ),
        Err(e) => Err(e),
    }
}

/// The scheme that `name` spells, if the client serves it.
pub open spec fn scheme_named(name: Seq<char>) -> Option<Scheme> {
    if name == "http"@ {
        Some(Scheme::Http)
    } else if name == "https"@ {
        Some(Scheme::Https)
    } else if name == "ws"@ {
        Some(Scheme::Ws)
    } else if name == "wss"@ {
        Some(Scheme::Wss)
    } else {
        None
    }
}

/// How a parsed URL turns into an endpoint.
pub enum UrlVerdict {
    /// The scheme is not one the client serves.
    UnsupportedScheme,
    /// The URL has no host.
    MissingHost,
    /// An endpoint with this scheme and port.
    Accepted(Scheme, u16),
}

/// The verdict on a parsed URL.
pub open spec fn url_verdict(p: UrlPartsView) -> UrlVerdict {
    match scheme_named(p.scheme) {
        None => UrlVerdict::UnsupportedScheme,
        Some(s) => match p.host {
            None => UrlVerdict::MissingHost,
            Some(_) => UrlVerdict::Accepted(
                s,
                match p.port {
                    Some(port) => port,
                    None => scheme_default_port(s),
                },
            ),
        },
    }
}

/// `r` is what a URL with parts `p` gives: the endpoint, or the error that
/// says why there is none.
pub open spec fn endpoint_result_for(p: UrlPartsView, r: Result<Endpoint, Error>) -> bool {
    match url_verdict(p) {
        UrlVerdict::UnsupportedScheme => r matches Err(Error::WebSocket(m)) && m@ == "unsupported scheme: "@
            + p.scheme,
        UrlVerdict::MissingHost => r matches Err(Error::WebSocket(m)) && m@ == "URL missing host"@,
        UrlVerdict::Accepted(s, port) => r matches Ok(ep) && ep.scheme == s && ep.port == port
            && p.host == Some(ep.host@) && ep.origin@ == p.origin,
    }
}

/// The endpoint of an already parsed URL: a parse error becomes
/// [`Error::Url`]; otherwise see [`endpoint_result_for`].
pub fn endpoint_from_url(parsed: Result<UrlParts, url::ParseError>) -> (r: Result<Endpoint, Error>)
    ensures
        parsed matches Err(e) ==> r matches Err(Error::Url(e2)) && e2 == e,
        parsed matches Ok(p) ==> endpoint_result_for(p@, r),
{
    let parts = match parsed {
        Ok(p) => p,
        Err(e) => return Err(Error::Url(e)),
    };
    let scheme = if string_is(&parts.scheme, "http") {
        Scheme::Http
    } else if string_is(&parts.scheme, "https") {
        Scheme::Https
    } else if string_is(&parts.scheme, "ws") {
        Scheme::Ws
    } else if string_is(&parts.scheme, "wss") {
        Scheme::Wss
    } else {
        let msg = String::from_str("unsupported scheme: ").concat(parts.scheme.as_str());
        return Err(Error::WebSocket(msg));
    };
    let host = match parts.host {
        Some(h) => h,
        None => return Err(Error::WebSocket(String::from_str("URL missing host"))),
    };
    let port = match parts.port {
        Some(p) => p,
        None => scheme.default_port(),
    };
    Ok(Endpoint { host, port, scheme, origin: parts.origin })
}

/// Parses `url` into the endpoint that the failover logic connects to.
pub fn parse_endpoint(url: &str) -> (r: Result<Endpoint, Error>)
    ensures
        parsed_url(url@) is None ==> r matches Err(Error::Url(_)),
        parsed_url(url@) matches Some(p) ==> endpoint_result_for(p, r),
{
    endpoint_from_url(parse_url(url))
}

/// Endpoints: a URL that names no port gets port 80 for `http` and `ws`
/// and port 443 for `https` and `wss`; a URL that names a port keeps it.
pub proof fn law_endpoint_port(p: UrlPartsView, r: Result<Endpoint, Error>)
    requires
        endpoint_result_for(p, r),
        p.host is Some,
    ensures
        p.port is None && (p.scheme == "http"@ || p.scheme == "ws"@) ==> (r matches Ok(ep) && ep.port == 80),
        p.port is None && (p.scheme == "https"@ || p.scheme == "wss"@) ==> (r matches Ok(ep) && ep.port == 443),
        p.port is Some && (p.scheme == "http"@ || p.scheme == "ws"@ || p.scheme == "https"@ || p.scheme
            == "wss"@) ==> (r matches Ok(ep) && ep.port == p.port.unwrap()),
        p.scheme == "http"@ ==> (r matches Ok(ep) && ep.scheme == Scheme::Http),
{
    reveal_strlit("http");
    reveal_strlit("https");
    reveal_strlit("ws");
    reveal_strlit("wss");
    assert("http"@ != "https"@) by {
        assert("http"@.len() != "https"@.len());
    }
    assert("ws"@ != "http"@ && "ws"@ != "https"@) by {
        assert("ws"@.len() != "http"@.len() && "ws"@.len() != "https"@.len());
    }
    assert("wss"@ != "http"@ && "wss"@ != "https"@ && "wss"@ != "ws"@) by {
        assert("wss"@.len() != "ws"@.len() && "wss"@[0] != "http"@[0] && "wss"@[0] != "https"@[0]);
    }
}

} // verus!
