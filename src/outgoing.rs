use vstd::prelude::*;
use vstd::utf8::encode_utf8;
use crate::headers::{pair_view, HeaderSpec, Headers};
use crate::request::HttpRequest;

verus! {

/// Host component of a URL as the HTTP client parses it: `None` when the URL
/// does not parse, the empty text when it parses without a host.
pub uninterp spec fn url_host(url: Seq<char>) -> Option<Seq<char>>;

/// Relies on `hyper::Uri`'s `FromStr` to parse the URL and on `Uri::host` for
/// its host (empty when absent). An empty string never parses.
#[verifier::external_body]
fn parse_url_host(url: &str) -> (r: Option<String>)
    ensures
        match r {
            Some(h) => url_host(url@) == Some(h@),
            None => url_host(url@) is None,
        },
        url@.len() == 0 ==> r is None,
{
    match url.parse::<hyper::Uri>() {
        Ok(uri) => Some(uri.host().unwrap_or_default().to_string()),
        Err(_) => None,
    }
}

pub open spec fn host_name() -> Seq<char> {
    "Host"@
}

pub open spec fn content_length_name() -> Seq<char> {
    "Content-Length"@
}

pub open spec fn user_agent_name() -> Seq<char> {
    "User-Agent"@
}

pub open spec fn user_agent_text() -> Seq<char> {
    "PhatContract/0.1.0"@
}

/// Whether some header is named exactly `name` (case matters).
pub open spec fn has_name(h: Seq<HeaderSpec>, name: Seq<char>) -> bool {
    exists|i: int| 0 <= i < h.len() && #[trigger] h[i].0 == name
}

pub open spec fn digit_char(d: nat) -> char {
    seq!['0', '1', '2', '3', '4', '5', '6', '7', '8', '9'][d as int]
}

/// Decimal digits of `n`, without leading zeros.
pub open spec fn decimal(n: nat) -> Seq<char>
    decreases n,
{
    if n < 10 {
        seq![digit_char(n)]
    } else {
        decimal(n / 10).push(digit_char(n % 10))
    }
}

/// The body sent: the text body's UTF-8 bytes when there is one, else the raw body.
pub open spec fn resolved_body(text_body: Option<Seq<char>>, body: Seq<u8>) -> Seq<u8> {
    match text_body {
        Some(t) => encode_utf8(t),
        None => body,
    }
}

/// The caller's headers in their order, then `Host`, `Content-Length` and
/// `User-Agent`, each only where the caller supplied no header of exactly
/// that name.
pub open spec fn with_defaults(h: Seq<HeaderSpec>, host: Seq<char>, body_len: nat) -> Seq<HeaderSpec> {
    let h1 = if has_name(h, host_name()) {
        h
    } else {
        h.push((host_name(), host))
    };
    let h2 = if has_name(h, content_length_name()) {
        h1
    } else {
        h1.push((content_length_name(), decimal(body_len)))
    };
    if has_name(h, user_agent_name()) {
        h2
    } else {
        h2.push((user_agent_name(), user_agent_text()))
    }
}

/// The request as the transport is to send it.
pub struct OutgoingRequest {
    pub method: String,
    pub url: String,
    pub headers: Headers,
    pub body: Vec<u8>,
}

/// Why a request could not be sent or completed.
pub enum RequestError {
    /// The URL does not parse; holds the URL.
    UrlParse(String),
    /// The transport failed to build or send the request.
    Transport(String),
    /// Reading the response body failed part way.
    BodyRead(String),
    /// The deadline passed before the work finished.
    TimedOut,
}

fn digit_str(d: usize) -> (r: &'static str)
    requires
        d < 10,
    ensures
        r@ == seq![digit_char(d as nat)],
{
    proof {
        reveal_strlit("0");
        reveal_strlit("1");
        reveal_strlit("2");
        reveal_strlit("3");
        reveal_strlit("4");
        reveal_strlit("5");
        reveal_strlit("6");
        reveal_strlit("7");
        reveal_strlit("8");
        reveal_strlit("9");
    }
    assert(seq!['0', '1', '2', '3', '4', '5', '6', '7', '8', '9'][d as int] == digit_char(d as nat));
    if d == 0 {
        "0"
    } else if d == 1 {
        "1"
    } else if d == 2 {
        "2"
    } else if d == 3 {
        "3"
    } else if d == 4 {
        "4"
    } else if d == 5 {
        "5"
    } else if d == 6 {
        "6"
    } else if d == 7 {
        "7"
    } else if d == 8 {
        "8"
    } else {
        "9"
    }
}

/// `n` written in decimal.
pub fn decimal_string(n: usize) -> (r: String)
    ensures
        r@ == decimal(n as nat),
    decreases n,
{
    if n < 10 {
        String::from_str(digit_str(n))
    } else {
        let mut s = decimal_string(n / 10);
        s.append(digit_str(n % 10));
        s
    }
}

/// The fixed identifier sent as `User-Agent` when the caller gives none.
pub fn default_user_agent() -> (r: String)
    ensures
        r@ == user_agent_text(),
{
    String::from_str("PhatContract/0.1.0")
}

/// Whether some header of `pairs` is named exactly `name`.
pub fn contains_name(pairs: &Vec<(String, String)>, name: &String) -> (r: bool)
    ensures
        r == has_name(pairs@.map_values(|p: (String, String)| pair_view(p)), name@),
{
    let ghost h = pairs@.map_values(|p: (String, String)| pair_view(p));
    let mut i: usize = 0;
    while i < pairs.len()
        invariant
            i <= pairs@.len(),
            h == pairs@.map_values(|p: (String, String)| pair_view(p)),
            forall|j: int| 0 <= j < i ==> #[trigger] h[j].0 != name@,
        decreases pairs@.len() - i,
    {
        if pairs[i].0 == *name {
            assert(h[i as int].0 == name@);
            return true;
        }
        i = i + 1;
    }
    false
}

/// The body to send: the text body's UTF-8 bytes when present, else `body`.
pub fn resolve_body(text_body: Option<String>, body: Vec<u8>) -> (r: Vec<u8>)
    ensures
        r@ == resolved_body(
            match text_body {
                Some(t) => Some(t@),
                None => None,
            },
            body@,
        ),
{
    match text_body {
        Some(t) => t.as_str().as_bytes_vec(),
        None => body,
    }
}

/// The outgoing request for `req`, given the host of its URL.
pub fn outgoing_with_host(req: HttpRequest, host: String) -> (r: OutgoingRequest)
    ensures
        r.method@ == req.method@,
        r.url@ == req.url@,
        r.body@ == resolved_body(
            match req.text_body {
                Some(t) => Some(t@),
                None => None,
            },
            req.body@,
        ),
        r.headers@ == with_defaults(req.headers@, host@, r.body@.len()),
{
    let HttpRequest { url, method, headers, body, text_body, timeout_ms: _ } = req;
    let body = resolve_body(text_body, body);
    let mut pairs = headers.into_pairs();
    let ghost h = headers@;
    let ghost n = body@.len();
    let host_key = String::from_str("Host");
    let length_key = String::from_str("Content-Length");
    let agent_key = String::from_str("User-Agent");
    let has_host = contains_name(&pairs, &host_key);
    let has_length = contains_name(&pairs, &length_key);
    let has_agent = contains_name(&pairs, &agent_key);
    let ghost hv = host@;
    assert(pairs@.map_values(|p: (String, String)| pair_view(p)) == h);
    if !has_host {
        let ghost prev = pairs@;
        pairs.push((host_key, host));
        assert(pairs@.map_values(|p: (String, String)| pair_view(p)) =~= prev.map_values(
            |p: (String, String)| pair_view(p),
        ).push((host_name(), hv)));
    }
    if !has_length {
        let ghost prev = pairs@;
        let len_text = decimal_string(body.len());
        pairs.push((length_key, len_text));
        assert(pairs@.map_values(|p: (String, String)| pair_view(p)) =~= prev.map_values(
            |p: (String, String)| pair_view(p),
        ).push((content_length_name(), decimal(n))));
    }
    if !has_agent {
        let ghost prev = pairs@;
        let agent = default_user_agent();
        pairs.push((agent_key, agent));
        assert(pairs@.map_values(|p: (String, String)| pair_view(p)) =~= prev.map_values(
            |p: (String, String)| pair_view(p),
        ).push((user_agent_name(), user_agent_text())));
    }
    let out = Headers::from_pairs(pairs);
    assert(out@ =~= with_defaults(h, hv, n));
    OutgoingRequest { method, url, headers: out, body }
}

/// Prepares `req` for sending: fails with `UrlParse` exactly when its URL
/// does not parse, and otherwise fills in the defaults with the URL's host.
pub fn build_outgoing(req: HttpRequest) -> (r: Result<OutgoingRequest, RequestError>)
    ensures
        match r {
            Ok(o) => {
                &&& url_host(req.url@) is Some
                &&& o.method@ == req.method@
                &&& o.url@ == req.url@
                &&& o.body@ == resolved_body(
                    match req.text_body {
                        Some(t) => Some(t@),
                        None => None,
                    },
                    req.body@,
                )
                &&& o.headers@ == with_defaults(req.headers@, url_host(req.url@)->0, o.body@.len())
            },
            Err(e) => url_host(req.url@) is None && (e matches RequestError::UrlParse(u) && u@ == req.url@),
        },
{
    match parse_url_host(req.url.as_str()) {
        Some(host) => Ok(outgoing_with_host(req, host)),
        None => {
            let u = req.url;
            Err(RequestError::UrlParse(u))
        },
    }
}

/// The caller's headers reach the transport first, in the order given and
/// with duplicates kept; defaults only follow them.
pub proof fn lemma_caller_headers_first(h: Seq<HeaderSpec>, host: Seq<char>, body_len: nat)
    ensures
        with_defaults(h, host, body_len).subrange(0, h.len() as int) == h,
        with_defaults(h, host, body_len).len() <= h.len() + 3,
{
    let r = with_defaults(h, host, body_len);
    assert(r.subrange(0, h.len() as int) =~= h);
}

/// A default `Host` is added exactly when no caller header is named `Host`
/// with that exact spelling: a caller `Host` leaves the defaults without
/// one, and without it the first default is `Host` with the URL's host.
pub proof fn lemma_host_default(h: Seq<HeaderSpec>, host: Seq<char>, body_len: nat)
    ensures
        has_name(h, host_name()) ==> forall|i: int|
            h.len() <= i < with_defaults(h, host, body_len).len() ==> (#[trigger] with_defaults(
                h,
                host,
                body_len,
            )[i]).0 != host_name(),
        !has_name(h, host_name()) ==> with_defaults(h, host, body_len)[h.len() as int] == (
        host_name(),
        host,
        ),
{
    reveal_strlit("Host");
    reveal_strlit("Content-Length");
    reveal_strlit("User-Agent");
    assert(host_name()[2] != content_length_name()[2]);
    assert(host_name().len() != user_agent_name().len());
}

/// Name matching is case-sensitive: a caller header `host` does not stand
/// for `Host`, so the default `Host` is still added after it.
pub proof fn lemma_lowercase_host_kept(value: Seq<char>, host: Seq<char>, body_len: nat)
    ensures
        with_defaults(seq![("host"@, value)], host, body_len)[0] == ("host"@, value),
        with_defaults(seq![("host"@, value)], host, body_len)[1] == (host_name(), host),
{
    reveal_strlit("host");
    reveal_strlit("Host");
    let h = seq![("host"@, value)];
    assert(h[0].0[0] != host_name()[0]);
    assert(!has_name(h, host_name()));
    lemma_host_default(h, host, body_len);
    lemma_caller_headers_first(h, host, body_len);
    assert(with_defaults(h, host, body_len).subrange(0, 1)[0] == h[0]);
}

/// A text body replaces the raw body entirely, and the default
/// `Content-Length` is the length of its UTF-8 encoding.
pub proof fn lemma_text_body_wins(
    text: Seq<char>,
    body: Seq<u8>,
    h: Seq<HeaderSpec>,
    host: Seq<char>,
)
    requires
        !has_name(h, content_length_name()),
    ensures
        resolved_body(Some(text), body) == encode_utf8(text),
        with_defaults(h, host, resolved_body(Some(text), body).len()).contains(
            (content_length_name(), decimal(encode_utf8(text).len())),
        ),
{
    let r = with_defaults(h, host, encode_utf8(text).len());
    let h1 = if has_name(h, host_name()) {
        h
    } else {
        h.push((host_name(), host))
    };
    let k = h1.len() as int;
    assert(r[k] == (content_length_name(), decimal(encode_utf8(text).len())));
}

} // verus!
