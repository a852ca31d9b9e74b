//! Outbound HTTP policy for the AI proxy: which URLs may be fetched, which
//! hosts they may reach, which request headers may be forwarded, how
//! redirects are followed, and how the replies are handed back.
use vstd::prelude::*;

use crate::text::{
    chars_eq, chars_of, extend_chars, lower, string_of_all, trim, trim_chars, trim_end_char,
    trim_end_char_len,
};

verus! {

// ------------------------------------------------------------------
// Host names and addresses
// ------------------------------------------------------------------

/// Cloud metadata host names that are never reachable, whatever their case.
pub open spec fn blocked_host_name(host: Seq<char>) -> bool {
    let h = lower(host);
    h == "metadata.google.internal"@ || h == "metadata"@ || h == "metadata.azure.com"@
}

/// Whether `host` names a cloud metadata service.
pub fn is_blocked_host_name(host: &str) -> (r: bool)
    ensures
        r == blocked_host_name(host@),
{
    let chars = chars_of(host);
    let h = crate::text::lower_chars(chars.as_slice());
    chars_eq(h.as_slice(), chars_of("metadata.google.internal").as_slice()) || chars_eq(
        h.as_slice(),
        chars_of("metadata").as_slice(),
    ) || chars_eq(h.as_slice(), chars_of("metadata.azure.com").as_slice())
}

/// How far an address is from the public internet.
#[derive(PartialEq, Eq, Structural, Clone, Copy, Debug)]
pub enum IpKind {
    Public,
    Private,
    Loopback,
    BlockedMetadata,
}

/// An IP address: four octets, or eight 16-bit segments.
#[derive(PartialEq, Eq, Structural, Clone, Copy, Debug)]
pub enum IpAddress {
    V4(u8, u8, u8, u8),
    V6(u16, u16, u16, u16, u16, u16, u16, u16),
}

/// The kind of an IPv4 address: link-local (169.254/16, where cloud metadata
/// lives) is blocked; loopback (127/8), unspecified, broadcast and multicast
/// (224/4) count as loopback; RFC 1918, CGNAT (100.64/10) and benchmarking
/// (198.18/15) ranges are private.
pub open spec fn v4_kind(a: u8, b: u8, c: u8, d: u8) -> IpKind {
    if a == 169 && b == 254 {
        IpKind::BlockedMetadata
    } else if a == 127 || (a == 0 && b == 0 && c == 0 && d == 0) || (a == 255 && b == 255 && c
        == 255 && d == 255) || (224 <= a <= 239) {
        IpKind::Loopback
    } else if a == 10 || (a == 172 && 16 <= b <= 31) || (a == 192 && b == 168) || (a == 100 && 64
        <= b <= 127) || (a == 198 && (b == 18 || b == 19)) {
        IpKind::Private
    } else {
        IpKind::Public
    }
}

/// The kind of an IPv6 address: `::1`, `::` and multicast (ff00::/8) count as
/// loopback; the AWS metadata prefix fd00:ec2::/32 and link-local fe80::/10
/// are blocked; unique-local fc00::/7 is private.
pub open spec fn v6_kind(s0: u16, s1: u16, s2: u16, s3: u16, s4: u16, s5: u16, s6: u16, s7: u16) -> IpKind {
    let zero6 = s0 == 0 && s1 == 0 && s2 == 0 && s3 == 0 && s4 == 0 && s5 == 0 && s6 == 0;
    if (zero6 && s7 == 1) || (zero6 && s7 == 0) || (s0 & 0xff00u16) == 0xff00u16 {
        IpKind::Loopback
    } else if s0 == 0xfd00u16 && s1 == 0xec2u16 {
        IpKind::BlockedMetadata
    } else if (s0 & 0xffc0u16) == 0xfe80u16 {
        IpKind::BlockedMetadata
    } else if (s0 & 0xfe00u16) == 0xfc00u16 {
        IpKind::Private
    } else {
        IpKind::Public
    }
}

pub open spec fn kind_of(ip: IpAddress) -> IpKind {
    match ip {
        IpAddress::V4(a, b, c, d) => v4_kind(a, b, c, d),
        IpAddress::V6(s0, s1, s2, s3, s4, s5, s6, s7) => v6_kind(s0, s1, s2, s3, s4, s5, s6, s7),
    }
}

/// The kind of an address.
pub fn ip_kind(ip: IpAddress) -> (r: IpKind)
    ensures
        r == kind_of(ip),
{
    match ip {
        IpAddress::V4(a, b, c, d) => {
            if a == 169 && b == 254 {
                IpKind::BlockedMetadata
            } else if a == 127 || (a == 0 && b == 0 && c == 0 && d == 0) || (a == 255 && b == 255
                && c == 255 && d == 255) || (224 <= a && a <= 239) {
                IpKind::Loopback
            } else if a == 10 || (a == 172 && 16 <= b && b <= 31) || (a == 192 && b == 168) || (a
                == 100 && 64 <= b && b <= 127) || (a == 198 && (b == 18 || b == 19)) {
                IpKind::Private
            } else {
                IpKind::Public
            }
        },
        IpAddress::V6(s0, s1, s2, s3, s4, s5, s6, s7) => {
            let zero6 = s0 == 0 && s1 == 0 && s2 == 0 && s3 == 0 && s4 == 0 && s5 == 0 && s6 == 0;
            if (zero6 && s7 == 1) || (zero6 && s7 == 0) || (s0 & 0xff00u16) == 0xff00u16 {
                IpKind::Loopback
            } else if s0 == 0xfd00u16 && s1 == 0xec2u16 {
                IpKind::BlockedMetadata
            } else if (s0 & 0xffc0u16) == 0xfe80u16 {
                IpKind::BlockedMetadata
            } else if (s0 & 0xfe00u16) == 0xfc00u16 {
                IpKind::Private
            } else {
                IpKind::Public
            }
        },
    }
}

/// The worse of two kinds: blocked beats everything, any non-public kind
/// beats public, and between private and loopback the one seen first stays.
pub open spec fn worse(seen: IpKind, next: IpKind) -> IpKind {
    if next == IpKind::BlockedMetadata || seen == IpKind::BlockedMetadata {
        IpKind::BlockedMetadata
    } else if seen == IpKind::Public {
        next
    } else {
        seen
    }
}

/// The worst kind among addresses, starting from public.
pub open spec fn worst_kind(ips: Seq<IpAddress>) -> IpKind
    decreases ips.len(),
{
    if ips.len() == 0 {
        IpKind::Public
    } else {
        worse(worst_kind(ips.drop_last()), kind_of(ips.last()))
    }
}

/// What is known of a host: it is an IP literal, or the outcome of resolving
/// its name (the addresses, or the resolver's error message).
pub enum HostAddress {
    Literal(IpAddress),
    Resolved(Result<Vec<IpAddress>, String>),
}

/// The classification of a host: a literal's own kind; for a resolved name,
/// the worst kind among its addresses, or an error when resolution failed or
/// gave nothing.
pub open spec fn host_class(addr: HostAddress) -> Result<IpKind, Seq<char>> {
    match addr {
        HostAddress::Literal(ip) => Ok(kind_of(ip)),
        HostAddress::Resolved(Err(e)) => Err("dns: "@ + e@),
        HostAddress::Resolved(Ok(ips)) => if ips@.len() == 0 {
            Err("dns: no addresses"@)
        } else {
            Ok(worst_kind(ips@))
        },
    }
}

fn message(prefix: &str, tail: &str) -> (r: String)
    ensures
        r@ == prefix@ + tail@,
{
    let mut m = chars_of(prefix);
    extend_chars(&mut m, chars_of(tail).as_slice());
    string_of_all(m.as_slice())
}

/// Classifies a host from its literal address or its resolved addresses.
pub fn classify_host(addr: &HostAddress) -> (r: Result<IpKind, String>)
    ensures
        match host_class(*addr) {
            Ok(k) => r == Ok::<IpKind, String>(k),
            Err(e) => r matches Err(f) && f@ == e,
        },
{
    match addr {
        HostAddress::Literal(ip) => Ok(ip_kind(*ip)),
        HostAddress::Resolved(Err(e)) => Err(message("dns: ", e.as_str())),
        HostAddress::Resolved(Ok(ips)) => {
            if ips.len() == 0 {
                return Err(String::from_str("dns: no addresses"));
            }
            let mut worst = IpKind::Public;
            let mut i: usize = 0;
            while i < ips.len()
                invariant
                    i <= ips@.len(),
                    worst == worst_kind(ips@.take(i as int)),
                decreases ips.len() - i,
            {
                assert(ips@.take(i + 1).drop_last() =~= ips@.take(i as int));
                let k = ip_kind(ips[i]);
                worst = match (worst, k) {
                    (_, IpKind::BlockedMetadata) => IpKind::BlockedMetadata,
                    (IpKind::BlockedMetadata, _) => IpKind::BlockedMetadata,
                    (IpKind::Public, x) => x,
                    (x, IpKind::Public) => x,
                    (a, _) => a,
                };
                i = i + 1;
            }
            assert(ips@.take(ips@.len() as int) =~= ips@);
            Ok(worst)
        },
    }
}

/// The verdict on a host given its classification: blocked hosts are refused,
/// private and loopback ones only pass with `allow_private`.
pub open spec fn host_verdict(host: Seq<char>, kind: Result<IpKind, Seq<char>>, allow_private: bool) -> Result<(), Seq<char>> {
    match kind {
        Err(e) => Err(e),
        Ok(IpKind::BlockedMetadata) => Err("host not allowed: "@ + host),
        Ok(IpKind::Public) => Ok(()),
        Ok(_) => if allow_private {
            Ok(())
        } else {
            Err(
                "host "@ + host
                    + " resolves to a private/loopback address; this endpoint requires explicit opt-in"@,
            )
        },
    }
}

pub open spec fn kind_view(k: Result<IpKind, String>) -> Result<IpKind, Seq<char>> {
    match k {
        Ok(x) => Ok(x),
        Err(e) => Err(e@),
    }
}

pub open spec fn unit_view(r: Result<(), String>) -> Result<(), Seq<char>> {
    match r {
        Ok(_) => Ok(()),
        Err(e) => Err(e@),
    }
}

/// Applies the host policy to a host of a validated URL, given how it
/// classified (see `classify_host`).
pub fn enforce_host_policy(host: &str, kind: Result<IpKind, String>, allow_private: bool) -> (r: Result<(), String>)
    ensures
        unit_view(r) == host_verdict(host@, kind_view(kind), allow_private),
{
    match kind {
        Err(e) => Err(e),
        Ok(IpKind::BlockedMetadata) => Err(message("host not allowed: ", host)),
        Ok(IpKind::Public) => Ok(()),
        Ok(_) => {
            if allow_private {
                Ok(())
            } else {
                let mut m = chars_of("host ");
                extend_chars(&mut m, chars_of(host).as_slice());
                extend_chars(
                    &mut m,
                    chars_of(
                        " resolves to a private/loopback address; this endpoint requires explicit opt-in",
                    ).as_slice(),
                );
                Err(string_of_all(m.as_slice()))
            }
        },
    }
}

// ------------------------------------------------------------------
// URLs
// ------------------------------------------------------------------

#[verifier::external_type_specification]
#[verifier::external_body]
pub struct ExUrl(reqwest::Url);

/// The parts of a parsed URL that the policy reads: its serialization,
/// scheme, username, password and host.
#[derive(Debug)]
pub struct UrlParts {
    pub href: String,
    pub scheme: String,
    pub username: String,
    pub password: Option<String>,
    pub host: Option<String>,
}

pub open spec fn opt_chars(o: Option<String>) -> Option<Seq<char>> {
    match o {
        Some(s) => Some(s@),
        None => None,
    }
}

impl View for UrlParts {
    type V = (Seq<char>, Seq<char>, Seq<char>, Option<Seq<char>>, Option<Seq<char>>);

    open spec fn view(&self) -> Self::V {
        (self.href@, self.scheme@, self.username@, opt_chars(self.password), opt_chars(self.host))
    }
}

/// What `reqwest::Url::parse` (the `url` crate's WHATWG parser) makes of an
/// input: the serialization, scheme, username, password and host of the URL,
/// or the message of its error.
pub uninterp spec fn url_parse(input: Seq<char>) -> Result<
    (Seq<char>, Seq<char>, Seq<char>, Option<Seq<char>>, Option<Seq<char>>),
    Seq<char>,
>;

pub open spec fn parsed_view(r: Result<(reqwest::Url, UrlParts), String>) -> Result<
    (Seq<char>, Seq<char>, Seq<char>, Option<Seq<char>>, Option<Seq<char>>),
    Seq<char>,
> {
    match r {
        Ok((_, p)) => Ok(p@),
        Err(e) => Err(e@),
    }
}

/// Calls `reqwest::Url::parse` and reads back `as_str`, `scheme`, `username`,
/// `password` and `host_str` of the result; an error is turned into its
/// message. The contract only ties the outcome to the input through the name
/// `url_parse`: it says nothing of how the parser treats a given string.
#[verifier::external_body]
fn parse_url(input: &str) -> (r: Result<(reqwest::Url, UrlParts), String>)
    ensures
        parsed_view(r) == url_parse(input@),
{
    match reqwest::Url::parse(input) {
        Ok(u) => {
            let parts = UrlParts {
                href: u.as_str().to_string(),
                scheme: u.scheme().to_string(),
                username: u.username().to_string(),
                password: u.password().map(String::from),
                host: u.host_str().map(String::from),
            };
            Ok((u, parts))
        },
        Err(e) => Err(e.to_string()),
    }
}

/// A URL that passed validation, with its host.
pub struct CheckedUrl {
    pub url: reqwest::Url,
    pub parts: UrlParts,
    pub host: String,
}

/// The verdict on a parsed URL: only http and https, no user info, a host
/// that is not a metadata service. Answers the host on success.
pub open spec fn url_verdict(
    parsed: Result<(Seq<char>, Seq<char>, Seq<char>, Option<Seq<char>>, Option<Seq<char>>), Seq<char>>,
) -> Result<Seq<char>, Seq<char>> {
    match parsed {
        Err(e) => Err("invalid url: "@ + e),
        Ok((_, scheme, user, pass, host)) => if !(scheme == "http"@ || scheme == "https"@) {
            Err("scheme not allowed: "@ + scheme)
        } else if user.len() != 0 || pass is Some {
            Err("userinfo in url is not allowed"@)
        } else {
            match host {
                None => Err("missing host"@),
                Some(h) => if blocked_host_name(h) {
                    Err("host not allowed: "@ + h)
                } else {
                    Ok(h)
                },
            }
        },
    }
}

pub open spec fn checked_view(r: Result<CheckedUrl, String>) -> Result<Seq<char>, Seq<char>> {
    match r {
        Ok(c) => Ok(c.host@),
        Err(e) => Err(e@),
    }
}

/// Checks the outcome of parsing a URL against the policy (see
/// `url_verdict`); the URL and its parts are kept unchanged.
pub fn check_url(parsed: Result<(reqwest::Url, UrlParts), String>) -> (r: Result<CheckedUrl, String>)
    ensures
        checked_view(r) == url_verdict(parsed_view(parsed)),
        r matches Ok(c) ==> parsed_view(parsed) == Ok::<_, Seq<char>>(c.parts@),
{
    let (url, parts) = match parsed {
        Err(e) => return Err(message("invalid url: ", e.as_str())),
        Ok(p) => p,
    };
    let scheme = chars_of(parts.scheme.as_str());
    if !(chars_eq(scheme.as_slice(), chars_of("http").as_slice()) || chars_eq(
        scheme.as_slice(),
        chars_of("https").as_slice(),
    )) {
        return Err(message("scheme not allowed: ", parts.scheme.as_str()));
    }
    if !parts.username.as_str().is_empty() || parts.password.is_some() {
        return Err(String::from_str("userinfo in url is not allowed"));
    }
    let host = match &parts.host {
        None => return Err(String::from_str("missing host")),
        Some(h) => h.clone(),
    };
    if is_blocked_host_name(host.as_str()) {
        return Err(message("host not allowed: ", host.as_str()));
    }
    Ok(CheckedUrl { url, parts, host })
}

/// Parses and checks a URL (see `url_verdict`). Whether its host may be
/// reached is decided after classifying it (see `enforce_host_policy`).
pub fn validate_url(url: &str) -> (r: Result<CheckedUrl, String>)
    ensures
        checked_view(r) == url_verdict(url_parse(url@)),
        r matches Ok(c) ==> url_parse(url@) == Ok::<_, Seq<char>>(c.parts@),
{
    check_url(parse_url(url))
}

// ------------------------------------------------------------------
// Request headers and method
// ------------------------------------------------------------------

/// A token character of HTTP (RFC 9110): the characters allowed in header
/// names and methods.
pub open spec fn is_tchar(c: char) -> bool {
    ('0' <= c <= '9') || ('a' <= c <= 'z') || ('A' <= c <= 'Z') || c == '!' || c == '#' || c
        == '$' || c == '%' || c == '&' || c == '\'' || c == '*' || c == '+' || c == '-' || c == '.'
        || c == '^' || c == '_' || c == '`' || c == '|' || c == '~'
}

/// Whether `HeaderName::from_bytes` accepts a name: 1 to 65535 token
/// characters.
pub open spec fn header_name_ok(name: Seq<char>) -> bool {
    1 <= name.len() <= 65535 && forall|i: int| 0 <= i < name.len() ==> is_tchar(#[trigger] name[i])
}

/// Whether `HeaderValue::from_str` accepts a value: no control character
/// other than tab, and no DEL.
pub open spec fn header_value_ok(value: Seq<char>) -> bool {
    forall|i: int|
        0 <= i < value.len() ==> (((#[trigger] value[i]) >= ' ' && value[i] != '\x7f') || value[i]
            == '\t')
}

/// Whether `Method::from_bytes` accepts a method: one or more token
/// characters.
pub open spec fn method_ok(method: Seq<char>) -> bool {
    1 <= method.len() && forall|i: int| 0 <= i < method.len() ==> is_tchar(#[trigger] method[i])
}

/// Calls `HeaderName::from_bytes` on the name's bytes and reads the name back
/// with `as_str`. As the source of `http` shows, a name is accepted exactly
/// when it has 1 to 65535 bytes, each a token character, and it reads back in
/// ASCII lower case; the error's message is "invalid HTTP header name".
#[verifier::external_body]
fn header_name(name: &str) -> (r: Result<String, String>)
    ensures
        match r {
            Ok(n) => header_name_ok(name@) && n@ == lower(name@),
            Err(e) => !header_name_ok(name@) && e@ == "invalid HTTP header name"@,
        },
{
    match reqwest::header::HeaderName::from_bytes(name.as_bytes()) {
        Ok(n) => Ok(n.as_str().to_string()),
        Err(e) => Err(e.to_string()),
    }
}

/// Calls `HeaderValue::from_str`. As the source of `http` shows, a value is
/// accepted exactly when each byte is at least 32 and not 127, or a tab
/// (bytes of non-ASCII characters all pass); the error's message is "failed
/// to parse header value".
#[verifier::external_body]
fn header_value(value: &str) -> (r: Result<(), String>)
    ensures
        match r {
            Ok(_) => header_value_ok(value@),
            Err(e) => !header_value_ok(value@) && e@ == "failed to parse header value"@,
        },
{
    match reqwest::header::HeaderValue::from_str(value) {
        Ok(_) => Ok(()),
        Err(e) => Err(e.to_string()),
    }
}

/// Calls `Method::from_bytes` on the method's bytes and reads it back with
/// `as_str`. As the source of `http` shows, a method is accepted exactly when
/// it is one or more token characters, and reads back unchanged; the error's
/// message is "invalid HTTP method".
#[verifier::external_body]
fn http_method(method: &str) -> (r: Result<String, String>)
    ensures
        match r {
            Ok(m) => method_ok(method@) && m@ == method@,
            Err(e) => !method_ok(method@) && e@ == "invalid HTTP method"@,
        },
{
    match reqwest::Method::from_bytes(method.as_bytes()) {
        Ok(m) => Ok(m.as_str().to_string()),
        Err(e) => Err(e.to_string()),
    }
}

/// Headers a caller may not set: hop-by-hop headers and those the client
/// computes itself.
pub open spec fn header_blocklist() -> Seq<Seq<char>> {
    seq![
        "host"@,
        "content-length"@,
        "connection"@,
        "proxy-authorization"@,
        "proxy-connection"@,
        "te"@,
        "transfer-encoding"@,
        "upgrade"@,
        "trailer"@,
        "expect"@,
    ]
}

/// Whether a header name, in any case, is on the blocklist.
pub open spec fn blocked_header(name: Seq<char>) -> bool {
    header_blocklist().contains(lower(name))
}

/// Whether a value holds NUL, CR or LF (which would let it inject headers).
pub open spec fn has_control(value: Seq<char>) -> bool {
    exists|i: int| 0 <= i < value.len() && (value[i] == '\0' || value[i] == '\r' || value[i] == '\n')
}

/// Why a header may not be forwarded, checked in this order, if at all.
pub open spec fn header_problem(name: Seq<char>, value: Seq<char>) -> Option<Seq<char>> {
    if blocked_header(name) {
        Some("header not allowed: "@ + name)
    } else if has_control(value) {
        Some("header value contains control bytes: "@ + name)
    } else if !header_name_ok(name) {
        Some("invalid HTTP header name"@)
    } else if !header_value_ok(value) {
        Some("failed to parse header value"@)
    } else {
        None
    }
}

/// The headers to forward, in order, with names in lower case; the first
/// problem found stops it.
pub open spec fn sanitized(headers: Seq<(Seq<char>, Seq<char>)>) -> Result<Seq<(Seq<char>, Seq<char>)>, Seq<char>>
    decreases headers.len(),
{
    if headers.len() == 0 {
        Ok(Seq::empty())
    } else {
        match sanitized(headers.drop_last()) {
            Err(e) => Err(e),
            Ok(done) => {
                let (k, v) = headers.last();
                match header_problem(k, v) {
                    Some(e) => Err(e),
                    None => Ok(done.push((lower(k), v))),
                }
            },
        }
    }
}

pub open spec fn pairs_view(v: Seq<(String, String)>) -> Seq<(Seq<char>, Seq<char>)> {
    Seq::new(v.len(), |i: int| (v[i].0@, v[i].1@))
}

pub open spec fn pairs_result_view(r: Result<Vec<(String, String)>, String>) -> Result<Seq<(Seq<char>, Seq<char>)>, Seq<char>> {
    match r {
        Ok(v) => Ok(pairs_view(v@)),
        Err(e) => Err(e@),
    }
}

proof fn lemma_sanitized_stops(hs: Seq<(Seq<char>, Seq<char>)>, n: int)
    requires
        0 <= n <= hs.len(),
        sanitized(hs.take(n)) is Err,
    ensures
        sanitized(hs) == sanitized(hs.take(n)),
    decreases hs.len() - n,
{
    if n < hs.len() {
        assert(hs.take(n + 1).drop_last() =~= hs.take(n));
        lemma_sanitized_stops(hs, n + 1);
    } else {
        assert(hs.take(n) =~= hs);
    }
}

fn is_blocked_header(name: &[char]) -> (r: bool)
    ensures
        r == blocked_header(name@),
{
    let l = crate::text::lower_chars(name);
    let r = chars_eq(l.as_slice(), chars_of("host").as_slice()) || chars_eq(
        l.as_slice(),
        chars_of("content-length").as_slice(),
    ) || chars_eq(l.as_slice(), chars_of("connection").as_slice()) || chars_eq(
        l.as_slice(),
        chars_of("proxy-authorization").as_slice(),
    ) || chars_eq(l.as_slice(), chars_of("proxy-connection").as_slice()) || chars_eq(
        l.as_slice(),
        chars_of("te").as_slice(),
    ) || chars_eq(l.as_slice(), chars_of("transfer-encoding").as_slice()) || chars_eq(
        l.as_slice(),
        chars_of("upgrade").as_slice(),
    ) || chars_eq(l.as_slice(), chars_of("trailer").as_slice()) || chars_eq(
        l.as_slice(),
        chars_of("expect").as_slice(),
    );
    proof {
        let b = header_blocklist();
        if r {
            assert(b.contains(lower(name@))) by {
                let x = lower(name@);
                if x == "host"@ { assert(b[0] == x); }
                else if x == "content-length"@ { assert(b[1] == x); }
                else if x == "connection"@ { assert(b[2] == x); }
                else if x == "proxy-authorization"@ { assert(b[3] == x); }
                else if x == "proxy-connection"@ { assert(b[4] == x); }
                else if x == "te"@ { assert(b[5] == x); }
                else if x == "transfer-encoding"@ { assert(b[6] == x); }
                else if x == "upgrade"@ { assert(b[7] == x); }
                else if x == "trailer"@ { assert(b[8] == x); }
                else { assert(b[9] == x); }
            }
        } else {
            assert(!b.contains(lower(name@))) by {
                if b.contains(lower(name@)) {
                    let i = choose|i: int| 0 <= i < b.len() && b[i] == lower(name@);
                    assert(0 <= i < 10);
                }
            }
        }
    }
    r
}

fn has_control_chars(value: &[char]) -> (r: bool)
    ensures
        r == has_control(value@),
{
    let mut i: usize = 0;
    while i < value.len()
        invariant
            i <= value@.len(),
            forall|j: int| 0 <= j < i ==> !(value@[j] == '\0' || value@[j] == '\r' || value@[j] == '\n'),
        decreases value.len() - i,
    {
        if value[i] == '\0' || value[i] == '\r' || value[i] == '\n' {
            return true;
        }
        i = i + 1;
    }
    false
}

/// Checks the caller's request headers (see `sanitized`); none given is an
/// empty set.
pub fn sanitize_headers(headers: Option<Vec<(String, String)>>) -> (r: Result<Vec<(String, String)>, String>)
    ensures
        pairs_result_view(r) == match headers {
            None => Ok(Seq::empty()),
            Some(h) => sanitized(pairs_view(h@)),
        },
{
    let mut out: Vec<(String, String)> = Vec::new();
    let h = match headers {
        None => {
            assert(pairs_view(out@) =~= Seq::<(Seq<char>, Seq<char>)>::empty());
            return Ok(out);
        },
        Some(h) => h,
    };
    let ghost hv = pairs_view(h@);
    let mut i: usize = 0;
    assert(hv.take(0) =~= Seq::<(Seq<char>, Seq<char>)>::empty());
    assert(pairs_view(out@) =~= Seq::<(Seq<char>, Seq<char>)>::empty());
    while i < h.len()
        invariant
            i <= h@.len(),
            hv == pairs_view(h@),
            headers matches Some(x) && pairs_view(x@) == hv,
            sanitized(hv.take(i as int)) == Ok::<_, Seq<char>>(pairs_view(out@)),
        decreases h.len() - i,
    {
        let k = &h[i].0;
        let v = &h[i].1;
        assert(hv.take(i + 1).drop_last() =~= hv.take(i as int));
        assert(hv.take(i + 1).last() == (k@, v@));
        let kc = chars_of(k.as_str());
        if is_blocked_header(kc.as_slice()) {
            proof {
                lemma_sanitized_stops(hv, i + 1);
            }
            return Err(message("header not allowed: ", k.as_str()));
        }
        if has_control_chars(chars_of(v.as_str()).as_slice()) {
            proof {
                lemma_sanitized_stops(hv, i + 1);
            }
            return Err(message("header value contains control bytes: ", k.as_str()));
        }
        let name = match header_name(k.as_str()) {
            Err(e) => {
                proof {
                    lemma_sanitized_stops(hv, i + 1);
                }
                return Err(e);
            },
            Ok(n) => n,
        };
        if let Err(e) = header_value(v.as_str()) {
            proof {
                lemma_sanitized_stops(hv, i + 1);
            }
            return Err(e);
        }
        let ghost before = pairs_view(out@);
        out.push((name, v.clone()));
        assert(pairs_view(out@) =~= before.push((lower(k@), v@)));
        i = i + 1;
    }
    assert(hv.take(h@.len() as int) =~= hv);
    Ok(out)
}

/// The method and headers of a request, once checked.
#[derive(Debug)]
pub struct RequestParts {
    pub method: String,
    pub headers: Vec<(String, String)>,
    pub body: Option<Vec<u8>>,
}

/// Checks the method, then the headers, of a request to be built; the body
/// goes along as given.
pub fn build_request(
    method: &str,
    headers: Option<Vec<(String, String)>>,
    body: Option<Vec<u8>>,
) -> (r: Result<RequestParts, String>)
    ensures
        !method_ok(method@) ==> (r matches Err(e) && e@ == "invalid HTTP method"@),
        method_ok(method@) ==> match (match headers {
            None => Ok(Seq::empty()),
            Some(h) => sanitized(pairs_view(h@)),
        }) {
            Err(e) => r matches Err(f) && f@ == e,
            Ok(hs) => r matches Ok(p) && p.method@ == method@ && pairs_view(p.headers@) == hs
                && p.body == body,
        },
{
    let m = http_method(method)?;
    let map = sanitize_headers(headers)?;
    Ok(RequestParts { method: m, headers: map, body })
}

// ------------------------------------------------------------------
// Response headers
// ------------------------------------------------------------------

/// Whether `HeaderValue::to_str` succeeds on a value: every byte is visible
/// ASCII or a tab.
pub open spec fn visible_ascii(v: Seq<u8>) -> bool {
    forall|i: int| 0 <= i < v.len() ==> ((32 <= #[trigger] v[i] && v[i] < 127) || v[i] == 9)
}

/// The text of an ASCII byte string.
pub open spec fn ascii_text(v: Seq<u8>) -> Seq<char> {
    Seq::new(v.len(), |i: int| v[i] as char)
}

/// The response headers as a map from lower-case name to text: values that
/// are not visible ASCII are left out, and a later value of a name replaces
/// an earlier one.
pub open spec fn header_strings(entries: Seq<(Seq<char>, Seq<u8>)>) -> Map<Seq<char>, Seq<char>>
    decreases entries.len(),
{
    if entries.len() == 0 {
        Map::empty()
    } else {
        let m = header_strings(entries.drop_last());
        let (k, v) = entries.last();
        if visible_ascii(v) {
            m.insert(lower(k), ascii_text(v))
        } else {
            m
        }
    }
}

pub open spec fn entries_view(v: Seq<(String, Vec<u8>)>) -> Seq<(Seq<char>, Seq<u8>)> {
    Seq::new(v.len(), |i: int| (v[i].0@, v[i].1@))
}

/// Whether a list of pairs holds each name once, and exactly the entries of
/// `m`.
pub open spec fn lists_map(pairs: Seq<(String, String)>, m: Map<Seq<char>, Seq<char>>) -> bool {
    &&& forall|i: int, j: int| 0 <= i < j < pairs.len() ==> pairs[i].0@ != pairs[j].0@
    &&& forall|i: int|
        0 <= i < pairs.len() ==> m.contains_key(#[trigger] pairs[i].0@) && m[pairs[i].0@]
            == pairs[i].1@
    &&& forall|k: Seq<char>| m.contains_key(k) ==> exists|i: int| 0 <= i < pairs.len() && pairs[i].0@ == k
}

fn ascii_string(v: &[u8]) -> (r: String)
    requires
        visible_ascii(v@),
    ensures
        r@ == ascii_text(v@),
{
    let mut out: Vec<char> = Vec::new();
    let mut i: usize = 0;
    while i < v.len()
        invariant
            i <= v@.len(),
            visible_ascii(v@),
            out@ == ascii_text(v@.take(i as int)),
        decreases v.len() - i,
    {
        assert(v@[i as int] < 128);
        let c = v[i] as char;
        out.push(c);
        assert(out@ =~= ascii_text(v@.take(i + 1)));
        i = i + 1;
    }
    assert(v@.take(v@.len() as int) =~= v@);
    string_of_all(out.as_slice())
}

fn is_visible_ascii(v: &[u8]) -> (r: bool)
    ensures
        r == visible_ascii(v@),
{
    let mut i: usize = 0;
    while i < v.len()
        invariant
            i <= v@.len(),
            forall|j: int| 0 <= j < i ==> ((32 <= v@[j] && v@[j] < 127) || v@[j] == 9),
        decreases v.len() - i,
    {
        if !((32 <= v[i] && v[i] < 127) || v[i] == 9) {
            return false;
        }
        i = i + 1;
    }
    true
}

fn find_name(pairs: &Vec<(String, String)>, key: &[char]) -> (r: Option<usize>)
    ensures
        match r {
            Some(j) => j < pairs@.len() && pairs@[j as int].0@ == key@,
            None => forall|t: int| 0 <= t < pairs@.len() ==> pairs@[t].0@ != key@,
        },
{
    let mut j: usize = 0;
    while j < pairs.len()
        invariant
            j <= pairs@.len(),
            forall|t: int| 0 <= t < j ==> pairs@[t].0@ != key@,
        decreases pairs.len() - j,
    {
        if chars_eq(chars_of(pairs[j].0.as_str()).as_slice(), key) {
            return Some(j);
        }
        j = j + 1;
    }
    None
}

/// The response headers as text (see `header_strings`), each name once, from
/// the name and bytes of each value in the order the response holds them.
pub fn header_map_to_strings(entries: &[(String, Vec<u8>)]) -> (r: Vec<(String, String)>)
    ensures
        lists_map(r@, header_strings(entries_view(entries@))),
{
    let ghost ev = entries_view(entries@);
    let mut out: Vec<(String, String)> = Vec::new();
    let mut i: usize = 0;
    assert(ev.take(0) =~= Seq::<(Seq<char>, Seq<u8>)>::empty());
    assert(lists_map(out@, header_strings(ev.take(0))));
    while i < entries.len()
        invariant
            i <= entries@.len(),
            ev == entries_view(entries@),
            lists_map(out@, header_strings(ev.take(i as int))),
        decreases entries.len() - i,
    {
        assert(ev.take(i + 1).drop_last() =~= ev.take(i as int));
        assert(ev.take(i + 1).last() == (entries@[i as int].0@, entries@[i as int].1@));
        let ghost m = header_strings(ev.take(i as int));
        let (k, v) = (&entries[i].0, &entries[i].1);
        if is_visible_ascii(v.as_slice()) {
            let text = ascii_string(v.as_slice());
            let key = crate::text::lower_chars(chars_of(k.as_str()).as_slice());
            let ghost m2 = m.insert(key@, text@);
            let pos = find_name(&out, key.as_slice());
            let ghost old_out = out@;
            if let Some(j) = pos {
                out.set(j, (string_of_all(key.as_slice()), text));
                assert forall|t: int| 0 <= t < out@.len() implies #[trigger] out@[t].0@
                    == old_out[t].0@ by {}
                assert forall|k2: Seq<char>| m2.contains_key(k2) implies exists|t: int|
                    0 <= t < out@.len() && out@[t].0@ == k2 by {
                    if k2 != key@ {
                        let t = choose|t: int| 0 <= t < old_out.len() && old_out[t].0@ == k2;
                        assert(out@[t].0@ == k2);
                    } else {
                        assert(out@[j as int].0@ == k2);
                    }
                }
                assert forall|t: int| 0 <= t < out@.len() implies m2.contains_key(
                    #[trigger] out@[t].0@,
                ) && m2[out@[t].0@] == out@[t].1@ by {
                    if t != j {
                        assert(out@[t] == old_out[t]);
                        if t < j {
                            assert(old_out[t].0@ != old_out[j as int].0@);
                        } else {
                            assert(old_out[j as int].0@ != old_out[t].0@);
                        }
                    }
                }
            } else {
                out.push((string_of_all(key.as_slice()), text));
                assert forall|k2: Seq<char>| m2.contains_key(k2) implies exists|t: int|
                    0 <= t < out@.len() && out@[t].0@ == k2 by {
                    if k2 != key@ {
                        let t = choose|t: int| 0 <= t < old_out.len() && old_out[t].0@ == k2;
                        assert(out@[t].0@ == k2);
                    } else {
                        assert(out@[old_out.len() as int].0@ == k2);
                    }
                }
                assert forall|t: int| 0 <= t < out@.len() implies m2.contains_key(
                    #[trigger] out@[t].0@,
                ) && m2[out@[t].0@] == out@[t].1@ by {
                    if t < old_out.len() {
                        assert(out@[t] == old_out[t]);
                    }
                }
            }
            assert(header_strings(ev.take(i + 1)) == m2);
        }
        i = i + 1;
    }
    assert(ev.take(entries@.len() as int) =~= ev);
    out
}

// ------------------------------------------------------------------
// Redirects
// ------------------------------------------------------------------

/// What to do with a redirect.
#[derive(PartialEq, Eq, Structural, Clone, Copy, Debug)]
pub enum RedirectAction {
    Follow,
    Stop,
    /// Give up with the error "too many redirects".
    TooMany,
}

/// The redirect policy: more than ten earlier hops is too many; the target
/// must be http or https, without user info, with a host that is not a
/// metadata service; an IP literal target must not be blocked, nor private or
/// loopback without `allow_private`; a named target without `allow_private`
/// must keep the host of the hop before it.
pub open spec fn redirect_verdict(
    previous: nat,
    next: (Seq<char>, Seq<char>, Seq<char>, Option<Seq<char>>, Option<Seq<char>>),
    next_ip: Option<IpAddress>,
    previous_host: Option<Option<Seq<char>>>,
    allow_private: bool,
) -> RedirectAction {
    let (_, scheme, user, pass, host) = next;
    if previous > 10 {
        RedirectAction::TooMany
    } else if !(scheme == "http"@ || scheme == "https"@) {
        RedirectAction::Stop
    } else if user.len() != 0 || pass is Some {
        RedirectAction::Stop
    } else if host is None {
        RedirectAction::Stop
    } else if blocked_host_name(host->0) {
        RedirectAction::Stop
    } else {
        match next_ip {
            Some(ip) => {
                let k = kind_of(ip);
                if k == IpKind::BlockedMetadata {
                    RedirectAction::Stop
                } else if !allow_private && (k == IpKind::Loopback || k == IpKind::Private) {
                    RedirectAction::Stop
                } else {
                    RedirectAction::Follow
                }
            },
            None => if !allow_private && (previous_host matches Some(p) && p != host) {
                RedirectAction::Stop
            } else {
                RedirectAction::Follow
            },
        }
    }
}

/// Decides a redirect (see `redirect_verdict`) from the number of earlier
/// hops, the parts of the target URL, the target host read as an IP literal
/// (if it is one), and the host of the hop before (if there is one).
pub fn redirect_action(
    previous: usize,
    next: &UrlParts,
    next_ip: Option<IpAddress>,
    previous_host: Option<Option<String>>,
    allow_private: bool,
) -> (r: RedirectAction)
    ensures
        r == redirect_verdict(
            previous as nat,
            next@,
            next_ip,
            match previous_host {
                Some(p) => Some(opt_chars(p)),
                None => None,
            },
            allow_private,
        ),
{
    if previous > 10 {
        return RedirectAction::TooMany;
    }
    let scheme = chars_of(next.scheme.as_str());
    if !(chars_eq(scheme.as_slice(), chars_of("http").as_slice()) || chars_eq(
        scheme.as_slice(),
        chars_of("https").as_slice(),
    )) {
        return RedirectAction::Stop;
    }
    if !next.username.as_str().is_empty() || next.password.is_some() {
        return RedirectAction::Stop;
    }
    let host = match &next.host {
        None => return RedirectAction::Stop,
        Some(h) => h,
    };
    if is_blocked_host_name(host.as_str()) {
        return RedirectAction::Stop;
    }
    match next_ip {
        Some(ip) => {
            let k = ip_kind(ip);
            if k == IpKind::BlockedMetadata {
                return RedirectAction::Stop;
            }
            if !allow_private && (k == IpKind::Loopback || k == IpKind::Private) {
                return RedirectAction::Stop;
            }
        },
        None => {
            if !allow_private {
                if let Some(prev) = &previous_host {
                    let same = match prev {
                        Some(p) => chars_eq(
                            chars_of(p.as_str()).as_slice(),
                            chars_of(host.as_str()).as_slice(),
                        ),
                        None => false,
                    };
                    if !same {
                        return RedirectAction::Stop;
                    }
                }
            }
        },
    }
    RedirectAction::Follow
}

// ------------------------------------------------------------------
// Requests
// ------------------------------------------------------------------

/// A response read in full.
#[derive(Debug)]
pub struct HttpResponse {
    pub status: u16,
    /// Lower-case names, each once (see `header_map_to_strings`).
    pub headers: Vec<(String, String)>,
    pub body: Vec<u8>,
}

/// What a streamed request reports, in order: the head, the body in chunks,
/// then the end or an error.
#[derive(Debug)]
pub enum AiStreamEvent {
    Headers { status: u16, headers: Vec<(String, String)> },
    Chunk { bytes: Vec<u8> },
    End,
    Error { message: String },
}

/// How the client for a request is set up.
#[derive(PartialEq, Eq, Structural, Clone, Copy, Debug)]
pub enum ClientPolicy {
    /// A reachability probe: a 5 s overall timeout, redirects not followed.
    Probe,
    /// The proxy: a 10 s connect timeout, redirects followed as
    /// `redirect_action` decides with this `allow_private`.
    Proxy { allow_private: bool },
}

impl ClientPolicy {
    /// The limit on a whole request, in seconds, if any.
    pub fn timeout_secs(&self) -> (r: Option<u64>)
        ensures
            r == match self {
                ClientPolicy::Probe => Some(5u64),
                ClientPolicy::Proxy { .. } => None,
            },
    {
        match self {
            ClientPolicy::Probe => Some(5),
            ClientPolicy::Proxy { .. } => None,
        }
    }

    /// The limit on connecting, in seconds, if any.
    pub fn connect_timeout_secs(&self) -> (r: Option<u64>)
        ensures
            r == match self {
                ClientPolicy::Probe => None,
                ClientPolicy::Proxy { .. } => Some(10u64),
            },
    {
        match self {
            ClientPolicy::Probe => None,
            ClientPolicy::Proxy { .. } => Some(10),
        }
    }

    /// Whether redirects are followed (as `redirect_action` decides) at all.
    pub fn follows_redirects(&self) -> (r: bool)
        ensures
            r == (self is Proxy),
    {
        match self {
            ClientPolicy::Probe => false,
            ClientPolicy::Proxy { .. } => true,
        }
    }
}

/// A request to send, to the URL that `href` serializes.
pub struct Request {
    pub href: String,
    pub method: String,
    pub headers: Vec<(String, String)>,
    pub body: Option<Vec<u8>>,
    pub client: ClientPolicy,
}

/// The next step of a network command.
pub enum NetStep {
    /// Classify this host (as an IP literal, else by resolving it) and call
    /// again with the outcome.
    Lookup { host: String },
    /// Send the request; its outcome is the command's.
    Send(Request),
    /// The command fails with this message; `notify` says whether a streamed
    /// request also reports it as an error event.
    Fail { message: String, notify: bool },
}

/// The view of a step: the host to look up; or the serialized URL, method,
/// headers, body and client of the request; or the failure.
pub enum NetStepV {
    Lookup(Seq<char>),
    Send(Seq<char>, Seq<char>, Seq<(Seq<char>, Seq<char>)>, Option<Seq<u8>>, ClientPolicy),
    Fail(Seq<char>, bool),
}

impl View for NetStep {
    type V = NetStepV;

    open spec fn view(&self) -> NetStepV {
        match self {
            NetStep::Lookup { host } => NetStepV::Lookup(host@),
            NetStep::Send(r) => NetStepV::Send(
                r.href@,
                r.method@,
                pairs_view(r.headers@),
                match r.body {
                    Some(b) => Some(b@),
                    None => None,
                },
                r.client,
            ),
            NetStep::Fail { message, notify } => NetStepV::Fail(message@, *notify),
        }
    }
}

fn fail(message: String, notify: bool) -> (r: NetStep)
    ensures
        r@ == NetStepV::Fail(message@, notify),
{
    NetStep::Fail { message, notify }
}

/// The URL probed for a model server's base URL: trimmed, trailing slashes
/// dropped, then `/models`; `None` when nothing is left.
pub open spec fn probe_url(base: Seq<char>) -> Option<Seq<char>> {
    let t = trim_end_char(trim(base), '/');
    if t.len() == 0 {
        None
    } else {
        Some(t + "/models"@)
    }
}

/// The plan of a probe of a model server: validate the probe URL, look its
/// host up, allow private and loopback hosts, then send a GET.
pub open spec fn lm_ping_plan(base: Seq<char>, lookup: Option<HostAddress>) -> NetStepV {
    match probe_url(base) {
        None => NetStepV::Fail("empty base url"@, false),
        Some(u) => match url_verdict(url_parse(u)) {
            Err(e) => NetStepV::Fail(e, false),
            Ok(host) => match lookup {
                None => NetStepV::Lookup(host),
                Some(a) => match host_verdict(host, host_class(a), true) {
                    Err(e) => NetStepV::Fail(e, false),
                    Ok(_) => NetStepV::Send(
                        url_parse(u)->Ok_0.0,
                        "GET"@,
                        Seq::empty(),
                        None,
                        ClientPolicy::Probe,
                    ),
                },
            },
        },
    }
}

/// Probes a local model server: the next step, given the outcome of the
/// host lookup once it was asked for (see `lm_ping_plan`). The status of the
/// response is the answer.
pub fn lm_ping(base_url: &str, lookup: Option<&HostAddress>) -> (r: NetStep)
    ensures
        r@ == lm_ping_plan(
            base_url@,
            match lookup {
                Some(a) => Some(*a),
                None => None,
            },
        ),
{
    let chars = chars_of(base_url);
    let t = trim_chars(chars.as_slice());
    let n = trim_end_char_len(t.as_slice(), '/');
    if n == 0 {
        return fail(String::from_str("empty base url"), false);
    }
    let mut probe = crate::text::slice_range(t.as_slice(), 0, n);
    extend_chars(&mut probe, chars_of("/models").as_slice());
    let probe = string_of_all(probe.as_slice());
    let checked = match validate_url(probe.as_str()) {
        Err(e) => return fail(e, false),
        Ok(c) => c,
    };
    let a = match lookup {
        None => return NetStep::Lookup { host: checked.host },
        Some(a) => a,
    };
    if let Err(e) = enforce_host_policy(checked.host.as_str(), classify_host(a), true) {
        return fail(e, false);
    }
    let r = NetStep::Send(
        Request {
            href: checked.parts.href,
            method: String::from_str("GET"),
            headers: Vec::new(),
            body: None,
            client: ClientPolicy::Probe,
        },
    );
    assert(pairs_view(Seq::<(String, String)>::empty()) =~= Seq::<(Seq<char>, Seq<char>)>::empty());
    r
}

pub open spec fn headers_view(h: Option<Vec<(String, String)>>) -> Option<Seq<(Seq<char>, Seq<char>)>> {
    match h {
        Some(v) => Some(pairs_view(v@)),
        None => None,
    }
}

/// The plan of a proxied request: validate the URL, look its host up, apply
/// the host policy (failures so far are also reported as stream events), then
/// check the method and headers and send with the proxy client.
pub open spec fn proxy_plan(
    url: Seq<char>,
    method: Seq<char>,
    headers: Option<Seq<(Seq<char>, Seq<char>)>>,
    body: Option<Seq<u8>>,
    allow_private: bool,
    lookup: Option<HostAddress>,
) -> NetStepV {
    match url_verdict(url_parse(url)) {
        Err(e) => NetStepV::Fail(e, true),
        Ok(host) => match lookup {
            None => NetStepV::Lookup(host),
            Some(a) => match host_verdict(host, host_class(a), allow_private) {
                Err(e) => NetStepV::Fail(e, true),
                Ok(_) => if !method_ok(method) {
                    NetStepV::Fail("invalid HTTP method"@, false)
                } else {
                    match (match headers {
                        None => Ok(Seq::empty()),
                        Some(h) => sanitized(h),
                    }) {
                        Err(e) => NetStepV::Fail(e, false),
                        Ok(hs) => NetStepV::Send(
                            url_parse(url)->Ok_0.0,
                            method,
                            hs,
                            body,
                            ClientPolicy::Proxy { allow_private },
                        ),
                    }
                },
            },
        },
    }
}

fn proxy_step(
    url: &str,
    method: &str,
    headers: Option<Vec<(String, String)>>,
    body: Option<Vec<u8>>,
    allow_private_network: Option<bool>,
    lookup: Option<&HostAddress>,
) -> (r: NetStep)
    ensures
        r@ == proxy_plan(
            url@,
            method@,
            headers_view(headers),
            match body {
                Some(b) => Some(b@),
                None => None,
            },
            match allow_private_network {
                Some(b) => b,
                None => false,
            },
            match lookup {
                Some(a) => Some(*a),
                None => None,
            },
        ),
{
    let allow_private = match allow_private_network {
        Some(b) => b,
        None => false,
    };
    let checked = match validate_url(url) {
        Err(e) => return fail(e, true),
        Ok(c) => c,
    };
    let a = match lookup {
        None => return NetStep::Lookup { host: checked.host },
        Some(a) => a,
    };
    if let Err(e) = enforce_host_policy(checked.host.as_str(), classify_host(a), allow_private) {
        return fail(e, true);
    }
    match build_request(method, headers, body) {
        Err(e) => fail(e, false),
        Ok(parts) => NetStep::Send(
            Request {
                href: checked.parts.href,
                method: parts.method,
                headers: parts.headers,
                body: parts.body,
                client: ClientPolicy::Proxy { allow_private },
            },
        ),
    }
}

/// A proxied request whose response is read in full: the next step, given
/// the outcome of the host lookup once it was asked for (see `proxy_plan`).
pub fn ai_http_request(
    url: &str,
    method: &str,
    headers: Option<Vec<(String, String)>>,
    body: Option<Vec<u8>>,
    allow_private_network: Option<bool>,
    lookup: Option<&HostAddress>,
) -> (r: NetStep)
    ensures
        r@ == proxy_plan(
            url@,
            method@,
            headers_view(headers),
            match body {
                Some(b) => Some(b@),
                None => None,
            },
            match allow_private_network {
                Some(b) => b,
                None => false,
            },
            match lookup {
                Some(a) => Some(*a),
                None => None,
            },
        ),
{
    proxy_step(url, method, headers, body, allow_private_network, lookup)
}

/// A proxied request whose response is streamed as events: the next step,
/// given the outcome of the host lookup once it was asked for (see
/// `proxy_plan`); then `stream_opened` and `stream_chunk` decide the events.
pub fn ai_http_stream(
    url: &str,
    method: &str,
    headers: Option<Vec<(String, String)>>,
    body: Option<Vec<u8>>,
    allow_private_network: Option<bool>,
    lookup: Option<&HostAddress>,
) -> (r: NetStep)
    ensures
        r@ == proxy_plan(
            url@,
            method@,
            headers_view(headers),
            match body {
                Some(b) => Some(b@),
                None => None,
            },
            match allow_private_network {
                Some(b) => b,
                None => false,
            },
            match lookup {
                Some(a) => Some(*a),
                None => None,
            },
        ),
{
    proxy_step(url, method, headers, body, allow_private_network, lookup)
}

/// What a stream does next: send an event and go on (stopping quietly when
/// `stop_if_undelivered` and the listener is gone), send an error event and
/// fail with the message, or send the end event and finish.
pub enum StreamStep {
    Emit { event: AiStreamEvent, stop_if_undelivered: bool },
    EmitAndFail { event: AiStreamEvent, message: String },
    EmitAndEnd { event: AiStreamEvent },
}

/// Once the request was sent: its head is reported (whether or not anyone
/// listens), or the send error is reported and returned.
pub fn stream_opened(reply: Result<(u16, Vec<(String, String)>), String>) -> (r: StreamStep)
    ensures
        match reply {
            Ok((status, headers)) => r matches StreamStep::Emit { event, stop_if_undelivered }
                && !stop_if_undelivered && (event matches AiStreamEvent::Headers { status: s, headers: h }
                && s == status && pairs_view(h@) == pairs_view(headers@)),
            Err(e) => r matches StreamStep::EmitAndFail { event, message } && message@ == e@
                && (event matches AiStreamEvent::Error { message: m } && m@ == e@),
        },
{
    match reply {
        Ok((status, headers)) => StreamStep::Emit {
            event: AiStreamEvent::Headers { status, headers },
            stop_if_undelivered: false,
        },
        Err(e) => {
            let m = e.clone();
            StreamStep::EmitAndFail { event: AiStreamEvent::Error { message: m }, message: e }
        },
    }
}

/// Each item of the body stream: a chunk is reported (the stream stops
/// quietly once nobody listens), an error is reported and returned, and the
/// end of the stream is reported.
pub fn stream_chunk(item: Option<Result<Vec<u8>, String>>) -> (r: StreamStep)
    ensures
        match item {
            Some(Ok(b)) => r matches StreamStep::Emit { event, stop_if_undelivered }
                && stop_if_undelivered && (event matches AiStreamEvent::Chunk { bytes } && bytes@
                == b@),
            Some(Err(e)) => r matches StreamStep::EmitAndFail { event, message } && message@
                == e@ && (event matches AiStreamEvent::Error { message: m } && m@ == e@),
            None => r matches StreamStep::EmitAndEnd { event } && event is End,
        },
{
    match item {
        Some(Ok(bytes)) => StreamStep::Emit {
            event: AiStreamEvent::Chunk { bytes },
            stop_if_undelivered: true,
        },
        Some(Err(e)) => {
            let m = e.clone();
            StreamStep::EmitAndFail { event: AiStreamEvent::Error { message: m }, message: e }
        },
        None => StreamStep::EmitAndEnd { event: AiStreamEvent::End },
    }
}

/// The error event a stream sends for a failure that `notify` marks.
pub fn stream_failure(message: &str) -> (r: AiStreamEvent)
    ensures
        r matches AiStreamEvent::Error { message: m } && m@ == message@,
{
    AiStreamEvent::Error { message: String::from_str(message) }
}

// ------------------------------------------------------------------
// Laws
// ------------------------------------------------------------------

/// The worst kind among resolved addresses is blocked exactly when one of
/// them is blocked, public exactly when all of them are public, and otherwise
/// the kind of the first address that is not public.
pub proof fn lemma_worst_kind(ips: Seq<IpAddress>)
    ensures
        (worst_kind(ips) == IpKind::BlockedMetadata) <==> exists|i: int|
            0 <= i < ips.len() && kind_of(ips[i]) == IpKind::BlockedMetadata,
        (worst_kind(ips) == IpKind::Public) <==> forall|i: int|
            0 <= i < ips.len() ==> kind_of(ips[i]) == IpKind::Public,
        (forall|i: int| 0 <= i < ips.len() ==> kind_of(ips[i]) != IpKind::BlockedMetadata) ==> (
        forall|i: int|
            0 <= i < ips.len() && kind_of(ips[i]) != IpKind::Public && (forall|j: int|
                0 <= j < i ==> kind_of(ips[j]) == IpKind::Public) ==> worst_kind(ips) == kind_of(
                ips[i],
            )),
    decreases ips.len(),
{
    if ips.len() > 0 {
        let init = ips.drop_last();
        lemma_worst_kind(init);
        assert forall|i: int| 0 <= i < init.len() implies init[i] == ips[i] by {}
        if exists|i: int| 0 <= i < ips.len() && kind_of(ips[i]) == IpKind::BlockedMetadata {
            let i = choose|i: int| 0 <= i < ips.len() && kind_of(ips[i]) == IpKind::BlockedMetadata;
            if i < ips.len() - 1 {
                assert(kind_of(init[i]) == IpKind::BlockedMetadata);
            }
        }
        if forall|i: int| 0 <= i < ips.len() ==> kind_of(ips[i]) == IpKind::Public {
            assert forall|i: int| 0 <= i < init.len() implies kind_of(init[i]) == IpKind::Public by {
                assert(kind_of(ips[i]) == IpKind::Public);
            }
        }
        if worst_kind(ips) == IpKind::Public {
            assert forall|i: int| 0 <= i < ips.len() implies kind_of(ips[i]) == IpKind::Public by {
                if i < ips.len() - 1 {
                    assert(kind_of(init[i]) == IpKind::Public);
                }
            }
        }
        if (forall|i: int| 0 <= i < ips.len() ==> kind_of(ips[i]) != IpKind::BlockedMetadata) {
            assert forall|i: int|
                0 <= i < ips.len() && kind_of(ips[i]) != IpKind::Public && (forall|j: int|
                    0 <= j < i ==> kind_of(ips[j]) == IpKind::Public) implies worst_kind(ips)
                == kind_of(ips[i]) by {
                assert forall|j: int| 0 <= j < init.len() implies kind_of(init[j])
                    != IpKind::BlockedMetadata by {
                    assert(kind_of(ips[j]) != IpKind::BlockedMetadata);
                }
                if i < ips.len() - 1 {
                    assert(kind_of(init[i]) != IpKind::Public);
                    assert forall|j: int| 0 <= j < i implies kind_of(init[j]) == IpKind::Public by {
                        assert(kind_of(ips[j]) == IpKind::Public);
                    }
                } else {
                    assert forall|j: int| 0 <= j < init.len() implies kind_of(init[j])
                        == IpKind::Public by {
                        assert(kind_of(ips[j]) == IpKind::Public);
                    }
                }
            }
        }
    }
}

/// A host passes the policy only when it classified, is not a metadata
/// address, and is public unless private networks are allowed; a public host
/// always passes.
pub proof fn lemma_host_policy(host: Seq<char>, kind: Result<IpKind, Seq<char>>, allow_private: bool)
    ensures
        host_verdict(host, kind, allow_private) is Ok <==> (kind matches Ok(k) && k
            != IpKind::BlockedMetadata && (k == IpKind::Public || allow_private)),
{
}

/// Every header that passes sanitizing is forwarded with a lower-case name
/// that is not on the blocklist and is a valid header name, and a value that
/// is valid and free of NUL, CR and LF; none is dropped.
pub proof fn lemma_sanitized_headers_safe(headers: Seq<(Seq<char>, Seq<char>)>)
    ensures
        sanitized(headers) matches Ok(out) ==> out.len() == headers.len() && forall|i: int|
            0 <= i < out.len() ==> {
                &&& out[i].0 == lower(headers[i].0)
                &&& out[i].1 == headers[i].1
                &&& !blocked_header(headers[i].0)
                &&& !has_control(out[i].1)
                &&& header_name_ok(headers[i].0)
                &&& header_value_ok(out[i].1)
            },
    decreases headers.len(),
{
    if headers.len() > 0 {
        let init = headers.drop_last();
        lemma_sanitized_headers_safe(init);
        assert forall|i: int| 0 <= i < init.len() implies init[i] == headers[i] by {}
    }
}

/// A redirect is followed only to http or https, without user info, to a
/// host that is not a metadata service; an IP literal target is never a
/// blocked address, and is public unless private networks are allowed.
pub proof fn lemma_redirect_followed_safely(
    previous: nat,
    next: (Seq<char>, Seq<char>, Seq<char>, Option<Seq<char>>, Option<Seq<char>>),
    next_ip: Option<IpAddress>,
    previous_host: Option<Option<Seq<char>>>,
    allow_private: bool,
)
    requires
        redirect_verdict(previous, next, next_ip, previous_host, allow_private)
            == RedirectAction::Follow,
    ensures
        previous <= 10,
        next.1 == "http"@ || next.1 == "https"@,
        next.2.len() == 0 && next.3 is None,
        next.4 matches Some(h) && !blocked_host_name(h),
        next_ip matches Some(ip) ==> kind_of(ip) != IpKind::BlockedMetadata && (kind_of(ip)
            == IpKind::Public || allow_private),
        next_ip is None && !allow_private ==> (previous_host matches Some(p) ==> p == next.4),
{
}

/// A proxied request is only sent once its URL passed validation and its
/// host, as looked up, passed the host policy; the URL sent is the
/// serialization of the validated URL, whose host is the one that passed.
pub proof fn lemma_proxy_sends_only_allowed(
    url: Seq<char>,
    method: Seq<char>,
    headers: Option<Seq<(Seq<char>, Seq<char>)>>,
    body: Option<Seq<u8>>,
    allow_private: bool,
    lookup: Option<HostAddress>,
)
    ensures
        proxy_plan(url, method, headers, body, allow_private, lookup) is Send ==> {
            &&& url_verdict(url_parse(url)) matches Ok(host)
            &&& lookup matches Some(a)
            &&& host_verdict(host, host_class(a), allow_private) is Ok
            &&& method_ok(method)
            &&& url_parse(url) matches Ok(parts)
            &&& proxy_plan(url, method, headers, body, allow_private, lookup)->Send_0 == parts.0
            &&& parts.4 == Some(host)
        },
        lookup is None ==> !(proxy_plan(url, method, headers, body, allow_private, lookup) is Send),
{
}

/// A probe is only sent once its URL passed validation and its host, as
/// looked up, is not a metadata address; the URL sent is the serialization
/// of the validated URL, whose host is the one that passed.
pub proof fn lemma_probe_sends_only_allowed(base: Seq<char>, lookup: Option<HostAddress>)
    ensures
        lm_ping_plan(base, lookup) is Send ==> {
            &&& probe_url(base) matches Some(u)
            &&& url_verdict(url_parse(u)) matches Ok(host)
            &&& lookup matches Some(a)
            &&& host_class(a) matches Ok(k)
            &&& k != IpKind::BlockedMetadata
            &&& url_parse(u) matches Ok(parts)
            &&& lm_ping_plan(base, lookup)->Send_0 == parts.0
            &&& parts.4 == Some(host)
        },
{
}

} // verus!
