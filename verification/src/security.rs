//! The security boundary: URL facts, host canonicalisation, the public-web
//! address rules, central egress and HTTP authority policies, site access
//! capabilities, secret-header detection and redaction.

use crate::auth::opt_str;
use crate::keyed::{keys_unique, keyed_map, lemma_keyed_lookup, lemma_keyed_push, lemma_keyed_update};
use crate::ids::now_ms;
use crate::playback::str_eq;
use crate::text::{
    chars_of, contains_seq, lower, lower_char, lower_char_exec, lower_string, occurs_at,
    occurs_at_exec, starts_with, string_from_chars, strings_view, trim, trim_bounds,
};
use vstd::prelude::*;

verus! {

// ---------------------------------------------------------------------------
// URLs
// ---------------------------------------------------------------------------

#[verifier::external_type_specification]
#[verifier::external_body]
pub struct ExUrl(url::Url);

/// A parsed URL and its parts, as the `url` crate reports them.
pub struct UrlParts {
    url: url::Url,
    serialization: String,
    before_query: String,
    scheme: String,
    username: String,
    password: Option<String>,
    host: Option<String>,
    port: Option<u16>,
    path: String,
    query: Option<String>,
    fragment: Option<String>,
}

pub struct UrlView {
    pub serialization: Seq<char>,
    /// The serialization up to the end of the path: without query and
    /// fragment.
    pub before_query: Seq<char>,
    pub scheme: Seq<char>,
    pub username: Seq<char>,
    pub password: Option<Seq<char>>,
    pub host: Option<Seq<char>>,
    pub port: Option<u16>,
    pub path: Seq<char>,
    pub query: Option<Seq<char>>,
    pub fragment: Option<Seq<char>>,
}

impl View for UrlParts {
    type V = UrlView;

    closed spec fn view(&self) -> UrlView {
        UrlView {
            serialization: self.serialization@,
            before_query: self.before_query@,
            scheme: self.scheme@,
            username: self.username@,
            password: opt_str(self.password),
            host: opt_str(self.host),
            port: self.port,
            path: self.path@,
            query: opt_str(self.query),
            fragment: opt_str(self.fragment),
        }
    }
}

pub open spec fn opt_url(u: Option<UrlParts>) -> Option<UrlView> {
    match u {
        Some(u) => Some(u@),
        None => None,
    }
}

/// What `url::Url::parse` makes of a string: `None` where it refuses it.
pub uninterp spec fn url_parse(input: Seq<char>) -> Option<UrlView>;

/// Calls `url::Url::parse` and reads the parsed URL's parts through its
/// getters (`as_str`, the slice up to `Position::AfterPath`, `scheme`,
/// `username`, `password`, `host_str`, `port`, `path`, `query`,
/// `fragment`). What the parser makes of the input is named, not stated.
#[verifier::external_body]
fn parse_url_parts(input: &str) -> (r: Option<UrlParts>)
    ensures
        opt_url(r) == url_parse(input@),
{
    let u = match url::Url::parse(input) { Ok(u) => u, Err(_) => return None };
    Some(UrlParts {
        serialization: u.as_str().to_owned(),
        before_query: u[..url::Position::AfterPath].to_owned(),
        scheme: u.scheme().to_owned(),
        username: u.username().to_owned(),
        password: u.password().map(str::to_owned),
        host: u.host_str().map(str::to_owned),
        port: u.port(),
        path: u.path().to_owned(),
        query: u.query().map(str::to_owned),
        fragment: u.fragment().map(str::to_owned),
        url: u,
    })
}

/// What `url::Url::join` makes of `input` against the URL whose
/// serialization is `base`: the serialization of the joined URL, or `None`
/// where it refuses.
pub uninterp spec fn url_join(base: Seq<char>, input: Seq<char>) -> Option<Seq<char>>;

/// Calls `url::Url::join` on the parsed URL and gives back the joined URL's
/// serialization (`as_str`). What the join gives is named, not stated.
#[verifier::external_body]
fn join_serialization(base: &UrlParts, input: &str) -> (r: Option<String>)
    ensures
        opt_str(r) == url_join(base@.serialization, input@),
{
    match base.url.join(input) {
        Ok(u) => Some(u.as_str().to_owned()),
        Err(_) => None,
    }
}

/// The default port that the `url` crate knows for a scheme.
pub open spec fn url_known_default_port(scheme: Seq<char>) -> Option<u16> {
    if scheme == "http"@ || scheme == "ws"@ {
        Some(80u16)
    } else if scheme == "https"@ || scheme == "wss"@ {
        Some(443u16)
    } else if scheme == "ftp"@ {
        Some(21u16)
    } else {
        None
    }
}

pub open spec fn port_or_known_default_spec(u: UrlView) -> Option<u16> {
    match u.port {
        Some(p) => Some(p),
        None => url_known_default_port(u.scheme),
    }
}

pub open spec fn is_http_scheme(s: Seq<char>) -> bool {
    s == "http"@ || s == "https"@
}

fn is_http_scheme_exec(s: &str) -> (r: bool)
    ensures
        r == is_http_scheme(s@),
{
    str_eq(s, "http") || str_eq(s, "https")
}

impl UrlParts {
    /// Parses a URL.
    pub fn parse(input: &str) -> (r: Option<UrlParts>)
        ensures
            opt_url(r) == url_parse(input@),
    {
        parse_url_parts(input)
    }

    pub fn as_str(&self) -> (r: &str)
        ensures
            r@ == self@.serialization,
    {
        self.serialization.as_str()
    }

    pub fn scheme(&self) -> (r: &str)
        ensures
            r@ == self@.scheme,
    {
        self.scheme.as_str()
    }

    pub fn username(&self) -> (r: &str)
        ensures
            r@ == self@.username,
    {
        self.username.as_str()
    }

    pub fn password(&self) -> (r: Option<&str>)
        ensures
            r is Some == self@.password is Some,
            r is Some ==> r->0@ == self@.password->0,
    {
        match &self.password {
            Some(p) => Some(p.as_str()),
            None => None,
        }
    }

    pub fn host_str(&self) -> (r: Option<&str>)
        ensures
            r is Some == self@.host is Some,
            r is Some ==> r->0@ == self@.host->0,
    {
        match &self.host {
            Some(h) => Some(h.as_str()),
            None => None,
        }
    }

    pub fn port(&self) -> (r: Option<u16>)
        ensures
            r == self@.port,
    {
        self.port
    }

    /// The port, or the scheme's default where the `url` crate knows one
    /// (`http`/`ws` 80, `https`/`wss` 443, `ftp` 21).
    pub fn port_or_known_default(&self) -> (r: Option<u16>)
        ensures
            r == port_or_known_default_spec(self@),
    {
        match self.port {
            Some(p) => Some(p),
            None => {
                let s = self.scheme.as_str();
                if str_eq(s, "http") || str_eq(s, "ws") {
                    Some(80)
                } else if str_eq(s, "https") || str_eq(s, "wss") {
                    Some(443)
                } else if str_eq(s, "ftp") {
                    Some(21)
                } else {
                    None
                }
            },
        }
    }

    pub fn path(&self) -> (r: &str)
        ensures
            r@ == self@.path,
    {
        self.path.as_str()
    }

    pub fn query(&self) -> (r: Option<&str>)
        ensures
            r is Some == self@.query is Some,
            r is Some ==> r->0@ == self@.query->0,
    {
        match &self.query {
            Some(q) => Some(q.as_str()),
            None => None,
        }
    }

    pub fn fragment(&self) -> (r: Option<&str>)
        ensures
            r is Some == self@.fragment is Some,
            r is Some ==> r->0@ == self@.fragment->0,
    {
        match &self.fragment {
            Some(f) => Some(f.as_str()),
            None => None,
        }
    }
}

/// A reference resolved against a URL, as a redirect's `Location` is:
/// `None` where the join or the parse of its result is refused.
pub open spec fn join_outcome(base: UrlView, input: Seq<char>) -> Option<UrlView> {
    match url_join(base.serialization, input) {
        Some(joined) => url_parse(joined),
        None => None,
    }
}

impl UrlParts {
    pub fn join(&self, input: &str) -> (r: Option<UrlParts>)
        ensures
            opt_url(r) == join_outcome(self@, input@),
    {
        match join_serialization(self, input) {
            Some(joined) => UrlParts::parse(joined.as_str()),
            None => None,
        }
    }
}

/// Calls `Clone::clone` on a `url::Url`. Nothing is claimed of the copy here:
/// the parts that the library reads are copied beside it, and a clone of a
/// `Url` is an equal `Url`.
#[verifier::external_body]
fn copy_url(u: &url::Url) -> (r: url::Url) {
    u.clone()
}

fn copy_opt(o: &Option<String>) -> (r: Option<String>)
    ensures
        opt_str(r) == opt_str(*o),
{
    match o {
        Some(s) => Some(s.clone()),
        None => None,
    }
}

impl UrlParts {
    /// A copy of the URL and its parts.
    pub fn duplicate(&self) -> (r: UrlParts)
        ensures
            r@ == self@,
    {
        UrlParts {
            url: copy_url(&self.url),
            serialization: self.serialization.clone(),
            before_query: self.before_query.clone(),
            scheme: self.scheme.clone(),
            username: self.username.clone(),
            password: copy_opt(&self.password),
            host: copy_opt(&self.host),
            port: self.port,
            path: self.path.clone(),
            query: copy_opt(&self.query),
            fragment: copy_opt(&self.fragment),
        }
    }
}

/// The names of the pairs that `url::Url::query_pairs` reads from the query
/// of the URL whose serialization is given (form-urlencoded: split on `&`,
/// up to `=`, `+` as space, percent-decoded).
pub uninterp spec fn url_query_names(serialization: Seq<char>) -> Seq<Seq<char>>;

/// Calls `url::Url::query_pairs` on the parsed URL and keeps each pair's
/// name. What the decoding gives is named, not stated.
#[verifier::external_body]
fn query_pair_names(u: &UrlParts) -> (r: Vec<String>)
    ensures
        r@.map_values(|n: String| n@) == url_query_names(u@.serialization),
{
    u.url.query_pairs().map(|(name, _)| name.into_owned()).collect()
}

impl UrlParts {
    /// The decoded names of the query's pairs, in order.
    pub fn query_names(&self) -> (r: Vec<String>)
        ensures
            r@.map_values(|n: String| n@) == url_query_names(self@.serialization),
    {
        query_pair_names(self)
    }
}

/// The URL without its query and fragment, for diagnostics.
pub fn redact_url(url: &UrlParts) -> (r: String)
    ensures
        r@ == url@.before_query,
{
    url.before_query.clone()
}

// ---------------------------------------------------------------------------
// Hosts and schemes
// ---------------------------------------------------------------------------

/// `s` without its trailing dots.
pub open spec fn trim_dots(s: Seq<char>) -> Seq<char>
    decreases s.len(),
{
    if s.len() > 0 && s.last() == '.' {
        trim_dots(s.drop_last())
    } else {
        s
    }
}

/// The canonical form of a host: trailing dots removed, ASCII lowercased.
pub open spec fn canonical_host_spec(host: Seq<char>) -> Seq<char> {
    lower(trim_dots(host))
}

proof fn lemma_trim_dots_prefix(s: Seq<char>, k: int)
    requires
        0 <= k <= s.len(),
        forall|j: int| k <= j < s.len() ==> s[j] == '.',
    ensures
        trim_dots(s) == trim_dots(s.subrange(0, k)),
    decreases s.len() - k,
{
    if k < s.len() {
        assert(s.drop_last() =~= s.subrange(0, s.len() - 1));
        lemma_trim_dots_prefix(s.drop_last(), k);
        assert(s.drop_last().subrange(0, k) =~= s.subrange(0, k));
    } else {
        assert(s.subrange(0, k) =~= s);
    }
}

fn trim_dots_exec(s: &str) -> (r: Vec<char>)
    ensures
        r@ == trim_dots(s@),
{
    let mut v = chars_of(s);
    let ghost full = v@;
    while v.len() > 0 && v[v.len() - 1] == '.'
        invariant
            full == s@,
            v@.len() <= full.len(),
            v@ == full.subrange(0, v@.len() as int),
            trim_dots(full) == trim_dots(v@),
        decreases v@.len(),
    {
        let ghost before = v@;
        v.pop();
        assert(before.drop_last() =~= v@);
        assert(v@ =~= full.subrange(0, v@.len() as int));
    }
    v
}

pub fn canonical_host(host: &str) -> (r: String)
    ensures
        r@ == canonical_host_spec(host@),
{
    let trimmed = trim_dots_exec(host);
    let mut out: Vec<char> = Vec::new();
    let mut i: usize = 0;
    while i < trimmed.len()
        invariant
            i <= trimmed@.len(),
            out@ == lower(trimmed@.subrange(0, i as int)),
        decreases trimmed@.len() - i,
    {
        out.push(lower_char_exec(trimmed[i]));
        assert(lower(trimmed@.subrange(0, i + 1)) =~= lower(trimmed@.subrange(0, i as int)).push(
            lower_char(trimmed@[i as int]),
        ));
        i = i + 1;
    }
    assert(trimmed@.subrange(0, trimmed@.len() as int) =~= trimmed@);
    string_from_chars(out.as_slice())
}

pub open spec fn default_port_spec(scheme: Seq<char>) -> Option<u16> {
    if scheme == "http"@ {
        Some(80u16)
    } else if scheme == "https"@ {
        Some(443u16)
    } else {
        None
    }
}

pub fn default_port(scheme: &str) -> (r: Option<u16>)
    ensures
        r == default_port_spec(scheme@),
{
    if str_eq(scheme, "http") {
        Some(80)
    } else if str_eq(scheme, "https") {
        Some(443)
    } else {
        None
    }
}

/// Host names that always name the local machine or a cloud metadata
/// service.
pub open spec fn forbidden_hostname(host: Seq<char>) -> bool {
    let h = canonical_host_spec(host);
    ||| h == "localhost"@
    ||| (h.len() >= 10 && h.subrange(h.len() - 10, h.len() as int) == ".localhost"@)
    ||| h == "metadata.google.internal"@
    ||| h == "metadata"@
    ||| h == "ip6-localhost"@
}

pub fn is_forbidden_hostname(host: &str) -> (r: bool)
    ensures
        r == forbidden_hostname(host@),
{
    let h = canonical_host(host);
    let hs = h.as_str();
    let suffix = ".localhost";
    let ends_localhost = ends_with_str(hs, suffix);
    proof {
        reveal_strlit(".localhost");
    }
    str_eq(hs, "localhost") || ends_localhost || str_eq(hs, "metadata.google.internal") || str_eq(
        hs,
        "metadata",
    ) || str_eq(hs, "ip6-localhost")
}

fn ends_with_str(s: &str, suffix: &str) -> (r: bool)
    ensures
        r == (suffix@.len() <= s@.len() && s@.subrange(s@.len() - suffix@.len(), s@.len() as int)
            == suffix@),
{
    let sv = chars_of(s);
    let pv = chars_of(suffix);
    if pv.len() > sv.len() {
        return false;
    }
    let start = sv.len() - pv.len();
    let r = occurs_at_exec(sv.as_slice(), pv.as_slice(), start);
    r
}

// ---------------------------------------------------------------------------
// Addresses
// ---------------------------------------------------------------------------

/// An IP address: four octets, or eight 16-bit segments.
#[derive(Clone, Copy, Debug, PartialEq, Eq)]
pub enum IpAddress {
    V4([u8; 4]),
    V6([u16; 8]),
}

/// An IP address with a port.
#[derive(Clone, Copy, Debug, PartialEq, Eq)]
pub struct SocketAddress {
    pub ip: IpAddress,
    pub port: u16,
}

/// The IPv4 ranges that std's `Ipv4Addr` documents for `is_private`,
/// `is_loopback`, `is_link_local`, `is_multicast`, `is_unspecified`,
/// `is_broadcast` and `is_documentation`, and the further reserved ranges
/// that are never public web targets: `0/8`, shared `100.64/10`, IETF
/// `192.0.0/24`, relay `192.88.99/24`, benchmarking `198.18/15`, `240/4`.
pub open spec fn public_v4(o: Seq<u8>) -> bool {
    let private = o[0] == 10 || (o[0] == 172 && 16 <= o[1] <= 31) || (o[0] == 192 && o[1] == 168);
    let loopback = o[0] == 127;
    let link_local = o[0] == 169 && o[1] == 254;
    let multicast = 224 <= o[0] <= 239;
    let unspecified = o[0] == 0 && o[1] == 0 && o[2] == 0 && o[3] == 0;
    let broadcast = o[0] == 255 && o[1] == 255 && o[2] == 255 && o[3] == 255;
    let documentation = (o[0] == 192 && o[1] == 0 && o[2] == 2) || (o[0] == 198 && o[1] == 51
        && o[2] == 100) || (o[0] == 203 && o[1] == 0 && o[2] == 113);
    !(private || loopback || link_local || multicast || unspecified || broadcast || documentation
        || o[0] == 0 || (o[0] == 100 && 64 <= o[1] <= 127) || (o[0] == 192 && o[1] == 0 && o[2]
        == 0) || (o[0] == 192 && o[1] == 88 && o[2] == 99) || (o[0] == 198 && (o[1] == 18 || o[1]
        == 19)) || o[0] >= 240)
}

/// An IPv4-mapped IPv6 address `::ffff:a.b.c.d` carries the IPv4 address.
pub open spec fn mapped_v4(s: Seq<u16>) -> Option<Seq<u8>> {
    if s[0] == 0 && s[1] == 0 && s[2] == 0 && s[3] == 0 && s[4] == 0 && s[5] == 0xffff {
        Some(seq![(s[6] >> 8u16) as u8, s[6] as u8, (s[7] >> 8u16) as u8, s[7] as u8])
    } else {
        None
    }
}

/// IPv6: not an IPv4-mapped non-public address, loopback `::1`,
/// unspecified `::`, multicast `ff00::/8`, unique local `fc00::/7`, link
/// local `fe80::/10`, documentation `2001:db8::/32`, benchmarking
/// `2001:2::/48` or ORCHID `2001:10::/28`.
pub open spec fn public_v6(s: Seq<u16>) -> bool {
    let zero6 = s[0] == 0 && s[1] == 0 && s[2] == 0 && s[3] == 0 && s[4] == 0 && s[5] == 0;
    let loopback = zero6 && s[6] == 0 && s[7] == 1;
    let unspecified = zero6 && s[6] == 0 && s[7] == 0;
    let multicast = (s[0] & 0xff00u16) == 0xff00u16;
    !((mapped_v4(s) is Some && !public_v4(mapped_v4(s)->0)) || loopback || unspecified || multicast
        || (s[0] & 0xfe00u16) == 0xfc00u16 || (s[0] & 0xffc0u16) == 0xfe80u16 || (s[0] == 0x2001
        && s[1] == 0x0db8) || (s[0] == 0x2001 && s[1] == 0x0002) || (s[0] == 0x2001 && (s[1]
        & 0xfff0u16) == 0x0010u16))
}

pub open spec fn public_ip(ip: IpAddress) -> bool {
    match ip {
        IpAddress::V4(o) => public_v4(o@),
        IpAddress::V6(s) => public_v6(s@),
    }
}

fn is_public_v4(o: [u8; 4]) -> (r: bool)
    ensures
        r == public_v4(o@),
{
    let private = o[0] == 10 || (o[0] == 172 && 16 <= o[1] && o[1] <= 31) || (o[0] == 192 && o[1]
        == 168);
    let loopback = o[0] == 127;
    let link_local = o[0] == 169 && o[1] == 254;
    let multicast = 224 <= o[0] && o[0] <= 239;
    let unspecified = o[0] == 0 && o[1] == 0 && o[2] == 0 && o[3] == 0;
    let broadcast = o[0] == 255 && o[1] == 255 && o[2] == 255 && o[3] == 255;
    let documentation = (o[0] == 192 && o[1] == 0 && o[2] == 2) || (o[0] == 198 && o[1] == 51
        && o[2] == 100) || (o[0] == 203 && o[1] == 0 && o[2] == 113);
    !(private || loopback || link_local || multicast || unspecified || broadcast || documentation
        || o[0] == 0 || (o[0] == 100 && 64 <= o[1] && o[1] <= 127) || (o[0] == 192 && o[1] == 0
        && o[2] == 0) || (o[0] == 192 && o[1] == 88 && o[2] == 99) || (o[0] == 198 && (o[1] == 18
        || o[1] == 19)) || o[0] >= 240)
}

fn is_public_v6(s: [u16; 8]) -> (r: bool)
    ensures
        r == public_v6(s@),
{
    let zero6 = s[0] == 0 && s[1] == 0 && s[2] == 0 && s[3] == 0 && s[4] == 0 && s[5] == 0;
    let mapped_private = if s[0] == 0 && s[1] == 0 && s[2] == 0 && s[3] == 0 && s[4] == 0 && s[5] == 0xffff {
        let o: [u8; 4] = [(s[6] >> 8u16) as u8, s[6] as u8, (s[7] >> 8u16) as u8, s[7] as u8];
        assert(o@ =~= mapped_v4(s@)->0);
        !is_public_v4(o)
    } else {
        false
    };
    let loopback = zero6 && s[6] == 0 && s[7] == 1;
    let unspecified = zero6 && s[6] == 0 && s[7] == 0;
    let multicast = (s[0] & 0xff00u16) == 0xff00u16;
    !(mapped_private || loopback || unspecified || multicast || (s[0] & 0xfe00u16) == 0xfc00u16
        || (s[0] & 0xffc0u16) == 0xfe80u16 || (s[0] == 0x2001 && s[1] == 0x0db8) || (s[0] == 0x2001
        && s[1] == 0x0002) || (s[0] == 0x2001 && (s[1] & 0xfff0u16) == 0x0010u16))
}

/// Whether an address may be reached as a public web target.
pub fn is_public_web_ip(ip: IpAddress) -> (r: bool)
    ensures
        r == public_ip(ip),
{
    match ip {
        IpAddress::V4(o) => is_public_v4(o),
        IpAddress::V6(s) => is_public_v6(s),
    }
}

// ---------------------------------------------------------------------------
// Whitespace and secret headers
// ---------------------------------------------------------------------------

/// Header names that always carry credentials.
pub open spec fn secret_header_name(name: Seq<char>) -> bool {
    let n = lower(name);
    ||| n == "authorization"@
    ||| n == "proxy-authorization"@
    ||| n == "cookie"@
    ||| n == "set-cookie"@
    ||| n == "x-api-key"@
    ||| n == "x-auth-token"@
    ||| n == "proxy-authenticate"@
}

/// A header is secret by its name, or when its trimmed value is a bearer or
/// basic credential.
pub open spec fn secret_header(name: Seq<char>, value: Seq<char>) -> bool {
    let v = lower(trim(value));
    secret_header_name(name) || starts_with(v, "bearer "@) || starts_with(v, "basic "@)
}

fn seq_eq_str(v: &Vec<char>, s: &str) -> (r: bool)
    ensures
        r == (v@ == s@),
{
    let t = chars_of(s);
    if t.len() != v.len() {
        return false;
    }
    let r = occurs_at_exec(v.as_slice(), t.as_slice(), 0);
    assert(r ==> v@.subrange(0, t@.len() as int) == t@);
    assert(v@.subrange(0, v@.len() as int) =~= v@);
    r
}

fn starts_with_str(v: &Vec<char>, s: &str) -> (r: bool)
    ensures
        r == starts_with(v@, s@),
{
    let t = chars_of(s);
    occurs_at_exec(v.as_slice(), t.as_slice(), 0)
}

pub fn is_secret_header(name: &str, value: &str) -> (r: bool)
    ensures
        r == secret_header(name@, value@),
{
    let n = lower_string(name);
    let name_secret = seq_eq_str(&n, "authorization") || seq_eq_str(&n, "proxy-authorization")
        || seq_eq_str(&n, "cookie") || seq_eq_str(&n, "set-cookie") || seq_eq_str(&n, "x-api-key")
        || seq_eq_str(&n, "x-auth-token") || seq_eq_str(&n, "proxy-authenticate");
    let raw = chars_of(value);
    let (start, end) = trim_bounds(&raw);
    let mut lowered: Vec<char> = Vec::new();
    let mut i: usize = start;
    while i < end
        invariant
            start <= i <= end <= raw@.len(),
            lowered@ == lower(raw@.subrange(start as int, i as int)),
        decreases end - i,
    {
        lowered.push(lower_char_exec(raw[i]));
        assert(lower(raw@.subrange(start as int, i + 1)) =~= lower(
            raw@.subrange(start as int, i as int),
        ).push(lower_char(raw@[i as int])));
        i = i + 1;
    }
    name_secret || starts_with_str(&lowered, "bearer ") || starts_with_str(&lowered, "basic ")
}

// ---------------------------------------------------------------------------
// Redaction
// ---------------------------------------------------------------------------

pub open spec fn redaction_marker() -> Seq<char> {
    "[REDACTED]"@
}

/// Every non-overlapping occurrence of `p` in `s`, from the left, replaced
/// by `r`, as `str::replace` does for a non-empty pattern.
pub open spec fn replace_all(s: Seq<char>, p: Seq<char>, r: Seq<char>) -> Seq<char>
    decreases s.len(),
{
    if s.len() == 0 || p.len() == 0 {
        s
    } else if starts_with(s, p) {
        r + replace_all(s.skip(p.len() as int), p, r)
    } else {
        seq![s[0]] + replace_all(s.skip(1), p, r)
    }
}

/// Each non-empty secret in turn replaced by the marker.
pub open spec fn redact_spec(input: Seq<char>, secrets: Seq<Seq<char>>) -> Seq<char>
    decreases secrets.len(),
{
    if secrets.len() == 0 {
        input
    } else {
        replace_all(redact_spec(input, secrets.drop_last()), secrets.last(), redaction_marker())
    }
}

proof fn lemma_starts_with_skip(s: Seq<char>, p: Seq<char>, i: int)
    requires
        0 <= i <= s.len(),
    ensures
        starts_with(s.skip(i), p) == occurs_at(s, p, i),
{
    if p.len() <= s.len() - i {
        assert(s.skip(i).subrange(0, p.len() as int) =~= s.subrange(i, i + p.len()));
    }
}

fn replace_chars(s: &Vec<char>, p: &Vec<char>, r: &Vec<char>) -> (out: Vec<char>)
    ensures
        out@ == replace_all(s@, p@, r@),
{
    if p.len() == 0 {
        let mut copy: Vec<char> = Vec::new();
        let mut k: usize = 0;
        while k < s.len()
            invariant
                k <= s@.len(),
                copy@ == s@.take(k as int),
            decreases s@.len() - k,
        {
            copy.push(s[k]);
            assert(copy@ =~= s@.take(k + 1));
            k = k + 1;
        }
        assert(s@.take(s@.len() as int) =~= s@);
        return copy;
    }
    let n = s.len();
    let mut out: Vec<char> = Vec::new();
    let mut i: usize = 0;
    assert(s@.skip(0) =~= s@);
    assert(out@ + replace_all(s@, p@, r@) =~= replace_all(s@, p@, r@));
    while i < n
        invariant
            n == s@.len(),
            p@.len() > 0,
            i <= n,
            out@ + replace_all(s@.skip(i as int), p@, r@) == replace_all(s@, p@, r@),
        decreases n - i,
    {
        let ghost t = s@.skip(i as int);
        proof {
            lemma_starts_with_skip(s@, p@, i as int);
        }
        if occurs_at_exec(s.as_slice(), p.as_slice(), i) {
            let mut k: usize = 0;
            let ghost before = out@;
            while k < r.len()
                invariant
                    k <= r@.len(),
                    out@ == before + r@.take(k as int),
                decreases r@.len() - k,
            {
                out.push(r[k]);
                assert(out@ =~= before + r@.take(k + 1));
                k = k + 1;
            }
            assert(r@.take(r@.len() as int) =~= r@);
            assert(t.skip(p@.len() as int) =~= s@.skip(i + p@.len()));
            assert(before + (r@ + replace_all(t.skip(p@.len() as int), p@, r@)) =~= out@
                + replace_all(s@.skip(i + p@.len()), p@, r@));
            i = i + p.len();
        } else {
            let ghost before = out@;
            out.push(s[i]);
            assert(t[0] == s@[i as int]);
            assert(t.skip(1) =~= s@.skip(i + 1));
            assert(before + (seq![t[0]] + replace_all(t.skip(1), p@, r@)) =~= out@ + replace_all(
                s@.skip(i + 1),
                p@,
                r@,
            ));
            i = i + 1;
        }
    }
    assert(s@.skip(n as int) =~= Seq::<char>::empty());
    assert(out@ + Seq::<char>::empty() =~= out@);
    out
}

/// Replaces every occurrence of each non-empty secret by `[REDACTED]`.
pub fn redact_text(input: &str, secrets: &[&str]) -> (r: String)
    ensures
        r@ == redact_spec(input@, secrets@.map_values(|s: &str| s@)),
{
    let marker = chars_of("[REDACTED]");
    let mut out = chars_of(input);
    let mut k: usize = 0;
    while k < secrets.len()
        invariant
            k <= secrets@.len(),
            marker@ == redaction_marker(),
            out@ == redact_spec(input@, secrets@.map_values(|s: &str| s@).take(k as int)),
        decreases secrets@.len() - k,
    {
        let p = chars_of(secrets[k]);
        let ghost ss = secrets@.map_values(|s: &str| s@);
        assert(ss.take(k + 1).drop_last() =~= ss.take(k as int));
        assert(ss.take(k + 1).last() == p@);
        out = replace_chars(&out, &p, &marker);
        k = k + 1;
    }
    assert(secrets@.map_values(|s: &str| s@).take(secrets@.len() as int) =~= secrets@.map_values(
        |s: &str| s@,
    ));
    string_from_chars(out.as_slice())
}

/// No character of `q` occurs in the redaction marker.
pub open spec fn free_of_marker(q: Seq<char>) -> bool {
    forall|i: int| 0 <= i < q.len() ==> !redaction_marker().contains(#[trigger] q[i])
}

proof fn lemma_free_of_marker_skip(q: Seq<char>)
    requires
        free_of_marker(q),
        q.len() > 0,
    ensures
        free_of_marker(q.skip(1)),
{
    assert forall|i: int| 0 <= i < q.skip(1).len() implies !redaction_marker().contains(
        #[trigger] q.skip(1)[i],
    ) by {
        assert(q.skip(1)[i] == q[i + 1]);
    }
}

/// A marker-free prefix of a replaced text is a prefix of the text.
proof fn lemma_replace_keeps_free_prefix(t: Seq<char>, b: Seq<char>, q: Seq<char>)
    requires
        free_of_marker(q),
        starts_with(replace_all(t, b, redaction_marker()), q),
    ensures
        starts_with(t, q),
    decreases t.len(),
{
    let m = redaction_marker();
    reveal_strlit("[REDACTED]");
    let out = replace_all(t, b, m);
    if q.len() == 0 {
        assert(t.subrange(0, 0) =~= q);
    } else if t.len() == 0 || b.len() == 0 {
    } else if starts_with(t, b) {
        assert(out == m + replace_all(t.skip(b.len() as int), b, m));
        assert(out.subrange(0, q.len() as int)[0] == q[0]);
        assert(out[0] == m[0]);
        assert(m.contains(q[0]));
    } else {
        let rest = replace_all(t.skip(1), b, m);
        assert(out == seq![t[0]] + rest);
        assert(out.subrange(0, q.len() as int)[0] == q[0]);
        let q1 = q.skip(1);
        assert(rest.subrange(0, q1.len() as int) =~= out.subrange(0, q.len() as int).skip(1));
        lemma_free_of_marker_skip(q);
        lemma_replace_keeps_free_prefix(t.skip(1), b, q1);
        assert(out[0] == t[0]);
        assert(q =~= seq![q[0]] + q1);
        assert(t.subrange(0, q.len() as int) =~= seq![t[0]] + t.skip(1).subrange(
            0,
            q1.len() as int,
        ));
    }
}

/// Replacing a pattern by the marker creates no occurrence of a marker-free
/// text.
proof fn lemma_replace_creates_no_free_text(t: Seq<char>, b: Seq<char>, a: Seq<char>)
    requires
        a.len() > 0,
        free_of_marker(a),
        !contains_seq(t, a),
    ensures
        !contains_seq(replace_all(t, b, redaction_marker()), a),
    decreases t.len(),
{
    let m = redaction_marker();
    reveal_strlit("[REDACTED]");
    let out = replace_all(t, b, m);
    if t.len() == 0 || b.len() == 0 {
    } else if starts_with(t, b) {
        let t1 = t.skip(b.len() as int);
        let rest = replace_all(t1, b, m);
        assert(out == m + rest);
        assert forall|i: int| !occurs_at(t1, a, i) by {
            if occurs_at(t1, a, i) {
                assert(t.subrange(i + b.len(), i + b.len() + a.len()) =~= t1.subrange(
                    i,
                    i + a.len(),
                ));
                assert(occurs_at(t, a, i + b.len()));
            }
        }
        lemma_replace_creates_no_free_text(t1, b, a);
        assert forall|k: int| !occurs_at(out, a, k) by {
            if occurs_at(out, a, k) {
                if k < m.len() {
                    assert(out.subrange(k, k + a.len())[0] == a[0]);
                    assert(out[k] == m[k]);
                    assert(m.contains(a[0]));
                } else {
                    assert(out.subrange(k, k + a.len()) =~= rest.subrange(
                        k - m.len(),
                        k - m.len() + a.len(),
                    ));
                    assert(occurs_at(rest, a, k - m.len()));
                }
            }
        }
    } else {
        let t1 = t.skip(1);
        let rest = replace_all(t1, b, m);
        assert(out == seq![t[0]] + rest);
        assert forall|i: int| !occurs_at(t1, a, i) by {
            if occurs_at(t1, a, i) {
                assert(t.subrange(i + 1, i + 1 + a.len()) =~= t1.subrange(i, i + a.len()));
                assert(occurs_at(t, a, i + 1));
            }
        }
        lemma_replace_creates_no_free_text(t1, b, a);
        assert forall|k: int| !occurs_at(out, a, k) by {
            if occurs_at(out, a, k) {
                if k == 0 {
                    let a1 = a.skip(1);
                    lemma_free_of_marker_skip(a);
                    assert(rest.subrange(0, a1.len() as int) =~= out.subrange(0, a.len() as int).skip(1));
                    lemma_replace_keeps_free_prefix(t1, b, a1);
                    assert(out.subrange(0, a.len() as int)[0] == a[0]);
                    assert(out[0] == t[0]);
                    assert(a =~= seq![a[0]] + a1);
                    assert(t.subrange(0, a.len() as int) =~= seq![t[0]] + t1.subrange(
                        0,
                        a1.len() as int,
                    ));
                    assert(occurs_at(t, a, 0));
                } else {
                    assert(out.subrange(k, k + a.len()) =~= rest.subrange(k - 1, k - 1 + a.len()));
                    assert(occurs_at(rest, a, k - 1));
                }
            }
        }
    }
}

/// After replacing a marker-free pattern by the marker, the pattern no
/// longer occurs.
proof fn lemma_replace_removes_pattern(s: Seq<char>, p: Seq<char>)
    requires
        p.len() > 0,
        free_of_marker(p),
    ensures
        !contains_seq(replace_all(s, p, redaction_marker()), p),
    decreases s.len(),
{
    let m = redaction_marker();
    reveal_strlit("[REDACTED]");
    let out = replace_all(s, p, m);
    if s.len() == 0 {
        assert(out == s);
        assert forall|k: int| !occurs_at(out, p, k) by {}
    } else if starts_with(s, p) {
        let rest = replace_all(s.skip(p.len() as int), p, m);
        assert(out == m + rest);
        lemma_replace_removes_pattern(s.skip(p.len() as int), p);
        assert forall|k: int| !occurs_at(out, p, k) by {
            if occurs_at(out, p, k) {
                if k < m.len() {
                    assert(out.subrange(k, k + p.len())[0] == p[0]);
                    assert(out[k] == m[k]);
                    assert(m.contains(p[0]));
                } else {
                    assert(out.subrange(k, k + p.len()) =~= rest.subrange(
                        k - m.len(),
                        k - m.len() + p.len(),
                    ));
                    assert(occurs_at(rest, p, k - m.len()));
                }
            }
        }
    } else {
        let s1 = s.skip(1);
        let rest = replace_all(s1, p, m);
        assert(out == seq![s[0]] + rest);
        lemma_replace_removes_pattern(s1, p);
        assert forall|k: int| !occurs_at(out, p, k) by {
            if occurs_at(out, p, k) {
                if k == 0 {
                    let p1 = p.skip(1);
                    lemma_free_of_marker_skip(p);
                    assert(rest.subrange(0, p1.len() as int) =~= out.subrange(0, p.len() as int).skip(1));
                    lemma_replace_keeps_free_prefix(s1, p, p1);
                    assert(out.subrange(0, p.len() as int)[0] == p[0]);
                    assert(out[0] == s[0]);
                    assert(p =~= seq![p[0]] + p1);
                    assert(s.subrange(0, p.len() as int) =~= seq![s[0]] + s1.subrange(
                        0,
                        p1.len() as int,
                    ));
                } else {
                    assert(out.subrange(k, k + p.len()) =~= rest.subrange(k - 1, k - 1 + p.len()));
                    assert(occurs_at(rest, p, k - 1));
                }
            }
        }
    }
}

/// Redaction removes the secret material: no non-empty secret that shares
/// no character with the `[REDACTED]` marker occurs in the redacted text.
pub proof fn law_redaction_removes_secrets(input: Seq<char>, secrets: Seq<Seq<char>>, i: int)
    requires
        0 <= i < secrets.len(),
        forall|j: int| 0 <= j < secrets.len() ==> (#[trigger] secrets[j]).len() > 0 && free_of_marker(
            secrets[j],
        ),
    ensures
        !contains_seq(redact_spec(input, secrets), secrets[i]),
    decreases secrets.len(),
{
    let last = secrets.last();
    let prefix = secrets.drop_last();
    assert(secrets[secrets.len() - 1] == last);
    if i == secrets.len() - 1 {
        lemma_replace_removes_pattern(redact_spec(input, prefix), last);
    } else {
        assert(prefix[i] == secrets[i]);
        assert forall|j: int| 0 <= j < prefix.len() implies (#[trigger] prefix[j]).len() > 0
            && free_of_marker(prefix[j]) by {
            assert(prefix[j] == secrets[j]);
        }
        law_redaction_removes_secrets(input, prefix, i);
        lemma_replace_creates_no_free_text(redact_spec(input, prefix), last, secrets[i]);
    }
}

// ---------------------------------------------------------------------------
// Egress policy
// ---------------------------------------------------------------------------

#[derive(Clone, Debug, PartialEq, Eq)]
pub enum EgressScope {
    PublicWeb,
    /// Only useful when the core holds an administrator-created entry of the
    /// same name; it is neither a caller-selected URL nor a bypass flag.
    ConfiguredLocalService(String),
}

#[derive(Clone, Copy, Debug, PartialEq, Eq, Structural)]
pub enum EgressPolicyError {
    InvalidScheme,
    MissingHost,
    InvalidPort,
    DnsLookupFailed,
    TargetRejected,
    LocalServiceNotConfigured,
    LocalServiceOriginMismatch,
}

struct LocalService {
    name: String,
    scheme: String,
    host: String,
    port: Option<u16>,
}

pub struct ServiceView {
    pub scheme: Seq<char>,
    pub host: Seq<char>,
    pub port: Option<u16>,
}

spec fn service_key(s: LocalService) -> Seq<char> {
    s.name@
}

spec fn service_val(s: LocalService) -> ServiceView {
    ServiceView { scheme: s.scheme@, host: s.host@, port: s.port }
}

/// The central egress policy: the public web, or administrator-configured
/// local services by name.
pub struct EgressPolicy {
    local_services: Vec<LocalService>,
}

impl View for EgressPolicy {
    type V = Map<Seq<char>, ServiceView>;

    closed spec fn view(&self) -> Map<Seq<char>, ServiceView> {
        keyed_map(
            self.local_services@,
            |s: LocalService| service_key(s),
            |s: LocalService| service_val(s),
        )
    }
}

/// Configuring a local service: an http(s) origin with a host and a port,
/// under a non-empty name; the host is kept ASCII-lowercased.
pub open spec fn configure_outcome(
    m: Map<Seq<char>, ServiceView>,
    name: Seq<char>,
    origin: UrlView,
) -> (Map<Seq<char>, ServiceView>, Result<(), EgressPolicyError>) {
    if !is_http_scheme(origin.scheme) {
        (m, Err(EgressPolicyError::InvalidScheme))
    } else if origin.host is None {
        (m, Err(EgressPolicyError::MissingHost))
    } else if port_or_known_default_spec(origin) is None {
        (m, Err(EgressPolicyError::InvalidPort))
    } else if name.len() == 0 {
        (m, Err(EgressPolicyError::LocalServiceNotConfigured))
    } else {
        (
            m.insert(
                name,
                ServiceView {
                    scheme: origin.scheme,
                    host: lower(origin.host->0),
                    port: port_or_known_default_spec(origin),
                },
            ),
            Ok(()),
        )
    }
}

/// Where a validated request may go: the host and port to resolve, and
/// whether every resolved address must be a public web address.
#[derive(Clone, Debug, PartialEq, Eq)]
pub struct TargetPlan {
    pub host: String,
    pub port: u16,
    pub require_public: bool,
}

pub struct PlanView {
    pub host: Seq<char>,
    pub port: u16,
    pub require_public: bool,
}

pub open spec fn plan_view(r: Result<TargetPlan, EgressPolicyError>) -> Result<
    PlanView,
    EgressPolicyError,
> {
    match r {
        Ok(p) => Ok(PlanView { host: p.host@, port: p.port, require_public: p.require_public }),
        Err(e) => Err(e),
    }
}

pub open spec fn eq_ignore_ascii_case(a: Seq<char>, b: Seq<char>) -> bool {
    lower(a) == lower(b)
}

/// The checks made before any name resolution.
pub open spec fn plan_outcome(m: Map<Seq<char>, ServiceView>, u: UrlView, scope: EgressScope) -> Result<
    PlanView,
    EgressPolicyError,
> {
    if !is_http_scheme(u.scheme) {
        Err(EgressPolicyError::InvalidScheme)
    } else if u.host is None {
        Err(EgressPolicyError::MissingHost)
    } else if port_or_known_default_spec(u) is None {
        Err(EgressPolicyError::InvalidPort)
    } else {
        let host = u.host->0;
        let port = port_or_known_default_spec(u)->0;
        match scope {
            EgressScope::PublicWeb => if forbidden_hostname(host) {
                Err(EgressPolicyError::TargetRejected)
            } else {
                Ok(PlanView { host, port, require_public: true })
            },
            EgressScope::ConfiguredLocalService(name) => if !m.contains_key(name@) {
                Err(EgressPolicyError::LocalServiceNotConfigured)
            } else if !eq_ignore_ascii_case(u.scheme, m[name@].scheme) || !eq_ignore_ascii_case(
                host,
                m[name@].host,
            ) || Some(port) != m[name@].port {
                Err(EgressPolicyError::LocalServiceOriginMismatch)
            } else {
                Ok(PlanView { host, port, require_public: false })
            },
        }
    }
}

/// A target whose resolved addresses passed the policy.
#[derive(Clone, Debug, PartialEq, Eq)]
pub struct ValidatedTarget {
    host: String,
    addresses: Vec<SocketAddress>,
}

impl ValidatedTarget {
    pub closed spec fn host_view(&self) -> Seq<char> {
        self.host@
    }

    pub closed spec fn addresses_view(&self) -> Seq<SocketAddress> {
        self.addresses@
    }

    pub fn host(&self) -> (r: &str)
        ensures
            r@ == self.host_view(),
    {
        self.host.as_str()
    }

    pub fn addresses(&self) -> (r: &[SocketAddress])
        ensures
            r@ == self.addresses_view(),
    {
        self.addresses.as_slice()
    }
}

pub(crate) fn lower_eq(a: &str, b: &str) -> (r: bool)
    ensures
        r == eq_ignore_ascii_case(a@, b@),
{
    let la = lower_string(a);
    let lb = lower_string(b);
    if la.len() != lb.len() {
        return false;
    }
    let r = occurs_at_exec(la.as_slice(), lb.as_slice(), 0);
    assert(la@.subrange(0, la@.len() as int) =~= la@);
    r
}

impl EgressPolicy {
    pub fn new() -> (r: Self)
        ensures
            r@ == Map::<Seq<char>, ServiceView>::empty(),
            r.wf(),
    {
        let r = EgressPolicy { local_services: Vec::new() };
        assert(r@ =~= Map::<Seq<char>, ServiceView>::empty());
        r
    }

    pub closed spec fn wf(&self) -> bool {
        keys_unique(self.local_services@, |s: LocalService| service_key(s))
    }

    fn find(&self, name: &str) -> (r: Option<usize>)
        requires
            self.wf(),
        ensures
            r is None ==> !self@.contains_key(name@),
            r is Some ==> r->0 < self.local_services@.len() && service_key(
                self.local_services@[r->0 as int],
            ) == name@ && self@.contains_key(name@) && self@[name@] == service_val(
                self.local_services@[r->0 as int],
            ),
    {
        let mut i: usize = 0;
        while i < self.local_services.len()
            invariant
                self.wf(),
                i <= self.local_services@.len(),
                forall|j: int|
                    0 <= j < i ==> service_key(#[trigger] self.local_services@[j]) != name@,
            decreases self.local_services@.len() - i,
        {
            if str_eq(self.local_services[i].name.as_str(), name) {
                proof {
                    lemma_keyed_lookup(
                        self.local_services@,
                        |s: LocalService| service_key(s),
                        |s: LocalService| service_val(s),
                        i as int,
                    );
                }
                return Some(i);
            }
            i = i + 1;
        }
        None
    }

    /// Registers an administrator-configured local service under a name.
    pub fn configure_local_service(&mut self, name: &str, origin: &UrlParts) -> (r: Result<
        (),
        EgressPolicyError,
    >)
        requires
            old(self).wf(),
        ensures
            final(self).wf(),
            (final(self)@, r) == configure_outcome(old(self)@, name@, origin@),
    {
        if !is_http_scheme_exec(origin.scheme()) {
            return Err(EgressPolicyError::InvalidScheme);
        }
        let host = match origin.host_str() {
            Some(h) => lower_string(h),
            None => {
                return Err(EgressPolicyError::MissingHost);
            },
        };
        let port = match origin.port_or_known_default() {
            Some(p) => p,
            None => {
                return Err(EgressPolicyError::InvalidPort);
            },
        };
        if name.is_empty() {
            return Err(EgressPolicyError::LocalServiceNotConfigured);
        }
        let service = LocalService {
            name: name.to_owned(),
            scheme: origin.scheme().to_owned(),
            host: string_from_chars(host.as_slice()),
            port: Some(port),
        };
        match self.find(name) {
            Some(i) => {
                proof {
                    lemma_keyed_update(
                        self.local_services@,
                        |s: LocalService| service_key(s),
                        |s: LocalService| service_val(s),
                        i as int,
                        service,
                    );
                }
                self.local_services.set(i, service);
            },
            None => {
                proof {
                    lemma_keyed_push(
                        self.local_services@,
                        |s: LocalService| service_key(s),
                        |s: LocalService| service_val(s),
                        service,
                    );
                }
                self.local_services.push(service);
            },
        }
        Ok(())
    }

    /// The checks of a request target that come before name resolution.
    pub fn plan_target(&self, url: &UrlParts, scope: &EgressScope) -> (r: Result<
        TargetPlan,
        EgressPolicyError,
    >)
        requires
            self.wf(),
        ensures
            plan_view(r) == plan_outcome(self@, url@, *scope),
    {
        if !is_http_scheme_exec(url.scheme()) {
            return Err(EgressPolicyError::InvalidScheme);
        }
        let host = match url.host_str() {
            Some(h) => h,
            None => {
                return Err(EgressPolicyError::MissingHost);
            },
        };
        let port = match url.port_or_known_default() {
            Some(p) => p,
            None => {
                return Err(EgressPolicyError::InvalidPort);
            },
        };
        match scope {
            EgressScope::PublicWeb => {
                if is_forbidden_hostname(host) {
                    return Err(EgressPolicyError::TargetRejected);
                }
                Ok(TargetPlan { host: host.to_owned(), port, require_public: true })
            },
            EgressScope::ConfiguredLocalService(name) => {
                let i = match self.find(name.as_str()) {
                    Some(i) => i,
                    None => {
                        return Err(EgressPolicyError::LocalServiceNotConfigured);
                    },
                };
                let service = &self.local_services[i];
                let port_matches = match service.port {
                    Some(p) => p == port,
                    None => false,
                };
                if !lower_eq(url.scheme(), service.scheme.as_str()) || !lower_eq(
                    host,
                    service.host.as_str(),
                ) || !port_matches {
                    return Err(EgressPolicyError::LocalServiceOriginMismatch);
                }
                Ok(TargetPlan { host: host.to_owned(), port, require_public: false })
            },
        }
    }

    /// Accepts the addresses that a plan's host resolved to: there must be
    /// some, and for the public web every one must be a public address.
    pub fn accept_resolved(plan: &TargetPlan, addresses: Vec<SocketAddress>) -> (r: Result<
        ValidatedTarget,
        EgressPolicyError,
    >)
        ensures
            (addresses@.len() == 0 || (plan.require_public && exists|i: int|
                0 <= i < addresses@.len() && !public_ip(#[trigger] addresses@[i].ip))) ==> r
                == Err::<ValidatedTarget, EgressPolicyError>(EgressPolicyError::TargetRejected),
            !(addresses@.len() == 0 || (plan.require_public && exists|i: int|
                0 <= i < addresses@.len() && !public_ip(#[trigger] addresses@[i].ip))) ==> r is Ok
                && r->Ok_0.host_view() == plan.host@ && r->Ok_0.addresses_view() == addresses@,
    {
        if addresses.len() == 0 {
            return Err(EgressPolicyError::TargetRejected);
        }
        if plan.require_public {
            let mut i: usize = 0;
            while i < addresses.len()
                invariant
                    plan.require_public,
                    addresses@.len() > 0,
                    i <= addresses@.len(),
                    forall|j: int| 0 <= j < i ==> public_ip(#[trigger] addresses@[j].ip),
                decreases addresses@.len() - i,
            {
                if !is_public_web_ip(addresses[i].ip) {
                    assert(!public_ip(addresses@[i as int].ip));
                    return Err(EgressPolicyError::TargetRejected);
                }
                i = i + 1;
            }
        }
        Ok(ValidatedTarget { host: plan.host.clone(), addresses })
    }
}

// ---------------------------------------------------------------------------
// HTTP authority
// ---------------------------------------------------------------------------

#[derive(Clone, Copy, Debug, PartialEq, Eq, Structural)]
pub enum HttpAuthorityError {
    InvalidScheme,
    MissingHost,
    InvalidPort,
    InvalidOrigin,
}

struct HttpAuthority {
    scheme: String,
    host: String,
    port: u16,
}

pub struct AuthorityView {
    pub scheme: Seq<char>,
    pub host: Seq<char>,
    pub port: u16,
}

spec fn authority_view(a: HttpAuthority) -> AuthorityView {
    AuthorityView { scheme: a.scheme@, host: a.host@, port: a.port }
}

/// The origins that the gateway's own HTTP surface answers for.
pub struct HttpAuthorityPolicy {
    authorities: Vec<HttpAuthority>,
}

impl View for HttpAuthorityPolicy {
    type V = Seq<AuthorityView>;

    closed spec fn view(&self) -> Seq<AuthorityView> {
        self.authorities@.map_values(|a: HttpAuthority| authority_view(a))
    }
}

/// A bare origin: no user info, an empty or root path, no query and no
/// fragment.
pub open spec fn bare_origin(u: UrlView) -> bool {
    u.username.len() == 0 && u.password is None && (u.path.len() == 0 || u.path == "/"@)
        && u.query is None && u.fragment is None
}

/// Configuring the HTTP authority replaces it by one origin.
pub open spec fn authority_outcome(p: Seq<AuthorityView>, origin: UrlView) -> (
    Seq<AuthorityView>,
    Result<(), HttpAuthorityError>,
) {
    if !is_http_scheme(origin.scheme) {
        (p, Err(HttpAuthorityError::InvalidScheme))
    } else if !bare_origin(origin) {
        (p, Err(HttpAuthorityError::InvalidOrigin))
    } else if origin.host is None {
        (p, Err(HttpAuthorityError::MissingHost))
    } else if port_or_known_default_spec(origin) is None {
        (p, Err(HttpAuthorityError::InvalidPort))
    } else {
        (
            seq![
                AuthorityView {
                    scheme: lower(origin.scheme),
                    host: canonical_host_spec(origin.host->0),
                    port: port_or_known_default_spec(origin)->0,
                },
            ],
            Ok(()),
        )
    }
}

/// A `Host` header value: no surrounding white space, not empty, none of
/// `/ ? # @`, and read as the authority of an `http://` URL with a root
/// path and no query or fragment. Gives the canonical host and the explicit
/// port.
pub open spec fn host_authority(value: Seq<char>) -> Option<(Seq<char>, Option<u16>)> {
    if trim(value) != value || value.len() == 0 || value.contains('/') || value.contains('?')
        || value.contains('#') || value.contains('@') {
        None
    } else {
        match url_parse("http://"@ + value) {
            None => None,
            Some(u) => if u.path != "/"@ || u.query is Some || u.fragment is Some || u.host is None {
                None
            } else {
                Some((canonical_host_spec(u.host->0), u.port))
            },
        }
    }
}

pub open spec fn authority_allows(a: AuthorityView, host: Seq<char>, port: Option<u16>) -> bool {
    host == a.host && match port {
        None => default_port_spec(a.scheme) == Some(a.port),
        Some(p) => p == a.port,
    }
}

pub open spec fn allows_host_spec(p: Seq<AuthorityView>, value: Seq<char>) -> bool {
    match host_authority(value) {
        None => false,
        Some((h, port)) => exists|i: int| 0 <= i < p.len() && authority_allows(#[trigger] p[i], h, port),
    }
}

/// An `Origin` header is allowed for a `Host` when both name one configured
/// authority.
pub open spec fn allows_origin_spec(p: Seq<AuthorityView>, origin: Seq<char>, host: Seq<char>) -> bool {
    match host_authority(host) {
        None => false,
        Some((h, _)) => match url_parse(origin) {
            None => false,
            Some(u) => {
                &&& is_http_scheme(u.scheme)
                &&& bare_origin(u)
                &&& u.host is Some
                &&& port_or_known_default_spec(u) is Some
                &&& exists|i: int|
                    0 <= i < p.len() && (#[trigger] p[i]).scheme == u.scheme && p[i].host == h
                        && p[i].host == canonical_host_spec(u.host->0) && p[i].port
                        == port_or_known_default_spec(u)->0 && allows_host_spec(p, host)
            },
        },
    }
}

fn contains_char(v: &Vec<char>, c: char) -> (r: bool)
    ensures
        r == v@.contains(c),
{
    let mut i: usize = 0;
    while i < v.len()
        invariant
            i <= v@.len(),
            forall|j: int| 0 <= j < i ==> v@[j] != c,
        decreases v@.len() - i,
    {
        if v[i] == c {
            return true;
        }
        i = i + 1;
    }
    false
}

fn is_bare_origin(u: &UrlParts) -> (r: bool)
    ensures
        r == bare_origin(u@),
{
    u.username().is_empty() && u.password().is_none() && (u.path().is_empty() || str_eq(
        u.path(),
        "/",
    )) && u.query().is_none() && u.fragment().is_none()
}

fn parse_host_authority(value: &str) -> (r: Option<(String, Option<u16>)>)
    ensures
        match r {
            Some((h, p)) => host_authority(value@) == Some((h@, p)),
            None => host_authority(value@) is None,
        },
{
    let v = chars_of(value);
    let (start, end) = trim_bounds(&v);
    if start != 0 || end != v.len() {
        assert(v@.subrange(start as int, end as int).len() != v@.len());
        return None;
    }
    assert(v@.subrange(0, v@.len() as int) =~= v@);
    if v.len() == 0 || contains_char(&v, '/') || contains_char(&v, '?') || contains_char(&v, '#')
        || contains_char(&v, '@') {
        return None;
    }
    let mut text = String::new();
    crate::text::push_str(&mut text, "http://");
    crate::text::push_str(&mut text, value);
    assert(text@ =~= "http://"@ + value@);
    let parsed = match UrlParts::parse(text.as_str()) {
        Some(u) => u,
        None => {
            return None;
        },
    };
    if !str_eq(parsed.path(), "/") || parsed.query().is_some() || parsed.fragment().is_some() {
        return None;
    }
    match parsed.host_str() {
        Some(h) => Some((canonical_host(h), parsed.port())),
        None => None,
    }
}

pub fn is_valid_http_host(value: &str) -> (r: bool)
    ensures
        r == host_authority(value@) is Some,
{
    parse_host_authority(value).is_some()
}

impl HttpAuthorityPolicy {
    pub fn new() -> (r: Self)
        ensures
            r@ == Seq::<AuthorityView>::empty(),
    {
        let r = HttpAuthorityPolicy { authorities: Vec::new() };
        assert(r@ =~= Seq::<AuthorityView>::empty());
        r
    }

    /// Sets the one origin the HTTP surface answers for.
    pub fn configure(&mut self, origin: &UrlParts) -> (r: Result<(), HttpAuthorityError>)
        ensures
            (final(self)@, r) == authority_outcome(old(self)@, origin@),
    {
        if !is_http_scheme_exec(origin.scheme()) {
            return Err(HttpAuthorityError::InvalidScheme);
        }
        if !is_bare_origin(origin) {
            return Err(HttpAuthorityError::InvalidOrigin);
        }
        let host = match origin.host_str() {
            Some(h) => canonical_host(h),
            None => {
                return Err(HttpAuthorityError::MissingHost);
            },
        };
        let port = match origin.port_or_known_default() {
            Some(p) => p,
            None => {
                return Err(HttpAuthorityError::InvalidPort);
            },
        };
        let scheme = lower_string(origin.scheme());
        let mut authorities: Vec<HttpAuthority> = Vec::new();
        authorities.push(HttpAuthority { scheme: string_from_chars(scheme.as_slice()), host, port });
        self.authorities = authorities;
        assert(self@ =~= authority_outcome(old(self)@, origin@).0);
        Ok(())
    }

    fn allows_parsed(&self, host: &String, port: Option<u16>) -> (r: bool)
        ensures
            r == exists|i: int|
                0 <= i < self@.len() && authority_allows(#[trigger] self@[i], host@, port),
    {
        let mut i: usize = 0;
        while i < self.authorities.len()
            invariant
                i <= self@.len(),
                self@.len() == self.authorities@.len(),
                forall|j: int| 0 <= j < i ==> !authority_allows(#[trigger] self@[j], host@, port),
            decreases self.authorities@.len() - i,
        {
            let a = &self.authorities[i];
            assert(self@[i as int] == authority_view(self.authorities@[i as int]));
            let port_ok = match port {
                None => match default_port(a.scheme.as_str()) {
                    Some(d) => d == a.port,
                    None => false,
                },
                Some(p) => p == a.port,
            };
            if str_eq(host.as_str(), a.host.as_str()) && port_ok {
                return true;
            }
            i = i + 1;
        }
        false
    }

    /// Whether a `Host` header names the configured authority.
    pub fn allows_host(&self, host: &str) -> (r: bool)
        ensures
            r == allows_host_spec(self@, host@),
    {
        match parse_host_authority(host) {
            None => false,
            Some((h, port)) => self.allows_parsed(&h, port),
        }
    }

    /// Whether an `Origin` header is allowed for a `Host` header.
    #[verifier::loop_isolation(false)]
    pub fn allows_origin_for_host(&self, origin: &str, host: &str) -> (r: bool)
        ensures
            r == allows_origin_spec(self@, origin@, host@),
    {
        let (h, _) = match parse_host_authority(host) {
            Some(x) => x,
            None => {
                return false;
            },
        };
        let parsed = match UrlParts::parse(origin) {
            Some(u) => u,
            None => {
                return false;
            },
        };
        if !is_http_scheme_exec(parsed.scheme()) || !is_bare_origin(&parsed) {
            return false;
        }
        let origin_host = match parsed.host_str() {
            Some(x) => canonical_host(x),
            None => {
                return false;
            },
        };
        let origin_port = match parsed.port_or_known_default() {
            Some(p) => p,
            None => {
                return false;
            },
        };
        let host_allowed = self.allows_host(host);
        let mut i: usize = 0;
        while i < self.authorities.len()
            invariant
                i <= self@.len(),
                self@.len() == self.authorities@.len(),
                host_allowed == allows_host_spec(self@, host@),
                forall|j: int|
                    0 <= j < i ==> !((#[trigger] self@[j]).scheme == parsed@.scheme && self@[j].host
                        == h@ && self@[j].host == origin_host@ && self@[j].port == origin_port
                        && host_allowed),
            decreases self.authorities@.len() - i,
        {
            let a = &self.authorities[i];
            assert(self@[i as int] == authority_view(self.authorities@[i as int]));
            if str_eq(a.scheme.as_str(), parsed.scheme()) && str_eq(a.host.as_str(), h.as_str())
                && str_eq(a.host.as_str(), origin_host.as_str()) && a.port == origin_port
                && host_allowed {
                assert(url_parse(origin@) == Some(parsed@));
                let ghost parsed_host = host_authority(host@)->0;
                assert(parsed_host.0 == h@);
                assert((self@[i as int]).scheme == parsed@.scheme && self@[i as int].host == h@
                    && self@[i as int].host == canonical_host_spec(parsed@.host->0)
                    && self@[i as int].port == port_or_known_default_spec(parsed@)->0
                    && allows_host_spec(self@, host@));
                return true;
            }
            i = i + 1;
        }
        false
    }
}

// ---------------------------------------------------------------------------
// Site access capabilities
// ---------------------------------------------------------------------------

#[derive(Clone, Copy, Debug, PartialEq, Eq, Structural)]
pub enum SiteAccessError {
    Expired,
    SiteMismatch,
    AccountMismatch,
    HostNotAllowed,
    InvalidUrl,
    SessionNotBound,
    SessionExpired,
    StaleSession,
}

/// Scope metadata for site access: the site, optionally the account and the
/// bound session, the canonical hosts it covers and when it expires. Raw
/// vault material is never part of it.
#[derive(Clone, Debug)]
pub struct SiteAccessCapability {
    site_id: String,
    account_ref: Option<String>,
    allowed_hosts: Vec<String>,
    expires_at_ms: u64,
    capability_id: String,
    session_id: Option<String>,
}

pub struct CapabilityView {
    pub site_id: Seq<char>,
    pub account_ref: Option<Seq<char>>,
    pub allowed_hosts: Set<Seq<char>>,
    pub expires_at_ms: u64,
    pub capability_id: Seq<char>,
    pub session_id: Option<Seq<char>>,
}

impl View for SiteAccessCapability {
    type V = CapabilityView;

    closed spec fn view(&self) -> CapabilityView {
        CapabilityView {
            site_id: self.site_id@,
            account_ref: opt_str(self.account_ref),
            allowed_hosts: strings_view(self.allowed_hosts@).to_set(),
            expires_at_ms: self.expires_at_ms,
            capability_id: self.capability_id@,
            session_id: opt_str(self.session_id),
        }
    }
}

pub open spec fn opt_str_ref(o: Option<&str>) -> Option<Seq<char>> {
    match o {
        Some(s) => Some(s@),
        None => None,
    }
}

pub open spec fn saturating_add_spec(a: u64, b: u64) -> u64 {
    if a + b > u64::MAX {
        u64::MAX
    } else {
        (a + b) as u64
    }
}

/// The canonical forms of the given hosts.
pub open spec fn canonical_hosts(hosts: Seq<Seq<char>>) -> Set<Seq<char>> {
    hosts.map_values(|h: Seq<char>| canonical_host_spec(h)).to_set()
}

/// Whether a capability admits a request for `site_id` (and `account_ref`,
/// where the caller names one) to `url` at time `now_ms`.
pub open spec fn authorize_outcome(
    c: CapabilityView,
    now_ms: u64,
    site_id: Seq<char>,
    account_ref: Option<Seq<char>>,
    url: UrlView,
) -> Result<(), SiteAccessError> {
    if c.expires_at_ms <= now_ms {
        Err(SiteAccessError::Expired)
    } else if c.site_id != site_id {
        Err(SiteAccessError::SiteMismatch)
    } else if c.account_ref is Some && account_ref is Some && account_ref->0 != c.account_ref->0 {
        Err(SiteAccessError::AccountMismatch)
    } else if !is_http_scheme(url.scheme) || url.username.len() != 0 || url.password is Some
        || url.host is None {
        Err(SiteAccessError::InvalidUrl)
    } else if !c.allowed_hosts.contains(canonical_host_spec(url.host->0)) {
        Err(SiteAccessError::HostNotAllowed)
    } else {
        Ok(())
    }
}

fn canonical_host_list(hosts: Vec<String>) -> (r: Vec<String>)
    ensures
        strings_view(r@).to_set() == canonical_hosts(strings_view(hosts@)),
{
    let mut out: Vec<String> = Vec::new();
    let mut i: usize = 0;
    while i < hosts.len()
        invariant
            i <= hosts@.len(),
            strings_view(out@) == strings_view(hosts@).take(i as int).map_values(
                |h: Seq<char>| canonical_host_spec(h),
            ),
        decreases hosts@.len() - i,
    {
        let c = canonical_host(hosts[i].as_str());
        let ghost before = out@;
        out.push(c);
        assert(strings_view(out@) =~= strings_view(before).push(c@));
        assert(strings_view(hosts@).take(i + 1) =~= strings_view(hosts@).take(i as int).push(
            hosts@[i as int]@,
        ));
        assert(strings_view(hosts@).take(i + 1).map_values(|h: Seq<char>| canonical_host_spec(h))
            =~= strings_view(hosts@).take(i as int).map_values(
            |h: Seq<char>| canonical_host_spec(h),
        ).push(canonical_host_spec(hosts@[i as int]@)));
        i = i + 1;
    }
    assert(strings_view(hosts@).take(hosts@.len() as int) =~= strings_view(hosts@));
    out
}

fn contains_string(hosts: &Vec<String>, h: &str) -> (r: bool)
    ensures
        r == strings_view(hosts@).to_set().contains(h@),
{
    let mut i: usize = 0;
    while i < hosts.len()
        invariant
            i <= hosts@.len(),
            forall|j: int| 0 <= j < i ==> hosts@[j]@ != h@,
        decreases hosts@.len() - i,
    {
        if str_eq(hosts[i].as_str(), h) {
            assert(strings_view(hosts@)[i as int] == h@);
            return true;
        }
        i = i + 1;
    }
    assert(!strings_view(hosts@).contains(h@)) by {
        if strings_view(hosts@).contains(h@) {
            let j = choose|j: int| 0 <= j < strings_view(hosts@).len() && strings_view(hosts@)[j]
                == h@;
            assert(hosts@[j]@ == h@);
        }
    }
    false
}

impl SiteAccessCapability {
    /// A capability issued at `now_ms` that expires `ttl_ms` later.
    pub fn issue_at(
        now_ms: u64,
        site_id: &str,
        account_ref: Option<String>,
        allowed_hosts: Vec<String>,
        capability_id: &str,
        ttl_ms: u64,
    ) -> (r: Self)
        ensures
            r@.site_id == site_id@,
            r@.account_ref == opt_str(account_ref),
            r@.allowed_hosts == canonical_hosts(strings_view(allowed_hosts@)),
            r@.expires_at_ms == saturating_add_spec(now_ms, ttl_ms),
            r@.capability_id == capability_id@,
            r@.session_id is None,
    {
        SiteAccessCapability {
            site_id: site_id.to_owned(),
            account_ref,
            allowed_hosts: canonical_host_list(allowed_hosts),
            expires_at_ms: now_ms.saturating_add(ttl_ms),
            capability_id: capability_id.to_owned(),
            session_id: None,
        }
    }

    /// A capability issued now that expires `ttl_ms` later.
    pub fn issue(
        site_id: &str,
        account_ref: Option<String>,
        allowed_hosts: Vec<String>,
        capability_id: &str,
        ttl_ms: u64,
    ) -> (r: Self)
        ensures
            r@.site_id == site_id@,
            r@.account_ref == opt_str(account_ref),
            r@.allowed_hosts == canonical_hosts(strings_view(allowed_hosts@)),
            r@.capability_id == capability_id@,
            r@.session_id is None,
    {
        Self::issue_at(now_ms(), site_id, account_ref, allowed_hosts, capability_id, ttl_ms)
    }

    /// A capability bound to one vault session of one account, issued at
    /// `now_ms`.
    pub fn issue_for_session_at(
        now_ms: u64,
        site_id: &str,
        account_ref: &str,
        allowed_hosts: Vec<String>,
        capability_id: &str,
        session_id: &str,
        ttl_ms: u64,
    ) -> (r: Self)
        ensures
            r@.site_id == site_id@,
            r@.account_ref == Some(account_ref@),
            r@.allowed_hosts == canonical_hosts(strings_view(allowed_hosts@)),
            r@.expires_at_ms == saturating_add_spec(now_ms, ttl_ms),
            r@.capability_id == capability_id@,
            r@.session_id == Some(session_id@),
    {
        let mut c = Self::issue_at(
            now_ms,
            site_id,
            Some(account_ref.to_owned()),
            allowed_hosts,
            capability_id,
            ttl_ms,
        );
        c.session_id = Some(session_id.to_owned());
        c
    }

    /// A capability bound to one vault session of one account, issued now.
    pub fn issue_for_session(
        site_id: &str,
        account_ref: &str,
        allowed_hosts: Vec<String>,
        capability_id: &str,
        session_id: &str,
        ttl_ms: u64,
    ) -> (r: Self)
        ensures
            r@.site_id == site_id@,
            r@.account_ref == Some(account_ref@),
            r@.allowed_hosts == canonical_hosts(strings_view(allowed_hosts@)),
            r@.capability_id == capability_id@,
            r@.session_id == Some(session_id@),
    {
        Self::issue_for_session_at(
            now_ms(),
            site_id,
            account_ref,
            allowed_hosts,
            capability_id,
            session_id,
            ttl_ms,
        )
    }

    pub fn site_id(&self) -> (r: &str)
        ensures
            r@ == self@.site_id,
    {
        self.site_id.as_str()
    }

    pub fn account_ref(&self) -> (r: Option<&str>)
        ensures
            r is Some == self@.account_ref is Some,
            r is Some ==> r->0@ == self@.account_ref->0,
    {
        match &self.account_ref {
            Some(a) => Some(a.as_str()),
            None => None,
        }
    }

    pub fn capability_id(&self) -> (r: &str)
        ensures
            r@ == self@.capability_id,
    {
        self.capability_id.as_str()
    }

    /// The canonical hosts the capability covers, each once.
    pub fn allowed_hosts(&self) -> (r: Vec<String>)
        ensures
            strings_view(r@).to_set() == self@.allowed_hosts,
    {
        clone_strings_list(&self.allowed_hosts)
    }

    pub fn session_id(&self) -> (r: Option<&str>)
        ensures
            r is Some == self@.session_id is Some,
            r is Some ==> r->0@ == self@.session_id->0,
    {
        match &self.session_id {
            Some(a) => Some(a.as_str()),
            None => None,
        }
    }

    pub fn expires_at(&self) -> (r: u64)
        ensures
            r == self@.expires_at_ms,
    {
        self.expires_at_ms
    }

    /// Checks a request for `site_id` (and `account_ref`, where given) to
    /// `url` at time `now_ms`.
    pub fn authorize_for_account_at(
        &self,
        now_ms: u64,
        site_id: &str,
        account_ref: Option<&str>,
        url: &UrlParts,
    ) -> (r: Result<(), SiteAccessError>)
        ensures
            r == authorize_outcome(self@, now_ms, site_id@, opt_str_ref(account_ref), url@),
    {
        if self.expires_at_ms <= now_ms {
            return Err(SiteAccessError::Expired);
        }
        if !str_eq(self.site_id.as_str(), site_id) {
            return Err(SiteAccessError::SiteMismatch);
        }
        match (&self.account_ref, account_ref) {
            (Some(expected), Some(given)) => {
                if !str_eq(given, expected.as_str()) {
                    return Err(SiteAccessError::AccountMismatch);
                }
            },
            _ => {},
        }
        if !is_http_scheme_exec(url.scheme()) || !url.username().is_empty()
            || url.password().is_some() {
            return Err(SiteAccessError::InvalidUrl);
        }
        let host = match url.host_str() {
            Some(h) => canonical_host(h),
            None => {
                return Err(SiteAccessError::InvalidUrl);
            },
        };
        if !contains_string(&self.allowed_hosts, host.as_str()) {
            return Err(SiteAccessError::HostNotAllowed);
        }
        Ok(())
    }

    /// Checks a request for `site_id` to `url` at time `now_ms`.
    pub fn authorize_at(&self, now_ms: u64, site_id: &str, url: &UrlParts) -> (r: Result<
        (),
        SiteAccessError,
    >)
        ensures
            r == authorize_outcome(self@, now_ms, site_id@, None, url@),
    {
        self.authorize_for_account_at(now_ms, site_id, None, url)
    }

    /// Checks a request for `site_id` to `url` now.
    pub fn authorize(&self, site_id: &str, url: &UrlParts) -> (r: Result<(), SiteAccessError>)
        ensures
            exists|now: u64| r == #[trigger] authorize_outcome(self@, now, site_id@, None, url@),
    {
        let now = now_ms();
        let r = self.authorize_at(now, site_id, url);
        assert(r == authorize_outcome(self@, now, site_id@, None, url@));
        r
    }

    /// Checks a request for `site_id` and `account_ref` to `url` now.
    pub fn authorize_for_account(&self, site_id: &str, account_ref: Option<&str>, url: &UrlParts) -> (r:
        Result<(), SiteAccessError>)
        ensures
            exists|now: u64|
                r == #[trigger] authorize_outcome(self@, now, site_id@, opt_str_ref(account_ref), url@),
    {
        let now = now_ms();
        let r = self.authorize_for_account_at(now, site_id, account_ref, url);
        r
    }
}

fn clone_strings_list(values: &Vec<String>) -> (r: Vec<String>)
    ensures
        strings_view(r@) == strings_view(values@),
{
    crate::text::clone_strings(values)
}

/// Outside a capability's site, account, hosts or lifetime nothing is
/// admitted: an admitted request is for the capability's site, for one of
/// its hosts, before it expires.
pub proof fn law_capability_is_scoped(
    c: CapabilityView,
    now_ms: u64,
    site_id: Seq<char>,
    account_ref: Option<Seq<char>>,
    url: UrlView,
)
    requires
        authorize_outcome(c, now_ms, site_id, account_ref, url) is Ok,
    ensures
        now_ms < c.expires_at_ms,
        site_id == c.site_id,
        url.host is Some && c.allowed_hosts.contains(canonical_host_spec(url.host->0)),
        is_http_scheme(url.scheme),
        account_ref is Some && c.account_ref is Some ==> account_ref == c.account_ref,
{
}

// ---------------------------------------------------------------------------
// Structured commands
// ---------------------------------------------------------------------------

/// An external tool invocation as an argument vector, never as a shell
/// command string.
#[derive(Clone, Debug, PartialEq, Eq)]
pub struct StructuredCommand {
    program: String,
    args: Vec<String>,
}

impl View for StructuredCommand {
    type V = Seq<Seq<char>>;

    /// The argument vector: the program, then each argument.
    closed spec fn view(&self) -> Seq<Seq<char>> {
        seq![self.program@] + strings_view(self.args@)
    }
}

impl StructuredCommand {
    pub fn new(program: &str) -> (r: Self)
        ensures
            r@ == seq![program@],
    {
        let r = StructuredCommand { program: program.to_owned(), args: Vec::new() };
        assert(strings_view(r.args@) =~= Seq::<Seq<char>>::empty());
        assert(r@ =~= seq![program@]);
        r
    }

    /// Appends one argument; its boundaries are kept as given.
    pub fn arg(self, arg: &str) -> (r: Self)
        ensures
            r@ == self@.push(arg@),
    {
        let mut c = self;
        let ghost before = c@;
        c.args.push(arg.to_owned());
        assert(strings_view(c.args@) =~= strings_view(self.args@).push(arg@));
        assert(c@ =~= before.push(arg@));
        c
    }

    /// The argument vector: the program, then each argument.
    pub fn argv(&self) -> (r: Vec<String>)
        ensures
            strings_view(r@) == self@,
    {
        let mut out: Vec<String> = Vec::new();
        out.push(self.program.clone());
        let mut i: usize = 0;
        assert(strings_view(out@) =~= seq![self.program@] + strings_view(self.args@).take(0));
        while i < self.args.len()
            invariant
                i <= self.args@.len(),
                strings_view(out@) == seq![self.program@] + strings_view(self.args@).take(i as int),
            decreases self.args@.len() - i,
        {
            let ghost before = out@;
            out.push(self.args[i].clone());
            assert(strings_view(out@) =~= strings_view(before).push(self.args@[i as int]@));
            assert(strings_view(self.args@).take(i + 1) =~= strings_view(self.args@).take(
                i as int,
            ).push(self.args@[i as int]@));
            i = i + 1;
        }
        assert(strings_view(self.args@).take(self.args@.len() as int) =~= strings_view(
            self.args@,
        ));
        out
    }

    /// The program.
    pub fn program(&self) -> (r: &str)
        ensures
            r@ == self@[0],
    {
        self.program.as_str()
    }

    /// The arguments after the program.
    pub fn args(&self) -> (r: Vec<String>)
        ensures
            strings_view(r@) == self@.skip(1),
    {
        let r = crate::text::clone_strings(&self.args);
        assert(self@.skip(1) =~= strings_view(self.args@));
        r
    }
}

} // verus!
