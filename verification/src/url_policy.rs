//! URL security policy for the embedded browser: only `http`/`https` URLs
//! whose host is neither a blocked loopback name nor inside a private or
//! link-local address range may be opened.
//!
//! URL parsing is WHATWG parsing done by the `url` crate; CIDR parsing is done
//! by the `ipnet` crate. Both are reached through the wrappers below, and
//! their results are named (`url_parses`, `url_scheme`, ...) rather than
//! re-specified. The policy itself is stated over those names.

use vstd::prelude::*;

use crate::text::str_eq;

verus! {

/// An IPv4 (as its 32-bit big-endian value) or IPv6 (as its 128-bit value) address.
#[derive(Clone, Copy, Debug, PartialEq, Eq, Structural)]
pub enum IpValue {
    V4(u32),
    V6(u128),
}

/// An address network: an address plus the number of leading bits that
/// identify the network.
#[derive(Clone, Copy, Debug, PartialEq, Eq, Structural)]
pub struct IpNetValue {
    pub addr: IpValue,
    pub prefix_len: u8,
}

/// The host part of a parsed URL.
#[derive(Clone, Debug)]
pub enum UrlHost {
    Domain(String),
    Ipv4(u32),
    Ipv6(u128),
}

/// Model of [`UrlHost`].
pub enum HostView {
    Domain(Seq<char>),
    Ipv4(u32),
    Ipv6(u128),
}

impl View for UrlHost {
    type V = HostView;

    open spec fn view(&self) -> HostView {
        match self {
            UrlHost::Domain(d) => HostView::Domain(d@),
            UrlHost::Ipv4(a) => HostView::Ipv4(*a),
            UrlHost::Ipv6(a) => HostView::Ipv6(*a),
        }
    }
}

#[verifier::external_type_specification]
#[verifier::external_body]
pub struct ExUrl(url::Url);

/// A URL that parsed successfully, together with the text it was parsed
/// from. Only parsing builds one, so its view is always a text on which
/// `url_parses` holds.
#[derive(Debug)]
pub struct ParsedUrl {
    url: url::Url,
    source: String,
}

/// `<url::Url as Clone>::clone`: a copy of the URL. The derived clone
/// copies every field, so the copy serializes identically; the contract
/// claims nothing beyond returning a `Url`.
#[verifier::external_body]
fn clone_url(u: &url::Url) -> url::Url {
    u.clone()
}

impl Clone for ParsedUrl {
    fn clone(&self) -> (r: Self)
        ensures
            r@ == self@,
    {
        ParsedUrl { url: clone_url(&self.url), source: self.source.clone() }
    }
}

impl View for ParsedUrl {
    type V = Seq<char>;

    /// The text the URL was parsed from.
    closed spec fn view(&self) -> Seq<char> {
        self.source@
    }
}

/// Why a text is not an absolute URL: the `url` crate's description.
#[derive(Debug, Clone)]
pub struct UrlParseError {
    pub message: String,
}

impl ParsedUrl {
    /// Parses `raw` as an absolute URL (WHATWG rules, as the `url` crate
    /// implements them): `Ok` exactly when the crate accepts it, and then
    /// recording that text.
    pub fn parse(raw: &str) -> (r: Result<ParsedUrl, UrlParseError>)
        ensures
            r is Ok <==> url_parses(raw@),
            r matches Ok(p) ==> p@ == raw@,
            r matches Err(e) ==> e.message@ == url_error_text(raw@),
    {
        match parse_url(raw) {
            Ok(p) => Ok(p),
            Err(message) => Err(UrlParseError { message }),
        }
    }

    /// The normalized text of the URL.
    pub fn as_text(&self) -> (r: String)
        ensures
            r@ == url_serialization(self@),
    {
        url_as_string(self)
    }
}

/// Whether the `url` crate accepts `raw` as an absolute URL.
pub uninterp spec fn url_parses(raw: Seq<char>) -> bool;

/// The lower-cased scheme the `url` crate reads from `raw`.
pub uninterp spec fn url_scheme(raw: Seq<char>) -> Seq<char>;

/// The serialized host the `url` crate reads from `raw` (IPv6 in brackets).
pub uninterp spec fn url_host_str(raw: Seq<char>) -> Option<Seq<char>>;

/// The parsed host the `url` crate reads from `raw`.
pub uninterp spec fn url_host(raw: Seq<char>) -> Option<HostView>;

/// The normalized serialization the `url` crate produces for `raw`.
pub uninterp spec fn url_serialization(raw: Seq<char>) -> Seq<char>;

/// The `url` crate's description of why `raw` does not parse (the
/// `Display` text of its `ParseError`).
pub uninterp spec fn url_error_text(raw: Seq<char>) -> Seq<char>;

/// The network (address, prefix length) the `ipnet` crate reads from `text`.
pub uninterp spec fn ip_net_parse(text: Seq<char>) -> Option<(IpValue, u8)>;

/// `url::Url::parse` (also what `str::parse::<Url>()` calls), its error
/// turned into the error's `Display` text. The contract claims that the
/// result is `Ok` exactly when the crate accepts the text, that an `Ok`
/// value records that text, and that an error's text is the crate's
/// description for that input.
#[verifier::external_body]
pub(crate) fn parse_url(raw: &str) -> (r: Result<ParsedUrl, String>)
    ensures
        r is Ok <==> url_parses(raw@),
        r matches Ok(p) ==> p@ == raw@,
        r matches Err(m) ==> m@ == url_error_text(raw@),
{
    match url::Url::parse(raw) {
        Ok(url) => Ok(ParsedUrl { url, source: raw.to_string() }),
        Err(e) => Err(e.to_string()),
    }
}

/// `url::Url::scheme`: the result is the named scheme of the source text.
#[verifier::external_body]
pub(crate) fn url_scheme_of(u: &ParsedUrl) -> (r: String)
    ensures
        r@ == url_scheme(u@),
{
    u.url.scheme().to_string()
}

/// `url::Url::host_str`: the result is the named host string of the source text.
#[verifier::external_body]
pub(crate) fn url_host_str_of(u: &ParsedUrl) -> (r: Option<String>)
    ensures
        r matches Some(h) ==> url_host_str(u@) == Some(h@),
        r is None ==> url_host_str(u@) is None,
{
    u.url.host_str().map(|h| h.to_string())
}

/// `url::Url::host`: the result is the named parsed host of the source text;
/// addresses are converted to their integer values.
#[verifier::external_body]
pub(crate) fn url_host_of(u: &ParsedUrl) -> (r: Option<UrlHost>)
    ensures
        r matches Some(h) ==> url_host(u@) == Some(h@),
        r is None ==> url_host(u@) is None,
{
    match u.url.host() {
        Some(url::Host::Domain(d)) => Some(UrlHost::Domain(d.to_string())),
        Some(url::Host::Ipv4(a)) => Some(UrlHost::Ipv4(u32::from(a))),
        Some(url::Host::Ipv6(a)) => Some(UrlHost::Ipv6(u128::from(a))),
        None => None,
    }
}

/// `url::Url::as_str`: the result is the named serialization of the source text.
#[verifier::external_body]
pub(crate) fn url_as_string(u: &ParsedUrl) -> (r: String)
    ensures
        r@ == url_serialization(u@),
{
    u.url.as_str().to_string()
}

/// `<ipnet::IpNet as FromStr>::from_str`: the result is the named network of
/// the text; the crate's parser never yields a prefix longer than the
/// address width.
#[verifier::external_body]
pub(crate) fn parse_ip_net(text: &str) -> (r: Option<IpNetValue>)
    ensures
        r matches Some(n) ==> ip_net_parse(text@) == Some((n.addr, n.prefix_len)),
        r is None ==> ip_net_parse(text@) is None,
        r matches Some(n) ==> (n.addr is V4 ==> n.prefix_len <= 32) && (n.addr is V6
            ==> n.prefix_len <= 128),
{
    match text.parse::<ipnet::IpNet>() {
        Ok(ipnet::IpNet::V4(n)) => Some(
            IpNetValue { addr: IpValue::V4(u32::from(n.addr())), prefix_len: n.prefix_len() },
        ),
        Ok(ipnet::IpNet::V6(n)) => Some(
            IpNetValue { addr: IpValue::V6(u128::from(n.addr())), prefix_len: n.prefix_len() },
        ),
        Err(_) => None,
    }
}

impl ParsedUrl {
    /// Two parsed URLs are equal when their serializations are equal, which
    /// is what `url::Url`'s own `==` compares.
    pub fn same_url(&self, other: &ParsedUrl) -> (r: bool)
        ensures
            r == (url_serialization(self@) == url_serialization(other@)),
    {
        let a = url_as_string(self);
        let b = url_as_string(other);
        str_eq(a.as_str(), b.as_str())
    }
}

// ---------------------------------------------------------------------------
// The policy
// ---------------------------------------------------------------------------

/// Only web schemes may be opened.
pub open spec fn is_web_scheme(s: Seq<char>) -> bool {
    s == "http"@ || s == "https"@
}

/// Host names refused outright (compared with the URL's serialized host).
pub open spec fn is_blocked_host(h: Seq<char>) -> bool {
    h == "localhost"@ || h == "127.0.0.1"@ || h == "::1"@ || h == "0.0.0.0"@
}

/// Whether `addr` lies in the network `(net, prefix)`: same address family
/// and the same leading `prefix` bits.
pub open spec fn net_contains(net: (IpValue, u8), addr: IpValue) -> bool {
    match (net.0, addr) {
        (IpValue::V4(n), IpValue::V4(a)) => net.1 <= 32 && (a as nat) / vstd::arithmetic::power2::pow2(
            (32 - net.1) as nat,
        ) == (n as nat) / vstd::arithmetic::power2::pow2((32 - net.1) as nat),
        (IpValue::V6(n), IpValue::V6(a)) => net.1 <= 128 && (a as nat)
            / vstd::arithmetic::power2::pow2((128 - net.1) as nat) == (n as nat)
            / vstd::arithmetic::power2::pow2((128 - net.1) as nat),
        _ => false,
    }
}

/// Whether the range written as `text` parses and contains `addr`.
pub open spec fn range_blocks(text: Seq<char>, addr: IpValue) -> bool {
    match ip_net_parse(text) {
        Some(net) => net_contains(net, addr),
        None => false,
    }
}

/// The private, link-local and unique-local ranges the browser refuses.
pub open spec fn is_blocked_addr(addr: IpValue) -> bool {
    ||| range_blocks("10.0.0.0/8"@, addr)
    ||| range_blocks("172.16.0.0/12"@, addr)
    ||| range_blocks("192.168.0.0/16"@, addr)
    ||| range_blocks("169.254.0.0/16"@, addr)
    ||| range_blocks("fc00::/7"@, addr)
}

/// The address a parsed host denotes, if it is an address at all.
pub open spec fn host_addr(h: Option<HostView>) -> Option<IpValue> {
    match h {
        Some(HostView::Ipv4(a)) => Some(IpValue::V4(a)),
        Some(HostView::Ipv6(a)) => Some(IpValue::V6(a)),
        _ => None,
    }
}

/// The address behind the refused name `::1`. An IPv6 host is serialized
/// in brackets (`[::1]`), so comparing the host text with the name never
/// matches it; the parsed address is compared instead.
pub open spec fn is_ipv6_loopback(addr: IpValue) -> bool {
    addr == IpValue::V6(1)
}

/// Whether the URL parsed from `raw` may be opened.
pub open spec fn url_allowed(raw: Seq<char>) -> bool {
    &&& is_web_scheme(url_scheme(raw))
    &&& !(url_host_str(raw) matches Some(h) && is_blocked_host(h))
    &&& !(host_addr(url_host(raw)) matches Some(a) && is_ipv6_loopback(a))
    &&& !(host_addr(url_host(raw)) matches Some(a) && is_blocked_addr(a))
}

/// Whether the raw text parses as a URL that may be opened.
pub open spec fn raw_url_allowed(raw: Seq<char>) -> bool {
    url_parses(raw) && url_allowed(raw)
}

/// Whether `addr` lies in `net` (same family, same leading bits).
pub fn net_contains_addr(net: &IpNetValue, addr: &IpValue) -> (r: bool)
    requires
        net.addr is V4 ==> net.prefix_len <= 32,
        net.addr is V6 ==> net.prefix_len <= 128,
    ensures
        r == net_contains((net.addr, net.prefix_len), *addr),
{
    match (net.addr, *addr) {
        (IpValue::V4(n), IpValue::V4(a)) => {
            let shift: u32 = 32 - (net.prefix_len as u32);
            if shift == 32 {
                proof {
                    vstd::arithmetic::power2::lemma2_to64();
                }
                assert((a as nat) / vstd::arithmetic::power2::pow2(32) == 0);
                assert((n as nat) / vstd::arithmetic::power2::pow2(32) == 0);
                true
            } else {
                proof {
                    vstd::bits::lemma_u32_shr_is_div(a, shift);
                    vstd::bits::lemma_u32_shr_is_div(n, shift);
                }
                (a >> shift) == (n >> shift)
            }
        },
        (IpValue::V6(n), IpValue::V6(a)) => {
            let shift: u128 = 128 - (net.prefix_len as u128);
            if shift == 128 {
                proof {
                    vstd::arithmetic::power2::lemma_pow2_strictly_increases(0, 128);
                    vstd::arithmetic::power2::lemma_pow2_strictly_increases(127, 128);
                    lemma_u128_below_pow2_128(a);
                    lemma_u128_below_pow2_128(n);
                }
                true
            } else {
                proof {
                    vstd::bits::lemma_u128_shr_is_div(a, shift);
                    vstd::bits::lemma_u128_shr_is_div(n, shift);
                }
                (a >> shift) == (n >> shift)
            }
        },
        _ => false,
    }
}

/// Every `u128` divided by 2^128 is 0.
proof fn lemma_u128_below_pow2_128(x: u128)
    ensures
        (x as nat) / vstd::arithmetic::power2::pow2(128) == 0,
{
    vstd::arithmetic::power2::lemma2_to64_rest();
    vstd::arithmetic::power2::lemma_pow2_adds(64, 64);
    assert(vstd::arithmetic::power2::pow2(128) == 0x1_0000_0000_0000_0000_0000_0000_0000_0000nat)
        by (nonlinear_arith)
        requires
            vstd::arithmetic::power2::pow2(64) == 0x1_0000_0000_0000_0000nat,
            vstd::arithmetic::power2::pow2(128) == vstd::arithmetic::power2::pow2(64)
                * vstd::arithmetic::power2::pow2(64),
    ;
    vstd::arithmetic::div_mod::lemma_basic_div(x as int, vstd::arithmetic::power2::pow2(128) as int);
}

/// Whether the range written as `text` contains `addr`; a range that does
/// not parse contains nothing.
fn range_text_blocks(text: &str, addr: &IpValue) -> (r: bool)
    ensures
        r == range_blocks(text@, *addr),
{
    match parse_ip_net(text) {
        Some(net) => net_contains_addr(&net, addr),
        None => false,
    }
}

/// Whether `addr` lies in one of the refused ranges.
pub fn is_blocked_ip(addr: &IpValue) -> (r: bool)
    ensures
        r == is_blocked_addr(*addr),
{
    range_text_blocks("10.0.0.0/8", addr) || range_text_blocks("172.16.0.0/12", addr)
        || range_text_blocks("192.168.0.0/16", addr) || range_text_blocks("169.254.0.0/16", addr)
        || range_text_blocks("fc00::/7", addr)
}

/// Whether `host` is one of the refused host names.
pub fn is_blocked_host_name(host: &str) -> (r: bool)
    ensures
        r == is_blocked_host(host@),
{
    str_eq(host, "localhost") || str_eq(host, "127.0.0.1") || str_eq(host, "::1") || str_eq(
        host,
        "0.0.0.0",
    )
}

/// Whether the browser may open `url`: the scheme must be `http` or
/// `https`, the serialized host must not be a refused name, and an address
/// host must not be `::1` nor lie in a refused range.
pub fn is_url_allowed(url: &ParsedUrl) -> (r: bool)
    ensures
        r == url_allowed(url@),
{
    let scheme = url_scheme_of(url);
    if !(str_eq(scheme.as_str(), "http") || str_eq(scheme.as_str(), "https")) {
        return false;
    }
    if let Some(h) = url_host_str_of(url) {
        if is_blocked_host_name(h.as_str()) {
            return false;
        }
    }
    match url_host_of(url) {
        Some(UrlHost::Ipv4(a)) => {
            let addr = IpValue::V4(a);
            if is_blocked_ip(&addr) {
                return false;
            }
        },
        Some(UrlHost::Ipv6(a)) => {
            let addr = IpValue::V6(a);
            if a == 1 || is_blocked_ip(&addr) {
                return false;
            }
        },
        _ => {},
    }
    true
}

/// Whether `raw` parses as a URL that [`is_url_allowed`] accepts; text that
/// does not parse is refused.
pub fn is_raw_url_allowed(raw: &str) -> (r: bool)
    ensures
        r == raw_url_allowed(raw@),
{
    match parse_url(raw) {
        Ok(url) => is_url_allowed(&url),
        Err(_) => false,
    }
}

/// Law: a URL whose scheme is not `http` or `https` is never allowed.
pub proof fn law_non_web_scheme_refused(raw: Seq<char>)
    requires
        !is_web_scheme(url_scheme(raw)),
    ensures
        !url_allowed(raw),
{
}

/// Law: a URL whose serialized host is `localhost`, `127.0.0.1`, `::1` or
/// `0.0.0.0` is never allowed, whatever its scheme.
pub proof fn law_blocked_host_refused(raw: Seq<char>, h: Seq<char>)
    requires
        url_host_str(raw) == Some(h),
        is_blocked_host(h),
    ensures
        !url_allowed(raw),
{
}

/// Law: a URL whose host is an address inside one of the refused ranges is
/// never allowed, whatever its scheme or host text.
pub proof fn law_blocked_range_refused(raw: Seq<char>, a: IpValue)
    requires
        host_addr(url_host(raw)) == Some(a),
        is_blocked_addr(a),
    ensures
        !url_allowed(raw),
{
}

/// Law: a URL whose host is the IPv6 loopback address `::1` is never
/// allowed, though its host text is the bracketed `[::1]`.
pub proof fn law_ipv6_loopback_refused(raw: Seq<char>)
    requires
        url_host(raw) == Some(HostView::Ipv6(1)),
    ensures
        !url_allowed(raw),
{
}

/// Law: a web URL with a domain host that is not a refused name is allowed.
pub proof fn law_public_domain_allowed(raw: Seq<char>, d: Seq<char>)
    requires
        is_web_scheme(url_scheme(raw)),
        url_host(raw) == Some(HostView::Domain(d)),
        url_host_str(raw) matches Some(h) ==> !is_blocked_host(h),
    ensures
        url_allowed(raw),
{
}

/// Law: the names `localhost`, `127.0.0.1`, `::1` and `0.0.0.0` are refused
/// as hosts, and only `http` and `https` are web schemes.
pub proof fn law_refused_names_and_web_schemes(raw: Seq<char>, h: Seq<char>)
    ensures
        (h == "localhost"@ || h == "127.0.0.1"@ || h == "::1"@ || h == "0.0.0.0"@) && url_host_str(raw) == Some(h)
            ==> !url_allowed(raw),
        url_scheme(raw) != "http"@ && url_scheme(raw) != "https"@ ==> !url_allowed(raw),
        url_allowed(raw) ==> url_scheme(raw) == "http"@ || url_scheme(raw) == "https"@,
{
}

} // verus!
