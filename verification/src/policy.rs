//! Network policy: which URLs the browser may reach.
//!
//! A URL is reached only when its scheme is allowed, its origin is not
//! blocked, it matches the allow-list (when one is configured) and, unless
//! private networks are allowed, its host is not on a private, loopback,
//! link-local or otherwise restricted network.
use vstd::prelude::*;
use crate::error::Error;
use crate::text::{
    ascii_lower, chars_eq, chars_of, contains_seq, eq_ignore_case, eq_ignore_case_chars, eq_str,
    find_from, has_prefix, has_suffix, lower_chars, occurs_at, slice_chars, string_of, trim,
    trim_chars, trim_end_char, trim_end_chars, ends_with, starts_with,
};
use crate::types::{is_default_config, BrowserConfig};

verus! {

/// The parts of a parsed URL that the policy reads.
pub struct ParsedUrl {
    /// Scheme, lowercased, without `:`.
    pub scheme: String,
    /// Host, when the URL has one (IPv6 hosts in brackets).
    pub host: Option<String>,
    /// Explicit port, absent when it is the scheme's default.
    pub port: Option<u16>,
    /// ASCII serialization of the origin (`null` for opaque origins).
    pub origin: String,
}

/// The model of a parsed URL.
pub struct UrlView {
    pub scheme: Seq<char>,
    pub host: Option<Seq<char>>,
    pub port: Option<u16>,
    pub origin: Seq<char>,
}

impl View for ParsedUrl {
    type V = UrlView;

    open spec fn view(&self) -> UrlView {
        UrlView {
            scheme: self.scheme@,
            host: match self.host {
                Some(h) => Some(h@),
                None => None,
            },
            port: self.port,
            origin: self.origin@,
        }
    }
}

/// What `url::Url::parse` makes of a string: the URL's parts, or the
/// parser's error message.
pub uninterp spec fn url_parse(raw: Seq<char>) -> Result<UrlView, Seq<char>>;

/// Parses a URL with `url::Url::parse`.
///
/// Trusted: the result is `url_parse` of the input, the scheme, host,
/// port and origin being those that `Url::scheme`, `Url::host_str`,
/// `Url::port` and `Url::origin().ascii_serialization()` report.
#[verifier::external_body]
fn parse_url(raw: &str) -> (r: Result<ParsedUrl, String>)
    ensures
        match r {
            Ok(u) => url_parse(raw@) == Ok::<UrlView, Seq<char>>(u@),
            Err(e) => url_parse(raw@) == Err::<UrlView, Seq<char>>(e@),
        },
{
    match url::Url::parse(raw) {
        Ok(u) => Ok(ParsedUrl {
            scheme: u.scheme().to_string(),
            host: u.host_str().map(|h| h.to_string()),
            port: u.port(),
            origin: u.origin().ascii_serialization(),
        }),
        Err(e) => Err(e.to_string()),
    }
}

/// The default port of a scheme, as the URL parser knows it.
pub open spec fn scheme_default_port(scheme: Seq<char>) -> Option<u16> {
    if scheme == "http"@ || scheme == "ws"@ {
        Some(80)
    } else if scheme == "https"@ || scheme == "wss"@ {
        Some(443)
    } else if scheme == "ftp"@ {
        Some(21)
    } else {
        None
    }
}

/// The URL's port, or its scheme's default (`Url::port_or_known_default`).
pub open spec fn port_or_default(u: UrlView) -> Option<u16> {
    match u.port {
        Some(p) => Some(p),
        None => scheme_default_port(u.scheme),
    }
}

/// The default port that an origin pattern with a scheme assumes.
pub open spec fn pattern_default_port(scheme: Seq<char>) -> Option<u16> {
    if scheme == "http"@ || scheme == "ws"@ {
        Some(80)
    } else if scheme == "https"@ || scheme == "wss"@ {
        Some(443)
    } else {
        None
    }
}

fn default_port_of(scheme: &String) -> (r: Option<u16>)
    ensures
        r == scheme_default_port(scheme@),
{
    if eq_str(scheme, "http") || eq_str(scheme, "ws") {
        Some(80)
    } else if eq_str(scheme, "https") || eq_str(scheme, "wss") {
        Some(443)
    } else if eq_str(scheme, "ftp") {
        Some(21)
    } else {
        None
    }
}

fn pattern_default_port_of(scheme: &String) -> (r: Option<u16>)
    ensures
        r == pattern_default_port(scheme@),
{
    if eq_str(scheme, "http") || eq_str(scheme, "ws") {
        Some(80)
    } else if eq_str(scheme, "https") || eq_str(scheme, "wss") {
        Some(443)
    } else {
        None
    }
}

/// The URL's port, or its scheme's default.
pub fn port_or_known_default(u: &ParsedUrl) -> (r: Option<u16>)
    ensures
        r == port_or_default(u@),
{
    match u.port {
        Some(p) => Some(p),
        None => default_port_of(&u.scheme),
    }
}

/// The first position at or after `i` where `needle` occurs in `hay`.
pub open spec fn first_occ_from(hay: Seq<char>, needle: Seq<char>, i: int) -> Option<int>
    decreases hay.len() + 1 - i,
{
    if i < 0 || i > hay.len() {
        None
    } else if occurs_at(hay, needle, i) {
        Some(i)
    } else {
        first_occ_from(hay, needle, i + 1)
    }
}

/// A position where `needle` occurs, with none before it from `s` on, is the first one.
pub proof fn lemma_first_occ_at(hay: Seq<char>, needle: Seq<char>, s: int, i: int)
    requires
        0 <= s <= i,
        occurs_at(hay, needle, i),
        forall|j: int| s <= j < i ==> !occurs_at(hay, needle, j),
    ensures
        first_occ_from(hay, needle, s) == Some(i),
    decreases i - s,
{
    if s < i {
        lemma_first_occ_at(hay, needle, s + 1, i);
    }
}

/// Without an occurrence from `s` on, there is no first one.
pub proof fn lemma_first_occ_none(hay: Seq<char>, needle: Seq<char>, s: int)
    requires
        0 <= s,
        forall|j: int| s <= j ==> !occurs_at(hay, needle, j),
    ensures
        first_occ_from(hay, needle, s) is None,
    decreases hay.len() + 1 - s,
{
    if s <= hay.len() {
        lemma_first_occ_none(hay, needle, s + 1);
    }
}

/// The first position of `needle` in `hay` from `start` on.
pub fn first_occurrence(hay: &Vec<char>, needle: &Vec<char>, start: usize) -> (r: Option<usize>)
    ensures
        match r {
            Some(i) => first_occ_from(hay@, needle@, start as int) == Some(i as int) && occurs_at(
                hay@,
                needle@,
                i as int,
            ),
            None => first_occ_from(hay@, needle@, start as int) is None,
        },
{
    let r = find_from(hay, needle, start);
    proof {
        match r {
            Some(i) => lemma_first_occ_at(hay@, needle@, start as int, i as int),
            None => lemma_first_occ_none(hay@, needle@, start as int),
        }
    }
    r
}

/// `s` cut at the first occurrence of `sep` (`str::split_once`).
pub open spec fn split_once(s: Seq<char>, sep: Seq<char>) -> Option<(Seq<char>, Seq<char>)> {
    match first_occ_from(s, sep, 0) {
        Some(i) => Some((s.take(i), s.skip(i + sep.len()))),
        None => None,
    }
}

/// The part of `s` before the first `c` (all of `s` without one).
pub open spec fn before_char(s: Seq<char>, c: char) -> Seq<char> {
    match first_occ_from(s, seq![c], 0) {
        Some(i) => s.take(i),
        None => s,
    }
}

/// The last position of `c` in `s`.
pub open spec fn last_char_index(s: Seq<char>, c: char) -> Option<int>
    decreases s.len(),
{
    if s.len() == 0 {
        None
    } else if s.last() == c {
        Some(s.len() - 1)
    } else {
        last_char_index(s.drop_last(), c)
    }
}

fn last_index_of(s: &Vec<char>, c: char) -> (r: Option<usize>)
    ensures
        match r {
            Some(i) => last_char_index(s@, c) == Some(i as int) && i < s.len(),
            None => last_char_index(s@, c) is None,
        },
{
    let mut end: usize = s.len();
    proof {
        assert(s@.take(s@.len() as int) =~= s@);
    }
    while end > 0
        invariant
            end <= s.len(),
            last_char_index(s@, c) == last_char_index(s@.take(end as int), c),
        decreases end,
    {
        proof {
            assert(s@.take(end as int).drop_last() =~= s@.take(end - 1));
        }
        if s[end - 1] == c {
            return Some(end - 1);
        }
        end = end - 1;
    }
    proof {
        assert(s@.take(0) =~= Seq::<char>::empty());
    }
    None
}

/// All characters are ASCII digits.
pub open spec fn all_digits(d: Seq<char>) -> bool {
    forall|i: int| 0 <= i < d.len() ==> '0' <= #[trigger] d[i] && d[i] <= '9'
}

/// The value of a string of decimal digits.
pub open spec fn digits_value(d: Seq<char>) -> nat
    decreases d.len(),
{
    if d.len() == 0 {
        0
    } else {
        digits_value(d.drop_last()) * 10 + ((d.last() as nat) - 48) as nat
    }
}

/// `str::parse::<u16>`: an optional `+`, then one or more digits whose
/// value fits in 16 bits.
pub open spec fn parse_u16(s: Seq<char>) -> Option<u16> {
    let d = if s.len() > 0 && s[0] == '+' {
        s.drop_first()
    } else {
        s
    };
    if d.len() > 0 && all_digits(d) && digits_value(d) <= 65535 {
        Some(digits_value(d) as u16)
    } else {
        None
    }
}

/// The value of a digit string is at least that of its prefixes.
pub proof fn lemma_digits_monotone(d: Seq<char>, k: int)
    requires
        0 <= k <= d.len(),
        all_digits(d),
    ensures
        digits_value(d.take(k)) <= digits_value(d),
    decreases d.len() - k,
{
    if k < d.len() {
        assert(d.drop_last().take(k) =~= d.take(k));
        lemma_digits_monotone(d.drop_last(), k);
    } else {
        assert(d.take(k) =~= d);
    }
}

/// `parse_u16` in terms of the digits after the optional sign.
pub proof fn lemma_parse_u16_d(s: Seq<char>)
    ensures
        ({
            let d = if s.len() > 0 && s[0] == '+' {
                s.drop_first()
            } else {
                s
            };
            parse_u16(s) == if d.len() > 0 && all_digits(d) && digits_value(d) <= 65535 {
                Some(digits_value(d) as u16)
            } else {
                None
            }
        }),
{
}

/// Parses a port number as `str::parse::<u16>` does.
pub fn parse_port(s: &Vec<char>) -> (r: Option<u16>)
    ensures
        r == parse_u16(s@),
{
    let start: usize = if s.len() > 0 && s[0] == '+' { 1 } else { 0 };
    let ghost d = if s@.len() > 0 && s@[0] == '+' { s@.drop_first() } else { s@ };
    proof {
        assert(d =~= s@.skip(start as int));
    }
    if start >= s.len() {
        return None;
    }
    let mut value: u32 = 0;
    let mut i: usize = start;
    while i < s.len()
        invariant
            start <= i <= s.len(),
            d == s@.skip(start as int),
            d == (if s@.len() > 0 && s@[0] == '+' {
                s@.drop_first()
            } else {
                s@
            }),
            value == digits_value(d.take(i - start)),
            value <= 65535,
            all_digits(d.take(i - start)),
        decreases s.len() - i,
    {
        let c = s[i];
        if c < '0' || c > '9' {
            proof {
                assert(d[i - start] == c);
                assert(!all_digits(d));
                lemma_parse_u16_d(s@);
            }
            return None;
        }
        let digit: u32 = (c as u32) - 48;
        proof {
            let t = d.take(i - start + 1);
            assert(t.drop_last() =~= d.take(i - start));
            assert(t.last() == c);
        }
        let ghost old_value = value;
        value = value * 10 + digit;
        proof {
            let t = d.take(i - start + 1);
            assert(digits_value(t) == digits_value(t.drop_last()) * 10 + ((t.last() as nat) - 48) as nat);
            assert(digits_value(t) == value);
        }
        if value > 65535 {
            proof {
                assert forall|j: int| 0 <= j < i - start + 1 implies '0' <= #[trigger] d.take(i - start + 1)[j] && d.take(i - start + 1)[j] <= '9' by {
                    if j < i - start {
                        assert(d.take(i - start + 1)[j] == d.take(i - start)[j]);
                    }
                }
                if all_digits(d) {
                    lemma_digits_monotone(d, i - start + 1);
                }
                lemma_parse_u16_d(s@);
            }
            return None;
        }
        proof {
            assert forall|j: int| 0 <= j < i - start + 1 implies '0' <= #[trigger] d.take(i - start + 1)[j] && d.take(i - start + 1)[j] <= '9' by {
                if j < i - start {
                    assert(d.take(i - start + 1)[j] == d.take(i - start)[j]);
                }
            }
        }
        i = i + 1;
    }
    proof {
        assert(d.take(i - start) =~= d);
    }
    Some(value as u16)
}

/// Whether an origin pattern matches a URL.
///
/// The pattern is trimmed and loses its trailing slashes. `*` matches
/// everything; a pattern equal to the URL's origin (ignoring ASCII case)
/// matches it; otherwise the pattern matches only as a wildcard host
/// `[scheme://]*.suffix[:port]`, which requires the scheme (when given) and
/// the port (explicit, or the scheme's default) to agree.
pub open spec fn origin_matches_spec(pattern: Seq<char>, u: UrlView) -> bool {
    let p = trim_end_char(trim(pattern), '/');
    if p == "*"@ {
        true
    } else if eq_ignore_case(p, u.origin) {
        true
    } else {
        match u.host {
            None => false,
            Some(h) => {
                let host = ascii_lower(h);
                let split = split_once(p, "://"@);
                let scheme: Option<Seq<char>> = match split {
                    Some(parts) => Some(parts.0),
                    None => None,
                };
                let authority = match split {
                    Some(parts) => parts.1,
                    None => p,
                };
                if scheme is Some && !eq_ignore_case(scheme->0, u.scheme) {
                    false
                } else {
                    let auth = before_char(authority, '/');
                    let port_part: Option<(Seq<char>, u16)> = match last_char_index(auth, ':') {
                        Some(i) => match parse_u16(auth.skip(i + 1)) {
                            Some(port) => Some((auth.take(i), port)),
                            None => None,
                        },
                        None => None,
                    };
                    let pattern_host = match port_part {
                        Some(pp) => pp.0,
                        None => auth,
                    };
                    let port_ok = match port_part {
                        Some(pp) => port_or_default(u) == Some(pp.1),
                        None => !(scheme is Some && u.port is Some && port_or_default(u)
                            != pattern_default_port(u.scheme)),
                    };
                    let ph = ascii_lower(pattern_host);
                    port_ok && has_prefix(ph, "*."@) && has_suffix(host, seq!['.'] + ph.skip(2))
                }
            },
        }
    }
}

/// Whether the origin pattern `pattern` matches `url`.
pub fn origin_matches(pattern: &str, url: &ParsedUrl) -> (r: bool)
    ensures
        r == origin_matches_spec(pattern@, url@),
{
    let raw = chars_of(pattern);
    let trimmed = trim_chars(&raw);
    let p = trim_end_chars(&trimmed, '/');
    let star = chars_of("*");
    if chars_eq(&p, &star) {
        return true;
    }
    let origin = chars_of(url.origin.as_str());
    if eq_ignore_case_chars(&p, &origin) {
        return true;
    }
    let h = match &url.host {
        Some(h) => h,
        None => {
            return false;
        },
    };
    let host = lower_chars(h.as_str());
    let sep = chars_of("://");
    proof {
        reveal_strlit("://");
    }
    let split = first_occurrence(&p, &sep, 0);
    let mut has_scheme = false;
    let mut authority = p.clone();
    match split {
        Some(i) => {
            let scheme = slice_chars(&p, 0, i);
            let url_scheme = chars_of(url.scheme.as_str());
            if !eq_ignore_case_chars(&scheme, &url_scheme) {
                return false;
            }
            has_scheme = true;
            authority = slice_chars(&p, i + 3, p.len());
        },
        None => {},
    }
    proof {
        assert(authority@ == (match split_once(p@, "://"@) {
            Some(parts) => parts.1,
            None => p@,
        }));
        reveal_strlit("/");
        assert("/"@ =~= seq!['/']);
    }
    let slash = chars_of("/");
    let auth = match first_occurrence(&authority, &slash, 0) {
        Some(i) => slice_chars(&authority, 0, i),
        None => authority.clone(),
    };
    proof {
        assert(auth@ == before_char(authority@, '/'));
    }
    let mut pattern_host = auth.clone();
    let mut port_ok = true;
    let mut explicit_port = false;
    match last_index_of(&auth, ':') {
        Some(i) => {
            let digits = slice_chars(&auth, i + 1, auth.len());
            match parse_port(&digits) {
                Some(port) => {
                    pattern_host = slice_chars(&auth, 0, i);
                    port_ok = port_or_known_default(url) == Some(port);
                    explicit_port = true;
                },
                None => {},
            }
        },
        None => {},
    }
    if !explicit_port {
        if has_scheme && url.port.is_some() && port_or_known_default(url) != pattern_default_port_of(
            &url.scheme,
        ) {
            port_ok = false;
        }
    }
    if !port_ok {
        return false;
    }
    let ph = lower_chars(string_of(&pattern_host).as_str());
    proof {
        reveal_strlit("*.");
    }
    let wild = chars_of("*.");
    if !starts_with(&ph, &wild) {
        return false;
    }
    let mut suffix = chars_of(".");
    let rest = slice_chars(&ph, 2, ph.len());
    suffix.append(&mut rest.clone());
    proof {
        assert(seq!['.'] =~= "."@) by {
            reveal_strlit(".");
        }
        assert(sep@ == "://"@);
    }
    ends_with(&host, &suffix)
}

} // verus!

verus! {

/// An IP address.
#[derive(Debug, Clone, Copy, PartialEq, Eq, Structural)]
pub enum IpAddress {
    /// IPv4, as its four octets.
    V4(u8, u8, u8, u8),
    /// IPv6, as its eight 16-bit segments.
    V6(u16, u16, u16, u16, u16, u16, u16, u16),
}

/// Addresses the browser may not reach unless private networks are allowed:
/// for IPv4 the private (10/8, 172.16/12, 192.168/16), loopback (127/8),
/// link-local (169.254/16), unspecified, multicast (224/4), `0/8` and
/// shared (100.64/10) ranges; for IPv6 loopback (`::1`), unique local
/// (`fc00::/7`), link-local (`fe80::/10`), unspecified and multicast
/// (`ff00::/8`).
pub open spec fn restricted(ip: IpAddress) -> bool {
    match ip {
        IpAddress::V4(a, b, c, d) => {
            ||| a == 10
            ||| (a == 172 && 16 <= b <= 31)
            ||| (a == 192 && b == 168)
            ||| a == 127
            ||| (a == 169 && b == 254)
            ||| (a == 0 && b == 0 && c == 0 && d == 0)
            ||| (224 <= a <= 239)
            ||| a == 0
            ||| (a == 100 && 64 <= b <= 127)
        },
        IpAddress::V6(s0, s1, s2, s3, s4, s5, s6, s7) => {
            let zero_prefix = s0 == 0 && s1 == 0 && s2 == 0 && s3 == 0 && s4 == 0 && s5 == 0
                && s6 == 0;
            ||| (zero_prefix && s7 == 1)
            ||| (0xfc00 <= s0 <= 0xfdff)
            ||| (0xfe80 <= s0 <= 0xfebf)
            ||| (zero_prefix && s7 == 0)
            ||| s0 >= 0xff00
        },
    }
}

/// Whether an address lies on a restricted network.
pub fn is_restricted_ip(ip: IpAddress) -> (r: bool)
    ensures
        r == restricted(ip),
{
    match ip {
        IpAddress::V4(a, b, c, d) => {
            a == 10 || (a == 172 && 16 <= b && b <= 31) || (a == 192 && b == 168) || a == 127 || (a
                == 169 && b == 254) || (a == 0 && b == 0 && c == 0 && d == 0) || (224 <= a && a
                <= 239) || a == 0 || (a == 100 && 64 <= b && b <= 127)
        },
        IpAddress::V6(s0, s1, s2, s3, s4, s5, s6, s7) => {
            let zero_prefix = s0 == 0 && s1 == 0 && s2 == 0 && s3 == 0 && s4 == 0 && s5 == 0 && s6
                == 0;
            (zero_prefix && s7 == 1) || (0xfc00 <= s0 && s0 <= 0xfdff) || (0xfe80 <= s0 && s0
                <= 0xfebf) || (zero_prefix && s7 == 0) || s0 >= 0xff00
        },
    }
}

/// The outcome of the checks that need no name resolution.
pub enum UrlPolicy {
    /// The URL may be reached.
    Allowed(ParsedUrl),
    /// The URL is refused.
    Denied(Error),
    /// The URL may be reached if its host resolves only to unrestricted
    /// addresses (`port` is the port to resolve for).
    CheckHost { url: ParsedUrl, host: String, port: u16 },
}

/// Some pattern of the list matches the URL.
pub open spec fn any_origin_matches(patterns: Seq<String>, u: UrlView) -> bool {
    exists|i: int| 0 <= i < patterns.len() && origin_matches_spec(patterns[i]@, u)
}

/// Whether some pattern of the list matches the URL.
pub fn any_matches(patterns: &Vec<String>, url: &ParsedUrl) -> (r: bool)
    ensures
        r == any_origin_matches(patterns@, url@),
{
    let mut i: usize = 0;
    while i < patterns.len()
        invariant
            i <= patterns.len(),
            forall|j: int| 0 <= j < i ==> !origin_matches_spec(patterns@[j]@, url@),
        decreases patterns.len() - i,
    {
        if origin_matches(patterns[i].as_str(), url) {
            return true;
        }
        i = i + 1;
    }
    false
}

/// The scheme needs no network access at all.
pub open spec fn local_scheme(s: Seq<char>) -> bool {
    s == "about"@ || s == "blob"@ || s == "data"@
}

/// The scheme is one the browser may use on the network.
pub open spec fn network_scheme(s: Seq<char>) -> bool {
    s == "http"@ || s == "https"@ || s == "ws"@ || s == "wss"@
}

fn text(prefix: &str, s: &String) -> (r: String)
    ensures
        r@ == prefix@ + s@,
{
    let mut r = String::from_str(prefix);
    r.append(s.as_str());
    r
}

/// The outcome the network policy of `config` gives `raw` (see
/// [`check_url_policy`]).
pub open spec fn url_policy(config: BrowserConfig, raw: Seq<char>, r: UrlPolicy) -> bool {
        match url_parse(raw) {
            Err(e) => r matches UrlPolicy::Denied(Error::InvalidParameter(m)) && m@ == "Invalid URL: "@ + e,
            Ok(u) => if local_scheme(u.scheme) {
                r matches UrlPolicy::Allowed(p) && p@ == u
            } else if !network_scheme(u.scheme) {
                r matches UrlPolicy::Denied(Error::NetworkAccessDenied(m)) && m@ == "Unsupported URL scheme: "@ + u.scheme
            } else if any_origin_matches(config.blocked_origins@, u) {
                r matches UrlPolicy::Denied(Error::NetworkAccessDenied(m)) && m@ == "Origin is blocked: "@ + u.origin
            } else if config.allowed_origins@.len() > 0 && !any_origin_matches(config.allowed_origins@, u) {
                r matches UrlPolicy::Denied(Error::NetworkAccessDenied(m)) && m@ == "Origin is not allowlisted: "@ + u.origin
            } else if config.allow_private_networks {
                r matches UrlPolicy::Allowed(p) && p@ == u
            } else {
                match u.host {
                    None => r matches UrlPolicy::Denied(Error::NetworkAccessDenied(m)) && m@ == "URL has no host"@,
                    Some(h) => r matches UrlPolicy::CheckHost { url, host, port } && url@ == u && host@ == h
                        && port == (match port_or_default(u) {
                            Some(p) => p,
                            None => 443,
                        }),
                }
            }
        }
}

/// Applies the network policy of `config` to `raw`, up to name resolution.
///
/// An unparsable URL is an invalid parameter; `about:`, `blob:` and `data:`
/// URLs are allowed; other schemes than http(s)/ws(s) are refused; then a
/// blocked origin is refused, an origin outside a non-empty allow-list is
/// refused, and with private networks allowed the URL is allowed. Otherwise
/// a URL without a host is refused and one with a host needs its host checked.
pub fn check_url_policy(config: &BrowserConfig, raw: &str) -> (r: UrlPolicy)
    ensures
        url_policy(*config, raw@, r),
{
    let url = match parse_url(raw) {
        Ok(u) => u,
        Err(e) => {
            return UrlPolicy::Denied(Error::InvalidParameter(text("Invalid URL: ", &e)));
        },
    };
    if eq_str(&url.scheme, "about") || eq_str(&url.scheme, "blob") || eq_str(&url.scheme, "data") {
        return UrlPolicy::Allowed(url);
    }
    if !(eq_str(&url.scheme, "http") || eq_str(&url.scheme, "https") || eq_str(&url.scheme, "ws")
        || eq_str(&url.scheme, "wss")) {
        let m = text("Unsupported URL scheme: ", &url.scheme);
        return UrlPolicy::Denied(Error::NetworkAccessDenied(m));
    }
    if any_matches(&config.blocked_origins, &url) {
        let m = text("Origin is blocked: ", &url.origin);
        return UrlPolicy::Denied(Error::NetworkAccessDenied(m));
    }
    if config.allowed_origins.len() > 0 && !any_matches(&config.allowed_origins, &url) {
        let m = text("Origin is not allowlisted: ", &url.origin);
        return UrlPolicy::Denied(Error::NetworkAccessDenied(m));
    }
    if config.allow_private_networks {
        return UrlPolicy::Allowed(url);
    }
    let port = match port_or_known_default(&url) {
        Some(p) => p,
        None => 443,
    };
    match &url.host {
        None => UrlPolicy::Denied(Error::NetworkAccessDenied(String::from_str("URL has no host"))),
        Some(h) => {
            let host = h.clone();
            UrlPolicy::CheckHost { url, host, port }
        },
    }
}

/// A host is acceptable when it resolves to at least one address and all
/// its addresses are unrestricted.
pub open spec fn host_allowed(addresses: Seq<IpAddress>) -> bool {
    addresses.len() > 0 && forall|i: int| 0 <= i < addresses.len() ==> !restricted(addresses[i])
}

/// Completes a host check: allows the URL when its host's addresses (the
/// host itself when it is an IP literal, else what it resolves to) are all
/// unrestricted, and refuses it otherwise.
pub fn finish_host_check(url: ParsedUrl, host: &String, addresses: &Vec<IpAddress>) -> (r: Result<ParsedUrl, Error>)
    ensures
        host_allowed(addresses@) ==> (r matches Ok(p) && p@ == url@),
        !host_allowed(addresses@) ==> (r matches Err(Error::NetworkAccessDenied(m))
            && m@ == "Host resolves to a private or local network: "@ + host@),
{
    let mut allowed = addresses.len() > 0;
    let mut i: usize = 0;
    while i < addresses.len()
        invariant
            i <= addresses.len(),
            allowed == (addresses@.len() > 0 && forall|j: int| 0 <= j < i ==> !restricted(addresses@[j])),
        decreases addresses.len() - i,
    {
        if is_restricted_ip(addresses[i]) {
            allowed = false;
        }
        i = i + 1;
    }
    if allowed {
        Ok(url)
    } else {
        Err(Error::NetworkAccessDenied(text("Host resolves to a private or local network: ", host)))
    }
}

/// The error for a host that could not be resolved.
pub fn resolution_failed(host: &String, error: &String) -> (r: Error)
    ensures
        r matches Error::NetworkAccessDenied(m) && m@ == "Failed to resolve host "@ + host@ + ": "@ + error@,
{
    let mut m = String::from_str("Failed to resolve host ");
    m.append(host.as_str());
    m.append(": ");
    m.append(error.as_str());
    Error::NetworkAccessDenied(m)
}

/// Header names whose values are credentials.
pub open spec fn sensitive_header(name: Seq<char>) -> bool {
    let n = ascii_lower(name);
    ||| n == "authorization"@
    ||| n == "proxy-authorization"@
    ||| n == "cookie"@
    ||| n == "set-cookie"@
    ||| n == "x-api-key"@
    ||| n == "x-auth-token"@
}

/// Whether a header name carries credentials (ignoring ASCII case).
pub fn is_sensitive_header(name: &String) -> (r: bool)
    ensures
        r == sensitive_header(name@),
{
    let n = string_of(&lower_chars(name.as_str()));
    eq_str(&n, "authorization") || eq_str(&n, "proxy-authorization") || eq_str(&n, "cookie")
        || eq_str(&n, "set-cookie") || eq_str(&n, "x-api-key") || eq_str(&n, "x-auth-token")
}

/// The model of a header list.
pub open spec fn headers_view(h: Seq<(String, String)>) -> Seq<(Seq<char>, Seq<char>)> {
    Seq::new(h.len(), |i: int| (h[i].0@, h[i].1@))
}

/// Replaces credential header values by `<redacted>`, unless sensitive
/// data is to be captured; names and order are kept.
pub fn sanitize_headers(headers: Vec<(String, String)>, capture_sensitive_data: bool) -> (r: Vec<(String, String)>)
    ensures
        capture_sensitive_data ==> r == headers,
        !capture_sensitive_data ==> headers_view(r@) == Seq::new(
            headers@.len(),
            |i: int|
                if sensitive_header(headers@[i].0@) {
                    (headers@[i].0@, "<redacted>"@)
                } else {
                    (headers@[i].0@, headers@[i].1@)
                },
        ),
{
    if capture_sensitive_data {
        return headers;
    }
    let ghost target = Seq::new(
        headers@.len(),
        |i: int|
            if sensitive_header(headers@[i].0@) {
                (headers@[i].0@, "<redacted>"@)
            } else {
                (headers@[i].0@, headers@[i].1@)
            },
    );
    let mut out: Vec<(String, String)> = Vec::new();
    let mut i: usize = 0;
    while i < headers.len()
        invariant
            i <= headers.len(),
            out@.len() == i,
            target == Seq::new(
                headers@.len(),
                |i: int|
                    if sensitive_header(headers@[i].0@) {
                        (headers@[i].0@, "<redacted>"@)
                    } else {
                        (headers@[i].0@, headers@[i].1@)
                    },
            ),
            forall|j: int| 0 <= j < i ==> headers_view(out@)[j] == target[j],
        decreases headers.len() - i,
    {
        let name = headers[i].0.clone();
        let value = if is_sensitive_header(&headers[i].0) {
            String::from_str("<redacted>")
        } else {
            headers[i].1.clone()
        };
        let ghost before = out@;
        out.push((name, value));
        proof {
            assert forall|j: int| 0 <= j < i + 1 implies headers_view(out@)[j] == target[j] by {
                if j < i {
                    assert(out@[j] == before[j]);
                    assert(headers_view(before)[j] == target[j]);
                }
            }
        }
        i = i + 1;
    }
    proof {
        assert(headers_view(out@) =~= target);
    }
    out
}

} // verus!

verus! {

/// `p` split at every `*` (`str::split('*')`): always at least one part.
pub open spec fn star_split(p: Seq<char>) -> Seq<Seq<char>>
    decreases p.len(),
{
    if p.len() == 0 {
        seq![Seq::<char>::empty()]
    } else {
        let s = star_split(p.drop_last());
        if p.last() == '*' {
            s.push(Seq::empty())
        } else {
            s.update(s.len() - 1, s.last().push(p.last()))
        }
    }
}

/// A split has at least one part.
pub proof fn lemma_star_split_len(p: Seq<char>)
    ensures
        star_split(p).len() >= 1,
    decreases p.len(),
{
    if p.len() > 0 {
        lemma_star_split_len(p.drop_last());
    }
}

/// Matches the literal parts of a pattern, from part `i` on, against
/// `rem`: each non-empty part is found at its first occurrence, which for
/// the first part of an anchored pattern must be at the start. The result
/// is what is left of the value, or nothing when a part is missing.
pub open spec fn match_parts(
    parts: Seq<Seq<char>>,
    i: int,
    rem: Seq<char>,
    first: bool,
    anchored: bool,
) -> Option<Seq<char>>
    decreases parts.len() - i,
{
    if i < 0 || i >= parts.len() {
        Some(rem)
    } else if parts[i].len() == 0 {
        match_parts(parts, i + 1, rem, first, anchored)
    } else {
        match first_occ_from(rem, parts[i], 0) {
            None => None,
            Some(idx) => if first && anchored && idx != 0 {
                None
            } else {
                match_parts(parts, i + 1, rem.skip(idx + parts[i].len()), false, anchored)
            },
        }
    }
}

/// Whether a request URL matches a block pattern, where `*` stands for any
/// run of characters: `*` alone matches everything; otherwise the literal
/// parts are found left to right, each at its first occurrence, the first
/// at the start unless the pattern starts with `*`, and nothing may be left
/// over unless the pattern ends with `*`.
pub open spec fn wildcard(p: Seq<char>, v: Seq<char>) -> bool {
    if p == "*"@ {
        true
    } else {
        match match_parts(star_split(p), 0, v, true, !has_prefix(p, "*"@)) {
            None => false,
            Some(rem) => has_suffix(p, "*"@) || rem.len() == 0,
        }
    }
}

/// A pattern whose parts cannot all be found does not match.
pub proof fn lemma_match_parts_false(p: Seq<char>, v: Seq<char>)
    requires
        p != "*"@,
        match_parts(star_split(p), 0, v, true, !has_prefix(p, "*"@)) is None,
    ensures
        !wildcard(p, v),
{
}

/// The models of a list of character lists.
pub open spec fn parts_view(v: Seq<Vec<char>>) -> Seq<Seq<char>> {
    Seq::new(v.len(), |i: int| v[i]@)
}

fn split_on_star(p: &Vec<char>) -> (r: Vec<Vec<char>>)
    ensures
        parts_view(r@) == star_split(p@),
{
    let mut parts: Vec<Vec<char>> = Vec::new();
    parts.push(Vec::new());
    let mut i: usize = 0;
    proof {
        assert(p@.take(0) =~= Seq::<char>::empty());
        assert(parts_view(parts@) =~= seq![Seq::<char>::empty()]);
    }
    while i < p.len()
        invariant
            i <= p.len(),
            parts@.len() >= 1,
            parts_view(parts@) == star_split(p@.take(i as int)),
        decreases p.len() - i,
    {
        let c = p[i];
        let ghost before = parts_view(parts@);
        proof {
            let t = p@.take(i + 1);
            assert(t.drop_last() =~= p@.take(i as int));
            assert(t.last() == c);
        }
        if c == '*' {
            parts.push(Vec::new());
            proof {
                assert(parts_view(parts@) =~= before.push(Seq::empty()));
            }
        } else {
            let mut last = parts.pop().unwrap();
            last.push(c);
            parts.push(last);
            proof {
                assert(parts_view(parts@) =~= before.update(before.len() - 1, before.last().push(c)));
            }
        }
        i = i + 1;
    }
    proof {
        assert(p@.take(p@.len() as int) =~= p@);
    }
    parts
}

/// Whether `value` matches the block pattern `pattern`.
pub fn wildcard_match(pattern: &str, value: &str) -> (r: bool)
    ensures
        r == wildcard(pattern@, value@),
{
    let p = chars_of(pattern);
    let star = chars_of("*");
    if chars_eq(&p, &star) {
        return true;
    }
    let anchored = !starts_with(&p, &star);
    let parts = split_on_star(&p);
    let ghost ps = star_split(p@);
    let mut remaining = chars_of(value);
    let mut first = true;
    let mut k: usize = 0;
    while k < parts.len()
        invariant
            k <= parts.len(),
            ps == parts_view(parts@),
            ps == star_split(p@),
            p@ == pattern@,
            p@ != "*"@,
            anchored == !has_prefix(p@, "*"@),
            match_parts(ps, 0, value@, true, anchored) == match_parts(ps, k as int, remaining@, first, anchored),
        decreases parts.len() - k,
    {
        let part = &parts[k];
        proof {
            assert(part@ == ps[k as int]);
        }
        if part.len() == 0 {
            k = k + 1;
            continue;
        }
        match first_occurrence(&remaining, part, 0) {
            None => {
                proof {
                    assert(match_parts(ps, k as int, remaining@, first, anchored) is None);
                    lemma_match_parts_false(p@, value@);
                }
                return false;
            },
            Some(idx) => {
                proof {
                    assert(occurs_at(remaining@, part@, idx as int));
                    assert(idx + part@.len() <= remaining@.len());
                }
                if first && anchored && idx != 0 {
                    proof {
                        assert(match_parts(ps, k as int, remaining@, first, anchored) is None);
                        lemma_match_parts_false(p@, value@);
                    }
                    return false;
                }
                let plen = part.len();
                let rlen = remaining.len();
                proof {
                    assert(plen == part@.len());
                }
                remaining = slice_chars(&remaining, idx + plen, rlen);
                first = false;
            },
        }
        k = k + 1;
    }
    let ends = ends_with(&p, &star);
    ends || remaining.len() == 0
}

/// The patterns other than `p`.
pub open spec fn other_than(p: Seq<char>) -> spec_fn(Seq<char>) -> bool {
    |q: Seq<char>| q != p
}

/// The runtime request block rules of a browser session.
pub struct BlockRules {
    patterns: Vec<String>,
}

impl View for BlockRules {
    type V = Seq<Seq<char>>;

    closed spec fn view(&self) -> Seq<Seq<char>> {
        Seq::new(self.patterns@.len(), |i: int| self.patterns@[i]@)
    }
}

impl BlockRules {
    /// Rules never list a pattern twice.
    pub open spec fn wf(&self) -> bool {
        self@.no_duplicates()
    }

    /// No rules.
    pub fn new() -> (r: Self)
        ensures
            r@ == Seq::<Seq<char>>::empty(),
            r.wf(),
    {
        let r = BlockRules { patterns: Vec::new() };
        proof {
            assert(r@ =~= Seq::<Seq<char>>::empty());
        }
        r
    }

    /// Blocks (`block`) or unblocks requests matching `pattern`: blocking
    /// appends the pattern unless it is already listed, unblocking removes
    /// it. A blank pattern is refused and leaves the rules unchanged.
    pub fn update(&mut self, pattern: &str, block: bool) -> (r: Result<(), Error>)
        requires
            old(self).wf(),
        ensures
            final(self).wf(),
            trim(pattern@).len() == 0 ==> (r matches Err(Error::InvalidParameter(m))
                && m@ == "URL interception pattern cannot be empty"@ && final(self)@ == old(self)@),
            trim(pattern@).len() != 0 ==> r is Ok,
            trim(pattern@).len() != 0 && block ==> final(self)@ == (if old(self)@.contains(pattern@) {
                old(self)@
            } else {
                old(self)@.push(pattern@)
            }),
            trim(pattern@).len() != 0 && !block ==> final(self)@ == old(self)@.filter(
                other_than(pattern@),
            ),
    {
        let chars = chars_of(pattern);
        let trimmed = trim_chars(&chars);
        if trimmed.len() == 0 {
            return Err(Error::InvalidParameter(String::from_str("URL interception pattern cannot be empty")));
        }
        let ghost before = self@;
        if block {
            let mut i: usize = 0;
            let mut present = false;
            while i < self.patterns.len()
                invariant
                    i <= self.patterns.len(),
                    before == self@,
                    present == (exists|j: int| 0 <= j < i && self@[j] == pattern@),
                decreases self.patterns.len() - i,
            {
                proof {
                    assert(self@[i as int] == self.patterns@[i as int]@);
                }
                if eq_str(&self.patterns[i], pattern) {
                    present = true;
                }
                i = i + 1;
            }
            if !present {
                self.patterns.push(String::from_str(pattern));
                proof {
                    assert(self@ =~= before.push(pattern@));
                    assert forall|a: int, b: int| 0 <= a < b < self@.len() implies self@[a] != self@[b] by {
                        if b == before.len() {
                            assert(before[a] != pattern@);
                        }
                    }
                }
            } else {
                proof {
                    assert(before.contains(pattern@));
                }
            }
        } else {
            let mut kept: Vec<String> = Vec::new();
            let mut i: usize = 0;
            proof {
                assert(before.take(0) =~= Seq::<Seq<char>>::empty());
                assert(Seq::<Seq<char>>::empty().filter(other_than(pattern@)) =~= Seq::<Seq<char>>::empty());
                assert(Seq::new(kept@.len(), |j: int| kept@[j]@) =~= Seq::<Seq<char>>::empty());
            }
            while i < self.patterns.len()
                invariant
                    i <= self.patterns.len(),
                    before == self@,
                    before.no_duplicates(),
                    Seq::new(kept@.len(), |j: int| kept@[j]@) == before.take(i as int).filter(
                        other_than(pattern@),
                    ),
                    Seq::new(kept@.len(), |j: int| kept@[j]@).no_duplicates(),
                    forall|j: int|
                        0 <= j < kept@.len() ==> exists|m: int| 0 <= m < i && before[m] == #[trigger] kept@[j]@,
                decreases self.patterns.len() - i,
            {
                let ghost kv = Seq::new(kept@.len(), |j: int| kept@[j]@);
                proof {
                    assert(before.take(i + 1).drop_last() =~= before.take(i as int));
                    assert(before.take(i + 1).last() == before[i as int]);
                    reveal_with_fuel(Seq::filter, 1);
                    assert(self.patterns@[i as int]@ == before[i as int]);
                }
                if !eq_str(&self.patterns[i], pattern) {
                    kept.push(self.patterns[i].clone());
                    proof {
                        assert(Seq::new(kept@.len(), |j: int| kept@[j]@) =~= kv.push(before[i as int]));
                        assert forall|a: int, b: int|
                            0 <= a < b < kept@.len() implies kept@[a]@ != kept@[b]@ by {
                            if b == kept@.len() - 1 {
                                let m = choose|m: int| 0 <= m < i && before[m] == kept@[a]@;
                                assert(before[m] != before[i as int]);
                            } else {
                                assert(kv[a] != kv[b]);
                            }
                        }
                        assert forall|j: int| 0 <= j < kept@.len() implies exists|m: int|
                            0 <= m < i + 1 && before[m] == #[trigger] kept@[j]@ by {
                            if j == kept@.len() - 1 {
                                assert(before[i as int] == kept@[j]@);
                            } else {
                                let m = choose|m: int| 0 <= m < i && before[m] == kv[j];
                                assert(before[m] == kept@[j]@);
                            }
                        }
                    }
                } else {
                    proof {
                        assert(Seq::new(kept@.len(), |j: int| kept@[j]@) =~= kv);
                    }
                }
                i = i + 1;
            }
            proof {
                assert(before.take(before.len() as int) =~= before);
            }
            self.patterns = kept;
            proof {
                assert(self@ =~= before.filter(other_than(pattern@)));
            }
        }
        Ok(())
    }

    /// Removes every rule.
    pub fn clear(&mut self)
        ensures
            final(self)@ == Seq::<Seq<char>>::empty(),
            final(self).wf(),
    {
        self.patterns = Vec::new();
        proof {
            assert(self@ =~= Seq::<Seq<char>>::empty());
        }
    }

    /// The rules, in the order they were added.
    pub fn patterns(&self) -> (r: Vec<String>)
        ensures
            Seq::new(r@.len(), |i: int| r@[i]@) == self@,
    {
        let mut r: Vec<String> = Vec::new();
        let mut i: usize = 0;
        while i < self.patterns.len()
            invariant
                i <= self.patterns.len(),
                r@.len() == i,
                forall|j: int| 0 <= j < i ==> r@[j]@ == self.patterns@[j]@,
            decreases self.patterns.len() - i,
        {
            r.push(self.patterns[i].clone());
            i = i + 1;
        }
        proof {
            assert(Seq::new(r@.len(), |j: int| r@[j]@) =~= self@);
        }
        r
    }

    /// Whether some rule matches `url`.
    pub fn blocks(&self, url: &str) -> (r: bool)
        ensures
            r == exists|i: int| 0 <= i < self@.len() && wildcard(self@[i], url@),
    {
        let mut i: usize = 0;
        while i < self.patterns.len()
            invariant
                i <= self.patterns.len(),
                forall|j: int| 0 <= j < i ==> !wildcard(self@[j], url@),
            decreases self.patterns.len() - i,
        {
            proof {
                assert(self@[i as int] == self.patterns@[i as int]@);
            }
            if wildcard_match(self.patterns[i].as_str(), url) {
                return true;
            }
            i = i + 1;
        }
        false
    }

    /// The refusal of a browser request that a rule blocks, if one does.
    pub fn request_block(&self, url: &str) -> (r: Option<Error>)
        ensures
            (exists|i: int| 0 <= i < self@.len() && wildcard(self@[i], url@)) ==> (r matches Some(
                Error::NetworkAccessDenied(m),
            ) && m@ == "URL matches a runtime block rule: "@ + url@),
            !(exists|i: int| 0 <= i < self@.len() && wildcard(self@[i], url@)) ==> r is None,
    {
        if self.blocks(url) {
            Some(Error::NetworkAccessDenied(text("URL matches a runtime block rule: ", &String::from_str(url))))
        } else {
            None
        }
    }
}

} // verus!

verus! {

/// A web scheme is not one of the local schemes.
proof fn lemma_network_not_local(s: Seq<char>)
    requires
        network_scheme(s),
    ensures
        !local_scheme(s),
{
    reveal_strlit("about");
    reveal_strlit("blob");
    reveal_strlit("data");
    reveal_strlit("http");
    reveal_strlit("https");
    reveal_strlit("ws");
    reveal_strlit("wss");
    if s == "about"@ || s == "blob"@ || s == "data"@ {
        assert(s[0] != 'h' && s[0] != 'w');
    }
}

/// With the default configuration, a web URL with a host is never allowed
/// outright: its host's addresses are checked first.
pub proof fn law_default_policy_checks_hosts(config: BrowserConfig, raw: Seq<char>, u: UrlView, r: UrlPolicy)
    requires
        is_default_config(config),
        url_parse(raw) == Ok::<UrlView, Seq<char>>(u),
        network_scheme(u.scheme),
        u.host is Some,
        url_policy(config, raw, r),
    ensures
        r is CheckHost,
{
    lemma_network_not_local(u.scheme);
}

/// With private networks allowed and no origin lists, every web URL is
/// allowed without a host check.
pub proof fn law_private_networks_allowed(config: BrowserConfig, raw: Seq<char>, u: UrlView, r: UrlPolicy)
    requires
        config.allow_private_networks,
        config.blocked_origins@.len() == 0,
        config.allowed_origins@.len() == 0,
        url_parse(raw) == Ok::<UrlView, Seq<char>>(u),
        network_scheme(u.scheme),
        url_policy(config, raw, r),
    ensures
        r matches UrlPolicy::Allowed(p) && p@ == u,
{
    lemma_network_not_local(u.scheme);
}

/// A blocked origin is refused, whatever the allow-list and the private
/// network setting say.
pub proof fn law_blocked_origin_refused(config: BrowserConfig, raw: Seq<char>, u: UrlView, r: UrlPolicy)
    requires
        url_parse(raw) == Ok::<UrlView, Seq<char>>(u),
        network_scheme(u.scheme),
        any_origin_matches(config.blocked_origins@, u),
        url_policy(config, raw, r),
    ensures
        r matches UrlPolicy::Denied(Error::NetworkAccessDenied(m)) && m@ == "Origin is blocked: "@ + u.origin,
{
    lemma_network_not_local(u.scheme);
}

/// A host with any private, loopback or otherwise restricted address (or
/// with no address at all) is not allowed.
pub proof fn law_restricted_address_refused(addresses: Seq<IpAddress>, i: int)
    requires
        0 <= i < addresses.len(),
        restricted(addresses[i]),
    ensures
        !host_allowed(addresses),
        !host_allowed(Seq::<IpAddress>::empty()),
{
}

/// The pattern `*` blocks every URL.
pub proof fn law_star_matches_everything(url: Seq<char>)
    ensures
        wildcard("*"@, url),
{
}

/// A first occurrence found is an occurrence, at or after the start.
proof fn lemma_first_occ_found(hay: Seq<char>, needle: Seq<char>, s: int)
    ensures
        first_occ_from(hay, needle, s) matches Some(i) ==> s <= i && occurs_at(hay, needle, i),
    decreases hay.len() + 1 - s,
{
    if 0 <= s <= hay.len() && !occurs_at(hay, needle, s) {
        lemma_first_occ_found(hay, needle, s + 1);
    }
}

/// A pattern without `*` is a single part.
proof fn lemma_star_free_split(p: Seq<char>)
    requires
        !p.contains('*'),
    ensures
        star_split(p) == seq![p],
    decreases p.len(),
{
    if p.len() > 0 {
        assert(!p.drop_last().contains('*')) by {
            if p.drop_last().contains('*') {
                let k = choose|k: int| 0 <= k < p.drop_last().len() && p.drop_last()[k] == '*';
                assert(p[k] == '*');
            }
        }
        lemma_star_free_split(p.drop_last());
        assert(p.last() != '*');
        let sp = star_split(p.drop_last());
        assert(sp.len() - 1 == 0);
        assert(sp.last() == p.drop_last());
        assert(p.drop_last().push(p.last()) =~= p);
        assert(sp.update(0, p.drop_last().push(p.last())) =~= seq![p]);
    } else {
        assert(p =~= Seq::<char>::empty());
    }
}

/// A pattern without `*` matches exactly the value that equals it.
pub proof fn law_star_free_pattern_matches_itself(p: Seq<char>, v: Seq<char>)
    requires
        !p.contains('*'),
    ensures
        wildcard(p, v) <==> v == p,
{
    reveal_strlit("*");
    lemma_star_free_split(p);
    assert(p != "*"@) by {
        if p == "*"@ {
            assert(p[0] == '*');
        }
    }
    assert(!has_suffix(p, "*"@)) by {
        if has_suffix(p, "*"@) {
            assert(p.subrange(p.len() - 1, p.len() as int)[0] == '*');
            assert(p[p.len() - 1] == '*');
        }
    }
    assert(!has_prefix(p, "*"@)) by {
        if has_prefix(p, "*"@) {
            assert(p.subrange(0, 1)[0] == '*');
            assert(p[0] == '*');
        }
    }
    let parts = seq![p];
    assert(wildcard(p, v) == match match_parts(parts, 0, v, true, true) {
        None => false,
        Some(rem) => has_suffix(p, "*"@) || rem.len() == 0,
    });
    if p.len() == 0 {
        assert(match_parts(parts, 1, v, true, true) == Some(v));
        assert(match_parts(parts, 0, v, true, true) == Some(v));
        assert(p =~= Seq::<char>::empty());
        if v.len() == 0 {
            assert(v =~= p);
        }
    } else {
        lemma_first_occ_found(v, p, 0);
        if v == p {
            assert(p.subrange(0, p.len() as int) =~= p);
            assert(occurs_at(v, p, 0));
            lemma_first_occ_at(v, p, 0, 0);
            assert(v.skip(p.len() as int).len() == 0);
            assert(match_parts(parts, 1, v.skip(p.len() as int), false, true) == Some(v.skip(p.len() as int)));
        } else {
            match first_occ_from(v, p, 0) {
                None => {},
                Some(idx) => {
                    if idx == 0 {
                        let rem = v.skip(p.len() as int);
                        assert(match_parts(parts, 1, rem, false, true) == Some(rem));
                        assert(v.subrange(0, p.len() as int) == p);
                        if rem.len() == 0 {
                            assert(v =~= p);
                        }
                    }
                },
            }
        }
    }
}

/// Blocking a pattern lists it once, blocking it again changes nothing, and
/// unblocking it removes it.
pub proof fn law_block_unblock(rules: Seq<Seq<char>>, p: Seq<char>)
    ensures
        ({
            let blocked = if rules.contains(p) {
                rules
            } else {
                rules.push(p)
            };
            &&& blocked.contains(p)
            &&& (if blocked.contains(p) {
                blocked
            } else {
                blocked.push(p)
            }) == blocked
            &&& !blocked.filter(other_than(p)).contains(p)
        }),
{
    let blocked = if rules.contains(p) {
        rules
    } else {
        rules.push(p)
    };
    if !rules.contains(p) {
        assert(blocked[rules.len() as int] == p);
    }
    if blocked.filter(other_than(p)).contains(p) {
        let f = blocked.filter(other_than(p));
        let k = choose|k: int| 0 <= k < f.len() && f[k] == p;
        blocked.lemma_filter_pred(other_than(p), k);
    }
}

} // verus!

verus! {

/// Whether `v` matches the glob `p`, where each `*` matches any run of
/// characters (the empty one too) and every other character matches
/// itself.
pub open spec fn glob(p: Seq<char>, v: Seq<char>) -> bool
    decreases p.len(), v.len(),
{
    if p.len() == 0 {
        v.len() == 0
    } else if p[0] == '*' {
        glob(p.drop_first(), v) || (v.len() > 0 && glob(p, v.drop_first()))
    } else {
        v.len() > 0 && v[0] == p[0] && glob(p.drop_first(), v.drop_first())
    }
}

/// A literal prefix matches itself.
proof fn lemma_glob_literal(a: Seq<char>, q: Seq<char>, w: Seq<char>)
    requires
        !a.contains('*'),
        glob(q, w),
    ensures
        glob(a + q, a + w),
    decreases a.len(),
{
    if a.len() == 0 {
        assert(a + q =~= q);
        assert(a + w =~= w);
    } else {
        let t = a.drop_first();
        assert(!t.contains('*')) by {
            if t.contains('*') {
                let k = choose|k: int| 0 <= k < t.len() && t[k] == '*';
                assert(a[k + 1] == '*');
            }
        }
        assert(a[0] != '*') by {
            assert(a.contains(a[0]) || true);
            if a[0] == '*' {
                assert(a.contains('*'));
            }
        }
        lemma_glob_literal(t, q, w);
        assert((a + q).drop_first() =~= t + q);
        assert((a + w).drop_first() =~= t + w);
        assert((a + q)[0] == a[0]);
        assert((a + w)[0] == a[0]);
    }
}

/// A pattern that starts with `*` may have anything in front of a match.
proof fn lemma_glob_star_absorbs(q: Seq<char>, x: Seq<char>, w: Seq<char>)
    requires
        q.len() > 0,
        q[0] == '*',
        glob(q, w),
    ensures
        glob(q, x + w),
    decreases x.len(),
{
    if x.len() == 0 {
        assert(x + w =~= w);
    } else {
        lemma_glob_star_absorbs(q, x.drop_first(), w);
        assert((x + w).drop_first() =~= x.drop_first() + w);
    }
}

/// `*` matches everything.
proof fn lemma_glob_star_all(w: Seq<char>)
    ensures
        glob(seq!['*'], w),
    decreases w.len(),
{
    let q = seq!['*'];
    assert(q.drop_first() =~= Seq::<char>::empty());
    assert(q.len() == 1 && q[0] == '*');
    if w.len() > 0 {
        lemma_glob_star_all(w.drop_first());
        assert(glob(q, w.drop_first()));
    } else {
        assert(glob(q.drop_first(), w));
    }
}

/// Two stars in a row match what one does.
proof fn lemma_glob_double_star(r: Seq<char>, w: Seq<char>)
    requires
        glob(seq!['*', '*'] + r, w),
    ensures
        glob(seq!['*'] + r, w),
    decreases w.len(),
{
    let q2 = seq!['*', '*'] + r;
    let q1 = seq!['*'] + r;
    assert(q2.drop_first() =~= q1);
    if glob(q1, w) {
    } else {
        lemma_glob_double_star(r, w.drop_first());
        assert(q1.len() > 0 && q1[0] == '*');
    }
}

} // verus!

verus! {

/// Parts joined back with `*` between them.
pub open spec fn star_join(parts: Seq<Seq<char>>) -> Seq<char>
    decreases parts.len(),
{
    if parts.len() == 0 {
        Seq::empty()
    } else if parts.len() == 1 {
        parts[0]
    } else {
        star_join(parts.drop_last()) + seq!['*'] + parts.last()
    }
}

/// Growing the last part grows the join.
proof fn lemma_join_grow_last(s: Seq<Seq<char>>, c: char)
    requires
        s.len() >= 1,
    ensures
        star_join(s.update(s.len() - 1, s.last().push(c))) == star_join(s).push(c),
{
    let u = s.update(s.len() - 1, s.last().push(c));
    if s.len() >= 2 {
        assert(u.drop_last() =~= s.drop_last());
        assert(star_join(u) =~= star_join(s).push(c));
    }
}

/// Splitting at the stars and joining again gives the pattern back, and no
/// part holds a star.
proof fn lemma_split_join(p: Seq<char>)
    ensures
        star_join(star_split(p)) == p,
        forall|k: int| 0 <= k < star_split(p).len() ==> !(#[trigger] star_split(p)[k]).contains('*'),
    decreases p.len(),
{
    lemma_star_split_len(p);
    if p.len() == 0 {
        assert(star_join(star_split(p)) =~= p);
        assert forall|k: int| 0 <= k < star_split(p).len() implies !(#[trigger] star_split(p)[k]).contains('*') by {
            assert(star_split(p)[k].len() == 0);
        }
    } else {
        let q = p.drop_last();
        let s = star_split(q);
        lemma_split_join(q);
        lemma_star_split_len(q);
        if p.last() == '*' {
            assert(s.push(Seq::empty()).drop_last() =~= s);
            assert(star_join(star_split(p)) =~= p);
            assert forall|k: int| 0 <= k < star_split(p).len() implies !(#[trigger] star_split(p)[k]).contains(
                '*',
            ) by {
                if k < s.len() {
                    assert(star_split(p)[k] == s[k]);
                } else {
                    assert(star_split(p)[k].len() == 0);
                }
            }
        } else {
            lemma_join_grow_last(s, p.last());
            assert(q.push(p.last()) =~= p);
            assert forall|k: int| 0 <= k < star_split(p).len() implies !(#[trigger] star_split(p)[k]).contains(
                '*',
            ) by {
                if k < s.len() - 1 {
                    assert(star_split(p)[k] == s[k]);
                } else {
                    let t = s.last().push(p.last());
                    assert(star_split(p)[k] == t);
                    assert(!s[s.len() - 1].contains('*'));
                    if t.contains('*') {
                        let j = choose|j: int| 0 <= j < t.len() && t[j] == '*';
                        if j < s.last().len() {
                            assert(s.last()[j] == '*');
                        }
                    }
                }
            }
        }
    }
}

/// The join of two or more parts is the first part, a star, and the join
/// of the rest.
proof fn lemma_join_front(q: Seq<Seq<char>>)
    requires
        q.len() >= 2,
    ensures
        star_join(q) == q[0] + seq!['*'] + star_join(q.drop_first()),
    decreases q.len(),
{
    if q.len() == 2 {
        assert(q.drop_last().len() == 1 && q.drop_last()[0] == q[0]);
        assert(star_join(q.drop_last()) == q[0]);
        assert(q.drop_first().len() == 1 && q.drop_first()[0] == q[1]);
        assert(star_join(q.drop_first()) == q[1]);
        assert(star_join(q) == q[0] + seq!['*'] + q.last());
    } else {
        lemma_join_front(q.drop_last());
        assert(q.drop_last().drop_first() =~= q.drop_first().drop_last());
        assert(q.drop_first().last() == q.last());
        assert(star_join(q.drop_first()) == star_join(q.drop_first().drop_last()) + seq!['*'] + q.last());
        assert(star_join(q) =~= q[0] + seq!['*'] + star_join(q.drop_first()));
    }
}

} // verus!

verus! {

/// After a star, the parts from `i` on match what the first-occurrence
/// search accepts of `rem`.
proof fn lemma_parts_sound(
    parts: Seq<Seq<char>>,
    i: int,
    rem: Seq<char>,
    first: bool,
    anchored: bool,
    ends: bool,
    r: Seq<char>,
)
    requires
        0 <= i < parts.len(),
        forall|k: int| 0 <= k < parts.len() ==> !(#[trigger] parts[k]).contains('*'),
        !(first && anchored),
        match_parts(parts, i, rem, first, anchored) == Some(r),
        ends ==> parts.last().len() == 0,
        ends || r.len() == 0,
    ensures
        glob(seq!['*'] + star_join(parts.skip(i)), rem),
    decreases parts.len() - i,
{
    let part = parts[i];
    let tail = parts.skip(i);
    if i == parts.len() - 1 {
        assert(tail.len() == 1 && tail[0] == part);
        assert(star_join(tail) == part);
        if part.len() == 0 {
            assert(seq!['*'] + part =~= seq!['*']);
            lemma_glob_star_all(rem);
        } else {
            let idx = first_occ_from(rem, part, 0)->0;
            lemma_first_occ_found(rem, part, 0);
            let rest = rem.skip(idx + part.len());
            assert(match_parts(parts, i + 1, rest, false, anchored) == Some(rest));
            assert(r == rest);
            assert(!ends);
            assert(glob(Seq::<char>::empty(), Seq::<char>::empty()));
            lemma_glob_literal(part, Seq::empty(), Seq::empty());
            assert(part + Seq::<char>::empty() =~= part);
            let q = seq!['*'] + part;
            assert(q.drop_first() =~= part);
            assert(glob(q, part));
            assert(rem =~= rem.take(idx) + part);
            lemma_glob_star_absorbs(q, rem.take(idx), part);
        }
    } else {
        lemma_join_front(tail);
        assert(tail.drop_first() =~= parts.skip(i + 1));
        let j1 = star_join(parts.skip(i + 1));
        if part.len() == 0 {
            lemma_parts_sound(parts, i + 1, rem, first, anchored, ends, r);
            let q = seq!['*'] + star_join(tail);
            assert(star_join(tail) =~= seq!['*'] + j1);
            assert(q.drop_first() =~= seq!['*'] + j1);
        } else {
            let idx = first_occ_from(rem, part, 0)->0;
            lemma_first_occ_found(rem, part, 0);
            let rest = rem.skip(idx + part.len());
            lemma_parts_sound(parts, i + 1, rest, false, anchored, ends, r);
            let y = seq!['*'] + j1;
            lemma_glob_literal(part, y, rest);
            let q = seq!['*'] + star_join(tail);
            assert(star_join(tail) =~= part + y);
            assert(q.drop_first() =~= part + y);
            assert(glob(q, part + rest));
            assert(rem =~= rem.take(idx) + (part + rest));
            lemma_glob_star_absorbs(q, rem.take(idx), part + rest);
        }
    }
}

/// Whenever a block pattern matches a URL, the URL matches the pattern as
/// a glob: each `*` stands for some run of characters and every other
/// character for itself. (The converse does not hold: each literal part is
/// taken at its first occurrence, so `*.png` does not match `a.png.png`.)
pub proof fn law_wildcard_matches_are_glob_matches(p: Seq<char>, v: Seq<char>)
    requires
        wildcard(p, v),
    ensures
        glob(p, v),
{
    reveal_strlit("*");
    if p == "*"@ {
        assert(p =~= seq!['*']);
        lemma_glob_star_all(v);
    } else {
        let parts = star_split(p);
        lemma_split_join(p);
        lemma_star_split_len(p);
        let anchored = !has_prefix(p, "*"@);
        let r = match_parts(parts, 0, v, true, anchored)->0;
        let ends = has_suffix(p, "*"@);
        if ends {
            assert(p[p.len() - 1] == '*') by {
                assert(p.subrange(p.len() - 1, p.len() as int)[0] == '*');
            }
            assert(parts == star_split(p.drop_last()).push(Seq::empty()));
        }
        if !anchored {
            assert(p[0] == '*') by {
                assert(p.subrange(0, 1)[0] == '*');
            }
            if parts.len() == 1 {
                assert(star_join(parts) == parts[0]);
                assert(parts[0].contains('*'));
            }
            lemma_parts_sound(parts, 0, v, true, anchored, ends, r);
            assert(parts.skip(0) =~= parts);
            let rest = p.drop_first();
            assert(seq!['*'] + p =~= seq!['*', '*'] + rest);
            lemma_glob_double_star(rest, v);
            assert(seq!['*'] + rest =~= p);
        } else if parts.len() == 1 {
            assert(star_join(parts) == parts[0]);
            law_star_free_pattern_matches_itself(p, v);
            lemma_glob_literal(p, Seq::empty(), Seq::empty());
            assert(p + Seq::<char>::empty() =~= p);
        } else {
            lemma_join_front(parts);
            let part = parts[0];
            if part.len() == 0 {
                assert(p =~= seq!['*'] + star_join(parts.drop_first()));
                assert(p.subrange(0, 1) =~= "*"@);
            }
            let idx = first_occ_from(v, part, 0)->0;
            lemma_first_occ_found(v, part, 0);
            let rest = v.skip(part.len() as int);
            assert(idx == 0);
            lemma_parts_sound(parts, 1, rest, false, anchored, ends, r);
            assert(parts.skip(1) =~= parts.drop_first());
            lemma_glob_literal(part, seq!['*'] + star_join(parts.drop_first()), rest);
            assert(v =~= part + rest);
            assert(p =~= part + (seq!['*'] + star_join(parts.drop_first())));
        }
    }
}

} // verus!
