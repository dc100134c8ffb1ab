//! Turning what the user typed in the address bar into the URL to load.

use vstd::prelude::*;
use vstd::string::StringExecFns;
use vstd::utf8::encode_utf8;

use crate::navigation::NEW_TAB_URL;
use crate::settings::SearchEngine;
use crate::text::{
    ascii_case_insensitive_eq, chars_of, contains_str, eq_ignore_ascii_case, has_infix,
    has_prefix, has_whitespace, is_ascii_alnum, is_ascii_alpha, occurs_at, is_whitespace, is_whitespace_char,
    starts_with, trim, trimmed,
};

verus! {

/// The host text (`host_str`) of the URL that `url::Url::parse` reads from `input`;
/// `None` when parsing fails or the URL has no host.
pub uninterp spec fn url_host_text(input: Seq<char>) -> Option<Seq<char>>;

/// Whether the host (`host()`) of the URL that `url::Url::parse` reads from `input` is an
/// IPv4 address.
pub uninterp spec fn url_host_is_ipv4(input: Seq<char>) -> bool;

/// Whether `url::Url::parse` accepts `input` as an absolute URL.
pub uninterp spec fn url_parses(input: Seq<char>) -> bool;

/// Calls `url::Url::parse(input)`; when it succeeds and the URL has a host, returns
/// `host_str()` together with whether `host()` is `Host::Ipv4`.
///
/// Claimed: the result is the host text named by `url_host_text` and the IPv4 flag named by
/// `url_host_is_ipv4`, both functions of `input` alone.
#[verifier::external_body]
fn parse_url_host(input: &str) -> (r: Option<(String, bool)>)
    ensures
        r is None <==> url_host_text(input@) is None,
        r matches Some((text, ipv4)) ==> url_host_text(input@) == Some(text@) && ipv4
            == url_host_is_ipv4(input@),
{
    let parsed = match url::Url::parse(input) {
        Ok(parsed) => parsed,
        Err(_) => return None,
    };
    let ipv4 = matches!(parsed.host(), Some(url::Host::Ipv4(_)));
    match parsed.host_str() {
        Some(host) => Some((host.to_owned(), ipv4)),
        None => None,
    }
}

/// Calls `url::Url::parse(input)` and reports whether it succeeded.
///
/// Claimed: the answer is the one named by `url_parses`, a function of `input` alone.
#[verifier::external_body]
fn url_parse_succeeds(input: &str) -> (r: bool)
    ensures
        r == url_parses(input@),
{
    url::Url::parse(input).is_ok()
}

/// The upper-case hexadecimal digit for `d` (below 16).
pub open spec fn hex_upper(d: int) -> char {
    if d < 10 {
        (d + 48) as char
    } else {
        (d + 55) as char
    }
}

/// How `application/x-www-form-urlencoded` writes one byte: ASCII letters, digits and
/// `*-._` stay, a space becomes `+`, anything else becomes `%` and two upper-case hex digits.
pub open spec fn form_encoded_byte(b: u8) -> Seq<char> {
    // 'a'..='z', 'A'..='Z', '0'..='9', '*', '-', '.', '_'
    if (97 <= b <= 122) || (65 <= b <= 90) || (48 <= b <= 57) || b == 42 || b == 45 || b == 46
        || b == 95 {
        seq![b as char]
    } else if b == 32 {
        seq!['+']
    } else {
        seq!['%', hex_upper(b as int / 16), hex_upper(b as int % 16)]
    }
}

/// The form encoding of a byte string.
pub open spec fn form_encoded_bytes(bytes: Seq<u8>) -> Seq<char>
    decreases bytes.len(),
{
    if bytes.len() == 0 {
        Seq::empty()
    } else {
        form_encoded_byte(bytes[0]) + form_encoded_bytes(bytes.drop_first())
    }
}

/// One `name=value` pair in form encoding, each side encoded from its UTF-8 bytes.
pub open spec fn form_encoded_pair(name: Seq<char>, value: Seq<char>) -> Seq<char> {
    form_encoded_bytes(encode_utf8(name)) + seq!['='] + form_encoded_bytes(encode_utf8(value))
}

/// Calls `form_urlencoded::Serializer::new(String::new()).append_pair(name, value).finish()`
/// (through the `url` crate).
///
/// Claimed: the serializer starts empty, so no `&` is written, and the text is `name`, `=`,
/// `value`, both sides byte-encoded as `form_encoded_bytes` states, as the crate's source
/// does it.
#[verifier::external_body]
fn form_urlencoded_pair(name: &str, value: &str) -> (r: String)
    ensures
        r@ == form_encoded_pair(name@, value@),
{
    url::form_urlencoded::Serializer::new(String::new()).append_pair(name, value).finish()
}

/// The fixed start of a search URL for each engine.
pub open spec fn search_prefix(engine: SearchEngine) -> Seq<char> {
    match engine {
        SearchEngine::Google => "https://www.google.com/search?"@,
        SearchEngine::DuckDuckGo => "https://duckduckgo.com/?"@,
        SearchEngine::Bing => "https://www.bing.com/search?"@,
    }
}

/// The search URL for `query` with `engine`.
pub open spec fn search_url_for(query: Seq<char>, engine: SearchEngine) -> Seq<char> {
    search_prefix(engine) + form_encoded_pair("q"@, query)
}

/// The URL that searches for `query` with `engine`.
pub fn search_url(query: &str, engine: SearchEngine) -> (r: String)
    ensures
        r@ == search_url_for(query@, engine),
{
    let encoded = form_urlencoded_pair("q", query);
    let mut url = match engine {
        SearchEngine::Google => "https://www.google.com/search?".to_owned(),
        SearchEngine::DuckDuckGo => "https://duckduckgo.com/?".to_owned(),
        SearchEngine::Bing => "https://www.bing.com/search?".to_owned(),
    };
    url.append(encoded.as_str());
    url
}

/// Every `.`-separated label of `d` is non-empty, neither starts nor ends with `-`, and
/// holds only ASCII letters, digits and `-` (stated character by character).
pub open spec fn labels_ok(d: Seq<char>) -> bool {
    &&& d.len() > 0
    &&& forall|i: int| 0 <= i < d.len() ==> is_ascii_alnum(d[i]) || d[i] == '-' || d[i] == '.'
    &&& d[0] != '.' && d[0] != '-'
    &&& d.last() != '.' && d.last() != '-'
    &&& forall|i: int|
        0 <= i < d.len() - 1 ==> (#[trigger] d[i] == '.' ==> d[i + 1] != '.' && d[i + 1] != '-')
    &&& forall|i: int| 1 <= i < d.len() ==> (#[trigger] d[i] == '.' ==> d[i - 1] != '-')
}

/// A top-level label: at least two ASCII letters.
pub open spec fn tld_ok(t: Seq<char>) -> bool {
    t.len() >= 2 && forall|i: int| 0 <= i < t.len() ==> is_ascii_alpha(t[i])
}

/// `i` is the position of the last `.` in `h`.
pub open spec fn is_last_dot(h: Seq<char>, i: int) -> bool {
    &&& 0 <= i < h.len()
    &&& h[i] == '.'
    &&& forall|j: int| i < j < h.len() ==> h[j] != '.'
}

/// `h` splits at its last dot into well-formed labels and a top-level label.
pub open spec fn domain_shaped(h: Seq<char>) -> bool {
    exists|i: int|
        is_last_dot(h, i) && labels_ok(h.subrange(0, i)) && tld_ok(h.subrange(i + 1, h.len() as int))
}

/// What `value` turns into when read as the host part of an `https` URL.
pub open spec fn https_input(value: Seq<char>) -> Seq<char> {
    "https://"@ + value
}

/// `value` looks like something to visit rather than to search for: it has no white space,
/// and as the rest of an `https` URL it names `localhost`, an IP address, or a domain name
/// whose labels are well formed and whose top-level label is alphabetic.
pub open spec fn likely_domain(value: Seq<char>) -> bool {
    !has_whitespace(value) && match url_host_text(https_input(value)) {
        None => false,
        Some(host) => visitable_host(host, url_host_is_ipv4(https_input(value))),
    }
}

/// A parsed host names something to visit: `localhost` in any case, an IPv4 address
/// (`ipv4`), or a domain name.
pub open spec fn visitable_host(host: Seq<char>, ipv4: bool) -> bool {
    ascii_case_insensitive_eq(host, "localhost"@) || ipv4 || domain_shaped(host)
}

/// Whether `h` is shaped like a domain name.
fn is_domain_shaped(h: &Vec<char>) -> (r: bool)
    ensures
        r == domain_shaped(h@),
{
    let n = h.len();
    let mut k: usize = n;
    while k > 0 && h[k - 1] != '.'
        invariant
            n == h@.len(),
            k <= n,
            forall|j: int| k <= j < n ==> h@[j] != '.',
        decreases k,
    {
        k = k - 1;
    }
    if k == 0 {
        assert forall|i: int| !is_last_dot(h@, i) by {
            if 0 <= i < n {
                assert(h@[i] != '.');
            }
        }
        return false;
    }
    let dot = k - 1;
    assert(is_last_dot(h@, dot as int));
    proof {
        assert forall|i: int| is_last_dot(h@, i) implies i == dot by {
            if i < dot {
                assert(h@[dot as int] != '.');
            }
            if dot < i {
                assert(h@[i] != '.');
            }
        }
    }
    assert(domain_shaped(h@) == (labels_ok(h@.subrange(0, dot as int)) && tld_ok(
        h@.subrange(dot + 1, n as int),
    )));
    // top-level label
    if n - k < 2 {
        assert(!tld_ok(h@.subrange(dot + 1, n as int)));
        return false;
    }
    let mut j: usize = k;
    while j < n
        invariant
            n == h@.len(),
            k == dot + 1,
            k <= j <= n,
            domain_shaped(h@) == (labels_ok(h@.subrange(0, dot as int)) && tld_ok(
                h@.subrange(dot + 1, n as int),
            )),
            forall|m: int| k <= m < j ==> is_ascii_alpha(h@[m]),
        decreases n - j,
    {
        let c = h[j];
        if !(('a' <= c && c <= 'z') || ('A' <= c && c <= 'Z')) {
            assert(h@.subrange(dot + 1, n as int)[j - k] == c);
            return false;
        }
        j = j + 1;
    }
    assert(tld_ok(h@.subrange(dot + 1, n as int)));
    // the labels before the last dot
    let d = dot;
    let ghost ds = h@.subrange(0, d as int);
    if d == 0 {
        return false;
    }
    if h[0] == '.' || h[0] == '-' || h[d - 1] == '.' || h[d - 1] == '-' {
        return false;
    }
    let mut i: usize = 0;
    while i < d
        invariant
            n == h@.len(),
            d < n,
            d == dot,
            i <= d,
            domain_shaped(h@) == (labels_ok(h@.subrange(0, dot as int)) && tld_ok(
                h@.subrange(dot + 1, n as int),
            )),
            tld_ok(h@.subrange(dot + 1, n as int)),
            ds == h@.subrange(0, d as int),
            forall|m: int| 0 <= m < i ==> is_ascii_alnum(ds[m]) || ds[m] == '-' || ds[m] == '.',
            forall|m: int|
                0 <= m < i && m < d - 1 ==> (#[trigger] ds[m] == '.' ==> ds[m + 1] != '.' && ds[m
                    + 1] != '-'),
            forall|m: int| 1 <= m < i ==> (#[trigger] ds[m] == '.' ==> ds[m - 1] != '-'),
        decreases d - i,
    {
        let c = h[i];
        let ok = ('a' <= c && c <= 'z') || ('A' <= c && c <= 'Z') || ('0' <= c && c <= '9') || c
            == '-' || c == '.';
        if !ok {
            assert(ds[i as int] == c);
            return false;
        }
        if c == '.' {
            if i + 1 < d && (h[i + 1] == '.' || h[i + 1] == '-') {
                assert(ds[i as int] == '.');
                assert(ds[i + 1] == h@[i + 1]);
                return false;
            }
            if i > 0 && h[i - 1] == '-' {
                assert(ds[i as int] == '.');
                assert(ds[i - 1] == '-');
                return false;
            }
        }
        i = i + 1;
    }
    assert(labels_ok(ds));
    true
}

/// Whether `value` looks like a host name or address rather than search text.
pub fn is_likely_domain(value: &str) -> (r: bool)
    ensures
        r == likely_domain(value@),
{
    let chars = chars_of(value);
    let n = chars.len();
    let mut i: usize = 0;
    while i < n
        invariant
            n == chars@.len(),
            chars@ == value@,
            i <= n,
            forall|k: int| 0 <= k < i ==> !is_whitespace_char(value@[k]),
        decreases n - i,
    {
        if is_whitespace(chars[i]) {
            return false;
        }
        i = i + 1;
    }
    let mut input = "https://".to_owned();
    input.append(value);
    assert(input@ == https_input(value@));
    match parse_url_host(input.as_str()) {
        None => false,
        Some((host, ipv4)) => is_visitable_host(host.as_str(), ipv4),
    }
}

/// Whether the host `host` of a parsed URL (an IPv4 address when `ipv4`) names something
/// to visit.
pub fn is_visitable_host(host: &str, ipv4: bool) -> (r: bool)
    ensures
        r == visitable_host(host@, ipv4),
{
    let host_chars = chars_of(host);
    if eq_ignore_ascii_case(&host_chars, "localhost") || ipv4 {
        return true;
    }
    is_domain_shaped(&host_chars)
}

/// `value` names its own scheme.
pub open spec fn has_explicit_scheme(value: Seq<char>) -> bool {
    ||| has_infix(value, "://"@)
    ||| has_prefix(value, "about:"@)
    ||| has_prefix(value, "data:"@)
    ||| has_prefix(value, "file:"@)
}

/// The URL the address bar opens for `input`, given whether its trimmed text parses as a
/// URL (`parses`) and whether it looks like a host (`domain`).
///
/// Blank input opens the new-tab page; input starting with `?` searches for the rest; input
/// with its own scheme that parses as a URL is opened as given; input that looks like a host
/// is opened over `https`; anything else is searched for with `engine`.
pub open spec fn address_for(input: Seq<char>, engine: SearchEngine, parses: bool, domain: bool) -> Seq<
    char,
> {
    let v = trimmed(input);
    if v.len() == 0 {
        NEW_TAB_URL@
    } else if v[0] == '?' {
        search_url_for(trimmed(v.drop_first()), engine)
    } else if has_explicit_scheme(v) && parses {
        v
    } else if domain {
        "https://"@ + v
    } else {
        search_url_for(v, engine)
    }
}

/// The URL the address bar opens for `input`.
pub open spec fn normalized_url(input: Seq<char>, engine: SearchEngine) -> Seq<char> {
    address_for(input, engine, url_parses(trimmed(input)), likely_domain(trimmed(input)))
}

/// The URL for address-bar input `input`, given whether its trimmed text parses as a URL
/// (`parses`) and whether it looks like a host (`domain`).
pub fn resolve_address(input: &str, engine: SearchEngine, parses: bool, domain: bool) -> (r: String)
    ensures
        r@ == address_for(input@, engine, parses, domain),
{
    let v = trim(input);
    let n = v.unicode_len();
    if n == 0 {
        return NEW_TAB_URL.to_owned();
    }
    if v.get_char(0) == '?' {
        let rest = v.substring_char(1, n);
        assert(rest@ == v@.drop_first());
        return search_url(trim(rest), engine);
    }
    if scheme_given(v) && parses {
        return v.to_owned();
    }
    if domain {
        let mut url = "https://".to_owned();
        url.append(v);
        return url;
    }
    search_url(v, engine)
}

/// Whether `v` names its own scheme.
fn scheme_given(v: &str) -> (r: bool)
    ensures
        r == has_explicit_scheme(v@),
{
    let chars = chars_of(v);
    contains_str(&chars, "://") || starts_with(&chars, "about:") || starts_with(&chars, "data:")
        || starts_with(&chars, "file:")
}

/// Turns address-bar input into the URL to load.
pub fn normalize_url(value: &str, engine: SearchEngine) -> (r: String)
    ensures
        r@ == normalized_url(value@, engine),
{
    let v = trim(value);
    let n = v.unicode_len();
    let mut parses = false;
    let mut domain = false;
    if n > 0 && v.get_char(0) != '?' {
        parses = scheme_given(v) && url_parse_succeeds(v);
        if !parses {
            domain = is_likely_domain(v);
        }
    }
    resolve_address(value, engine, parses, domain)
}

/// Input that names its own scheme and parses as a URL is opened as typed (trimmed): input
/// starting with `data:`, `about:` or `file:`, or holding `://` anywhere, whatever the
/// search engine.
pub proof fn law_explicit_schemes_open_as_typed(input: Seq<char>, engine: SearchEngine)
    requires
        trimmed(input).len() > 0,
        trimmed(input)[0] != '?',
        url_parses(trimmed(input)),
    ensures
        ({
            let v = trimmed(input);
            &&& (v.len() >= 5 && v.subrange(0, 5) == "data:"@) ==> normalized_url(input, engine)
                == v
            &&& (v.len() >= 6 && v.subrange(0, 6) == "about:"@) ==> normalized_url(input, engine)
                == v
            &&& (v.len() >= 5 && v.subrange(0, 5) == "file:"@) ==> normalized_url(input, engine)
                == v
            &&& (exists|k: int|
                0 <= k && k + 3 <= v.len() && #[trigger] v.subrange(k, k + 3) == "://"@)
                ==> normalized_url(input, engine) == v
        }),
{
    reveal_strlit("data:");
    reveal_strlit("about:");
    reveal_strlit("file:");
    reveal_strlit("://");
    let v = trimmed(input);
    if exists|k: int| 0 <= k && k + 3 <= v.len() && #[trigger] v.subrange(k, k + 3) == "://"@ {
        let k = choose|k: int| 0 <= k && k + 3 <= v.len() && #[trigger] v.subrange(k, k + 3) == "://"@;
        assert(occurs_at(v, "://"@, k));
    }
}

} // verus!
