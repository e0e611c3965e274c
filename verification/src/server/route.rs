//! How the server answers an HTTP request: the websocket endpoint it
//! advertises, the page it shows, and where an upgrade goes.
use vstd::prelude::*;

use crate::server::policy::{ends_with, find_from};
use crate::text::{
    chars_of, eq_ignore_ascii_case, first_segment, spec_trim, split_first, str_eq_ignore_ascii_case,
    string_of_chars, trim,
};

verus! {

// ---------------------------------------------------------------------------
// HTML escaping
// ---------------------------------------------------------------------------
/// How one character is written in HTML text.
pub open spec fn html_escape_char(c: char) -> Seq<char> {
    if c == '&' {
        seq!['&', 'a', 'm', 'p', ';']
    } else if c == '<' {
        seq!['&', 'l', 't', ';']
    } else if c == '>' {
        seq!['&', 'g', 't', ';']
    } else if c == '"' {
        seq!['&', 'q', 'u', 'o', 't', ';']
    } else if c == '\'' {
        seq!['&', '#', '3', '9', ';']
    } else {
        seq![c]
    }
}

/// The text with `&`, `<`, `>`, `"` and `'` written as entities.
pub open spec fn spec_html_escape(s: Seq<char>) -> Seq<char>
    decreases s.len(),
{
    if s.len() == 0 {
        seq![]
    } else {
        spec_html_escape(s.drop_last()) + html_escape_char(s.last())
    }
}

fn push_chars(out: &mut String, cs: &[char])
    ensures
        final(out)@ == old(out)@ + cs@,
{
    let mut i: usize = 0;
    while i < cs.len()
        invariant
            0 <= i <= cs@.len(),
            out@ == old(out)@ + cs@.take(i as int),
        decreases cs@.len() - i,
    {
        out.push(cs[i]);
        assert(out@ =~= old(out)@ + cs@.take(i + 1));
        i += 1;
    }
    assert(cs@.take(i as int) =~= cs@);
}

pub fn html_escape(value: &str) -> (r: String)
    ensures
        r@ == spec_html_escape(value@),
{
    let cs = chars_of(value);
    let mut escaped = String::new();
    let mut i: usize = 0;
    assert(cs@.take(0) =~= Seq::<char>::empty());
    while i < cs.len()
        invariant
            0 <= i <= cs@.len(),
            escaped@ == spec_html_escape(cs@.take(i as int)),
        decreases cs@.len() - i,
    {
        let c = cs[i];
        let ghost before = escaped@;
        if c == '&' {
            push_chars(&mut escaped, &['&', 'a', 'm', 'p', ';']);
        } else if c == '<' {
            push_chars(&mut escaped, &['&', 'l', 't', ';']);
        } else if c == '>' {
            push_chars(&mut escaped, &['&', 'g', 't', ';']);
        } else if c == '"' {
            push_chars(&mut escaped, &['&', 'q', 'u', 'o', 't', ';']);
        } else if c == '\'' {
            push_chars(&mut escaped, &['&', '#', '3', '9', ';']);
        } else {
            escaped.push(c);
        }
        assert(cs@.take(i + 1).drop_last() =~= cs@.take(i as int));
        assert(cs@.take(i + 1).last() == c);
        assert(escaped@ =~= before + html_escape_char(c));
        i += 1;
    }
    assert(cs@.take(i as int) =~= cs@);
    escaped
}

/// Escaped text holds none of `<`, `>`, `"` and `'`, and text without any
/// of the five special characters is left as it is.
pub proof fn lemma_html_escape(s: Seq<char>)
    ensures
        forall|i: int|
            0 <= i < spec_html_escape(s).len() ==> {
                let c = #[trigger] spec_html_escape(s)[i];
                c != '<' && c != '>' && c != '"' && c != '\''
            },
        (forall|i: int|
            0 <= i < s.len() ==> {
                let c = #[trigger] s[i];
                c != '&' && c != '<' && c != '>' && c != '"' && c != '\''
            }) ==> spec_html_escape(s) == s,
    decreases s.len(),
{
    if s.len() > 0 {
        let p = s.drop_last();
        lemma_html_escape(p);
        let e = spec_html_escape(s);
        let pe = spec_html_escape(p);
        let tail = html_escape_char(s.last());
        assert(e == pe + tail);
        assert forall|i: int| 0 <= i < e.len() implies {
            let c = #[trigger] e[i];
            c != '<' && c != '>' && c != '"' && c != '\''
        } by {
            if i < pe.len() {
                assert(e[i] == pe[i]);
            } else {
                assert(e[i] == tail[i - pe.len()]);
            }
        }
        if forall|i: int|
            0 <= i < s.len() ==> {
                let c = #[trigger] s[i];
                c != '&' && c != '<' && c != '>' && c != '"' && c != '\''
            } {
            assert forall|i: int| 0 <= i < p.len() implies {
                let c = #[trigger] p[i];
                c != '&' && c != '<' && c != '>' && c != '"' && c != '\''
            } by {
                assert(p[i] == s[i]);
            }
            let l = s.last();
            assert(l == s[s.len() - 1]);
            assert(tail == seq![l]);
            assert(e =~= s);
        }
    } else {
        assert(spec_html_escape(s) =~= s);
    }
}

// ---------------------------------------------------------------------------
// Header values
// ---------------------------------------------------------------------------
/// The first comma-separated element of a header value, trimmed, when it
/// is not empty.
pub open spec fn spec_first_header_value(value: Option<Seq<char>>) -> Option<Seq<char>> {
    match value {
        None => None,
        Some(v) => {
            let t = spec_trim(first_segment(v, ','));
            if t.len() == 0 {
                None
            } else {
                Some(t)
            }
        },
    }
}

pub open spec fn opt_view(o: Option<String>) -> Option<Seq<char>> {
    match o {
        Some(s) => Some(s@),
        None => None,
    }
}

/// The first element of a header's value (see `spec_first_header_value`).
pub fn first_header_value(value: &Option<String>) -> (r: Option<String>)
    ensures
        opt_view(r) == spec_first_header_value(opt_view(*value)),
{
    match value {
        None => None,
        Some(v) => {
            let first = split_first(v.as_str(), ',');
            let t = trim(first.as_str());
            if chars_of(t.as_str()).len() == 0 {
                None
            } else {
                Some(t)
            }
        },
    }
}

// ---------------------------------------------------------------------------
// The advertised endpoint
// ---------------------------------------------------------------------------
/// The characters with every trailing `c` removed.
pub open spec fn trim_end_char(s: Seq<char>, c: char) -> Seq<char>
    decreases s.len(),
{
    if s.len() > 0 && s.last() == c {
        trim_end_char(s.drop_last(), c)
    } else {
        s
    }
}

/// The path of the Wisp endpoint for a configured prefix: the prefix
/// between slashes, or `/` when it is empty.
pub open spec fn spec_endpoint(prefix: Seq<char>) -> Seq<char> {
    let p = trim_end_char(prefix, '/');
    if p.len() == 0 {
        seq!['/']
    } else if p[0] == '/' {
        p.push('/')
    } else {
        seq!['/'] + p.push('/')
    }
}

/// Whether the request reached the server over TLS, by the forwarding
/// headers of a proxy in front of it.
pub open spec fn spec_is_secure(proto: Option<Seq<char>>, ssl: Option<Seq<char>>) -> bool {
    ||| (spec_first_header_value(proto) matches Some(v) && (eq_ignore_ascii_case(
        v,
        seq!['h', 't', 't', 'p', 's'],
    ) || eq_ignore_ascii_case(v, seq!['w', 's', 's'])))
    ||| (spec_first_header_value(ssl) matches Some(v) && eq_ignore_ascii_case(v, seq!['o', 'n']))
}

/// The websocket URL of the Wisp endpoint, as a client reaching this
/// request's host would use it.
pub open spec fn spec_websocket_url(
    proto: Option<Seq<char>>,
    ssl: Option<Seq<char>>,
    forwarded_host: Option<Seq<char>>,
    host: Option<Seq<char>>,
    prefix: Seq<char>,
) -> Seq<char> {
    let scheme = if spec_is_secure(proto, ssl) {
        seq!['w', 's', 's']
    } else {
        seq!['w', 's']
    };
    let h = match spec_first_header_value(forwarded_host) {
        Some(v) => v,
        None => match host {
            Some(v) => v,
            None => seq!['l', 'o', 'c', 'a', 'l', 'h', 'o', 's', 't', ':', '4', '0', '0', '0'],
        },
    };
    scheme + seq![':', '/', '/'] + h + spec_endpoint(prefix)
}

/// The endpoint path always starts and ends with `/`.
pub proof fn lemma_endpoint_slashes(prefix: Seq<char>)
    ensures
        spec_endpoint(prefix).len() >= 1,
        spec_endpoint(prefix)[0] == '/',
        spec_endpoint(prefix).last() == '/',
{
}

fn endpoint(prefix: &str) -> (r: Vec<char>)
    ensures
        r@ == spec_endpoint(prefix@),
{
    let cs = chars_of(prefix);
    let mut n: usize = cs.len();
    assert(cs@.take(n as int) =~= cs@);
    while n > 0 && cs[n - 1] == '/'
        invariant
            n <= cs@.len(),
            trim_end_char(cs@, '/') == trim_end_char(cs@.take(n as int), '/'),
        decreases n,
    {
        assert(cs@.take(n as int).drop_last() =~= cs@.take(n - 1));
        n -= 1;
    }
    let ghost p = cs@.take(n as int);
    assert(trim_end_char(p, '/') == p);
    let mut out: Vec<char> = Vec::new();
    if n == 0 {
        out.push('/');
        assert(out@ =~= seq!['/']);
        return out;
    }
    if cs[0] != '/' {
        out.push('/');
    }
    let mut i: usize = 0;
    let ghost start = out@;
    while i < n
        invariant
            0 <= i <= n <= cs@.len(),
            out@ == start + cs@.take(i as int),
        decreases n - i,
    {
        out.push(cs[i]);
        assert(out@ =~= start + cs@.take(i + 1));
        i += 1;
    }
    out.push('/');
    assert(out@ =~= spec_endpoint(prefix@));
    out
}

fn append_chars(out: &mut Vec<char>, s: &str)
    ensures
        final(out)@ == old(out)@ + s@,
{
    let mut cs = chars_of(s);
    out.append(&mut cs);
}

/// The websocket URL of the Wisp endpoint (see `spec_websocket_url`), from
/// the request's `x-forwarded-proto`, `x-forwarded-ssl`, `x-forwarded-host`
/// and `host` headers and the configured prefix.
pub fn websocket_url(
    proto: &Option<String>,
    ssl: &Option<String>,
    forwarded_host: &Option<String>,
    host: &Option<String>,
    prefix: &str,
) -> (r: String)
    ensures
        r@ == spec_websocket_url(
            opt_view(*proto),
            opt_view(*ssl),
            opt_view(*forwarded_host),
            opt_view(*host),
            prefix@,
        ),
{
    let forwarded_proto = first_header_value(proto);
    let forwarded_tls = first_header_value(ssl);
    let https = ['h', 't', 't', 'p', 's'];
    let wss = ['w', 's', 's'];
    let on = ['o', 'n'];
    let https_s = string_of_chars(&https);
    let wss_s = string_of_chars(&wss);
    let on_s = string_of_chars(&on);
    let secure_proto = match &forwarded_proto {
        Some(v) => str_eq_ignore_ascii_case(v.as_str(), https_s.as_str()) || str_eq_ignore_ascii_case(
            v.as_str(),
            wss_s.as_str(),
        ),
        None => false,
    };
    let secure_tls = match &forwarded_tls {
        Some(v) => str_eq_ignore_ascii_case(v.as_str(), on_s.as_str()),
        None => false,
    };
    let mut out: Vec<char> = Vec::new();
    if secure_proto || secure_tls {
        out.push('w');
        out.push('s');
        out.push('s');
    } else {
        out.push('w');
        out.push('s');
    }
    out.push(':');
    out.push('/');
    out.push('/');
    let ghost head = out@;
    match first_header_value(forwarded_host) {
        Some(v) => append_chars(&mut out, v.as_str()),
        None => match host {
            Some(v) => append_chars(&mut out, v.as_str()),
            None => {
                let mut d = vec!['l', 'o', 'c', 'a', 'l', 'h', 'o', 's', 't', ':', '4', '0', '0', '0'];
                out.append(&mut d);
            },
        },
    }
    let mut e = endpoint(prefix);
    out.append(&mut e);
    assert(out@ =~= spec_websocket_url(
        opt_view(*proto),
        opt_view(*ssl),
        opt_view(*forwarded_host),
        opt_view(*host),
        prefix@,
    ));
    string_of_chars(out.as_slice())
}

// ---------------------------------------------------------------------------
// Routing a request
// ---------------------------------------------------------------------------
/// What the router needs of the configuration.
pub struct RouteConfig {
    /// The path prefix of the Wisp endpoint.
    pub prefix: String,
    /// Upgrades to other paths open a websocket proxy.
    pub allow_wsproxy: bool,
    pub has_wispnet: bool,
    /// Take the client's address from `x-real-ip` or `x-forwarded-for`.
    pub use_real_ip_headers: bool,
}

/// Where a request goes.
#[derive(Debug)]
pub enum HttpRoute {
    /// Answer with the server's statistics.
    Stats,
    /// Answer with the page that shows the endpoint.
    Index,
    /// Answer with the configured text.
    PlainText,
    /// Upgrade to a Wisp connection.
    Wisp { has_ws_protocol: bool, is_wispnet: bool, client_ip: Option<String> },
    /// Upgrade to a websocket proxying one stream.
    WsProxy { path: String, udp: bool, client_ip: Option<String> },
}

pub enum HttpRouteSpec {
    Stats,
    Index,
    PlainText,
    Wisp { has_ws_protocol: bool, is_wispnet: bool, client_ip: Option<Seq<char>> },
    WsProxy { path: Seq<char>, udp: bool, client_ip: Option<Seq<char>> },
}

impl View for HttpRoute {
    type V = HttpRouteSpec;

    open spec fn view(&self) -> HttpRouteSpec {
        match self {
            HttpRoute::Stats => HttpRouteSpec::Stats,
            HttpRoute::Index => HttpRouteSpec::Index,
            HttpRoute::PlainText => HttpRouteSpec::PlainText,
            HttpRoute::Wisp { has_ws_protocol, is_wispnet, client_ip } => HttpRouteSpec::Wisp {
                has_ws_protocol: *has_ws_protocol,
                is_wispnet: *is_wispnet,
                client_ip: opt_view(*client_ip),
            },
            HttpRoute::WsProxy { path, udp, client_ip } => HttpRouteSpec::WsProxy {
                path: path@,
                udp: *udp,
                client_ip: opt_view(*client_ip),
            },
        }
    }
}

/// A request that is not an upgrade gets the page at `/` and the
/// configured text elsewhere.
pub open spec fn spec_non_ws_route(path: Seq<char>) -> HttpRouteSpec {
    if path == seq!['/'] {
        HttpRouteSpec::Index
    } else {
        HttpRouteSpec::PlainText
    }
}

/// Where a request goes: plain requests to the statistics endpoint get the
/// statistics, other plain requests a page; upgrades under the Wisp prefix
/// become Wisp connections (wispnet with the query `net`), other upgrades
/// websocket proxies when they are allowed (UDP with the query `udp`).
pub open spec fn spec_route(
    config: &RouteConfig,
    is_upgrade: bool,
    path: Seq<char>,
    query: Seq<char>,
    stats_endpoint: Option<Seq<char>>,
    has_ws_protocol: bool,
    real_ip: Option<Seq<char>>,
    forwarded_for: Option<Seq<char>>,
) -> HttpRouteSpec {
    let client_ip = if config.use_real_ip_headers {
        match real_ip {
            Some(ip) => Some(ip),
            None => forwarded_for,
        }
    } else {
        None
    };
    if !is_upgrade {
        if stats_endpoint == Some(path) {
            HttpRouteSpec::Stats
        } else {
            spec_non_ws_route(path)
        }
    } else if ends_with(path, config.prefix@.push('/')) {
        HttpRouteSpec::Wisp {
            has_ws_protocol,
            is_wispnet: config.has_wispnet && query == seq!['n', 'e', 't'],
            client_ip,
        }
    } else if config.allow_wsproxy {
        HttpRouteSpec::WsProxy { path, udp: query == seq!['u', 'd', 'p'], client_ip }
    } else {
        spec_non_ws_route(path)
    }
}

/// What the query decides: only upgrades become Wisp connections or
/// websocket proxies; a Wisp connection is a wispnet one exactly when
/// wispnet is on and the query is `net`, and a proxy is a UDP one exactly
/// when the query is `udp`.
pub open spec fn route_queries(config: &RouteConfig, is_upgrade: bool, query: Seq<char>, r: HttpRouteSpec) -> bool {
    &&& (r matches HttpRouteSpec::Wisp { is_wispnet, .. } ==> is_upgrade && (is_wispnet
        <==> config.has_wispnet && query == seq!['n', 'e', 't']))
    &&& (r matches HttpRouteSpec::WsProxy { udp, .. } ==> is_upgrade && config.allow_wsproxy && (
    udp <==> query == seq!['u', 'd', 'p']))
}

/// A plain Wisp client is never taken for a wispnet one: routing makes a
/// Wisp connection a wispnet one exactly when wispnet is on and the query is
/// `net`, and a websocket proxy a UDP one exactly when the query is `udp`;
/// requests that are not upgrades get neither.
pub proof fn lemma_route_queries(
    config: &RouteConfig,
    is_upgrade: bool,
    path: Seq<char>,
    query: Seq<char>,
    stats_endpoint: Option<Seq<char>>,
    has_ws_protocol: bool,
    real_ip: Option<Seq<char>>,
    forwarded_for: Option<Seq<char>>,
)
    ensures
        route_queries(
            config,
            is_upgrade,
            query,
            spec_route(
                config,
                is_upgrade,
                path,
                query,
                stats_endpoint,
                has_ws_protocol,
                real_ip,
                forwarded_for,
            ),
        ),
{
}

fn chars_eq(a: &Vec<char>, b: &[char]) -> (r: bool)
    ensures
        r == (a@ == b@),
{
    if a.len() != b.len() {
        return false;
    }
    let mut i: usize = 0;
    while i < a.len()
        invariant
            0 <= i <= a@.len(),
            a@.len() == b@.len(),
            forall|k: int| 0 <= k < i ==> a@[k] == b@[k],
        decreases a@.len() - i,
    {
        if a[i] != b[i] {
            return false;
        }
        i += 1;
    }
    assert(a@ =~= b@);
    true
}

fn seq_ends_with(s: &Vec<char>, suffix: &Vec<char>) -> (r: bool)
    ensures
        r == ends_with(s@, suffix@),
{
    if s.len() < suffix.len() {
        return false;
    }
    let off = s.len() - suffix.len();
    let mut i: usize = 0;
    while i < suffix.len()
        invariant
            0 <= i <= suffix@.len(),
            off + suffix@.len() == s@.len(),
            off + suffix@.len() <= usize::MAX,
            forall|k: int| 0 <= k < i ==> s@[off + k] == suffix@[k],
        decreases suffix@.len() - i,
    {
        if s[off + i] != suffix[i] {
            assert(s@.skip(off as int)[i as int] != suffix@[i as int]);
            return false;
        }
        i += 1;
    }
    assert(s@.skip(off as int) =~= suffix@);
    true
}

/// Decides where a request goes (see `spec_route`). `query` is the
/// request's query, empty when it has none.
pub fn route_request(
    config: &RouteConfig,
    is_upgrade: bool,
    path: &str,
    query: &str,
    stats_endpoint: &Option<String>,
    has_ws_protocol: bool,
    real_ip: Option<String>,
    forwarded_for: Option<String>,
) -> (r: HttpRoute)
    ensures
        r@ == spec_route(
            config,
            is_upgrade,
            path@,
            query@,
            opt_view(*stats_endpoint),
            has_ws_protocol,
            opt_view(real_ip),
            opt_view(forwarded_for),
        ),
        route_queries(config, is_upgrade, query@, r@),
{
    proof {
        lemma_route_queries(
            config,
            is_upgrade,
            path@,
            query@,
            opt_view(*stats_endpoint),
            has_ws_protocol,
            opt_view(real_ip),
            opt_view(forwarded_for),
        );
    }
    let p = chars_of(path);
    let q = chars_of(query);
    let root = ['/'];
    let is_root = chars_eq(&p, &root);
    assert(root@ =~= seq!['/']);
    assert(is_root == (path@ == seq!['/']));
    if !is_upgrade {
        let to_stats = match stats_endpoint {
            Some(e) => chars_eq(&chars_of(e.as_str()), p.as_slice()),
            None => false,
        };
        if to_stats {
            return HttpRoute::Stats;
        }
        return if is_root {
            HttpRoute::Index
        } else {
            HttpRoute::PlainText
        };
    }
    let client_ip = if config.use_real_ip_headers {
        match real_ip {
            Some(ip) => Some(ip),
            None => forwarded_for,
        }
    } else {
        None
    };
    let mut wisp_suffix = chars_of(config.prefix.as_str());
    wisp_suffix.push('/');
    if seq_ends_with(&p, &wisp_suffix) {
        let net = ['n', 'e', 't'];
        assert(net@ =~= seq!['n', 'e', 't']);
        let is_wispnet = config.has_wispnet && chars_eq(&q, &net);
        HttpRoute::Wisp { has_ws_protocol, is_wispnet, client_ip }
    } else if config.allow_wsproxy {
        let udp_query = ['u', 'd', 'p'];
        assert(udp_query@ =~= seq!['u', 'd', 'p']);
        let udp = chars_eq(&q, &udp_query);
        HttpRoute::WsProxy { path: string_of_chars(p.as_slice()), udp, client_ip }
    } else if is_root {
        HttpRoute::Index
    } else {
        HttpRoute::PlainText
    }
}

// ---------------------------------------------------------------------------
// The autoconfiguration link
// ---------------------------------------------------------------------------
/// What `http::Uri`'s parser makes of a string: `None` when it rejects it,
/// else the scheme and the authority it finds.
pub uninterp spec fn uri_scheme_authority(s: Seq<char>) -> Option<(Option<Seq<char>>, Option<Seq<char>>)>;

/// Parses a URI with `http::Uri` and gives its scheme and authority.
#[verifier::external_body]
fn parse_uri_parts(s: &str) -> (r: Option<(Option<String>, Option<String>)>)
    ensures
        match uri_scheme_authority(s@) {
            None => r is None,
            Some(parts) => r matches Some(p) && opt_view(p.0) == parts.0 && opt_view(p.1) == parts.1,
        },
{
    let uri = match s.parse::<http::Uri>() {
        Ok(u) => u,
        Err(_) => return None,
    };
    let scheme = match uri.scheme_str() {
        Some(x) => Some(x.to_string()),
        None => None,
    };
    let authority = match uri.authority() {
        Some(a) => Some(a.as_str().to_string()),
        None => None,
    };
    Some((scheme, authority))
}

pub open spec fn scheme_separator() -> Seq<char> {
    seq![':', '/', '/']
}

/// The bridge the index page links to, and its label: the configured
/// domain, trimmed, as an `http` or `https` URL (`https://` is assumed when
/// it gives no scheme), labelled with its authority.
pub open spec fn spec_autoconfigure_target(domain: Option<Seq<char>>) -> Option<(Seq<char>, Seq<char>)> {
    match domain {
        None => None,
        Some(d) => {
            let c = spec_trim(d);
            let target = if find_from(c, scheme_separator(), 0) is Some {
                c
            } else {
                seq!['h', 't', 't', 'p', 's', ':', '/', '/'] + c
            };
            if c.len() == 0 {
                None
            } else {
                match uri_scheme_authority(target) {
                    Some((Some(scheme), Some(authority))) => if scheme == seq!['h', 't', 't', 'p']
                        || scheme == seq!['h', 't', 't', 'p', 's'] {
                        Some((target, authority))
                    } else {
                        None
                    },
                    _ => None,
                }
            }
        },
    }
}

fn contains_scheme_separator(s: &Vec<char>) -> (r: bool)
    ensures
        r == (find_from(s@, scheme_separator(), 0) is Some),
{
    let n = s.len();
    let mut i: usize = 0;
    while n >= 3 && i <= n - 3
        invariant
            n == s@.len(),
            find_from(s@, scheme_separator(), 0) == find_from(s@, scheme_separator(), i as int),
        decreases n - i,
    {
        let hit = s[i] == ':' && s[i + 1] == '/' && s[i + 2] == '/';
        assert(hit == (s@.subrange(i as int, i + 3) =~= scheme_separator()));
        if hit {
            return true;
        }
        i += 1;
    }
    false
}

/// The autoconfiguration bridge and its label (see
/// `spec_autoconfigure_target`).
pub fn autoconfigure_target(domain: &Option<String>) -> (r: Option<(String, String)>)
    ensures
        match spec_autoconfigure_target(opt_view(*domain)) {
            None => r is None,
            Some(t) => r matches Some(x) && x.0@ == t.0 && x.1@ == t.1,
        },
{
    let d = match domain {
        Some(d) => d,
        None => {
            return None;
        },
    };
    let configured = trim(d.as_str());
    let c = chars_of(configured.as_str());
    if c.len() == 0 {
        return None;
    }
    let target = if contains_scheme_separator(&c) {
        configured
    } else {
        let mut t = vec!['h', 't', 't', 'p', 's', ':', '/', '/'];
        let mut rest = c;
        t.append(&mut rest);
        string_of_chars(t.as_slice())
    };
    let (scheme, authority) = match parse_uri_parts(target.as_str()) {
        Some(p) => p,
        None => {
            return None;
        },
    };
    let scheme = match scheme {
        Some(s) => chars_of(s.as_str()),
        None => {
            return None;
        },
    };
    if !chars_eq(&scheme, &['h', 't', 't', 'p']) && !chars_eq(&scheme, &['h', 't', 't', 'p', 's']) {
        return None;
    }
    match authority {
        Some(a) => Some((target, a)),
        None => None,
    }
}

} // verus!
