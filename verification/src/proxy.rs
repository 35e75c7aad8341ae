//! Host-based reverse proxy: the route table (virtual host to backend port)
//! and the per-request routing decision.
//!
//! The proxy itself — listening, reading a request, relaying bytes — is
//! operating-system work done by the unverified shell.  The shell extracts
//! the `Host` header of each request and asks [`route_request`] where the
//! request goes; the replies the proxy gives in its own name (no such site,
//! backend not running, unreadable body) are built here so their statuses
//! and bodies are pinned down.

use vstd::prelude::*;
use crate::strutil::{
    find_char, parse_dec, spec_all_digits, spec_dec_value, spec_split, spec_trim, split_char, trim,
};
use crate::table::Table;

verus! {

/// The bare hostname of a `Host` header value: everything before the first
/// `:` (which separates an optional port), or the whole value when it has no
/// `:`.
pub open spec fn spec_host_key(h: Seq<char>) -> Seq<char>
    decreases h.len(),
{
    if h.len() == 0 {
        h
    } else if h[0] == ':' {
        Seq::empty()
    } else {
        seq![h[0]] + spec_host_key(h.skip(1))
    }
}

/// The host key is the prefix of `h` that ends just before the first `:`.
proof fn lemma_host_key_take(h: Seq<char>, i: int)
    requires
        0 <= i <= h.len(),
        forall|j: int| 0 <= j < i ==> h[j] != ':',
        i == h.len() || h[i] == ':',
    ensures
        spec_host_key(h) == h.subrange(0, i),
    decreases h.len(),
{
    if h.len() == 0 {
        assert(h.subrange(0, 0) =~= h);
    } else if i == 0 {
        assert(h[0] == ':');
        assert(h.subrange(0, 0) =~= Seq::<char>::empty());
    } else {
        assert(h[0] != ':');
        let t = h.skip(1);
        assert forall|j: int| 0 <= j < i - 1 implies t[j] != ':' by {
            assert(t[j] == h[j + 1]);
        }
        if i < h.len() {
            assert(t[i - 1] == h[i]);
        }
        lemma_host_key_take(t, i - 1);
        assert(seq![h[0]] + t.subrange(0, i - 1) =~= h.subrange(0, i));
    }
}

/// Strip the optional `:port` suffix from a `Host` header value.
pub fn host_key(host_header: &str) -> (r: String)
    ensures
        r@ == spec_host_key(host_header@),
{
    match find_char(host_header, ':') {
        Some(i) => {
            proof {
                lemma_host_key_take(host_header@, i as int);
            }
            host_header.substring_char(0, i).to_owned()
        },
        None => {
            proof {
                lemma_host_key_take(host_header@, host_header@.len() as int);
                assert(host_header@.subrange(0, host_header@.len() as int) =~= host_header@);
            }
            host_header.to_owned()
        },
    }
}

/// The route table: at most one backend port per virtual-host name.
pub struct ProxyState {
    routes: Table<u16>,
}

impl View for ProxyState {
    type V = Map<Seq<char>, u16>;

    closed spec fn view(&self) -> Map<Seq<char>, u16> {
        self.routes@
    }
}

impl ProxyState {
    /// The route-table keys are pairwise distinct.
    pub closed spec fn wf(&self) -> bool {
        self.routes.wf()
    }

    /// An empty route table.
    pub fn new() -> (s: ProxyState)
        ensures
            s.wf(),
            s@ == Map::<Seq<char>, u16>::empty(),
    {
        ProxyState { routes: Table::new() }
    }
}

/// Register (or overwrite) the backend port of a virtual host.  The upsert
/// is idempotent; the last registration wins.
pub fn register_proxy_route(state: &mut ProxyState, domain: String, port: u16)
    requires
        old(state).wf(),
    ensures
        final(state).wf(),
        final(state)@ == old(state)@.insert(domain@, port),
{
    state.routes.insert(domain, port);
}

/// Where one request goes.
#[derive(Clone, Copy, Debug, PartialEq, Eq, Structural)]
pub enum RouteDecision {
    /// Open a connection to `127.0.0.1:port` and relay the request, with the
    /// `Host` header rewritten to the unchanged inbound value.
    Forward { port: u16 },
    /// No route for this host: answer `404` in the proxy's own name.
    SiteNotFound,
}

/// Decide a request from its `Host` header value: strip the optional
/// `:port`, then look the bare hostname up in the route table.
pub fn route_request(state: &ProxyState, host_header: &str) -> (d: RouteDecision)
    requires
        state.wf(),
    ensures
        state@.contains_key(spec_host_key(host_header@)) ==> d == (RouteDecision::Forward {
            port: state@[spec_host_key(host_header@)],
        }),
        !state@.contains_key(spec_host_key(host_header@)) ==> d == RouteDecision::SiteNotFound,
{
    let key = host_key(host_header);
    match state.routes.get(&key) {
        Some(port) => RouteDecision::Forward { port },
        None => RouteDecision::SiteNotFound,
    }
}

/// A response the proxy answers with in its own name.
pub struct ProxyReply {
    /// HTTP status code.
    pub status: u16,
    /// Fixed plain-text body.
    pub body: String,
}

/// `404`: the host is not in the route table; the body names the proxy so
/// the answer is distinguishable from a backend's own `404`.
pub fn site_not_found_reply() -> (r: ProxyReply)
    ensures
        r.status == 404,
        r.body@ == "StackManager: Site Not Found."@,
{
    ProxyReply { status: 404, body: String::from_str("StackManager: Site Not Found.") }
}

/// `502`: the route exists but connecting to the backend failed — the
/// routed service is not running.
pub fn backend_down_reply() -> (r: ProxyReply)
    ensures
        r.status == 502,
        r.body@ == "StackManager: Project server not running."@,
{
    ProxyReply { status: 502, body: String::from_str("StackManager: Project server not running.") }
}

/// `400`: the inbound request body could not be read.
pub fn bad_request_body_reply() -> (r: ProxyReply)
    ensures
        r.status == 400,
        r.body@ == "Bad Request Body"@,
{
    ProxyReply { status: 400, body: String::from_str("Bad Request Body") }
}

/// The line has a `:` somewhere, as every header line of a request head
/// must.
pub open spec fn spec_has_colon(l: Seq<char>) -> bool {
    exists|k: int| 0 <= k < l.len() && l[k] == ':'
}

/// The headers this module looks for in a request head.
#[derive(Clone, Copy, Debug, PartialEq, Eq, Structural)]
pub enum HeaderName {
    /// `Host`, in any letter case.
    Host,
    /// `Content-Length`, in any letter case.
    ContentLength,
}

/// `s` is the name `host`, compared without regard to letter case.
pub open spec fn spec_is_host_name(s: Seq<char>) -> bool {
    &&& s.len() == 4
    &&& (s[0] == 'h' || s[0] == 'H')
    &&& (s[1] == 'o' || s[1] == 'O')
    &&& (s[2] == 's' || s[2] == 'S')
    &&& (s[3] == 't' || s[3] == 'T')
}

/// `s` is the name `content-length`, compared without regard to letter
/// case.
pub open spec fn spec_is_content_length_name(s: Seq<char>) -> bool {
    &&& s.len() == 14
    &&& (s[0] == 'c' || s[0] == 'C')
    &&& (s[1] == 'o' || s[1] == 'O')
    &&& (s[2] == 'n' || s[2] == 'N')
    &&& (s[3] == 't' || s[3] == 'T')
    &&& (s[4] == 'e' || s[4] == 'E')
    &&& (s[5] == 'n' || s[5] == 'N')
    &&& (s[6] == 't' || s[6] == 'T')
    &&& s[7] == '-'
    &&& (s[8] == 'l' || s[8] == 'L')
    &&& (s[9] == 'e' || s[9] == 'E')
    &&& (s[10] == 'n' || s[10] == 'N')
    &&& (s[11] == 'g' || s[11] == 'G')
    &&& (s[12] == 't' || s[12] == 'T')
    &&& (s[13] == 'h' || s[13] == 'H')
}

/// `s` is the looked-for header name.
pub open spec fn spec_name_matches(name: HeaderName, s: Seq<char>) -> bool {
    match name {
        HeaderName::Host => spec_is_host_name(s),
        HeaderName::ContentLength => spec_is_content_length_name(s),
    }
}

/// The line is a header line carrying the looked-for name: its text before
/// the first `:`, trimmed, is that name.
pub open spec fn spec_is_header_line(name: HeaderName, l: Seq<char>) -> bool {
    spec_has_colon(l) && spec_name_matches(name, spec_trim(spec_host_key(l)))
}

/// The value of a header line: everything after the first `:`, trimmed.
pub open spec fn spec_header_value(l: Seq<char>) -> Seq<char> {
    spec_trim(l.skip(spec_host_key(l).len() + 1int))
}

/// Whether the trimmed text before the colon is the looked-for name.
fn name_matches(name: HeaderName, s: &str) -> (b: bool)
    ensures
        b == spec_name_matches(name, s@),
{
    let n = s.unicode_len();
    match name {
        HeaderName::Host => {
            if n != 4 {
                return false;
            }
            let c0 = s.get_char(0);
            let c1 = s.get_char(1);
            let c2 = s.get_char(2);
            let c3 = s.get_char(3);
            (c0 == 'h' || c0 == 'H') && (c1 == 'o' || c1 == 'O') && (c2 == 's' || c2 == 'S') && (
            c3 == 't' || c3 == 'T')
        },
        HeaderName::ContentLength => {
            if n != 14 {
                return false;
            }
            let mut ok = true;
            let c0 = s.get_char(0);
            let c1 = s.get_char(1);
            let c2 = s.get_char(2);
            let c3 = s.get_char(3);
            let c4 = s.get_char(4);
            let c5 = s.get_char(5);
            let c6 = s.get_char(6);
            let c7 = s.get_char(7);
            let c8 = s.get_char(8);
            let c9 = s.get_char(9);
            let c10 = s.get_char(10);
            let c11 = s.get_char(11);
            let c12 = s.get_char(12);
            let c13 = s.get_char(13);
            ok = ok && (c0 == 'c' || c0 == 'C') && (c1 == 'o' || c1 == 'O') && (c2 == 'n' || c2
                == 'N') && (c3 == 't' || c3 == 'T');
            ok = ok && (c4 == 'e' || c4 == 'E') && (c5 == 'n' || c5 == 'N') && (c6 == 't' || c6
                == 'T') && c7 == '-';
            ok = ok && (c8 == 'l' || c8 == 'L') && (c9 == 'e' || c9 == 'E') && (c10 == 'n' || c10
                == 'N') && (c11 == 'g' || c11 == 'G') && (c12 == 't' || c12 == 'T') && (c13 == 'h'
                || c13 == 'H');
            ok
        },
    }
}

/// The value of the first header line carrying the looked-for name, in a
/// request head cut at newlines.  The first line — the request line — is
/// never a header.
pub fn find_header_value(head: &str, name: HeaderName) -> (r: Option<String>)
    ensures
        ({
            let lines = spec_split(head@, '\n');
            match r {
                Some(v) => exists|i: int|
                    {
                        &&& 1 <= i < lines.len()
                        &&& #[trigger] spec_is_header_line(name, lines[i])
                        &&& (forall|j: int| 1 <= j < i ==> !spec_is_header_line(name, lines[j]))
                        &&& v@ == spec_header_value(lines[i])
                    },
                None => forall|i: int|
                    1 <= i < lines.len() ==> !spec_is_header_line(name, lines[i]),
            }
        }),
{
    let lines = split_char(head, '\n');
    let n = lines.len();
    let mut i: usize = 1;
    while i < n
        invariant
            n == lines@.len(),
            lines.deep_view() == spec_split(head@, '\n'),
            1 <= i <= n || (n == 0 && i == 1),
            forall|j: int|
                1 <= j < i && j < n ==> !spec_is_header_line(name, lines.deep_view()[j]),
        decreases n - i,
    {
        let line = &lines[i];
        let m = line.as_str().unicode_len();
        match find_char(line.as_str(), ':') {
            Some(p) => {
                proof {
                    lemma_host_key_take(line@, p as int);
                }
                let name_part = trim(line.as_str().substring_char(0, p));
                if name_matches(name, name_part) {
                    proof {
                        assert(spec_is_header_line(name, lines.deep_view()[i as int]));
                        assert(line@.skip(p + 1) =~= line@.subrange(
                            p + 1,
                            line@.len() as int,
                        ));
                    }
                    let value = trim(line.as_str().substring_char(p + 1, m)).to_owned();
                    return Some(value);
                } else {
                    proof {
                        assert(!spec_is_header_line(name, lines.deep_view()[i as int]));
                    }
                }
            },
            None => {
                proof {
                    assert(!spec_has_colon(line@));
                    assert(!spec_is_header_line(name, lines.deep_view()[i as int]));
                }
            },
        }
        i = i + 1;
    }
    None
}

/// The request body length announced in a request head: the value of the
/// first `Content-Length` header, read as a decimal number.  A head without
/// that header, or with an unreadable value, announces no length.
pub fn content_length_of(head: &str) -> (r: Option<u64>)
    ensures
        ({
            let lines = spec_split(head@, '\n');
            match r {
                Some(v) => exists|i: int|
                    {
                        &&& 1 <= i < lines.len()
                        &&& #[trigger] spec_is_header_line(HeaderName::ContentLength, lines[i])
                        &&& (forall|j: int|
                            1 <= j < i ==> !spec_is_header_line(
                                HeaderName::ContentLength,
                                lines[j],
                            ))
                        &&& spec_all_digits(spec_header_value(lines[i]))
                        &&& v == spec_dec_value(spec_header_value(lines[i]))
                    },
                None => (forall|i: int|
                    1 <= i < lines.len() ==> !spec_is_header_line(
                        HeaderName::ContentLength,
                        lines[i],
                    )) || (exists|i: int|
                    {
                        &&& 1 <= i < lines.len()
                        &&& #[trigger] spec_is_header_line(HeaderName::ContentLength, lines[i])
                        &&& (!spec_all_digits(spec_header_value(lines[i])) || spec_dec_value(
                            spec_header_value(lines[i]),
                        ) > u64::MAX)
                    }),
            }
        }),
{
    match find_header_value(head, HeaderName::ContentLength) {
        Some(v) => parse_dec(v.as_str()),
        None => None,
    }
}

/// An empty line — carriage return, line feed, carriage return, line feed —
/// ends the request head at position `i` of the raw bytes.
pub open spec fn spec_head_end_at(d: Seq<u8>, i: int) -> bool {
    &&& 0 <= i
    &&& i + 4 <= d.len()
    &&& d[i] == 13
    &&& d[i + 1] == 10
    &&& d[i + 2] == 13
    &&& d[i + 3] == 10
}

/// Where the request head ends in the raw bytes read so far: the position
/// of the first empty line.  The head is everything before it; the body
/// starts four bytes later.
pub fn find_head_end(data: &Vec<u8>) -> (r: Option<usize>)
    ensures
        match r {
            Some(i) => spec_head_end_at(data@, i as int) && forall|j: int|
                0 <= j < i ==> !spec_head_end_at(data@, j),
            None => forall|j: int| !spec_head_end_at(data@, j),
        },
{
    let n = data.len();
    if n < 4 {
        return None;
    }
    let mut i: usize = 0;
    while i <= n - 4
        invariant
            n == data@.len(),
            4 <= n,
            i <= n - 3,
            forall|j: int| 0 <= j < i ==> !spec_head_end_at(data@, j),
        decreases n - i,
    {
        if data[i] == 13 && data[i + 1] == 10 && data[i + 2] == 13 && data[i + 3] == 10 {
            return Some(i);
        }
        i = i + 1;
    }
    None
}

/// Registering a route and then receiving a request whose `Host` header
/// reduces to the registered hostname — for instance the bare name with a
/// `:port` suffix — forwards the request to the registered port, whatever
/// the table held before.
pub proof fn lemma_registered_route_forwards(
    routes: Map<Seq<char>, u16>,
    domain: Seq<char>,
    port: u16,
    host_header: Seq<char>,
)
    requires
        spec_host_key(host_header) == domain,
    ensures
        routes.insert(domain, port).contains_key(spec_host_key(host_header)),
        routes.insert(domain, port)[spec_host_key(host_header)] == port,
{
}

} // verus!
