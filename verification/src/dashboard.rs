//! The dashboard: who may use its API, what it remembers and what its handlers answer.

use vstd::prelude::*;
use vstd::utf8::{decode_utf8, encode_utf8, valid_utf8};

use crate::frame::Metadata;
use crate::handshake::id_text;
use crate::http::{Headers, field_text, parts_of, split_all, str_views, trim, trimmed, token_byte};
use crate::net::{IpAddr, SocketAddr};
use crate::text::{lower_text, opt_str, opt_text, same_ignoring_case, same_text, split_first,
    split_once};

verus! {

/// Header that may carry the dashboard token.
pub open spec fn auth_header() -> Seq<char> {
    "x-dashboard-token"@
}

/// Cookie that may carry the dashboard token.
pub open spec fn auth_cookie() -> Seq<char> {
    "ferrotunnel_dashboard_token"@
}

/// Configuration of the dashboard server.
#[derive(Debug, Clone)]
pub struct DashboardConfig {
    /// Address to bind the dashboard server to.
    pub bind_addr: SocketAddr,
    /// Maximum number of requests to keep in history.
    pub max_requests: usize,
    /// Authentication token.
    pub auth_token: Option<String>,
}

impl Default for DashboardConfig {
    fn default() -> (r: DashboardConfig)
        ensures
            r.bind_addr == (SocketAddr { ip: IpAddr::V4(127, 0, 0, 1), port: 4040 }),
            r.max_requests == 1000,
            r.auth_token is None,
    {
        DashboardConfig {
            bind_addr: SocketAddr::new(IpAddr::V4(127, 0, 0, 1), 4040),
            max_requests: 1000,
            auth_token: None,
        }
    }
}

/// Compares two byte strings without stopping at the first difference.
pub fn constant_time_eq(left: &[u8], right: &[u8]) -> (r: bool)
    ensures
        r == (left@ == right@),
{
    let max_len: usize = if left.len() >= right.len() {
        left.len()
    } else {
        right.len()
    };
    let a: usize = left.len();
    let b: usize = right.len();
    proof {
        assert((a ^ b == 0) == (a == b)) by (bit_vector);
    }
    let mut diff: usize = a ^ b;
    let mut index: usize = 0;
    while index < max_len
        invariant
            a == left@.len(),
            b == right@.len(),
            index <= max_len,
            max_len >= a,
            max_len >= b,
            max_len == a || max_len == b,
            diff == 0 <==> a == b && forall|j: int| 0 <= j < index ==> left@[j] == right@[j],
        decreases max_len - index,
    {
        let x: u8 = if index < left.len() {
            left[index]
        } else {
            0
        };
        let y: u8 = if index < right.len() {
            right[index]
        } else {
            0
        };
        proof {
            assert((x ^ y == 0) == (x == y)) by (bit_vector);
            let w: u8 = x ^ y;
            assert((diff | (w as usize) == 0) == (diff == 0 && w == 0)) by (bit_vector);
        }
        diff = diff | ((x ^ y) as usize);
        index += 1;
    }
    proof {
        if diff == 0 {
            assert(left@ =~= right@);
        }
    }
    diff == 0
}

/// The value of a hexadecimal digit.
pub open spec fn hex_of(byte: u8) -> Option<u8> {
    if 48 <= byte <= 57 {
        Some((byte - 48) as u8)
    } else if 97 <= byte <= 102 {
        Some((byte - 97 + 10) as u8)
    } else if 65 <= byte <= 70 {
        Some((byte - 65 + 10) as u8)
    } else {
        None
    }
}

/// The value of a hexadecimal digit.
pub fn hex_value(byte: u8) -> (r: Option<u8>)
    ensures
        r == hex_of(byte),
{
    if byte >= 48 && byte <= 57 {
        Some(byte - 48)
    } else if byte >= 97 && byte <= 102 {
        Some(byte - 97 + 10)
    } else if byte >= 65 && byte <= 70 {
        Some(byte - 65 + 10)
    } else {
        None
    }
}

/// The bytes that a percent-encoded byte string stands for: a percent sign with two
/// hexadecimal digits is the byte they form, and a plus sign may be a space.
pub open spec fn percent_bytes(bytes: Seq<u8>, plus_as_space: bool) -> Seq<u8>
    decreases bytes.len(),
{
    if bytes.len() == 0 {
        Seq::empty()
    } else if bytes[0] == 37 && bytes.len() > 2 && hex_of(bytes[1]) is Some && hex_of(bytes[2])
        is Some {
        seq![(hex_of(bytes[1])->0 * 16 + hex_of(bytes[2])->0) as u8] + percent_bytes(
            bytes.skip(3),
            plus_as_space,
        )
    } else if bytes[0] == 43 && plus_as_space {
        seq![32u8] + percent_bytes(bytes.skip(1), plus_as_space)
    } else {
        seq![bytes[0]] + percent_bytes(bytes.skip(1), plus_as_space)
    }
}

/// The text that a byte string reads as when what is no UTF-8 in it is replaced.
pub uninterp spec fn lossy_text(bytes: Seq<u8>) -> Seq<char>;

/// Reads a byte string as text: `String::from_utf8_lossy`. The result is [`lossy_text`], which
/// is the text itself where the bytes are UTF-8.
#[verifier::external_body]
fn text_from_utf8_lossy(bytes: &Vec<u8>) -> (r: String)
    ensures
        r@ == lossy_text(bytes@),
        valid_utf8(bytes@) ==> r@ == decode_utf8(bytes@),
{
    String::from_utf8_lossy(bytes).into_owned()
}

/// Reads a byte string as text where it is UTF-8: `String::from_utf8`.
#[verifier::external_body]
pub(crate) fn text_from_utf8(bytes: Vec<u8>) -> (r: Option<String>)
    ensures
        r is Some <==> valid_utf8(bytes@),
        r is Some ==> r->0@ == decode_utf8(bytes@),
{
    String::from_utf8(bytes).ok()
}

fn percent_decoded(bytes: &[u8], plus_as_space: bool) -> (r: Vec<u8>)
    ensures
        r@ == percent_bytes(bytes@, plus_as_space),
{
    let mut decoded: Vec<u8> = Vec::new();
    let mut index: usize = 0;
    proof {
        assert(bytes@.skip(0) =~= bytes@);
        assert(decoded@ + percent_bytes(bytes@, plus_as_space) =~= percent_bytes(
            bytes@,
            plus_as_space,
        ));
    }
    while index < bytes.len()
        invariant
            index <= bytes@.len(),
            decoded@ + percent_bytes(bytes@.skip(index as int), plus_as_space) == percent_bytes(
                bytes@,
                plus_as_space,
            ),
        decreases bytes@.len() - index,
    {
        let ghost rest = bytes@.skip(index as int);
        let ghost before = decoded@;
        let byte: u8 = bytes[index];
        if byte == 37 && bytes.len() - index > 2 {
            let high = hex_value(bytes[index + 1]);
            let low = hex_value(bytes[index + 2]);
            if let (Some(h), Some(l)) = (high, low) {
                let value: u8 = h * 16 + l;
                decoded.push(value);
                proof {
                    assert(rest.skip(3) =~= bytes@.skip(index + 3));
                    let tail = percent_bytes(rest.skip(3), plus_as_space);
                    assert(before + (seq![value] + tail) =~= decoded@ + tail);
                }
                index += 3;
                continue;
            }
            decoded.push(byte);
        } else if byte == 43 && plus_as_space {
            decoded.push(32);
        } else {
            decoded.push(byte);
        }
        proof {
            assert(rest.skip(1) =~= bytes@.skip(index + 1));
            let tail = percent_bytes(rest.skip(1), plus_as_space);
            let last = decoded@.last();
            assert(before + (seq![last] + tail) =~= decoded@ + tail);
        }
        index += 1;
    }
    proof {
        assert(bytes@.skip(index as int) =~= Seq::empty());
        assert(decoded@ + Seq::<u8>::empty() =~= decoded@);
    }
    decoded
}

/// What a percent-encoded text stands for.
pub open spec fn percent_text(value: Seq<char>, plus_as_space: bool) -> Seq<char> {
    lossy_text(percent_bytes(encode_utf8(value), plus_as_space))
}

/// Decodes a percent-encoded text.
pub fn percent_decode(value: &str, plus_as_space: bool) -> (r: String)
    ensures
        r@ == percent_text(value@, plus_as_space),
        valid_utf8(percent_bytes(encode_utf8(value@), plus_as_space)) ==> r@ == decode_utf8(
            percent_bytes(encode_utf8(value@), plus_as_space),
        ),
{
    let decoded = percent_decoded(value.as_bytes(), plus_as_space);
    text_from_utf8_lossy(&decoded)
}

/// A byte string without percent and plus signs stands for itself.
pub proof fn law_plain_bytes_decode_to_themselves(bytes: Seq<u8>, plus_as_space: bool)
    requires
        forall|i: int| 0 <= i < bytes.len() ==> bytes[i] != 37 && bytes[i] != 43,
    ensures
        percent_bytes(bytes, plus_as_space) == bytes,
    decreases bytes.len(),
{
    if bytes.len() > 0 {
        law_plain_bytes_decode_to_themselves(bytes.skip(1), plus_as_space);
        assert(seq![bytes[0]] + bytes.skip(1) =~= bytes);
    }
}

/// Decoding never yields more bytes than it was given.
pub proof fn law_decoding_never_grows(bytes: Seq<u8>, plus_as_space: bool)
    ensures
        percent_bytes(bytes, plus_as_space).len() <= bytes.len(),
    decreases bytes.len(),
{
    if bytes.len() > 0 {
        law_decoding_never_grows(bytes.skip(1), plus_as_space);
        if bytes.len() > 2 {
            law_decoding_never_grows(bytes.skip(3), plus_as_space);
        }
    }
}

/// The token in the authorization header, where its scheme is bearer.
pub open spec fn bearer_of(fields: Seq<(Seq<char>, Seq<u8>)>) -> Option<Seq<char>> {
    match field_text(fields, "authorization"@) {
        Some(value) => match split_first(value, ' ') {
            Some((scheme, token)) => if lower_text(scheme) == lower_text("bearer"@) {
                Some(token)
            } else {
                None
            },
            None => None,
        },
        None => None,
    }
}

/// The token in the authorization header, where its scheme is bearer.
pub fn bearer_token(headers: &Headers) -> (r: Option<String>)
    ensures
        opt_text(r) == bearer_of(headers@),
{
    match headers.get_text("authorization") {
        Some(value) => match split_once(value.as_str(), ' ') {
            Some((scheme, token)) => if same_ignoring_case(scheme, "bearer") {
                Some(token.to_owned())
            } else {
                None
            },
            None => None,
        },
        None => None,
    }
}

/// The token in the dashboard's own header.
pub fn header_token(headers: &Headers) -> (r: Option<String>)
    ensures
        opt_text(r) == field_text(headers@, auth_header()),
{
    headers.get_text("x-dashboard-token")
}

/// The token of the first cookie, from `from` on, that is the dashboard's.
pub open spec fn cookie_among(parts: Seq<Seq<char>>, from: int) -> Option<Seq<char>>
    decreases parts.len() - from,
{
    if from < 0 || from >= parts.len() {
        None
    } else {
        match split_first(trimmed(parts[from]), '=') {
            Some((name, token)) => if name == auth_cookie() {
                Some(percent_text(token, false))
            } else {
                cookie_among(parts, from + 1)
            },
            None => cookie_among(parts, from + 1),
        }
    }
}

/// The token in the dashboard's cookie.
pub open spec fn cookie_of(fields: Seq<(Seq<char>, Seq<u8>)>) -> Option<Seq<char>> {
    match field_text(fields, "cookie"@) {
        Some(value) => cookie_among(parts_of(value, ';'), 0),
        None => None,
    }
}

/// The token in the dashboard's cookie.
pub fn cookie_token(headers: &Headers) -> (r: Option<String>)
    ensures
        opt_text(r) == cookie_of(headers@),
{
    let value = match headers.get_text("cookie") {
        Some(v) => v,
        None => {
            return None;
        },
    };
    let parts = split_all(value.as_str(), ';');
    let ghost all = parts_of(value@, ';');
    proof {
        assert(str_views(parts@) == all);
        assert(parts@.len() == all.len());
    }
    let mut i: usize = 0;
    while i < parts.len()
        invariant
            i <= parts@.len(),
            parts@.len() == all.len(),
            str_views(parts@) == all,
            cookie_of(headers@) == cookie_among(all, i as int),
        decreases parts@.len() - i,
    {
        proof {
            assert(str_views(parts@)[i as int] == parts@[i as int]@);
        }
        if let Some((name, token)) = split_once(trim(parts[i]), '=') {
            if same_text(name, "ferrotunnel_dashboard_token") {
                return Some(percent_decode(token, false));
            }
        }
        i += 1;
    }
    None
}

/// Name and value of a part of a query; without an equals sign the value is empty.
pub open spec fn query_pair(part: Seq<char>) -> (Seq<char>, Seq<char>) {
    match split_first(part, '=') {
        Some(pair) => pair,
        None => (part, Seq::empty()),
    }
}

/// The token of the first part of a query, from `from` on, that is named so.
pub open spec fn query_among(parts: Seq<Seq<char>>, from: int) -> Option<Seq<char>>
    decreases parts.len() - from,
{
    if from < 0 || from >= parts.len() {
        None
    } else if percent_text(query_pair(parts[from]).0, true) == "token"@ {
        Some(percent_text(query_pair(parts[from]).1, true))
    } else {
        query_among(parts, from + 1)
    }
}

/// The token in a query.
pub open spec fn query_of(query: Option<Seq<char>>) -> Option<Seq<char>> {
    match query {
        Some(q) => query_among(parts_of(q, '&'), 0),
        None => None,
    }
}

/// The token in a query.
pub fn query_token(query: Option<&str>) -> (r: Option<String>)
    ensures
        opt_text(r) == query_of(
            opt_str(query),
        ),
{
    let text = match query {
        Some(q) => q,
        None => {
            return None;
        },
    };
    let parts = split_all(text, '&');
    let ghost all = parts_of(text@, '&');
    proof {
        assert(str_views(parts@) == all);
        assert(parts@.len() == all.len());
    }
    let mut i: usize = 0;
    while i < parts.len()
        invariant
            i <= parts@.len(),
            parts@.len() == all.len(),
            str_views(parts@) == all,
            query_among(all, 0) == query_among(all, i as int),
            all == parts_of(text@, '&'),
            query == Some(text),
        decreases parts@.len() - i,
    {
        proof {
            assert(str_views(parts@)[i as int] == parts@[i as int]@);
        }
        let (name, token) = match split_once(parts[i], '=') {
            Some(pair) => pair,
            None => {
                let empty = parts[i].substring_char(0, 0);
                proof {
                    assert(empty@ =~= Seq::empty());
                }
                (parts[i], empty)
            },
        };
        let decoded = percent_decode(name, true);
        if same_text(decoded.as_str(), "token") {
            return Some(percent_decode(token, true));
        }
        i += 1;
    }
    None
}

/// The token of a request: the bearer token, else the dashboard's header, else its cookie,
/// else the query.
pub open spec fn token_of(fields: Seq<(Seq<char>, Seq<u8>)>, query: Option<Seq<char>>) -> Option<
    Seq<char>,
> {
    if bearer_of(fields) is Some {
        bearer_of(fields)
    } else if field_text(fields, auth_header()) is Some {
        field_text(fields, auth_header())
    } else if cookie_of(fields) is Some {
        cookie_of(fields)
    } else {
        query_of(query)
    }
}

/// The token of a request: the bearer token, else the dashboard's header, else its cookie,
/// else the query.
pub fn request_auth_token(headers: &Headers, query: Option<&str>) -> (r: Option<String>)
    ensures
        opt_text(r) == token_of(
            headers@,
            opt_str(query),
        ),
{
    let bearer = bearer_token(headers);
    if bearer.is_some() {
        return bearer;
    }
    let header = header_token(headers);
    if header.is_some() {
        return header;
    }
    let cookie = cookie_token(headers);
    if cookie.is_some() {
        return cookie;
    }
    query_token(query)
}

/// Whether a request may use the API: it presents the token.
pub fn is_authorized(headers: &Headers, query: Option<&str>, token: &str) -> (r: bool)
    ensures
        r == (token_of(
            headers@,
            opt_str(query),
        ) == Some(token@)),
{
    match request_auth_token(headers, query) {
        Some(provided) => {
            proof {
                vstd::utf8::encode_utf8_decode_utf8(provided@);
                vstd::utf8::encode_utf8_decode_utf8(token@);
            }
            constant_time_eq(provided.as_str().as_bytes(), token.as_bytes())
        },
        None => false,
    }
}

/// The text of a path without slashes at its start.
pub open spec fn without_slashes(path: Seq<char>) -> Seq<char>
    decreases path.len(),
{
    if path.len() > 0 && path[0] == '/' {
        without_slashes(path.skip(1))
    } else {
        path
    }
}

/// The asset that a path names; the root names the index.
pub fn asset_path<'a>(path: &'a str) -> (r: &'a str)
    ensures
        r@ == (if without_slashes(path@).len() == 0 {
            "index.html"@
        } else {
            without_slashes(path@)
        }),
{
    let n: usize = path.unicode_len();
    let mut from: usize = 0;
    proof {
        assert(path@.skip(0) =~= path@);
    }
    while from < n && path.get_char(from) == '/'
        invariant
            n == path@.len(),
            from <= n,
            without_slashes(path@) == without_slashes(path@.skip(from as int)),
        decreases n - from,
    {
        proof {
            assert(path@.skip(from as int).skip(1) =~= path@.skip(from + 1));
        }
        from += 1;
    }
    let rest = path.substring_char(from, n);
    proof {
        assert(rest@ =~= path@.skip(from as int));
    }
    if rest.is_empty() {
        "index.html"
    } else {
        rest
    }
}

/// State of a tunnel as the dashboard shows it.
#[derive(Debug, Clone, Copy, PartialEq, Eq, Structural)]
pub enum TunnelStatus {
    Connected,
    Disconnected,
}

/// A tunnel as the dashboard shows it.
#[derive(Debug, Clone)]
pub struct DashboardTunnelInfo {
    pub id: u128,
    pub subdomain: Option<String>,
    pub public_url: Option<String>,
    pub local_addr: String,
    /// Milliseconds since the Unix epoch.
    pub created_at: u64,
    pub status: TunnelStatus,
}

/// A request and its response as the dashboard remembers them.
#[derive(Debug, Clone)]
pub struct RequestDetails {
    pub id: u128,
    pub tunnel_id: u128,
    pub method: String,
    pub path: String,
    pub request_headers: Metadata,
    pub request_body: Option<String>,
    pub status: u16,
    pub response_headers: Metadata,
    pub response_body: Option<String>,
    pub duration_ms: u64,
    /// Milliseconds since the Unix epoch.
    pub timestamp: u64,
}

/// What the dashboard remembers: tunnels, and the most recent requests, the oldest first.
pub struct DashboardState {
    pub tunnels: Vec<DashboardTunnelInfo>,
    pub requests: Vec<RequestDetails>,
    pub max_requests: usize,
}

/// The place of the first request, from `from` on, with an id.
pub open spec fn request_at(requests: Seq<RequestDetails>, id: u128, from: int) -> Option<int>
    decreases requests.len() - from,
{
    if from < 0 || from >= requests.len() {
        None
    } else if requests[from].id == id {
        Some(from)
    } else {
        request_at(requests, id, from + 1)
    }
}

/// The place of the first tunnel, from `from` on, with an id.
pub open spec fn tunnel_at(tunnels: Seq<DashboardTunnelInfo>, id: u128, from: int) -> Option<int>
    decreases tunnels.len() - from,
{
    if from < 0 || from >= tunnels.len() {
        None
    } else if tunnels[from].id == id {
        Some(from)
    } else {
        tunnel_at(tunnels, id, from + 1)
    }
}

/// A list of tunnels with one more, in the place of another with the same id.
pub open spec fn shown(tunnels: Seq<DashboardTunnelInfo>, tunnel: DashboardTunnelInfo) -> Seq<
    DashboardTunnelInfo,
> {
    match tunnel_at(tunnels, tunnel.id, 0) {
        Some(i) => tunnels.update(i, tunnel),
        None => tunnels.push(tunnel),
    }
}

proof fn lemma_tunnel_at(tunnels: Seq<DashboardTunnelInfo>, id: u128, from: int)
    requires
        0 <= from,
    ensures
        match tunnel_at(tunnels, id, from) {
            Some(i) => from <= i < tunnels.len() && tunnels[i].id == id && forall|j: int|
                from <= j < i ==> (#[trigger] tunnels[j]).id != id,
            None => forall|j: int| from <= j < tunnels.len() ==> (#[trigger] tunnels[j]).id != id,
        },
    decreases tunnels.len() - from,
{
    if from < tunnels.len() && tunnels[from].id != id {
        lemma_tunnel_at(tunnels, id, from + 1);
    }
}

proof fn lemma_tunnel_first(tunnels: Seq<DashboardTunnelInfo>, id: u128, from: int, at: int)
    requires
        0 <= from <= at < tunnels.len(),
        tunnels[at].id == id,
        forall|j: int| from <= j < at ==> (#[trigger] tunnels[j]).id != id,
    ensures
        tunnel_at(tunnels, id, from) == Some(at),
    decreases at - from,
{
    if from < at {
        assert(tunnels[from].id != id);
        lemma_tunnel_first(tunnels, id, from + 1, at);
    }
}

/// A tunnel that was added is the one that its id finds, and what other ids find is unchanged.
pub proof fn law_added_tunnel_is_found(
    tunnels: Seq<DashboardTunnelInfo>,
    tunnel: DashboardTunnelInfo,
    other: u128,
)
    requires
        other != tunnel.id,
    ensures
        tunnel_at(shown(tunnels, tunnel), tunnel.id, 0) matches Some(i) && shown(tunnels, tunnel)[i]
            == tunnel,
        tunnel_at(shown(tunnels, tunnel), other, 0) == tunnel_at(tunnels, other, 0),
{
    let after = shown(tunnels, tunnel);
    lemma_tunnel_at(tunnels, tunnel.id, 0);
    lemma_tunnel_at(tunnels, other, 0);
    lemma_tunnel_at(after, other, 0);
    let at = match tunnel_at(tunnels, tunnel.id, 0) {
        Some(i) => i,
        None => tunnels.len() as int,
    };
    lemma_tunnel_first(after, tunnel.id, 0, at);
    match tunnel_at(tunnels, other, 0) {
        Some(k) => {
            lemma_tunnel_first(after, other, 0, k);
        },
        None => {
            assert forall|j: int| 0 <= j < after.len() implies (#[trigger] after[j]).id != other by {
                if j != at {
                    assert(after[j] == tunnels[j]);
                }
            }
        },
    }
}

/// The places of the requests of a tunnel, or of all, among the first `end`: the newest
/// first, at most `limit`.
pub open spec fn recent(
    requests: Seq<RequestDetails>,
    tunnel_id: Option<u128>,
    limit: nat,
    end: int,
) -> Seq<int>
    decreases end,
{
    if end <= 0 || end > requests.len() || limit == 0 {
        Seq::empty()
    } else if tunnel_id is None || tunnel_id == Some(requests[end - 1].tunnel_id) {
        seq![end - 1] + recent(requests, tunnel_id, (limit - 1) as nat, end - 1)
    } else {
        recent(requests, tunnel_id, limit, end - 1)
    }
}

/// The number of requests that a listing shows: fifty unless asked for, and never more than
/// two hundred.
pub open spec fn listing_limit(asked: Option<usize>) -> nat {
    match asked {
        Some(n) => if n <= 200 {
            n as nat
        } else {
            200
        },
        None => 50,
    }
}

/// Places as integers.
pub open spec fn places(list: Seq<usize>) -> Seq<int> {
    Seq::new(list.len(), |i: int| list[i] as int)
}

impl DashboardState {
    /// Creates a state that remembers at most `max_requests` requests.
    pub fn new(max_requests: usize) -> (r: DashboardState)
        ensures
            r.tunnels@.len() == 0,
            r.requests@.len() == 0,
            r.max_requests == max_requests,
    {
        DashboardState { tunnels: Vec::new(), requests: Vec::new(), max_requests }
    }

    /// Remembers a request; where there is no room for it, the oldest is forgotten.
    pub fn add_request(&mut self, details: RequestDetails)
        requires
            old(self).requests@.len() <= old(self).max_requests,
        ensures
            final(self).requests@.len() <= final(self).max_requests,
            final(self).requests@ == (if old(self).max_requests == 0 {
                Seq::empty()
            } else if old(self).requests@.len() < old(self).max_requests {
                old(self).requests@.push(details)
            } else {
                old(self).requests@.skip(1).push(details)
            }),
            final(self).tunnels == old(self).tunnels,
            final(self).max_requests == old(self).max_requests,
    {
        if self.max_requests == 0 {
            proof {
                assert(self.requests@ =~= Seq::empty());
            }
            return;
        }
        let ghost before = self.requests@;
        if self.requests.len() >= self.max_requests {
            let _ = self.requests.remove(0);
            proof {
                assert(self.requests@ =~= before.skip(1));
            }
        }
        self.requests.push(details);
    }

    /// Shows a tunnel, in the place of another with the same id.
    pub fn add_tunnel(&mut self, tunnel: DashboardTunnelInfo)
        ensures
            final(self).tunnels@ == shown(old(self).tunnels@, tunnel),
            final(self).requests == old(self).requests,
            final(self).max_requests == old(self).max_requests,
    {
        match self.find_tunnel(tunnel.id) {
            Some(i) => {
                self.tunnels.set(i, tunnel);
            },
            None => {
                self.tunnels.push(tunnel);
            },
        }
    }

    /// Finds a request by id.
    pub fn find_request(&self, id: u128) -> (r: Option<usize>)
        ensures
            match r {
                Some(i) => request_at(self.requests@, id, 0) == Some(i as int) && i
                    < self.requests@.len() && self.requests@[i as int].id == id,
                None => request_at(self.requests@, id, 0) is None,
            },
    {
        let mut i: usize = 0;
        while i < self.requests.len()
            invariant
                i <= self.requests@.len(),
                request_at(self.requests@, id, 0) == request_at(self.requests@, id, i as int),
            decreases self.requests@.len() - i,
        {
            if self.requests[i].id == id {
                return Some(i);
            }
            i += 1;
        }
        None
    }

    /// Finds a tunnel by id.
    pub fn find_tunnel(&self, id: u128) -> (r: Option<usize>)
        ensures
            match r {
                Some(i) => tunnel_at(self.tunnels@, id, 0) == Some(i as int) && i
                    < self.tunnels@.len() && self.tunnels@[i as int].id == id,
                None => tunnel_at(self.tunnels@, id, 0) is None,
            },
    {
        let mut i: usize = 0;
        while i < self.tunnels.len()
            invariant
                i <= self.tunnels@.len(),
                tunnel_at(self.tunnels@, id, 0) == tunnel_at(self.tunnels@, id, i as int),
            decreases self.tunnels@.len() - i,
        {
            if self.tunnels[i].id == id {
                return Some(i);
            }
            i += 1;
        }
        None
    }

    /// Lists recent requests, the newest first, by their places.
    pub fn list_requests(&self, limit: Option<usize>, tunnel_id: Option<u128>) -> (r: Vec<usize>)
        ensures
            places(r@) == recent(
                self.requests@,
                tunnel_id,
                listing_limit(limit),
                self.requests@.len() as int,
            ),
            forall|i: int| 0 <= i < r@.len() ==> (#[trigger] r@[i]) < self.requests@.len(),
            r@.len() <= 200,
    {
        let limit: usize = match limit {
            Some(n) => if n <= 200 {
                n
            } else {
                200
            },
            None => 50,
        };
        let mut found: Vec<usize> = Vec::new();
        let mut end: usize = self.requests.len();
        let ghost all = recent(self.requests@, tunnel_id, limit as nat, end as int);
        proof {
            assert(places(found@) + all =~= all);
        }
        while end > 0 && found.len() < limit
            invariant
                end <= self.requests@.len(),
                found@.len() <= limit,
                limit <= 200,
                forall|i: int| 0 <= i < found@.len() ==> (#[trigger] found@[i]) < self.requests@.len(),
                places(found@) + recent(
                    self.requests@,
                    tunnel_id,
                    (limit - found@.len()) as nat,
                    end as int,
                ) == all,
            decreases end,
        {
            let ghost before = found@;
            let wanted: bool = match tunnel_id {
                Some(id) => self.requests[end - 1].tunnel_id == id,
                None => true,
            };
            if wanted {
                found.push(end - 1);
                proof {
                    assert(places(found@) =~= places(before).push(end - 1));
                    let rest = recent(
                        self.requests@,
                        tunnel_id,
                        (limit - found@.len()) as nat,
                        end - 1,
                    );
                    assert(places(before) + (seq![end - 1] + rest) =~= places(found@) + rest);
                }
            }
            end -= 1;
        }
        proof {
            assert(places(found@) + Seq::<int>::empty() =~= places(found@));
        }
        found
    }
}

/// An error that the API answers with.
#[derive(Debug, Clone, PartialEq, Eq)]
pub struct ApiFailure {
    pub status: u16,
    pub code: String,
    pub message: String,
}

impl ApiFailure {
    /// Whether the error has this status, code and message.
    pub open spec fn is(&self, status: u16, code: Seq<char>, message: Seq<char>) -> bool {
        self.status == status && self.code@ == code && self.message@ == message
    }
}

fn api_failure(status: u16, code: &str, message: String) -> (r: ApiFailure)
    ensures
        r.is(status, code@, message@),
{
    ApiFailure { status, code: code.to_owned(), message }
}

/// What a text says as a UUID, or what is wrong with it.
pub uninterp spec fn parsed_uuid(text: Seq<char>) -> Result<u128, Seq<char>>;

/// Reads a UUID: `uuid::Uuid::parse_str`. The result is [`parsed_uuid`], the error as its
/// message; an id in words is read as that id.
#[verifier::external_body]
pub(crate) fn parse_uuid(text: &str) -> (r: Result<u128, String>)
    ensures
        match r {
            Ok(id) => parsed_uuid(text@) == Ok::<u128, Seq<char>>(id),
            Err(e) => parsed_uuid(text@) == Err::<u128, Seq<char>>(e@),
        },
        forall|id: u128| #[trigger] id_text(id) == text@ ==> r is Ok && r->Ok_0 == id,
{
    match uuid::Uuid::parse_str(text) {
        Ok(id) => Ok(id.as_u128()),
        Err(e) => Err(e.to_string()),
    }
}

fn parse_id(text: &str) -> (r: Result<u128, ApiFailure>)
    ensures
        match parsed_uuid(text@) {
            Ok(id) => r == Ok::<u128, ApiFailure>(id),
            Err(e) => r is Err && r->Err_0.is(400, "BAD_REQUEST"@, "Invalid ID format: "@ + e),
        },
{
    match parse_uuid(text) {
        Ok(id) => Ok(id),
        Err(e) => {
            let mut message = "Invalid ID format: ".to_owned();
            message.append(e.as_str());
            Err(api_failure(400, "BAD_REQUEST", message))
        },
    }
}

fn about_id(before: &str, id: u128, after: &str) -> (r: String)
    ensures
        r@ == before@ + id_text(id) + after@,
{
    let mut text = before.to_owned();
    text.append(crate::handshake::uuid_text(id).as_str());
    text.append(after);
    text
}

/// Finds the tunnel that a request asks for by its id.
pub fn get_tunnel(state: &DashboardState, id: &str) -> (r: Result<usize, ApiFailure>)
    ensures
        match parsed_uuid(id@) {
            Err(e) => r is Err && r->Err_0.is(400, "BAD_REQUEST"@, "Invalid ID format: "@ + e),
            Ok(n) => match tunnel_at(state.tunnels@, n, 0) {
                Some(i) => r is Ok && r->Ok_0 == i,
                None => r is Err && r->Err_0.is(
                    404,
                    "NOT_FOUND"@,
                    "Tunnel with id '"@ + id_text(n) + "' not found"@,
                ),
            },
        },
{
    match parse_id(id) {
        Err(e) => Err(e),
        Ok(n) => match state.find_tunnel(n) {
            Some(i) => Ok(i),
            None => Err(
                api_failure(404, "NOT_FOUND", about_id("Tunnel with id '", n, "' not found")),
            ),
        },
    }
}

/// Finds the request that is asked for by its id.
pub fn get_request(state: &DashboardState, id: &str) -> (r: Result<usize, ApiFailure>)
    ensures
        match parsed_uuid(id@) {
            Err(e) => r is Err && r->Err_0.is(400, "BAD_REQUEST"@, "Invalid ID format: "@ + e),
            Ok(n) => match request_at(state.requests@, n, 0) {
                Some(i) => r is Ok && r->Ok_0 == i,
                None => r is Err && r->Err_0.is(
                    404,
                    "NOT_FOUND"@,
                    "Request with id '"@ + id_text(n) + "' not found"@,
                ),
            },
        },
{
    match parse_id(id) {
        Err(e) => Err(e),
        Ok(n) => match state.find_request(n) {
            Some(i) => Ok(i),
            None => Err(
                api_failure(404, "NOT_FOUND", about_id("Request with id '", n, "' not found")),
            ),
        },
    }
}

/// Whether a text is an HTTP method: not empty, and of token bytes alone.
pub open spec fn valid_method(text: Seq<char>) -> bool {
    encode_utf8(text).len() > 0 && forall|i: int|
        0 <= i < encode_utf8(text).len() ==> token_byte(#[trigger] encode_utf8(text)[i])
}

/// Checks an HTTP method: whether `http::Method::from_bytes` accepts it, which takes any
/// sequence of token bytes that is not empty.
#[verifier::external_body]
fn is_valid_method(text: &str) -> (r: bool)
    ensures
        r == valid_method(text@),
{
    http::Method::from_bytes(text.as_bytes()).is_ok()
}

/// Whether a header of a remembered request is sent when it is replayed.
pub open spec fn replayed_header(name: Seq<char>) -> bool {
    lower_text(name) != lower_text("host"@) && lower_text(name) != lower_text("content-length"@)
}

/// The headers that are sent when a request is replayed.
pub open spec fn replayed_headers(pairs: Seq<(Seq<char>, Seq<char>)>) -> Seq<
    (Seq<char>, Seq<char>),
> {
    pairs.filter(|p: (Seq<char>, Seq<char>)| replayed_header(p.0))
}

fn replay_headers(headers: &Metadata) -> (r: Vec<(String, String)>)
    ensures
        crate::text::text_pairs(r@) == replayed_headers(headers.pairs()),
{
    let ghost all = headers.pairs();
    let ghost p = |p: (Seq<char>, Seq<char>)| replayed_header(p.0);
    let mut kept: Vec<(String, String)> = Vec::new();
    let mut i: usize = 0;
    proof {
        reveal(Seq::filter);
        assert(all.take(0) =~= Seq::empty());
        assert(crate::text::text_pairs(kept@) =~= all.take(0).filter(p));
    }
    while i < headers.len()
        invariant
            i <= all.len(),
            all == headers.pairs(),
            p == (|p: (Seq<char>, Seq<char>)| replayed_header(p.0)),
            crate::text::text_pairs(kept@) == all.take(i as int).filter(p),
        decreases all.len() - i,
    {
        let ghost before = kept@;
        let (name, value) = headers.entry(i);
        proof {
            reveal(Seq::filter);
            assert(all.take(i + 1).drop_last() =~= all.take(i as int));
            assert(all.take(i + 1).last() == (name@, value@));
        }
        if !same_ignoring_case(name, "host") && !same_ignoring_case(name, "content-length") {
            kept.push((name.to_owned(), value.to_owned()));
            proof {
                assert(crate::text::text_pairs(kept@) =~= crate::text::text_pairs(before).push(
                    (name@, value@),
                ));
            }
        }
        i += 1;
    }
    proof {
        assert(all.take(i as int) =~= all);
    }
    kept
}

/// A request that is to be sent again.
#[derive(Debug)]
pub struct ReplayPlan {
    pub url: String,
    pub method: String,
    pub headers: Vec<(String, String)>,
    pub body: Option<String>,
}

/// Plans to replay a remembered request to the local service of its tunnel, which must still be
/// there. Its host and length are left to the new request.
pub fn plan_replay(state: &DashboardState, id: &str) -> (r: Result<ReplayPlan, ApiFailure>)
    ensures
        match parsed_uuid(id@) {
            Err(e) => r is Err && r->Err_0.is(400, "BAD_REQUEST"@, "Invalid ID format: "@ + e),
            Ok(n) => match request_at(state.requests@, n, 0) {
                None => r is Err && r->Err_0.is(
                    404,
                    "NOT_FOUND"@,
                    "Request "@ + id_text(n) + " not found"@,
                ),
                Some(i) => {
                    let request = state.requests@[i];
                    match tunnel_at(state.tunnels@, request.tunnel_id, 0) {
                        None => r is Err && r->Err_0.is(
                            422,
                            "TUNNEL_INACTIVE"@,
                            "The tunnel for this request is no longer active"@,
                        ),
                        Some(t) => if valid_method(request.method@) {
                            r matches Ok(plan) && plan.url@ == "http://"@
                                + state.tunnels@[t].local_addr@ + request.path@ && plan.method@
                                == request.method@ && crate::text::text_pairs(plan.headers@)
                                == replayed_headers(request.request_headers.pairs()) && opt_text(
                                plan.body,
                            ) == opt_text(request.request_body)
                        } else {
                            r is Err && r->Err_0.is(
                                400,
                                "INVALID_METHOD"@,
                                "Invalid HTTP method"@,
                            )
                        },
                    }
                },
            },
        },
{
    let n: u128 = match parse_id(id) {
        Ok(n) => n,
        Err(e) => {
            return Err(e);
        },
    };
    let i: usize = match state.find_request(n) {
        Some(i) => i,
        None => {
            return Err(api_failure(404, "NOT_FOUND", about_id("Request ", n, " not found")));
        },
    };
    let request = &state.requests[i];
    let t: usize = match state.find_tunnel(request.tunnel_id) {
        Some(t) => t,
        None => {
            return Err(
                api_failure(
                    422,
                    "TUNNEL_INACTIVE",
                    "The tunnel for this request is no longer active".to_owned(),
                ),
            );
        },
    };
    if !is_valid_method(request.method.as_str()) {
        return Err(api_failure(400, "INVALID_METHOD", "Invalid HTTP method".to_owned()));
    }
    let mut url = "http://".to_owned();
    url.append(state.tunnels[t].local_addr.as_str());
    url.append(request.path.as_str());
    let body: Option<String> = match &request.request_body {
        Some(b) => Some(b.clone()),
        None => None,
    };
    Ok(
        ReplayPlan {
            url,
            method: request.method.clone(),
            headers: replay_headers(&request.request_headers),
            body,
        },
    )
}

/// What the API answers where a replay could not be sent.
pub fn replay_failed(error: &str) -> (r: ApiFailure)
    ensures
        r.is(502, "REPLAY_FAILED"@, "Failed to replay request: "@ + error@),
{
    let mut message = "Failed to replay request: ".to_owned();
    message.append(error);
    api_failure(502, "REPLAY_FAILED", message)
}

/// What the API answers where metrics could not be gathered.
pub fn metrics_failed() -> (r: ApiFailure)
    ensures
        r.is(500, "METRICS_ERROR"@, "Failed to gather metrics"@),
{
    api_failure(500, "METRICS_ERROR", "Failed to gather metrics".to_owned())
}

/// A request may use the API exactly where the token that it presents is the dashboard's.
pub proof fn law_only_the_token_authorizes(
    headers: &Headers,
    query: Option<&str>,
    token: &str,
    presented: Option<String>,
    r: bool,
)
    requires
        call_ensures(is_authorized, (headers, query, token), r),
        call_ensures(request_auth_token, (headers, query), presented),
    ensures
        r <==> presented is Some && (presented->0)@ == token@,
{
}

/// The token that a request presents is the bearer token, and only without one that of the
/// dashboard's header, then that of its cookie, then that of the query.
pub proof fn law_token_is_looked_for_in_turn(
    headers: &Headers,
    query: Option<&str>,
    bearer: Option<String>,
    header: Option<String>,
    cookie: Option<String>,
    in_query: Option<String>,
    r: Option<String>,
)
    requires
        call_ensures(request_auth_token, (headers, query), r),
        call_ensures(bearer_token, (headers,), bearer),
        call_ensures(header_token, (headers,), header),
        call_ensures(cookie_token, (headers,), cookie),
        call_ensures(query_token, (query,), in_query),
    ensures
        bearer is Some ==> r is Some && (r->0)@ == (bearer->0)@,
        bearer is None && header is Some ==> r is Some && (r->0)@ == (header->0)@,
        bearer is None && header is None && cookie is Some ==> r is Some && (r->0)@
            == (cookie->0)@,
        bearer is None && header is None && cookie is None ==> (r is Some <==> in_query is Some) && (
        r is Some ==> (r->0)@ == (in_query->0)@),
{
}

/// A bearer token is what stands behind the first space of the authorization field, where before it
/// stands that scheme in whatever case; the token of the dashboard's own header is all of it.
pub proof fn law_tokens_are_read_from_their_fields(
    headers: &Headers,
    scheme: Seq<char>,
    token: Seq<char>,
    own: Seq<char>,
    bearer: Option<String>,
    header: Option<String>,
)
    requires
        call_ensures(bearer_token, (headers,), bearer),
        call_ensures(header_token, (headers,), header),
        !scheme.contains(' '),
    ensures
        crate::http::has_field(headers, "authorization"@, scheme.push(' ') + token) ==> {
            let is_bearer = scheme.len() == 6 && forall|i: int|
                #![trigger scheme[i]]
                0 <= i < 6 ==> scheme[i] as int + (if 65 <= scheme[i] as int <= 90 {
                    32int
                } else {
                    0
                }) == "bearer"@[i] as int;
            &&& bearer is Some <==> is_bearer
            &&& bearer is Some ==> (bearer->0)@ == token
        },
        crate::http::has_field(headers, "authorization"@, scheme) ==> bearer is None,
        crate::http::lacks_field(headers, "authorization"@) ==> bearer is None,
        crate::http::has_field(headers, "x-dashboard-token"@, own) ==> header is Some && (header->0)@
            == own,
        crate::http::lacks_field(headers, "x-dashboard-token"@) ==> header is None,
{
    let value = scheme.push(' ') + token;
    crate::http::lemma_has_field(headers, "authorization"@, value);
    crate::http::lemma_has_field(headers, "authorization"@, scheme);
    crate::http::lemma_has_field(headers, "x-dashboard-token"@, own);
    crate::text::lemma_first_at(value, ' ', 0);
    crate::text::lemma_first_at(scheme, ' ', 0);
    assert(value[scheme.len() as int] == ' ');
    if let Some(i) = crate::text::first_at(value, ' ', 0) {
        if i < scheme.len() {
            assert(scheme.contains(scheme[i]));
        }
        assert(value.take(i) =~= scheme);
        assert(value.skip(i + 1) =~= token);
    }
    if let Some(i) = crate::text::first_at(scheme, ' ', 0) {
        assert(scheme.contains(scheme[i]));
    }
    reveal_strlit("bearer");
    let low = lower_text(scheme);
    let word = lower_text("bearer"@);
    assert(word =~= "bearer"@);
    if scheme.len() == 6 && forall|i: int|
        #![trigger scheme[i]]
        0 <= i < 6 ==> scheme[i] as int + (if 65 <= scheme[i] as int <= 90 {
            32int
        } else {
            0
        }) == "bearer"@[i] as int {
        assert(low =~= word);
    }
    if low == word {
        assert forall|i: int| #![trigger scheme[i]] 0 <= i < 6 implies scheme[i] as int + (if 65
            <= scheme[i] as int <= 90 {
            32int
        } else {
            0
        }) == "bearer"@[i] as int by {
            assert(low[i] == word[i]);
        }
    }
}

/// The only cookie of a request gives its token exactly where it is the dashboard's.
pub proof fn law_cookie_is_read_by_its_name(
    headers: &Headers,
    name: Seq<char>,
    token: Seq<char>,
    decoded: String,
    text: &str,
    r: Option<String>,
)
    requires
        call_ensures(cookie_token, (headers,), r),
        !name.contains('=') && !name.contains(';') && !token.contains(';'),
        crate::ingress::tight(name.push('=') + token),
        text@ == token,
        call_ensures(percent_decode, (text, false), decoded),
    ensures
        crate::http::has_field(headers, "cookie"@, name.push('=') + token) ==> {
            &&& r is Some <==> name == "ferrotunnel_dashboard_token"@
            &&& r is Some ==> (r->0)@ == decoded@
        },
        crate::http::lacks_field(headers, "cookie"@) ==> r is None,
{
    let value = name.push('=') + token;
    crate::http::lemma_has_field(headers, "cookie"@, value);
    crate::http::lemma_nothing_to_trim(value);
    lemma_one_part(value, ';');
    crate::text::lemma_first_at(value, '=', 0);
    assert(value[name.len() as int] == '=');
    if let Some(i) = crate::text::first_at(value, '=', 0) {
        if i < name.len() {
            assert(name.contains(name[i]));
        }
        assert(value.take(i) =~= name);
        assert(value.skip(i + 1) =~= token);
    }
    let parts = parts_of(value, ';');
    assert(cookie_among(parts, 1) is None);
}

proof fn lemma_one_part(value: Seq<char>, c: char)
    requires
        !value.contains(c),
    ensures
        parts_of(value, c) == seq![value],
{
    crate::text::lemma_first_at(value, c, 0);
    if let Some(i) = crate::text::first_at(value, c, 0) {
        assert(value.contains(value[i]));
    }
}

proof fn lemma_plain_decodes(text: Seq<char>, plus_as_space: bool)
    requires
        forall|i: int|
            0 <= i < text.len() ==> 0 <= (#[trigger] text[i]) as int <= 127 && text[i] != '%' && (
            text[i] != '+' || !plus_as_space),
    ensures
        valid_utf8(percent_bytes(encode_utf8(text), plus_as_space)),
        decode_utf8(percent_bytes(encode_utf8(text), plus_as_space)) == text,
{
    vstd::utf8::is_ascii_chars_encode_utf8(text);
    let bytes = encode_utf8(text);
    assert forall|i: int| 0 <= i < bytes.len() implies bytes[i] != 37 && (bytes[i] != 43
        || !plus_as_space) by {
        assert(bytes[i] == text[i] as u8);
    }
    lemma_plain_bytes(bytes, plus_as_space);
    vstd::utf8::encode_utf8_valid_utf8(text);
    vstd::utf8::encode_utf8_decode_utf8(text);
}

proof fn lemma_plain_bytes(bytes: Seq<u8>, plus_as_space: bool)
    requires
        forall|i: int| 0 <= i < bytes.len() ==> bytes[i] != 37 && (bytes[i] != 43 || !plus_as_space),
    ensures
        percent_bytes(bytes, plus_as_space) == bytes,
    decreases bytes.len(),
{
    if bytes.len() > 0 {
        assert(bytes[0] != 37);
        lemma_plain_bytes(bytes.skip(1), plus_as_space);
        assert(percent_bytes(bytes, plus_as_space) =~= bytes);
    } else {
        assert(percent_bytes(bytes, plus_as_space) =~= bytes);
    }
}

/// The only part of a query gives its value as the token exactly where it is named so, both decoded;
/// without a query there is none.
pub proof fn law_query_is_read_by_its_name(
    query: &str,
    name: &str,
    token: &str,
    decoded_name: String,
    decoded_token: String,
    r: Option<String>,
    none: Option<String>,
)
    requires
        query@ == name@.push('=') + token@,
        !query@.contains('&'),
        !name@.contains('='),
        call_ensures(percent_decode, (name, true), decoded_name),
        call_ensures(percent_decode, (token, true), decoded_token),
        call_ensures(query_token, (Some(query),), r),
        call_ensures(query_token, (None,), none),
    ensures
        r is Some <==> decoded_name@ == "token"@,
        r is Some ==> (r->0)@ == decoded_token@,
        none is None,
{
    let value = query@;
    lemma_one_part(value, '&');
    crate::text::lemma_first_at(value, '=', 0);
    assert(value[name@.len() as int] == '=');
    if let Some(i) = crate::text::first_at(value, '=', 0) {
        if i < name@.len() {
            assert(name@.contains(name@[i]));
        }
        assert(value.take(i) =~= name@);
        assert(value.skip(i + 1) =~= token@);
    }
    let parts = parts_of(value, '&');
    assert(query_among(parts, 1) is None);
}

/// Text without percent signs stands for itself, but for plus signs where they are spaces; a percent
/// sign with two hexadecimal digits stands for the character with that number.
pub proof fn law_percent_signs_are_decoded(
    value: &str,
    plus_as_space: bool,
    r: String,
    high: int,
    low: int,
)
    requires
        call_ensures(percent_decode, (value, plus_as_space), r),
    ensures
        (forall|i: int|
            0 <= i < value@.len() ==> 0 <= (#[trigger] value@[i]) as int <= 127 && value@[i] != '%'
                && (value@[i] != '+' || !plus_as_space)) ==> r@ == value@,
        value@ == seq!['+'] && plus_as_space ==> r@ == seq![' '],
        value@.len() == 3 && value@[0] == '%' && 0 <= high <= 7 && 0 <= low <= 9 && value@[1] as int
            == 48 + high && value@[2] as int == 48 + low ==> r@.len() == 1 && r@[0] as int == 16
            * high + low,
        value@.len() == 3 && value@[0] == '%' && 0 <= high <= 7 && 10 <= low <= 15
            && value@[1] as int == 48 + high && (value@[2] as int == 87 + low || value@[2] as int
            == 55 + low) ==> r@.len() == 1 && r@[0] as int == 16 * high + low,
{
    if forall|i: int|
        0 <= i < value@.len() ==> 0 <= (#[trigger] value@[i]) as int <= 127 && value@[i] != '%' && (
        value@[i] != '+' || !plus_as_space) {
        lemma_plain_decodes(value@, plus_as_space);
    }
    if value@ == seq!['+'] && plus_as_space {
        let space = seq![' '];
        vstd::utf8::is_ascii_chars_encode_utf8(value@);
        vstd::utf8::is_ascii_chars_encode_utf8(space);
        let bytes = encode_utf8(value@);
        assert(bytes[0] == value@[0] as u8);
        assert(encode_utf8(space)[0] == space[0] as u8);
        assert(bytes.skip(1) =~= Seq::empty());
        assert(percent_bytes(bytes.skip(1), plus_as_space) =~= Seq::empty());
        assert(percent_bytes(bytes, plus_as_space) =~= encode_utf8(space));
        vstd::utf8::encode_utf8_valid_utf8(space);
        vstd::utf8::encode_utf8_decode_utf8(space);
    }
    if value@.len() == 3 && value@[0] == '%' && 0 <= high <= 7 && 0 <= low <= 15 && value@[1] as int
        == 48 + high && ((low <= 9 && value@[2] as int == 48 + low) || (low >= 10 && (
    value@[2] as int == 87 + low || value@[2] as int == 55 + low))) {
        let c = (16 * high + low) as u8 as char;
        let one = seq![c];
        assert(c as int == 16 * high + low);
        assert(vstd::utf8::is_ascii_chars(value@)) by {
            assert forall|i: int| 0 <= i < value@.len() implies '\0' <= #[trigger] value@[i]
                <= '\u{7f}' by {
                assert(i == 0 || i == 1 || i == 2);
            }
        }
        vstd::utf8::is_ascii_chars_encode_utf8(value@);
        vstd::utf8::is_ascii_chars_encode_utf8(one);
        let bytes = encode_utf8(value@);
        assert(bytes[0] == value@[0] as u8);
        assert(bytes[1] == value@[1] as u8);
        assert(bytes[2] == value@[2] as u8);
        assert(encode_utf8(one)[0] == one[0] as u8);
        assert(bytes.skip(3) =~= Seq::empty());
        assert(percent_bytes(bytes.skip(3), plus_as_space) =~= Seq::empty());
        assert(percent_bytes(bytes, plus_as_space) =~= encode_utf8(one));
        vstd::utf8::encode_utf8_valid_utf8(one);
        vstd::utf8::encode_utf8_decode_utf8(one);
    }
}

proof fn lemma_request_at(requests: Seq<RequestDetails>, id: u128, from: int)
    requires
        0 <= from,
    ensures
        match request_at(requests, id, from) {
            Some(i) => from <= i < requests.len() && requests[i].id == id && forall|j: int|
                from <= j < i ==> (#[trigger] requests[j]).id != id,
            None => forall|j: int| from <= j < requests.len() ==> (#[trigger] requests[j]).id != id,
        },
    decreases requests.len() - from,
{
    if from < requests.len() && requests[from].id != id {
        lemma_request_at(requests, id, from + 1);
    }
}

/// Requests and tunnels are found by their ids, the first where there are several, and only where
/// there is one.
pub proof fn law_ids_find_their_entries(
    state: &DashboardState,
    id: u128,
    request: Option<usize>,
    tunnel: Option<usize>,
)
    requires
        call_ensures(DashboardState::find_request, (state, id), request),
        call_ensures(DashboardState::find_tunnel, (state, id), tunnel),
    ensures
        request matches Some(i) ==> i < state.requests@.len() && state.requests@[i as int].id == id
            && forall|j: int| 0 <= j < i ==> (#[trigger] state.requests@[j]).id != id,
        request is None ==> forall|j: int|
            0 <= j < state.requests@.len() ==> (#[trigger] state.requests@[j]).id != id,
        tunnel matches Some(i) ==> i < state.tunnels@.len() && state.tunnels@[i as int].id == id
            && forall|j: int| 0 <= j < i ==> (#[trigger] state.tunnels@[j]).id != id,
        tunnel is None ==> forall|j: int|
            0 <= j < state.tunnels@.len() ==> (#[trigger] state.tunnels@[j]).id != id,
{
    lemma_request_at(state.requests@, id, 0);
    lemma_tunnel_at(state.tunnels@, id, 0);
}

/// A request is remembered as the newest, and only where there is no room is the oldest forgotten.
pub proof fn law_newest_request_is_remembered(
    max: usize,
    fresh: DashboardState,
    state: &mut DashboardState,
    details: RequestDetails,
)
    requires
        call_ensures(DashboardState::new, (max,), fresh),
        old(state).requests@.len() <= old(state).max_requests,
        call_ensures(DashboardState::add_request, (state, details), ()),
    ensures
        fresh.requests@.len() == 0 && fresh.tunnels@.len() == 0 && fresh.max_requests == max,
        old(state).max_requests > 0 ==> final(state).requests@.len() > 0
            && final(state).requests@.last() == details,
        old(state).requests@.len() < old(state).max_requests ==> final(state).requests@.drop_last()
            == old(state).requests@,
        old(state).requests@.len() == old(state).max_requests && old(state).max_requests > 0
            ==> final(state).requests@.drop_last() == old(state).requests@.skip(1),
        old(state).max_requests == 0 ==> final(state).requests@.len() == 0,
        final(state).tunnels == old(state).tunnels,
{
    if old(state).requests@.len() < old(state).max_requests {
        assert(final(state).requests@.drop_last() =~= old(state).requests@);
    } else if old(state).max_requests > 0 {
        assert(final(state).requests@.drop_last() =~= old(state).requests@.skip(1));
    }
}

/// A tunnel that is shown is found by its id as it was given, and every other tunnel as before.
pub proof fn law_shown_tunnel_is_found(
    state: &mut DashboardState,
    tunnel: DashboardTunnelInfo,
    found: Option<usize>,
    other: u128,
    before: Option<usize>,
    after: Option<usize>,
)
    requires
        call_ensures(DashboardState::add_tunnel, (state, tunnel), ()),
        call_ensures(DashboardState::find_tunnel, (&*final(state), tunnel.id), found),
        other != tunnel.id,
        call_ensures(DashboardState::find_tunnel, (&*old(state), other), before),
        call_ensures(DashboardState::find_tunnel, (&*final(state), other), after),
    ensures
        found is Some && final(state).tunnels@[found->0 as int] == tunnel,
        before == after,
        before is Some ==> final(state).tunnels@[before->0 as int]
            == old(state).tunnels@[before->0 as int],
        final(state).requests == old(state).requests,
{
    law_added_tunnel_is_found(old(state).tunnels@, tunnel, other);
    lemma_tunnel_at(old(state).tunnels@, tunnel.id, 0);
    lemma_tunnel_at(old(state).tunnels@, other, 0);
}

proof fn lemma_recent(
    requests: Seq<RequestDetails>,
    tunnel_id: Option<u128>,
    limit: nat,
    end: int,
)
    requires
        0 <= end <= requests.len(),
    ensures
        ({
            let list = recent(requests, tunnel_id, limit, end);
            &&& list.len() <= limit
            &&& forall|i: int|
                0 <= i < list.len() ==> 0 <= #[trigger] list[i] < end && (tunnel_id is None
                    || tunnel_id == Some(requests[list[i]].tunnel_id))
            &&& forall|i: int, j: int| 0 <= i < j < list.len() ==> list[i] > list[j]
            &&& list.len() < limit ==> forall|k: int|
                0 <= k < end && (tunnel_id is None || tunnel_id == Some(
                    (#[trigger] requests[k]).tunnel_id,
                )) ==> list.contains(k)
        }),
    decreases end,
{
    let list = recent(requests, tunnel_id, limit, end);
    if end > 0 && limit > 0 {
        if tunnel_id is None || tunnel_id == Some(requests[end - 1].tunnel_id) {
            let rest = recent(requests, tunnel_id, (limit - 1) as nat, end - 1);
            lemma_recent(requests, tunnel_id, (limit - 1) as nat, end - 1);
            assert(list =~= seq![end - 1] + rest);
            if list.len() < limit {
                assert forall|k: int|
                    0 <= k < end && (tunnel_id is None || tunnel_id == Some(
                        (#[trigger] requests[k]).tunnel_id,
                    )) implies list.contains(k) by {
                    if k == end - 1 {
                        assert(list[0] == k);
                    } else {
                        assert(rest.contains(k));
                        let i = choose|i: int| 0 <= i < rest.len() && rest[i] == k;
                        assert(list[i + 1] == k);
                    }
                }
            }
        } else {
            lemma_recent(requests, tunnel_id, limit, end - 1);
        }
    }
}

/// A listing shows the newest requests first, each once, of the tunnel that is asked for or of all:
/// as many as are asked for, fifty by default and at most two hundred, and all there are where there
/// are fewer.
pub proof fn law_listing_shows_the_newest_first(
    state: &DashboardState,
    asked: Option<usize>,
    tunnel_id: Option<u128>,
    r: Vec<usize>,
    k: int,
)
    requires
        call_ensures(DashboardState::list_requests, (state, asked, tunnel_id), r),
    ensures
        ({
            let limit = match asked {
                Some(n) => if n <= 200 {
                    n as int
                } else {
                    200
                },
                None => 50,
            };
            &&& r@.len() <= limit
            &&& forall|i: int|
                0 <= i < r@.len() ==> (#[trigger] r@[i]) < state.requests@.len() && (tunnel_id
                    is None || tunnel_id == Some(state.requests@[r@[i] as int].tunnel_id))
            &&& forall|i: int, j: int| 0 <= i < j < r@.len() ==> r@[i] > r@[j]
            &&& r@.len() < limit && 0 <= k < state.requests@.len() && (tunnel_id is None
                || tunnel_id == Some(state.requests@[k].tunnel_id)) ==> exists|i: int|
                0 <= i < r@.len() && #[trigger] r@[i] == k
        }),
{
    let limit = listing_limit(asked);
    let list = places(r@);
    lemma_recent(state.requests@, tunnel_id, limit, state.requests@.len() as int);
    assert(list.len() == r@.len());
    assert forall|i: int| 0 <= i < r@.len() implies (#[trigger] r@[i]) < state.requests@.len() && (
    tunnel_id is None || tunnel_id == Some(state.requests@[r@[i] as int].tunnel_id)) by {
        assert(list[i] == r@[i]);
    }
    assert forall|i: int, j: int| 0 <= i < j < r@.len() implies r@[i] > r@[j] by {
        assert(list[i] > list[j]);
    }
    if r@.len() < limit && 0 <= k < state.requests@.len() && (tunnel_id is None || tunnel_id == Some(
        state.requests@[k].tunnel_id,
    )) {
        assert(list.contains(k));
        let i = choose|i: int| 0 <= i < list.len() && list[i] == k;
        assert(r@[i] == k);
    }
}

/// What an id in words asks for is found by that id, or answered 404; what is no id is answered 400.
pub proof fn law_api_finds_by_id(
    state: &DashboardState,
    text: &str,
    id: u128,
    tunnel: Result<usize, ApiFailure>,
    request: Result<usize, ApiFailure>,
    tunnel_place: Option<usize>,
    request_place: Option<usize>,
)
    requires
        call_ensures(get_tunnel, (state, text), tunnel),
        call_ensures(get_request, (state, text), request),
        call_ensures(DashboardState::find_tunnel, (state, id), tunnel_place),
        call_ensures(DashboardState::find_request, (state, id), request_place),
    ensures
        parsed_uuid(text@) == Ok::<u128, Seq<char>>(id) ==> {
            &&& tunnel_place is Some ==> tunnel == Ok::<usize, ApiFailure>(tunnel_place->0)
            &&& tunnel_place is None ==> tunnel is Err && tunnel->Err_0.status == 404
            &&& request_place is Some ==> request == Ok::<usize, ApiFailure>(request_place->0)
            &&& request_place is None ==> request is Err && request->Err_0.status == 404
        },
        parsed_uuid(text@) is Err ==> tunnel is Err && tunnel->Err_0.status == 400 && request is Err
            && request->Err_0.status == 400,
{
}

/// A remembered request is replayed to the local service of its tunnel, with its own method, path and
/// body; where the request is not remembered that is answered 404, and where its tunnel is gone 422.
pub proof fn law_replay_goes_to_the_local_service(
    state: &DashboardState,
    text: &str,
    id: u128,
    place: Option<usize>,
    tunnel: Option<usize>,
    r: Result<ReplayPlan, ApiFailure>,
)
    requires
        call_ensures(plan_replay, (state, text), r),
        parsed_uuid(text@) == Ok::<u128, Seq<char>>(id),
        call_ensures(DashboardState::find_request, (state, id), place),
        place is Some ==> call_ensures(
            DashboardState::find_tunnel,
            (state, state.requests@[place->0 as int].tunnel_id),
            tunnel,
        ),
    ensures
        place is None ==> r is Err && r->Err_0.status == 404,
        place is Some && tunnel is None ==> r is Err && r->Err_0.status == 422,
        place is Some && tunnel is Some ==> {
            let request = state.requests@[place->0 as int];
            &&& valid_method(request.method@) ==> r is Ok
            &&& !valid_method(request.method@) ==> r is Err && r->Err_0.status == 400
            &&& r matches Ok(plan) ==> {
                &&& plan.url@ == "http://"@ + state.tunnels@[tunnel->0 as int].local_addr@
                    + request.path@
                &&& plan.method@ == request.method@
                &&& plan.body is Some <==> request.request_body is Some
                &&& plan.body is Some ==> (plan.body->0)@ == (request.request_body->0)@
            }
        },
{
}

/// A replay sends every remembered header but host and content length, and those in no case.
pub proof fn law_replay_keeps_the_headers(
    state: &DashboardState,
    text: &str,
    id: u128,
    place: Option<usize>,
    plan: ReplayPlan,
    pair: (Seq<char>, Seq<char>),
    name: &str,
    low: String,
)
    requires
        call_ensures(plan_replay, (state, text), Ok(plan)),
        parsed_uuid(text@) == Ok::<u128, Seq<char>>(id),
        call_ensures(DashboardState::find_request, (state, id), place),
        name@ == pair.0,
        call_ensures(crate::text::to_lower, (name,), low),
    ensures
        place is Some,
        crate::text::text_pairs(plan.headers@).contains(pair)
            <==> state.requests@[place->0 as int].request_headers.pairs().contains(pair) && low@
            != "host"@ && low@ != "content-length"@,
{
    broadcast use vstd::seq_lib::group_filter_ensures;
    broadcast use vstd::seq::Seq::lemma_filter_contains_rev;

    reveal_strlit("host");
    reveal_strlit("content-length");
    assert(lower_text("host"@) =~= "host"@);
    assert(lower_text("content-length"@) =~= "content-length"@);
    let all = state.requests@[place->0 as int].request_headers.pairs();
    let p = |p: (Seq<char>, Seq<char>)| replayed_header(p.0);
    let kept = all.filter(p);
    assert(replayed_headers(all) == kept);
    if kept.contains(pair) {
        let k = choose|k: int| 0 <= k < kept.len() && kept[k] == pair;
        assert(p(kept[k]));
    }
    if all.contains(pair) && replayed_header(pair.0) {
        let k = choose|k: int| 0 <= k < all.len() && all[k] == pair;
        assert(p(all[k]));
        assert(kept.contains(all[k]));
    }
}

/// An asset is named by the path without the slashes at its start, and the root names the index.
pub proof fn law_path_names_its_asset(path: &str, slashes: nat, rest: Seq<char>, r: &str)
    requires
        call_ensures(asset_path, (path,), r),
        path@ == Seq::new(slashes, |i: int| '/') + rest,
        rest.len() > 0 ==> rest[0] != '/',
    ensures
        rest.len() > 0 ==> r@ == rest,
        rest.len() == 0 ==> r@ == "index.html"@,
{
    lemma_without_slashes(slashes, rest);
}

proof fn lemma_without_slashes(slashes: nat, rest: Seq<char>)
    requires
        rest.len() > 0 ==> rest[0] != '/',
    ensures
        without_slashes(Seq::new(slashes, |i: int| '/') + rest) == rest,
    decreases slashes,
{
    let path = Seq::new(slashes, |i: int| '/') + rest;
    if slashes > 0 {
        assert(path.skip(1) =~= Seq::new((slashes - 1) as nat, |i: int| '/') + rest);
        assert(path[0] == '/');
        lemma_without_slashes((slashes - 1) as nat, rest);
    } else {
        assert(path =~= rest);
    }
}

/// The dashboard listens on the loopback address, port 4040, and remembers a thousand requests,
/// unless told otherwise.
pub proof fn law_dashboard_is_local_by_default(r: DashboardConfig)
    requires
        call_ensures(DashboardConfig::default, (), r),
    ensures
        r.bind_addr.ip == IpAddr::V4(127, 0, 0, 1),
        r.bind_addr.port == 4040,
        r.max_requests == 1000,
        r.auth_token is None,
{
}

/// A cookie that is not the dashboard's is passed over: the token is then that of the cookies behind
/// it.
pub proof fn law_other_cookies_are_passed_over(
    headers: &Headers,
    fewer: &Headers,
    part: Seq<char>,
    name: Seq<char>,
    rest: Seq<char>,
    r: Option<String>,
    of_fewer: Option<String>,
)
    requires
        call_ensures(cookie_token, (headers,), r),
        call_ensures(cookie_token, (fewer,), of_fewer),
        crate::http::has_field(headers, "cookie"@, part.push(';') + rest),
        crate::http::has_field(fewer, "cookie"@, rest),
        !part.contains(';'),
        !part.contains('=') || (crate::ingress::tight(part) && !name.contains('=') && name
            != "ferrotunnel_dashboard_token"@ && exists|value: Seq<char>|
            part == #[trigger] (name.push('=') + value)),
    ensures
        r is Some <==> of_fewer is Some,
        r is Some ==> (r->0)@ == (of_fewer->0)@,
{
    let whole = part.push(';') + rest;
    crate::http::lemma_has_field(headers, "cookie"@, whole);
    crate::http::lemma_has_field(fewer, "cookie"@, rest);
    lemma_first_part(part, rest, ';');
    let tail = parts_of(rest, ';');
    let all = parts_of(whole, ';');
    assert(all =~= seq![part] + tail);
    lemma_cookies_behind(part, tail, 0);
    if part.contains('=') {
        let value = choose|value: Seq<char>| part == #[trigger] (name.push('=') + value);
        crate::http::lemma_nothing_to_trim(part);
        crate::text::lemma_first_at(part, '=', 0);
        assert(part[name.len() as int] == '=');
        if let Some(i) = crate::text::first_at(part, '=', 0) {
            if i < name.len() {
                assert(name.contains(name[i]));
            }
            assert(part.take(i) =~= name);
        }
    } else {
        let (a, b) = crate::http::lemma_trimmed(part);
        let core = trimmed(part);
        crate::text::lemma_first_at(core, '=', 0);
        if let Some(i) = crate::text::first_at(core, '=', 0) {
            assert(part[a.len() + i] == core[i]);
            assert(part.contains('='));
        }
    }
}

proof fn lemma_first_part(part: Seq<char>, rest: Seq<char>, c: char)
    requires
        !part.contains(c),
    ensures
        parts_of(part.push(c) + rest, c) == seq![part] + parts_of(rest, c),
{
    let whole = part.push(c) + rest;
    crate::text::lemma_first_at(whole, c, 0);
    assert(whole[part.len() as int] == c);
    if let Some(i) = crate::text::first_at(whole, c, 0) {
        if i < part.len() {
            assert(part.contains(part[i]));
        }
        assert(whole.take(i) =~= part);
        assert(whole.skip(i + 1) =~= rest);
    }
}

proof fn lemma_cookies_behind(part: Seq<char>, tail: Seq<Seq<char>>, from: int)
    requires
        0 <= from,
    ensures
        cookie_among(seq![part] + tail, from + 1) == cookie_among(tail, from),
    decreases tail.len() - from,
{
    let all = seq![part] + tail;
    if from < tail.len() {
        assert(all[from + 1] == tail[from]);
        lemma_cookies_behind(part, tail, from + 1);
    }
}

/// A part of a query that is not named so is passed over: the token is then that of the parts behind
/// it.
pub proof fn law_other_parts_of_a_query_are_passed_over(
    query: &str,
    rest: &str,
    name: &str,
    value: Seq<char>,
    decoded: String,
    r: Option<String>,
    of_rest: Option<String>,
)
    requires
        call_ensures(query_token, (Some(query),), r),
        call_ensures(query_token, (Some(rest),), of_rest),
        call_ensures(percent_decode, (name, true), decoded),
        !name@.contains('=') && !name@.contains('&') && !value.contains('&'),
        query@ == (name@.push('=') + value).push('&') + rest@,
        decoded@ != "token"@,
    ensures
        r is Some <==> of_rest is Some,
        r is Some ==> (r->0)@ == (of_rest->0)@,
{
    let part = name@.push('=') + value;
    assert(!part.contains('&')) by {
        if part.contains('&') {
            let i = choose|i: int| 0 <= i < part.len() && part[i] == '&';
            if i < name@.len() {
                assert(name@.contains(name@[i]));
            } else if i > name@.len() {
                assert(value.contains(value[i - name@.len() - 1]));
            }
        }
    }
    lemma_first_part(part, rest@, '&');
    let tail = parts_of(rest@, '&');
    let all = parts_of(query@, '&');
    assert(all =~= seq![part] + tail);
    lemma_parts_behind(part, tail, 0);
    crate::text::lemma_first_at(part, '=', 0);
    assert(part[name@.len() as int] == '=');
    if let Some(i) = crate::text::first_at(part, '=', 0) {
        if i < name@.len() {
            assert(name@.contains(name@[i]));
        }
        assert(part.take(i) =~= name@);
    }
}

proof fn lemma_parts_behind(part: Seq<char>, tail: Seq<Seq<char>>, from: int)
    requires
        0 <= from,
    ensures
        query_among(seq![part] + tail, from + 1) == query_among(tail, from),
    decreases tail.len() - from,
{
    let all = seq![part] + tail;
    if from < tail.len() {
        assert(all[from + 1] == tail[from]);
        lemma_parts_behind(part, tail, from + 1);
    }
}

/// A hexadecimal digit in either case has its value, and no other byte has one; byte strings are
/// equal exactly where all their bytes are.
pub proof fn law_hexadecimal_digits_have_their_values(
    byte: u8,
    r: Option<u8>,
    a: &[u8],
    b: &[u8],
    same: bool,
)
    requires
        call_ensures(hex_value, (byte,), r),
        call_ensures(constant_time_eq, (a, b), same),
    ensures
        48 <= byte <= 57 ==> r == Some((byte - 48) as u8),
        97 <= byte <= 102 ==> r == Some((byte - 87) as u8),
        65 <= byte <= 70 ==> r == Some((byte - 55) as u8),
        !(48 <= byte <= 57 || 97 <= byte <= 102 || 65 <= byte <= 70) ==> r is None,
        same <==> a@.len() == b@.len() && forall|i: int|
            0 <= i < a@.len() ==> #[trigger] a@[i] == b@[i],
{
    if a@.len() == b@.len() && forall|i: int| 0 <= i < a@.len() ==> #[trigger] a@[i] == b@[i] {
        assert(a@ =~= b@);
    }
}

/// Every request to the API can be authorized, and every id looked up.
pub proof fn law_any_api_request_can_be_answered(
    headers: &Headers,
    query: Option<&str>,
    token: &str,
    state: &DashboardState,
    id: &str,
    limit: Option<usize>,
    tunnel_id: Option<u128>,
)
    ensures
        call_requires(is_authorized, (headers, query, token)),
        call_requires(request_auth_token, (headers, query)),
        call_requires(get_tunnel, (state, id)),
        call_requires(get_request, (state, id)),
        call_requires(plan_replay, (state, id)),
        call_requires(DashboardState::list_requests, (state, limit, tunnel_id)),
{
}

} // verus!
