//! Capturing traffic for the dashboard.

use vstd::prelude::*;
use vstd::utf8::{decode_utf8, valid_utf8};

use crate::dashboard::{DashboardState, RequestDetails, text_from_utf8};
use crate::frame::Metadata;
use crate::handshake::new_uuid;
use crate::http::{Headers, copy_bytes, to_text, value_text};
use crate::ingress::{Reply, full_response};
use crate::text::opt_text;

verus! {

/// Size from which on a body is not captured: 1 MiB.
pub const CAPTURE_LIMIT: usize = 1_048_576;

/// What is captured of a body: its text where it has one, and a note where it is too large.
pub open spec fn captured_body(bytes: Seq<u8>) -> Option<Seq<char>> {
    if bytes.len() < CAPTURE_LIMIT {
        if valid_utf8(bytes) {
            Some(decode_utf8(bytes))
        } else {
            None
        }
    } else {
        Some("<Body too large>"@)
    }
}

/// Captures a body.
pub fn capture_body(bytes: &Vec<u8>) -> (r: Option<String>)
    ensures
        opt_text(r) == captured_body(bytes@),
{
    if bytes.len() < CAPTURE_LIMIT {
        text_from_utf8(copy_bytes(bytes))
    } else {
        Some("<Body too large>".to_owned())
    }
}

/// What is captured of header fields: the text of each; of several with one name the last
/// that is text.
pub open spec fn captured_headers(fields: Seq<(Seq<char>, Seq<u8>)>) -> Map<Seq<char>, Seq<char>>
    decreases fields.len(),
{
    if fields.len() == 0 {
        Map::empty()
    } else {
        let before = captured_headers(fields.drop_last());
        match value_text(fields.last().1) {
            Some(text) => before.insert(fields.last().0, text),
            None => before,
        }
    }
}

/// Captures header fields.
pub fn capture_headers(headers: &Headers) -> (r: Metadata)
    ensures
        r@ == captured_headers(headers@),
{
    let mut captured = Metadata::new();
    let mut i: usize = 0;
    proof {
        assert(headers@.take(0) =~= Seq::empty());
    }
    while i < headers.fields.len()
        invariant
            i <= headers.fields@.len(),
            captured@ == captured_headers(headers@.take(i as int)),
        decreases headers.fields@.len() - i,
    {
        let field = &headers.fields[i];
        proof {
            assert(headers@.take(i + 1).drop_last() =~= headers@.take(i as int));
            assert(headers@.take(i + 1).last() == (field.name@, field.value@));
        }
        if let Some(text) = to_text(field.value.as_slice()) {
            captured.insert(field.name.clone(), text);
        }
        i += 1;
    }
    proof {
        assert(headers@.take(i as int) =~= headers@);
    }
    captured
}

/// What is captured of a request before it is passed on.
#[derive(Debug)]
pub struct CapturedRequest {
    pub id: u128,
    pub tunnel_id: u128,
    pub method: String,
    pub path: String,
    pub headers: Metadata,
    pub body: Option<String>,
    /// When it arrived, in milliseconds since the Unix epoch.
    pub timestamp: u64,
}

/// Captures a request under a new id. Its path comes with the query, so that it can be
/// replayed.
pub fn capture_request(
    tunnel_id: u128,
    method: &str,
    path: &str,
    path_and_query: Option<&str>,
    headers: &Headers,
    body: &Vec<u8>,
    timestamp: u64,
) -> (r: CapturedRequest)
    ensures
        r.id != 0,
        r.tunnel_id == tunnel_id,
        r.method@ == method@,
        r.path@ == (match path_and_query {
            Some(p) => p@,
            None => path@,
        }),
        r.headers@ == captured_headers(headers@),
        opt_text(r.body) == captured_body(body@),
        r.timestamp == timestamp,
{
    let path = match path_and_query {
        Some(p) => p.to_owned(),
        None => path.to_owned(),
    };
    CapturedRequest {
        id: new_uuid(),
        tunnel_id,
        method: method.to_owned(),
        path,
        headers: capture_headers(headers),
        body: capture_body(body),
        timestamp,
    }
}

/// A span of time that the clock may have turned back, as a duration.
pub fn elapsed_millis(millis: i64) -> (r: u64)
    ensures
        r == (if millis < 0 {
            0
        } else {
            millis as u64
        }),
{
    if millis < 0 {
        0
    } else {
        millis as u64
    }
}

/// Records a request and its response in the dashboard.
pub fn record_response(
    state: &mut DashboardState,
    request: CapturedRequest,
    status: u16,
    headers: &Headers,
    body: &Vec<u8>,
    elapsed: i64,
)
    requires
        old(state).requests@.len() <= old(state).max_requests,
    ensures
        final(state).requests@.len() <= final(state).max_requests,
        old(state).max_requests > 0 ==> final(state).requests@.len() > 0,
        old(state).max_requests > 0 ==> final(state).requests@.drop_last() == (if old(state).requests@.len() < old(state).max_requests {
            old(state).requests@
        } else {
            old(state).requests@.skip(1)
        }),
        old(state).max_requests > 0 ==> ({
            let last = final(state).requests@.last();
            &&& last.id == request.id
            &&& last.tunnel_id == request.tunnel_id
            &&& last.method@ == request.method@
            &&& last.path@ == request.path@
            &&& last.request_headers@ == request.headers@
            &&& opt_text(last.request_body) == opt_text(request.body)
            &&& last.status == status
            &&& last.response_headers@ == captured_headers(headers@)
            &&& opt_text(last.response_body) == captured_body(body@)
            &&& last.duration_ms == (if elapsed < 0 {
                0
            } else {
                elapsed as u64
            })
            &&& last.timestamp == request.timestamp
        }),
        final(state).tunnels == old(state).tunnels,
        final(state).max_requests == old(state).max_requests,
{
    let CapturedRequest {
        id,
        tunnel_id,
        method,
        path,
        headers: request_headers,
        body: request_body,
        timestamp,
    } = request;
    let details = RequestDetails {
        id,
        tunnel_id,
        method,
        path,
        request_headers,
        request_body,
        status,
        response_headers: capture_headers(headers),
        response_body: capture_body(body),
        duration_ms: elapsed_millis(elapsed),
        timestamp,
    };
    let ghost before = state.requests@;
    state.add_request(details);
    proof {
        assert(before.push(details).drop_last() =~= before);
        assert(before.skip(1).push(details).drop_last() =~= before.skip(1));
    }
}

/// The answer where a request body cannot be read.
pub fn request_unreadable() -> (r: Reply)
    ensures
        r.is(400, "Failed to read request body"@),
{
    full_response(400, "Failed to read request body")
}

/// The answer where a response body cannot be read.
pub fn response_unreadable(error: &str) -> (r: Reply)
    ensures
        r.is(502, "Failed to read upstream response: "@ + error@),
{
    let mut text = "Failed to read upstream response: ".to_owned();
    text.append(error);
    Reply { status: 502, body: text }
}

/// The newest request is the first that a listing of all tunnels shows.
pub proof fn law_newest_request_is_listed_first(requests: Seq<RequestDetails>, limit: nat)
    requires
        requests.len() > 0,
        limit > 0,
    ensures
        crate::dashboard::recent(requests, None, limit, requests.len() as int).len() > 0,
        crate::dashboard::recent(requests, None, limit, requests.len() as int)[0]
            == requests.len() - 1,
{
}

/// A body below 1 MiB is captured as its text where it is UTF-8, and not at all where it is not; a
/// larger one is noted as too large.
pub proof fn law_small_bodies_are_captured_as_text(bytes: &Vec<u8>, text: Seq<char>, r: Option<String>)
    requires
        call_ensures(capture_body, (bytes,), r),
    ensures
        bytes@.len() < 1024 * 1024 && bytes@ == vstd::utf8::encode_utf8(text) ==> r is Some && (
        r->0)@ == text,
        bytes@.len() < 1024 * 1024 && !valid_utf8(bytes@) ==> r is None,
        bytes@.len() >= 1024 * 1024 ==> r is Some && (r->0)@ == "<Body too large>"@,
{
    vstd::utf8::encode_utf8_valid_utf8(text);
    vstd::utf8::encode_utf8_decode_utf8(text);
}

/// Of header fields, one more is captured under its name as the text that it spells, in the place of
/// an earlier one; one that spells no text is not.
pub proof fn law_fields_are_captured_one_by_one(
    front: &Headers,
    last: crate::http::HeaderField,
    headers: &Headers,
    front_r: Metadata,
    r: Metadata,
    text: Seq<char>,
    i: int,
)
    requires
        headers.fields@ == front.fields@.push(last),
        call_ensures(capture_headers, (front,), front_r),
        call_ensures(capture_headers, (headers,), r),
    ensures
        crate::http::spells(last.value@, text) ==> r@ == front_r@.insert(last.name@, text),
        0 <= i < last.value@.len() && last.value@[i] != 9 && !(32 <= last.value@[i] <= 126) ==> r@
            == front_r@,
{
    assert(headers@.drop_last() =~= front@);
    assert(headers@.last() == (last.name@, last.value@));
    if crate::http::spells(last.value@, text) {
        crate::http::lemma_spelled(last.value@, text);
    }
    if 0 <= i < last.value@.len() && last.value@[i] != 9 && !(32 <= last.value@[i] <= 126) {
        assert(!crate::http::visible(last.value@[i]));
    }
}

/// A request is captured with its method, its path and query, and when it arrived; and is recorded as
/// the newest, with the status and the time of its response. Only where there is no room is the
/// oldest forgotten.
pub proof fn law_captured_request_is_recorded(
    tunnel_id: u128,
    method: &str,
    path: &str,
    target: Option<&str>,
    headers: &Headers,
    body: &Vec<u8>,
    timestamp: u64,
    request: CapturedRequest,
    state: &mut DashboardState,
    status: u16,
    response_headers: &Headers,
    response_body: &Vec<u8>,
    elapsed: i64,
    body_text: Option<String>,
)
    requires
        call_ensures(
            capture_request,
            (tunnel_id, method, path, target, headers, body, timestamp),
            request,
        ),
        call_ensures(capture_body, (body,), body_text),
        old(state).requests@.len() <= old(state).max_requests,
        old(state).max_requests > 0,
        call_ensures(
            record_response,
            (state, request, status, response_headers, response_body, elapsed),
            (),
        ),
    ensures
        request.id != 0,
        target matches Some(t) ==> request.path@ == t@,
        target is None ==> request.path@ == path@,
        ({
            let after = final(state).requests@;
            let before = old(state).requests@;
            let last = after.last();
            &&& after.len() > 0
            &&& before.len() < old(state).max_requests ==> after.drop_last() == before
            &&& before.len() == old(state).max_requests ==> after.drop_last() == before.skip(1)
            &&& last.id == request.id
            &&& last.tunnel_id == tunnel_id
            &&& last.method@ == method@
            &&& last.path@ == request.path@
            &&& last.status == status
            &&& last.timestamp == timestamp
            &&& elapsed >= 0 ==> last.duration_ms == elapsed
            &&& elapsed < 0 ==> last.duration_ms == 0
            &&& last.request_body is Some <==> body_text is Some
            &&& body_text is Some ==> (last.request_body->0)@ == (body_text->0)@
        }),
        final(state).tunnels == old(state).tunnels,
{
}

} // verus!
