//! The dashboard: who may see it, what it shows, what is captured for it.

use ferrotunnel::capture::{
    capture_body, capture_headers, capture_request, elapsed_millis, record_response,
    request_unreadable, response_unreadable,
};
use ferrotunnel::dashboard::{
    asset_path, bearer_token, constant_time_eq, cookie_token, get_request, get_tunnel, hex_value,
    is_authorized, metrics_failed, percent_decode, plan_replay, query_token, replay_failed,
    request_auth_token, DashboardConfig, DashboardState, DashboardTunnelInfo, TunnelStatus,
};
use ferrotunnel::http::Headers;
use ferrotunnel::metrics::{init_metrics, metrics_enabled, MetricsState};

fn headers(fields: &[(&str, &str)]) -> Headers {
    let mut headers = Headers::new();
    for (name, value) in fields {
        headers.append(name, value.as_bytes().to_vec());
    }
    headers
}

fn tunnel(id: u128) -> DashboardTunnelInfo {
    DashboardTunnelInfo {
        id,
        subdomain: None,
        public_url: None,
        local_addr: "127.0.0.1:3000".to_string(),
        created_at: 0,
        status: TunnelStatus::Connected,
    }
}

fn record(state: &mut DashboardState, id: u128, tunnel_id: u128, method: &str) {
    let mut request = capture_request(
        tunnel_id,
        method,
        "/p",
        Some("/p?q=1"),
        &headers(&[("host", "a.test"), ("accept", "*/*"), ("Content-Length", "2")]),
        &b"hi".to_vec(),
        10,
    );
    assert_ne!(request.id, 0);
    request.id = id;
    record_response(state, request, 200, &headers(&[("x", "y")]), &b"ok".to_vec(), 5);
}

fn text_of(id: u128) -> String {
    uuid::Uuid::from_u128(id).to_string()
}

#[test]
fn constant_time_compare_matches_equal_tokens() {
    assert!(constant_time_eq(b"secret-token", b"secret-token"));
    assert!(!constant_time_eq(b"secret-token", b"secret-tokem"));
    assert!(!constant_time_eq(b"secret-token", b"secret-token-longer"));
}

#[test]
fn api_auth_rejects_missing_token() {
    assert!(!is_authorized(&headers(&[]), None, "secret-token"));
}

#[test]
fn api_auth_accepts_bearer_token() {
    let fields = headers(&[("authorization", "Bearer secret-token")]);
    assert!(is_authorized(&fields, None, "secret-token"));
    assert_eq!(bearer_token(&fields), Some("secret-token".to_string()));
    assert!(!is_authorized(&headers(&[("authorization", "Bearer other")]), None, "secret-token"));
}

#[test]
fn a_token_is_found_in_a_header_a_cookie_or_the_query() {
    assert!(is_authorized(&headers(&[("x-dashboard-token", "t")]), None, "t"));
    let cookie = headers(&[("cookie", "a=b; ferrotunnel_dashboard_token=t%20x")]);
    assert_eq!(cookie_token(&cookie), Some("t x".to_string()));
    assert!(is_authorized(&cookie, None, "t x"));
    assert_eq!(query_token(Some("a=1&token=t+x%2F")), Some("t x/".to_string()));
    assert_eq!(query_token(Some("a=1")), None);
    assert!(is_authorized(&headers(&[]), Some("token=t"), "t"));
    // A token in the request's own fields comes before one in the query.
    assert_eq!(
        request_auth_token(&headers(&[("x-dashboard-token", "h")]), Some("token=q")),
        Some("h".to_string())
    );
}

#[test]
fn percent_escapes_are_decoded() {
    assert_eq!(percent_decode("plain-text", true), "plain-text");
    assert_eq!(percent_decode("a%41%62", false), "aAb");
    assert_eq!(percent_decode("a+b", true), "a b");
    assert_eq!(percent_decode("a+b", false), "a+b");
    assert_eq!(percent_decode("100%", false), "100%");
    assert_eq!(percent_decode("%zz", false), "%zz");
    assert_eq!(percent_decode("%C3%A9", false), "é");
    assert_eq!(percent_decode("%FF", false), "\u{fffd}");
    assert_eq!(hex_value(b'f'), Some(15));
    assert_eq!(hex_value(b'F'), Some(15));
    assert_eq!(hex_value(b'7'), Some(7));
    assert_eq!(hex_value(b'g'), None);
}

#[test]
fn the_root_names_the_index() {
    assert_eq!(asset_path("/"), "index.html");
    assert_eq!(asset_path("/css/app.css"), "css/app.css");
    assert!(DashboardConfig::default().auth_token.is_none());
}

#[test]
fn tunnels_and_requests_are_found_by_id() {
    let mut state = DashboardState::new(10);
    state.add_tunnel(tunnel(7));
    record(&mut state, 1, 7, "GET");
    assert_eq!(get_tunnel(&state, &text_of(7)), Ok(0));
    assert_eq!(get_request(&state, &text_of(1)), Ok(0));
    assert_eq!(get_tunnel(&state, &text_of(8)).unwrap_err().status, 404);
    assert_eq!(get_request(&state, "not-an-id").unwrap_err().status, 400);
    assert_eq!(get_request(&state, "not-an-id").unwrap_err().code, "BAD_REQUEST");
}

#[test]
fn a_tunnel_takes_the_place_of_another_with_its_id() {
    let mut state = DashboardState::new(10);
    state.add_tunnel(tunnel(7));
    state.add_tunnel(tunnel(8));
    let mut moved = tunnel(7);
    moved.local_addr = "127.0.0.1:4000".to_string();
    state.add_tunnel(moved);
    assert_eq!(state.tunnels.len(), 2);
    assert_eq!(state.find_tunnel(7).map(|i| state.tunnels[i].local_addr.clone()),
        Some("127.0.0.1:4000".to_string()));
    assert_eq!(state.find_tunnel(8).map(|i| state.tunnels[i].local_addr.clone()),
        Some("127.0.0.1:3000".to_string()));
}

#[test]
fn the_newest_requests_are_listed_first_and_the_oldest_forgotten() {
    let mut state = DashboardState::new(2);
    record(&mut state, 1, 7, "GET");
    record(&mut state, 2, 8, "GET");
    record(&mut state, 3, 7, "GET");
    let ids = |listed: Vec<usize>| -> Vec<u128> {
        listed.into_iter().map(|i| state.requests[i].id).collect()
    };
    assert_eq!(ids(state.list_requests(None, None)), vec![3, 2]);
    assert_eq!(ids(state.list_requests(Some(1), None)), vec![3]);
    assert_eq!(ids(state.list_requests(None, Some(8))), vec![2]);
    assert_eq!(state.find_request(1), None);
}

#[test]
fn a_request_is_replayed_to_the_service_of_its_tunnel() {
    let mut state = DashboardState::new(10);
    state.add_tunnel(tunnel(7));
    record(&mut state, 1, 7, "POST");
    record(&mut state, 2, 9, "POST");
    record(&mut state, 3, 7, "NOT A METHOD");
    let plan = plan_replay(&state, &text_of(1)).unwrap();
    assert_eq!(plan.url, "http://127.0.0.1:3000/p?q=1");
    assert_eq!(plan.method, "POST");
    assert_eq!(plan.headers, vec![("accept".to_string(), "*/*".to_string())]);
    assert_eq!(plan.body.as_deref(), Some("hi"));
    assert_eq!(plan_replay(&state, &text_of(2)).unwrap_err().code, "TUNNEL_INACTIVE");
    assert_eq!(plan_replay(&state, &text_of(3)).unwrap_err().code, "INVALID_METHOD");
    assert_eq!(plan_replay(&state, &text_of(4)).unwrap_err().status, 404);
    assert!(replay_failed("refused").message.contains("refused"));
    assert!(metrics_failed().status >= 500);
}

#[test]
fn what_is_captured() {
    assert_eq!(capture_body(&b"text".to_vec()), Some("text".to_string()));
    assert_eq!(capture_body(&vec![0xff]), None);
    assert_eq!(capture_body(&vec![b'x'; 1_048_576]), Some("<Body too large>".to_string()));
    let captured = capture_headers(&headers(&[("a", "1"), ("b", "2"), ("a", "3")]));
    assert_eq!(captured.get("a"), Some("3"));
    assert_eq!(captured.get("b"), Some("2"));
    assert_eq!(elapsed_millis(12), 12);
    assert_eq!(elapsed_millis(-1), 0);
    assert_eq!(request_unreadable().status, 400);
    assert_eq!(response_unreadable("broken").status, 502);
}

#[test]
fn metrics_are_set_up_once() {
    let mut state = MetricsState::default();
    assert!(!metrics_enabled(&state));
    init_metrics(&mut state, true);
    init_metrics(&mut state, false);
    assert!(metrics_enabled(&state));
    let mut failed = MetricsState::default();
    init_metrics(&mut failed, false);
    init_metrics(&mut failed, true);
    assert!(!metrics_enabled(&failed));
}
