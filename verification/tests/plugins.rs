//! Plugins and the chain of their hooks.

use ferrotunnel::http::Headers;
use ferrotunnel::ingress::HookOutcome;
use ferrotunnel::net::{IpAddr, SocketAddr};
use ferrotunnel::plugin::{
    constant_time_token_eq, hook_outcome, needs_response_buffering, request_context, response_context,
    ChainStep, HookChain, HookResult, PluginAction, RequestContext, TokenAuthPlugin,
};

fn request(token: Option<&str>) -> Headers {
    let mut headers = Headers::new();
    if let Some(t) = token {
        headers.append("X-Tunnel-Token", t.as_bytes().to_vec());
    }
    headers
}

fn reject() -> PluginAction {
    PluginAction::Reject { status: 403, reason: "forbidden".to_string() }
}

/// Runs a chain of plugins that return these actions; what it decides, and how many ran.
fn run(actions: Vec<PluginAction>) -> (ChainStep, usize) {
    let (mut chain, mut step) = HookChain::start(actions.len());
    let mut ran = 0;
    loop {
        match step {
            ChainStep::Run(i) => {
                ran += 1;
                step = chain.after(HookResult::Returned(actions[i].clone()), "p", "on_request");
            }
            done => return (done, ran),
        }
    }
}

#[test]
fn test_valid_token_allows_request() {
    let plugin = TokenAuthPlugin::new(vec!["secret123".to_string()]);
    assert_eq!(plugin.on_request(&request(Some("secret123"))), PluginAction::Continue);
}

#[test]
fn test_valid_token_allows_request_after_near_misses() {
    let plugin = TokenAuthPlugin::new(vec![
        "secret124".to_string(),
        "secret1234".to_string(),
        "secret123".to_string(),
    ]);
    assert_eq!(plugin.on_request(&request(Some("secret123"))), PluginAction::Continue);
}

#[test]
fn test_invalid_token_rejects_request() {
    let plugin = TokenAuthPlugin::new(vec!["secret123".to_string()]);
    match plugin.on_request(&request(Some("wrong"))) {
        PluginAction::Reject { status, .. } => assert_eq!(status, 401),
        _ => panic!("Expected Reject"),
    }
}

#[test]
fn test_missing_token_rejects_request() {
    let plugin = TokenAuthPlugin::new(vec!["secret123".to_string()]);
    match plugin.on_request(&request(None)) {
        PluginAction::Reject { status, reason } => {
            assert_eq!(status, 401);
            assert_eq!(reason, "Invalid or missing X-Tunnel-Token");
        }
        _ => panic!("Expected Reject"),
    }
}

#[test]
fn the_header_of_the_token_can_be_chosen() {
    let plugin =
        TokenAuthPlugin::new(vec!["t".to_string()]).with_header_name("X-Other".to_string());
    let mut headers = Headers::new();
    headers.append("x-other", b"t".to_vec());
    assert_eq!(plugin.on_request(&headers), PluginAction::Continue);
    assert!(plugin.token_matches("t"));
    assert!(!plugin.token_matches("T"));
    assert_eq!(plugin.name(), "token-auth");
}

#[test]
fn constant_time_token_eq_requires_full_byte_and_length_match() {
    assert_eq!(constant_time_token_eq(b"secret123", b"secret123"), 1);
    assert_eq!(constant_time_token_eq(b"secret123", b"secret124"), 0);
    assert_eq!(constant_time_token_eq(b"secret123", b"secret1234"), 0);
    assert_eq!(constant_time_token_eq(b"secret1234", b"secret123"), 0);
}

#[test]
fn test_registry_executes_plugins() {
    match run(vec![reject()]).0 {
        ChainStep::Done(PluginAction::Reject { status, .. }) => assert_eq!(status, 403),
        other => panic!("Expected reject, got {other:?}"),
    }
}

#[test]
fn test_registry_empty_returns_continue() {
    assert_eq!(run(vec![]), (ChainStep::Done(PluginAction::Continue), 0));
}

#[test]
fn test_registry_passthrough_returns_continue() {
    assert_eq!(
        run(vec![PluginAction::Continue, PluginAction::Continue]),
        (ChainStep::Done(PluginAction::Continue), 2)
    );
}

#[test]
fn test_registry_needs_response_buffering_false_when_empty() {
    assert!(!needs_response_buffering(&vec![]));
}

#[test]
fn test_registry_needs_response_buffering_detects_plugin() {
    assert!(needs_response_buffering(&vec![false, true]));
    assert!(!needs_response_buffering(&vec![false, false]));
}

#[test]
fn test_registry_short_circuits_on_reject() {
    let (end, ran) = run(vec![reject(), PluginAction::Continue]);
    assert_eq!(ran, 1);
    match end {
        ChainStep::Done(PluginAction::Reject { status, .. }) => assert_eq!(status, 403),
        other => panic!("Expected reject - should short-circuit, got {other:?}"),
    }
}

#[test]
fn test_request_hook_panic_is_reported_as_error() {
    let (mut chain, _) = HookChain::start(1);
    match chain.after(HookResult::Panicked, "panic-request", "on_request") {
        ChainStep::Failed(msg) => {
            assert!(msg.contains("panic-request"));
            assert!(msg.contains("on_request"));
        }
        other => panic!("expected plugin error, got {other:?}"),
    }
}

#[test]
fn test_response_hook_panic_is_reported_as_error() {
    let (mut chain, _) = HookChain::start(1);
    match chain.after(HookResult::Panicked, "panic-response", "on_response") {
        ChainStep::Failed(msg) => {
            assert!(msg.contains("panic-response"));
            assert!(msg.contains("on_response"));
        }
        other => panic!("expected plugin error, got {other:?}"),
    }
}

#[test]
fn a_hook_that_fails_ends_the_chain() {
    let (mut chain, _) = HookChain::start(2);
    assert_eq!(
        chain.after(HookResult::Failed("boom".to_string()), "p", "on_request"),
        ChainStep::Failed("boom".to_string())
    );
    let (mut chain, _) = HookChain::start(2);
    match chain.after(HookResult::Aborted("cancelled".to_string()), "p", "on_request") {
        ChainStep::Failed(msg) => assert!(msg.contains("cancelled")),
        other => panic!("unexpected {other:?}"),
    }
}

#[test]
fn what_the_ingress_makes_of_a_decision() {
    assert_eq!(hook_outcome(Ok(PluginAction::Continue)), HookOutcome::Proceed);
    assert_eq!(
        hook_outcome(Ok(reject())),
        HookOutcome::Reject { status: 403, reason: "forbidden".to_string() }
    );
    assert_eq!(hook_outcome(Err("boom".to_string())), HookOutcome::Failed);
    let ctx = RequestContext {
        tunnel_id: "test".to_string(),
        session_id: "sess".to_string(),
        remote_addr: SocketAddr::new(IpAddr::V4(127, 0, 0, 1), 80),
        timestamp: 0,
    };
    let response = response_context(&ctx, 204, 12);
    assert_eq!(response.tunnel_id, "test");
    assert_eq!((response.status_code, response.duration_ms), (204, 12));
}

#[test]
fn each_request_has_a_session_id_of_its_own() {
    let addr = SocketAddr::new(IpAddr::V4(10, 0, 0, 1), 4000);
    let first = request_context("app", addr, 5);
    let second = request_context("app", addr, 6);
    assert_eq!(first.tunnel_id, "app");
    assert_eq!(first.remote_addr, addr);
    assert_eq!((first.timestamp, second.timestamp), (5, 6));
    assert!(uuid::Uuid::parse_str(&first.session_id).is_ok());
    assert_ne!(first.session_id, second.session_id);
}
