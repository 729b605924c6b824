//! Plugins: what they may decide, how a chain of them is run, and the token check.
//!
//! Hooks are run by whoever owns the plugins, one after the other; the chain decides after
//! each of them how it goes on.

use vstd::prelude::*;
use vstd::utf8::encode_utf8;

use crate::auth::{constant_time_choice, flag, matches_any_token};
use crate::handshake::{id_text, new_uuid, uuid_text};
use crate::http::{Headers, field_text};
use crate::ingress::HookOutcome;
use crate::net::SocketAddr;
use crate::text::{lower_text, to_lower};

verus! {

/// Action that a plugin can return.
#[derive(Debug, Clone, PartialEq, Eq)]
pub enum PluginAction {
    /// Continue processing (allow other plugins to run).
    Continue,
    /// Reject the request with status and reason.
    Reject { status: u16, reason: String },
    /// Reserved for modification in place. The chain stops on it as on any other action but
    /// `Continue`.
    Modify {  },
    /// Respond in the upstream's place.
    Respond { status: u16, headers: Vec<(String, String)>, body: Vec<u8> },
}

/// Request context passed to plugins.
#[derive(Debug, Clone, PartialEq, Eq)]
pub struct RequestContext {
    pub tunnel_id: String,
    pub session_id: String,
    pub remote_addr: SocketAddr,
    /// Milliseconds since the Unix epoch.
    pub timestamp: u64,
}

/// Response context passed to plugins.
#[derive(Debug, Clone, PartialEq, Eq)]
pub struct ResponseContext {
    pub tunnel_id: String,
    pub session_id: String,
    pub status_code: u16,
    pub duration_ms: u64,
}

/// Which way the data of a stream flows.
#[derive(Debug, Clone, Copy, PartialEq, Eq, Structural)]
pub enum StreamDirection {
    /// From the Internet to the local service.
    Inbound,
    /// From the local service to the Internet.
    Outbound,
}

/// Stream context for data plugins.
#[derive(Debug, Clone, PartialEq, Eq)]
pub struct StreamContext {
    pub tunnel_id: String,
    pub stream_id: u32,
    pub direction: StreamDirection,
}

/// The context of a request that arrived at a moment, in milliseconds since the Unix epoch,
/// under a new session id.
pub fn request_context(tunnel_id: &str, remote_addr: SocketAddr, timestamp: u64) -> (r:
    RequestContext)
    ensures
        r.tunnel_id@ == tunnel_id@,
        exists|id: u128| id != 0 && r.session_id@ == #[trigger] id_text(id),
        r.remote_addr == remote_addr,
        r.timestamp == timestamp,
{
    let id: u128 = new_uuid();
    RequestContext {
        tunnel_id: tunnel_id.to_owned(),
        session_id: uuid_text(id),
        remote_addr,
        timestamp,
    }
}

/// The context of a response, from that of its request.
pub fn response_context(ctx: &RequestContext, status_code: u16, elapsed_millis: u128) -> (r:
    ResponseContext)
    ensures
        r.tunnel_id@ == ctx.tunnel_id@,
        r.session_id@ == ctx.session_id@,
        r.status_code == status_code,
        r.duration_ms == (if elapsed_millis <= u64::MAX {
            elapsed_millis as u64
        } else {
            u64::MAX
        }),
{
    ResponseContext {
        tunnel_id: ctx.tunnel_id.clone(),
        session_id: ctx.session_id.clone(),
        status_code,
        duration_ms: crate::handshake::clamp_u128_to_u64(elapsed_millis),
    }
}

/// How running a plugin's hook ended.
#[derive(Debug, PartialEq)]
pub enum HookResult {
    /// The plugin returned an action.
    Returned(PluginAction),
    /// The plugin returned an error.
    Failed(String),
    /// The plugin panicked.
    Panicked,
    /// The hook could not be run to its end.
    Aborted(String),
}

/// How a chain of hooks goes on.
#[derive(Debug, PartialEq)]
pub enum ChainStep {
    /// Run the hook of this plugin.
    Run(usize),
    /// The chain is done; this is what it decided.
    Done(PluginAction),
    /// The chain failed.
    Failed(String),
}

/// A run of the hooks of all plugins, in the order of their registration.
#[derive(Debug, Clone, Copy, PartialEq, Eq, Structural)]
pub struct HookChain {
    /// The number of plugins.
    pub count: usize,
    /// The plugin whose hook is run.
    pub current: usize,
}

/// The message about a plugin whose hook panicked.
pub open spec fn panic_message(plugin: Seq<char>, hook: Seq<char>) -> Seq<char> {
    "plugin `"@ + plugin + "` panicked during "@ + hook + " hook"@
}

/// The message about a plugin whose hook could not be run.
pub open spec fn abort_message(plugin: Seq<char>, hook: Seq<char>, error: Seq<char>) -> Seq<char> {
    "plugin `"@ + plugin + "` "@ + hook + " hook task failed: "@ + error
}

impl HookChain {
    /// Starts a run over `count` plugins; without plugins it is done at once.
    pub fn start(count: usize) -> (r: (HookChain, ChainStep))
        ensures
            r.0 == (HookChain { count, current: 0 }),
            r.1 == (if count > 0 {
                ChainStep::Run(0)
            } else {
                ChainStep::Done(PluginAction::Continue)
            }),
    {
        let chain = HookChain { count, current: 0 };
        if count > 0 {
            (chain, ChainStep::Run(0))
        } else {
            (chain, ChainStep::Done(PluginAction::Continue))
        }
    }

    /// Goes on after the hook of the current plugin. Only `Continue` lets the next plugin run;
    /// any other action is what the chain decides, and a failure ends it.
    pub fn after(&mut self, result: HookResult, plugin: &str, hook: &str) -> (r: ChainStep)
        requires
            old(self).current < old(self).count,
        ensures
            final(self).count == old(self).count,
            match result {
                HookResult::Returned(action) => (*final(self), r) == after_action(
                    *old(self),
                    action,
                ),
                HookResult::Failed(message) => final(self).current == old(self).current && r
                    == ChainStep::Failed(message),
                HookResult::Panicked => final(self).current == old(self).current && (
                r matches ChainStep::Failed(m) && m@ == panic_message(plugin@, hook@)),
                HookResult::Aborted(e) => final(self).current == old(self).current && (
                r matches ChainStep::Failed(m) && m@ == abort_message(plugin@, hook@, e@)),
            },
    {
        match result {
            HookResult::Returned(action) => match action {
                PluginAction::Continue => {
                    self.current = self.current + 1;
                    if self.current < self.count {
                        ChainStep::Run(self.current)
                    } else {
                        ChainStep::Done(PluginAction::Continue)
                    }
                },
                other => ChainStep::Done(other),
            },
            HookResult::Failed(message) => ChainStep::Failed(message),
            HookResult::Panicked => {
                let mut text = "plugin `".to_owned();
                text.append(plugin);
                text.append("` panicked during ");
                text.append(hook);
                text.append(" hook");
                ChainStep::Failed(text)
            },
            HookResult::Aborted(error) => {
                let mut text = "plugin `".to_owned();
                text.append(plugin);
                text.append("` ");
                text.append(hook);
                text.append(" hook task failed: ");
                text.append(error.as_str());
                ChainStep::Failed(text)
            },
        }
    }
}

/// How a chain goes on after its current plugin returned an action.
pub open spec fn after_action(chain: HookChain, action: PluginAction) -> (HookChain, ChainStep) {
    if action is Continue {
        let next = HookChain { current: (chain.current + 1) as usize, ..chain };
        if next.current < next.count {
            (next, ChainStep::Run(next.current))
        } else {
            (next, ChainStep::Done(PluginAction::Continue))
        }
    } else {
        (chain, ChainStep::Done(action))
    }
}

/// How a chain ends from its current plugin on, and where, given the action that each plugin
/// returns if its hook is run.
pub open spec fn chain_end(chain: HookChain, actions: Seq<PluginAction>) -> (HookChain, ChainStep)
    decreases chain.count - chain.current,
{
    if chain.current >= chain.count {
        (chain, ChainStep::Done(PluginAction::Continue))
    } else {
        let (next, step) = after_action(chain, actions[chain.current as int]);
        if step is Run {
            chain_end(next, actions)
        } else {
            (next, step)
        }
    }
}

/// A chain ends at the first plugin that does not return `Continue`: what that plugin returned
/// is what the chain decides, and no hook behind it is run.
pub proof fn law_chain_stops_at_first_decision(
    chain: HookChain,
    actions: Seq<PluginAction>,
    i: int,
)
    requires
        actions.len() == chain.count,
        chain.current <= i < actions.len(),
        !(actions[i] is Continue),
        forall|j: int| chain.current <= j < i ==> (#[trigger] actions[j]) is Continue,
    ensures
        chain_end(chain, actions) == (
            HookChain { current: i as usize, ..chain },
            ChainStep::Done(actions[i]),
        ),
    decreases chain.count - chain.current,
{
    if chain.current < i {
        assert(actions[chain.current as int] is Continue);
        let next = HookChain { current: (chain.current + 1) as usize, ..chain };
        law_chain_stops_at_first_decision(next, actions, i);
    }
}

/// Where every plugin returns `Continue`, all hooks are run and the chain continues.
pub proof fn law_chain_continues_when_all_do(chain: HookChain, actions: Seq<PluginAction>)
    requires
        actions.len() == chain.count,
        chain.current <= chain.count,
        forall|j: int| chain.current <= j < actions.len() ==> (#[trigger] actions[j]) is Continue,
    ensures
        chain_end(chain, actions) == (
            HookChain { current: chain.count, ..chain },
            ChainStep::Done(PluginAction::Continue),
        ),
    decreases chain.count - chain.current,
{
    if chain.current < chain.count {
        assert(actions[chain.current as int] is Continue);
        let next = HookChain { current: (chain.current + 1) as usize, ..chain };
        law_chain_continues_when_all_do(next, actions);
    }
}

/// What the ingress makes of what a chain decided.
pub fn hook_outcome(decided: Result<PluginAction, String>) -> (r: HookOutcome)
    ensures
        match decided {
            Ok(PluginAction::Continue) | Ok(PluginAction::Modify { .. }) => r
                == HookOutcome::Proceed,
            Ok(PluginAction::Reject { status, reason }) => r == (HookOutcome::Reject {
                status,
                reason,
            }),
            Ok(PluginAction::Respond { status, headers, body }) => r == (HookOutcome::Respond {
                status,
                headers,
                body,
            }),
            Err(_) => r == HookOutcome::Failed,
        },
{
    match decided {
        Ok(action) => match action {
            PluginAction::Continue => HookOutcome::Proceed,
            PluginAction::Modify {  } => HookOutcome::Proceed,
            PluginAction::Reject { status, reason } => HookOutcome::Reject { status, reason },
            PluginAction::Respond { status, headers, body } => HookOutcome::Respond {
                status,
                headers,
                body,
            },
        },
        Err(_) => HookOutcome::Failed,
    }
}

/// Whether one of a list of wishes is one.
pub open spec fn some_wish(wishes: Seq<bool>) -> bool {
    exists|i: int| 0 <= i < wishes.len() && #[trigger] wishes[i]
}

/// Whether some plugin needs to see response bodies whole.
pub fn needs_response_buffering(wishes: &Vec<bool>) -> (r: bool)
    ensures
        r == some_wish(wishes@),
        r == exists|i: int| 0 <= i < wishes@.len() && #[trigger] wishes@[i],
{
    let mut i: usize = 0;
    while i < wishes.len()
        invariant
            i <= wishes@.len(),
            forall|j: int| 0 <= j < i ==> !#[trigger] wishes@[j],
        decreases wishes@.len() - i,
    {
        if wishes[i] {
            return true;
        }
        i += 1;
    }
    false
}

/// Compares a token with the expected one in constant time: one where they are equal in every
/// byte and in length, zero where not.
pub fn constant_time_token_eq(expected: &[u8], presented: &[u8]) -> (r: u8)
    ensures
        r == flag(expected@ == presented@),
{
    constant_time_choice(expected, presented)
}

/// Token-based authentication plugin.
#[derive(Debug, Clone)]
pub struct TokenAuthPlugin {
    pub valid_tokens: Vec<String>,
    pub header_name: String,
}

impl TokenAuthPlugin {
    /// Whether a text is one of the valid tokens.
    pub open spec fn accepts(&self, presented: Seq<char>) -> bool {
        exists|i: int| 0 <= i < self.valid_tokens@.len() && #[trigger] self.valid_tokens@[i]@ == presented
    }

    /// Creates a plugin that accepts the given tokens in the default header.
    pub fn new(tokens: Vec<String>) -> (r: TokenAuthPlugin)
        ensures
            r.valid_tokens == tokens,
            r.header_name@ == "X-Tunnel-Token"@,
    {
        TokenAuthPlugin { valid_tokens: tokens, header_name: "X-Tunnel-Token".to_owned() }
    }

    /// Looks for the token in another header.
    pub fn with_header_name(self, name: String) -> (r: TokenAuthPlugin)
        ensures
            r.valid_tokens == self.valid_tokens,
            r.header_name == name,
    {
        TokenAuthPlugin { valid_tokens: self.valid_tokens, header_name: name }
    }

    /// The plugin's name.
    pub fn name(&self) -> (r: &'static str)
        ensures
            r@ == "token-auth"@,
    {
        "token-auth"
    }

    /// Whether a text is one of the valid tokens; all of them are compared.
    pub fn token_matches(&self, presented: &str) -> (r: bool)
        ensures
            r == self.accepts(presented@),
    {
        let r = matches_any_token(&self.valid_tokens, presented.as_bytes());
        proof {
            vstd::utf8::encode_utf8_decode_utf8(presented@);
            if r {
                let i = choose|i: int|
                    0 <= i < self.valid_tokens@.len() && encode_utf8(
                        #[trigger] self.valid_tokens@[i]@,
                    ) == encode_utf8(presented@);
                vstd::utf8::encode_utf8_decode_utf8(self.valid_tokens@[i]@);
                assert(self.valid_tokens@[i]@ == presented@);
            }
            if self.accepts(presented@) {
                let i = choose|i: int|
                    0 <= i < self.valid_tokens@.len() && #[trigger] self.valid_tokens@[i]@
                        == presented@;
                assert(encode_utf8(self.valid_tokens@[i]@) == encode_utf8(presented@));
            }
        }
        r
    }

    /// Lets a request with a valid token pass, and rejects any other.
    pub fn on_request(&self, headers: &Headers) -> (r: PluginAction)
        ensures
            ({
                let presented = field_text(headers@, lower_text(self.header_name@));
                if presented is Some && self.accepts(presented->0) {
                    r == PluginAction::Continue
                } else {
                    r matches PluginAction::Reject { status, reason } && status == 401 && reason@
                        == "Invalid or missing "@ + self.header_name@
                }
            }),
    {
        let name = to_lower(self.header_name.as_str());
        if let Some(token) = headers.get_text(name.as_str()) {
            if self.token_matches(token.as_str()) {
                return PluginAction::Continue;
            }
        }
        let mut reason = "Invalid or missing ".to_owned();
        reason.append(self.header_name.as_str());
        PluginAction::Reject { status: 401, reason }
    }
}

/// A chain starts with the first plugin, where there is one. A plugin that continues hands on to the
/// next, and the last one ends the chain with leave to continue; any other action ends it as that
/// action, and a failure as that failure.
pub proof fn law_chain_hands_on_or_ends(
    count: usize,
    started: (HookChain, ChainStep),
    chain: &mut HookChain,
    result: HookResult,
    plugin: &str,
    hook: &str,
    r: ChainStep,
)
    requires
        call_ensures(HookChain::start, (count,), started),
        old(chain).current < old(chain).count,
        call_ensures(HookChain::after, (chain, result, plugin, hook), r),
    ensures
        started.0.count == count && started.0.current == 0,
        count > 0 ==> started.1 == ChainStep::Run(0),
        count == 0 ==> started.1 == ChainStep::Done(PluginAction::Continue),
        final(chain).count == old(chain).count,
        result == HookResult::Returned(PluginAction::Continue) ==> {
            &&& final(chain).current == old(chain).current + 1
            &&& old(chain).current + 1 < old(chain).count ==> r == ChainStep::Run(
                final(chain).current,
            )
            &&& old(chain).current + 1 == old(chain).count ==> r == ChainStep::Done(
                PluginAction::Continue,
            )
        },
        result matches HookResult::Returned(action) ==> !(action is Continue) ==> r
            == ChainStep::Done(action),
        result matches HookResult::Failed(m) ==> r == ChainStep::Failed(m),
        result == HookResult::Panicked ==> r is Failed && r->Failed_0@ == "plugin `"@ + plugin@
            + "` panicked during "@ + hook@ + " hook"@,
        result is Aborted ==> r is Failed,
{
}

/// What a chain decides is what the ingress does: a rejection and an answer as they are, a failure as
/// a failure, and all else goes on.
pub proof fn law_decision_is_handed_to_the_ingress(
    decided: Result<PluginAction, String>,
    r: HookOutcome,
)
    requires
        call_ensures(hook_outcome, (decided,), r),
    ensures
        r == HookOutcome::Proceed <==> decided is Ok && (decided->Ok_0 is Continue || decided->Ok_0
            is Modify),
        r == HookOutcome::Failed <==> decided is Err,
        decided matches Ok(PluginAction::Reject { status, reason }) ==> r == (HookOutcome::Reject {
            status,
            reason,
        }),
        decided matches Ok(PluginAction::Respond { status, headers, body }) ==> r == (
        HookOutcome::Respond { status, headers, body }),
{
}

/// Responses are buffered exactly where some plugin wishes to see them whole.
pub proof fn law_one_wish_is_enough(wishes: &Vec<bool>, i: int, r: bool)
    requires
        call_ensures(needs_response_buffering, (wishes,), r),
    ensures
        0 <= i < wishes@.len() && wishes@[i] ==> r,
        (forall|j: int| 0 <= j < wishes@.len() ==> !#[trigger] wishes@[j]) ==> !r,
{
}

/// A request passes exactly where the field that the plugin looks at, by default the tunnel token,
/// spells one of the valid tokens; any other is rejected with 401.
pub proof fn law_valid_token_passes(
    tokens: Vec<String>,
    plugin: TokenAuthPlugin,
    own: &TokenAuthPlugin,
    headers: &Headers,
    name: Seq<char>,
    presented: Seq<char>,
    i: int,
    r: PluginAction,
)
    requires
        call_ensures(TokenAuthPlugin::new, (tokens,), plugin),
        call_ensures(TokenAuthPlugin::on_request, (own, headers), r),
        name.len() == own.header_name@.len(),
        forall|k: int|
            #![trigger name[k]]
            0 <= k < name.len() ==> name[k] as int == own.header_name@[k] as int + (if 65
                <= own.header_name@[k] as int <= 90 {
                32int
            } else {
                0
            }),
    ensures
        plugin.header_name@ == "X-Tunnel-Token"@,
        plugin.valid_tokens@ == tokens@,
        crate::http::has_field(headers, name, presented) && 0 <= i < own.valid_tokens@.len()
            && own.valid_tokens@[i]@ == presented ==> r == PluginAction::Continue,
        crate::http::has_field(headers, name, presented) && (forall|j: int|
            0 <= j < own.valid_tokens@.len() ==> #[trigger] own.valid_tokens@[j]@ != presented)
            ==> r is Reject && r->Reject_status == 401,
        crate::http::lacks_field(headers, name) ==> r is Reject && r->Reject_status == 401,
{
    assert(lower_text(own.header_name@) =~= name);
    crate::http::lemma_has_field(headers, name, presented);
    if 0 <= i < own.valid_tokens@.len() && own.valid_tokens@[i]@ == presented {
        assert(own.accepts(presented));
    }
}

/// The context of a response is that of its request, with the status and the time that it took.
pub proof fn law_contexts_belong_together(
    tunnel_id: &str,
    addr: SocketAddr,
    timestamp: u64,
    request: RequestContext,
    status: u16,
    elapsed: u128,
    response: ResponseContext,
)
    requires
        call_ensures(request_context, (tunnel_id, addr, timestamp), request),
        call_ensures(response_context, (&request, status, elapsed), response),
    ensures
        request.tunnel_id@ == tunnel_id@,
        request.remote_addr == addr,
        request.timestamp == timestamp,
        response.tunnel_id@ == tunnel_id@,
        response.session_id@ == request.session_id@,
        response.status_code == status,
        elapsed <= u64::MAX ==> response.duration_ms == elapsed,
{
}

/// A presented token is accepted exactly where it is one of the valid ones; and tokens are the same
/// exactly where all their bytes are.
pub proof fn law_only_valid_tokens_match(
    plugin: &TokenAuthPlugin,
    presented: &str,
    i: int,
    r: bool,
    expected: &[u8],
    given: &[u8],
    same: u8,
    owned: TokenAuthPlugin,
    name: String,
    renamed: TokenAuthPlugin,
)
    requires
        call_ensures(TokenAuthPlugin::token_matches, (plugin, presented), r),
        call_ensures(constant_time_token_eq, (expected, given), same),
        call_ensures(TokenAuthPlugin::with_header_name, (owned, name), renamed),
    ensures
        0 <= i < plugin.valid_tokens@.len() && plugin.valid_tokens@[i]@ == presented@ ==> r,
        (forall|j: int|
            0 <= j < plugin.valid_tokens@.len() ==> #[trigger] plugin.valid_tokens@[j]@
                != presented@) ==> !r,
        same == 1 <==> expected@ == given@,
        same == 0 <==> expected@ != given@,
        renamed.header_name@ == name@,
        renamed.valid_tokens@ == owned.valid_tokens@,
{
}

/// Every request can be shown to the token check, and every decision handed to the ingress.
pub proof fn law_any_request_can_be_checked(
    plugin: &TokenAuthPlugin,
    headers: &Headers,
    decided: Result<PluginAction, String>,
)
    ensures
        call_requires(TokenAuthPlugin::on_request, (plugin, headers)),
        call_requires(hook_outcome, (decided,)),
{
}

} // verus!
