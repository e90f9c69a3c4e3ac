//! The request pipeline as a state machine: natural language, version,
//! allowlists, rate limit, policy, then dispatch, queue or denial. Each call
//! decides one step; the caller performs it (runs a parser or a handler,
//! reads or writes a confirmation record) and audits every terminal reply.
use vstd::prelude::*;
use crate::clock::{now_epoch_secs, now_subsec_nanos};
use crate::confirm::{confirmation_id_of, queue_confirmation, queued_reply, QueuedConfirmation};
use crate::model::{deny_reply, deny_response, error_reply, error_response, strs_view,
    ActionRequest, ActionResponse, PendingView, PolicyConfig, PolicyDecision, RequestView,
    ResponseView};
use crate::policy::{allowlist_verdict, contains_str, enforce_action_allowlists, enforce_policy,
    policy_decision};
use crate::rate_limit::{enforce_rate_limit, limit_for, rate_exempt, rate_limit_message,
    rate_step, RateLimiter};
use crate::text::str_eq;

verus! {

pub enum StepView {
    Respond(ResponseView),
    ParseIntent(Seq<char>),
    Dispatch(RequestView),
    Queue(Seq<char>, PendingView, ResponseView),
    Confirm(Seq<char>),
}

/// The next step for one request.
#[derive(Debug, Clone)]
pub enum PipelineStep {
    /// A terminal reply.
    Respond(ActionResponse),
    /// Parse this natural-language text into a request, then run that
    /// request through the pipeline; reply with `natural_language_unparsed` if it
    /// cannot be parsed.
    ParseIntent(String),
    /// Run the registered handler of this request.
    Dispatch(ActionRequest),
    /// Persist the record under its ID, then reply with its response.
    Queue(QueuedConfirmation),
    /// Read the record of this confirmation ID, then `resolve_confirmation`.
    Confirm(String),
}

impl View for PipelineStep {
    type V = StepView;

    open spec fn view(&self) -> StepView {
        match self {
            PipelineStep::Respond(r) => StepView::Respond(r@),
            PipelineStep::ParseIntent(t) => StepView::ParseIntent(t@),
            PipelineStep::Dispatch(q) => StepView::Dispatch(q@),
            PipelineStep::Queue(q) => StepView::Queue(q.id@, q.record@, q.response@),
            PipelineStep::Confirm(id) => StepView::Confirm(id@),
        }
    }
}

/// What the caller knows of the moment a request arrives.
#[derive(Debug, Clone)]
pub struct RequestContext {
    /// Seconds since the Unix epoch.
    pub now: u64,
    /// The nanoseconds of the current second, for confirmation IDs.
    pub nanos: u32,
    /// How long a queued confirmation lives, in seconds.
    pub confirm_ttl: u64,
    /// The canonical form of a `list_files` path, when it could be resolved.
    pub resolved_path: Option<String>,
}

impl RequestContext {
    /// The context of a request arriving now.
    pub fn capture(confirm_ttl: u64, resolved_path: Option<String>) -> (r: RequestContext)
        ensures
            r.confirm_ttl == confirm_ttl,
            r.resolved_path == resolved_path,
            r.nanos < 1_000_000_000,
    {
        RequestContext { now: now_epoch_secs(), nanos: now_subsec_nanos(), confirm_ttl, resolved_path }
    }
}

pub open spec fn resolved_view(ctx: RequestContext) -> Option<Seq<char>> {
    match ctx.resolved_path {
        Some(p) => Some(p@),
        None => None,
    }
}

/// The step decided before the rate limiter is consulted, if any.
pub open spec fn early_step(policy: PolicyConfig, req: RequestView, ctx: RequestContext) -> Option<
    StepView,
> {
    if req.name == "confirm"@ {
        match req.payload {
            Some(id) => Some(StepView::Confirm(id)),
            None => Some(StepView::Respond(error_reply("confirm"@, "missing confirmation id"@))),
        }
    } else if req.name == "natural_language"@ {
        match req.payload {
            Some(text) => Some(StepView::ParseIntent(text)),
            None => Some(
                StepView::Respond(
                    error_reply("natural_language"@, "unable to parse natural language request"@),
                ),
            ),
        }
    } else if (match req.version {
        Some(v) => v != 1,
        None => false,
    }) {
        Some(StepView::Respond(error_reply(req.name, "unsupported request version"@)))
    } else {
        match allowlist_verdict(policy, req, resolved_view(ctx)) {
            Err(reason) => Some(StepView::Respond(deny_reply(req.name, reason))),
            Ok(()) => None,
        }
    }
}

/// The step decided by the policy once the rate limiter has let a request by.
pub open spec fn policy_step(
    policy: PolicyConfig,
    registry: Seq<Seq<char>>,
    req: RequestView,
    ctx: RequestContext,
) -> StepView {
    let d = policy_decision(policy, req.name, req.payload);
    if d == PolicyDecision::Allow {
        if registry.contains(req.name) {
            StepView::Dispatch(req)
        } else {
            StepView::Respond(error_reply(req.name, "no handler registered"@))
        }
    } else if d == PolicyDecision::RequireConfirmation {
        let id = confirmation_id_of(ctx.now, ctx.nanos);
        StepView::Queue(
            id,
            PendingView {
                created_at: ctx.now,
                expires_at: (ctx.now + ctx.confirm_ttl) as u64,
                request: req,
            },
            queued_reply(id),
        )
    } else {
        StepView::Respond(deny_reply(req.name, "action denied by policy"@))
    }
}

/// Decides the next step for `request`. `registry` names the actions that
/// have a handler. The allowlists run before the rate limiter, which runs
/// before the policy: a request denied by an allowlist leaves every bucket
/// as it was.
pub fn handle_request(
    policy: &PolicyConfig,
    registry: &Vec<String>,
    limiter: &mut RateLimiter,
    request: &ActionRequest,
    ctx: &RequestContext,
) -> (r: PipelineStep)
    requires
        old(limiter).wf(),
        ctx.now + ctx.confirm_ttl <= u64::MAX,
    ensures
        final(limiter).wf(),
        early_step(*policy, request@, *ctx) is Some ==> {
            &&& r@ == early_step(*policy, request@, *ctx)->0
            &&& forall|a: Seq<char>| #[trigger] final(limiter).bucket(a) == old(limiter).bucket(a)
        },
        early_step(*policy, request@, *ctx) is None && rate_exempt(*policy, request@.name) ==> {
            &&& r@ == policy_step(*policy, strs_view(registry@), request@, *ctx)
            &&& forall|a: Seq<char>| #[trigger] final(limiter).bucket(a) == old(limiter).bucket(a)
        },
        early_step(*policy, request@, *ctx) is None && !rate_exempt(*policy, request@.name) ==> {
            let (admitted, after) = rate_step(
                old(limiter).bucket(request@.name),
                limit_for(*policy, request@.name),
                ctx.now,
            );
            &&& final(limiter).bucket(request@.name) == after
            &&& forall|a: Seq<char>|
                a != request@.name ==> #[trigger] final(limiter).bucket(a) == old(limiter).bucket(
                    a,
                )
            &&& admitted ==> r@ == policy_step(*policy, strs_view(registry@), request@, *ctx)
            &&& !admitted ==> r@ == StepView::Respond(
                deny_reply(request@.name, rate_limit_message(request@.name)),
            )
        },
{
    let name = request.name.as_str();
    if str_eq(name, "confirm") {
        return match &request.payload {
            Some(id) => PipelineStep::Confirm(id.clone()),
            None => PipelineStep::Respond(error_response("confirm", "missing confirmation id")),
        };
    }
    if str_eq(name, "natural_language") {
        return match &request.payload {
            Some(text) => PipelineStep::ParseIntent(text.clone()),
            None => PipelineStep::Respond(natural_language_unparsed()),
        };
    }
    let unsupported = match request.version {
        Some(v) => v != 1,
        None => false,
    };
    if unsupported {
        return PipelineStep::Respond(error_response(name, "unsupported request version"));
    }
    match enforce_action_allowlists(policy, request, &ctx.resolved_path) {
        Err(reason) => {
            return PipelineStep::Respond(deny_response(name, reason.as_str()));
        },
        Ok(()) => {},
    }
    match enforce_rate_limit(limiter, policy, request, ctx.now) {
        Err(reason) => {
            return PipelineStep::Respond(deny_response(name, reason.as_str()));
        },
        Ok(()) => {},
    }
    let decision = enforce_policy(policy, request);
    if decision == PolicyDecision::Allow {
        if contains_str(registry, name) {
            PipelineStep::Dispatch(request.copied())
        } else {
            PipelineStep::Respond(error_response(name, "no handler registered"))
        }
    } else if decision == PolicyDecision::RequireConfirmation {
        PipelineStep::Queue(queue_confirmation(request, ctx.now, ctx.confirm_ttl, ctx.nanos))
    } else {
        PipelineStep::Respond(deny_response(name, "action denied by policy"))
    }
}

/// The reply when no parser could turn natural language into a request.
pub fn natural_language_unparsed() -> (r: ActionResponse)
    ensures
        r@ == error_reply("natural_language"@, "unable to parse natural language request"@),
{
    error_response("natural_language", "unable to parse natural language request")
}

/// A request refused by an allowlist is answered with the allowlist's
/// denial before the rate limiter is consulted, so by `handle_request` its
/// buckets stay as they were.
pub proof fn lemma_allowlist_before_rate_limit(
    policy: PolicyConfig,
    req: RequestView,
    ctx: RequestContext,
)
    requires
        req.name != "confirm"@,
        req.name != "natural_language"@,
        req.version is None || req.version == Some(1u32),
        allowlist_verdict(policy, req, resolved_view(ctx)) is Err,
    ensures
        early_step(policy, req, ctx) == Some(
            StepView::Respond(
                deny_reply(req.name, allowlist_verdict(policy, req, resolved_view(ctx))->Err_0),
            ),
        ),
{
}

} // verus!
