use ai_distro_agent::audit::{action_outcome_event, append_audit_record, AuditChainState};
use ai_distro_agent::confirm::{resolve_confirmation, ConfirmLookup};
use ai_distro_agent::handlers::{action_registry, handle_package_install, handle_ping, HandlerStep};
use ai_distro_agent::model::{ActionRequest, ActionResponse, PolicyConfig};
use ai_distro_agent::pipeline::{handle_request, natural_language_unparsed, PipelineStep, RequestContext};
use ai_distro_agent::rate_limit::{enforce_rate_limit, RateLimiter};

fn request(name: &str, payload: Option<&str>) -> ActionRequest {
    ActionRequest {
        version: None,
        name: name.to_string(),
        payload: payload.map(|p| p.to_string()),
    }
}

fn ctx(now: u64) -> RequestContext {
    RequestContext { now, nanos: 42, confirm_ttl: 300, resolved_path: None }
}

fn reply(step: PipelineStep) -> ActionResponse {
    match step {
        PipelineStep::Respond(r) => r,
        other => panic!("expected a reply, got {:?}", other),
    }
}

/// Runs a handler to its reply, answering every command with success.
fn run_ok(handler: fn(&ActionRequest, &Vec<Result<String, String>>) -> HandlerStep, req: &ActionRequest) -> ActionResponse {
    let mut done: Vec<Result<String, String>> = Vec::new();
    loop {
        match handler(req, &done) {
            HandlerStep::Reply(r) => return r,
            HandlerStep::Run(_) | HandlerStep::AppendNote(_) => done.push(Ok(String::new())),
        }
        assert!(done.len() < 50);
    }
}

#[test]
fn rate_limit_blocks_second_request_when_limit_is_one() {
    let mut policy = PolicyConfig::default();
    policy
        .constraints
        .set_rate_limit_override("rate_limit_test_action", 1);

    let req = ActionRequest {
        version: Some(1),
        name: "rate_limit_test_action".to_string(),
        payload: None,
    };
    let mut limiter = RateLimiter::new();
    let now = ai_distro_agent::clock::now_epoch_secs();
    assert!(enforce_rate_limit(&mut limiter, &policy, &req, now).is_ok());
    assert!(enforce_rate_limit(&mut limiter, &policy, &req, now).is_err());
}

#[test]
fn rate_limit_window_slides() {
    let mut policy = PolicyConfig::default();
    policy.constraints.set_rate_limit_override("ping", 2);
    let req = request("ping", None);
    let mut limiter = RateLimiter::new();
    assert!(enforce_rate_limit(&mut limiter, &policy, &req, 1000).is_ok());
    assert!(enforce_rate_limit(&mut limiter, &policy, &req, 1030).is_ok());
    assert_eq!(
        enforce_rate_limit(&mut limiter, &policy, &req, 1060),
        Err("rate limit exceeded for action 'ping'".to_string())
    );
    assert_eq!(limiter.timestamps("ping"), vec![1000, 1030]);
    assert!(enforce_rate_limit(&mut limiter, &policy, &req, 1061).is_ok());
    assert_eq!(limiter.timestamps("ping"), vec![1030, 1061]);
    assert!(enforce_rate_limit(&mut limiter, &policy, &req, 1200).is_ok());
    assert_eq!(limiter.timestamps("ping"), vec![1200]);
}

#[test]
fn rate_limit_zero_and_natural_language_are_exempt() {
    let mut policy = PolicyConfig::default();
    policy.constraints.rate_limit_per_minute_default = 1;
    policy.constraints.set_rate_limit_override("ping", 0);
    let mut limiter = RateLimiter::new();
    for _ in 0..5 {
        assert!(enforce_rate_limit(&mut limiter, &policy, &request("ping", None), 10).is_ok());
        assert!(enforce_rate_limit(&mut limiter, &policy, &request("natural_language", Some("x")), 10).is_ok());
    }
    assert!(limiter.timestamps("ping").is_empty());
    assert!(enforce_rate_limit(&mut limiter, &policy, &request("open_app", None), 10).is_ok());
    assert!(enforce_rate_limit(&mut limiter, &policy, &request("open_app", None), 10).is_err());
    policy.constraints.set_rate_limit_override("ping", 3);
    policy.constraints.set_rate_limit_override("ping", 0);
    assert!(enforce_rate_limit(&mut limiter, &policy, &request("ping", None), 10).is_ok());
    assert!(limiter.timestamps("ping").is_empty());
}

#[test]
fn ping_end_to_end_is_ok_and_audited() {
    let policy = PolicyConfig::default();
    let registry = action_registry();
    let mut limiter = RateLimiter::new();
    let req = request("ping", None);
    let step = handle_request(&policy, &registry, &mut limiter, &req, &ctx(100));
    let resp = match step {
        PipelineStep::Dispatch(r) => handle_ping(&r),
        other => panic!("expected dispatch, got {:?}", other),
    };
    assert_eq!(resp.status, "ok");
    assert_eq!(resp.message, Some("pong".to_string()));

    let mut state = AuditChainState { seq: 7, last_hash: "abc".to_string() };
    let event = action_outcome_event(&req, &resp, 100);
    let record = append_audit_record(&mut state, &event);
    assert_eq!(record.seq, 8);
    assert_eq!(state.seq, 8);
    assert_eq!(record.prev_hash, "abc");
    assert!(record.line.contains("\"type\":\"action_outcome\""));
    assert!(record.line.contains("\"action\":\"ping\""));
    assert!(record.line.contains("\"status\":\"ok\""));
    assert!(record.line.contains("\"seq\":8"));
    assert!(record.line.ends_with('\n'));
}

#[test]
fn unsafe_url_is_denied() {
    let policy = PolicyConfig::default();
    let mut limiter = RateLimiter::new();
    let req = request("open_url", Some("file:///etc/passwd"));
    let resp = reply(handle_request(&policy, &action_registry(), &mut limiter, &req, &ctx(1)));
    assert_eq!(resp.status, "deny");
    assert_eq!(resp.message, Some("unsupported or unsafe url".to_string()));
}

#[test]
fn url_allowlist_suffix_match() {
    let mut policy = PolicyConfig::default();
    policy.constraints.open_url_allowed_domains = vec!["openai.com".to_string()];
    let mut limiter = RateLimiter::new();
    let registry = action_registry();
    let req = request("open_url", Some("https://docs.openai.com/x"));
    match handle_request(&policy, &registry, &mut limiter, &req, &ctx(1)) {
        PipelineStep::Dispatch(r) => {
            let resp = run_ok(ai_distro_agent::handlers::handle_open_url, &r);
            assert_eq!(resp.status, "ok");
        }
        other => panic!("expected dispatch, got {:?}", other),
    }
    let req = request("open_url", Some("https://evil.com"));
    let resp = reply(handle_request(&policy, &registry, &mut limiter, &req, &ctx(1)));
    assert_eq!(resp.status, "deny");
    assert_eq!(resp.message, Some("url domain denied by policy".to_string()));
}

#[test]
fn allowlist_denial_leaves_rate_buckets_alone() {
    let mut policy = PolicyConfig::default();
    policy.constraints.rate_limit_per_minute_default = 1;
    policy.constraints.open_app_allowed = vec!["firefox".to_string()];
    let mut limiter = RateLimiter::new();
    let registry = action_registry();
    for _ in 0..3 {
        let resp = reply(handle_request(&policy, &registry, &mut limiter, &request("open_app", Some("gimp")), &ctx(5)));
        assert_eq!(resp.message, Some("app denied by policy".to_string()));
    }
    assert!(limiter.timestamps("open_app").is_empty());
    let step = handle_request(&policy, &registry, &mut limiter, &request("open_app", Some("firefox")), &ctx(5));
    assert!(matches!(step, PipelineStep::Dispatch(_)));
}

#[test]
fn confirmation_flow_is_single_use() {
    let mut policy = PolicyConfig::default();
    policy.constraints.package_install_confirm = vec!["docker".to_string()];
    let registry = action_registry();
    let mut limiter = RateLimiter::new();
    let req = request("package_install", Some(" vim , docker "));
    let queued = match handle_request(&policy, &registry, &mut limiter, &req, &ctx(1000)) {
        PipelineStep::Queue(q) => q,
        other => panic!("expected queue, got {:?}", other),
    };
    assert_eq!(queued.id, "1000-42");
    assert_eq!(queued.response.status, "confirm");
    assert_eq!(queued.response.confirmation_id, Some("1000-42".to_string()));
    assert_eq!(queued.response.message, Some("user confirmation required".to_string()));
    assert_eq!(queued.record.expires_at, 1300);

    let confirm = request("confirm", Some(&queued.id));
    let id = match handle_request(&policy, &registry, &mut limiter, &confirm, &ctx(1010)) {
        PipelineStep::Confirm(id) => id,
        other => panic!("expected confirm, got {:?}", other),
    };
    assert_eq!(id, queued.id);
    let first = resolve_confirmation(&policy, &registry, ConfirmLookup::Found(queued.record.clone()), 1010);
    assert!(first.remove_record);
    let resp = match first.step {
        PipelineStep::Dispatch(r) => run_ok(handle_package_install, &r),
        other => panic!("expected dispatch, got {:?}", other),
    };
    assert_eq!(resp.status, "ok");

    // the record was removed: a second attempt finds nothing
    let second = resolve_confirmation(&policy, &registry, ConfirmLookup::Missing, 1020);
    assert!(!second.remove_record);
    let resp = reply(second.step);
    assert_eq!(resp.status, "error");
    assert_eq!(resp.message, Some("confirmation not found".to_string()));
}

#[test]
fn second_ping_over_override_is_denied() {
    let mut policy = PolicyConfig::default();
    policy.constraints.set_rate_limit_override("ping", 1);
    let registry = action_registry();
    let mut limiter = RateLimiter::new();
    let first = handle_request(&policy, &registry, &mut limiter, &request("ping", None), &ctx(50));
    assert!(matches!(first, PipelineStep::Dispatch(_)));
    let second = reply(handle_request(&policy, &registry, &mut limiter, &request("ping", None), &ctx(51)));
    assert_eq!(second.status, "deny");
    assert_eq!(second.message, Some("rate limit exceeded for action 'ping'".to_string()));
}

#[test]
fn ipc_natural_language_unparsed_errors() {
    let policy = PolicyConfig::default();
    let registry = action_registry();
    let mut limiter = RateLimiter::new();
    let req = ActionRequest {
        version: Some(1),
        name: "natural_language".to_string(),
        payload: Some("install firefox".to_string()),
    };
    let text = match handle_request(&policy, &registry, &mut limiter, &req, &ctx(1)) {
        PipelineStep::ParseIntent(t) => t,
        other => panic!("expected a parse step, got {:?}", other),
    };
    assert_eq!(text, "install firefox");
    // no parser could make sense of it
    let resp = natural_language_unparsed();
    assert_eq!(resp.status, "error");
    let no_text = reply(handle_request(&policy, &registry, &mut limiter, &request("natural_language", None), &ctx(1)));
    assert_eq!(no_text.status, "error");
    assert_eq!(no_text.message, Some("unable to parse natural language request".to_string()));
}

#[test]
fn pipeline_errors_and_denials() {
    let mut policy = PolicyConfig::default();
    policy.constraints.deny_actions = vec!["power_reboot".to_string()];
    let registry = action_registry();
    let mut limiter = RateLimiter::new();
    let mut bad_version = request("ping", None);
    bad_version.version = Some(2);
    let r = reply(handle_request(&policy, &registry, &mut limiter, &bad_version, &ctx(1)));
    assert_eq!((r.status.as_str(), r.message.as_deref()), ("error", Some("unsupported request version")));
    let r = reply(handle_request(&policy, &registry, &mut limiter, &request("frobnicate", None), &ctx(1)));
    assert_eq!((r.status.as_str(), r.message.as_deref()), ("error", Some("no handler registered")));
    let r = reply(handle_request(&policy, &registry, &mut limiter, &request("power_reboot", None), &ctx(1)));
    assert_eq!((r.status.as_str(), r.message.as_deref()), ("deny", Some("action denied by policy")));
    let r = reply(handle_request(&policy, &registry, &mut limiter, &request("confirm", None), &ctx(1)));
    assert_eq!((r.action.as_str(), r.status.as_str(), r.message.as_deref()), ("confirm", "error", Some("missing confirmation id")));
}
