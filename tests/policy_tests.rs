use ai_distro_agent::model::{ActionRequest, PolicyConfig, PolicyConstraints, PolicyDecision};
use ai_distro_agent::policy::{
    domain_matches, enforce_action_allowlists, evaluate_policy, evaluate_policy_with_payload,
    extract_url_host, is_path_allowed, parse_package_payload,
};

fn base_policy() -> PolicyConfig {
    PolicyConfig {
        version: 1,
        mode: "assistive".to_string(),
        constraints: PolicyConstraints {
            require_confirmation_for: vec!["package_install".to_string()],
            deny_actions: vec!["rm -rf /".to_string()],
            package_install_deny: vec![],
            package_install_confirm: vec![],
            ..PolicyConstraints::empty()
        },
    }
}

fn request(name: &str, payload: Option<&str>) -> ActionRequest {
    ActionRequest {
        version: Some(1),
        name: name.to_string(),
        payload: payload.map(|p| p.to_string()),
    }
}

#[test]
fn policy_denies_blocked_action() {
    let policy = base_policy();
    if !matches!(evaluate_policy(&policy, "rm -rf /"), PolicyDecision::Deny) {
        panic!("expected deny");
    }
}

#[test]
fn policy_requires_confirmation() {
    let policy = base_policy();
    if !matches!(
        evaluate_policy(&policy, "package_install"),
        PolicyDecision::RequireConfirmation
    ) {
        panic!("expected confirmation");
    }
}

#[test]
fn policy_allows_default() {
    let policy = base_policy();
    if !matches!(evaluate_policy(&policy, "read_context"), PolicyDecision::Allow) {
        panic!("expected allow");
    }
}

#[test]
fn policy_payload_deny_package() {
    let mut policy = base_policy();
    policy.constraints.package_install_deny = vec!["rm".to_string(), "badpkg".to_string()];
    let decision = evaluate_policy_with_payload(&policy, "package_install", Some("vim,badpkg"));
    if !matches!(decision, PolicyDecision::Deny) {
        panic!("expected deny for badpkg");
    }
}

#[test]
fn policy_payload_confirm_package() {
    let mut policy = base_policy();
    policy.constraints.package_install_confirm = vec!["openssl".to_string()];
    let decision = evaluate_policy_with_payload(&policy, "package_install", Some("vim,openssl"));
    if !matches!(decision, PolicyDecision::RequireConfirmation) {
        panic!("expected confirmation for openssl");
    }
}

#[test]
fn policy_payload_ignores_whitespace() {
    let mut policy = base_policy();
    policy.constraints.package_install_confirm = vec!["docker".to_string()];
    let decision = evaluate_policy_with_payload(
        &policy,
        "package_install",
        Some("  vim , docker ,curl "),
    );
    if !matches!(decision, PolicyDecision::RequireConfirmation) {
        panic!("expected confirmation for docker with whitespace");
    }
}

#[test]
fn package_deny_beats_action_confirm() {
    let mut policy = base_policy();
    policy.constraints.package_install_deny = vec!["docker".to_string()];
    policy.constraints.package_install_confirm = vec!["docker".to_string()];
    let decision = evaluate_policy_with_payload(&policy, "package_install", Some("docker"));
    assert_eq!(decision, PolicyDecision::Deny);
}

#[test]
fn package_confirm_beats_action_allow() {
    let mut policy = PolicyConfig::default();
    policy.constraints.package_install_confirm = vec!["docker".to_string()];
    assert_eq!(
        evaluate_policy_with_payload(&policy, "package_install", Some("vim")),
        PolicyDecision::Allow
    );
    assert_eq!(
        evaluate_policy_with_payload(&policy, "package_install", Some("vim,docker")),
        PolicyDecision::RequireConfirmation
    );
    assert_eq!(
        evaluate_policy_with_payload(&policy, "package_remove", Some("docker")),
        PolicyDecision::Allow
    );
}

#[test]
fn action_deny_beats_everything() {
    let mut policy = base_policy();
    policy.constraints.deny_actions = vec!["package_install".to_string()];
    policy.constraints.package_install_confirm = vec!["vim".to_string()];
    assert_eq!(
        evaluate_policy_with_payload(&policy, "package_install", Some("vim")),
        PolicyDecision::Deny
    );
}

#[test]
fn package_payload_splits_trims_and_drops_empties() {
    let pkgs = parse_package_payload("  vim , docker ,,curl , ");
    assert_eq!(pkgs, vec!["vim".to_string(), "docker".to_string(), "curl".to_string()]);
    assert!(parse_package_payload(" , ,").is_empty());
    assert!(parse_package_payload("").is_empty());
}

#[test]
fn allowlist_matches_subdomains() {
    assert!(domain_matches("docs.openai.com", "openai.com"));
    assert!(domain_matches("openai.com", "openai.com"));
    assert!(!domain_matches("evil.com", "openai.com"));
}

#[test]
fn domain_entry_is_trimmed_and_lowered() {
    assert!(domain_matches("docs.openai.com", "  OpenAI.com "));
    assert!(!domain_matches("notopenai.com", "openai.com"));
    assert!(!domain_matches("openai.com", "   "));
}

#[test]
fn url_host_is_extracted_and_lowered() {
    assert_eq!(extract_url_host("https://Docs.OpenAI.com:443/x"), Some("docs.openai.com".to_string()));
    assert_eq!(extract_url_host("http://example.com"), Some("example.com".to_string()));
    assert_eq!(extract_url_host("example.com"), None);
    assert_eq!(extract_url_host("https:///path"), None);
    assert_eq!(extract_url_host("https://:80/"), None);
}

#[test]
fn path_prefixes_match_whole_components() {
    let prefixes = vec!["/tmp".to_string()];
    assert!(is_path_allowed("/tmp", &prefixes));
    assert!(is_path_allowed("/tmp/a/b", &prefixes));
    assert!(!is_path_allowed("/tmpfoo", &prefixes));
    assert!(!is_path_allowed("/etc", &prefixes));
    assert!(is_path_allowed("/etc", &vec![]));
}

#[test]
fn policy_deny_open_url_outside_allowlist() {
    let mut policy = PolicyConfig::default();
    policy.constraints.open_url_allowed_domains = vec!["openai.com".to_string()];
    let req = ActionRequest {
        version: Some(1),
        name: "open_url".to_string(),
        payload: Some("https://example.com".to_string()),
    };
    let denied = enforce_action_allowlists(&policy, &req, &None).is_err();
    assert!(denied);
}

#[test]
fn policy_allow_list_files_prefix() {
    let mut policy = PolicyConfig::default();
    policy.constraints.list_files_allowed_prefixes = vec!["/tmp".to_string()];
    let req = ActionRequest {
        version: Some(1),
        name: "list_files".to_string(),
        payload: Some("/etc".to_string()),
    };
    let denied = enforce_action_allowlists(&policy, &req, &None).is_err();
    assert!(denied);
}

#[test]
fn allowlist_reasons() {
    let mut policy = PolicyConfig::default();
    let check = |p: &PolicyConfig, name: &str, payload: Option<&str>| {
        enforce_action_allowlists(p, &request(name, payload), &None)
    };
    assert_eq!(check(&policy, "open_url", None), Err("missing url".to_string()));
    assert_eq!(
        check(&policy, "open_url", Some("file:///etc/passwd")),
        Err("unsupported or unsafe url".to_string())
    );
    assert_eq!(check(&policy, "open_url", Some("https://anything.org")), Ok(()));
    assert_eq!(check(&policy, "open_app", None), Err("missing app name".to_string()));
    assert_eq!(check(&policy, "open_app", Some("bad app")), Err("invalid app name".to_string()));
    assert_eq!(check(&policy, "list_files", None), Err("missing path".to_string()));
    assert_eq!(check(&policy, "ping", None), Ok(()));

    policy.constraints.open_url_allowed_domains = vec!["openai.com".to_string()];
    policy.constraints.open_app_allowed = vec!["firefox".to_string()];
    assert_eq!(
        check(&policy, "open_url", Some("https://docs.openai.com/x")),
        Ok(())
    );
    assert_eq!(
        check(&policy, "open_url", Some("https://evil.com")),
        Err("url domain denied by policy".to_string())
    );
    assert_eq!(check(&policy, "open_app", Some("firefox")), Ok(()));
    assert_eq!(check(&policy, "open_app", Some("gimp")), Err("app denied by policy".to_string()));
}

#[test]
fn allowlist_uses_resolved_path() {
    let mut policy = PolicyConfig::default();
    policy.constraints.list_files_allowed_prefixes = vec!["/tmp".to_string()];
    let req = request("list_files", Some("/tmp/../etc"));
    assert_eq!(
        enforce_action_allowlists(&policy, &req, &Some("/etc".to_string())),
        Err("path denied by policy".to_string())
    );
    let req = request("list_files", Some("/var/tmp-link"));
    assert_eq!(enforce_action_allowlists(&policy, &req, &Some("/tmp/x".to_string())), Ok(()));
}
