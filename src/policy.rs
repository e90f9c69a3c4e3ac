//! The policy engine (allow / confirm / deny) and the per-action allowlists
//! that run before it.
use vstd::prelude::*;
use vstd::string::StringExecFns;
use crate::model::{strs_view, ActionRequest, PolicyConfig, PolicyDecision, RequestView};
use crate::text::{ascii_lower, ascii_lowercase, before_first, chars_of, prefix_before,
    split_chars, split_on, str_eq, string_from_chars, trim, trim_chars};
use crate::validate::{ends_with, has_prefix, has_suffix, is_safe_http_url, is_valid_app_name,
    safe_http_url, starts_with, valid_app_name};

verus! {

/// Whether `list` holds `s`.
pub fn contains_str(list: &Vec<String>, s: &str) -> (r: bool)
    ensures
        r == strs_view(list@).contains(s@),
{
    let mut i: usize = 0;
    while i < list.len()
        invariant
            i <= list@.len(),
            forall|k: int| 0 <= k < i ==> list@[k]@ != s@,
        decreases list@.len() - i,
    {
        if str_eq(list[i].as_str(), s) {
            assert(strs_view(list@)[i as int] == s@);
            return true;
        }
        i = i + 1;
    }
    assert(!strs_view(list@).contains(s@)) by {
        if strs_view(list@).contains(s@) {
            let k = choose|k: int| 0 <= k < strs_view(list@).len() && strs_view(list@)[k] == s@;
            assert(list@[k]@ == s@);
        }
    }
    false
}

/// The decision of the action-level rules alone.
pub open spec fn action_decision(policy: PolicyConfig, action: Seq<char>) -> PolicyDecision {
    if strs_view(policy.constraints.deny_actions@).contains(action) {
        PolicyDecision::Deny
    } else if strs_view(policy.constraints.require_confirmation_for@).contains(action) {
        PolicyDecision::RequireConfirmation
    } else {
        PolicyDecision::Allow
    }
}

/// Evaluates the action-level rules: deny list first, then confirm list.
pub fn evaluate_policy(policy: &PolicyConfig, action: &str) -> (r: PolicyDecision)
    ensures
        r == action_decision(*policy, action@),
{
    if contains_str(&policy.constraints.deny_actions, action) {
        return PolicyDecision::Deny;
    }
    if contains_str(&policy.constraints.require_confirmation_for, action) {
        return PolicyDecision::RequireConfirmation;
    }
    PolicyDecision::Allow
}

/// The trimmed, non-empty pieces of `pieces`.
pub open spec fn clean_pieces(pieces: Seq<Seq<char>>) -> Seq<Seq<char>>
    decreases pieces.len(),
{
    if pieces.len() == 0 {
        Seq::<Seq<char>>::empty()
    } else {
        let rest = clean_pieces(pieces.drop_last());
        let t = trim(pieces.last());
        if t.len() == 0 {
            rest
        } else {
            rest.push(t)
        }
    }
}

/// The package names of a comma-separated list: split on `,`, trimmed,
/// empty ones dropped.
pub open spec fn package_list(payload: Seq<char>) -> Seq<Seq<char>> {
    clean_pieces(split_on(payload, ','))
}

/// Splits a comma-separated package list.
pub fn parse_package_payload(payload: &str) -> (r: Vec<String>)
    ensures
        strs_view(r@) == package_list(payload@),
{
    let cs = chars_of(payload);
    let pieces = split_chars(&cs, ',');
    let ghost pv = pieces@.map_values(|p: Vec<char>| p@);
    let mut r: Vec<String> = Vec::new();
    let mut i: usize = 0;
    assert(pv.subrange(0, 0) =~= Seq::<Seq<char>>::empty());
    while i < pieces.len()
        invariant
            i <= pieces@.len(),
            pv == pieces@.map_values(|p: Vec<char>| p@),
            strs_view(r@) =~= clean_pieces(pv.subrange(0, i as int)),
        decreases pieces@.len() - i,
    {
        let t = trim_chars(&pieces[i]);
        assert(pv.subrange(0, i + 1).drop_last() =~= pv.subrange(0, i as int));
        assert(pv[i as int] == pieces@[i as int]@);
        if t.len() > 0 {
            let ghost prev = r@;
            r.push(string_from_chars(&t));
            assert(strs_view(r@) =~= strs_view(prev).push(t@));
        }
        i = i + 1;
    }
    assert(pv.subrange(0, pieces@.len() as int) =~= pv);
    r
}

/// Whether any of `wanted` is among `have`.
pub open spec fn any_listed(wanted: Seq<Seq<char>>, have: Seq<Seq<char>>) -> bool {
    exists|i: int| 0 <= i < wanted.len() && have.contains(#[trigger] wanted[i])
}

/// The full decision: action rules, then the package rules of
/// `package_install`. A denied package beats an action-level confirmation;
/// a package that needs confirmation beats an action-level allow.
pub open spec fn policy_decision(
    policy: PolicyConfig,
    action: Seq<char>,
    payload: Option<Seq<char>>,
) -> PolicyDecision {
    let d = action_decision(policy, action);
    if d == PolicyDecision::Deny {
        PolicyDecision::Deny
    } else if action == "package_install"@ && payload is Some {
        let pkgs = package_list(payload->0);
        if any_listed(strs_view(policy.constraints.package_install_deny@), pkgs) {
            PolicyDecision::Deny
        } else if any_listed(strs_view(policy.constraints.package_install_confirm@), pkgs) {
            PolicyDecision::RequireConfirmation
        } else {
            d
        }
    } else {
        d
    }
}

/// Whether some entry of `wanted` is among `have`.
fn any_in(wanted: &Vec<String>, have: &Vec<String>) -> (r: bool)
    ensures
        r == any_listed(strs_view(wanted@), strs_view(have@)),
{
    let mut i: usize = 0;
    while i < wanted.len()
        invariant
            i <= wanted@.len(),
            forall|k: int| 0 <= k < i ==> !strs_view(have@).contains(#[trigger] wanted@[k]@),
        decreases wanted@.len() - i,
    {
        if contains_str(have, wanted[i].as_str()) {
            assert(strs_view(wanted@)[i as int] == wanted@[i as int]@);
            return true;
        }
        i = i + 1;
    }
    assert(!any_listed(strs_view(wanted@), strs_view(have@))) by {
        if any_listed(strs_view(wanted@), strs_view(have@)) {
            let k = choose|k: int|
                0 <= k < strs_view(wanted@).len() && strs_view(have@).contains(
                    #[trigger] strs_view(wanted@)[k],
                );
            assert(strs_view(wanted@)[k] == wanted@[k]@);
        }
    }
    false
}

/// Evaluates the policy for an action and its payload.
pub fn evaluate_policy_with_payload(
    policy: &PolicyConfig,
    action: &str,
    payload: Option<&str>,
) -> (r: PolicyDecision)
    ensures
        r == policy_decision(
            *policy,
            action@,
            match payload {
                Some(p) => Some(p@),
                None => None,
            },
        ),
{
    let decision = evaluate_policy(policy, action);
    if decision == PolicyDecision::Deny {
        return decision;
    }
    if str_eq(action, "package_install") {
        if let Some(p) = payload {
            let pkgs = parse_package_payload(p);
            if any_in(&policy.constraints.package_install_deny, &pkgs) {
                return PolicyDecision::Deny;
            }
            if any_in(&policy.constraints.package_install_confirm, &pkgs) {
                return PolicyDecision::RequireConfirmation;
            }
        }
    }
    decision
}

/// The policy decision for a request.
pub fn enforce_policy(policy: &PolicyConfig, request: &ActionRequest) -> (r: PolicyDecision)
    ensures
        r == policy_decision(*policy, request@.name, request@.payload),
{
    let payload = match &request.payload {
        Some(p) => Some(p.as_str()),
        None => None,
    };
    evaluate_policy_with_payload(policy, request.name.as_str(), payload)
}

/// The position of the first `://` in `s` at or after `from`, or -1.
pub open spec fn scheme_sep_from(s: Seq<char>, from: int) -> int
    decreases s.len() - from,
{
    if from < 0 || from + 3 > s.len() {
        -1
    } else if s[from] == ':' && s[from + 1] == '/' && s[from + 2] == '/' {
        from
    } else {
        scheme_sep_from(s, from + 1)
    }
}

/// The host of a URL: after the first `://`, up to `/` and then `:`,
/// trimmed and lowered; none when that is empty.
pub open spec fn url_host(url: Seq<char>) -> Option<Seq<char>> {
    let at = scheme_sep_from(url, 0);
    if at < 0 {
        None
    } else {
        let rest = url.subrange(at + 3, url.len() as int);
        let host_port = trim(before_first(rest, '/'));
        let host = ascii_lower(trim(before_first(host_port, ':')));
        if host_port.len() == 0 || host.len() == 0 {
            None
        } else {
            Some(host)
        }
    }
}

/// The position of the first `://` in `s`.
fn find_scheme_sep(s: &Vec<char>) -> (r: Option<usize>)
    ensures
        match r {
            Some(i) => scheme_sep_from(s@, 0) == i && i + 3 <= s@.len(),
            None => scheme_sep_from(s@, 0) < 0,
        },
{
    let n = s.len();
    let mut at: usize = 0;
    while at < n && n - at >= 3
        invariant
            n == s@.len(),
            at <= n,
            scheme_sep_from(s@, at as int) == scheme_sep_from(s@, 0),
        decreases n - at,
    {
        if s[at] == ':' && s[at + 1] == '/' && s[at + 2] == '/' {
            return Some(at);
        }
        at = at + 1;
    }
    None
}

/// Extracts the lowercased host of a URL.
pub fn extract_url_host(url: &str) -> (r: Option<String>)
    ensures
        match r {
            Some(h) => url_host(url@) == Some(h@),
            None => url_host(url@) is None,
        },
{
    let cs = chars_of(url);
    let n = cs.len();
    let at = match find_scheme_sep(&cs) {
        None => {
            return None;
        },
        Some(i) => i,
    };
    let mut rest: Vec<char> = Vec::new();
    let mut k: usize = at + 3;
    while k < n
        invariant
            at + 3 <= k <= n,
            n == cs@.len(),
            rest@ == cs@.subrange(at + 3, k as int),
        decreases n - k,
    {
        rest.push(cs[k]);
        k = k + 1;
    }
    let first = prefix_before(&rest, '/');
    let host_port = trim_chars(&first);
    if host_port.len() == 0 {
        return None;
    }
    let h = prefix_before(&host_port, ':');
    let host = ascii_lowercase(&trim_chars(&h));
    if host.len() == 0 {
        return None;
    }
    Some(string_from_chars(&host))
}

/// Whether `host` is the allowed domain or one of its subdomains. The
/// allowed entry is trimmed and lowered first; an empty one allows nothing.
pub open spec fn domain_allowed(host: Seq<char>, allowed: Seq<char>) -> bool {
    let a = ascii_lower(trim(allowed));
    a.len() > 0 && (host == a || ends_with(host, seq!['.'] + a))
}

/// Whether `host` matches the allowlist entry `allowed`.
pub fn domain_matches(host: &str, allowed: &str) -> (r: bool)
    ensures
        r == domain_allowed(host@, allowed@),
{
    let a = ascii_lowercase(&trim_chars(&chars_of(allowed)));
    if a.len() == 0 {
        return false;
    }
    let h = chars_of(host);
    let mut dotted: Vec<char> = Vec::new();
    dotted.push('.');
    let mut tail = a.clone();
    dotted.append(&mut tail);
    assert(dotted@ =~= seq!['.'] + a@);
    let same = str_eq(host, string_from_chars(&a).as_str());
    same || has_suffix(&h, &dotted)
}

/// Whether some entry of `domains` allows `host`.
pub open spec fn any_domain_allowed(host: Seq<char>, domains: Seq<Seq<char>>) -> bool {
    exists|i: int| 0 <= i < domains.len() && domain_allowed(host, #[trigger] domains[i])
}

fn any_domain_matches(host: &str, domains: &Vec<String>) -> (r: bool)
    ensures
        r == any_domain_allowed(host@, strs_view(domains@)),
{
    let mut i: usize = 0;
    while i < domains.len()
        invariant
            i <= domains@.len(),
            forall|k: int| 0 <= k < i ==> !domain_allowed(host@, #[trigger] domains@[k]@),
        decreases domains@.len() - i,
    {
        if domain_matches(host, domains[i].as_str()) {
            assert(strs_view(domains@)[i as int] == domains@[i as int]@);
            return true;
        }
        i = i + 1;
    }
    assert(!any_domain_allowed(host@, strs_view(domains@))) by {
        if any_domain_allowed(host@, strs_view(domains@)) {
            let k = choose|k: int|
                0 <= k < strs_view(domains@).len() && domain_allowed(
                    host@,
                    #[trigger] strs_view(domains@)[k],
                );
            assert(strs_view(domains@)[k] == domains@[k]@);
        }
    }
    false
}

/// Whether `candidate` lies under the prefix entry `prefix`: equal to its
/// trimmed form, or below it after a `/`. An empty entry allows nothing.
pub open spec fn path_under(candidate: Seq<char>, prefix: Seq<char>) -> bool {
    let n = trim(prefix);
    n.len() > 0 && (candidate == n || starts_with(candidate, n.push('/')))
}

/// Whether a path is allowed: any path when there are no prefixes, else one
/// under some prefix.
pub open spec fn path_allowed(candidate: Seq<char>, prefixes: Seq<Seq<char>>) -> bool {
    prefixes.len() == 0 || exists|i: int|
        0 <= i < prefixes.len() && path_under(candidate, #[trigger] prefixes[i])
}

/// Whether the (canonical) path `candidate` is allowed by `allowed_prefixes`.
pub fn is_path_allowed(candidate: &str, allowed_prefixes: &Vec<String>) -> (r: bool)
    ensures
        r == path_allowed(candidate@, strs_view(allowed_prefixes@)),
{
    if allowed_prefixes.len() == 0 {
        return true;
    }
    let c = chars_of(candidate);
    let mut i: usize = 0;
    while i < allowed_prefixes.len()
        invariant
            i <= allowed_prefixes@.len(),
            c@ == candidate@,
            forall|k: int|
                0 <= k < i ==> !path_under(candidate@, #[trigger] allowed_prefixes@[k]@),
        decreases allowed_prefixes@.len() - i,
    {
        let n = trim_chars(&chars_of(allowed_prefixes[i].as_str()));
        if n.len() > 0 {
            let mut slashed = n.clone();
            slashed.push('/');
            let same = str_eq(candidate, string_from_chars(&n).as_str());
            if same || has_prefix(&c, &slashed) {
                assert(strs_view(allowed_prefixes@)[i as int] == allowed_prefixes@[i as int]@);
                return true;
            }
        }
        i = i + 1;
    }
    assert(!path_allowed(candidate@, strs_view(allowed_prefixes@))) by {
        if path_allowed(candidate@, strs_view(allowed_prefixes@)) {
            let k = choose|k: int|
                0 <= k < strs_view(allowed_prefixes@).len() && path_under(
                    candidate@,
                    #[trigger] strs_view(allowed_prefixes@)[k],
                );
            assert(strs_view(allowed_prefixes@)[k] == allowed_prefixes@[k]@);
        }
    }
    false
}

/// The allowlist verdict for a request: `Ok` to go on, or the reason for a
/// denial. `resolved_path` is the canonical form of a `list_files` path when
/// it could be resolved; otherwise the payload is taken as it stands.
pub open spec fn allowlist_verdict(
    policy: PolicyConfig,
    req: RequestView,
    resolved_path: Option<Seq<char>>,
) -> Result<(), Seq<char>> {
    let c = policy.constraints;
    if req.name == "open_url"@ {
        match req.payload {
            None => Err("missing url"@),
            Some(url) => if !safe_http_url(url) {
                Err("unsupported or unsafe url"@)
            } else if c.open_url_allowed_domains@.len() == 0 {
                Ok(())
            } else {
                match url_host(url) {
                    None => Err("invalid url host"@),
                    Some(host) => if any_domain_allowed(host, strs_view(c.open_url_allowed_domains@)) {
                        Ok(())
                    } else {
                        Err("url domain denied by policy"@)
                    },
                }
            },
        }
    } else if req.name == "open_app"@ {
        match req.payload {
            None => Err("missing app name"@),
            Some(app) => if !valid_app_name(app) {
                Err("invalid app name"@)
            } else if c.open_app_allowed@.len() == 0 || strs_view(c.open_app_allowed@).contains(
                app,
            ) {
                Ok(())
            } else {
                Err("app denied by policy"@)
            },
        }
    } else if req.name == "list_files"@ {
        match req.payload {
            None => Err("missing path"@),
            Some(path) => {
                let candidate = match resolved_path {
                    Some(p) => p,
                    None => path,
                };
                if path_allowed(candidate, strs_view(c.list_files_allowed_prefixes@)) {
                    Ok(())
                } else {
                    Err("path denied by policy"@)
                }
            },
        }
    } else {
        Ok(())
    }
}

pub open spec fn unit_result_view(r: Result<(), String>) -> Result<(), Seq<char>> {
    match r {
        Ok(()) => Ok(()),
        Err(e) => Err(e@),
    }
}

fn deny_reason(msg: &str) -> (r: Result<(), String>)
    ensures
        unit_result_view(r) == Err::<(), Seq<char>>(msg@),
{
    Err(String::from_str(msg))
}

/// Applies the allowlists of `open_url`, `open_app` and `list_files`.
pub fn enforce_action_allowlists(
    policy: &PolicyConfig,
    request: &ActionRequest,
    resolved_path: &Option<String>,
) -> (r: Result<(), String>)
    ensures
        unit_result_view(r) == allowlist_verdict(
            *policy,
            request@,
            match resolved_path {
                Some(p) => Some(p@),
                None => None,
            },
        ),
{
    let c = &policy.constraints;
    let name = request.name.as_str();
    if str_eq(name, "open_url") {
        let url = match &request.payload {
            None => {
                return deny_reason("missing url");
            },
            Some(u) => u.as_str(),
        };
        if !is_safe_http_url(url) {
            return deny_reason("unsupported or unsafe url");
        }
        if c.open_url_allowed_domains.len() == 0 {
            return Ok(());
        }
        match extract_url_host(url) {
            None => deny_reason("invalid url host"),
            Some(host) => if any_domain_matches(host.as_str(), &c.open_url_allowed_domains) {
                Ok(())
            } else {
                deny_reason("url domain denied by policy")
            },
        }
    } else if str_eq(name, "open_app") {
        let app = match &request.payload {
            None => {
                return deny_reason("missing app name");
            },
            Some(a) => a.as_str(),
        };
        if !is_valid_app_name(app) {
            return deny_reason("invalid app name");
        }
        if c.open_app_allowed.len() == 0 || contains_str(&c.open_app_allowed, app) {
            Ok(())
        } else {
            deny_reason("app denied by policy")
        }
    } else if str_eq(name, "list_files") {
        let path = match &request.payload {
            None => {
                return deny_reason("missing path");
            },
            Some(p) => p.as_str(),
        };
        let candidate = match resolved_path {
            Some(p) => p.as_str(),
            None => path,
        };
        if is_path_allowed(candidate, &c.list_files_allowed_prefixes) {
            Ok(())
        } else {
            deny_reason("path denied by policy")
        }
    } else {
        Ok(())
    }
}

} // verus!
