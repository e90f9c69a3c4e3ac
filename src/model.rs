//! Requests, responses, policy configuration and pending confirmations, with
//! their mathematical views.
use vstd::prelude::*;
use vstd::string::StringExecFns;
use crate::text::{chars_of, string_from_chars};

verus! {

pub open spec fn opt_str_view(o: Option<String>) -> Option<Seq<char>> {
    match o {
        Some(s) => Some(s@),
        None => None,
    }
}

pub open spec fn strs_view(v: Seq<String>) -> Seq<Seq<char>> {
    v.map_values(|s: String| s@)
}

/// A copy of an optional string.
pub fn copy_opt_string(o: &Option<String>) -> (r: Option<String>)
    ensures
        opt_str_view(r) == opt_str_view(*o),
{
    match o {
        Some(s) => Some(s.clone()),
        None => None,
    }
}

pub struct RequestView {
    pub version: Option<u32>,
    pub name: Seq<char>,
    pub payload: Option<Seq<char>>,
}

/// A request from a client: protocol version (absent means 1), action name
/// and optional payload.
#[derive(Debug, Clone)]
pub struct ActionRequest {
    pub version: Option<u32>,
    pub name: String,
    pub payload: Option<String>,
}

impl View for ActionRequest {
    type V = RequestView;

    open spec fn view(&self) -> RequestView {
        RequestView { version: self.version, name: self.name@, payload: opt_str_view(self.payload) }
    }
}

pub struct CapabilitiesView {
    pub ipc_version: u32,
    pub actions: Seq<Seq<char>>,
    pub protocol_version: u32,
}

/// What `get_capabilities` reports.
#[derive(Debug, Clone)]
pub struct Capabilities {
    pub ipc_version: u32,
    pub actions: Vec<String>,
    pub protocol_version: u32,
}

impl View for Capabilities {
    type V = CapabilitiesView;

    open spec fn view(&self) -> CapabilitiesView {
        CapabilitiesView {
            ipc_version: self.ipc_version,
            actions: strs_view(self.actions@),
            protocol_version: self.protocol_version,
        }
    }
}

pub open spec fn opt_caps_view(o: Option<Capabilities>) -> Option<CapabilitiesView> {
    match o {
        Some(c) => Some(c@),
        None => None,
    }
}

pub struct ResponseView {
    pub version: u32,
    pub action: Seq<char>,
    pub status: Seq<char>,
    pub message: Option<Seq<char>>,
    pub capabilities: Option<CapabilitiesView>,
    pub confirmation_id: Option<Seq<char>>,
}

/// The broker's answer to one request.
#[derive(Debug, Clone)]
pub struct ActionResponse {
    pub version: u32,
    pub action: String,
    pub status: String,
    pub message: Option<String>,
    pub capabilities: Option<Capabilities>,
    pub confirmation_id: Option<String>,
}

impl View for ActionResponse {
    type V = ResponseView;

    open spec fn view(&self) -> ResponseView {
        ResponseView {
            version: self.version,
            action: self.action@,
            status: self.status@,
            message: opt_str_view(self.message),
            capabilities: opt_caps_view(self.capabilities),
            confirmation_id: opt_str_view(self.confirmation_id),
        }
    }
}

/// A plain response: protocol version 1, a status and a message.
pub open spec fn reply(action: Seq<char>, status: Seq<char>, message: Seq<char>) -> ResponseView {
    ResponseView {
        version: 1,
        action,
        status,
        message: Some(message),
        capabilities: None,
        confirmation_id: None,
    }
}

pub open spec fn ok_reply(action: Seq<char>, message: Seq<char>) -> ResponseView {
    reply(action, "ok"@, message)
}

pub open spec fn error_reply(action: Seq<char>, message: Seq<char>) -> ResponseView {
    reply(action, "error"@, message)
}

pub open spec fn deny_reply(action: Seq<char>, message: Seq<char>) -> ResponseView {
    reply(action, "deny"@, message)
}

fn plain_response(action: &str, status: &str, message: &str) -> (r: ActionResponse)
    ensures
        r@ == reply(action@, status@, message@),
{
    ActionResponse {
        version: 1,
        action: String::from_str(action),
        status: String::from_str(status),
        message: Some(String::from_str(message)),
        capabilities: None,
        confirmation_id: None,
    }
}

/// A successful response carrying `message`.
pub fn ok_response(action: &str, message: &str) -> (r: ActionResponse)
    ensures
        r@ == ok_reply(action@, message@),
{
    plain_response(action, "ok", message)
}

/// A failed response carrying `message`.
pub fn error_response(action: &str, message: &str) -> (r: ActionResponse)
    ensures
        r@ == error_reply(action@, message@),
{
    plain_response(action, "error", message)
}

/// A refusal carrying `message`.
pub fn deny_response(action: &str, message: &str) -> (r: ActionResponse)
    ensures
        r@ == deny_reply(action@, message@),
{
    plain_response(action, "deny", message)
}

/// `parts` joined with `sep` between each two.
pub open spec fn join(parts: Seq<Seq<char>>, sep: Seq<char>) -> Seq<char>
    decreases parts.len(),
{
    if parts.len() == 0 {
        Seq::<char>::empty()
    } else if parts.len() == 1 {
        parts[0]
    } else {
        join(parts.drop_last(), sep) + sep + parts.last()
    }
}

/// `parts` joined with `sep`.
pub fn join_strs(parts: &[&str], sep: char) -> (r: String)
    ensures
        r@ == join(parts@.map_values(|p: &str| p@), seq![sep]),
{
    let ghost views = parts@.map_values(|p: &str| p@);
    let mut acc: Vec<char> = Vec::new();
    let mut i: usize = 0;
    while i < parts.len()
        invariant
            i <= parts@.len(),
            views == parts@.map_values(|p: &str| p@),
            acc@ == join(views.subrange(0, i as int), seq![sep]),
        decreases parts@.len() - i,
    {
        let mut piece = chars_of(parts[i]);
        assert(views.subrange(0, i + 1).drop_last() =~= views.subrange(0, i as int));
        if i > 0 {
            acc.push(sep);
        }
        acc.append(&mut piece);
        proof {
            if i == 0 {
                assert(acc@ =~= join(views.subrange(0, 1), seq![sep]));
            } else {
                assert(acc@ =~= join(views.subrange(0, i as int), seq![sep]) + seq![sep]
                    + views[i as int]);
            }
        }
        i = i + 1;
    }
    assert(views.subrange(0, parts@.len() as int) =~= views);
    string_from_chars(&acc)
}

impl ActionRequest {
    /// A copy of this request.
    pub fn copied(&self) -> (r: ActionRequest)
        ensures
            r@ == self@,
    {
        ActionRequest {
            version: self.version,
            name: self.name.clone(),
            payload: copy_opt_string(&self.payload),
        }
    }

    fn versioned(name: &str, payload: Option<String>) -> (r: ActionRequest)
        ensures
            r@ == (RequestView { version: Some(1), name: name@, payload: opt_str_view(payload) }),
    {
        ActionRequest { version: Some(1), name: String::from_str(name), payload }
    }

    /// A request to install `packages`, listed with commas between them.
    pub fn package_install(packages: &[&str]) -> (r: ActionRequest)
        ensures
            r@ == (RequestView {
                version: Some(1),
                name: "package_install"@,
                payload: Some(join(packages@.map_values(|p: &str| p@), seq![','])),
            }),
    {
        let list = join_strs(packages, ',');
        ActionRequest::versioned("package_install", Some(list))
    }

    /// A request to update the system from `channel`.
    pub fn system_update(channel: &str) -> (r: ActionRequest)
        ensures
            r@ == (RequestView {
                version: Some(1),
                name: "system_update"@,
                payload: Some(channel@),
            }),
    {
        ActionRequest::versioned("system_update", Some(String::from_str(channel)))
    }

    /// A request to read the saved context `context_id`.
    pub fn read_context(context_id: &str) -> (r: ActionRequest)
        ensures
            r@ == (RequestView {
                version: Some(1),
                name: "read_context"@,
                payload: Some(context_id@),
            }),
    {
        ActionRequest::versioned("read_context", Some(String::from_str(context_id)))
    }

    /// A request for the broker's capabilities.
    pub fn get_capabilities() -> (r: ActionRequest)
        ensures
            r@ == (RequestView { version: Some(1), name: "get_capabilities"@, payload: None }),
    {
        ActionRequest::versioned("get_capabilities", None)
    }

    /// A liveness probe.
    pub fn ping() -> (r: ActionRequest)
        ensures
            r@ == (RequestView { version: Some(1), name: "ping"@, payload: None }),
    {
        ActionRequest::versioned("ping", None)
    }
}

pub struct PendingView {
    pub created_at: u64,
    pub expires_at: u64,
    pub request: RequestView,
}

/// A request waiting for a human to confirm it, until `expires_at`.
#[derive(Debug, Clone)]
pub struct PendingConfirmation {
    pub created_at: u64,
    pub expires_at: u64,
    pub request: ActionRequest,
}

impl View for PendingConfirmation {
    type V = PendingView;

    open spec fn view(&self) -> PendingView {
        PendingView {
            created_at: self.created_at,
            expires_at: self.expires_at,
            request: self.request@,
        }
    }
}

/// The outcome of evaluating the policy for one request.
#[derive(Debug, Clone, Copy, PartialEq, Eq, Structural)]
pub enum PolicyDecision {
    Allow,
    RequireConfirmation,
    Deny,
}

/// The rules of the policy file.
#[derive(Debug, Clone)]
pub struct PolicyConstraints {
    pub require_confirmation_for: Vec<String>,
    pub deny_actions: Vec<String>,
    pub package_install_deny: Vec<String>,
    pub package_install_confirm: Vec<String>,
    pub open_url_allowed_domains: Vec<String>,
    pub open_app_allowed: Vec<String>,
    pub list_files_allowed_prefixes: Vec<String>,
    pub rate_limit_per_minute_default: u32,
    /// Per-action limits, one entry per action name; `0` disables limiting.
    pub rate_limit_per_minute_overrides: Vec<(String, u32)>,
}

/// The security policy, loaded once at startup.
#[derive(Debug, Clone)]
pub struct PolicyConfig {
    pub version: u32,
    pub mode: String,
    pub constraints: PolicyConstraints,
}

impl PolicyConstraints {
    /// No rules: nothing denied, nothing confirmed, no allowlists, no limits.
    pub fn empty() -> (r: PolicyConstraints)
        ensures
            r.require_confirmation_for@.len() == 0,
            r.deny_actions@.len() == 0,
            r.package_install_deny@.len() == 0,
            r.package_install_confirm@.len() == 0,
            r.open_url_allowed_domains@.len() == 0,
            r.open_app_allowed@.len() == 0,
            r.list_files_allowed_prefixes@.len() == 0,
            r.rate_limit_per_minute_default == 0,
            r.rate_limit_per_minute_overrides@.len() == 0,
    {
        PolicyConstraints {
            require_confirmation_for: Vec::new(),
            deny_actions: Vec::new(),
            package_install_deny: Vec::new(),
            package_install_confirm: Vec::new(),
            open_url_allowed_domains: Vec::new(),
            open_app_allowed: Vec::new(),
            list_files_allowed_prefixes: Vec::new(),
            rate_limit_per_minute_default: 0,
            rate_limit_per_minute_overrides: Vec::new(),
        }
    }

    /// Sets the per-minute limit of `action`, over any earlier one.
    pub fn set_rate_limit_override(&mut self, action: &str, limit: u32)
        ensures
            override_lookup(final(self).rate_limit_per_minute_overrides@, action@) == Some(limit),
            forall|a: Seq<char>|
                a != action@ ==> override_lookup(final(self).rate_limit_per_minute_overrides@, a)
                    == override_lookup(old(self).rate_limit_per_minute_overrides@, a),
            final(self).require_confirmation_for == old(self).require_confirmation_for,
            final(self).deny_actions == old(self).deny_actions,
            final(self).package_install_deny == old(self).package_install_deny,
            final(self).package_install_confirm == old(self).package_install_confirm,
            final(self).open_url_allowed_domains == old(self).open_url_allowed_domains,
            final(self).open_app_allowed == old(self).open_app_allowed,
            final(self).list_files_allowed_prefixes == old(self).list_files_allowed_prefixes,
            final(self).rate_limit_per_minute_default == old(self).rate_limit_per_minute_default,
    {
        let ghost before = self.rate_limit_per_minute_overrides@;
        self.rate_limit_per_minute_overrides.push((String::from_str(action), limit));
        assert(self.rate_limit_per_minute_overrides@.drop_last() =~= before);
    }
}

/// The limit that `overrides` sets for `action`: its last entry for that name.
pub open spec fn override_lookup(overrides: Seq<(String, u32)>, action: Seq<char>) -> Option<u32>
    decreases overrides.len(),
{
    if overrides.len() == 0 {
        None
    } else if overrides.last().0@ == action {
        Some(overrides.last().1)
    } else {
        override_lookup(overrides.drop_last(), action)
    }
}

impl Default for PolicyConfig {
    fn default() -> (r: PolicyConfig)
        ensures
            r.version == 1,
            r.mode@ == "assistive"@,
            r.constraints.require_confirmation_for@.len() == 0,
            r.constraints.deny_actions@.len() == 0,
            r.constraints.package_install_deny@.len() == 0,
            r.constraints.package_install_confirm@.len() == 0,
            r.constraints.open_url_allowed_domains@.len() == 0,
            r.constraints.open_app_allowed@.len() == 0,
            r.constraints.list_files_allowed_prefixes@.len() == 0,
            r.constraints.rate_limit_per_minute_default == 0,
            r.constraints.rate_limit_per_minute_overrides@.len() == 0,
    {
        PolicyConfig {
            version: 1,
            mode: String::from_str("assistive"),
            constraints: PolicyConstraints::empty(),
        }
    }
}

} // verus!
