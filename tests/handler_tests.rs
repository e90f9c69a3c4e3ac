use ai_distro_agent::handlers::{
    handle_calendar_add_event, handle_email_draft, handle_list_files, handle_plan_day_outfit,
    handle_read_context, handle_remember, handle_weather_get, ToolOutcome,
};
use ai_distro_agent::confirm::{confirmation_id, expired_confirmations, queue_confirmation, resolve_confirmation, ConfirmLookup};
use ai_distro_agent::events::{battery_event, proactive_message, SystemEvent};
use ai_distro_agent::handlers::{
    action_registry, handle_get_capabilities, handle_open_app, handle_package_install,
    handle_package_remove, handle_ping, handle_power_reboot, handle_set_brightness,
    handle_set_volume, handle_system_update, handle_unknown, handle_wifi_on, probe_command,
    CommandCall, HandlerStep,
};
use ai_distro_agent::model::{ActionRequest, PendingConfirmation, PolicyConfig};

fn request(name: &str, payload: Option<&str>) -> ActionRequest {
    ActionRequest { version: Some(1), name: name.to_string(), payload: payload.map(|p| p.to_string()) }
}

fn run(step: HandlerStep) -> CommandCall {
    match step {
        HandlerStep::Run(c) => c,
        other => panic!("expected a command, got {:?}", other),
    }
}

fn reply(step: HandlerStep) -> (String, Option<String>) {
    match step {
        HandlerStep::Reply(r) => (r.status, r.message),
        other => panic!("expected a reply, got {:?}", other),
    }
}

fn ok() -> Result<String, String> {
    Ok(String::new())
}

fn err(m: &str) -> Result<String, String> {
    Err(m.to_string())
}

#[test]
fn ping_and_capabilities() {
    let r = handle_ping(&request("ping", None));
    assert_eq!((r.status.as_str(), r.message.as_deref()), ("ok", Some("pong")));
    let caps = handle_get_capabilities(&request("get_capabilities", None));
    let c = caps.capabilities.expect("capabilities");
    assert_eq!(c.actions, action_registry());
    assert_eq!(c.actions.len(), 27);
    assert!(c.actions.contains(&"plan_day_outfit".to_string()));
    assert!(caps.message.is_none());
    let u = handle_unknown(&request("unknown", None));
    assert_eq!(u.message.as_deref(), Some("Need clarification: I didn't understand."));
}

#[test]
fn single_command_handlers() {
    let req = request("network_wifi_on", None);
    let c = run(handle_wifi_on(&req, &vec![]));
    assert_eq!((c.program.as_str(), c.args.clone()), ("nmcli", vec!["radio".to_string(), "wifi".to_string(), "on".to_string()]));
    assert_eq!(reply(handle_wifi_on(&req, &vec![ok()])), ("ok".to_string(), Some("Wi-Fi enabled.".to_string())));
    assert_eq!(reply(handle_wifi_on(&req, &vec![err("nmcli failed: x")])), ("error".to_string(), Some("nmcli failed: x".to_string())));
    let c = run(handle_power_reboot(&request("power_reboot", None), &vec![]));
    assert_eq!((c.program.as_str(), c.args), ("systemctl", vec!["reboot".to_string()]));
}

#[test]
fn volume_steps() {
    let req = request("set_volume", Some("40"));
    let probe = run(handle_set_volume(&req, &vec![]));
    assert_eq!(probe.args, probe_command("pactl").args);
    assert_eq!(probe.args[1], "command -v pactl >/dev/null 2>&1");
    let set = run(handle_set_volume(&req, &vec![ok()]));
    assert_eq!(set.args, vec!["set-sink-volume".to_string(), "@DEFAULT_SINK@".to_string(), "40%".to_string()]);
    assert_eq!(reply(handle_set_volume(&req, &vec![ok(), ok()])).1.as_deref(), Some("Volume updated."));
    assert_eq!(reply(handle_set_volume(&req, &vec![err("no")])).1.as_deref(), Some("pactl not available"));
    assert_eq!(reply(handle_set_volume(&request("set_volume", Some("140")), &vec![])).1.as_deref(), Some("invalid volume percentage"));
    assert_eq!(reply(handle_set_volume(&request("set_volume", None), &vec![])).1.as_deref(), Some("missing volume percentage"));
    assert_eq!(reply(handle_set_brightness(&request("set_brightness", Some("x")), &vec![])).1.as_deref(), Some("invalid brightness percentage"));
    let b = run(handle_set_brightness(&request("set_brightness", Some("7")), &vec![ok()]));
    assert_eq!(b.args, vec!["set".to_string(), "7%".to_string()]);
}

#[test]
fn open_app_falls_back() {
    let req = request("open_app", Some("firefox"));
    assert_eq!(run(handle_open_app(&req, &vec![])).args[1], "command -v gtk-launch >/dev/null 2>&1");
    assert_eq!(run(handle_open_app(&req, &vec![ok()])).program, "gtk-launch");
    assert_eq!(run(handle_open_app(&req, &vec![err("")])).args[1], "command -v kstart5 >/dev/null 2>&1");
    assert_eq!(run(handle_open_app(&req, &vec![err(""), ok()])).program, "kstart5");
    assert_eq!(run(handle_open_app(&req, &vec![err(""), err("")])).program, "xdg-open");
    assert_eq!(reply(handle_open_app(&req, &vec![err(""), err(""), ok()])).1.as_deref(), Some("Launching app."));
    assert_eq!(reply(handle_open_app(&request("open_app", Some("a b")), &vec![])).1.as_deref(), Some("invalid app name"));
}

#[test]
fn package_install_steps() {
    let req = request("package_install", Some("vim, org.gimp.GIMP"));
    assert_eq!(run(handle_package_install(&req, &vec![])).args[1], "command -v flatpak >/dev/null 2>&1");
    let first = run(handle_package_install(&req, &vec![ok()]));
    assert_eq!(first.program, "apt-get");
    assert!(first.noninteractive);
    assert_eq!(first.args, vec!["install".to_string(), "-y".to_string(), "vim".to_string()]);
    let second = run(handle_package_install(&req, &vec![ok(), ok()]));
    assert_eq!(second.program, "flatpak");
    assert_eq!(second.args, vec!["install".to_string(), "-y".to_string(), "flathub".to_string(), "org.gimp.GIMP".to_string()]);
    assert_eq!(
        reply(handle_package_install(&req, &vec![ok(), ok(), ok()])).1.as_deref(),
        Some("I installed this for you: vim via apt, org.gimp.GIMP via flatpak. You're all set.")
    );
    assert_eq!(reply(handle_package_install(&req, &vec![ok(), err("apt-get failed: E")])), ("error".to_string(), Some("apt-get failed: E".to_string())));
    // without flatpak the application ID goes to apt
    assert_eq!(run(handle_package_install(&req, &vec![err(""), ok()])).program, "apt-get");
    let plain = request("package_remove", Some("vim"));
    assert_eq!(run(handle_package_remove(&plain, &vec![])).args, vec!["remove".to_string(), "-y".to_string(), "vim".to_string()]);
    assert_eq!(reply(handle_package_remove(&plain, &vec![ok()])).1.as_deref(), Some("I removed this for you: vim via apt. Done."));
    assert_eq!(reply(handle_package_install(&request("package_install", Some(" , ")), &vec![])).1.as_deref(), Some("empty package list"));
    assert_eq!(reply(handle_package_install(&request("package_install", Some("vim;rm")), &vec![])).1.as_deref(), Some("invalid package name"));
    let many = (0..21).map(|i| format!("p{i}")).collect::<Vec<_>>().join(",");
    assert_eq!(reply(handle_package_install(&request("package_install", Some(&many)), &vec![])).1.as_deref(), Some("too many packages requested"));
    assert_eq!(reply(handle_package_install(&request("package_install", None), &vec![])).1.as_deref(), Some("missing package list"));
}

#[test]
fn system_update_steps() {
    let req = request("system_update", Some("stable"));
    assert_eq!(run(handle_system_update(&req, &vec![])).program, "test");
    assert!(reply(handle_system_update(&req, &vec![ok()])).1.unwrap().starts_with("System is immutable."));
    assert_eq!(run(handle_system_update(&req, &vec![err("")])).args, vec!["update".to_string()]);
    assert!(reply(handle_system_update(&req, &vec![err(""), err("E: Unable to lock directory /var/lib/apt")])).1.unwrap().starts_with("I need administrator permission to update system packages."));
    assert_eq!(reply(handle_system_update(&req, &vec![err(""), err("boom")])).1.as_deref(), Some("boom"));
    assert_eq!(run(handle_system_update(&req, &vec![err(""), ok()])).args, vec!["upgrade".to_string(), "-y".to_string()]);
    assert!(reply(handle_system_update(&req, &vec![err(""), ok(), err("Permission denied")])).1.unwrap().starts_with("I need administrator permission to apply updates."));
    assert_eq!(reply(handle_system_update(&req, &vec![err(""), ok(), ok(), err("")])).1.as_deref(), Some("I finished updating your system."));
    assert_eq!(reply(handle_system_update(&req, &vec![err(""), ok(), ok(), ok(), ok()])).1.as_deref(), Some("I finished updating your system and Flatpak apps."));
    assert_eq!(reply(handle_system_update(&req, &vec![err(""), ok(), ok(), ok(), err("x")])).1.as_deref(), Some("I finished updating your system. Flatpak apps could not be updated: x"));
}

#[test]
fn confirmation_ids_and_records() {
    assert_eq!(confirmation_id(1700000000, 123), "1700000000-123");
    let q = queue_confirmation(&request("package_install", Some("vim")), 10, 300, 5);
    assert_eq!(q.id, "10-5");
    assert_eq!((q.record.created_at, q.record.expires_at), (10, 310));
    assert_eq!(q.record.request.payload.as_deref(), Some("vim"));
}

#[test]
fn confirm_executes_and_removes_record() {
    let record = PendingConfirmation {
        created_at: 1000,
        expires_at: 1300,
        request: request("ping", None),
    };
    let policy = PolicyConfig::default();
    let registry = action_registry();
    let res = resolve_confirmation(&policy, &registry, ConfirmLookup::Found(record), 1000);
    assert!(res.remove_record);
    let resp = match res.step {
        ai_distro_agent::pipeline::PipelineStep::Dispatch(r) => handle_ping(&r),
        other => panic!("expected dispatch, got {:?}", other),
    };
    assert_eq!(resp.status, "ok");
}

#[test]
fn confirm_resolution_errors() {
    let mut policy = PolicyConfig::default();
    let registry = action_registry();
    let msg = |r: ai_distro_agent::confirm::ConfirmResolution| match r.step {
        ai_distro_agent::pipeline::PipelineStep::Respond(x) => (r.remove_record, x.status, x.message.unwrap()),
        other => panic!("expected reply, got {:?}", other),
    };
    let rec = |name: &str, exp: u64| PendingConfirmation { created_at: 0, expires_at: exp, request: request(name, None) };
    assert_eq!(msg(resolve_confirmation(&policy, &registry, ConfirmLookup::Corrupt, 5)), (false, "error".to_string(), "invalid confirmation record".to_string()));
    assert_eq!(msg(resolve_confirmation(&policy, &registry, ConfirmLookup::Found(rec("ping", 4)), 5)), (true, "error".to_string(), "confirmation expired".to_string()));
    assert!(matches!(resolve_confirmation(&policy, &registry, ConfirmLookup::Found(rec("ping", 5)), 5).step, ai_distro_agent::pipeline::PipelineStep::Dispatch(_)));
    assert_eq!(msg(resolve_confirmation(&policy, &registry, ConfirmLookup::Found(rec("nothing", 9)), 5)), (true, "error".to_string(), "no handler registered".to_string()));
    policy.constraints.deny_actions = vec!["ping".to_string()];
    assert_eq!(msg(resolve_confirmation(&policy, &registry, ConfirmLookup::Found(rec("ping", 9)), 5)), (true, "deny".to_string(), "action denied by policy".to_string()));
    // a request that needed confirmation runs once confirmed
    policy.constraints.deny_actions = vec![];
    policy.constraints.require_confirmation_for = vec!["ping".to_string()];
    assert!(matches!(resolve_confirmation(&policy, &registry, ConfirmLookup::Found(rec("ping", 9)), 5).step, ai_distro_agent::pipeline::PipelineStep::Dispatch(_)));
}

#[test]
fn confirm_cleanup_removes_expired() {
    let now = 1000;
    let records = vec![
        ("expired".to_string(), PendingConfirmation { created_at: now - 100, expires_at: now - 1, request: request("package_install", Some("vim")) }),
        ("live".to_string(), PendingConfirmation { created_at: now, expires_at: now + 300, request: request("ping", None) }),
        ("edge".to_string(), PendingConfirmation { created_at: now, expires_at: now, request: request("ping", None) }),
    ];
    assert_eq!(expired_confirmations(&records, now), vec!["expired".to_string()]);
    assert!(expired_confirmations(&vec![], now).is_empty());
}

#[test]
fn proactive_messages() {
    assert_eq!(proactive_message(&SystemEvent::BatteryLow(12)), "Heads up! Your battery is getting low (12%). Should I turn on power saver?");
    assert_eq!(proactive_message(&SystemEvent::NetworkChanged("home".to_string())), "I noticed you're now connected to home. Need any help with your network settings?");
    assert_eq!(proactive_message(&SystemEvent::TimeTrigger("stand up".to_string())), "stand up");
}

#[test]
fn request_builders() {
    let r = ActionRequest::package_install(&["vim", "curl"]);
    assert_eq!((r.version, r.name.as_str(), r.payload.as_deref()), (Some(1), "package_install", Some("vim,curl")));
    assert_eq!(ActionRequest::system_update("stable").payload.as_deref(), Some("stable"));
    assert_eq!(ActionRequest::read_context("default").name, "read_context");
    assert!(ActionRequest::get_capabilities().payload.is_none());
    assert_eq!(ActionRequest::ping().name, "ping");
    assert_eq!(ActionRequest::package_install(&[]).payload.as_deref(), Some(""));
}

#[test]
fn battery_warning_once_below_threshold() {
    assert!(matches!(battery_event(14, false), Some(SystemEvent::BatteryLow(14))));
    assert!(battery_event(14, true).is_none());
    assert!(battery_event(15, false).is_none());
    assert!(battery_event(80, true).is_none());
}

#[test]
fn remember_stores_then_confirms() {
    let req = request("remember", Some("buy milk"));
    assert!(matches!(handle_remember(&req, &vec![]), HandlerStep::AppendNote(n) if n == "buy milk"));
    assert_eq!(reply(handle_remember(&req, &vec![ok()])).1.as_deref(), Some("I'll remember that."));
    assert_eq!(reply(handle_remember(&req, &vec![err("memory write error: full")])).1.as_deref(), Some("memory write error: full"));
    assert_eq!(reply(handle_remember(&request("remember", None), &vec![])).1.as_deref(), Some("missing memory text"));
}

#[test]
fn read_context_keeps_notes_of_last_five_lines() {
    let req = request("read_context", None);
    let some = |s: &str| Some(s.to_string());
    let lines = vec![some("a"), some("b"), None, some("c"), some("d"), None, some("e")];
    let r = handle_read_context(&req, &Ok(lines));
    assert_eq!(r.message.as_deref(), Some("Recent context: c | d | e"));
    let r = handle_read_context(&req, &Ok(vec![some("only")]));
    assert_eq!(r.message.as_deref(), Some("Recent context: only"));
    let r = handle_read_context(&req, &Ok(vec![None, None]));
    assert_eq!(r.message.as_deref(), Some("No saved context yet."));
    let r = handle_read_context(&req, &Err("memory read error: missing".to_string()));
    assert_eq!((r.status.as_str(), r.message.as_deref()), ("ok", Some("No saved context yet.")));
}

#[test]
fn list_files_joins_names() {
    let req = request("list_files", Some("/tmp"));
    let r = handle_list_files(&req, &Ok(vec!["a".to_string(), "b".to_string()]));
    assert_eq!(r.message.as_deref(), Some("a\nb"));
    let r = handle_list_files(&req, &Err("No such file or directory (os error 2)".to_string()));
    assert_eq!((r.status.as_str(), r.message.as_deref()), ("error", Some("failed to list files: No such file or directory (os error 2)")));
}

#[test]
fn tool_handlers() {
    let req = request("weather_get", None);
    let call = run(handle_weather_get(&req, "/opt/weather.py", &None));
    assert_eq!((call.program.as_str(), call.args.clone()), ("python3", vec!["/opt/weather.py".to_string(), "today".to_string()]));
    let done = |success: bool, out: &str, errs: &str| Some(ToolOutcome::Finished { success, stdout: out.to_string(), stderr: errs.to_string() });
    assert_eq!(reply(handle_weather_get(&req, "w", &done(true, "  sunny\n", ""))).1.as_deref(), Some("sunny"));
    assert_eq!(reply(handle_weather_get(&req, "w", &done(true, " \n", ""))).1.as_deref(), Some("Weather unavailable."));
    assert_eq!(reply(handle_weather_get(&req, "w", &done(false, "", " boom \n"))), ("error".to_string(), Some("weather tool failed: boom".to_string())));
    assert_eq!(reply(handle_weather_get(&req, "w", &Some(ToolOutcome::LaunchFailed("No such file".to_string())))).1.as_deref(), Some("weather tool launch failed: No such file"));
    let cal = request("calendar_add_event", Some("lunch 12:00"));
    assert_eq!(run(handle_calendar_add_event(&cal, "c", &None)).args, vec!["c".to_string(), "add".to_string(), "lunch 12:00".to_string()]);
    assert_eq!(reply(handle_calendar_add_event(&request("calendar_add_event", None), "c", &None)).1.as_deref(), Some("missing calendar payload"));
    assert_eq!(reply(handle_email_draft(&request("email_draft", None), "m", &None)).1.as_deref(), Some("missing draft payload"));
    let outfit = request("plan_day_outfit", None);
    assert_eq!(reply(handle_plan_day_outfit(&outfit, "p", &done(false, "", "  "))).1.as_deref(), Some("failed to build clothing recommendation"));
    assert_eq!(reply(handle_plan_day_outfit(&outfit, "p", &done(false, "", "no data"))).1.as_deref(), Some("no data"));
    assert_eq!(reply(handle_plan_day_outfit(&outfit, "p", &Some(ToolOutcome::LaunchFailed("x".to_string())))).1.as_deref(), Some("planner failed: x"));
    assert_eq!(reply(handle_plan_day_outfit(&outfit, "p", &done(true, "", ""))).1.as_deref(), Some("No outfit recommendation available."));
}
