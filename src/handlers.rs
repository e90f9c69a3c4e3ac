//! The handler registry and the handlers. A handler that needs the operating
//! system is a step function: given its request and the outcomes of the
//! commands run for it so far, it names the next command to run or gives
//! its reply. The caller runs each command and calls it again.
use vstd::prelude::*;
use vstd::string::{StrSliceExecFns, StringExecFns};
use crate::model::{join, opt_str_view, error_reply, error_response, ok_reply, ok_response,
    strs_view, ActionRequest, ActionResponse, Capabilities, CapabilitiesView, RequestView,
    ResponseView};
use crate::text::{chars_of, decimal, decimal_string, string_from_chars, trim, trim_chars};
use crate::policy::{package_list, parse_package_payload};
use crate::validate::{is_safe_http_url, is_valid_app_name, is_valid_package_name,
    parse_percent_value, percent_of, safe_http_url, valid_app_name, valid_package_name};

verus! {

pub struct CallView {
    pub program: Seq<char>,
    pub args: Seq<Seq<char>>,
    pub noninteractive: bool,
}

/// A command to run: program, arguments, and whether it runs with
/// `DEBIAN_FRONTEND=noninteractive`.
#[derive(Debug, Clone)]
pub struct CommandCall {
    pub program: String,
    pub args: Vec<String>,
    pub noninteractive: bool,
}

impl View for CommandCall {
    type V = CallView;

    open spec fn view(&self) -> CallView {
        CallView {
            program: self.program@,
            args: strs_view(self.args@),
            noninteractive: self.noninteractive,
        }
    }
}

pub enum HandlerStepView {
    Reply(ResponseView),
    Run(CallView),
    AppendNote(Seq<char>),
}

/// What a handler asks for next.
#[derive(Debug, Clone)]
pub enum HandlerStep {
    Reply(ActionResponse),
    Run(CommandCall),
    /// Append this note to the memory notes; the outcome is `Ok` once stored.
    AppendNote(String),
}

impl View for HandlerStep {
    type V = HandlerStepView;

    open spec fn view(&self) -> HandlerStepView {
        match self {
            HandlerStep::Reply(r) => HandlerStepView::Reply(r@),
            HandlerStep::Run(c) => HandlerStepView::Run(c@),
            HandlerStep::AppendNote(n) => HandlerStepView::AppendNote(n@),
        }
    }
}

/// The outcome of a command: its output, or the message of its failure.
pub open spec fn outcome_view(r: Result<String, String>) -> Result<Seq<char>, Seq<char>> {
    match r {
        Ok(s) => Ok(s@),
        Err(e) => Err(e@),
    }
}

pub open spec fn outcomes(done: Seq<Result<String, String>>) -> Seq<Result<Seq<char>, Seq<char>>> {
    done.map_values(|r: Result<String, String>| outcome_view(r))
}

/// The reply once a command has finished: `ok_message` on success, the
/// failure's own message otherwise.
pub open spec fn finish_view(action: Seq<char>, outcome: Result<Seq<char>, Seq<char>>, ok_message: Seq<char>) -> HandlerStepView {
    match outcome {
        Ok(_) => HandlerStepView::Reply(ok_reply(action, ok_message)),
        Err(e) => HandlerStepView::Reply(error_reply(action, e)),
    }
}

fn finish(req: &ActionRequest, outcome: &Result<String, String>, ok_message: &str) -> (r: HandlerStep)
    ensures
        r@ == finish_view(req@.name, outcome_view(*outcome), ok_message@),
{
    match outcome {
        Ok(_) => HandlerStep::Reply(ok_response(req.name.as_str(), ok_message)),
        Err(e) => HandlerStep::Reply(error_response(req.name.as_str(), e.as_str())),
    }
}

fn reply_error(req: &ActionRequest, message: &str) -> (r: HandlerStep)
    ensures
        r@ == HandlerStepView::Reply(error_reply(req@.name, message@)),
{
    HandlerStep::Reply(error_response(req.name.as_str(), message))
}

fn strings_of(items: &[&str]) -> (r: Vec<String>)
    ensures
        strs_view(r@) == items@.map_values(|s: &str| s@),
{
    let mut r: Vec<String> = Vec::new();
    let mut i: usize = 0;
    while i < items.len()
        invariant
            i <= items@.len(),
            strs_view(r@) =~= items@.subrange(0, i as int).map_values(|s: &str| s@),
        decreases items@.len() - i,
    {
        let ghost prev = r@;
        r.push(String::from_str(items[i]));
        assert(strs_view(r@) =~= strs_view(prev).push(items@[i as int]@));
        assert(items@.subrange(0, i + 1).map_values(|s: &str| s@) =~= items@.subrange(
            0,
            i as int,
        ).map_values(|s: &str| s@).push(items@[i as int]@));
        i = i + 1;
    }
    assert(items@.subrange(0, items@.len() as int) =~= items@);
    r
}

fn command(program: &str, args: Vec<String>, noninteractive: bool) -> (r: CommandCall)
    ensures
        r@ == (CallView { program: program@, args: strs_view(args@), noninteractive }),
{
    CommandCall { program: String::from_str(program), args, noninteractive }
}

/// The shell test for whether `cmd` is installed.
pub open spec fn probe_view(cmd: Seq<char>) -> CallView {
    CallView {
        program: "sh"@,
        args: seq!["-c"@, "command -v "@ + cmd + " >/dev/null 2>&1"@],
        noninteractive: false,
    }
}

/// A command that succeeds exactly when `cmd` is installed.
pub fn probe_command(cmd: &str) -> (r: CommandCall)
    ensures
        r@ == probe_view(cmd@),
{
    let script = String::from_str("command -v ").concat(cmd).concat(" >/dev/null 2>&1");
    let mut args: Vec<String> = Vec::new();
    args.push(String::from_str("-c"));
    args.push(script);
    let r = command("sh", args, false);
    assert(r@.args =~= probe_view(cmd@).args);
    r
}

/// `{level}%`.
pub open spec fn percent_arg(level: u8) -> Seq<char> {
    decimal(level as nat) + seq!['%']
}

fn percent_string(level: u8) -> (r: String)
    ensures
        r@ == percent_arg(level),
{
    let r = decimal_string(level as u64).concat("%");
    proof {
        reveal_strlit("%");
    }
    r
}

/// The names of all registered actions.
pub open spec fn registered_actions() -> Seq<Seq<char>> {
    seq![
        "package_install"@, "package_remove"@, "system_update"@, "set_volume"@,
        "set_brightness"@, "network_wifi_on"@, "network_wifi_off"@, "network_bluetooth_on"@,
        "network_bluetooth_off"@, "power_reboot"@, "power_shutdown"@, "power_sleep"@,
        "remember"@, "read_context"@, "open_url"@, "open_app"@, "list_files"@, "weather_get"@,
        "calendar_add_event"@, "calendar_list_day"@, "email_inbox_summary"@, "email_search"@,
        "email_draft"@, "plan_day_outfit"@, "ping"@, "get_capabilities"@, "unknown"@,
    ]
}

/// The names of the actions that have a handler.
pub fn action_registry() -> (r: Vec<String>)
    ensures
        strs_view(r@) == registered_actions(),
{
    let names: [&str; 27] = [
        "package_install", "package_remove", "system_update", "set_volume", "set_brightness",
        "network_wifi_on", "network_wifi_off", "network_bluetooth_on", "network_bluetooth_off",
        "power_reboot", "power_shutdown", "power_sleep", "remember", "read_context", "open_url",
        "open_app", "list_files", "weather_get", "calendar_add_event", "calendar_list_day",
        "email_inbox_summary", "email_search", "email_draft", "plan_day_outfit", "ping",
        "get_capabilities", "unknown",
    ];
    let r = strings_of(names.as_slice());
    assert(strs_view(r@) =~= registered_actions());
    r
}

/// The liveness probe: `ok` with `pong`.
pub fn handle_ping(req: &ActionRequest) -> (r: ActionResponse)
    ensures
        r@ == ok_reply(req@.name, "pong"@),
{
    ok_response(req.name.as_str(), "pong")
}

/// Lists every registered action.
pub fn handle_get_capabilities(req: &ActionRequest) -> (r: ActionResponse)
    ensures
        r@ == (ResponseView {
            version: 1,
            action: req@.name,
            status: "ok"@,
            message: None,
            capabilities: Some(
                CapabilitiesView {
                    ipc_version: 1,
                    actions: registered_actions(),
                    protocol_version: 1,
                },
            ),
            confirmation_id: None,
        }),
{
    ActionResponse {
        version: 1,
        action: req.name.clone(),
        status: String::from_str("ok"),
        message: None,
        capabilities: Some(
            Capabilities { ipc_version: 1, actions: action_registry(), protocol_version: 1 },
        ),
        confirmation_id: None,
    }
}

/// The reply to a request the parser could not place.
pub fn handle_unknown(req: &ActionRequest) -> (r: ActionResponse)
    ensures
        r@ == error_reply(
            req@.name,
            "Need clarification: "@ + match req@.payload {
                Some(p) => p,
                None => "I didn't understand."@,
            },
        ),
{
    let detail = match &req.payload {
        Some(p) => p.as_str(),
        None => "I didn't understand.",
    };
    let message = String::from_str("Need clarification: ").concat(detail);
    error_response(req.name.as_str(), message.as_str())
}

/// A handler that runs one command and reports how it went.
pub open spec fn single_command_step(
    req: RequestView,
    done: Seq<Result<Seq<char>, Seq<char>>>,
    call: CallView,
    ok_message: Seq<char>,
) -> HandlerStepView {
    if done.len() == 0 {
        HandlerStepView::Run(call)
    } else {
        finish_view(req.name, done[0], ok_message)
    }
}

fn single_command(
    req: &ActionRequest,
    done: &Vec<Result<String, String>>,
    program: &str,
    args: &[&str],
    ok_message: &str,
) -> (r: HandlerStep)
    ensures
        r@ == single_command_step(
            req@,
            outcomes(done@),
            CallView {
                program: program@,
                args: args@.map_values(|s: &str| s@),
                noninteractive: false,
            },
            ok_message@,
        ),
{
    if done.len() == 0 {
        HandlerStep::Run(command(program, strings_of(args), false))
    } else {
        finish(req, &done[0], ok_message)
    }
}

fn single_command_one(
    req: &ActionRequest,
    done: &Vec<Result<String, String>>,
    program: &str,
    arg: &str,
    ok_message: &str,
) -> (r: HandlerStep)
    ensures
        r@ == single_command_step(
            req@,
            outcomes(done@),
            CallView { program: program@, args: seq![arg@], noninteractive: false },
            ok_message@,
        ),
{
    if done.len() == 0 {
        let mut args: Vec<String> = Vec::new();
        args.push(String::from_str(arg));
        let c = command(program, args, false);
        assert(c@.args =~= seq![arg@]);
        HandlerStep::Run(c)
    } else {
        finish(req, &done[0], ok_message)
    }
}

/// `nmcli radio {kind} {state}`.
pub open spec fn nmcli_view(kind: Seq<char>, state: Seq<char>) -> CallView {
    CallView { program: "nmcli"@, args: seq!["radio"@, kind, state], noninteractive: false }
}

/// `systemctl {verb}`.
pub open spec fn systemctl_view(verb: Seq<char>) -> CallView {
    CallView { program: "systemctl"@, args: seq![verb], noninteractive: false }
}

/// Turns Wi-Fi on.
pub fn handle_wifi_on(req: &ActionRequest, done: &Vec<Result<String, String>>) -> (r: HandlerStep)
    ensures
        r@ == single_command_step(req@, outcomes(done@), nmcli_view("wifi"@, "on"@), "Wi-Fi enabled."@),
{
    let r = single_command(req, done, "nmcli", &["radio", "wifi", "on"], "Wi-Fi enabled.");
    assert(seq!["radio", "wifi", "on"].map_values(|s: &str| s@) =~= seq!["radio"@, "wifi"@, "on"@]);
    r
}

/// Turns Wi-Fi off.
pub fn handle_wifi_off(req: &ActionRequest, done: &Vec<Result<String, String>>) -> (r: HandlerStep)
    ensures
        r@ == single_command_step(req@, outcomes(done@), nmcli_view("wifi"@, "off"@), "Wi-Fi disabled."@),
{
    let r = single_command(req, done, "nmcli", &["radio", "wifi", "off"], "Wi-Fi disabled.");
    assert(seq!["radio", "wifi", "off"].map_values(|s: &str| s@) =~= seq!["radio"@, "wifi"@, "off"@]);
    r
}

/// Turns Bluetooth on.
pub fn handle_bluetooth_on(req: &ActionRequest, done: &Vec<Result<String, String>>) -> (r: HandlerStep)
    ensures
        r@ == single_command_step(
            req@,
            outcomes(done@),
            nmcli_view("bluetooth"@, "on"@),
            "Bluetooth enabled."@,
        ),
{
    let r = single_command(req, done, "nmcli", &["radio", "bluetooth", "on"], "Bluetooth enabled.");
    assert(seq!["radio", "bluetooth", "on"].map_values(|s: &str| s@) =~= seq![
        "radio"@,
        "bluetooth"@,
        "on"@,
    ]);
    r
}

/// Turns Bluetooth off.
pub fn handle_bluetooth_off(req: &ActionRequest, done: &Vec<Result<String, String>>) -> (r: HandlerStep)
    ensures
        r@ == single_command_step(
            req@,
            outcomes(done@),
            nmcli_view("bluetooth"@, "off"@),
            "Bluetooth disabled."@,
        ),
{
    let r = single_command(
        req,
        done,
        "nmcli",
        &["radio", "bluetooth", "off"],
        "Bluetooth disabled.",
    );
    assert(seq!["radio", "bluetooth", "off"].map_values(|s: &str| s@) =~= seq![
        "radio"@,
        "bluetooth"@,
        "off"@,
    ]);
    r
}

/// Reboots the machine.
pub fn handle_power_reboot(req: &ActionRequest, done: &Vec<Result<String, String>>) -> (r: HandlerStep)
    ensures
        r@ == single_command_step(req@, outcomes(done@), systemctl_view("reboot"@), "Rebooting now."@),
{
    single_command_one(req, done, "systemctl", "reboot", "Rebooting now.")
}

/// Powers the machine off.
pub fn handle_power_shutdown(req: &ActionRequest, done: &Vec<Result<String, String>>) -> (r: HandlerStep)
    ensures
        r@ == single_command_step(
            req@,
            outcomes(done@),
            systemctl_view("poweroff"@),
            "Shutting down now."@,
        ),
{
    single_command_one(req, done, "systemctl", "poweroff", "Shutting down now.")
}

/// Suspends the machine.
pub fn handle_power_sleep(req: &ActionRequest, done: &Vec<Result<String, String>>) -> (r: HandlerStep)
    ensures
        r@ == single_command_step(req@, outcomes(done@), systemctl_view("suspend"@), "Sleeping now."@),
{
    single_command_one(req, done, "systemctl", "suspend", "Sleeping now.")
}

/// Setting the volume: check the level, that `pactl` is there, then set it.
pub open spec fn volume_step(req: RequestView, done: Seq<Result<Seq<char>, Seq<char>>>) -> HandlerStepView {
    match req.payload {
        None => HandlerStepView::Reply(error_reply(req.name, "missing volume percentage"@)),
        Some(p) => match percent_of(p) {
            None => HandlerStepView::Reply(error_reply(req.name, "invalid volume percentage"@)),
            Some(level) => if done.len() == 0 {
                HandlerStepView::Run(probe_view("pactl"@))
            } else if done[0] is Err {
                HandlerStepView::Reply(error_reply(req.name, "pactl not available"@))
            } else if done.len() == 1 {
                HandlerStepView::Run(
                    CallView {
                        program: "pactl"@,
                        args: seq!["set-sink-volume"@, "@DEFAULT_SINK@"@, percent_arg(level)],
                        noninteractive: false,
                    },
                )
            } else {
                finish_view(req.name, done[1], "Volume updated."@)
            },
        },
    }
}

/// Sets the output volume to a percentage.
pub fn handle_set_volume(req: &ActionRequest, done: &Vec<Result<String, String>>) -> (r: HandlerStep)
    ensures
        r@ == volume_step(req@, outcomes(done@)),
{
    let raw = match &req.payload {
        None => {
            return reply_error(req, "missing volume percentage");
        },
        Some(p) => p.as_str(),
    };
    let level = match parse_percent_value(raw) {
        None => {
            return reply_error(req, "invalid volume percentage");
        },
        Some(l) => l,
    };
    if done.len() == 0 {
        return HandlerStep::Run(probe_command("pactl"));
    }
    if done[0].is_err() {
        return reply_error(req, "pactl not available");
    }
    if done.len() == 1 {
        let mut args: Vec<String> = Vec::new();
        args.push(String::from_str("set-sink-volume"));
        args.push(String::from_str("@DEFAULT_SINK@"));
        args.push(percent_string(level));
        let c = command("pactl", args, false);
        assert(c@.args =~= seq!["set-sink-volume"@, "@DEFAULT_SINK@"@, percent_arg(level)]);
        return HandlerStep::Run(c);
    }
    finish(req, &done[1], "Volume updated.")
}

/// Setting the brightness: check the level, that `brightnessctl` is there,
/// then set it.
pub open spec fn brightness_step(req: RequestView, done: Seq<Result<Seq<char>, Seq<char>>>) -> HandlerStepView {
    match req.payload {
        None => HandlerStepView::Reply(error_reply(req.name, "missing brightness percentage"@)),
        Some(p) => match percent_of(p) {
            None => HandlerStepView::Reply(error_reply(req.name, "invalid brightness percentage"@)),
            Some(level) => if done.len() == 0 {
                HandlerStepView::Run(probe_view("brightnessctl"@))
            } else if done[0] is Err {
                HandlerStepView::Reply(error_reply(req.name, "brightnessctl not available"@))
            } else if done.len() == 1 {
                HandlerStepView::Run(
                    CallView {
                        program: "brightnessctl"@,
                        args: seq!["set"@, percent_arg(level)],
                        noninteractive: false,
                    },
                )
            } else {
                finish_view(req.name, done[1], "Brightness updated."@)
            },
        },
    }
}

/// Sets the screen brightness to a percentage.
pub fn handle_set_brightness(req: &ActionRequest, done: &Vec<Result<String, String>>) -> (r: HandlerStep)
    ensures
        r@ == brightness_step(req@, outcomes(done@)),
{
    let raw = match &req.payload {
        None => {
            return reply_error(req, "missing brightness percentage");
        },
        Some(p) => p.as_str(),
    };
    let level = match parse_percent_value(raw) {
        None => {
            return reply_error(req, "invalid brightness percentage");
        },
        Some(l) => l,
    };
    if done.len() == 0 {
        return HandlerStep::Run(probe_command("brightnessctl"));
    }
    if done[0].is_err() {
        return reply_error(req, "brightnessctl not available");
    }
    if done.len() == 1 {
        let mut args: Vec<String> = Vec::new();
        args.push(String::from_str("set"));
        args.push(percent_string(level));
        let c = command("brightnessctl", args, false);
        assert(c@.args =~= seq!["set"@, percent_arg(level)]);
        return HandlerStep::Run(c);
    }
    finish(req, &done[1], "Brightness updated.")
}

/// Opening a URL: only a safe http(s) URL goes to `xdg-open`.
pub open spec fn open_url_step(req: RequestView, done: Seq<Result<Seq<char>, Seq<char>>>) -> HandlerStepView {
    match req.payload {
        None => HandlerStepView::Reply(error_reply(req.name, "missing url"@)),
        Some(url) => if !safe_http_url(url) {
            HandlerStepView::Reply(error_reply(req.name, "unsupported or unsafe url"@))
        } else {
            single_command_step(
                req,
                done,
                CallView { program: "xdg-open"@, args: seq![url], noninteractive: false },
                "Opening browser."@,
            )
        },
    }
}

/// Opens a URL in the browser.
pub fn handle_open_url(req: &ActionRequest, done: &Vec<Result<String, String>>) -> (r: HandlerStep)
    ensures
        r@ == open_url_step(req@, outcomes(done@)),
{
    let url = match &req.payload {
        None => {
            return reply_error(req, "missing url");
        },
        Some(u) => u.as_str(),
    };
    if !is_safe_http_url(url) {
        return reply_error(req, "unsupported or unsafe url");
    }
    single_command_one(req, done, "xdg-open", url, "Opening browser.")
}

/// Launching an app: with `gtk-launch` when installed, else `kstart5`, else
/// `xdg-open`.
pub open spec fn open_app_step(req: RequestView, done: Seq<Result<Seq<char>, Seq<char>>>) -> HandlerStepView {
    match req.payload {
        None => HandlerStepView::Reply(error_reply(req.name, "missing app name"@)),
        Some(app) => if !valid_app_name(app) {
            HandlerStepView::Reply(error_reply(req.name, "invalid app name"@))
        } else if done.len() == 0 {
            HandlerStepView::Run(probe_view("gtk-launch"@))
        } else if done[0] is Ok {
            single_command_step(
                req,
                done.subrange(1, done.len() as int),
                CallView { program: "gtk-launch"@, args: seq![app], noninteractive: false },
                "Launching app."@,
            )
        } else if done.len() == 1 {
            HandlerStepView::Run(probe_view("kstart5"@))
        } else if done[1] is Ok {
            single_command_step(
                req,
                done.subrange(2, done.len() as int),
                CallView { program: "kstart5"@, args: seq![app], noninteractive: false },
                "Launching app."@,
            )
        } else {
            single_command_step(
                req,
                done.subrange(2, done.len() as int),
                CallView { program: "xdg-open"@, args: seq![app], noninteractive: false },
                "Launching app."@,
            )
        },
    }
}

fn launch_with(
    req: &ActionRequest,
    done: &Vec<Result<String, String>>,
    skip: usize,
    program: &str,
    app: &str,
) -> (r: HandlerStep)
    requires
        skip <= done@.len(),
    ensures
        r@ == single_command_step(
            req@,
            outcomes(done@).subrange(skip as int, done@.len() as int),
            CallView { program: program@, args: seq![app@], noninteractive: false },
            "Launching app."@,
        ),
{
    let ghost rest = outcomes(done@).subrange(skip as int, done@.len() as int);
    if done.len() == skip {
        let mut args: Vec<String> = Vec::new();
        args.push(String::from_str(app));
        let c = command(program, args, false);
        assert(c@.args =~= seq![app@]);
        HandlerStep::Run(c)
    } else {
        assert(rest[0] == outcome_view(done@[skip as int]));
        finish(req, &done[skip], "Launching app.")
    }
}

/// Launches a desktop application.
pub fn handle_open_app(req: &ActionRequest, done: &Vec<Result<String, String>>) -> (r: HandlerStep)
    ensures
        r@ == open_app_step(req@, outcomes(done@)),
{
    let app = match &req.payload {
        None => {
            return reply_error(req, "missing app name");
        },
        Some(a) => a.as_str(),
    };
    if !is_valid_app_name(app) {
        return reply_error(req, "invalid app name");
    }
    if done.len() == 0 {
        return HandlerStep::Run(probe_command("gtk-launch"));
    }
    if done[0].is_ok() {
        return launch_with(req, done, 1, "gtk-launch", app);
    }
    if done.len() == 1 {
        return HandlerStep::Run(probe_command("kstart5"));
    }
    if done[1].is_ok() {
        launch_with(req, done, 2, "kstart5", app)
    } else {
        launch_with(req, done, 2, "xdg-open", app)
    }
}

/// Whether a package name holds a dot, which marks a Flatpak application ID.
pub open spec fn has_dot(s: Seq<char>) -> bool {
    s.contains('.')
}

fn contains_dot(s: &str) -> (r: bool)
    ensures
        r == has_dot(s@),
{
    let cs = chars_of(s);
    let mut i: usize = 0;
    while i < cs.len()
        invariant
            i <= cs@.len(),
            cs@ == s@,
            forall|k: int| 0 <= k < i ==> cs@[k] != '.',
        decreases cs@.len() - i,
    {
        if cs[i] == '.' {
            return true;
        }
        i = i + 1;
    }
    false
}

/// The command that installs (or removes) one package: Flatpak from Flathub
/// for an application ID when Flatpak is there, else apt.
pub open spec fn package_call(pkg: Seq<char>, via_flatpak: bool, install: bool) -> CallView {
    if via_flatpak {
        if install {
            CallView {
                program: "flatpak"@,
                args: seq!["install"@, "-y"@, "flathub"@, pkg],
                noninteractive: false,
            }
        } else {
            CallView { program: "flatpak"@, args: seq!["uninstall"@, "-y"@, pkg], noninteractive: false }
        }
    } else {
        CallView {
            program: "apt-get"@,
            args: seq![if install { "install"@ } else { "remove"@ }, "-y"@, pkg],
            noninteractive: true,
        }
    }
}

/// How a package was handled, for the reply.
pub open spec fn package_label(pkg: Seq<char>, via_flatpak: bool) -> Seq<char> {
    pkg + if via_flatpak {
        " via flatpak"@
    } else {
        " via apt"@
    }
}

pub open spec fn package_labels(pkgs: Seq<Seq<char>>, flatpak: bool) -> Seq<Seq<char>> {
    pkgs.map_values(|p: Seq<char>| package_label(p, flatpak && has_dot(p)))
}

pub open spec fn package_done_message(labels: Seq<Seq<char>>, install: bool) -> Seq<char> {
    if install {
        "I installed this for you: "@ + join(labels, ", "@) + ". You're all set."@
    } else {
        "I removed this for you: "@ + join(labels, ", "@) + ". Done."@
    }
}

/// Installing (or removing) a comma-separated list of packages: at most 20
/// valid names; Flatpak is probed once when an application ID is among
/// them; then one command per package, in order, stopping at a failure.
pub open spec fn package_step(
    req: RequestView,
    done: Seq<Result<Seq<char>, Seq<char>>>,
    install: bool,
) -> HandlerStepView {
    match req.payload {
        None => HandlerStepView::Reply(error_reply(req.name, "missing package list"@)),
        Some(p) => {
            let pkgs = package_list(p);
            if pkgs.len() == 0 {
                HandlerStepView::Reply(error_reply(req.name, "empty package list"@))
            } else if pkgs.len() > 20 {
                HandlerStepView::Reply(error_reply(req.name, "too many packages requested"@))
            } else if exists|i: int| 0 <= i < pkgs.len() && !valid_package_name(#[trigger] pkgs[i]) {
                HandlerStepView::Reply(error_reply(req.name, "invalid package name"@))
            } else {
                let probed = exists|i: int| 0 <= i < pkgs.len() && has_dot(#[trigger] pkgs[i]);
                if probed && done.len() == 0 {
                    HandlerStepView::Run(probe_view("flatpak"@))
                } else {
                    let off: int = if probed { 1 } else { 0 };
                    let flatpak = probed && done[0] is Ok;
                    let k = done.len() - off;
                    if k > 0 && done.last() is Err {
                        HandlerStepView::Reply(error_reply(req.name, done.last()->Err_0))
                    } else if k < pkgs.len() {
                        HandlerStepView::Run(
                            package_call(pkgs[k], flatpak && has_dot(pkgs[k]), install),
                        )
                    } else {
                        HandlerStepView::Reply(
                            ok_reply(req.name, package_done_message(package_labels(pkgs, flatpak), install)),
                        )
                    }
                }
            }
        },
    }
}

fn package_command(pkg: &str, via_flatpak: bool, install: bool) -> (r: CommandCall)
    ensures
        r@ == package_call(pkg@, via_flatpak, install),
{
    let mut args: Vec<String> = Vec::new();
    let r = if via_flatpak {
        if install {
            args.push(String::from_str("install"));
            args.push(String::from_str("-y"));
            args.push(String::from_str("flathub"));
        } else {
            args.push(String::from_str("uninstall"));
            args.push(String::from_str("-y"));
        }
        args.push(String::from_str(pkg));
        command("flatpak", args, false)
    } else {
        args.push(String::from_str(if install { "install" } else { "remove" }));
        args.push(String::from_str("-y"));
        args.push(String::from_str(pkg));
        command("apt-get", args, true)
    };
    assert(r@.args =~= package_call(pkg@, via_flatpak, install).args);
    r
}

fn done_message(pkgs: &Vec<String>, flatpak: bool, install: bool) -> (r: String)
    ensures
        r@ == package_done_message(package_labels(strs_view(pkgs@), flatpak), install),
{
    let ghost labels = package_labels(strs_view(pkgs@), flatpak);
    let mut acc = String::new();
    let mut i: usize = 0;
    while i < pkgs.len()
        invariant
            i <= pkgs@.len(),
            labels == package_labels(strs_view(pkgs@), flatpak),
            acc@ == join(labels.subrange(0, i as int), ", "@),
        decreases pkgs@.len() - i,
    {
        let pkg = pkgs[i].as_str();
        let via = flatpak && contains_dot(pkg);
        let label = String::from_str(pkg).concat(if via { " via flatpak" } else { " via apt" });
        assert(label@ == labels[i as int]);
        assert(labels.subrange(0, i + 1).drop_last() =~= labels.subrange(0, i as int));
        if i > 0 {
            acc = acc.concat(", ");
        }
        acc = acc.concat(label.as_str());
        proof {
            if i == 0 {
                assert(acc@ =~= join(labels.subrange(0, 1), ", "@));
            }
        }
        i = i + 1;
    }
    assert(labels.subrange(0, pkgs@.len() as int) =~= labels);
    if install {
        String::from_str("I installed this for you: ").concat(acc.as_str()).concat(
            ". You're all set.",
        )
    } else {
        String::from_str("I removed this for you: ").concat(acc.as_str()).concat(". Done.")
    }
}

fn package_handler(req: &ActionRequest, done: &Vec<Result<String, String>>, install: bool) -> (r:
    HandlerStep)
    ensures
        r@ == package_step(req@, outcomes(done@), install),
{
    let payload = match &req.payload {
        None => {
            return reply_error(req, "missing package list");
        },
        Some(p) => p.as_str(),
    };
    let pkgs = parse_package_payload(payload);
    let ghost pv = strs_view(pkgs@);
    if pkgs.len() == 0 {
        return reply_error(req, "empty package list");
    }
    if pkgs.len() > 20 {
        return reply_error(req, "too many packages requested");
    }
    let mut probed = false;
    let mut i: usize = 0;
    while i < pkgs.len()
        invariant
            i <= pkgs@.len(),
            0 < pkgs@.len() <= 20,
            pv == strs_view(pkgs@),
            pv == package_list(payload@),
            req@.payload == Some(payload@),
            forall|k: int| 0 <= k < i ==> valid_package_name(#[trigger] pv[k]),
            probed == exists|k: int| 0 <= k < i && has_dot(#[trigger] pv[k]),
        decreases pkgs@.len() - i,
    {
        assert(pv[i as int] == pkgs@[i as int]@);
        if !is_valid_package_name(pkgs[i].as_str()) {
            assert(!valid_package_name(pv[i as int]));
            assert(exists|j: int| 0 <= j < pv.len() && !valid_package_name(#[trigger] pv[j]));
            return reply_error(req, "invalid package name");
        }
        if contains_dot(pkgs[i].as_str()) {
            probed = true;
        }
        i = i + 1;
    }
    if probed && done.len() == 0 {
        return HandlerStep::Run(probe_command("flatpak"));
    }
    let off: usize = if probed {
        1
    } else {
        0
    };
    let flatpak = probed && done[0].is_ok();
    let k = done.len() - off;
    if k > 0 {
        if let Err(e) = &done[done.len() - 1] {
            return reply_error(req, e.as_str());
        }
    }
    if k < pkgs.len() {
        let pkg = pkgs[k].as_str();
        assert(pv[k as int] == pkg@);
        let via = flatpak && contains_dot(pkg);
        return HandlerStep::Run(package_command(pkg, via, install));
    }
    HandlerStep::Reply(ok_response(req.name.as_str(), done_message(&pkgs, flatpak, install).as_str()))
}

/// Installs the packages of a comma-separated list.
pub fn handle_package_install(req: &ActionRequest, done: &Vec<Result<String, String>>) -> (r:
    HandlerStep)
    ensures
        r@ == package_step(req@, outcomes(done@), true),
{
    package_handler(req, done, true)
}

/// Removes the packages of a comma-separated list.
pub fn handle_package_remove(req: &ActionRequest, done: &Vec<Result<String, String>>) -> (r:
    HandlerStep)
    ensures
        r@ == package_step(req@, outcomes(done@), false),
{
    package_handler(req, done, false)
}

/// Whether `p` occurs in `s`.
pub open spec fn contains_text(s: Seq<char>, p: Seq<char>) -> bool {
    exists|i: int| 0 <= i && i + p.len() <= s.len() && #[trigger] s.subrange(i, i + p.len()) == p
}

fn matches_at(s: &Vec<char>, p: &Vec<char>, at: usize) -> (r: bool)
    requires
        at + p@.len() <= s@.len(),
    ensures
        r == (s@.subrange(at as int, at + p@.len()) == p@),
{
    let n = s.len();
    let mut i: usize = 0;
    while i < p.len()
        invariant
            n == s@.len(),
            at + p@.len() <= s@.len(),
            i <= p@.len(),
            forall|k: int| 0 <= k < i ==> s@[at + k] == p@[k],
        decreases p@.len() - i,
    {
        if s[at + i] != p[i] {
            assert(s@.subrange(at as int, at + p@.len())[i as int] != p@[i as int]);
            return false;
        }
        i = i + 1;
    }
    assert(s@.subrange(at as int, at + p@.len()) =~= p@);
    true
}

/// Whether `pattern` occurs in `text`.
pub fn has_text(text: &str, pattern: &str) -> (r: bool)
    ensures
        r == contains_text(text@, pattern@),
{
    let s = chars_of(text);
    let p = chars_of(pattern);
    if p.len() > s.len() {
        return false;
    }
    if p.len() == 0 {
        assert(s@.subrange(0, 0 + p@.len() as int) =~= p@);
        assert(text@.subrange(0int, 0int + pattern@.len()) == pattern@);
        return true;
    }
    let last = s.len() - p.len();
    let mut i: usize = 0;
    while i <= last
        invariant
            s@ == text@,
            p@ == pattern@,
            last + p@.len() == s@.len(),
            p@.len() > 0,
            last < s.len(),
            i <= last + 1,
            forall|k: int| 0 <= k < i ==> #[trigger] s@.subrange(k, k + p@.len()) != p@,
        decreases last + 1 - i,
    {
        if matches_at(&s, &p, i) {
            return true;
        }
        i = i + 1;
    }
    false
}

/// The file whose presence marks an immutable system.
pub open spec fn immutable_flag() -> Seq<char> {
    "/etc/ai-distro/immutable"@
}

pub open spec fn update_denied_message() -> Seq<char> {
    "I need administrator permission to update system packages. Please confirm the action in the privileged agent session."@
}

pub open spec fn upgrade_denied_message() -> Seq<char> {
    "I need administrator permission to apply updates. Please confirm the action in the privileged agent session."@
}

/// Updating the system: an immutable system only reports; otherwise apt
/// update, apt upgrade, then Flatpak apps when Flatpak is there. A failure
/// for want of privileges is reported as such.
pub open spec fn system_update_step(req: RequestView, done: Seq<Result<Seq<char>, Seq<char>>>) -> HandlerStepView {
    if done.len() == 0 {
        HandlerStepView::Run(
            CallView { program: "test"@, args: seq!["-e"@, immutable_flag()], noninteractive: false },
        )
    } else if done[0] is Ok {
        HandlerStepView::Reply(
            ok_reply(
                req.name,
                "System is immutable. Checking for OTA updates... (Simulator: System is up to date)."@,
            ),
        )
    } else if done.len() == 1 {
        HandlerStepView::Run(
            CallView { program: "apt-get"@, args: seq!["update"@], noninteractive: true },
        )
    } else if done[1] is Err {
        let e = done[1]->Err_0;
        if contains_text(e, "Permission denied"@) || contains_text(e, "Unable to lock directory"@) {
            HandlerStepView::Reply(error_reply(req.name, update_denied_message()))
        } else {
            HandlerStepView::Reply(error_reply(req.name, e))
        }
    } else if done.len() == 2 {
        HandlerStepView::Run(
            CallView { program: "apt-get"@, args: seq!["upgrade"@, "-y"@], noninteractive: true },
        )
    } else if done[2] is Err {
        let e = done[2]->Err_0;
        if contains_text(e, "Permission denied"@) || contains_text(
            e,
            "Unable to acquire the dpkg frontend lock"@,
        ) {
            HandlerStepView::Reply(error_reply(req.name, upgrade_denied_message()))
        } else {
            HandlerStepView::Reply(error_reply(req.name, e))
        }
    } else if done.len() == 3 {
        HandlerStepView::Run(probe_view("flatpak"@))
    } else if done[3] is Err {
        HandlerStepView::Reply(ok_reply(req.name, "I finished updating your system."@))
    } else if done.len() == 4 {
        HandlerStepView::Run(
            CallView { program: "flatpak"@, args: seq!["update"@, "-y"@], noninteractive: false },
        )
    } else {
        match done[4] {
            Ok(_) => HandlerStepView::Reply(
                ok_reply(req.name, "I finished updating your system and Flatpak apps."@),
            ),
            Err(e) => HandlerStepView::Reply(
                ok_reply(
                    req.name,
                    "I finished updating your system. Flatpak apps could not be updated: "@ + e,
                ),
            ),
        }
    }
}

fn reply_ok(req: &ActionRequest, message: &str) -> (r: HandlerStep)
    ensures
        r@ == HandlerStepView::Reply(ok_reply(req@.name, message@)),
{
    HandlerStep::Reply(ok_response(req.name.as_str(), message))
}

/// Updates the system packages.
pub fn handle_system_update(req: &ActionRequest, done: &Vec<Result<String, String>>) -> (r:
    HandlerStep)
    ensures
        r@ == system_update_step(req@, outcomes(done@)),
{
    if done.len() == 0 {
        let mut args: Vec<String> = Vec::new();
        args.push(String::from_str("-e"));
        args.push(String::from_str("/etc/ai-distro/immutable"));
        let c = command("test", args, false);
        assert(c@.args =~= seq!["-e"@, immutable_flag()]);
        return HandlerStep::Run(c);
    }
    if done[0].is_ok() {
        return reply_ok(
            req,
            "System is immutable. Checking for OTA updates... (Simulator: System is up to date).",
        );
    }
    if done.len() == 1 {
        let mut args: Vec<String> = Vec::new();
        args.push(String::from_str("update"));
        let c = command("apt-get", args, true);
        assert(c@.args =~= seq!["update"@]);
        return HandlerStep::Run(c);
    }
    if let Err(e) = &done[1] {
        let e = e.as_str();
        if has_text(e, "Permission denied") || has_text(e, "Unable to lock directory") {
            return reply_error(
                req,
                "I need administrator permission to update system packages. Please confirm the action in the privileged agent session.",
            );
        }
        return reply_error(req, e);
    }
    if done.len() == 2 {
        let mut args: Vec<String> = Vec::new();
        args.push(String::from_str("upgrade"));
        args.push(String::from_str("-y"));
        let c = command("apt-get", args, true);
        assert(c@.args =~= seq!["upgrade"@, "-y"@]);
        return HandlerStep::Run(c);
    }
    if let Err(e) = &done[2] {
        let e = e.as_str();
        if has_text(e, "Permission denied") || has_text(e, "Unable to acquire the dpkg frontend lock") {
            return reply_error(
                req,
                "I need administrator permission to apply updates. Please confirm the action in the privileged agent session.",
            );
        }
        return reply_error(req, e);
    }
    if done.len() == 3 {
        return HandlerStep::Run(probe_command("flatpak"));
    }
    if done[3].is_err() {
        return reply_ok(req, "I finished updating your system.");
    }
    if done.len() == 4 {
        let mut args: Vec<String> = Vec::new();
        args.push(String::from_str("update"));
        args.push(String::from_str("-y"));
        let c = command("flatpak", args, false);
        assert(c@.args =~= seq!["update"@, "-y"@]);
        return HandlerStep::Run(c);
    }
    match &done[4] {
        Ok(_) => reply_ok(req, "I finished updating your system and Flatpak apps."),
        Err(e) => {
            let msg = String::from_str(
                "I finished updating your system. Flatpak apps could not be updated: ",
            ).concat(e.as_str());
            reply_ok(req, msg.as_str())
        },
    }
}

/// `parts` joined with `sep`.
pub fn join_strings(parts: &Vec<String>, sep: &str) -> (r: String)
    ensures
        r@ == join(strs_view(parts@), sep@),
{
    let ghost views = strs_view(parts@);
    let mut acc = String::new();
    let mut i: usize = 0;
    while i < parts.len()
        invariant
            i <= parts@.len(),
            views == strs_view(parts@),
            acc@ == join(views.subrange(0, i as int), sep@),
        decreases parts@.len() - i,
    {
        assert(views.subrange(0, i + 1).drop_last() =~= views.subrange(0, i as int));
        assert(views[i as int] == parts@[i as int]@);
        if i > 0 {
            acc = acc.concat(sep);
        }
        acc = acc.concat(parts[i].as_str());
        proof {
            if i == 0 {
                assert(acc@ =~= join(views.subrange(0, 1), sep@));
            }
        }
        i = i + 1;
    }
    assert(views.subrange(0, parts@.len() as int) =~= views);
    acc
}

/// Remembering a note: store it, then confirm.
pub open spec fn remember_step(req: RequestView, done: Seq<Result<Seq<char>, Seq<char>>>) -> HandlerStepView {
    match req.payload {
        None => HandlerStepView::Reply(error_reply(req.name, "missing memory text"@)),
        Some(note) => if done.len() == 0 {
            HandlerStepView::AppendNote(note)
        } else {
            finish_view(req.name, done[0], "I'll remember that."@)
        },
    }
}

/// Stores the payload as a memory note.
pub fn handle_remember(req: &ActionRequest, done: &Vec<Result<String, String>>) -> (r: HandlerStep)
    ensures
        r@ == remember_step(req@, outcomes(done@)),
{
    match &req.payload {
        None => reply_error(req, "missing memory text"),
        Some(note) => if done.len() == 0 {
            HandlerStep::AppendNote(note.clone())
        } else {
            finish(req, &done[0], "I'll remember that.")
        },
    }
}

/// The notes among `lines`, in order.
pub open spec fn notes_of(lines: Seq<Option<Seq<char>>>) -> Seq<Seq<char>>
    decreases lines.len(),
{
    if lines.len() == 0 {
        Seq::<Seq<char>>::empty()
    } else {
        let rest = notes_of(lines.drop_last());
        match lines.last() {
            Some(n) => rest.push(n),
            None => rest,
        }
    }
}

/// The notes of the last `limit` lines of the notes file.
pub open spec fn recent_notes(lines: Seq<Option<Seq<char>>>, limit: nat) -> Seq<Seq<char>> {
    if lines.len() <= limit {
        notes_of(lines)
    } else {
        notes_of(lines.subrange(lines.len() - limit, lines.len() as int))
    }
}

pub open spec fn opt_strs_view(v: Seq<Option<String>>) -> Seq<Option<Seq<char>>> {
    v.map_values(|o: Option<String>| opt_str_view(o))
}

/// The reply to `read_context`, given the note of each line of the notes
/// file (none for a line without one), or the reason it could not be read.
pub open spec fn read_context_reply(name: Seq<char>, lines: Result<Seq<Option<Seq<char>>>, Seq<char>>) -> ResponseView {
    let notes = match lines {
        Ok(ls) => recent_notes(ls, 5),
        Err(_) => Seq::<Seq<char>>::empty(),
    };
    if notes.len() == 0 {
        ok_reply(name, "No saved context yet."@)
    } else {
        ok_reply(name, "Recent context: "@ + join(notes, " | "@))
    }
}

/// Summarises the five most recent lines of the memory notes.
pub fn handle_read_context(req: &ActionRequest, lines: &Result<Vec<Option<String>>, String>) -> (r:
    ActionResponse)
    ensures
        r@ == read_context_reply(
            req@.name,
            match lines {
                Ok(ls) => Ok(opt_strs_view(ls@)),
                Err(e) => Err(e@),
            },
        ),
{
    let mut notes: Vec<String> = Vec::new();
    if let Ok(ls) = lines {
        let ghost lv = opt_strs_view(ls@);
        let start: usize = if ls.len() > 5 {
            ls.len() - 5
        } else {
            0
        };
        let ghost window = lv.subrange(start as int, lv.len() as int);
        assert(recent_notes(lv, 5) == notes_of(window)) by {
            if lv.len() <= 5 {
                assert(window =~= lv);
            }
        }
        let mut i: usize = start;
        assert(window.subrange(0, 0) =~= Seq::<Option<Seq<char>>>::empty());
        while i < ls.len()
            invariant
                start <= i <= ls@.len(),
                lv == opt_strs_view(ls@),
                window == lv.subrange(start as int, lv.len() as int),
                strs_view(notes@) =~= notes_of(window.subrange(0, i - start)),
            decreases ls@.len() - i,
        {
            assert(window.subrange(0, i + 1 - start).drop_last() =~= window.subrange(0, i - start));
            assert(window[i - start] == opt_str_view(ls@[i as int]));
            if let Some(n) = &ls[i] {
                let ghost prev = notes@;
                notes.push(n.clone());
                assert(strs_view(notes@) =~= strs_view(prev).push(n@));
            }
            i = i + 1;
        }
        assert(window.subrange(0, ls@.len() - start) =~= window);
    }
    if notes.len() == 0 {
        return ok_response(req.name.as_str(), "No saved context yet.");
    }
    let summary = String::from_str("Recent context: ").concat(join_strings(&notes, " | ").as_str());
    ok_response(req.name.as_str(), summary.as_str())
}

/// The reply to `list_files`, given the names in the directory or the reason
/// it could not be read.
pub open spec fn list_files_reply(name: Seq<char>, listing: Result<Seq<Seq<char>>, Seq<char>>) -> ResponseView {
    match listing {
        Ok(names) => ok_reply(name, join(names, seq!['\n'])),
        Err(e) => error_reply(name, "failed to list files: "@ + e),
    }
}

/// Lists a directory, one name per line.
pub fn handle_list_files(req: &ActionRequest, listing: &Result<Vec<String>, String>) -> (r:
    ActionResponse)
    ensures
        r@ == list_files_reply(
            req@.name,
            match listing {
                Ok(ns) => Ok(strs_view(ns@)),
                Err(e) => Err(e@),
            },
        ),
{
    match listing {
        Ok(names) => {
            let text = join_strings(names, "\n");
            proof {
                reveal_strlit("\n");
                assert("\n"@ =~= seq!['\n']);
            }
            ok_response(req.name.as_str(), text.as_str())
        },
        Err(e) => {
            let msg = String::from_str("failed to list files: ").concat(e.as_str());
            error_response(req.name.as_str(), msg.as_str())
        },
    }
}

pub enum ToolOutcomeView {
    Finished(bool, Seq<char>, Seq<char>),
    LaunchFailed(Seq<char>),
}

/// How a tool script ended.
#[derive(Debug, Clone)]
pub enum ToolOutcome {
    /// It ran: whether it exited successfully, and what it printed on
    /// standard output and standard error.
    Finished { success: bool, stdout: String, stderr: String },
    /// It could not be started, for this reason.
    LaunchFailed(String),
}

impl View for ToolOutcome {
    type V = ToolOutcomeView;

    open spec fn view(&self) -> ToolOutcomeView {
        match self {
            ToolOutcome::Finished { success, stdout, stderr } => ToolOutcomeView::Finished(
                *success,
                stdout@,
                stderr@,
            ),
            ToolOutcome::LaunchFailed(e) => ToolOutcomeView::LaunchFailed(e@),
        }
    }
}

pub open spec fn opt_tool_view(o: Option<ToolOutcome>) -> Option<ToolOutcomeView> {
    match o {
        Some(t) => Some(t@),
        None => None,
    }
}

pub open spec fn colon() -> Seq<char> {
    ": "@
}

/// A tool script run with `python3 {tool} [{sub}] {payload}`: its trimmed
/// output is the reply (`empty` when there is none); a failure reports the
/// trimmed standard error after `failed`, a launch failure its reason after
/// `launch_failed`. Without a payload, `default_payload` is used, or the
/// request fails with `missing` when there is no default.
pub open spec fn tool_step(
    req: RequestView,
    tool: Seq<char>,
    sub: Option<Seq<char>>,
    default_payload: Option<Seq<char>>,
    missing: Seq<char>,
    empty: Seq<char>,
    failed: Seq<char>,
    launch_failed: Seq<char>,
    outcome: Option<ToolOutcomeView>,
) -> HandlerStepView {
    let payload = match req.payload {
        Some(p) => Some(p),
        None => default_payload,
    };
    match payload {
        None => HandlerStepView::Reply(error_reply(req.name, missing)),
        Some(p) => match outcome {
            None => HandlerStepView::Run(
                CallView {
                    program: "python3"@,
                    args: match sub {
                        Some(sv) => seq![tool, sv, p],
                        None => seq![tool, p],
                    },
                    noninteractive: false,
                },
            ),
            Some(ToolOutcomeView::Finished(true, out, _)) => {
                let m = trim(out);
                HandlerStepView::Reply(ok_reply(req.name, if m.len() == 0 { empty } else { m }))
            },
            Some(ToolOutcomeView::Finished(false, _, err)) => HandlerStepView::Reply(
                error_reply(req.name, failed + colon() + trim(err)),
            ),
            Some(ToolOutcomeView::LaunchFailed(e)) => HandlerStepView::Reply(
                error_reply(req.name, launch_failed + colon() + e),
            ),
        },
    }
}

fn trimmed(s: &String) -> (r: String)
    ensures
        r@ == trim(s@),
{
    string_from_chars(&trim_chars(&chars_of(s.as_str())))
}

fn tool_handler(
    req: &ActionRequest,
    tool: &str,
    sub: Option<&str>,
    default_payload: Option<&str>,
    missing: &str,
    empty: &str,
    failed: &str,
    launch_failed: &str,
    outcome: &Option<ToolOutcome>,
) -> (r: HandlerStep)
    ensures
        r@ == tool_step(
            req@,
            tool@,
            match sub {
                Some(x) => Some(x@),
                None => None,
            },
            match default_payload {
                Some(x) => Some(x@),
                None => None,
            },
            missing@,
            empty@,
            failed@,
            launch_failed@,
            opt_tool_view(*outcome),
        ),
{
    let payload = match &req.payload {
        Some(p) => p.as_str(),
        None => match default_payload {
            Some(d) => d,
            None => {
                return reply_error(req, missing);
            },
        },
    };
    proof {
        reveal_strlit(": ");
    }
    match outcome {
        None => {
            let mut args: Vec<String> = Vec::new();
            args.push(String::from_str(tool));
            if let Some(sv) = sub {
                args.push(String::from_str(sv));
            }
            args.push(String::from_str(payload));
            let c = command("python3", args, false);
            proof {
                match sub {
                    Some(sv) => assert(c@.args =~= seq![tool@, sv@, payload@]),
                    None => assert(c@.args =~= seq![tool@, payload@]),
                }
            }
            HandlerStep::Run(c)
        },
        Some(ToolOutcome::Finished { success, stdout, stderr }) => if *success {
            let m = trimmed(stdout);
            if m.unicode_len() == 0 {
                HandlerStep::Reply(ok_response(req.name.as_str(), empty))
            } else {
                HandlerStep::Reply(ok_response(req.name.as_str(), m.as_str()))
            }
        } else {
            let msg = String::from_str(failed).concat(": ").concat(trimmed(stderr).as_str());
            reply_error(req, msg.as_str())
        },
        Some(ToolOutcome::LaunchFailed(e)) => {
            let msg = String::from_str(launch_failed).concat(": ").concat(e.as_str());
            reply_error(req, msg.as_str())
        },
    }
}

/// The weather for the payload's day (today by default).
pub fn handle_weather_get(req: &ActionRequest, tool: &str, outcome: &Option<ToolOutcome>) -> (r:
    HandlerStep)
    ensures
        r@ == tool_step(req@, tool@, None, Some("today"@), ""@, "Weather unavailable."@,
            "weather tool failed"@, "weather tool launch failed"@, opt_tool_view(*outcome)),
{
    tool_handler(req, tool, None, Some("today"), "", "Weather unavailable.", "weather tool failed",
        "weather tool launch failed", outcome)
}

/// Adds the payload's event to the calendar.
pub fn handle_calendar_add_event(req: &ActionRequest, tool: &str, outcome: &Option<ToolOutcome>) -> (r:
    HandlerStep)
    ensures
        r@ == tool_step(req@, tool@, Some("add"@), None, "missing calendar payload"@,
            "Calendar event added."@, "calendar add failed"@, "calendar tool launch failed"@,
            opt_tool_view(*outcome)),
{
    tool_handler(req, tool, Some("add"), None, "missing calendar payload", "Calendar event added.",
        "calendar add failed", "calendar tool launch failed", outcome)
}

/// Lists the calendar events of the payload's day (today by default).
pub fn handle_calendar_list_day(req: &ActionRequest, tool: &str, outcome: &Option<ToolOutcome>) -> (r:
    HandlerStep)
    ensures
        r@ == tool_step(req@, tool@, Some("list"@), Some("today"@), ""@, "No events found."@,
            "calendar list failed"@, "calendar tool launch failed"@, opt_tool_view(*outcome)),
{
    tool_handler(req, tool, Some("list"), Some("today"), "", "No events found.",
        "calendar list failed", "calendar tool launch failed", outcome)
}

/// Summarises the inbox for the payload's query.
pub fn handle_email_inbox_summary(req: &ActionRequest, tool: &str, outcome: &Option<ToolOutcome>) -> (r:
    HandlerStep)
    ensures
        r@ == tool_step(req@, tool@, Some("summary"@), Some("in:inbox newer_than:2d"@), ""@,
            "No inbox summary available."@, "gmail summary failed"@, "gmail tool launch failed"@,
            opt_tool_view(*outcome)),
{
    tool_handler(req, tool, Some("summary"), Some("in:inbox newer_than:2d"), "",
        "No inbox summary available.", "gmail summary failed", "gmail tool launch failed", outcome)
}

/// Searches mail for the payload's query.
pub fn handle_email_search(req: &ActionRequest, tool: &str, outcome: &Option<ToolOutcome>) -> (r:
    HandlerStep)
    ensures
        r@ == tool_step(req@, tool@, Some("search"@), Some("in:inbox"@), ""@,
            "No email search results."@, "gmail search failed"@, "gmail tool launch failed"@,
            opt_tool_view(*outcome)),
{
    tool_handler(req, tool, Some("search"), Some("in:inbox"), "", "No email search results.",
        "gmail search failed", "gmail tool launch failed", outcome)
}

/// Creates a mail draft from the payload.
pub fn handle_email_draft(req: &ActionRequest, tool: &str, outcome: &Option<ToolOutcome>) -> (r:
    HandlerStep)
    ensures
        r@ == tool_step(req@, tool@, Some("draft"@), None, "missing draft payload"@,
            "Draft created."@, "gmail draft failed"@, "gmail tool launch failed"@,
            opt_tool_view(*outcome)),
{
    tool_handler(req, tool, Some("draft"), None, "missing draft payload", "Draft created.",
        "gmail draft failed", "gmail tool launch failed", outcome)
}

/// Planning the day's outfit: like the other tools, but a failure reports
/// the planner's own message, or a fixed one when it printed none.
pub open spec fn outfit_step(req: RequestView, tool: Seq<char>, outcome: Option<ToolOutcomeView>) -> HandlerStepView {
    match outcome {
        Some(ToolOutcomeView::Finished(false, _, err)) => {
            let e = trim(err);
            HandlerStepView::Reply(
                error_reply(
                    req.name,
                    if e.len() == 0 { "failed to build clothing recommendation"@ } else { e },
                ),
            )
        },
        Some(ToolOutcomeView::LaunchFailed(e)) => HandlerStepView::Reply(
            error_reply(req.name, "planner failed: "@ + e),
        ),
        _ => tool_step(req, tool, None, Some("today"@), ""@,
            "No outfit recommendation available."@, ""@, ""@, outcome),
    }
}

/// Recommends an outfit for the payload's day (today by default).
pub fn handle_plan_day_outfit(req: &ActionRequest, tool: &str, outcome: &Option<ToolOutcome>) -> (r:
    HandlerStep)
    ensures
        r@ == outfit_step(req@, tool@, opt_tool_view(*outcome)),
{
    match outcome {
        Some(ToolOutcome::Finished { success: false, stderr, .. }) => {
            let e = trimmed(stderr);
            if e.unicode_len() == 0 {
                reply_error(req, "failed to build clothing recommendation")
            } else {
                reply_error(req, e.as_str())
            }
        },
        Some(ToolOutcome::LaunchFailed(e)) => {
            let msg = String::from_str("planner failed: ").concat(e.as_str());
            reply_error(req, msg.as_str())
        },
        _ => tool_handler(req, tool, None, Some("today"), "", "No outfit recommendation available.",
            "", "", outcome),
    }
}

} // verus!
