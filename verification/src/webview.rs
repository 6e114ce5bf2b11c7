//! The web window inside the client: what is opened, where it may go, and which
//! of a page's messages reach the engine.
//!
//! This window is where somebody signs in and pays, so whether a page's message
//! is passed on is decided from the address the page is at when it posts it, not
//! from the one it was opened with, and a refusal is always said: silence must
//! never look like a window that was not asked for.

pub mod laws;
pub mod shim;

use vstd::prelude::*;
use vstd::string::*;
use vstd::utf8::*;

use crate::text::{self, chars_of, has_prefix, text_of_bytes, to_decimal};

verus! {

broadcast use vstd::string::group_string_axioms;

/// The handler that takes a whole object, as JSON.
pub const BRIDGE_EXECUTE_ROBLOX: &'static str = "executeRoblox";

/// The handler that takes an envelope with a `command`.
pub const BRIDGE_ROBLOX_WK_HYBRID: &'static str = "RobloxWKHybrid";

/// The handler the probe reports to, registered only where the probe is on.
pub const BRIDGE_PROBE: &'static str = "cordialBridgeProbe";

/// The handler that the watch on game launches reports to.
pub const HYBRID_LAUNCH_LOG: &'static str = "cordialHybridLaunchLog";

/// Set to leave game launches alone.
pub const HYBRID_LAUNCH_DISABLE_VAR: &'static str = "CORDIAL_WEBVIEW_DISABLE_HYBRID_LAUNCH";

/// Set to report what a page reads of the bridge.
pub const BRIDGE_PROBE_VAR: &'static str = "CORDIAL_WEBVIEW_BRIDGE_PROBE";

/// Set to report where a page goes and what it fetches.
pub const NAV_PROBE_VAR: &'static str = "CORDIAL_WEBVIEW_NAV_PROBE";

/// Set to write a page's console to the standard output.
pub const CONSOLE_LOG_VAR: &'static str = "CORDIAL_WEBVIEW_CONSOLE_LOG";

/// Set to give every frame the bridge.
pub const ALL_FRAMES_VAR: &'static str = "CORDIAL_WEBVIEW_BRIDGE_ALL_FRAMES";

/// The width and the height of a web window.
pub const WINDOW_WIDTH: i32 = 900;

pub const WINDOW_HEIGHT: i32 = 700;

/// Which of the two contracts a message arrived on.
#[derive(Clone, Copy, PartialEq, Eq, Structural)]
pub enum BridgeHandler {
    ExecuteRoblox,
    RobloxWkHybrid,
}

impl BridgeHandler {
    /// The name it is registered under.
    pub open spec fn registered(self) -> Seq<char> {
        match self {
            BridgeHandler::ExecuteRoblox => BRIDGE_EXECUTE_ROBLOX@,
            BridgeHandler::RobloxWkHybrid => BRIDGE_ROBLOX_WK_HYBRID@,
        }
    }

    /// The name it is registered under.
    pub fn name(self) -> (name: &'static str)
        ensures
            name@ == self.registered(),
    {
        match self {
            BridgeHandler::ExecuteRoblox => BRIDGE_EXECUTE_ROBLOX,
            BridgeHandler::RobloxWkHybrid => BRIDGE_ROBLOX_WK_HYBRID,
        }
    }
}

/// What a page's value answers to each question of its type. A value answers
/// yes to several: an array and a function are objects too.
#[derive(Clone, Copy)]
pub struct ValueKinds {
    pub undefined: bool,
    pub null: bool,
    pub boolean: bool,
    pub number: bool,
    pub string: bool,
    pub array: bool,
    pub function: bool,
    pub object: bool,
}

/// What a value is called: by the first question it answers yes to.
pub open spec fn shape(kinds: ValueKinds) -> Seq<char> {
    if kinds.undefined {
        "undefined"@
    } else if kinds.null {
        "null"@
    } else if kinds.boolean {
        "a boolean"@
    } else if kinds.number {
        "a number"@
    } else if kinds.string {
        "a string"@
    } else if kinds.array {
        "an array"@
    } else if kinds.function {
        "a function"@
    } else if kinds.object {
        "an object"@
    } else {
        "an unrecognised JS value"@
    }
}

/// What a value is called: its type, and never what it holds.
pub fn describe_value_shape(kinds: &ValueKinds) -> (called: &'static str)
    ensures
        called@ == shape(*kinds),
{
    if kinds.undefined {
        "undefined"
    } else if kinds.null {
        "null"
    } else if kinds.boolean {
        "a boolean"
    } else if kinds.number {
        "a number"
    } else if kinds.string {
        "a string"
    } else if kinds.array {
        "an array"
    } else if kinds.function {
        "a function"
    } else if kinds.object {
        "an object"
    } else {
        "an unrecognised JS value"
    }
}

/// A value a page posted: its type, its JSON where it has one, and its property
/// `command`.
pub struct Posted {
    pub kinds: ValueKinds,
    pub json: Option<String>,
    pub command: Option<Property>,
}

/// A property of an object: whether it is a text, and its bytes.
pub struct Property {
    pub string: bool,
    pub bytes: Option<Vec<u8>>,
}

/// The command in what was posted: for one handler the whole object as JSON, for
/// the other the text of its property `command`.
pub open spec fn command_in(handler: BridgeHandler, posted: Posted) -> Option<Seq<char>> {
    if !posted.kinds.object {
        None
    } else {
        match handler {
            BridgeHandler::ExecuteRoblox => match posted.json {
                Some(json) => Some(json@),
                None => None,
            },
            BridgeHandler::RobloxWkHybrid => match posted.command {
                Some(Property { string: true, bytes: Some(bytes) }) => if valid_utf8(bytes@) {
                    Some(decode_utf8(bytes@))
                } else {
                    None
                },
                _ => None,
            },
        }
    }
}

/// What is said of a message that carries no command: the handler and the type
/// of what arrived, and nothing of what it holds.
pub open spec fn malformed(handler: BridgeHandler, kinds: ValueKinds) -> Seq<char> {
    "[webview] rejected a malformed "@ + handler.registered() + " bridge command (arrived as "@
        + shape(kinds) + ")"@
}

/// The command in what was posted, where it is not empty.
pub fn command_of(handler: BridgeHandler, posted: Posted) -> (command: Result<String, String>)
    ensures
        match command {
            Ok(command) => command_in(handler, posted) == Some(command@) && command@.len() > 0,
            Err(line) => line@ == malformed(handler, posted.kinds) && (command_in(handler, posted)
                is None || (command_in(handler, posted)->0).len() == 0),
        },
{
    let kinds = posted.kinds;
    let command: Option<String> = if !kinds.object {
        None
    } else {
        match handler {
            BridgeHandler::ExecuteRoblox => posted.json,
            BridgeHandler::RobloxWkHybrid => match posted.command {
                Some(property) => match property.bytes {
                    Some(bytes) => if property.string {
                        text_of_bytes(bytes.as_slice())
                    } else {
                        None
                    },
                    None => None,
                },
                None => None,
            },
        }
    };
    if let Some(command) = command {
        if !command.as_str().is_empty() {
            return Ok(command);
        }
    }
    let mut line = "[webview] rejected a malformed ".to_owned();
    line.append(handler.name());
    line.append(" bridge command (arrived as ");
    line.append(describe_value_shape(&kinds));
    line.append(")");
    Err(line)
}

/// Where a page's message goes: to the sink that was set first.
pub struct Bridge<S> {
    pub sink: Option<S>,
}

impl<S> Bridge<S> {
    pub fn new() -> (bridge: Self)
        ensures
            bridge.sink is None,
    {
        Bridge { sink: None }
    }

    /// Set the sink. Only the first one takes effect, and a second is said.
    pub fn set_bridge_sink(&mut self, sink: S) -> (line: Option<&'static str>)
        ensures
            match old(self).sink {
                None => final(self).sink == Some(sink) && line is None,
                Some(_) => final(self).sink == old(self).sink && (line matches Some(line) && line@
                    == "[webview] set_bridge_sink called twice; keeping the first sink installed"@),
            },
    {
        if self.sink.is_some() {
            Some("[webview] set_bridge_sink called twice; keeping the first sink installed")
        } else {
            self.sink = Some(sink);
            None
        }
    }
}

/// What becomes of a message.
pub enum Forward {
    /// It goes to the sink.
    Send(String),
    /// It goes nowhere, and this is said.
    Drop(String),
}

/// What is said of a message that the policy refused.
pub open spec fn refused_line(host: Seq<char>, reason: Seq<char>) -> Seq<char> {
    "[webview] rejected a bridge message (host "@ + host + "): "@ + reason
}

/// What is said of a message that there is no sink for: where it came from and
/// how long it is.
pub open spec fn no_sink_line(host: Seq<char>, bytes: nat) -> Seq<char> {
    "[webview] a bridge message passed policy (host "@ + host + ", "@ + text::decimal(bytes)
        + " bytes), but no sink is installed to forward it -- see set_bridge_sink's doc"@
}

/// What becomes of a command, given the host of the page's current address,
/// why the policy refuses it there, where it does, and whether there is a sink.
/// Only a command that the policy accepts is ever sent.
pub fn forward_script_message(
    command: String,
    host: &str,
    refused: Option<&str>,
    has_sink: bool,
) -> (forward: Forward)
    ensures
        match forward {
            Forward::Send(sent) => refused is None && has_sink && sent == command,
            Forward::Drop(line) => match refused {
                Some(reason) => line@ == refused_line(host@, reason@),
                None => !has_sink && line@ == no_sink_line(host@, encode_utf8(command@).len()),
            },
        },
{
    if let Some(reason) = refused {
        let mut line = "[webview] rejected a bridge message (host ".to_owned();
        line.append(host);
        line.append("): ");
        line.append(reason);
        return Forward::Drop(line);
    }
    if has_sink {
        return Forward::Send(command);
    }
    let bytes: usize = command.as_str().as_bytes().len();
    let mut line = "[webview] a bridge message passed policy (host ".to_owned();
    line.append(host);
    line.append(", ");
    line.append(to_decimal(bytes as u64).as_str());
    line.append(" bytes), but no sink is installed to forward it -- see set_bridge_sink's doc");
    Forward::Drop(line)
}

/// What is said of a message never shows it: two messages of one shape and one
/// length are said alike, whatever they hold.
pub proof fn law_what_is_said_never_shows_the_message(
    handler: BridgeHandler,
    posted: Posted,
    other: Posted,
    host: Seq<char>,
    command: Seq<char>,
    another: Seq<char>,
)
    requires
        posted.kinds == other.kinds,
        encode_utf8(command).len() == encode_utf8(another).len(),
    ensures
        malformed(handler, posted.kinds) == malformed(handler, other.kinds),
        no_sink_line(host, encode_utf8(command).len()) == no_sink_line(
            host,
            encode_utf8(another).len(),
        ),
{
}

/// How the engine asked for the window to look.
#[derive(Debug)]
pub struct WindowRequest {
    pub url: String,
    pub title: Option<String>,
    pub hide_header: bool,
    pub show_domain_as_title: bool,
    pub back_button_visible: bool,
    /// The session to open the window with, or none to open it signed out.
    pub roblox_session_cookie: Option<String>,
    /// What the window calls itself, or none to leave that to the web engine.
    pub user_agent: Option<String>,
}

impl Default for WindowRequest {
    fn default() -> (request: Self)
        ensures
            request.url@ == Seq::<char>::empty(),
            request.title is None,
            !request.hide_header,
            !request.show_domain_as_title,
            !request.back_button_visible,
            request.roblox_session_cookie is None,
            request.user_agent is None,
    {
        WindowRequest {
            url: String::new(),
            title: None,
            hide_header: false,
            show_domain_as_title: false,
            back_button_visible: false,
            roblox_session_cookie: None,
            user_agent: None,
        }
    }
}

/// What the policy says of an address.
pub struct Verdict {
    pub allowed: bool,
    pub scheme: String,
    pub host: String,
}

/// A cookie for the window's own jar.
pub struct SessionSeed {
    pub name: &'static str,
    pub value: String,
    pub domain: &'static str,
    pub path: &'static str,
    pub max_age: i32,
    pub secure: bool,
    pub http_only: bool,
}

/// The window that is opened.
pub struct WindowPlan {
    pub url: String,
    pub title: String,
    pub header_visible: bool,
    pub back_button: bool,
    pub session: Option<SessionSeed>,
    pub user_agent: Option<String>,
}

/// The longest address that a refusal shows.
pub const SHOWN_ADDRESS: usize = 120;

/// What is said of an address that is not opened.
pub open spec fn refusal(url: Seq<char>, scheme: Seq<char>, host: Seq<char>) -> Seq<char> {
    "[webview] refused to open "@ + (if encode_utf8(url).len() > SHOWN_ADDRESS {
        "a very long address"@
    } else {
        url
    }) + " (scheme "@ + scheme + ", host "@ + host + ")"@
}

/// The title: the host where the engine asks for it or no title is given.
pub open spec fn window_title(request: WindowRequest, host: Seq<char>) -> Seq<char> {
    match request.title {
        Some(title) => if request.show_domain_as_title {
            host
        } else {
            title@
        },
        None => host,
    }
}

/// The window that is opened for a request, or why none is.
pub fn open(request: WindowRequest, verdict: &Verdict) -> (opened: Result<WindowPlan, String>)
    ensures
        opened is Ok <==> verdict.allowed,
        match opened {
            Ok(plan) => {
                &&& plan.url == request.url
                &&& plan.title@ == window_title(request, verdict.host@)
                &&& plan.header_visible == !request.hide_header
                &&& plan.back_button == request.back_button_visible
                &&& plan.user_agent == request.user_agent
                &&& match request.roblox_session_cookie {
                    Some(value) => (plan.session matches Some(seed) && seed.name@
                        == ".ROBLOSECURITY"@ && seed.value == value && seed.domain@
                        == ".roblox.com"@ && seed.path@ == "/"@ && seed.max_age == -1
                        && seed.secure && seed.http_only),
                    None => plan.session is None,
                }
            },
            Err(line) => line@ == refusal(request.url@, verdict.scheme@, verdict.host@),
        },
{
    if !verdict.allowed {
        let mut line = "[webview] refused to open ".to_owned();
        if request.url.as_str().as_bytes().len() > SHOWN_ADDRESS {
            line.append("a very long address");
        } else {
            line.append(request.url.as_str());
        }
        line.append(" (scheme ");
        line.append(verdict.scheme.as_str());
        line.append(", host ");
        line.append(verdict.host.as_str());
        line.append(")");
        return Err(line);
    }
    let title = match request.title {
        Some(title) => if request.show_domain_as_title {
            verdict.host.clone()
        } else {
            title
        },
        None => verdict.host.clone(),
    };
    let session = match request.roblox_session_cookie {
        Some(value) => Some(
            SessionSeed {
                name: ".ROBLOSECURITY",
                value,
                domain: ".roblox.com",
                path: "/",
                max_age: -1,
                secure: true,
                http_only: true,
            },
        ),
        None => None,
    };
    Ok(
        WindowPlan {
            url: request.url,
            title,
            header_visible: !request.hide_header,
            back_button: request.back_button_visible,
            session,
            user_agent: request.user_agent,
        },
    )
}

/// What is said of a build's support for passkeys, given what a page answered.
pub fn passkey_line(answer: &str) -> (line: String)
    ensures
        line@ == (if text::begins_with(answer@, "undefined"@) {
            "[webview] this WebKitGTK build has no WebAuthn (PublicKeyCredential/navigator.credentials/isSecureContext = "@
                + answer@
                + ") -- a passkey sign-in cannot complete in this window; see docs/analysis/webview-surface.md section 9"@
        } else {
            "[webview] WebAuthn is present in this build ("@ + answer@ + ")"@
        }),
{
    if has_prefix(&chars_of(answer), &chars_of("undefined")) {
        let mut line =
            "[webview] this WebKitGTK build has no WebAuthn (PublicKeyCredential/navigator.credentials/isSecureContext = ".to_owned();
        line.append(answer);
        line.append(
            ") -- a passkey sign-in cannot complete in this window; see docs/analysis/webview-surface.md section 9",
        );
        line
    } else {
        let mut line = "[webview] WebAuthn is present in this build (".to_owned();
        line.append(answer);
        line.append(")");
        line
    }
}

/// What follows one attempt of the click probe.
pub enum ClickProbe {
    /// Nothing: it clicked, or could not run.
    Done,
    /// It found nothing, and was the last: this is said.
    GiveUp(&'static str),
    /// It found nothing, and is tried again with this many attempts left.
    Retry(u32),
}

/// What is said of one attempt of the click probe, and what follows it. A click
/// that was sent is never sent again.
pub fn click_probed(answer: Result<&str, &str>, attempts_left: u32) -> (next: (String, ClickProbe))
    ensures
        match answer {
            Ok(answer) => next.0@ == "[webview] click probe (CORDIAL_WEBVIEW_CLICK_PROBE=1): "@
                + answer@ && (if text::begins_with(answer@, "clicked"@) {
                next.1 is Done
            } else if attempts_left == 0 {
                next.1 matches ClickProbe::GiveUp(line) && line@
                    == "[webview] click probe: giving up after 5 attempts over ~7.5s"@
            } else {
                next.1 == ClickProbe::Retry((attempts_left - 1) as u32)
            }),
            Err(why) => next.0@ == "[webview] click probe could not run: "@ + why@
                && next.1 is Done,
        },
{
    match answer {
        Ok(answer) => {
            let mut line = "[webview] click probe (CORDIAL_WEBVIEW_CLICK_PROBE=1): ".to_owned();
            line.append(answer);
            if has_prefix(&chars_of(answer), &chars_of("clicked")) {
                (line, ClickProbe::Done)
            } else if attempts_left == 0 {
                (
                    line,
                    ClickProbe::GiveUp(
                        "[webview] click probe: giving up after 5 attempts over ~7.5s",
                    ),
                )
            } else {
                (line, ClickProbe::Retry(attempts_left - 1))
            }
        },
        Err(why) => {
            let mut line = "[webview] click probe could not run: ".to_owned();
            line.append(why);
            (line, ClickProbe::Done)
        },
    }
}

/// A handler that is registered, and what is said where it could not be.
pub struct Registration {
    pub handler: &'static str,
    pub failure: String,
}

/// What is said where a handler could not be registered.
pub open spec fn not_registered(handler: Seq<char>, what: Seq<char>) -> Seq<char> {
    "[webview] could not register the "@ + handler + what
}

fn registration(handler: &'static str, what: &str) -> (registration: Registration)
    ensures
        registration.handler == handler,
        registration.failure@ == not_registered(handler@, what@),
{
    let mut failure = "[webview] could not register the ".to_owned();
    failure.append(handler);
    failure.append(what);
    Registration { handler, failure }
}

/// Handlers and what is said where they could not be registered, as values.
pub open spec fn registrations(all: Seq<Registration>) -> Seq<(Seq<char>, Seq<char>)> {
    all.map_values(|one: Registration| (one.handler@, one.failure@))
}

/// The handlers that a page is given: the two that carry messages always, and
/// the two that report only where their switches are on.
pub open spec fn handlers(probe: bool, watch_launches: bool) -> Seq<(Seq<char>, Seq<char>)> {
    seq![
        (
            BRIDGE_EXECUTE_ROBLOX@,
            not_registered(BRIDGE_EXECUTE_ROBLOX@, " bridge handler"@),
        ),
        (
            BRIDGE_ROBLOX_WK_HYBRID@,
            not_registered(BRIDGE_ROBLOX_WK_HYBRID@, " bridge handler"@),
        ),
    ] + (if probe {
        seq![(BRIDGE_PROBE@, not_registered(BRIDGE_PROBE@, " diagnostic handler"@))]
    } else {
        Seq::empty()
    }) + (if watch_launches {
        seq![(HYBRID_LAUNCH_LOG@, not_registered(HYBRID_LAUNCH_LOG@, " handler"@))]
    } else {
        Seq::empty()
    })
}

/// The handlers that a page is given.
pub fn register_bridge(probe: bool, watch_launches: bool) -> (all: Vec<Registration>)
    ensures
        registrations(all@) == handlers(probe, watch_launches),
{
    let mut all: Vec<Registration> = Vec::new();
    all.push(registration(BRIDGE_EXECUTE_ROBLOX, " bridge handler"));
    all.push(registration(BRIDGE_ROBLOX_WK_HYBRID, " bridge handler"));
    if probe {
        all.push(registration(BRIDGE_PROBE, " diagnostic handler"));
    }
    if watch_launches {
        all.push(registration(HYBRID_LAUNCH_LOG, " handler"));
    }
    assert(registrations(all@) =~= handlers(probe, watch_launches));
    all
}

/// The channels that only report.
#[derive(Clone, Copy, PartialEq, Eq, Structural)]
pub enum Channel {
    Probe,
    Launches,
}

/// What is said of a report, and whether as an error: its text, where it is one.
pub open spec fn report_said(channel: Channel, posted: Property) -> (Seq<char>, bool) {
    match posted {
        Property { string: true, bytes: Some(bytes) } if valid_utf8(bytes@) => (
            (match channel {
                Channel::Probe => "[webview] bridge probe (CORDIAL_WEBVIEW_BRIDGE_PROBE=1): "@,
                Channel::Launches => "[webview] hybrid launch: "@,
            }) + decode_utf8(bytes@),
            false,
        ),
        _ => (
            match channel {
                Channel::Probe => "[webview] bridge probe message arrived in an unexpected shape"@,
                Channel::Launches => "[webview] hybrid launch status message arrived in an unexpected shape"@,
            },
            true,
        ),
    }
}

/// What is said of a report on a channel, and whether as an error.
pub fn report(channel: Channel, posted: Property) -> (said: (String, bool))
    ensures
        (said.0@, said.1) == report_said(channel, posted),
{
    let text = match posted.bytes {
        Some(bytes) => if posted.string {
            text_of_bytes(bytes.as_slice())
        } else {
            None
        },
        None => None,
    };
    match text {
        Some(text) => {
            let mut line = match channel {
                Channel::Probe => "[webview] bridge probe (CORDIAL_WEBVIEW_BRIDGE_PROBE=1): ".to_owned(),
                Channel::Launches => "[webview] hybrid launch: ".to_owned(),
            };
            line.append(text.as_str());
            (line, false)
        },
        None => match channel {
            Channel::Probe => (
                "[webview] bridge probe message arrived in an unexpected shape".to_owned(),
                true,
            ),
            Channel::Launches => (
                "[webview] hybrid launch status message arrived in an unexpected shape".to_owned(),
                true,
            ),
        },
    }
}

/// What kind of decision the web engine asks for.
#[derive(Clone, Copy, PartialEq, Eq, Structural)]
pub enum DecisionKind {
    NavigationAction,
    NewWindowAction,
    Response,
    Other,
}

/// What the web engine says of the decision it asks for.
pub struct PolicyRequest {
    pub kind: DecisionKind,
    /// For a response: its address and its status.
    pub response: Option<(String, Option<u32>)>,
    /// For a navigation: where it leads, and what the policy says of that.
    pub navigation: Option<(String, Verdict)>,
}

/// How a decision is answered.
#[derive(Clone, Copy, PartialEq, Eq, Structural)]
pub enum Answer {
    /// It is left to the web engine.
    Default,
    Use,
    Ignore,
}

/// What a status is called.
pub open spec fn status_called(status: Option<u32>) -> Seq<char> {
    match status {
        Some(status) => "Some("@ + text::decimal(status as nat) + ")"@,
        None => "None"@,
    }
}

/// What is said of a decision, and whether it is said as an error.
pub open spec fn decision_said(request: PolicyRequest, probe: bool) -> Option<(Seq<char>, bool)> {
    match request.kind {
        DecisionKind::Other => None,
        DecisionKind::Response => match request.response {
            Some((uri, status)) => if probe {
                Some(
                    (
                        "[webview] nav probe (CORDIAL_WEBVIEW_NAV_PROBE=1): decide-policy Response uri="@
                            + uri@ + " status="@ + status_called(status),
                        false,
                    ),
                )
            } else {
                None
            },
            None => None,
        },
        _ => match request.navigation {
            Some((uri, verdict)) => if !verdict.allowed {
                Some(
                    (
                        "[webview] blocked "@ + (if request.kind == DecisionKind::NewWindowAction {
                            "opening a new window"@
                        } else {
                            "navigation"@
                        }) + " to scheme "@ + verdict.scheme@ + " host "@ + verdict.host@,
                        true,
                    ),
                )
            } else if probe {
                Some(
                    (
                        "[webview] nav probe (CORDIAL_WEBVIEW_NAV_PROBE=1): decide-policy "@ + (
                        if request.kind == DecisionKind::NewWindowAction {
                            "NewWindowAction"@
                        } else {
                            "NavigationAction"@
                        }) + " ALLOWED uri="@ + uri@,
                        false,
                    ),
                )
            } else {
                None
            },
            None => None,
        },
    }
}

/// How a decision is answered, and what is said of it. A navigation and a new
/// window are judged alike, every time and not just the first, and a refusal
/// is always said.
pub fn decide_policy(request: &PolicyRequest, probe: bool) -> (decided: (
    Answer,
    Option<(String, bool)>,
))
    ensures
        decided.0 == (if request.kind == DecisionKind::NavigationAction || request.kind
            == DecisionKind::NewWindowAction {
            match request.navigation {
                Some((_, verdict)) => if verdict.allowed {
                    Answer::Use
                } else {
                    Answer::Ignore
                },
                None => Answer::Default,
            }
        } else {
            Answer::Default
        }),
        crate::updater::flagged_view(decided.1) == decision_said(*request, probe),
{
    match request.kind {
        DecisionKind::Other => (Answer::Default, None),
        DecisionKind::Response => match &request.response {
            Some((uri, status)) => if probe {
                let mut line =
                    "[webview] nav probe (CORDIAL_WEBVIEW_NAV_PROBE=1): decide-policy Response uri=".to_owned();
                line.append(uri.as_str());
                line.append(" status=");
                let mut called = String::new();
                match status {
                    Some(status) => {
                        called = "Some(".to_owned();
                        called.append(to_decimal(*status as u64).as_str());
                        called.append(")");
                    },
                    None => {
                        called = "None".to_owned();
                    },
                }
                line.append(called.as_str());
                (Answer::Default, Some((line, false)))
            } else {
                (Answer::Default, None)
            },
            None => (Answer::Default, None),
        },
        _ => {
            let new_window = request.kind == DecisionKind::NewWindowAction;
            match &request.navigation {
                Some((uri, verdict)) => if !verdict.allowed {
                    let mut line = "[webview] blocked ".to_owned();
                    if new_window {
                        line.append("opening a new window");
                    } else {
                        line.append("navigation");
                    }
                    line.append(" to scheme ");
                    line.append(verdict.scheme.as_str());
                    line.append(" host ");
                    line.append(verdict.host.as_str());
                    (Answer::Ignore, Some((line, true)))
                } else if probe {
                    let mut line =
                        "[webview] nav probe (CORDIAL_WEBVIEW_NAV_PROBE=1): decide-policy ".to_owned();
                    if new_window {
                        line.append("NewWindowAction");
                    } else {
                        line.append("NavigationAction");
                    }
                    line.append(" ALLOWED uri=");
                    line.append(uri.as_str());
                    (Answer::Use, Some((line, false)))
                } else {
                    (Answer::Use, None)
                },
                None => (Answer::Default, None),
            }
        },
    }
}

/// Whether a window that a page asks for is made, and what is said of it.
pub fn popup(verdict: &Verdict) -> (asked: (bool, String))
    ensures
        asked.0 == verdict.allowed,
        asked.1@ == "[webview] the page asked to open a new window (host "@ + verdict.host@
            + ", scheme "@ + verdict.scheme@ + "); "@ + (if verdict.allowed {
            "creating one"@
        } else {
            "refusing"@
        }),
{
    let mut line = "[webview] the page asked to open a new window (host ".to_owned();
    line.append(verdict.host.as_str());
    line.append(", scheme ");
    line.append(verdict.scheme.as_str());
    line.append("); ");
    if verdict.allowed {
        line.append("creating one");
    } else {
        line.append("refusing");
    }
    (verdict.allowed, line)
}

/// A refusal is always said, and as an error: with or without the probe, of a
/// navigation and of a new window, whatever they were to lead to.
pub proof fn law_a_refusal_is_always_said(request: PolicyRequest, probe: bool)
    requires
        request.kind == DecisionKind::NavigationAction || request.kind
            == DecisionKind::NewWindowAction,
        request.navigation matches Some((_, verdict)) && !verdict.allowed,
    ensures
        decision_said(request, probe) matches Some((line, is_error)) && is_error,
{
}

} // verus!
