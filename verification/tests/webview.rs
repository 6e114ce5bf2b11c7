use cordial_shell::webview::shim::bridge_shim;
use cordial_shell::webview::{
    click_probed, command_of, decide_policy, describe_value_shape, forward_script_message, open,
    passkey_line, popup, register_bridge, report, Answer, Bridge, BridgeHandler, Channel, ClickProbe,
    DecisionKind, Forward, PolicyRequest, Posted, Property, ValueKinds, Verdict, WindowRequest,
    BRIDGE_EXECUTE_ROBLOX, BRIDGE_PROBE, BRIDGE_ROBLOX_WK_HYBRID, HYBRID_LAUNCH_LOG,
};

fn nothing() -> ValueKinds {
    ValueKinds {
        undefined: false,
        null: false,
        boolean: false,
        number: false,
        string: false,
        array: false,
        function: false,
        object: false,
    }
}

fn object() -> ValueKinds {
    ValueKinds { object: true, ..nothing() }
}

fn verdict(allowed: bool) -> Verdict {
    Verdict { allowed, scheme: "https".to_string(), host: "www.roblox.com".to_string() }
}

fn request(url: &str) -> WindowRequest {
    WindowRequest { url: url.to_string(), ..WindowRequest::default() }
}

#[test]
fn a_default_request_hides_nothing_and_forces_nothing() {
    let r = WindowRequest::default();
    assert!(!r.hide_header);
    assert!(!r.show_domain_as_title);
    assert!(!r.back_button_visible);
    assert!(r.title.is_none());
    // Open signed out rather than guess at a cookie nobody supplied.
    assert!(r.roblox_session_cookie.is_none());
    assert!(r.user_agent.is_none());
}

#[test]
fn the_bridge_handler_names_match_mocktails() {
    assert_eq!(BRIDGE_EXECUTE_ROBLOX, "executeRoblox");
    assert_eq!(BRIDGE_ROBLOX_WK_HYBRID, "RobloxWKHybrid");
}

#[test]
fn bridge_handler_name_matches_its_registered_handler() {
    assert_eq!(BridgeHandler::ExecuteRoblox.name(), BRIDGE_EXECUTE_ROBLOX);
    assert_eq!(BridgeHandler::RobloxWkHybrid.name(), BRIDGE_ROBLOX_WK_HYBRID);
}

#[test]
fn the_bridge_shim_installs_the_android_bridge_global() {
    for watch_launches in [true, false] {
        for watch_bridge in [true, false] {
            let shim = bridge_shim(watch_launches, watch_bridge);
            assert!(shim.contains("__globalRobloxAndroidBridge__"));
            assert!(shim.contains(BRIDGE_EXECUTE_ROBLOX));
            assert_eq!(shim.contains(HYBRID_LAUNCH_LOG), watch_launches);
            assert_eq!(shim.contains(BRIDGE_PROBE), watch_bridge);
            assert!(shim.starts_with("(() => {\n  \"use strict\";\n"));
            assert!(shim.ends_with("})();"));
            assert!(!shim.contains("{{"), "braces are not doubled");
        }
    }
    assert!(bridge_shim(false, false).contains(
        "  const handler = handlers && handlers.executeRoblox;\n  if (!handler) { return; }\n  const bridge = {};\n  Object.defineProperty(bridge, \"executeRoblox\", {\n"
    ));
}

#[test]
fn a_value_is_called_by_its_type() {
    assert_eq!(describe_value_shape(&nothing()), "an unrecognised JS value");
    assert_eq!(describe_value_shape(&object()), "an object");
    assert_eq!(describe_value_shape(&ValueKinds { array: true, ..object() }), "an array");
    assert_eq!(describe_value_shape(&ValueKinds { function: true, ..object() }), "a function");
    assert_eq!(describe_value_shape(&ValueKinds { string: true, ..nothing() }), "a string");
    assert_eq!(describe_value_shape(&ValueKinds { number: true, ..nothing() }), "a number");
    assert_eq!(describe_value_shape(&ValueKinds { boolean: true, ..nothing() }), "a boolean");
    assert_eq!(describe_value_shape(&ValueKinds { null: true, ..nothing() }), "null");
    assert_eq!(describe_value_shape(&ValueKinds { undefined: true, ..nothing() }), "undefined");
}

#[test]
fn each_handler_takes_its_own_shape() {
    let posted = || Posted {
        kinds: object(),
        json: Some("{\"command\":\"join\"}".to_string()),
        command: Some(Property { string: true, bytes: Some(b"join".to_vec()) }),
    };
    assert_eq!(
        command_of(BridgeHandler::ExecuteRoblox, posted()).unwrap(),
        "{\"command\":\"join\"}"
    );
    assert_eq!(command_of(BridgeHandler::RobloxWkHybrid, posted()).unwrap(), "join");

    let not_text = Posted {
        command: Some(Property { string: true, bytes: Some(vec![0xff]) }),
        ..posted()
    };
    assert_eq!(
        command_of(BridgeHandler::RobloxWkHybrid, not_text).unwrap_err(),
        "[webview] rejected a malformed RobloxWKHybrid bridge command (arrived as an object)"
    );
    let string = Posted { kinds: ValueKinds { string: true, ..nothing() }, ..posted() };
    assert_eq!(
        command_of(BridgeHandler::ExecuteRoblox, string).unwrap_err(),
        "[webview] rejected a malformed executeRoblox bridge command (arrived as a string)"
    );
    let empty = Posted { json: Some(String::new()), ..posted() };
    assert!(command_of(BridgeHandler::ExecuteRoblox, empty).is_err());
    let number = Posted {
        command: Some(Property { string: false, bytes: Some(b"1".to_vec()) }),
        ..posted()
    };
    assert!(command_of(BridgeHandler::RobloxWkHybrid, number).is_err());
}

#[test]
fn a_message_is_sent_only_where_the_policy_accepts_it() {
    let forward = |refused, has_sink| {
        forward_script_message("caf\u{e9}".to_string(), "www.roblox.com", refused, has_sink)
    };
    assert!(matches!(forward(None, true), Forward::Send(command) if command == "caf\u{e9}"));
    match forward(Some("not a Roblox page"), true) {
        Forward::Drop(line) => assert_eq!(
            line,
            "[webview] rejected a bridge message (host www.roblox.com): not a Roblox page"
        ),
        Forward::Send(_) => panic!("a refused message is not sent"),
    }
    match forward(None, false) {
        Forward::Drop(line) => assert_eq!(
            line,
            "[webview] a bridge message passed policy (host www.roblox.com, 5 bytes), but no sink is installed to forward it -- see set_bridge_sink's doc"
        ),
        Forward::Send(_) => panic!("there is nowhere to send it"),
    }
}

#[test]
fn the_first_sink_stays() {
    let mut bridge: Bridge<u32> = Bridge::new();
    assert!(bridge.set_bridge_sink(1).is_none());
    assert!(bridge.set_bridge_sink(2).unwrap().contains("keeping the first"));
    assert_eq!(bridge.sink, Some(1));
}

#[test]
fn a_window_is_opened_as_it_was_asked_for() {
    let plan = open(
        WindowRequest {
            title: Some("Settings".to_string()),
            hide_header: true,
            back_button_visible: true,
            roblox_session_cookie: Some("SESSION".to_string()),
            user_agent: Some("Cordial".to_string()),
            ..request("https://www.roblox.com/x")
        },
        &verdict(true),
    )
    .unwrap();
    assert_eq!(plan.title, "Settings");
    assert!(!plan.header_visible && plan.back_button);
    assert_eq!(plan.user_agent.as_deref(), Some("Cordial"));
    let seed = plan.session.unwrap();
    assert_eq!((seed.name, seed.value.as_str()), (".ROBLOSECURITY", "SESSION"));
    assert_eq!((seed.domain, seed.path, seed.max_age), (".roblox.com", "/", -1));
    assert!(seed.secure && seed.http_only);

    // The host wins where the engine asks for it, and where there is no title.
    let shown = WindowRequest {
        title: Some("Pay here".to_string()),
        show_domain_as_title: true,
        ..request("https://www.roblox.com/x")
    };
    assert_eq!(open(shown, &verdict(true)).unwrap().title, "www.roblox.com");
    let untitled = open(request("https://www.roblox.com/x"), &verdict(true)).unwrap();
    assert_eq!(untitled.title, "www.roblox.com");
    assert!(untitled.session.is_none() && untitled.header_visible);
}

#[test]
fn an_address_that_is_refused_is_said() {
    match open(request("http://x"), &verdict(false)) {
        Err(line) => assert_eq!(
            line,
            "[webview] refused to open http://x (scheme https, host www.roblox.com)"
        ),
        Ok(_) => panic!("refused"),
    }
    let at_most = "a".repeat(120);
    assert!(matches!(open(request(&at_most), &verdict(false)), Err(line) if line.contains(&at_most)));
    let long = "a".repeat(121);
    assert!(matches!(open(request(&long), &verdict(false)), Err(line)
        if line.contains("a very long address") && !line.contains(&long)));
}

#[test]
fn handlers_are_registered_by_their_switches() {
    let names = |probe, watch| {
        register_bridge(probe, watch).iter().map(|one| one.handler).collect::<Vec<_>>()
    };
    assert_eq!(names(false, false), ["executeRoblox", "RobloxWKHybrid"]);
    assert_eq!(
        names(true, true),
        ["executeRoblox", "RobloxWKHybrid", BRIDGE_PROBE, HYBRID_LAUNCH_LOG]
    );
    assert_eq!(
        register_bridge(true, true)[2].failure,
        "[webview] could not register the cordialBridgeProbe diagnostic handler"
    );
}

#[test]
fn a_navigation_is_used_or_blocked_and_a_block_is_said() {
    let asked = |kind, allowed| PolicyRequest {
        kind,
        response: None,
        navigation: Some(("https://www.roblox.com/x".to_string(), verdict(allowed))),
    };
    let (answer, said) = decide_policy(&asked(DecisionKind::NavigationAction, true), false);
    assert!(answer == Answer::Use && said.is_none());
    let (answer, said) = decide_policy(&asked(DecisionKind::NewWindowAction, true), true);
    assert!(answer == Answer::Use);
    assert_eq!(
        said.unwrap().0,
        "[webview] nav probe (CORDIAL_WEBVIEW_NAV_PROBE=1): decide-policy NewWindowAction ALLOWED uri=https://www.roblox.com/x"
    );
    let (answer, said) = decide_policy(&asked(DecisionKind::NewWindowAction, false), false);
    assert!(answer == Answer::Ignore);
    assert_eq!(
        said.unwrap(),
        ("[webview] blocked opening a new window to scheme https host www.roblox.com".to_string(), true)
    );
    let (answer, said) = decide_policy(&asked(DecisionKind::NavigationAction, false), true);
    assert!(answer == Answer::Ignore);
    assert!(said.unwrap().0.contains("blocked navigation"));

    let response = PolicyRequest {
        kind: DecisionKind::Response,
        response: Some(("https://x".to_string(), Some(200))),
        navigation: None,
    };
    let (answer, said) = decide_policy(&response, true);
    assert!(answer == Answer::Default);
    assert!(said.unwrap().0.ends_with("uri=https://x status=Some(200)"));
    assert!(decide_policy(&response, false).1.is_none());
    let (answer, said) = decide_policy(&asked(DecisionKind::Other, false), true);
    assert!(answer == Answer::Default && said.is_none());
}

#[test]
fn a_popup_is_judged_like_a_window() {
    assert_eq!(
        popup(&verdict(true)),
        (
            true,
            "[webview] the page asked to open a new window (host www.roblox.com, scheme https); creating one"
                .to_string()
        )
    );
    let (made, line) = popup(&verdict(false));
    assert!(!made && line.ends_with("refusing"));
}

#[test]
fn a_click_is_never_sent_twice() {
    let (line, next) = click_probed(Ok("clicked a server-row Join element"), 4);
    assert!(line.ends_with("clicked a server-row Join element"));
    assert!(matches!(next, ClickProbe::Done));
    assert!(matches!(click_probed(Ok("no element yet"), 4).1, ClickProbe::Retry(3)));
    assert!(matches!(click_probed(Ok("no element yet"), 0).1, ClickProbe::GiveUp(_)));
    assert!(matches!(click_probed(Err("gone"), 4).1, ClickProbe::Done));
}

#[test]
fn reports_and_capabilities_are_said() {
    assert!(passkey_line("undefined undefined true").contains("has no WebAuthn"));
    assert_eq!(
        passkey_line("function object true"),
        "[webview] WebAuthn is present in this build (function object true)"
    );
    let text = || Property { string: true, bytes: Some(b"installed".to_vec()) };
    assert_eq!(
        report(Channel::Launches, text()),
        ("[webview] hybrid launch: installed".to_string(), false)
    );
    assert_eq!(
        report(Channel::Probe, text()).0,
        "[webview] bridge probe (CORDIAL_WEBVIEW_BRIDGE_PROBE=1): installed"
    );
    assert!(report(Channel::Probe, Property { string: false, bytes: None }).1);
    assert!(report(Channel::Launches, Property { string: true, bytes: Some(vec![0xff]) }).1);
}
