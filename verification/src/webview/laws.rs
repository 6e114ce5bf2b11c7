//! What a page may post and open, and what is said of it.

use vstd::prelude::*;
use vstd::string::*;
use vstd::utf8::*;

use super::{
    shim, BridgeHandler, Channel, DecisionKind, PolicyRequest, Posted, Property, ValueKinds,
    Verdict, WindowRequest,
};
use crate::text;

verus! {

broadcast use vstd::string::group_string_axioms;

/// A value is told by the first of its kinds in this order: nothing, null, a
/// boolean, a number, a string, an array, a function, an object.
pub proof fn law_a_value_is_told_by_its_first_kind(kinds: ValueKinds)
    ensures
        kinds.undefined ==> super::shape(kinds) == "undefined"@,
        !kinds.undefined && kinds.null ==> super::shape(kinds) == "null"@,
        !kinds.undefined && !kinds.null && kinds.boolean ==> super::shape(kinds) == "a boolean"@,
        !kinds.undefined && !kinds.null && !kinds.boolean && kinds.number ==> super::shape(kinds)
            == "a number"@,
        !kinds.undefined && !kinds.null && !kinds.boolean && !kinds.number && kinds.string
            ==> super::shape(kinds) == "a string"@,
        !kinds.undefined && !kinds.null && !kinds.boolean && !kinds.number && !kinds.string
            && kinds.array ==> super::shape(kinds) == "an array"@,
        !kinds.undefined && !kinds.null && !kinds.boolean && !kinds.number && !kinds.string
            && !kinds.array && kinds.function ==> super::shape(kinds) == "a function"@,
        !kinds.undefined && !kinds.null && !kinds.boolean && !kinds.number && !kinds.string
            && !kinds.array && !kinds.function && kinds.object ==> super::shape(kinds)
            == "an object"@,
        !kinds.undefined && !kinds.null && !kinds.boolean && !kinds.number && !kinds.string
            && !kinds.array && !kinds.function && !kinds.object ==> super::shape(kinds)
            == "an unrecognised JS value"@,
{
}

/// A command is the object that was posted to one handler, as it was serialised,
/// and the text of the command in the object that was posted to the other;
/// nothing that is no object holds one.
pub proof fn law_a_command_is_in_an_object(
    posted: Posted,
    json: String,
    command: Seq<char>,
    bytes: Vec<u8>,
    string: bool,
)
    ensures
        !posted.kinds.object ==> super::command_in(BridgeHandler::ExecuteRoblox, posted) is None
            && super::command_in(BridgeHandler::RobloxWkHybrid, posted) is None,
        posted.kinds.object && posted.json == Some(json) ==> super::command_in(
            BridgeHandler::ExecuteRoblox,
            posted,
        ) == Some(json@),
        posted.json is None ==> super::command_in(BridgeHandler::ExecuteRoblox, posted) is None,
        posted.kinds.object && posted.command == Some(
            Property { string: true, bytes: Some(bytes) },
        ) && bytes@ == encode_utf8(command) ==> super::command_in(
            BridgeHandler::RobloxWkHybrid,
            posted,
        ) == Some(command),
        posted.command == Some(Property { string, bytes: Some(bytes) }) && (!string
            || !valid_utf8(bytes@)) ==> super::command_in(BridgeHandler::RobloxWkHybrid, posted)
            is None,
        posted.command is None ==> super::command_in(BridgeHandler::RobloxWkHybrid, posted)
            is None,
{
    encode_utf8_valid_utf8(command);
    encode_utf8_decode_utf8(command);
}

/// What is said of a message that goes nowhere: which handler it came to, what it
/// was, where it came from and how long it was.
pub proof fn law_what_is_said_of_a_message_that_goes_nowhere(
    kinds: ValueKinds,
    host: Seq<char>,
    reason: Seq<char>,
    bytes: nat,
)
    ensures
        super::malformed(BridgeHandler::ExecuteRoblox, kinds) == "[webview] rejected a malformed "@
            + "executeRoblox"@ + " bridge command (arrived as "@ + super::shape(kinds) + ")"@,
        super::malformed(BridgeHandler::RobloxWkHybrid, kinds) == "[webview] rejected a malformed "@
            + "RobloxWKHybrid"@ + " bridge command (arrived as "@ + super::shape(kinds) + ")"@,
        super::refused_line(host, reason) == "[webview] rejected a bridge message (host "@ + host
            + "): "@ + reason,
        super::no_sink_line(host, bytes) == "[webview] a bridge message passed policy (host "@
            + host + ", "@ + text::decimal(bytes)
            + " bytes), but no sink is installed to forward it -- see set_bridge_sink's doc"@,
{
}

/// What is said of an address that is refused shows it, unless it is longer than
/// a line should be.
pub proof fn law_a_refused_address_is_shown_where_it_is_short(
    url: Seq<char>,
    scheme: Seq<char>,
    host: Seq<char>,
)
    ensures
        encode_utf8(url).len() <= 120 ==> super::refusal(url, scheme, host)
            == "[webview] refused to open "@ + url + " (scheme "@ + scheme + ", host "@ + host
            + ")"@,
        encode_utf8(url).len() > 120 ==> super::refusal(url, scheme, host)
            == "[webview] refused to open "@ + "a very long address"@ + " (scheme "@ + scheme
            + ", host "@ + host + ")"@,
{
}

/// A window is called by the title it was given, unless it is to be called by its
/// host or was given none.
pub proof fn law_a_window_is_called_by_its_title_or_its_host(
    request: WindowRequest,
    host: Seq<char>,
)
    ensures
        request.title is Some && !request.show_domain_as_title ==> super::window_title(
            request,
            host,
        ) == request.title->0@,
        request.title is None || request.show_domain_as_title ==> super::window_title(request, host)
            == host,
{
}

/// Both bridge handlers are registered, before the two that only report, and each
/// of those only where it is asked for.
pub proof fn law_handlers_are_registered_as_they_are_asked_for(probe: bool, watch_launches: bool)
    ensures
        super::handlers(false, false) == seq![
            (
                "executeRoblox"@,
                "[webview] could not register the "@ + "executeRoblox"@ + " bridge handler"@,
            ),
            (
                "RobloxWKHybrid"@,
                "[webview] could not register the "@ + "RobloxWKHybrid"@ + " bridge handler"@,
            ),
        ],
        super::handlers(true, false) == super::handlers(false, false).push(
            (
                "cordialBridgeProbe"@,
                "[webview] could not register the "@ + "cordialBridgeProbe"@
                    + " diagnostic handler"@,
            ),
        ),
        super::handlers(probe, true) == super::handlers(probe, false).push(
            (
                "cordialHybridLaunchLog"@,
                "[webview] could not register the "@ + "cordialHybridLaunchLog"@ + " handler"@,
            ),
        ),
        BridgeHandler::ExecuteRoblox.registered() == "executeRoblox"@,
        BridgeHandler::RobloxWkHybrid.registered() == "RobloxWKHybrid"@,
{
    assert(super::handlers(false, false) =~= seq![
        (
            "executeRoblox"@,
            "[webview] could not register the "@ + "executeRoblox"@ + " bridge handler"@,
        ),
        (
            "RobloxWKHybrid"@,
            "[webview] could not register the "@ + "RobloxWKHybrid"@ + " bridge handler"@,
        ),
    ]);
    assert(super::handlers(true, false) =~= super::handlers(false, false).push(
        (
            "cordialBridgeProbe"@,
            "[webview] could not register the "@ + "cordialBridgeProbe"@ + " diagnostic handler"@,
        ),
    ));
    assert(super::handlers(probe, true) =~= super::handlers(probe, false).push(
        (
            "cordialHybridLaunchLog"@,
            "[webview] could not register the "@ + "cordialHybridLaunchLog"@ + " handler"@,
        ),
    ));
}

/// A report is printed as it was posted where it is text, and as an error where it
/// is anything else.
pub proof fn law_a_report_is_printed_as_it_was_posted(
    said: Seq<char>,
    bytes: Vec<u8>,
    string: bool,
)
    ensures
        bytes@ == encode_utf8(said) ==> super::report_said(
            Channel::Probe,
            (Property { string: true, bytes: Some(bytes) }),
        ) == ("[webview] bridge probe (CORDIAL_WEBVIEW_BRIDGE_PROBE=1): "@ + said, false),
        bytes@ == encode_utf8(said) ==> super::report_said(
            Channel::Launches,
            (Property { string: true, bytes: Some(bytes) }),
        ) == ("[webview] hybrid launch: "@ + said, false),
        !string || !valid_utf8(bytes@) ==> super::report_said(
            Channel::Probe,
            (Property { string, bytes: Some(bytes) }),
        ) == ("[webview] bridge probe message arrived in an unexpected shape"@, true),
        !string || !valid_utf8(bytes@) ==> super::report_said(
            Channel::Launches,
            (Property { string, bytes: Some(bytes) }),
        ) == ("[webview] hybrid launch status message arrived in an unexpected shape"@, true),
        super::report_said(Channel::Probe, (Property { string, bytes: None })) == (
            "[webview] bridge probe message arrived in an unexpected shape"@,
            true,
        ),
        super::report_said(Channel::Launches, (Property { string, bytes: None })) == (
            "[webview] hybrid launch status message arrived in an unexpected shape"@,
            true,
        ),
{
    encode_utf8_valid_utf8(said);
    encode_utf8_decode_utf8(said);
}

/// A navigation that is refused is said to be, without its address; one that is
/// allowed, and every response, is said only where that is asked for.
pub proof fn law_a_decision_is_said_where_it_matters(
    request: PolicyRequest,
    probe: bool,
    uri: String,
    verdict: Verdict,
    status: Option<u32>,
)
    ensures
        request.kind == DecisionKind::Other ==> super::decision_said(request, probe) is None,
        request.kind == DecisionKind::NavigationAction && request.navigation == Some((uri, verdict))
            && !verdict.allowed ==> super::decision_said(request, probe) == Some(
            (
                "[webview] blocked "@ + "navigation"@ + " to scheme "@ + verdict.scheme@ + " host "@
                    + verdict.host@,
                true,
            ),
        ),
        request.kind == DecisionKind::NewWindowAction && request.navigation == Some((uri, verdict))
            && !verdict.allowed ==> super::decision_said(request, probe) == Some(
            (
                "[webview] blocked "@ + "opening a new window"@ + " to scheme "@ + verdict.scheme@
                    + " host "@ + verdict.host@,
                true,
            ),
        ),
        request.kind == DecisionKind::NavigationAction && request.navigation == Some((uri, verdict))
            && verdict.allowed ==> super::decision_said(request, true) == Some(
            (
                "[webview] nav probe (CORDIAL_WEBVIEW_NAV_PROBE=1): decide-policy "@
                    + "NavigationAction"@ + " ALLOWED uri="@ + uri@,
                false,
            ),
        ),
        request.kind == DecisionKind::NewWindowAction && request.navigation == Some((uri, verdict))
            && verdict.allowed ==> super::decision_said(request, true) == Some(
            (
                "[webview] nav probe (CORDIAL_WEBVIEW_NAV_PROBE=1): decide-policy "@
                    + "NewWindowAction"@ + " ALLOWED uri="@ + uri@,
                false,
            ),
        ),
        request.navigation == Some((uri, verdict)) && verdict.allowed ==> super::decision_said(
            request,
            false,
        ) is None,
        request.kind == DecisionKind::Response && request.response == Some((uri, status))
            ==> super::decision_said(request, true) == Some(
            (
                "[webview] nav probe (CORDIAL_WEBVIEW_NAV_PROBE=1): decide-policy Response uri="@
                    + uri@ + " status="@ + super::status_called(status),
                false,
            ),
        ),
        request.kind == DecisionKind::Response ==> super::decision_said(request, false) is None,
        super::status_called(None) == "None"@,
        status is Some ==> super::status_called(status) == "Some("@ + text::decimal(
            status->0 as nat,
        ) + ")"@,
{
}

/// The script holds what watches launches, and what watches the bridge, each only
/// where it is asked for and without changing anything else.
pub proof fn law_a_script_watches_only_what_it_is_asked_to(watch_launches: bool)
    ensures
        ({
            let head = shim::OPENING@.len() as int;
            let watch = shim::launch_watch().len() as int;
            &&& shim::script(true, false).take(head) == shim::OPENING@
            &&& shim::script(true, false).subrange(head, head + watch) == shim::launch_watch()
            &&& shim::script(true, false).take(head) + shim::script(true, false).skip(head + watch)
                == shim::script(false, false)
            &&& shim::script(true, true).take(head) + shim::script(true, true).skip(head + watch)
                == shim::script(false, true)
        }),
        shim::launch_watch() == shim::LAUNCH_HEAD@ + "cordialHybridLaunchLog"@ + shim::LAUNCH_TAIL@,
        shim::probe() == shim::PROBE_HEAD@ + "cordialBridgeProbe"@ + shim::PROBE_MIDDLE@
            + "cordialBridgeProbe"@ + shim::PROBE_TAIL@,
        shim::bridge(true) == shim::WATCHED_HEAD@ + "executeRoblox"@ + shim::WATCHED_TAIL@,
        shim::bridge(false) == shim::PLAIN_HEAD@ + "executeRoblox"@ + shim::PLAIN_TAIL@,
{
    let head = shim::OPENING@.len() as int;
    let watch = shim::launch_watch().len() as int;
    assert(shim::script(true, false).take(head) =~= shim::OPENING@);
    assert(shim::script(true, false).subrange(head, head + watch) =~= shim::launch_watch());
    assert(shim::script(true, false).take(head) + shim::script(true, false).skip(head + watch)
        =~= shim::script(false, false));
    assert(shim::script(true, true).take(head) + shim::script(true, true).skip(head + watch)
        =~= shim::script(false, true));
}

/// The names and sizes that the page and the environment go by.
pub proof fn law_what_a_page_and_the_environment_go_by()
    ensures
        super::HYBRID_LAUNCH_DISABLE_VAR@ == "CORDIAL_WEBVIEW_DISABLE_HYBRID_LAUNCH"@,
        super::BRIDGE_PROBE_VAR@ == "CORDIAL_WEBVIEW_BRIDGE_PROBE"@,
        super::NAV_PROBE_VAR@ == "CORDIAL_WEBVIEW_NAV_PROBE"@,
        super::CONSOLE_LOG_VAR@ == "CORDIAL_WEBVIEW_CONSOLE_LOG"@,
        super::ALL_FRAMES_VAR@ == "CORDIAL_WEBVIEW_BRIDGE_ALL_FRAMES"@,
        super::WINDOW_WIDTH == 900,
        super::WINDOW_HEIGHT == 700,
        super::SHOWN_ADDRESS == 120,
{
}

/// Registrations are taken as they stand, each at its place.
pub proof fn law_registrations_keep_their_places(all: Seq<super::Registration>, i: int)
    ensures
        super::registrations(all).len() == all.len(),
        0 <= i < all.len() ==> super::registrations(all)[i] == (all[i].handler@, all[i].failure@),
{
}

} // verus!
