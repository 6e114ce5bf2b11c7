use cordial_shell::browser_account::profile::ProfileMatch;
use cordial_shell::multi_instance_warning::{confirm, not_saved};
use cordial_shell::secrets::Store;
use cordial_shell::window::browser_join::{
    banner_line, banner_text, Arrival, PendingJoin, ResolvedProfile, Resolution, Shell, CHECKING_ACCOUNT,
    CHOOSE_A_PROFILE, PRESS_TO_JOIN,
};
use cordial_shell::window::{exit_presentation, ExitPresentation};

const TICKETED: &str = "roblox-player:1+launchmode:play+gameinfo:FAKE+placelauncherurl:x";
const TICKETLESS: &str = "roblox-player:1+launchmode:play+placelauncherurl:x";

fn shell() -> Shell {
    Shell { join: PendingJoin::new(), profile: "last-used".to_string() }
}

/// Markup of a summary that holds none.
fn as_is(summary: String) -> String {
    summary
}

fn browser_account() -> Option<ResolvedProfile> {
    Some(ResolvedProfile { name: "browser-account".to_string(), evidence: None })
}

/// Take a link and hand back what its lookup is made under.
fn look_up(shell: &mut Shell) -> (u64, String) {
    match shell.queue_join(TICKETED.to_string(), as_is, None) {
        Arrival::Lookup { ticket, identity, chosen } => {
            assert_eq!(ticket.secret, "FAKE");
            (identity, chosen)
        }
        Arrival::Present => panic!("a link with a ticket is looked up"),
    }
}

#[test]
fn exit_ui_preserves_crashes_visible_picker_other_clients_and_pending_lookup() {
    // Given every reason the shell must remain available after a child exits.
    let cases = [
        (true, 0, false, false, ExitPresentation::Crash),
        (false, 0, true, false, ExitPresentation::Keep),
        (false, 1, false, false, ExitPresentation::Keep),
        (false, 0, false, true, ExitPresentation::Keep),
    ];

    // When the exit presentation is selected.
    for (crashed, remaining, visible, pending, expected) in cases {
        // Then each reason prevents hidden-launcher teardown.
        assert_eq!(exit_presentation(crashed, remaining, visible, pending), expected);
    }
    assert_eq!(exit_presentation(false, 0, false, false), ExitPresentation::Close);
}

#[test]
fn browser_account_launches_matching_profile_through_window_action() {
    let mut shell = shell();
    // When a browser ticket resolves.
    let (identity, chosen) = look_up(&mut shell);
    assert_eq!(chosen, "last-used");
    assert_eq!(shell.join.banner.title, CHECKING_ACCOUNT);
    assert!(matches!(shell.resolved(identity, &chosen, browser_account()), Resolution::Launch));
    // Then the launch runs with the consumed ticket absent.
    assert_eq!(shell.profile, "browser-account");
    assert_eq!(shell.join.peek().as_deref(), Some(TICKETLESS));
    shell.join.clear();
    assert!(shell.join.peek().is_none());
    assert!(!shell.join.banner.revealed);
}

#[test]
fn matched_profile_is_shown_when_automatic_launch_waits_for_retry() {
    let mut shell = shell();
    let (identity, chosen) = look_up(&mut shell);
    assert!(matches!(shell.resolved(identity, &chosen, browser_account()), Resolution::Launch));
    // When the launch is not taken, the join waits for a retry by hand.
    shell.launch_not_taken();
    assert_eq!(shell.profile, "browser-account");
    assert_eq!(shell.join.banner.title, PRESS_TO_JOIN);
    assert!(shell.join.peek().is_some());
}

#[test]
fn unmatched_account_keeps_ticketless_join_for_manual_launch() {
    let mut shell = shell();
    // When account resolution finishes with no match.
    let (identity, chosen) = look_up(&mut shell);
    assert!(matches!(shell.resolved(identity, &chosen, None), Resolution::Choose));
    // Then the original choice remains, and the join waits without its ticket.
    assert_eq!(shell.profile, "last-used");
    assert_eq!(shell.join.peek().as_deref(), Some(TICKETLESS));
    assert!(shell.join.banner.revealed);
    assert_eq!(shell.join.banner.title, CHOOSE_A_PROFILE);
}

#[test]
fn discarded_request_cannot_launch_after_account_lookup_finishes() {
    let mut shell = shell();
    let (identity, chosen) = look_up(&mut shell);
    // When the user discards it before the result arrives.
    shell.join.clear();
    // Then no late launch or selection change occurs.
    assert!(matches!(shell.resolved(identity, &chosen, browser_account()), Resolution::Stale));
    assert_eq!(shell.profile, "last-used");
    assert!(shell.join.peek().is_none());
}

#[test]
fn newer_identical_join_invalidates_previous_account_lookup() {
    let mut shell = shell();
    let (identity, chosen) = look_up(&mut shell);
    // When another click queues identical join parameters with a distinct identity.
    shell.join.queue(TICKETLESS.to_string(), as_is);
    // Then the older result cannot select an account or launch the newer join.
    assert!(matches!(shell.resolved(identity, &chosen, browser_account()), Resolution::Stale));
    assert_eq!(shell.profile, "last-used");
    assert!(shell.join.peek().is_some());
}

#[test]
fn disabled_routing_preserves_original_manual_launch() {
    let mut shell = shell();
    // When a browser link arrives with routing off, lookup must not run.
    let arrival = shell.queue_join(TICKETED.to_string(), as_is, Some("0"));
    // Then the untouched join waits for the normal launch button.
    assert!(matches!(arrival, Arrival::Present));
    assert_eq!(shell.join.peek().as_deref(), Some(TICKETED));
    assert_eq!(shell.join.banner.title, banner_line(TICKETED, as_is));
}

#[test]
fn manual_launch_entry_invalidates_lookup_without_consuming_join() {
    let mut shell = shell();
    let (identity, chosen) = look_up(&mut shell);
    // When manual launch is requested and fails before spawning a child.
    shell.join.invalidate_lookup("last-used");
    // Then its late lookup cannot select or launch, while retry data remains.
    assert!(matches!(shell.resolved(identity, &chosen, browser_account()), Resolution::Stale));
    assert_eq!(shell.profile, "last-used");
    assert_eq!(shell.join.peek().as_deref(), Some(TICKETLESS));
}

#[test]
fn changed_profile_after_account_resolution_falls_back_before_spawn() {
    let mut shell = shell();
    let identity_bytes = br#"{"schema":1,"userId":34}"#.to_vec();
    let cookies = b".roblox.com\t.ROBLOSECURITY=SESSION-B\n".to_vec();
    let matched = ProfileMatch {
        name: "browser".to_string(),
        store: Store::File,
        identity: identity_bytes.clone(),
        cookies: cookies.clone(),
    };
    // When selection succeeds, then account A replaces B before the action claims it.
    let (identity, chosen) = look_up(&mut shell);
    let found = Some(ResolvedProfile::of(matched));
    assert!(matches!(shell.resolved(identity, &chosen, found), Resolution::Launch));
    shell.join.invalidate_lookup("browser");
    assert_eq!(
        shell.join.matched_store_if_current("browser", Some(identity_bytes), Some(cookies.clone())),
        Ok(Some(Store::File))
    );
    let replaced = br#"{"schema":1,"userId":12}"#.to_vec();
    // Then no stale automatic launch is authorised, and the join is not consumed.
    assert_eq!(
        shell.join.matched_store_if_current("browser", Some(replaced), Some(cookies)),
        Err(())
    );
    assert_eq!(shell.join.peek().as_deref(), Some(TICKETLESS));
    shell.join.clear_profile_match();
    assert_eq!(shell.join.matched_store_if_current("browser", None, None), Ok(None));
}

#[test]
fn a_profile_chosen_meanwhile_is_kept() {
    let mut shell = shell();
    let (identity, chosen) = look_up(&mut shell);
    shell.profile = "picked-by-hand".to_string();
    assert!(matches!(shell.resolved(identity, &chosen, browser_account()), Resolution::Choose));
    assert_eq!(shell.profile, "picked-by-hand");
}

#[test]
fn a_match_for_another_profile_is_dropped_by_a_launch() {
    let mut join = PendingJoin::new();
    assert!(join.can_queue());
    join.queue("roblox://home".to_string(), as_is);
    join.set_profile_match(ProfileMatch {
        name: "browser".to_string(),
        store: Store::File,
        identity: vec![],
        cookies: vec![],
    });
    join.invalidate_lookup("other");
    assert_eq!(join.matched_store_if_current("browser", Some(vec![]), Some(vec![])), Ok(None));
    assert_eq!(join.peek().as_deref(), Some("roblox://home"));
}

#[test]
fn only_an_acceptance_is_remembered() {
    let mut seen = false;
    assert!(!confirm("cancel", &mut seen));
    assert!(!seen);
    assert!(confirm("proceed", &mut seen));
    assert!(seen);
    assert!(!confirm("cancel", &mut seen));
    assert!(seen);
    assert_eq!(
        not_saved("/c/shell.json", "no space"),
        "  multi_instance_warning: could not save /c/shell.json (no space); the warning may show again"
    );
}

#[test]
fn the_banner_holds_the_escaped_summary_and_no_ticket() {
    let mut handed = String::new();
    let line = banner_line(TICKETED, |summary| {
        handed = summary;
        "&lt;shown&gt;".to_string()
    });
    assert_eq!(handed, "roblox-player:");
    assert_eq!(line, "Roblox link waiting: &lt;shown&gt; \u{2014} press Roblox to join");
    assert_eq!(line, banner_text("&lt;shown&gt;"));
    let mut shell = shell();
    shell.queue_join(TICKETED.to_string(), as_is, Some("0"));
    assert_eq!(
        shell.join.banner.title,
        "Roblox link waiting: roblox-player: \u{2014} press Roblox to join"
    );
    assert!(!shell.join.banner.title.contains("FAKE"));
}
