use cordial_shell::browser_account::profile::{
    answered, candidate_name, cookies_read, examine, identity_read, matching_profile,
    session_from_store, Matching, ProfileMatch, ProfileQuery, SavedIdentity, Seen,
};
use cordial_shell::browser_account::ticket::LaunchTicket;
use cordial_shell::browser_account::transport::{
    authenticated, authenticated_at, identified, lookup, lookup_at, redeem_body, redeemed,
    session_from_reply, AccountId, IdentityReply, LookupStep, RedeemReply, SessionCookie,
    AUTHENTICATED_ENDPOINT, REDEEM_ENDPOINT,
};
use cordial_shell::secrets::Store;

fn account(id: u64) -> AccountId {
    AccountId::new(id).unwrap()
}

/// A profile as it is saved: what its identity and its cookies hold.
#[derive(Clone)]
struct Saved {
    name: &'static str,
    identity: Option<String>,
    cookies: Option<String>,
}

fn save_profile(name: &'static str, id: u64) -> Saved {
    Saved {
        name,
        identity: Some(format!(r#"{{"schema":1,"userId":{id}}}"#)),
        cookies: Some(format!(
            "# cordial cookie store v1 -- a live Roblox session. Treat it as a password.\n\
.roblox.com\t.ROBLOSECURITY=SESSION-{id}; RBXEventTrackerV2=tracking\n"
        )),
    }
}

fn bytes(text: &Option<String>) -> Option<Vec<u8>> {
    text.as_ref().map(|text| text.clone().into_bytes())
}

/// The identity in a saved text.
fn parsed(identity: &Option<String>) -> Option<SavedIdentity> {
    let value: serde_json::Value = serde_json::from_str(identity.as_ref()?).ok()?;
    Some(SavedIdentity {
        schema: value.get("schema")?.as_u64()?,
        user_id: AccountId::new(value.get("userId")?.as_u64()?)?,
    })
}

/// Match profiles step by step, asking `authenticate` of each session.
fn matching_file_profile(
    profiles: &mut Vec<Saved>,
    id: AccountId,
    mut authenticate: impl FnMut(&SessionCookie, &mut Saved) -> Option<AccountId>,
) -> Option<ProfileMatch> {
    let query = ProfileQuery { account: id, store: Store::File };
    let mut outcomes = Vec::new();
    for profile in profiles.iter_mut() {
        let found = (|| {
            let name = candidate_name(true, Some(profile.name.to_string()))?;
            let named = identity_read(&query, name, bytes(&profile.identity), parsed(&profile.identity))?;
            let (asked, session) = cookies_read(named, bytes(&profile.cookies))?;
            let account = authenticate(&session, profile);
            answered(&query, asked, account, bytes(&profile.identity), bytes(&profile.cookies))
        })();
        outcomes.push(found);
    }
    matching_profile(outcomes)
}

/// What the authenticated-user endpoint answers to a session.
fn answer(session: &SessionCookie, expected: &str, id: Option<u64>) -> Option<AccountId> {
    let endpoint = "http://127.0.0.1/authenticated";
    let request = authenticated_at(session, endpoint);
    assert_eq!(request.endpoint, endpoint);
    assert_eq!(
        request.headers,
        vec![("Cookie".to_string(), format!(".ROBLOSECURITY={expected}"))]
    );
    assert!(request.body.is_none());
    identified(Some(match id {
        Some(id) => IdentityReply { status: 200, id: Some(id) },
        None => IdentityReply { status: 401, id: None },
    }))
}

#[test]
fn ticket_is_removed_without_changing_private_server_parameters() {
    // Given a desktop link whose ticket includes encoded and literal plus signs.
    let raw = "roblox-player:1+launchmode:play+gameinfo:ABC%2BDEF+GHI%3D+placelauncherurl:https%3A%2F%2Fassetgame.roblox.com%2Fgame%2FPlaceLauncher.ashx%3FplaceId%3D42%26accessCode%3Dprivate+browsertrackerid:9";
    // When extracting the credential for redemption.
    let ticket = LaunchTicket::parse(raw).unwrap();
    // Then the join retains its parameters but cannot reuse that credential.
    assert_eq!(ticket.secret, "ABC+DEF+GHI=");
    assert_eq!(ticket.join_url, "roblox-player:1+launchmode:play+placelauncherurl:https%3A%2F%2Fassetgame.roblox.com%2Fgame%2FPlaceLauncher.ashx%3FplaceId%3D42%26accessCode%3Dprivate+browsertrackerid:9");
}

#[test]
fn ticket_text_that_resembles_a_field_is_entirely_removed_from_the_join() {
    // Given a synthetic ticket containing text shaped like an unknown launch field.
    let raw = "roblox-player:1+launchmode:play+gameinfo:ABC+credential:suffix+placelauncherurl:x";
    // When extracting the credential for redemption.
    let ticket = LaunchTicket::parse(raw).unwrap();
    // Then no part of that credential remains in the ticketless launch.
    assert_eq!(ticket.join_url, "roblox-player:1+launchmode:play+placelauncherurl:x");
}

#[test]
fn ambiguous_or_non_play_tickets_are_not_redeemed() {
    // Given malformed, duplicate, absent and non-player credentials.
    for raw in [
        "roblox-player:1+launchmode:play+gameinfo:a+gameinfo:b+placelauncherurl:x",
        "roblox-player:1+launchmode:play+gameinfo:+placelauncherurl:x",
        "roblox-player:1+launchmode:play+gameinfo:%00+placelauncherurl:x",
        "roblox-player:1+launchmode:play+gameinfo:%GG+placelauncherurl:x",
        "roblox-player:1+launchmode:edit+gameinfo:a+placelauncherurl:x",
        "roblox://experiences/start?placeId=42",
        "https:1+launchmode:play+gameinfo:a+placelauncherurl:x",
    ] {
        // When parsing, then no redemption can occur.
        assert!(LaunchTicket::parse(raw).is_none(), "{raw}");
    }
}

#[test]
fn exact_saved_account_is_selected_instead_of_last_used_profile() {
    // Given two independently signed-in profiles.
    let mut profiles = vec![save_profile("last-used", 12), save_profile("browser", 34)];
    // When identifying the browser's account.
    let selected = matching_file_profile(&mut profiles, account(34), |session, _| {
        answer(session, "SESSION-34", Some(34))
    });
    // Then only its profile is returned.
    assert_eq!(selected.as_ref().map(ProfileMatch::name), Some("browser"));
}

#[test]
fn stale_saved_session_cannot_match_newer_identity() {
    // Given a profile whose identity was saved for account B before its account A
    // cookie was replaced by the periodic cookie flush.
    let mut profile = save_profile("browser", 34);
    profile.cookies = Some(
        "# cordial cookie store v1 -- a live Roblox session. Treat it as a password.\n\
.roblox.com\t.ROBLOSECURITY=SESSION-A; RBXEventTrackerV2=tracking\n"
            .to_string(),
    );
    // When the saved session is checked, then its authenticated account rather
    // than the newer identity metadata controls automatic launch.
    let selected = matching_file_profile(&mut vec![profile], account(34), |session, _| {
        answer(session, "SESSION-A", Some(12))
    });
    assert!(selected.is_none());
}

#[test]
fn duplicate_saved_accounts_require_manual_choice() {
    // Given two profiles for the same account.
    let mut profiles = vec![save_profile("first", 34), save_profile("second", 34)];
    // When matching, then neither directory wins by ordering.
    assert!(matching_file_profile(&mut profiles, account(34), |_, _| Some(account(34))).is_none());
    profiles.reverse();
    assert!(matching_file_profile(&mut profiles, account(34), |_, _| Some(account(34))).is_none());
}

#[test]
fn missing_session_or_unknown_identity_schema_cannot_match() {
    // Given an identity without cookies and a future schema with cookies.
    let mut signed_out = save_profile("signed-out", 34);
    signed_out.cookies = None;
    let mut future = save_profile("future", 34);
    future.identity = Some(r#"{"schema":2,"userId":34}"#.to_string());
    // When matching, then stale or unreadable state cannot select a profile.
    let mut profiles = vec![signed_out, future];
    assert!(matching_file_profile(&mut profiles, account(34), |_, _| Some(account(34))).is_none());
}

#[test]
fn session_changed_during_validation_cannot_launch_from_stale_result() {
    // Given a matching profile whose periodic cookie save runs during validation.
    let mut profiles = vec![save_profile("browser", 34)];
    // When the original session authenticates but is replaced before selection.
    let selected = matching_file_profile(&mut profiles, account(34), |_, profile| {
        profile.cookies = Some(
            "# cordial cookie store v1 -- a live Roblox session. Treat it as a password.\n\
.roblox.com\t.ROBLOSECURITY=SESSION-CHANGED\n"
                .to_string(),
        );
        Some(account(34))
    });
    // Then the stale authenticated result cannot authorise the changed profile.
    assert!(selected.is_none());
}

fn snapshot_of(profile: &Saved) -> ProfileMatch {
    let mut profiles = vec![profile.clone()];
    matching_file_profile(&mut profiles, account(34), |_, _| Some(account(34))).unwrap()
}

#[test]
fn matched_profile_snapshot_rejects_identity_byte_changes_after_lookup() {
    // Given snapshot evidence for a matching profile.
    let profile = save_profile("browser", 34);
    let matched = snapshot_of(&profile);
    assert!(matched.still_matches("browser", bytes(&profile.identity), bytes(&profile.cookies)));

    // When equivalent identity data is rewritten with different bytes.
    let rewritten = Some(r#"{ "schema": 1, "userId": 34 }"#.to_string());

    // Then the pre-lock snapshot no longer authorises automatic launch.
    assert!(!matched.still_matches("browser", bytes(&rewritten), bytes(&profile.cookies)));
}

#[test]
fn matched_profile_snapshot_rejects_cookie_byte_changes_after_lookup() {
    // Given snapshot evidence for a matching profile.
    let profile = save_profile("browser", 34);
    let matched = snapshot_of(&profile);

    // When the cookie store changes after lookup, even without changing its session.
    let mut changed = bytes(&profile.cookies).unwrap();
    changed.push(b'\n');

    // Then the pre-lock snapshot no longer authorises automatic launch.
    assert!(!matched.still_matches("browser", bytes(&profile.identity), Some(changed)));
    assert!(!matched.still_matches("other", bytes(&profile.identity), bytes(&profile.cookies)));
    assert!(!matched.still_matches("browser", None, bytes(&profile.cookies)));
}

#[test]
fn failed_saved_session_validation_requires_manual_choice() {
    // Given a candidate profile whose saved session is refused by Roblox.
    let mut profiles = vec![save_profile("browser", 34)];
    // When matching through the authenticated-user endpoint.
    let selected = matching_file_profile(&mut profiles, account(34), |session, _| {
        answer(session, "SESSION-34", None)
    });
    // Then transport failure cannot authorise automatic launch.
    assert!(selected.is_none());
}

#[test]
fn keyring_match_rejects_claim_time_secret_changes() {
    // Given a synthetic profile stored in the desktop keyring.
    let query = ProfileQuery { account: account(34), store: Store::Keyring };
    let identity = br#"{"schema":1,"userId":34}"#.to_vec();
    let cookies = b"# cordial synthetic test\n.roblox.com\t.ROBLOSECURITY=SYNTHETIC-34\n".to_vec();
    let matched = examine(
        &query,
        Seen {
            is_dir: true,
            name: Some("browser".to_string()),
            identity: Some(identity.clone()),
            saved: Some(SavedIdentity { schema: 1, user_id: account(34) }),
            cookies: Some(cookies.clone()),
            account: Some(account(34)),
            identity_after: Some(identity),
            cookies_after: Some(cookies.clone()),
        },
    )
    .unwrap();
    assert_eq!(matched.store(), Store::Keyring);

    // When identity changes after validation but before launch owns the lock.
    let changed = br#"{"schema":1,"userId":35}"#.to_vec();

    // Then exact keyring evidence cannot authorise the changed profile.
    assert!(!matched.still_matches("browser", Some(changed), Some(cookies)));
}

#[test]
fn redeemed_session_identifies_account_without_forwarding_ticket_again() {
    let ticket = LaunchTicket { secret: "FAKE-TICKET".into(), join_url: "unused".into() };
    // Given a peer accepting one redemption.
    let request = match lookup_at(&ticket, "http://peer/redeem") {
        LookupStep::Redeem(request) => request,
        _ => panic!("a ticket is redeemed first"),
    };
    assert_eq!(request.endpoint, "http://peer/redeem");
    assert!(request
        .headers
        .iter()
        .any(|(name, value)| name.eq_ignore_ascii_case("rbxauthenticationnegotiation") && value == "1"));
    let payload: serde_json::Value = serde_json::from_slice(&request.body.unwrap()).unwrap();
    assert_eq!(payload["authenticationTicket"], "FAKE-TICKET");

    // And one identity lookup.
    let reply = RedeemReply {
        status: 200,
        set_cookie: vec![
            Some("other=ignored; Path=/".to_string()),
            Some(".ROBLOSECURITY=FAKE-SESSION; Domain=.roblox.com; Secure; HttpOnly".to_string()),
        ],
    };
    let request = match redeemed(Some(reply), "http://peer/authenticated") {
        LookupStep::Identify(request) => request,
        _ => panic!("a session is identified next"),
    };
    assert_eq!(request.endpoint, "http://peer/authenticated");
    assert!(request
        .headers
        .contains(&("Cookie".to_string(), ".ROBLOSECURITY=FAKE-SESSION".to_string())));
    assert!(request.headers.iter().all(|(_, value)| !value.contains("FAKE-TICKET")));
    assert!(request.body.is_none());

    // Then the authenticated account, not ticket contents, determines identity.
    let found = identified(Some(IdentityReply { status: 200, id: Some(34) }));
    assert_eq!(found.map(|id| id.get()), Some(34));
}

#[test]
fn refused_redemption_does_not_retry_or_request_identity() {
    // Given one rejection with a valid-looking cookie that must not be trusted.
    let reply = RedeemReply { status: 403, set_cookie: vec![Some(".ROBLOSECURITY=FAKE".to_string())] };
    // When redeeming, then no account is claimed from the error response.
    assert!(matches!(redeemed(Some(reply), "http://must-not-request"), LookupStep::Done(None)));
    assert!(matches!(redeemed(None, "http://must-not-request"), LookupStep::Done(None)));
}

#[test]
fn refused_saved_session_cannot_claim_an_account() {
    // Given the authenticated-user endpoint rejects a structurally valid saved session.
    let cookie = SessionCookie::from_value("FAKE-SAVED-SESSION").unwrap();
    assert_eq!(authenticated(&cookie).endpoint, AUTHENTICATED_ENDPOINT);
    // When validating it, then no identity is inferred from the cookie's shape.
    assert!(identified(Some(IdentityReply { status: 401, id: None })).is_none());
    assert!(identified(Some(IdentityReply { status: 200, id: Some(0) })).is_none());
    assert!(identified(None).is_none());
}

#[test]
fn percent_sequences_are_decoded_and_broken_ones_refused() {
    let ticket = LaunchTicket::parse("roblox-player:1+launchmode:play+gameinfo:%41%2b%25+placelauncherurl:x");
    assert_eq!(ticket.unwrap().secret, "A+%");
    // A sequence that is no text once decoded.
    assert!(LaunchTicket::parse("roblox-player:1+launchmode:play+gameinfo:%FF+placelauncherurl:x").is_none());
    assert!(LaunchTicket::parse("roblox-player:1+launchmode:play+gameinfo:%4+placelauncherurl:x").is_none());
}

#[test]
fn a_body_escapes_what_json_escapes() {
    let ticket = LaunchTicket { secret: "a\"b\\c/\u{7f}".into(), join_url: String::new() };
    let body = redeem_body(&ticket).unwrap();
    assert_eq!(String::from_utf8(body).unwrap(), "{\"authenticationTicket\":\"a\\\"b\\\\c/\u{7f}\"}");
    match lookup(&LaunchTicket { secret: "x".into(), join_url: String::new() }) {
        LookupStep::Redeem(request) => assert_eq!(request.endpoint, REDEEM_ENDPOINT),
        _ => panic!("a ticket is redeemed first"),
    }
}

#[test]
fn only_one_session_in_a_reply_is_believed() {
    let reply = |cookies: Vec<&str>| RedeemReply {
        status: 200,
        set_cookie: cookies.into_iter().map(|c| Some(c.to_string())).collect(),
    };
    assert_eq!(
        session_from_reply(Some(reply(vec!["a=b", ".ROBLOSECURITY=S; Path=/"]))).unwrap().header(),
        ".ROBLOSECURITY=S"
    );
    assert!(session_from_reply(Some(reply(vec![".ROBLOSECURITY=S", ".ROBLOSECURITY=T"]))).is_none());
    assert!(session_from_reply(Some(reply(vec!["a=b"]))).is_none());
}

#[test]
fn a_cookie_store_gives_up_its_one_session() {
    let one = b"# comment\n.roblox.com\t.ROBLOSECURITY=A%3BB; other=1\n";
    assert!(session_from_store(one).is_some());
    assert!(session_from_store(b"# nothing\n").is_none());
    assert!(session_from_store(b"\xff").is_none());
    assert!(session_from_store(b".roblox.com\t.ROBLOSECURITY=A\n.roblox.com\t.ROBLOSECURITY=B\n").is_none());
}

#[test]
fn two_matching_profiles_settle_it() {
    let matched = |name: &str| ProfileMatch {
        name: name.to_string(),
        store: Store::Keyring,
        identity: Vec::new(),
        cookies: Vec::new(),
    };
    let (none, more) = Matching::Nothing.examined(None);
    assert!(more);
    let (one, more) = none.examined(Some(matched("first")));
    assert!(more);
    let (still_one, more) = one.examined(None);
    assert!(more);
    assert!(matches!(&still_one, Matching::One(only) if only.name() == "first"));
    let (several, more) = still_one.examined(Some(matched("second")));
    assert!(!more);
    assert!(several.found().is_none());
    let (lone, _) = Matching::Nothing.examined(Some(matched("alone")));
    assert_eq!(lone.found().as_ref().map(ProfileMatch::name), Some("alone"));
}
