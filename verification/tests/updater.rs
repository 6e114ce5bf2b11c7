use cordial_shell::install::Origin;
use cordial_shell::updater::session::{
    Finished, Link, Opening, Plan, Press, Session, Window, ALREADY_INSTALLING,
};
use cordial_shell::updater::{
    action_label, banner_text, cache_line, changes_note, check_outcome, connection_line, dressing,
    heading, installed_version, release_lines_full, short_reason, source_line, status_lines,
    update_settings, version_line, Automatic, Changes, Checked, Docs, Obtainable, Published,
    AUTO_UPDATE_SUBTITLE, CHECK, DOWNLOAD, FETCH_EXPLAINS, INSTALLED_DESCRIPTION, PACKAGE_ICON,
    SETTINGS_DESCRIPTION, STORES, UPDATE_ICON,
};

fn published(major: u32) -> Published {
    Published {
        major,
        created_at: "2026-07-29T18:44:52.923Z".into(),
        web_url: format!("https://devforum.roblox.com/t/release-notes-for-{major}/4763851"),
        title: format!("Release Notes for {major}"),
        text: "Hi all,\nPleased to announce that it has landed.".into(),
    }
}

/// The engine of a version: its second number.
fn major_of(version: &str) -> Option<u32> {
    version.split('.').nth(1)?.parse().ok()
}

fn obtainable(version: &str) -> Option<Obtainable> {
    Some(Obtainable { version: version.to_string(), major: major_of(version) })
}

/// Whether one version is newer than another, by the number of its engine alone.
fn is_newer(there: &Option<Obtainable>, here: &Option<String>) -> bool {
    match (there, here) {
        (Some(there), Some(here)) => major_of(&there.version) > major_of(here),
        _ => false,
    }
}

fn checked(installed: Option<&str>, latest: Option<u32>) -> Checked {
    let installed = installed.map(str::to_string);
    // The mirror offers whatever was announced, and where the installed build is
    // already there, exactly what is installed.
    let obtainable = match (installed.as_deref(), latest) {
        (Some(i), Some(m)) => match major_of(i) {
            Some(here) if here < m => obtainable(&format!("2.{m}.9999")),
            _ => obtainable(i),
        },
        (Some(i), None) => obtainable(i),
        (None, Some(m)) => obtainable(&format!("2.{m}.9999")),
        (None, None) => None,
    };
    Checked {
        newer: is_newer(&obtainable, &installed),
        installed,
        obtainable,
        release: match latest {
            Some(major) => Ok(published(major)),
            None => Err("https://devforum.roblox.com/c/updates/release-notes/62.json: no route to host".into()),
        },
        changes: None,
        changes_why: None,
    }
}

#[test]
fn a_short_reason_is_the_status_and_not_the_url_scheme() {
    let real = "https://create.roblox.com/docs/release-notes/release-notes-736 \
                answered HTTP 404: <!DOCTYPE html><html lang=\"en-US\">";
    assert_eq!(short_reason(real), "HTTP 404");
    assert_ne!(short_reason(real), "https");

    // No status at all: a first line, bounded.
    let dns = "https://create.roblox.com/x: could not resolve host";
    let short = short_reason(dns);
    assert!(!short.is_empty());
    assert!(!short.contains('\n'));

    // The bound is in characters.
    let translated = format!("{}é rest of a translated message", "x".repeat(58));
    let short = short_reason(&translated);
    assert!(short.ends_with('…'), "{short}");
    assert_eq!(short.chars().count(), 61, "60 characters and the ellipsis");

    // And a message that is entirely multi-byte.
    let all_wide = "ネットワークに接続できません".repeat(8);
    let short = short_reason(&all_wide);
    assert!(short.chars().count() <= 61, "{short}");

    assert_eq!(short_reason(""), "");
    assert_eq!(short_reason("  one \r\ntwo"), "one");
    assert_eq!(short_reason("a HTTP 500 \nb"), "HTTP 500");
}

#[test]
fn every_check_outcome_says_something() {
    // Nothing newer, and the version is known because Cordial fetched it.
    let (line, err) = check_outcome(&checked(Some("2.736.100"), Some(736)));
    assert!(line.contains("nothing newer"), "{line}");
    assert!(line.contains("736"), "{line}");
    assert!(!err);

    // The ordinary state: no installed version to compare.
    let (line, err) = check_outcome(&checked(None, Some(736)));
    assert!(line.contains("Checked just now"), "{line}");
    assert!(line.contains("736"), "{line}");
    assert!(!line.contains("up to date"), "{line}");
    assert!(!err);

    // The DevForum did not answer. This one is an error and says why.
    let (line, err) = check_outcome(&checked(None, None));
    assert!(line.starts_with("Could not check:"), "{line}");
    assert!(err, "a failed check must be styled as one");

    // An update waiting says nothing here.
    let (line, _) = check_outcome(&checked(Some("2.730.1"), Some(736)));
    assert!(line.is_empty(), "expected the button to speak for this state: {line}");
}

#[test]
fn an_unknown_installed_version_is_not_an_old_one_nor_a_current_one() {
    let c = checked(None, Some(732));
    assert!(!c.update_available());
    let (title, body) = status_lines(&Some(c), "Update in background");
    assert!(title.contains("cannot be established"), "{title}");
    assert!(body.contains("cannot tell which"), "{body}");
    assert!(!body.contains("up to date") || body.contains("would be a guess"), "{body}");
}

#[test]
fn an_older_installed_engine_than_the_release_notes_is_an_update() {
    let c = checked(Some("0.700.1.7001000"), Some(732));
    assert!(c.update_available());
    let (title, body) = status_lines(&Some(c), "Ask");
    assert!(title.contains("732"), "{title}");
    assert!(body.contains("0.700.1.7001000"), "{body}");
    assert!(body.contains("cannot fetch this build itself"), "{body}");
}

#[test]
fn a_current_engine_is_reported_as_nothing_newer() {
    let c = checked(Some("0.732.23.7321040"), Some(732));
    assert!(!c.update_available());
    assert_eq!(status_lines(&Some(c), "Update in background").0, "Nothing newer");
}

#[test]
fn a_devforum_that_did_not_answer_is_not_read_as_nothing_published() {
    let c = checked(Some("0.700.1.7001000"), None);
    assert!(!c.update_available(), "an unreachable forum is not evidence of anything");
    let (title, body) = status_lines(&Some(c), "Update in background");
    assert_eq!(title, "Could not check");
    assert!(body.contains("devforum.roblox.com"), "{body}");
}

#[test]
fn opening_the_window_is_itself_the_check_manual_mode_promises() {
    let (title, body) = status_lines(&None, "Manual");
    assert_eq!(title, "Checking…");
    assert!(body.contains("Manual"), "{body}");
    assert!(body.contains("one you asked for"), "{body}");
    let session = Session::new(Automatic::Manual);
    assert!(!session.checks_at_launch());
    let opening = session.open(false, Automatic::Manual);
    assert!(matches!(opening, Opening::New { check: true, .. }));
}

#[test]
fn the_settings_description_names_the_mirror_and_the_check_together() {
    assert!(SETTINGS_DESCRIPTION.contains("APKPure"), "{SETTINGS_DESCRIPTION}");
    assert!(SETTINGS_DESCRIPTION.contains("signing certificate"), "{SETTINGS_DESCRIPTION}");
}

#[test]
fn nothing_offers_the_download_without_saying_what_is_checked() {
    for text in [SETTINGS_DESCRIPTION, FETCH_EXPLAINS] {
        assert!(text.contains("APKPure"), "{text}");
        assert!(
            text.contains("signing certificate") || text.contains("signed it"),
            "names the mirror without naming the check: {text}"
        );
    }
}

#[test]
fn the_dropdown_subtitle_distinguishes_the_three_modes() {
    assert!(AUTO_UPDATE_SUBTITLE.contains("opens the changelog"), "{AUTO_UPDATE_SUBTITLE}");
    assert!(AUTO_UPDATE_SUBTITLE.contains("Manual checks only"), "{AUTO_UPDATE_SUBTITLE}");
}

#[test]
fn the_failure_text_says_what_to_do_rather_than_only_what_broke() {
    assert!(!STORES.contains("Google Play"), "{STORES}");
    assert!(!STORES.contains("Amazon"), "{STORES}");
    assert!(STORES.contains("Roblox page"), "{STORES}");
    assert!(STORES.contains("Try again"), "{STORES}");
}

#[test]
fn the_button_says_download_only_when_there_is_something_to_download() {
    assert_eq!(action_label(&None), CHECK);
    assert_eq!(action_label(&Some(checked(None, Some(732)))), CHECK);
    assert_eq!(action_label(&Some(checked(Some("0.732.23.7321040"), Some(732)))), CHECK);

    let available = checked(Some("0.700.1.7001000"), Some(732));
    assert!(available.update_available());
    assert_eq!(action_label(&Some(available)), DOWNLOAD);

    assert!(!CHECK.contains("Download"), "{CHECK}");
    assert!(!DOWNLOAD.ends_with('…'), "{DOWNLOAD}");
    assert!(!CHECK.ends_with('…'), "{CHECK}");
}

#[test]
fn an_announced_build_with_no_obtainable_version_is_not_an_update() {
    let mut state = checked(Some("2.734.0.917"), Some(735));
    // What the mirror can actually supply for this machine.
    state.obtainable = obtainable("2.734.917");
    state.newer = is_newer(&state.obtainable, &state.installed);

    assert!(
        !state.update_available(),
        "the newest obtainable build is installed, so nothing is waiting"
    );
    assert!(
        state.newer_announced_than_obtainable(),
        "and the window should still be able to explain why 735 is not on offer"
    );

    let last = Some(state);
    let attention = dressing(&last, Automatic::Ask).2;
    assert!(!attention, "no attention for an update that cannot be installed");
    assert_eq!(
        banner_text(&last, Automatic::Ask).unwrap().0,
        "Roblox has published 735, but there is no build of it for this computer's architecture yet. You are on the newest one there is."
    );

    // And once a 735 does appear for this architecture, it is an update again.
    let mut state = last.unwrap();
    state.obtainable = obtainable("2.735.1200");
    state.newer = is_newer(&state.obtainable, &state.installed);
    assert!(state.update_available());
}

#[test]
fn the_banner_prefers_news_over_a_standing_setting() {
    let waiting = checked(Some("2.700.1.7001000"), Some(732));
    let (text, has_button) = banner_text(&Some(waiting), Automatic::Manual).expect("a banner");
    assert!(text.contains("newer Roblox build is available"), "{text}");
    assert!(!has_button, "the window already has the Download button below it");

    // Nothing waiting, checks off: the standing condition surfaces.
    let current = Some(checked(Some("2.732.9999"), Some(732)));
    let (text, has_button) = banner_text(&current, Automatic::Manual).expect("a banner");
    assert!(text.contains("Automatic update checks are off"), "{text}");
    assert!(has_button, "a banner naming a setting must offer a way to it");

    // Nothing waiting, checks on: no banner at all.
    assert!(banner_text(&current, Automatic::Ask).is_none());
}

#[test]
fn installing_the_update_puts_the_badge_out() {
    let automatic = Automatic::Ask;

    // Before: behind by a major, so the button asks for attention.
    let mut state = checked(Some("0.700.1.7001000"), Some(732));
    let last = Some(state);
    let (icon, _, attention) = dressing(&last, automatic);
    assert!(attention, "a build behind the published one must ask for attention");
    assert_eq!(icon, UPDATE_ICON);

    // After: the version on record is read again.
    state = last.unwrap();
    let installed = Some("0.732.23.7321040".to_string());
    let newer = is_newer(&state.obtainable, &installed);
    state.reread_installed(installed, newer);
    let (icon, _, attention) = dressing(&Some(state), automatic);
    assert!(!attention, "the badge must go out once the update is installed");
    assert_eq!(icon, PACKAGE_ICON, "and the icon goes back to the package");
}

#[test]
fn the_header_icon_is_the_arrow_only_while_an_update_is_actually_waiting() {
    assert_ne!(PACKAGE_ICON, UPDATE_ICON);
    for automatic in [Automatic::Background, Automatic::Ask, Automatic::Manual] {
        let (icon, _, attention) = dressing(&None, automatic);
        assert_eq!(icon, PACKAGE_ICON, "{automatic:?} resting");
        assert!(!attention, "{automatic:?} resting");

        let (icon, _, attention) =
            dressing(&Some(checked(Some("0.732.23.7321040"), Some(732))), automatic);
        assert_eq!(icon, PACKAGE_ICON, "{automatic:?} nothing newer");
        assert!(!attention, "{automatic:?} nothing newer");

        let (icon, _, attention) =
            dressing(&Some(checked(Some("0.700.1.7001000"), Some(732))), automatic);
        assert_eq!(icon, UPDATE_ICON, "{automatic:?} update waiting");
        assert!(attention, "{automatic:?} update waiting");
    }
    assert_eq!(dressing(&None, Automatic::Manual).1, "Check for a Roblox update");
}

#[test]
fn the_installed_group_says_where_the_apk_is_chosen_now_that_it_is_not_chosen_here() {
    assert!(INSTALLED_DESCRIPTION.contains("Roblox page in Settings"), "{INSTALLED_DESCRIPTION}");
    assert!(INSTALLED_DESCRIPTION.contains("your own APK"), "{INSTALLED_DESCRIPTION}");
}

#[test]
fn an_unknown_roblox_version_says_why_rather_than_guessing() {
    let line = version_line(&None);
    assert_eq!(line, "Not known.");
    assert!(version_line(&Some("0.732.23.7321040".into())).contains("0.732.23.7321040"));
}

#[test]
fn the_unknown_version_line_does_not_claim_nothing_was_ever_fetched() {
    let line = version_line(&None);
    assert!(
        !line.contains("has fetched none"),
        "the line names a specific, unverifiable cause: {line}"
    );
}

#[test]
fn installed_version_is_none_for_every_origin_except_managed() {
    let recorded = || Some("2.734.917".to_string());
    assert_eq!(installed_version(None, recorded()), None);
    assert_eq!(installed_version(Some(Origin::Chosen), recorded()), None);
    assert_eq!(installed_version(Some(Origin::Sober), recorded()), None);
    assert_eq!(installed_version(Some(Origin::Environment), recorded()), None);
    // The one origin that may answer says what is on record.
    assert_eq!(installed_version(Some(Origin::Managed), recorded()), recorded());
    assert_eq!(installed_version(Some(Origin::Managed), None), None);
}

#[test]
fn a_cache_from_another_build_says_it_will_be_extracted_again() {
    let library = "lib/x86_64/libroblox.so";
    let stale = cache_line(true, Some("10 1754000000 /a/base.apk".into()), false, library);
    assert!(stale.contains("different build"), "{stale}");
    assert!(stale.contains("/a/base.apk"), "the stamp is what decides, so it is shown");

    let fresh = cache_line(true, Some("10 1754000000 /a/base.apk".into()), true, library);
    assert!(fresh.contains("Extracted from the APK above"), "{fresh}");

    assert!(cache_line(false, None, false, library).contains("None yet"));
    assert!(cache_line(false, None, false, library).contains(library));
    assert!(cache_line(true, None, false, library).contains("nothing records"));
}

#[test]
fn the_ordinary_desktops_guess_is_shown_as_metered_and_explained() {
    let line = connection_line("NetworkManager guesses it is not metered", true);
    assert!(line.contains("guess"), "{line}");
    assert!(line.contains("Treated as metered"), "{line}");
    assert!(line.contains("Download on metered connection"), "{line}");

    let plain = connection_line("NetworkManager says it is not metered", false);
    assert!(plain.contains("Treated as unmetered"), "{plain}");
    assert!(plain.contains("Download on metered connection"), "{plain}");
}

#[test]
fn the_source_row_reports_the_refusal_it_was_given() {
    // Whatever decides is what the row says.
    let refused = source_line(Err("Builds come from APKPure."), "CORDIAL_APK_URL");
    assert!(refused.contains("APKPure"), "{refused}");

    let configured = source_line(Ok("https://example.invalid/base.apk"), "CORDIAL_APK_URL");
    assert!(configured.contains("https://example.invalid/base.apk"), "{configured}");
    assert!(configured.contains("does not fetch"), "{configured}");
}

#[test]
fn a_fetched_changelog_shows_its_title_date_and_opening() {
    let (title, body) = release_lines_full(&Ok(published(732)), &None);
    assert_eq!(title, "Release Notes for 732 — 2026-07-29");
    assert!(body.starts_with("Hi all,"), "{body}");
}

#[test]
fn a_long_set_of_notes_arrives_whole_now_that_it_has_a_window() {
    let long: String = (0..200).map(|i| format!("line {i}\n")).collect();
    let mut release = published(732);
    release.text = long;
    let (_, body) = release_lines_full(&Ok(release), &None);
    assert!(body.contains("line 199"), "the last line was dropped");
    assert!(!body.ends_with('…'), "{body}");
}

#[test]
fn the_table_of_changes_comes_before_the_announcement() {
    let changes = |entries| Some(Changes { entries, markup: "<b>Fixes</b>".to_string() });
    assert_eq!(release_lines_full(&Ok(published(732)), &changes(1)).1, "<b>Fixes</b>");
    assert!(release_lines_full(&Ok(published(732)), &changes(0)).1.starts_with("Hi all,"));
    let failed = release_lines_full(&Err("down".to_string()), &changes(1));
    assert_eq!(failed, ("Could not fetch the release notes".to_string(), "down".to_string()));
    let mut undated = published(732);
    undated.created_at = String::new();
    assert_eq!(heading(&undated), "Release Notes for 732");
    undated.created_at = "2026-07-29".to_string();
    assert_eq!(heading(&undated), "Release Notes for 732 — 2026-07-29");
}

#[test]
fn what_is_owed_about_the_changes_is_said() {
    assert_eq!(changes_note(&Docs::Current), None);
    assert_eq!(
        changes_note(&Docs::Newest { date: "July 29".to_string() }).as_deref(),
        Some("Showing the newest notes listed, week of July 29.")
    );
    assert_eq!(
        changes_note(&Docs::Failed { why: "https://x answered HTTP 404: <html>".to_string() }).as_deref(),
        Some("Changelog unavailable: Roblox's release notes (HTTP 404).")
    );
}

#[test]
fn the_shell_config_becomes_the_pair_the_update_crate_plans_from() {
    let settings = update_settings(Automatic::Background, false);
    assert_eq!(settings.automatic, Automatic::Background);
    assert!(!settings.download_on_metered);

    // The switch off and the link metered: held, with the reason.
    let mut session = Session::new(Automatic::Background);
    let why = "Download on metered connection is off".to_string();
    let held = Plan::CheckAndAsk { why: Some(why) };
    let step = session.launch_checked(checked(Some("2.700.1"), Some(732)), held);
    assert!(!step.download && !step.present);
    let line = step.line.unwrap();
    assert!(line.contains("Download on metered connection"), "{line}");
    // The same settings on an unmetered link download.
    let step = session.launch_checked(checked(Some("2.700.1"), Some(732)), Plan::CheckAndDownload);
    assert!(step.download && step.line.is_none());
}

#[test]
fn one_install_at_a_time_whichever_control_starts_it() {
    let waiting = || checked(Some("2.700.1"), Some(732));
    let mut session = Session::new(Automatic::Background);
    assert!(session.launch_checked(waiting(), Plan::CheckAndDownload).download);
    // The button, while the background install runs.
    match session.press(Some(Origin::Managed)) {
        Press::Refuse(why) => assert_eq!(why, ALREADY_INSTALLING),
        _ => panic!("a second install is refused"),
    }
    // Another launch check that lands meanwhile.
    let step = session.launch_checked(waiting(), Plan::CheckAndDownload);
    assert!(!step.download);
    assert_eq!(
        step.line.unwrap(),
        format!("[update] a background update did not install: {ALREADY_INSTALLING}")
    );
    // And once it ended the next press can start one.
    let line = session.background_finished(Err("no route".to_string()), None, false);
    assert_eq!(line, "[update] a background update did not install: no route");
    assert!(matches!(session.press(Some(Origin::Managed)), Press::Download));
    assert!(matches!(session.press(Some(Origin::Managed)), Press::Refuse(_)));
}

#[test]
fn a_press_checks_refuses_or_downloads() {
    let mut session = Session::new(Automatic::Ask);
    assert!(matches!(session.press(None), Press::Check));
    let step = session.launch_checked(
        checked(Some("2.700.1"), Some(732)),
        Plan::CheckAndAsk { why: None },
    );
    assert!(step.present, "Ask means somebody is asked");
    assert!(step.line.unwrap().ends_with("Auto update is Ask"));
    match session.press(Some(Origin::Chosen)) {
        Press::Refuse(why) => assert_eq!(why, Origin::Chosen.why_not_updatable().unwrap()),
        _ => panic!("a build that would not be used is not fetched"),
    }
    assert!(matches!(session.press(None), Press::Download));

    let failed = session.download_finished(Err("mirror down".to_string()), "stopped", None, false);
    match failed {
        Finished::Failed(said) => assert_eq!(said, format!("mirror down\n\n{STORES}")),
        _ => panic!("a failure is shown"),
    }
    assert!(matches!(session.press(None), Press::Download));
    let stopped = session.download_finished(Err("stopped".to_string()), "stopped", None, false);
    assert!(matches!(stopped, Finished::Stopped), "a cancel is not a failure");
    assert!(matches!(session.press(None), Press::Download));
    let done = session.download_finished(
        Ok("2.732.9999".to_string()),
        "stopped",
        Some("2.732.9999".to_string()),
        false,
    );
    assert!(matches!(done, Finished::Installed(version) if version == "2.732.9999"));
    assert!(matches!(session.press(None), Press::Check), "the update stopped being one");
}

#[test]
fn a_launch_with_nothing_waiting_does_nothing() {
    let mut session = Session::new(Automatic::Ask);
    assert!(session.checks_at_launch());
    let step = session.launch_checked(checked(Some("2.732.1"), Some(732)), Plan::CheckAndDownload);
    assert!(!step.download && !step.present && step.line.is_none());
    assert!(matches!(session.open(true, Automatic::Ask), Opening::Raise));
    let opening = session.open(false, Automatic::Ask);
    assert!(matches!(opening, Opening::New { check: false, .. }));
}

#[test]
fn the_window_shows_what_is_known() {
    let mut session = Session::new(Automatic::Ask);
    let window = Window { automatic: Automatic::Ask };
    let before = session.paint(window, "Ask", Some("2.700.1".to_string()));
    assert_eq!(before.title, "Fetching…");
    assert_eq!(before.body, "Roblox's release notes, from the DevForum.");
    assert_eq!(before.status, "Roblox 2.700.1, recorded when Cordial fetched this build.");
    assert!(matches!(before.link, Link::Hide));
    assert!(!before.markup && !before.suggested);
    assert!(before.tooltip.ends_with(INSTALLED_DESCRIPTION));

    let mut found = checked(Some("2.700.1"), Some(732));
    found.changes_why = Some("Showing the newest notes listed, week of July 29.".to_string());
    let (line, is_error) = session.check_landed(found);
    assert_eq!(
        line,
        "Roblox 2.700.1, recorded when Cordial fetched this build.\nShowing the newest notes listed, week of July 29."
    );
    assert!(!is_error);
    let after = session.paint(window, "Ask", None);
    assert_eq!(after.label, DOWNLOAD);
    assert!(after.suggested && after.markup);
    assert_eq!(after.icon, UPDATE_ICON);
    assert!(matches!(after.link, Link::Show(url) if url.contains("release-notes-for-732")));

    let (line, is_error) = session.check_landed(checked(None, None));
    assert!(line.starts_with("Not known.\nCould not check: "), "{line}");
    assert!(is_error);
    assert!(matches!(session.paint(window, "Ask", None).link, Link::Keep));
}

#[test]
fn a_window_shows_the_mode_that_was_chosen_when_it_was_opened() {
    let opened = |session: &Session, automatic| match session.open(false, automatic) {
        Opening::New { window, .. } => window,
        Opening::Raise => panic!("none is open"),
    };
    // Launched in Background, and then switched to Manual in the settings.
    let mut session = Session::new(Automatic::Background);
    assert!(session.checks_at_launch());
    let nothing = checked(Some("2.732.1"), Some(732));
    session.check_landed(nothing);
    let background = opened(&session, Automatic::Background);
    assert!(session.paint(background, "Background", None).banner.is_none());
    let manual = opened(&session, Automatic::Manual);
    let banner = session.paint(manual, "Manual", None).banner;
    assert_eq!(banner, banner_text(&session.last, Automatic::Manual));
    assert!(banner.is_some(), "automatic checks are off, and that is said");

    // What the check at launch opens goes by the mode of the launch.
    let step = session.launch_checked(
        checked(Some("2.700.1"), Some(732)),
        Plan::CheckAndAsk { why: None },
    );
    assert!(!step.present);
    let mut asking = Session::new(Automatic::Ask);
    opened(&asking, Automatic::Manual);
    let step = asking.launch_checked(
        checked(Some("2.700.1"), Some(732)),
        Plan::CheckAndAsk { why: None },
    );
    assert!(step.present, "Ask means somebody is asked");
}
