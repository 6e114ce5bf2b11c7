//! What a check for updates comes to and what is said of it.

use vstd::prelude::*;
use vstd::string::*;

use super::session::{self, Happening, Knowledge, Plan};
use super::{Automatic, Changes, Checked, Published};
use crate::install::Origin;
use crate::text;

verus! {

broadcast use vstd::string::group_string_axioms;

/// An update is there exactly where a version is installed, one can be had and it
/// is the newer one.
pub proof fn law_an_update_is_a_newer_build_that_can_be_had(checked: Checked)
    ensures
        checked.available() <==> checked.installed is Some && checked.obtainable is Some
            && checked.newer,
        checked.release is Ok ==> checked.announced() == Some(checked.release->Ok_0.major),
        checked.release is Err ==> checked.announced() is None,
{
}

/// A release is out of reach exactly where the build that can be had is of an
/// older engine than the one that was announced.
pub proof fn law_a_release_is_out_of_reach_where_no_build_has_its_engine(checked: Checked)
    ensures
        checked.out_of_reach() <==> checked.obtainable is Some && (
        checked.obtainable->0).major is Some && checked.release is Ok && ((
        checked.obtainable->0).major->0) < checked.release->Ok_0.major,
{
}

/// The header-bar button shows that an update is there, and without one what it
/// does.
pub proof fn law_the_button_shows_what_is_known(checked: Checked, automatic: Automatic)
    ensures
        checked.available() ==> super::dress(Some(checked), automatic) == (
            "software-update-available-symbolic"@,
            "Roblox has published a newer build"@,
            true,
        ),
        !checked.available() ==> super::dress(Some(checked), automatic) == (
            "package-x-generic-symbolic"@,
            "Roblox build"@,
            false,
        ),
        super::dress(None, Automatic::Manual) == (
            "package-x-generic-symbolic"@,
            "Check for a Roblox update"@,
            false,
        ),
        automatic != Automatic::Manual ==> super::dress(None, automatic) == (
            "package-x-generic-symbolic"@,
            "Roblox build"@,
            false,
        ),
{
}

/// The banner tells of an update before anything else, then of a release that is
/// out of reach, and that checks are off only where there is nothing to tell.
pub proof fn law_the_banner_tells_of_an_update_first(checked: Checked, automatic: Automatic)
    ensures
        checked.available() ==> super::banner(Some(checked), automatic) == Some(
            ("A newer Roblox build is available."@, false),
        ),
        !checked.available() && checked.out_of_reach() ==> super::banner(Some(checked), automatic)
            == Some(
            (
                "Roblox has published "@ + text::decimal(checked.release->Ok_0.major as nat)
                    + ", but there is no build of it for this computer's architecture yet. You are on the newest one there is."@,
                false,
            ),
        ),
        !checked.available() && !checked.out_of_reach() ==> super::banner(Some(checked), automatic)
            == super::banner(None, automatic),
        super::banner(None, Automatic::Manual) == Some(
            (
                "Automatic update checks are off. Cordial will not look for new Roblox builds on its own."@,
                true,
            ),
        ),
        automatic != Automatic::Manual ==> super::banner(None, automatic) is None,
{
}

proof fn lemma_status_end(status: Seq<char>, rest: Seq<char>)
    requires
        !status.contains(':'),
        !status.contains('\n'),
        rest.len() > 0 ==> rest[0] == ':' || rest[0] == '\n',
    ensures
        super::status_end(status + rest) == status.len(),
    decreases status.len(),
{
    let s = status + rest;
    if status.len() > 0 {
        assert(s[0] == status[0]);
        assert(status.contains(status[0]));
        assert(s.skip(1) =~= status.skip(1) + rest);
        let tail = status.skip(1);
        assert(!tail.contains(':')) by {
            if tail.contains(':') {
                let i = choose|i: int| 0 <= i < tail.len() && tail[i] == ':';
                assert(status[i + 1] == ':');
            }
        }
        assert(!tail.contains('\n')) by {
            if tail.contains('\n') {
                let i = choose|i: int| 0 <= i < tail.len() && tail[i] == '\n';
                assert(status[i + 1] == '\n');
            }
        }
        lemma_status_end(tail, rest);
    } else {
        assert(s =~= rest);
    }
}

/// A reason that names a status is shortened to that status: from the first time
/// it is named up to a colon, the end of its line or the end.
#[verifier::rlimit(40)]
pub proof fn law_a_status_is_what_is_left_of_a_reason(
    before: Seq<char>,
    status: Seq<char>,
    rest: Seq<char>,
)
    requires
        !text::holds_text(before + "HTTP"@, "HTTP "@),
        status.len() > 0,
        !text::is_white(status.last()),
        !status.contains(':'),
        !status.contains('\n'),
        rest.len() > 0 ==> rest[0] == ':' || rest[0] == '\n',
    ensures
        super::short_of(before + "HTTP "@ + status + rest) == "HTTP "@ + status,
{
    let http = "HTTP "@;
    let why = before + http + status + rest;
    let at = before.len() as int;
    let said = http + status;
    lemma_http();
    assert(why =~= before + http + (status + rest));
    lemma_first_at(before, http, status + rest);
    assert(why.skip(at) =~= said + rest);
    lemma_without(http, status, ':');
    lemma_without(http, status, '\n');
    lemma_status_end(said, rest);
    assert((said + rest).take(said.len() as int) =~= said);
    assert(said[0] == http[0]);
    assert(said.last() == status.last());
    lemma_trimmed_already(said);
}

proof fn lemma_http()
    ensures
        "HTTP "@.len() == 5,
        "HTTP "@.drop_last() == "HTTP"@,
        "HTTP "@[0] == 'H',
        !"HTTP "@.contains(':'),
        !"HTTP "@.contains('\n'),
{
    reveal_strlit("HTTP ");
    reveal_strlit("HTTP");
    assert("HTTP "@.drop_last() =~= "HTTP"@);
}

proof fn lemma_first_at(before: Seq<char>, part: Seq<char>, after: Seq<char>)
    requires
        part.len() > 0,
        !text::holds_text(before + part.drop_last(), part),
    ensures
        text::holds_text(before + part + after, part),
        (choose|k: int| text::is_first_at(before + part + after, part, k)) == before.len(),
{
    let s = before + part + after;
    let head = before + part.drop_last();
    let at = before.len() as int;
    assert(s.subrange(at, at + part.len()) =~= part);
    assert(text::holds_at(s, part, at));
    assert forall|k: int| 0 <= k < at implies !#[trigger] text::holds_at(s, part, k) by {
        assert(s.subrange(k, k + part.len()) =~= head.subrange(k, k + part.len()));
        assert(!text::holds_at(head, part, k));
    }
    assert(text::is_first_at(s, part, at));
    let found = choose|k: int| text::is_first_at(s, part, k);
    assert(text::is_first_at(s, part, found));
    if found < at {
        assert(text::holds_at(s, part, found));
    }
}

proof fn lemma_without(a: Seq<char>, b: Seq<char>, c: char)
    requires
        !a.contains(c),
        !b.contains(c),
    ensures
        !(a + b).contains(c),
{
    let s = a + b;
    if s.contains(c) {
        let i = choose|i: int| 0 <= i < s.len() && s[i] == c;
        if i < a.len() {
            assert(a.contains(a[i]));
        } else {
            assert(b.contains(b[i - a.len()]));
        }
    }
}

proof fn lemma_trimmed_already(s: Seq<char>)
    requires
        s.len() > 0,
        !text::is_white(s[0]),
        !text::is_white(s.last()),
    ensures
        text::trimmed(s) == s,
{
    let none = Seq::<char>::empty();
    assert(none + s + none =~= s);
    text::law_trimming_takes_what_is_around(none, s, none);
}

/// A reason that names no status is its first line, and no more than sixty
/// characters of it, with an ellipsis where more was left out.
#[verifier::rlimit(40)]
pub proof fn law_a_reason_is_shortened_to_its_first_line(
    before: Seq<char>,
    line: Seq<char>,
    after: Seq<char>,
    rest: Seq<char>,
)
    requires
        !text::holds_text(before + line + after + "\n"@ + rest, "HTTP "@),
        line.len() > 0,
        !text::is_white(line[0]),
        !text::is_white(line.last()),
        !line.contains('\n'),
        forall|i: int| 0 <= i < before.len() ==> #[trigger] before[i] == ' ',
        forall|i: int| 0 <= i < after.len() ==> #[trigger] after[i] == ' ',
    ensures
        line.len() <= 60 ==> super::short_of(before + line + after + "\n"@ + rest) == line,
        line.len() > 60 ==> super::short_of(before + line + after + "\n"@ + rest) == line.take(60)
            + "\u{2026}"@,
{
    reveal_strlit("\n");
    reveal_strlit("\u{2026}");
    let first = before + line + after;
    let why = first + "\n"@ + rest;
    assert(!first.contains('\n')) by {
        if first.contains('\n') {
            let i = choose|i: int| 0 <= i < first.len() && first[i] == '\n';
            if i < before.len() {
                assert(first[i] == before[i]);
            } else if i < before.len() + line.len() {
                assert(line.contains(line[i - before.len()]));
            } else {
                assert(first[i] == after[i - before.len() - line.len()]);
            }
        }
    }
    assert(first.last() != '\r') by {
        if after.len() > 0 {
            assert(first.last() == after[after.len() - 1]);
        } else {
            assert(first.last() == line.last());
        }
    }
    assert(why =~= first + seq!['\n'] + rest);
    text::law_a_text_is_read_line_by_line(first, rest);
    assert(text::lines(why)[0] == first);
    text::law_trimming_takes_what_is_around(before, line, after);
    if line.len() > 60 {
        assert(line.take(60).push('\u{2026}') =~= line.take(60) + "\u{2026}"@);
    }
}

/// What the window says of a check: that it is under way, what it found, that it
/// failed, that nothing can be told, or that nothing is newer.
pub proof fn law_the_window_says_what_a_check_found(checked: Checked, mode: Seq<char>)
    ensures
        super::status(None, mode) == (
            "Checking\u{2026}"@,
            "Asking the DevForum what Roblox has published. Auto update is "@ + mode
                + "; this request is one you asked for by opening this window."@,
        ),
        checked.available() ==> super::status(Some(checked), mode) == (
            "Roblox has published engine "@ + text::decimal(
                if checked.release is Ok {
                    checked.release->Ok_0.major as nat
                } else {
                    0
                },
            ),
            "The build here is "@ + checked.installed->0@
                + ". Update opens what Cordial knows about getting a newer one; it cannot fetch this build itself, because Roblox publishes none to fetch."@,
        ),
        !checked.available() && checked.release is Err ==> super::status(Some(checked), mode) == (
            "Could not check"@,
            checked.release->Err_0@,
        ),
        !checked.available() && checked.release is Ok && checked.installed is None
            ==> super::status(Some(checked), mode) == (
            "Whether this build is current cannot be established"@,
            "Roblox's newest release notes are for engine "@ + text::decimal(
                checked.release->Ok_0.major as nat,
            )
                + ". Cordial cannot tell which engine the APK here is, so saying \"up to date\" would be a guess."@,
        ),
        !checked.available() && checked.release is Ok && checked.installed is Some
            ==> super::status(Some(checked), mode) == (
            "Nothing newer"@,
            "This build is engine "@ + checked.installed->0@
                + ", and Roblox's newest release notes are for "@ + text::decimal(
                checked.release->Ok_0.major as nat,
            ) + "."@,
        ),
{
}

/// What a check came to, in a line: nothing where an update speaks for itself,
/// and an error only where the check failed.
pub proof fn law_a_check_comes_to_a_line(checked: Checked)
    ensures
        checked.available() ==> super::outcome(checked) == (Seq::<char>::empty(), false),
        !checked.available() && checked.release is Err ==> super::outcome(checked) == (
            "Could not check: "@ + checked.release->Err_0@,
            true,
        ),
        !checked.available() && checked.release is Ok && checked.installed is Some
            ==> super::outcome(checked) == (
            "Checked just now: nothing newer. This build is engine "@ + checked.installed->0@
                + ", and Roblox's newest is "@ + text::decimal(checked.release->Ok_0.major as nat)
                + "."@,
            false,
        ),
        !checked.available() && checked.release is Ok && checked.installed is None
            ==> super::outcome(checked) == (
            "Checked just now: Roblox's newest release notes are for engine "@ + text::decimal(
                checked.release->Ok_0.major as nat,
            )
                + ". Which engine this APK is cannot be read, so whether it is current is not something Cordial can say."@,
            false,
        ),
{
}

/// The installed version is said as it was recorded, and that it is not known
/// where nothing was.
pub proof fn law_a_version_is_said_as_it_was_recorded(version: Seq<char>)
    ensures
        super::version_said(Some(version)) == "Roblox "@ + version
            + ", recorded when Cordial fetched this build."@,
        super::version_said(None) == "Not known."@,
{
}

/// The day of an announcement is what stands before the time.
pub proof fn law_a_day_is_what_stands_before_the_time(day: Seq<char>, time: Seq<char>)
    requires
        !day.contains('T'),
    ensures
        super::day_of(day + "T"@ + time) == day,
        super::day_of(day) == day,
{
    reveal_strlit("T");
    text::law_the_first_has_none_before_it(day, 'T', time);
    let s = day + seq!['T'] + time;
    assert(s =~= day + "T"@ + time);
    assert(s.take(day.len() as int) =~= day);
}

/// Release notes are headed by their title and their day, and hold the changes
/// where any are known, the announcement where none is, and the reason where
/// there is no announcement.
pub proof fn law_release_notes_hold_what_is_known(
    published: Published,
    changes: Changes,
    why: String,
)
    ensures
        super::day_of(published.created_at@).len() > 0 ==> super::headed(published)
            == published.title@ + " \u{2014} "@ + super::day_of(published.created_at@),
        super::day_of(published.created_at@).len() == 0 ==> super::headed(published)
            == published.title@,
        changes.entries > 0 ==> super::release_said(Ok(published), Some(changes)) == (
            super::headed(published),
            changes.markup@,
        ),
        changes.entries == 0 ==> super::release_said(Ok(published), Some(changes))
            == super::release_said(Ok(published), None),
        super::release_said(Ok(published), None) == (
            super::headed(published),
            text::trimmed(published.text@),
        ),
        super::release_said(Err(why), Some(changes)) == (
            "Could not fetch the release notes"@,
            why@,
        ),
        super::release_said(Err(why), None) == ("Could not fetch the release notes"@, why@),
{
}

/// A download starts only where none is under way: at launch where an update is
/// there and the settings say so, and from the window where one waits and the
/// build in use is Cordial's to replace, or none is in use.
pub proof fn law_a_download_starts_only_where_it_may(
    before: Knowledge,
    checked: Checked,
    plan: Plan,
    origin: Origin,
)
    ensures
        session::starts(before, (Happening::Launched { checked, plan })) <==> !before.installing
            && checked.available() && plan is CheckAndDownload,
        session::starts(before, (Happening::Pressed { origin: None })) <==> !before.installing
            && before.last is Some && (before.last->0).available(),
        session::starts(before, (Happening::Pressed { origin: Some(origin) })) <==> !before.installing
            && before.last is Some && (before.last->0).available() && origin == Origin::Managed,
        !session::starts(before, (Happening::Landed { checked })),
{
}

/// What is known is what the latest check found; a download that installed
/// changes only which version is here, and every download that ended is over.
pub proof fn law_what_is_known_is_what_was_found_last(
    before: Knowledge,
    checked: Checked,
    plan: Plan,
    origin: Option<Origin>,
    installed: bool,
    version: Option<String>,
    newer: bool,
)
    ensures
        session::after(before, (Happening::Launched { checked, plan })).last == Some(checked),
        session::after(before, (Happening::Landed { checked })).last == Some(checked),
        session::after(before, (Happening::Landed { checked })).installing == before.installing,
        session::after(before, (Happening::Pressed { origin })).last == before.last,
        session::after(before, (Happening::Ended { installed: false, version, newer })).last
            == before.last,
        !session::after(before, (Happening::Ended { installed, version, newer })).installing,
        before.last is None ==> session::after(
            before,
            (Happening::Ended { installed, version, newer }),
        ).last is None,
        before.last is Some ==> ({
            let after = session::after(
                before,
                (Happening::Ended { installed: true, version, newer }),
            ).last;
            &&& after is Some
            &&& (after->0).installed == version
            &&& (after->0).newer == newer
            &&& (after->0).obtainable == (before.last->0).obtainable
            &&& (after->0).release == (before.last->0).release
            &&& (after->0).changes == (before.last->0).changes
            &&& (after->0).changes_why == (before.last->0).changes_why
        }),
        before.installing ==> session::after(
            before,
            (Happening::Launched { checked, plan }),
        ).installing,
        before.installing ==> session::after(before, (Happening::Pressed { origin })).installing,
{
}

/// What a check that landed in the window says: the version, then what was found,
/// then what is owed of the changes, each on a line of its own.
pub proof fn law_a_landed_check_says_it_line_by_line(checked: Checked)
    ensures
        ({
            let version = super::version_said(crate::secrets::option_view(checked.installed));
            let found = super::outcome(checked).0;
            let said = session::landed(checked).0;
            &&& session::landed(checked).1 == super::outcome(checked).1
            &&& found.len() == 0 && checked.changes_why is None ==> said == version
            &&& found.len() > 0 && checked.changes_why is None ==> said == version + "\n"@ + found
            &&& found.len() == 0 && checked.changes_why is Some ==> said == version + "\n"@
                + checked.changes_why->0@
            &&& found.len() > 0 && checked.changes_why is Some ==> said == version + "\n"@ + found
                + "\n"@ + checked.changes_why->0@
        }),
{
}

/// What is printed where an update is not downloaded, and where one did not
/// install.
pub proof fn law_an_update_that_is_not_installed_is_reported(why: Seq<char>)
    ensures
        session::held_line(Some(why))
            == "[update] a newer Roblox build has been published; not downloading: "@ + why,
        session::held_line(None)
            == "[update] a newer Roblox build has been published; not downloading: "@
            + "Auto update is Ask"@,
        session::background_failed_line(why) == "[update] a background update did not install: "@
            + why,
{
}

/// A line and its flag are taken as they stand.
pub proof fn law_a_flagged_line_is_taken_as_it_stands(line: String, flag: bool)
    ensures
        super::flagged_view(Some((line, flag))) == Some((line@, flag)),
        super::flagged_view(None) is None,
{
}

} // verus!
