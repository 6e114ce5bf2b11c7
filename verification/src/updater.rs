//! The Roblox-build button in the header bar and the window behind it: what is
//! known of updates, and what is said of it.
//!
//! An update is established, never assumed. An installed version that is not
//! known is not an old one, and a forum that did not answer is not a Roblox
//! that published nothing. So the ordinary state is not knowing, and it is said
//! rather than rounded to "up to date".

pub mod laws;
pub mod session;

use vstd::prelude::*;
use vstd::string::*;

use crate::install::Origin;
use crate::text::{
    self, chars_of, find_from, find_text, lines_of, text_between, to_decimal, trim, trim_between,
};

verus! {

broadcast use vstd::string::group_string_axioms;

/// The resting icon: nothing is known to be waiting.
pub const PACKAGE_ICON: &'static str = "package-x-generic-symbolic";

/// The icon that means an update is waiting, worn only where one is.
pub const UPDATE_ICON: &'static str = "software-update-available-symbolic";

/// The label once there is something newer.
pub const DOWNLOAD: &'static str = "Download Roblox";

/// The resting label.
pub const CHECK: &'static str = "Check for updates";

/// The label while a check is under way.
pub const CHECKING: &'static str = "Checking\u{2026}";

/// What the modes of the dropdown mean.
pub const AUTO_UPDATE_SUBTITLE: &'static str = "Ask opens the changelog when an update is waiting. Manual checks only when you press the header-bar button.";

/// Said on the settings group.
pub const SETTINGS_DESCRIPTION: &'static str = "Builds come from APKPure, and install only if Roblox's signing certificate signed them.";

/// What to do instead, where something went wrong.
pub const STORES: &'static str = "Try again, or choose an APK yourself on the Roblox page in Settings.";

/// What the fetch does.
pub const FETCH_EXPLAINS: &'static str = "Builds come from APKPure, and install only if Roblox's signing certificate signed them.";

/// Where an archive of one's own is chosen.
pub const INSTALLED_DESCRIPTION: &'static str = "Choose your own APK on the Roblox page in Settings.";

/// Said of the switch for metered connections.
pub const METERED_SUBTITLE: &'static str = "A connection NetworkManager only guesses is unmetered counts as metered, which an ordinary wired desktop often is.";

/// Said while there are no notes yet.
pub const NO_NOTES_YET: &'static str = "Roblox's release notes, from the DevForum.";

/// When updates are looked for and fetched.
#[derive(Debug, Clone, Copy, PartialEq, Eq, Structural)]
pub enum Automatic {
    Background,
    Ask,
    Manual,
}

/// The mode and the switch that updates are planned from.
#[derive(Debug, Clone, Copy, PartialEq, Eq, Structural)]
pub struct UpdateSettings {
    pub automatic: Automatic,
    pub download_on_metered: bool,
}

/// The mode and the switch that updates are planned from.
pub fn update_settings(automatic: Automatic, download_on_metered: bool) -> (settings: UpdateSettings)
    ensures
        settings.automatic == automatic,
        settings.download_on_metered == download_on_metered,
{
    UpdateSettings { automatic, download_on_metered }
}

/// A release Roblox published, and its notes.
pub struct Published {
    /// The newest engine it ships.
    pub major: u32,
    /// When it was announced, as a date, a `T` and a time.
    pub created_at: String,
    /// Where the announcement is read.
    pub web_url: String,
    /// The title of the notes.
    pub title: String,
    /// The text of the notes.
    pub text: String,
}

/// The newest build a source can supply for this machine.
pub struct Obtainable {
    pub version: String,
    /// The engine of that version, where the version names one.
    pub major: Option<u32>,
}

/// A table of changes, rendered.
pub struct Changes {
    /// How many entries it has.
    pub entries: usize,
    pub markup: String,
}

/// What one check found out.
pub struct Checked {
    /// The version installed here, where it is known.
    pub installed: Option<String>,
    /// The newest build that can be had here, which is not the newest that was
    /// announced.
    pub obtainable: Option<Obtainable>,
    /// Whether the obtainable version is newer than the installed one, as
    /// versions are ordered. It says nothing where either is unknown.
    pub newer: bool,
    /// What was announced, or why that is not known.
    pub release: Result<Published, String>,
    /// What changed, where that was answered.
    pub changes: Option<Changes>,
    /// A line about the changes, where one is owed.
    pub changes_why: Option<String>,
}

impl Checked {
    /// A newer build is established: both versions are known, and the one that
    /// can be had is newer.
    pub open spec fn available(self) -> bool {
        self.installed is Some && self.obtainable is Some && self.newer
    }

    /// The newest engine that was announced.
    pub open spec fn announced(self) -> Option<u32> {
        match self.release {
            Ok(published) => Some(published.major),
            Err(_) => None,
        }
    }

    /// Something newer was announced than can be had here.
    pub open spec fn out_of_reach(self) -> bool {
        match (self.obtainable, self.announced()) {
            (Some(Obtainable { major: Some(have), .. }), Some(announced)) => have < announced,
            _ => false,
        }
    }

    /// The newest engine that was announced, where that is known.
    pub fn latest_major(&self) -> (major: Option<u32>)
        ensures
            major == self.announced(),
    {
        match &self.release {
            Ok(published) => Some(published.major),
            Err(_) => None,
        }
    }

    /// Whether a newer build is established, not assumed: against what can be
    /// installed here, not against what was announced.
    pub fn update_available(&self) -> (available: bool)
        ensures
            available == self.available(),
    {
        match (&self.installed, &self.obtainable) {
            (Some(_), Some(_)) => self.newer,
            _ => false,
        }
    }

    /// Whether something newer was announced than can be had here.
    pub fn newer_announced_than_obtainable(&self) -> (newer: bool)
        ensures
            newer == self.out_of_reach(),
    {
        let have: Option<u32> = match &self.obtainable {
            Some(obtainable) => obtainable.major,
            None => None,
        };
        match (have, self.latest_major()) {
            (Some(have), Some(announced)) => have < announced,
            _ => false,
        }
    }

    /// Take the version that is installed now, and how the obtainable one
    /// compares with it, so that an installed update stops being one.
    pub fn reread_installed(&mut self, installed: Option<String>, newer: bool)
        ensures
            final(self).installed == installed,
            final(self).newer == newer,
            final(self).obtainable == old(self).obtainable,
            final(self).release == old(self).release,
            final(self).changes == old(self).changes,
            final(self).changes_why == old(self).changes_why,
    {
        self.installed = installed;
        self.newer = newer;
    }
}

/// The version of the build that is used, where it is known. Only the build
/// Cordial itself put there has one on record.
pub fn installed_version(origin: Option<Origin>, recorded: Option<String>) -> (version: Option<
    String,
>)
    ensures
        version == (if origin == Some(Origin::Managed) {
            recorded
        } else {
            None
        }),
{
    match origin {
        Some(Origin::Managed) => recorded,
        _ => None,
    }
}

/// The icon, the tooltip and whether attention is asked for.
pub open spec fn dress(last: Option<Checked>, automatic: Automatic) -> (Seq<char>, Seq<char>, bool) {
    match last {
        Some(checked) => if checked.available() {
            (UPDATE_ICON@, "Roblox has published a newer build"@, true)
        } else {
            (PACKAGE_ICON@, "Roblox build"@, false)
        },
        None => if automatic == Automatic::Manual {
            (PACKAGE_ICON@, "Check for a Roblox update"@, false)
        } else {
            (PACKAGE_ICON@, "Roblox build"@, false)
        },
    }
}

/// Which icon, tooltip and attention the knowledge earns. The arrow means that
/// an update is waiting, and nothing else does.
pub fn dressing(last: &Option<Checked>, automatic: Automatic) -> (dressed: (
    &'static str,
    &'static str,
    bool,
))
    ensures
        (dressed.0@, dressed.1@, dressed.2) == dress(*last, automatic),
{
    match last {
        Some(checked) => if checked.update_available() {
            (UPDATE_ICON, "Roblox has published a newer build", true)
        } else {
            (PACKAGE_ICON, "Roblox build", false)
        },
        None => if automatic == Automatic::Manual {
            (PACKAGE_ICON, "Check for a Roblox update", false)
        } else {
            (PACKAGE_ICON, "Roblox build", false)
        },
    }
}

/// What the banner says and whether it offers a way to the settings.
pub open spec fn banner(last: Option<Checked>, automatic: Automatic) -> Option<(Seq<char>, bool)> {
    if last is Some && (last->0).available() {
        Some(("A newer Roblox build is available."@, false))
    } else if last is Some && (last->0).out_of_reach() {
        Some(
            (
                "Roblox has published "@ + text::decimal(((last->0).announced()->0) as nat)
                    + ", but there is no build of it for this computer's architecture yet. You are on the newest one there is."@,
                false,
            ),
        )
    } else if automatic == Automatic::Manual {
        Some(
            (
                "Automatic update checks are off. Cordial will not look for new Roblox builds on its own."@,
                true,
            ),
        )
    } else {
        None
    }
}

/// A line and a flag that may be absent, as values.
pub open spec fn flagged_view(line: Option<(String, bool)>) -> Option<(Seq<char>, bool)> {
    match line {
        Some((line, flag)) => Some((line@, flag)),
        None => None,
    }
}

/// What the banner says, or nothing at all. News outranks a standing setting.
pub fn banner_text(last: &Option<Checked>, automatic: Automatic) -> (said: Option<(String, bool)>)
    ensures
        flagged_view(said) == banner(*last, automatic),
{
    if let Some(checked) = last {
        if checked.update_available() {
            return Some(("A newer Roblox build is available.".to_owned(), false));
        }
        if checked.newer_announced_than_obtainable() {
            if let Some(latest) = checked.latest_major() {
                let mut said = "Roblox has published ".to_owned();
                said.append(to_decimal(latest as u64).as_str());
                said.append(
                    ", but there is no build of it for this computer's architecture yet. You are on the newest one there is.",
                );
                return Some((said, false));
            }
        }
    }
    if automatic == Automatic::Manual {
        return Some(
            (
                "Automatic update checks are off. Cordial will not look for new Roblox builds on its own.".to_owned(),
                true,
            ),
        );
    }
    None
}

/// How many characters of a reason are shown.
pub const REASON_LENGTH: usize = 60;

/// The first line of a text; a text without lines is itself.
pub open spec fn first_line(s: Seq<char>) -> Seq<char> {
    if text::lines(s).len() > 0 {
        text::lines(s)[0]
    } else {
        s
    }
}

/// Where the part of a reason that names a status ends.
pub open spec fn status_end(tail: Seq<char>) -> int
    decreases tail.len(),
{
    if tail.len() == 0 || tail[0] == ':' || tail[0] == '\n' {
        0
    } else {
        1 + status_end(tail.skip(1))
    }
}

/// The short form of a reason: its HTTP status where it names one, and
/// otherwise its first line, cut at a number of characters.
pub open spec fn short_of(why: Seq<char>) -> Seq<char> {
    if text::holds_text(why, "HTTP "@) {
        let tail = why.skip(choose|at: int| text::is_first_at(why, "HTTP "@, at));
        text::trimmed(tail.take(status_end(tail)))
    } else {
        let line = text::trimmed(first_line(why));
        if line.len() > REASON_LENGTH {
            line.take(REASON_LENGTH as int).push('\u{2026}')
        } else {
            line
        }
    }
}

proof fn lemma_first_at(s: Seq<char>, needle: Seq<char>, at: int)
    requires
        text::is_first_at(s, needle, at),
    ensures
        (choose|i: int| text::is_first_at(s, needle, i)) == at,
{
    let i = choose|i: int| text::is_first_at(s, needle, i);
    assert(text::is_first_at(s, needle, i));
    if i < at {
        assert(!text::holds_at(s, needle, i));
    }
    if at < i {
        assert(!text::holds_at(s, needle, at));
    }
}

/// The short form of a reason, for a window with one line to spare.
pub fn short_reason(why: &str) -> (short: String)
    ensures
        short@ == short_of(why@),
{
    let chars = chars_of(why);
    match find_text(&chars, &chars_of("HTTP ")) {
        Some(at) => {
            proof {
                lemma_first_at(why@, "HTTP "@, at as int);
            }
            let ghost tail = why@.skip(at as int);
            let mut end: usize = at;
            while end < chars.len() && chars[end] != ':' && chars[end] != '\n'
                invariant
                    at <= end <= chars.len(),
                    chars@ == why@,
                    tail == why@.skip(at as int),
                    status_end(tail) == (end - at) + status_end(why@.skip(end as int)),
                decreases chars@.len() - end,
            {
                assert(why@.skip(end as int).skip(1) =~= why@.skip(end + 1));
                end = end + 1;
            }
            assert(status_end(tail) == end - at);
            assert(chars@.subrange(at as int, end as int) =~= tail.take(end - at));
            let inner = trim_between(&chars, at, end);
            let short = text_between(&inner, 0, inner.len());
            assert(short@ =~= inner@);
            short
        },
        None => {
            let lines = lines_of(&chars);
            let first = if lines.len() > 0 {
                assert(text::views(lines@)[0] == lines@[0]@);
                trim_between(&lines[0], 0, lines[0].len())
            } else {
                trim_between(&chars, 0, chars.len())
            };
            proof {
                assert(chars@.subrange(0, chars@.len() as int) =~= chars@);
                if lines@.len() > 0 {
                    assert(lines@[0]@.subrange(0, lines@[0]@.len() as int) =~= lines@[0]@);
                }
                assert(first@ == text::trimmed(first_line(why@)));
            }
            if first.len() > REASON_LENGTH {
                let mut short = text_between(&first, 0, REASON_LENGTH);
                short.push('\u{2026}');
                assert(short@ =~= first@.take(REASON_LENGTH as int).push('\u{2026}'));
                short
            } else {
                let short = text_between(&first, 0, first.len());
                assert(short@ =~= first@);
                short
            }
        },
    }
}

/// A reason without a status is bounded in characters, whatever they are.
pub proof fn law_a_reason_without_a_status_is_bounded(why: Seq<char>)
    requires
        !text::holds_text(why, "HTTP "@),
    ensures
        short_of(why).len() <= REASON_LENGTH + 1,
{
}

/// What the page of changes answered.
pub enum Docs {
    /// The release Roblox calls current.
    Current,
    /// The newest that is listed, which is not called current.
    Newest { date: String },
    Failed { why: String },
}

/// The line that is owed about the changes, where one is.
pub fn changes_note(docs: &Docs) -> (note: Option<String>)
    ensures
        crate::secrets::option_view(note) == (match *docs {
            Docs::Current => None,
            Docs::Newest { date } => Some(
                "Showing the newest notes listed, week of "@ + date@ + "."@,
            ),
            Docs::Failed { why } => Some(
                "Changelog unavailable: Roblox's release notes ("@ + short_of(why@) + ")."@,
            ),
        }),
{
    match docs {
        Docs::Current => None,
        Docs::Newest { date } => {
            let mut note = "Showing the newest notes listed, week of ".to_owned();
            note.append(date.as_str());
            note.append(".");
            Some(note)
        },
        Docs::Failed { why } => {
            let mut note = "Changelog unavailable: Roblox's release notes (".to_owned();
            note.append(short_reason(why.as_str()).as_str());
            note.append(").");
            Some(note)
        },
    }
}

/// The word the button wears.
pub fn action_label(checked: &Option<Checked>) -> (label: &'static str)
    ensures
        label@ == (if checked is Some && (checked->0).available() {
            DOWNLOAD@
        } else {
            CHECK@
        }),
{
    match checked {
        Some(checked) => if checked.update_available() {
            DOWNLOAD
        } else {
            CHECK
        },
        None => CHECK,
    }
}

/// Which state this is, and why. `mode` is what the mode of checking is called.
pub open spec fn status(checked: Option<Checked>, mode: Seq<char>) -> (Seq<char>, Seq<char>) {
    match checked {
        None => (
            CHECKING@,
            "Asking the DevForum what Roblox has published. Auto update is "@ + mode
                + "; this request is one you asked for by opening this window."@,
        ),
        Some(checked) => if checked.available() {
            (
                "Roblox has published engine "@ + text::decimal(
                    match checked.announced() {
                        Some(latest) => latest as nat,
                        None => 0,
                    },
                ),
                "The build here is "@ + (checked.installed->0)@
                    + ". Update opens what Cordial knows about getting a newer one; it cannot fetch this build itself, because Roblox publishes none to fetch."@,
            )
        } else {
            match checked.release {
                Err(why) => ("Could not check"@, why@),
                Ok(published) => match checked.installed {
                    None => (
                        "Whether this build is current cannot be established"@,
                        "Roblox's newest release notes are for engine "@ + text::decimal(
                            published.major as nat,
                        )
                            + ". Cordial cannot tell which engine the APK here is, so saying \"up to date\" would be a guess."@,
                    ),
                    Some(here) => (
                        "Nothing newer"@,
                        "This build is engine "@ + here@
                            + ", and Roblox's newest release notes are for "@ + text::decimal(
                            published.major as nat,
                        ) + "."@,
                    ),
                },
            }
        },
    }
}

/// Which state this is, and why.
pub fn status_lines(checked: &Option<Checked>, mode: &str) -> (lines: (String, String))
    ensures
        (lines.0@, lines.1@) == status(*checked, mode@),
{
    let checked = match checked {
        Some(checked) => checked,
        None => {
            let mut body =
                "Asking the DevForum what Roblox has published. Auto update is ".to_owned();
            body.append(mode);
            body.append("; this request is one you asked for by opening this window.");
            return (CHECKING.to_owned(), body);
        },
    };
    if checked.update_available() {
        if let Some(here) = &checked.installed {
            let latest: u32 = match checked.latest_major() {
                Some(latest) => latest,
                None => 0,
            };
            let mut title = "Roblox has published engine ".to_owned();
            title.append(to_decimal(latest as u64).as_str());
            let mut body = "The build here is ".to_owned();
            body.append(here.as_str());
            body.append(
                ". Update opens what Cordial knows about getting a newer one; it cannot fetch this build itself, because Roblox publishes none to fetch.",
            );
            return (title, body);
        }
    }
    match &checked.release {
        Err(why) => ("Could not check".to_owned(), why.clone()),
        Ok(published) => match &checked.installed {
            None => {
                let mut body = "Roblox's newest release notes are for engine ".to_owned();
                body.append(to_decimal(published.major as u64).as_str());
                body.append(
                    ". Cordial cannot tell which engine the APK here is, so saying \"up to date\" would be a guess.",
                );
                ("Whether this build is current cannot be established".to_owned(), body)
            },
            Some(here) => {
                let mut body = "This build is engine ".to_owned();
                body.append(here.as_str());
                body.append(", and Roblox's newest release notes are for ");
                body.append(to_decimal(published.major as u64).as_str());
                body.append(".");
                ("Nothing newer".to_owned(), body)
            },
        },
    }
}

/// What a check found, in one line, and whether that is an error. An update
/// that is waiting shows itself elsewhere and has no line.
pub open spec fn outcome(checked: Checked) -> (Seq<char>, bool) {
    if checked.available() {
        (Seq::empty(), false)
    } else {
        match checked.release {
            Err(why) => ("Could not check: "@ + why@, true),
            Ok(published) => match checked.installed {
                Some(here) => (
                    "Checked just now: nothing newer. This build is engine "@ + here@
                        + ", and Roblox's newest is "@ + text::decimal(published.major as nat)
                        + "."@,
                    false,
                ),
                None => (
                    "Checked just now: Roblox's newest release notes are for engine "@
                        + text::decimal(published.major as nat)
                        + ". Which engine this APK is cannot be read, so whether it is current is not something Cordial can say."@,
                    false,
                ),
            },
        }
    }
}

/// What a check found, in one line, and whether that is an error.
pub fn check_outcome(checked: &Checked) -> (line: (String, bool))
    ensures
        (line.0@, line.1) == outcome(*checked),
{
    if checked.update_available() {
        return (String::new(), false);
    }
    match &checked.release {
        Err(why) => {
            let mut line = "Could not check: ".to_owned();
            line.append(why.as_str());
            (line, true)
        },
        Ok(published) => match &checked.installed {
            Some(here) => {
                let mut line = "Checked just now: nothing newer. This build is engine ".to_owned();
                line.append(here.as_str());
                line.append(", and Roblox's newest is ");
                line.append(to_decimal(published.major as u64).as_str());
                line.append(".");
                (line, false)
            },
            None => {
                let mut line =
                    "Checked just now: Roblox's newest release notes are for engine ".to_owned();
                line.append(to_decimal(published.major as u64).as_str());
                line.append(
                    ". Which engine this APK is cannot be read, so whether it is current is not something Cordial can say.",
                );
                (line, false)
            },
        },
    }
}

/// Which version this is, where that is known.
pub open spec fn version_said(recorded: Option<Seq<char>>) -> Seq<char> {
    match recorded {
        Some(version) => "Roblox "@ + version + ", recorded when Cordial fetched this build."@,
        None => "Not known."@,
    }
}

/// Which version this is, where that is known.
pub fn version_line(recorded: &Option<String>) -> (line: String)
    ensures
        line@ == version_said(crate::secrets::option_view(*recorded)),
{
    match recorded {
        Some(version) => {
            let mut line = "Roblox ".to_owned();
            line.append(version.as_str());
            line.append(", recorded when Cordial fetched this build.");
            line
        },
        None => "Not known.".to_owned(),
    }
}

/// What the extracted engine is, and whether it still matches the archive.
/// `library` is the engine's place in an archive.
pub fn cache_line(engine: bool, stamp: Option<String>, current: bool, library: &str) -> (line: String)
    ensures
        line@ == (if !engine {
            "None yet. Cordial takes "@ + library@
                + " out of the APK the first time you launch, into its own cache."@
        } else {
            match stamp {
                Some(stamp) => if current {
                    "Extracted from the APK above.\n"@ + stamp@
                } else {
                    "Extracted from a different build, so the next launch extracts again.\n"@
                        + stamp@
                },
                None => "An engine is cached and nothing records which APK it came from, so the next launch extracts again."@,
            }
        }),
{
    if !engine {
        let mut line = "None yet. Cordial takes ".to_owned();
        line.append(library);
        line.append(" out of the APK the first time you launch, into its own cache.");
        return line;
    }
    match stamp {
        Some(stamp) => {
            let mut line = if current {
                "Extracted from the APK above.\n".to_owned()
            } else {
                "Extracted from a different build, so the next launch extracts again.\n".to_owned()
            };
            line.append(stamp.as_str());
            line
        },
        None => {
            "An engine is cached and nothing records which APK it came from, so the next launch extracts again.".to_owned()
        },
    }
}

/// What this connection counts as, given what is said of it and whether that
/// is metered.
pub fn connection_line(described: &str, metered: bool) -> (line: String)
    ensures
        line@ == described@ + ".\n"@ + (if metered {
            "Treated as metered, so Download on metered connection governs it. Only an explicit unmetered answer takes the other branch."@
        } else {
            "Treated as unmetered, so Download on metered connection does not need to be on."@
        }),
{
    let mut line = described.to_owned();
    line.append(".\n");
    if metered {
        line.append(
            "Treated as metered, so Download on metered connection governs it. Only an explicit unmetered answer takes the other branch.",
        );
    } else {
        line.append(
            "Treated as unmetered, so Download on metered connection does not need to be on.",
        );
    }
    line
}

/// What the row of the download source says: the address that `variable` names,
/// or the refusal it was given.
pub fn source_line(configured: Result<&str, &str>, variable: &str) -> (line: String)
    ensures
        line@ == (match configured {
            Ok(url) => variable@ + " points Cordial at a build you chose:\n"@ + url@
                + "\nThis window does not fetch it; it shows what is installed and where a build comes from."@,
            Err(refusal) => refusal@,
        }),
{
    match configured {
        Ok(url) => {
            let mut line = variable.to_owned();
            line.append(" points Cordial at a build you chose:\n");
            line.append(url);
            line.append(
                "\nThis window does not fetch it; it shows what is installed and where a build comes from.",
            );
            line
        },
        Err(refusal) => refusal.to_owned(),
    }
}

/// The day of a time: what stands before its `T`.
pub open spec fn day_of(created_at: Seq<char>) -> Seq<char> {
    match text::first(created_at, 'T') {
        Some(i) => created_at.take(i),
        None => created_at,
    }
}

/// The title of a release, with its day where it has one.
pub open spec fn headed(published: Published) -> Seq<char> {
    if day_of(published.created_at@).len() == 0 {
        published.title@
    } else {
        published.title@ + " \u{2014} "@ + day_of(published.created_at@)
    }
}

/// The title of a release, with its day where it has one.
pub fn heading(published: &Published) -> (title: String)
    ensures
        title@ == headed(*published),
{
    let chars = chars_of(published.created_at.as_str());
    let end: usize = match find_from(&chars, 'T', 0) {
        Some(at) => at,
        None => chars.len(),
    };
    let day = text_between(&chars, 0, end);
    proof {
        assert(chars@.take(chars@.len() as int) =~= chars@);
        assert(day@ =~= chars@.take(end as int));
        assert(day@ == day_of(published.created_at@));
    }
    let mut title = published.title.clone();
    if !day.as_str().is_empty() {
        title.append(" \u{2014} ");
        title.append(day.as_str());
    }
    title
}

/// The heading and the notes, whole: the table of changes where it was
/// answered and has any, and the announcement otherwise.
pub open spec fn release_said(
    release: Result<Published, String>,
    changes: Option<Changes>,
) -> (Seq<char>, Seq<char>) {
    match release {
        Ok(published) => (
            headed(published),
            match changes {
                Some(changes) => if changes.entries > 0 {
                    changes.markup@
                } else {
                    text::trimmed(published.text@)
                },
                None => text::trimmed(published.text@),
            },
        ),
        Err(why) => ("Could not fetch the release notes"@, why@),
    }
}

/// The heading and the notes, whole.
pub fn release_lines_full(release: &Result<Published, String>, changes: &Option<Changes>) -> (lines:
    (String, String))
    ensures
        (lines.0@, lines.1@) == release_said(*release, *changes),
{
    match release {
        Ok(published) => {
            let body = match changes {
                Some(changes) => if changes.entries > 0 {
                    changes.markup.clone()
                } else {
                    trim(published.text.as_str())
                },
                None => trim(published.text.as_str()),
            };
            (heading(published), body)
        },
        Err(why) => ("Could not fetch the release notes".to_owned(), why.clone()),
    }
}

/// An installed version that is not known is neither old nor current, and no
/// announcement makes an update of what cannot be had: without both versions
/// there is none, and what was announced does not enter into it.
pub proof fn law_an_update_is_never_assumed(checked: Checked, other: Checked)
    requires
        other.installed == checked.installed,
        other.obtainable == checked.obtainable,
        other.newer == checked.newer,
    ensures
        checked.installed is None || checked.obtainable is None ==> !checked.available(),
        other.available() == checked.available(),
        !checked.newer ==> !checked.available(),
{
}

/// The arrow, the attention and the word on the button all say the same thing:
/// an update is waiting.
pub proof fn law_every_sign_says_the_same(checked: Checked, automatic: Automatic)
    ensures
        dress(Some(checked), automatic).2 == checked.available(),
        (dress(Some(checked), automatic).0 == UPDATE_ICON@) == checked.available(),
        dress(None, automatic).0 == PACKAGE_ICON@,
        !dress(None, automatic).2,
{
    reveal_strlit("package-x-generic-symbolic");
    reveal_strlit("software-update-available-symbolic");
    assert("package-x-generic-symbolic"@[0] == 'p');
    assert("software-update-available-symbolic"@[0] == 's');
    assert(PACKAGE_ICON@ == "package-x-generic-symbolic"@);
    assert(UPDATE_ICON@ == "software-update-available-symbolic"@);
}

/// A check leaves a sentence behind in every state but the one the button and
/// the banner already speak for.
pub proof fn law_every_outcome_says_something(checked: Checked)
    ensures
        (outcome(checked).0.len() == 0) == checked.available(),
        outcome(checked).1 == (!checked.available() && checked.release is Err),
{
    reveal_strlit("Could not check: ");
    reveal_strlit("Checked just now: nothing newer. This build is engine ");
    reveal_strlit("Checked just now: Roblox's newest release notes are for engine ");
    assert("Could not check: "@.len() > 0);
    assert("Checked just now: nothing newer. This build is engine "@.len() > 0);
    assert("Checked just now: Roblox's newest release notes are for engine "@.len() > 0);
}

} // verus!
