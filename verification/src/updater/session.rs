//! The button, the window and the downloads of one run of the launcher.
//!
//! Two controls can start an install: the check at launch, where updates are
//! fetched in the background, and the window's button. One process installs one
//! build at a time, whichever started it.

use vstd::prelude::*;
use vstd::string::*;

use super::{
    action_label, banner_text, check_outcome, dressing, release_lines_full, status_lines,
    version_line, Automatic, Checked, INSTALLED_DESCRIPTION, NO_NOTES_YET, STORES,
};
use crate::install::Origin;
use crate::text::same_text;

verus! {

broadcast use vstd::string::group_string_axioms;

/// Said where an install is already under way.
pub const ALREADY_INSTALLING: &'static str = "Cordial is already installing a build in the background. Wait for it to finish, then try again.";

/// What one run knows of updates, and whether it is installing one.
pub struct Session {
    /// The mode the launcher was started in. What follows the check at launch
    /// goes by it, whatever is chosen in the settings meanwhile.
    pub automatic: Automatic,
    pub last: Option<Checked>,
    pub installing: bool,
}

/// What the settings make of an update that is waiting.
pub enum Plan {
    CheckAndDownload,
    CheckAndAsk { why: Option<String> },
    DoNotCheck,
}

/// What follows the check at launch.
pub struct LaunchStep {
    /// A download is started.
    pub download: bool,
    /// This is printed.
    pub line: Option<String>,
    /// The window is opened.
    pub present: bool,
}

/// What a press of the window's button does.
pub enum Press {
    /// Check again.
    Check,
    /// Show this as an error, and nothing else.
    Refuse(String),
    /// Start a download, and turn the button into the one that stops it.
    Download,
}

/// How a download from the window ended.
pub enum Finished {
    /// This version is installed, and everything is painted again.
    Installed(String),
    /// It was stopped, which is no failure.
    Stopped,
    /// This is shown.
    Failed(String),
}

/// What opening the window does.
pub enum Opening {
    /// Bring forward the one that is open.
    Raise,
    /// Open this one, and check at once where nothing is known yet.
    New { window: Window, check: bool },
}

/// A window that was opened. It shows the mode that was chosen when it was.
#[derive(Debug, Clone, Copy, PartialEq, Eq, Structural)]
pub struct Window {
    pub automatic: Automatic,
}

/// What becomes of the link to the announcement.
pub enum Link {
    /// It is shown, and leads here.
    Show(String),
    /// It stays as it is: what is known says nothing of it.
    Keep,
    Hide,
}

/// What the window shows.
pub struct Paint {
    pub banner: Option<(String, bool)>,
    pub status: String,
    pub tooltip: String,
    pub label: &'static str,
    pub suggested: bool,
    pub title: String,
    pub body: String,
    /// Whether the body is markup.
    pub markup: bool,
    pub link: Link,
    pub icon: &'static str,
    pub icon_tooltip: &'static str,
}

/// An update is known to be waiting.
pub open spec fn waiting(last: Option<Checked>) -> bool {
    last is Some && (last->0).available()
}

/// Something that happens to what is known and to the installs.
pub enum Happening {
    /// The check at launch landed, and the settings made this of it.
    Launched { checked: Checked, plan: Plan },
    /// A check from the window landed.
    Landed { checked: Checked },
    /// The window's button was pressed, with a build in use from this origin.
    Pressed { origin: Option<Origin> },
    /// A download ended. Where it installed, this is the version on record now,
    /// and how the obtainable one compares with it.
    Ended { installed: bool, version: Option<String>, newer: bool },
}

/// What is known of updates, and whether one is being installed.
pub struct Knowledge {
    pub last: Option<Checked>,
    pub installing: bool,
}

/// What is known of updates, with the version that is installed now.
pub open spec fn reread_of(
    last: Option<Checked>,
    installed: Option<String>,
    newer: bool,
) -> Option<Checked> {
    match last {
        Some(checked) => Some(Checked { installed, newer, ..checked }),
        None => None,
    }
}

/// Whether this starts an install: at launch where the settings say to download
/// and an update is waiting, and on a press where one is waiting for a build
/// that can be replaced. Neither does while one is under way.
pub open spec fn starts(before: Knowledge, what: Happening) -> bool {
    !before.installing && (match what {
        Happening::Launched { checked, plan } => checked.available() && plan is CheckAndDownload,
        Happening::Pressed { origin } => waiting(before.last) && !refused(origin),
        _ => false,
    })
}

/// A build from this origin is not one an update would replace.
pub open spec fn refused(origin: Option<Origin>) -> bool {
    origin is Some && (origin->0).reason() is Some
}

/// What is known afterwards.
pub open spec fn after(before: Knowledge, what: Happening) -> Knowledge {
    Knowledge {
        last: match what {
            Happening::Launched { checked, .. } => Some(checked),
            Happening::Landed { checked } => Some(checked),
            Happening::Pressed { .. } => before.last,
            Happening::Ended { installed, version, newer } => if installed {
                reread_of(before.last, version, newer)
            } else {
                before.last
            },
        },
        installing: !(what is Ended) && (before.installing || starts(before, what)),
    }
}

/// What is printed where the settings hold a download back.
pub open spec fn held_line(why: Option<Seq<char>>) -> Seq<char> {
    "[update] a newer Roblox build has been published; not downloading: "@ + (match why {
        Some(why) => why,
        None => "Auto update is Ask"@,
    })
}

/// What is printed where a background update failed.
pub open spec fn background_failed_line(why: Seq<char>) -> Seq<char> {
    "[update] a background update did not install: "@ + why
}

fn background_failed(why: &str) -> (line: String)
    ensures
        line@ == background_failed_line(why@),
{
    let mut line = "[update] a background update did not install: ".to_owned();
    line.append(why);
    line
}

impl Session {
    /// What is known, and whether an install is under way.
    pub open spec fn knows(self) -> Knowledge {
        Knowledge { last: self.last, installing: self.installing }
    }

    pub fn new(automatic: Automatic) -> (session: Session)
        ensures
            session.automatic == automatic,
            session.last is None,
            !session.installing,
    {
        Session { automatic, last: None, installing: false }
    }

    /// Whether a check is made at launch. Manual makes no request by itself.
    pub fn checks_at_launch(&self) -> (checks: bool)
        ensures
            checks == (self.automatic != Automatic::Manual),
    {
        self.automatic != Automatic::Manual
    }

    /// What follows the check at launch, given what the settings make of it.
    /// Nothing follows unless an update is waiting; a download is started only
    /// where the settings say so and none is under way; and the window is
    /// opened where somebody is to be asked.
    pub fn launch_checked(&mut self, checked: Checked, plan: Plan) -> (step: LaunchStep)
        ensures
            final(self).knows() == after(
                old(self).knows(),
                (Happening::Launched { checked, plan }),
            ),
            final(self).automatic == old(self).automatic,
            step.download == starts(old(self).knows(), (Happening::Launched { checked, plan })),
            step.present == (checked.available() && old(self).automatic == Automatic::Ask),
            crate::secrets::option_view(step.line) == (if !checked.available() {
                None
            } else {
                match plan {
                    Plan::CheckAndDownload => if old(self).installing {
                        Some(background_failed_line(ALREADY_INSTALLING@))
                    } else {
                        None
                    },
                    Plan::CheckAndAsk { why } => Some(
                        held_line(crate::secrets::option_view(why)),
                    ),
                    Plan::DoNotCheck => None,
                }
            }),
    {
        let available = checked.update_available();
        self.last = Some(checked);
        if !available {
            return LaunchStep { download: false, line: None, present: false };
        }
        let present = self.automatic == Automatic::Ask;
        match plan {
            Plan::CheckAndDownload => if self.installing {
                LaunchStep {
                    download: false,
                    line: Some(background_failed(ALREADY_INSTALLING)),
                    present,
                }
            } else {
                self.installing = true;
                LaunchStep { download: true, line: None, present }
            },
            Plan::CheckAndAsk { why } => {
                let mut line =
                    "[update] a newer Roblox build has been published; not downloading: ".to_owned();
                match why {
                    Some(why) => {
                        line.append(why.as_str());
                    },
                    None => {
                        line.append("Auto update is Ask");
                    },
                }
                LaunchStep { download: false, line: Some(line), present }
            },
            Plan::DoNotCheck => LaunchStep { download: false, line: None, present },
        }
    }

    /// Take the version that is installed now, where a check has been made.
    fn reread(&mut self, installed: Option<String>, newer: bool)
        ensures
            final(self).automatic == old(self).automatic,
            final(self).installing == old(self).installing,
            final(self).last == reread_of(old(self).last, installed, newer),
    {
        match self.last.take() {
            Some(mut checked) => {
                checked.reread_installed(installed, newer);
                self.last = Some(checked);
            },
            None => {},
        }
    }

    /// What is printed once a background download ended. Where it installed,
    /// the version on record is read again, so that the badge goes out.
    pub fn background_finished(
        &mut self,
        outcome: Result<String, String>,
        installed: Option<String>,
        newer: bool,
    ) -> (line: String)
        ensures
            final(self).knows() == after(
                old(self).knows(),
                (Happening::Ended { installed: outcome is Ok, version: installed, newer }),
            ),
            final(self).automatic == old(self).automatic,
            line@ == (match outcome {
                Ok(version) => "[update] installed Roblox "@ + version@ + " in the background"@,
                Err(why) => background_failed_line(why@),
            }),
    {
        self.installing = false;
        match outcome {
            Ok(version) => {
                self.reread(installed, newer);
                let mut line = "[update] installed Roblox ".to_owned();
                line.append(version.as_str());
                line.append(" in the background");
                line
            },
            Err(why) => background_failed(why.as_str()),
        }
    }

    /// What opening the window does, given the mode that is chosen now. Opening
    /// it is a check in every mode where nothing is known yet, and one window
    /// is enough: one that is open is brought forward as it is.
    pub fn open(&self, is_open: bool, automatic: Automatic) -> (opening: Opening)
        ensures
            is_open ==> opening is Raise,
            !is_open ==> opening == (Opening::New {
                window: Window { automatic },
                check: self.last is None,
            }),
    {
        if is_open {
            Opening::Raise
        } else {
            Opening::New { window: Window { automatic }, check: self.last.is_none() }
        }
    }

    /// What a press of the window's button does, given where the build that is
    /// used came from. A build that would not be used is refused before a byte
    /// moves, and so is a second install.
    pub fn press(&mut self, origin: Option<Origin>) -> (press: Press)
        ensures
            final(self).knows() == after(old(self).knows(), (Happening::Pressed { origin })),
            final(self).automatic == old(self).automatic,
            press is Download <==> starts(old(self).knows(), (Happening::Pressed { origin })),
            if !waiting(old(self).last) {
                press is Check
            } else if refused(origin) {
                press matches Press::Refuse(why) && why@ == (origin->0).reason()->0
            } else if old(self).installing {
                press matches Press::Refuse(why) && why@ == ALREADY_INSTALLING@
            } else {
                press is Download
            },
    {
        let available = match &self.last {
            Some(checked) => checked.update_available(),
            None => false,
        };
        if !available {
            return Press::Check;
        }
        if let Some(origin) = origin {
            if let Some(why) = origin.why_not_updatable() {
                return Press::Refuse(why.to_owned());
            }
        }
        if self.installing {
            return Press::Refuse(ALREADY_INSTALLING.to_owned());
        }
        self.installing = true;
        Press::Download
    }

    /// How a download from the window ended. `cancelled` is what a download
    /// that was stopped fails with.
    pub fn download_finished(
        &mut self,
        outcome: Result<String, String>,
        cancelled: &str,
        installed: Option<String>,
        newer: bool,
    ) -> (finished: Finished)
        ensures
            final(self).knows() == after(
                old(self).knows(),
                (Happening::Ended { installed: outcome is Ok, version: installed, newer }),
            ),
            final(self).automatic == old(self).automatic,
            match outcome {
                Ok(version) => finished == Finished::Installed(version),
                Err(why) => if why@ == cancelled@ {
                    finished is Stopped
                } else {
                    finished matches Finished::Failed(said) && said@ == why@ + "\n\n"@ + STORES@
                },
            },
    {
        self.installing = false;
        match outcome {
            Ok(version) => {
                self.reread(installed, newer);
                Finished::Installed(version)
            },
            Err(why) => if same_text(why.as_str(), cancelled) {
                Finished::Stopped
            } else {
                let mut said = why;
                said.append("\n\n");
                said.append(STORES);
                Finished::Failed(said)
            },
        }
    }

    /// What the line under the changelog says once a check from the window
    /// landed, and whether it is an error: the installed build, what the check
    /// found, and what is owed about the changes.
    pub fn check_landed(&mut self, checked: Checked) -> (line: (String, bool))
        ensures
            final(self).knows() == after(old(self).knows(), (Happening::Landed { checked })),
            final(self).automatic == old(self).automatic,
            (line.0@, line.1) == landed(checked),
    {
        let (found, is_error) = check_outcome(&checked);
        let mut said = version_line(&checked.installed);
        if !found.as_str().is_empty() {
            said.append("\n");
            said.append(found.as_str());
        }
        if let Some(why) = &checked.changes_why {
            said.append("\n");
            said.append(why.as_str());
        }
        self.last = Some(checked);
        (said, is_error)
    }

    /// What a window shows, by the mode it was opened in. `mode` is what that
    /// mode is called, and `provisional` the installed version where no check
    /// has landed.
    pub fn paint(&self, window: Window, mode: &str, provisional: Option<String>) -> (paint: Paint)
        ensures
            super::flagged_view(paint.banner) == super::banner(self.last, window.automatic),
            paint.status@ == super::version_said(
                crate::secrets::option_view(
                    match self.last {
                        Some(checked) => checked.installed,
                        None => provisional,
                    },
                ),
            ),
            paint.tooltip@ == super::status(self.last, mode@).1 + "\n\n"@ + INSTALLED_DESCRIPTION@,
            paint.label@ == (if waiting(self.last) {
                super::DOWNLOAD@
            } else {
                super::CHECK@
            }),
            paint.suggested == waiting(self.last),
            (paint.icon@, paint.icon_tooltip@) == (
                super::dress(self.last, window.automatic).0,
                super::dress(self.last, window.automatic).1,
            ),
            match self.last {
                Some(checked) => (paint.title@, paint.body@) == super::release_said(
                    checked.release,
                    checked.changes,
                ) && paint.markup && (match checked.release {
                    Ok(published) => paint.link matches Link::Show(url) && url@
                        == published.web_url@,
                    Err(_) => paint.link is Keep,
                }),
                None => paint.title@ == "Fetching\u{2026}"@ && paint.body@ == NO_NOTES_YET@
                    && !paint.markup && paint.link is Hide,
            },
    {
        let (_, subtitle) = status_lines(&self.last, mode);
        let mut tooltip = subtitle;
        tooltip.append("\n\n");
        tooltip.append(INSTALLED_DESCRIPTION);
        let (icon, icon_tooltip, attention) = dressing(&self.last, window.automatic);
        let banner = banner_text(&self.last, window.automatic);
        let label = action_label(&self.last);
        match &self.last {
            Some(checked) => {
                let (title, body) = release_lines_full(&checked.release, &checked.changes);
                let link = match &checked.release {
                    Ok(published) => Link::Show(published.web_url.clone()),
                    Err(_) => Link::Keep,
                };
                Paint {
                    banner,
                    status: version_line(&checked.installed),
                    tooltip,
                    label,
                    suggested: attention,
                    title,
                    body,
                    markup: true,
                    link,
                    icon,
                    icon_tooltip,
                }
            },
            None => Paint {
                banner,
                status: version_line(&provisional),
                tooltip,
                label,
                suggested: attention,
                title: "Fetching\u{2026}".to_owned(),
                body: NO_NOTES_YET.to_owned(),
                markup: false,
                link: Link::Hide,
                icon,
                icon_tooltip,
            },
        }
    }
}

/// What the line under the changelog says once a check landed.
pub open spec fn landed(checked: Checked) -> (Seq<char>, bool) {
    let (found, is_error) = super::outcome(checked);
    let installed = super::version_said(crate::secrets::option_view(checked.installed));
    let with_found = if found.len() > 0 {
        installed + "\n"@ + found
    } else {
        installed
    };
    (
        match checked.changes_why {
            Some(why) => with_found + "\n"@ + why@,
            None => with_found,
        },
        is_error,
    )
}

/// What is known after all of this happened, one after the other.
pub open spec fn after_all(before: Knowledge, history: Seq<Happening>) -> Knowledge
    decreases history.len(),
{
    if history.len() == 0 {
        before
    } else {
        after(after_all(before, history.drop_last()), history.last())
    }
}

/// A download ends only where one is under way.
pub open spec fn ends_follow_starts(before: Knowledge, history: Seq<Happening>) -> bool
    decreases history.len(),
{
    history.len() > 0 ==> ends_follow_starts(before, history.drop_last()) && (
    history.last() is Ended ==> after_all(before, history.drop_last()).installing)
}

/// How many of the installs that were started have not ended.
pub open spec fn under_way(before: Knowledge, history: Seq<Happening>) -> int
    decreases history.len(),
{
    if history.len() == 0 {
        0
    } else {
        let known = after_all(before, history.drop_last());
        under_way(before, history.drop_last()) + (if starts(known, history.last()) {
            1int
        } else if history.last() is Ended {
            -1
        } else {
            0
        })
    }
}

/// One process installs one build at a time, whichever control starts it: in
/// whatever order checks land, buttons are pressed and downloads end, never
/// more than one install is under way, and the flag says whether one is.
pub proof fn law_one_install_at_a_time(before: Knowledge, history: Seq<Happening>)
    requires
        !before.installing,
        ends_follow_starts(before, history),
    ensures
        under_way(before, history) == (if after_all(before, history).installing {
            1int
        } else {
            0
        }),
    decreases history.len(),
{
    if history.len() > 0 {
        law_one_install_at_a_time(before, history.drop_last());
    }
}

/// An update that was installed stops being one: where nothing that can be had
/// is newer than what is on record, the button checks again and asks for no
/// attention.
pub proof fn law_an_installed_update_stops_being_one(
    before: Knowledge,
    version: Option<String>,
    automatic: Automatic,
)
    ensures
        !waiting(
            after(
                before,
                (Happening::Ended { installed: true, version, newer: false }),
            ).last,
        ),
        before.last is Some ==> super::dress(
            after(
                before,
                (Happening::Ended { installed: true, version, newer: false }),
            ).last,
            automatic,
        ) == (super::PACKAGE_ICON@, "Roblox build"@, false),
{
}

} // verus!
