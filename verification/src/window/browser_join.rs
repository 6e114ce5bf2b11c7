//! A link that a browser opened, held until the account it was opened with is
//! known or somebody launches.
//!
//! Finding the account takes a while, and much can happen meanwhile: the link is
//! discarded, a newer one arrives, somebody launches by hand. Each gives what is
//! held a new identity, so that a lookup that comes back late finds that it was
//! made for something else, even where the link is the same.

use vstd::prelude::*;
use vstd::string::*;

use crate::browser_account::profile::ProfileMatch;
use crate::browser_account::ticket::{self, LaunchTicket};
use crate::deep_link::{self, summarise};
use crate::secrets::Store;
use crate::text::same_text;

verus! {

broadcast use vstd::string::group_string_axioms;

/// What the banner says while the account is looked up.
pub const CHECKING_ACCOUNT: &'static str = "Checking browser account\u{2026}";

/// What the banner says where the profile was found and its launch was not
/// taken.
pub const PRESS_TO_JOIN: &'static str = "Roblox link waiting \u{2014} press Roblox to join";

/// What the banner says where a profile has to be chosen.
pub const CHOOSE_A_PROFILE: &'static str =
    "Roblox link waiting \u{2014} choose a profile and press Roblox";

/// Printed where the profile was found.
pub const MATCHED_LINE: &'static str = "  shell: browser account matched; launching saved profile";

/// Printed where a profile has to be chosen.
pub const CHOICE_LINE: &'static str = "  shell: browser account routing needs a profile choice";

/// The setting that leaves browser links alone, and its value.
pub const ROUTING_VAR: &'static str = "CORDIAL_BROWSER_ACCOUNT_ROUTING";

pub const ROUTING_OFF: &'static str = "0";

/// A link that waits, under an identity of its own.
pub struct Waiting {
    pub url: String,
    pub identity: u64,
}

/// What the banner shows.
pub struct Banner {
    pub title: String,
    pub revealed: bool,
}

/// The link that waits, the profile that was matched to it, and the banner that
/// says so.
pub struct PendingJoin {
    pub waiting: Option<Waiting>,
    pub profile_match: Option<ProfileMatch>,
    pub banner: Banner,
    /// The next identity. Every one given so far is below it.
    pub next: u64,
}

/// What the banner says about a waiting link, given its summary as markup.
pub open spec fn banner_said(shown: Seq<char>) -> Seq<char> {
    "Roblox link waiting: "@ + shown + " \u{2014} press Roblox to join"@
}

/// A title says this link waits: it holds what `escape` made of the link's
/// summary, and nothing else of the link.
pub open spec fn announces<E: FnOnce(String) -> String>(
    title: Seq<char>,
    url: Seq<char>,
    escape: E,
) -> bool {
    exists|summary: String, shown: String|
        #[trigger] call_ensures(escape, (summary,), shown) && summary@ == deep_link::summary_of(url)
            && title == banner_said(shown@)
}

/// What the banner says about a waiting link, given its summary as markup.
pub fn banner_text(shown: &str) -> (line: String)
    ensures
        line@ == banner_said(shown@),
{
    let mut line = "Roblox link waiting: ".to_owned();
    line.append(shown);
    line.append(" \u{2014} press Roblox to join");
    line
}

/// What the banner says about a waiting link. `escape` is handed the link's
/// summary and gives it back with what is markup in it escaped: the banner's
/// title is markup, and the text came from a browser.
pub fn banner_line<E: FnOnce(String) -> String>(url: &str, escape: E) -> (line: String)
    requires
        forall|summary: String|
            summary@ == deep_link::summary_of(url@) ==> #[trigger] call_requires(escape, (summary,)),
    ensures
        announces(line@, url@, escape),
{
    let summary = summarise(url);
    let shown = escape(summary);
    assert(call_ensures(escape, (summary,), shown));
    banner_text(shown.as_str())
}

impl PendingJoin {
    /// The link that waits.
    pub open spec fn link(self) -> Option<Seq<char>> {
        match self.waiting {
            Some(waiting) => Some(waiting.url@),
            None => None,
        }
    }

    /// What waits, and the next identity.
    pub open spec fn held(self) -> Held {
        Held { waiting: self.waiting, next: self.next as int }
    }

    /// Every identity that was given is below the next.
    pub open spec fn wf(self) -> bool {
        self.waiting matches Some(waiting) ==> waiting.identity < self.next
    }

    /// What waits is what a lookup under this identity was made for.
    pub open spec fn awaits(self, identity: u64) -> bool {
        self.waiting matches Some(waiting) && waiting.identity == identity
    }

    pub fn new() -> (join: PendingJoin)
        ensures
            join.wf(),
            join.waiting is None,
            join.profile_match is None,
            !join.banner.revealed,
            join.banner.title@ == Seq::<char>::empty(),
            join.next == 0,
    {
        PendingJoin {
            waiting: None,
            profile_match: None,
            banner: Banner { title: String::new(), revealed: false },
            next: 0,
        }
    }

    /// Whether another identity can be given.
    pub fn can_queue(&self) -> (can: bool)
        ensures
            can == (self.next < u64::MAX),
    {
        self.next < u64::MAX
    }

    /// Show a link as waiting. It replaces the one that waited: the second click
    /// is the one somebody is looking at.
    pub fn queue<E: FnOnce(String) -> String>(&mut self, url: String, escape: E)
        requires
            old(self).wf(),
            old(self).next < u64::MAX,
            forall|summary: String|
                summary@ == deep_link::summary_of(url@) ==> #[trigger] call_requires(
                    escape,
                    (summary,),
                ),
        ensures
            final(self).wf(),
            final(self).held() == after(old(self).held(), Change::Arrives(url)),
            final(self).profile_match is None,
            final(self).banner.revealed,
            announces(final(self).banner.title@, url@, escape),
    {
        self.banner = Banner { title: banner_line(url.as_str(), escape), revealed: true };
        self.waiting = Some(Waiting { url, identity: self.next });
        self.profile_match = None;
        self.next = self.next + 1;
    }

    /// What the next launch carries. It is not consumed: a launch that fails
    /// leaves the link where it was.
    pub fn peek(&self) -> (url: Option<String>)
        ensures
            crate::secrets::option_view(url) == self.link(),
    {
        match &self.waiting {
            Some(waiting) => Some(waiting.url.clone()),
            None => None,
        }
    }

    /// Let the link go: it was launched, or discarded.
    pub fn clear(&mut self)
        requires
            old(self).wf(),
        ensures
            final(self).wf(),
            final(self).held() == after(old(self).held(), Change::Goes),
            final(self).profile_match is None,
            !final(self).banner.revealed,
            final(self).banner.title == old(self).banner.title,
    {
        self.waiting = None;
        self.profile_match = None;
        self.banner.revealed = false;
    }

    /// A launch by hand: what waits keeps its link and gets a new identity, so
    /// that a lookup under way finds it gone, and a match for another profile
    /// than the one that is launched is dropped.
    pub fn invalidate_lookup(&mut self, selected: &str)
        requires
            old(self).wf(),
            old(self).next < u64::MAX,
        ensures
            final(self).wf(),
            final(self).held() == after(old(self).held(), Change::Launched),
            final(self).link() == old(self).link(),
            final(self).profile_match == (match old(self).profile_match {
                Some(matched) => if matched.name@ == selected@ {
                    Some(matched)
                } else {
                    None
                },
                None => None,
            }),
            final(self).banner == old(self).banner,
    {
        if let Some(waiting) = self.waiting.take() {
            self.waiting = Some(Waiting { url: waiting.url, identity: self.next });
            self.next = self.next + 1;
        }
        if let Some(matched) = self.profile_match.take() {
            if same_text(matched.name(), selected) {
                self.profile_match = Some(matched);
            }
        }
    }

    /// Keep the match that the launch is to be held to.
    pub fn set_profile_match(&mut self, matched: ProfileMatch)
        requires
            old(self).wf(),
        ensures
            final(self).wf(),
            final(self).profile_match == Some(matched),
            final(self).waiting == old(self).waiting,
            final(self).banner == old(self).banner,
            final(self).next == old(self).next,
    {
        self.profile_match = Some(matched);
    }

    /// The store that a launch of the profile `name` is held to, where a match
    /// authorises it, given what the profile's identity and cookies hold now. A
    /// match that no longer holds refuses the launch, and without a match
    /// nothing is held to.
    pub fn matched_store_if_current(
        &self,
        name: &str,
        identity: Option<Vec<u8>>,
        cookies: Option<Vec<u8>>,
    ) -> (store: Result<Option<Store>, ()>)
        ensures
            store == (match self.profile_match {
                Some(matched) => if matched.name@ == name@ && crate::secrets::bytes_view(identity)
                    == Some(matched.identity@) && crate::secrets::bytes_view(cookies) == Some(
                    matched.cookies@,
                ) {
                    Ok(Some(matched.store))
                } else {
                    Err(())
                },
                None => Ok(None),
            }),
    {
        match &self.profile_match {
            Some(matched) => if matched.still_matches(name, identity, cookies) {
                Ok(Some(matched.store()))
            } else {
                Err(())
            },
            None => Ok(None),
        }
    }

    pub fn clear_profile_match(&mut self)
        requires
            old(self).wf(),
        ensures
            final(self).wf(),
            final(self).profile_match is None,
            final(self).waiting == old(self).waiting,
            final(self).banner == old(self).banner,
            final(self).next == old(self).next,
    {
        self.profile_match = None;
    }
}

/// A profile that a lookup found, and what it was found by.
pub struct ResolvedProfile {
    pub name: String,
    pub evidence: Option<ProfileMatch>,
}

impl ResolvedProfile {
    /// The profile of a match, and the match itself.
    pub fn of(matched: ProfileMatch) -> (resolved: ResolvedProfile)
        ensures
            resolved.name@ == matched.name@,
            resolved.evidence == Some(matched),
    {
        ResolvedProfile { name: matched.name().to_owned(), evidence: Some(matched) }
    }
}

/// What follows a link's arrival.
pub enum Arrival {
    /// The window is shown, with the link waiting in it.
    Present,
    /// The account is looked up, under this identity and with this profile
    /// chosen. The window stays as it is.
    Lookup { ticket: LaunchTicket, identity: u64, chosen: String },
}

/// What follows a lookup.
pub enum Resolution {
    /// Nothing: it was made for something that no longer waits.
    Stale,
    /// The profile is the one that was found. That is written down, the window
    /// is told and the launch is started.
    Launch,
    /// The window is shown, for a profile to be chosen.
    Choose,
}

/// The launcher as far as links are concerned: the one that waits, and the
/// profile that is selected.
pub struct Shell {
    pub join: PendingJoin,
    pub profile: String,
}

/// Whether links are routed by account: unless the setting says not to.
pub open spec fn routes(setting: Option<Seq<char>>) -> bool {
    setting != Some(ROUTING_OFF@)
}

/// The link that waits once this one arrived: without its credential where the
/// account is looked up, and as it came otherwise.
pub open spec fn waits_as(url: Seq<char>, setting: Option<Seq<char>>) -> Seq<char> {
    match ticket::parsed(url) {
        Some((_, join_url)) => if routes(setting) {
            join_url
        } else {
            url
        },
        None => url,
    }
}

/// A text that may be absent, as a value.
pub open spec fn setting_view(setting: Option<&str>) -> Option<Seq<char>> {
    match setting {
        Some(setting) => Some(setting@),
        None => None,
    }
}

impl Shell {
    /// Take a link. One that carries a credential waits without it while the
    /// account is looked up, so that what is left can never be used with a
    /// credential that may be spent; another waits as it came. `escape` makes
    /// markup of the summary of the link that waits, and `setting` is what the
    /// routing setting says.
    pub fn queue_join<E: FnOnce(String) -> String>(
        &mut self,
        url: String,
        escape: E,
        setting: Option<&str>,
    ) -> (arrival: Arrival)
        requires
            old(self).join.wf(),
            old(self).join.next < u64::MAX,
            forall|summary: String|
                summary@ == deep_link::summary_of(waits_as(url@, setting_view(setting)))
                    ==> #[trigger] call_requires(escape, (summary,)),
        ensures
            final(self).join.wf(),
            final(self).profile == old(self).profile,
            final(self).join.profile_match is None,
            final(self).join.banner.revealed,
            final(self).join.next == old(self).join.next + 1,
            final(self).join.awaits(old(self).join.next),
            match arrival {
                Arrival::Present => {
                    &&& !routes(setting_view(setting)) || ticket::parsed(url@) is None
                    &&& final(self).join.link() == Some(url@)
                    &&& announces(final(self).join.banner.title@, url@, escape)
                },
                Arrival::Lookup { ticket, identity, chosen } => {
                    &&& routes(setting_view(setting))
                    &&& ticket::parsed(url@) == Some((ticket.secret@, ticket.join_url@))
                    &&& identity == old(self).join.next
                    &&& chosen@ == old(self).profile@
                    &&& final(self).join.link() == Some(ticket.join_url@)
                    &&& final(self).join.banner.title@ == CHECKING_ACCOUNT@
                },
            },
    {
        let enabled = match setting {
            Some(setting) => !same_text(setting, ROUTING_OFF),
            None => true,
        };
        let parsed = if enabled {
            LaunchTicket::parse(url.as_str())
        } else {
            None
        };
        match parsed {
            None => {
                self.join.queue(url, escape);
                Arrival::Present
            },
            Some(ticket) => {
                let identity = self.join.next;
                self.join.queue(ticket.join_url.clone(), escape);
                self.join.banner.title = CHECKING_ACCOUNT.to_owned();
                Arrival::Lookup { ticket, identity, chosen: self.profile.clone() }
            },
        }
    }

    /// Take what a lookup found. It acts only where what waits is what it was
    /// made for, and selects only where nobody selected another profile
    /// meanwhile.
    pub fn resolved(
        &mut self,
        identity: u64,
        chosen: &str,
        found: Option<ResolvedProfile>,
    ) -> (resolution: Resolution)
        requires
            old(self).join.wf(),
        ensures
            final(self).join.wf(),
            final(self).join.waiting == old(self).join.waiting,
            final(self).join.next == old(self).join.next,
            final(self).join.banner.revealed == old(self).join.banner.revealed,
            resolution is Stale <==> !old(self).join.awaits(identity),
            resolution is Launch <==> (found is Some && chosen@ == old(self).profile@
                && old(self).join.awaits(identity)),
            match resolution {
                Resolution::Stale => final(self).profile == old(self).profile && final(self).join.profile_match == old(self).join.profile_match && final(self).join.banner
                    == old(self).join.banner,
                Resolution::Launch => final(self).profile == (found->0).name && final(self).join.profile_match == (match (found->0).evidence {
                    Some(evidence) => Some(evidence),
                    None => old(self).join.profile_match,
                }) && final(self).join.banner == old(self).join.banner,
                Resolution::Choose => final(self).profile == old(self).profile && final(self).join.profile_match == old(self).join.profile_match && final(self).join.banner.title@ == CHOOSE_A_PROFILE@,
            },
    {
        let active = match &self.join.waiting {
            Some(waiting) => waiting.identity == identity,
            None => false,
        };
        if !active {
            return Resolution::Stale;
        }
        if let Some(found) = found {
            if same_text(self.profile.as_str(), chosen) {
                self.profile = found.name;
                if let Some(evidence) = found.evidence {
                    self.join.set_profile_match(evidence);
                }
                return Resolution::Launch;
            }
        }
        self.join.banner.title = CHOOSE_A_PROFILE.to_owned();
        Resolution::Choose
    }

    /// The launch that a lookup started was not taken: the link waits on, and
    /// the window is shown.
    pub fn launch_not_taken(&mut self)
        requires
            old(self).join.wf(),
        ensures
            final(self).join.wf(),
            final(self).profile == old(self).profile,
            final(self).join.waiting == old(self).join.waiting,
            final(self).join.profile_match == old(self).join.profile_match,
            final(self).join.next == old(self).join.next,
            final(self).join.banner.revealed == old(self).join.banner.revealed,
            final(self).join.banner.title@ == PRESS_TO_JOIN@,
    {
        self.join.banner.title = PRESS_TO_JOIN.to_owned();
    }
}

/// What can happen to a link that waits.
pub enum Change {
    /// A link arrives.
    Arrives(String),
    /// What waits is launched or discarded.
    Goes,
    /// Somebody launches by hand.
    Launched,
}

/// What waits, and the next identity.
pub struct Held {
    pub waiting: Option<Waiting>,
    pub next: int,
}

/// What is held afterwards.
pub open spec fn after(held: Held, change: Change) -> Held {
    match change {
        Change::Arrives(url) => Held {
            waiting: Some(Waiting { url, identity: held.next as u64 }),
            next: held.next + 1,
        },
        Change::Goes => Held { waiting: None, next: held.next },
        Change::Launched => match held.waiting {
            Some(waiting) => Held {
                waiting: Some(Waiting { url: waiting.url, identity: held.next as u64 }),
                next: held.next + 1,
            },
            None => held,
        },
    }
}

/// What is held after all of this, one after the other.
pub open spec fn after_all(held: Held, changes: Seq<Change>) -> Held
    decreases changes.len(),
{
    if changes.len() == 0 {
        held
    } else {
        after(after_all(held, changes.drop_last()), changes.last())
    }
}

/// What waits is what a lookup under this identity was made for.
pub open spec fn awaited(held: Held, identity: int) -> bool {
    held.waiting matches Some(waiting) && waiting.identity == identity
}

proof fn lemma_next_grows(held: Held, changes: Seq<Change>)
    ensures
        held.next <= after_all(held, changes).next,
    decreases changes.len(),
{
    if changes.len() > 0 {
        lemma_next_grows(held, changes.drop_last());
    }
}

/// A lookup acts for the link it was made for or not at all: once that link was
/// discarded or launched, or a newer one arrived, be it the same, nothing that
/// happens later lets the old lookup act. That holds for as many links as there
/// are identities.
pub proof fn law_a_superseded_lookup_never_acts(held: Held, identity: int, changes: Seq<Change>)
    requires
        0 <= identity < held.next,
        !awaited(held, identity),
        after_all(held, changes).next <= u64::MAX,
    ensures
        !awaited(after_all(held, changes), identity),
    decreases changes.len(),
{
    if changes.len() > 0 {
        let before = after_all(held, changes.drop_last());
        lemma_next_grows(held, changes.drop_last());
        assert(before.next <= after_all(held, changes).next);
        law_a_superseded_lookup_never_acts(held, identity, changes.drop_last());
    }
}

/// Each thing that can happen to a waiting link supersedes the lookup that was
/// made for it.
pub proof fn law_every_change_supersedes_the_lookup(held: Held, identity: int, change: Change)
    requires
        0 <= identity < held.next < u64::MAX,
    ensures
        !awaited(after(held, change), identity),
{
}

/// An account is looked up for a link unless that is switched off, which only a
/// zero does.
pub proof fn law_only_a_zero_switches_routing_off(setting: Seq<char>)
    ensures
        routes(None),
        !routes(Some("0"@)),
        setting != "0"@ ==> routes(Some(setting)),
        ROUTING_VAR@ == "CORDIAL_BROWSER_ACCOUNT_ROUTING"@,
{
}

/// What waits is the link as it came, but for a credential that was taken out of
/// it for a lookup.
pub proof fn law_what_waits_holds_no_credential_that_was_taken(
    url: Seq<char>,
    setting: Option<Seq<char>>,
)
    ensures
        ticket::parsed(url) is None ==> waits_as(url, setting) == url,
        setting == Some("0"@) ==> waits_as(url, setting) == url,
        setting != Some("0"@) && ticket::parsed(url) is Some ==> waits_as(url, setting) == (
        ticket::parsed(url)->0).1,
{
}

/// What is said of a link that waits.
pub proof fn law_a_waiting_link_is_announced(shown: Seq<char>)
    ensures
        banner_said(shown) == "Roblox link waiting: "@ + shown
            + " \u{2014} press Roblox to join"@,
        CHECKING_ACCOUNT@ == "Checking browser account\u{2026}"@,
        PRESS_TO_JOIN@ == "Roblox link waiting \u{2014} press Roblox to join"@,
{
}

/// A setting is taken as it stands, an empty one among them, and what waits under
/// an identity waits under that one alone.
pub proof fn law_a_setting_is_taken_as_it_stands(
    setting: &str,
    join: PendingJoin,
    waiting: Waiting,
    identity: u64,
)
    ensures
        setting_view(Some(setting)) == Some(setting@),
        setting_view(None) is None,
        join.waiting == Some(waiting) ==> join.link() == Some(waiting.url@),
        join.waiting == Some(waiting) ==> (join.awaits(identity) <==> waiting.identity == identity),
        join.waiting is None ==> join.link() is None && !join.awaits(identity),
{
}

/// A banner shows the summary of the link that waits, as it was escaped, and
/// nothing else of the link.
pub proof fn law_a_banner_shows_the_summary_alone<E: FnOnce(String) -> String>(
    title: Seq<char>,
    scheme: Seq<char>,
    payload: Seq<char>,
    escape: E,
)
    requires
        !scheme.contains(':'),
        announces(title, scheme + seq![':'] + payload, escape),
    ensures
        exists|summary: String, shown: String|
            #[trigger] call_ensures(escape, (summary,), shown) && summary@ == scheme + seq![':']
                && title == "Roblox link waiting: "@ + shown@
                + " \u{2014} press Roblox to join"@,
{
    deep_link::law_summary_hides_the_payload(scheme, payload, payload);
    let (summary, shown) = choose|summary: String, shown: String|
        #[trigger] call_ensures(escape, (summary,), shown) && summary@ == deep_link::summary_of(
            scheme + seq![':'] + payload,
        ) && title == banner_said(shown@);
    assert(call_ensures(escape, (summary,), shown));
}

/// A link that arrives waits under an identity of its own, one that goes leaves
/// nothing, and a launch by hand gives what waits another identity and nothing
/// else.
pub proof fn law_what_waits_follows_what_happens(held: Held, url: String, waiting: Waiting)
    requires
        0 <= held.next < u64::MAX,
    ensures
        after(held, Change::Arrives(url)).waiting == Some(
            Waiting { url, identity: held.next as u64 },
        ),
        after(held, Change::Arrives(url)).next == held.next + 1,
        after(held, Change::Goes).waiting is None,
        after(held, Change::Goes).next == held.next,
        held.waiting == Some(waiting) ==> after(held, Change::Launched).waiting == Some(
            Waiting { url: waiting.url, identity: held.next as u64 },
        ) && after(held, Change::Launched).next == held.next + 1,
        held.waiting is None ==> after(held, Change::Launched) == held,
{
}

} // verus!
