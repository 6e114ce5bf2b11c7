//! Which saved profile a browser's account belongs to.
//!
//! A profile matches only where its saved identity names the account, its saved
//! session is answered for as that account, and neither changed while that was
//! asked. An unreadable profile establishes nothing, and two profiles of one
//! account leave the choice to the user.

pub mod laws;

use vstd::prelude::*;
use vstd::string::*;
use vstd::utf8::*;

use super::transport::{AccountId, SessionCookie, SESSION_PREFIX};
use crate::choice;
use crate::profile::is_valid_name;
use crate::secrets::{Kind, SnapshotRequest, Store};
use crate::text::{
    self, chars_between, chars_of, find_from, lines_of, same_bytes, same_text, split_at_each,
    text_between, text_of_bytes, trim_between,
};

verus! {

broadcast use vstd::string::group_string_axioms;

/// How much of a saved identity is read, in bytes.
pub const MAX_IDENTITY_BYTES: usize = 16384;

/// How much of a saved cookie store is read, in bytes.
pub const MAX_COOKIE_BYTES: usize = 1048576;

/// The version of the saved identity that is understood.
pub const IDENTITY_SCHEMA: u64 = 1;

/// The name of the session cookie.
pub const SESSION_NAME: &'static str = ".ROBLOSECURITY";

/// A saved identity, as it was parsed.
#[derive(Clone, Copy)]
pub struct SavedIdentity {
    pub schema: u64,
    pub user_id: AccountId,
}

/// What is looked for: an account, in a store.
#[derive(Clone, Copy)]
pub struct ProfileQuery {
    pub account: AccountId,
    pub store: Store,
}

/// The exact saved values that established a match.
///
/// They are opaque bytes rather than parsed credentials: the launcher compares
/// them once it holds the profile, and never shows or logs them.
pub struct ProfileMatch {
    pub name: String,
    pub store: Store,
    pub identity: Vec<u8>,
    pub cookies: Vec<u8>,
}

/// The snapshot a match takes of a profile's identity.
pub fn identity_request<'a>(store: Store, profile_dir: &'a str) -> (request: SnapshotRequest<'a>)
    ensures
        request.store == store,
        request.profile_dir@ == profile_dir@,
        request.kind == Kind::Identity,
        request.max_bytes == MAX_IDENTITY_BYTES,
{
    SnapshotRequest { store, profile_dir, kind: Kind::Identity, max_bytes: MAX_IDENTITY_BYTES }
}

/// The snapshot a match takes of a profile's cookies.
pub fn cookies_request<'a>(store: Store, profile_dir: &'a str) -> (request: SnapshotRequest<'a>)
    ensures
        request.store == store,
        request.profile_dir@ == profile_dir@,
        request.kind == Kind::Cookies,
        request.max_bytes == MAX_COOKIE_BYTES,
{
    SnapshotRequest { store, profile_dir, kind: Kind::Cookies, max_bytes: MAX_COOKIE_BYTES }
}

/// Whether a snapshot is there and holds exactly those bytes.
fn holds_bytes(snapshot: &Option<Vec<u8>>, bytes: &Vec<u8>) -> (same: bool)
    ensures
        same == (crate::secrets::bytes_view(*snapshot) == Some(bytes@)),
{
    match snapshot {
        Some(now) => same_bytes(now.as_slice(), bytes.as_slice()),
        None => false,
    }
}

impl ProfileMatch {
    pub fn name(&self) -> (name: &str)
        ensures
            name@ == self.name@,
    {
        self.name.as_str()
    }

    pub fn store(&self) -> (store: Store)
        ensures
            store == self.store,
    {
        self.store
    }

    /// Whether the match still authorises a launch of the profile `name`, given
    /// what snapshots of its identity and cookies hold now.
    pub fn still_matches(
        &self,
        name: &str,
        identity: Option<Vec<u8>>,
        cookies: Option<Vec<u8>>,
    ) -> (still: bool)
        ensures
            still == (self.name@ == name@ && crate::secrets::bytes_view(identity) == Some(
                self.identity@,
            ) && crate::secrets::bytes_view(cookies) == Some(self.cookies@)),
    {
        same_text(self.name.as_str(), name) && holds_bytes(&identity, &self.identity)
            && holds_bytes(&cookies, &self.cookies)
    }
}

/// The name of a directory entry that can be a profile: a directory whose name
/// is text and a valid profile name.
pub fn candidate_name(is_dir: bool, name: Option<String>) -> (candidate: Option<String>)
    ensures
        match candidate {
            Some(candidate) => is_dir && name == Some(candidate) && crate::profile::valid_name(
                candidate@,
            ),
            None => !is_dir || name is None || !crate::profile::valid_name((name->0)@),
        },
{
    match name {
        Some(name) => if is_dir && is_valid_name(name.as_str()) {
            Some(name)
        } else {
            None
        },
        None => None,
    }
}

/// A saved identity names the account that is looked for.
pub open spec fn names_account(saved: Option<SavedIdentity>, account: AccountId) -> bool {
    match saved {
        Some(saved) => saved.schema == IDENTITY_SCHEMA && saved.user_id == account,
        None => false,
    }
}

/// A profile whose identity names the account, with the bytes that say so.
pub struct Named {
    pub name: String,
    pub identity: Vec<u8>,
}

/// What the identity of a candidate establishes. `saved` is what its bytes
/// parse to.
pub fn identity_read(
    query: &ProfileQuery,
    name: String,
    identity: Option<Vec<u8>>,
    saved: Option<SavedIdentity>,
) -> (named: Option<Named>)
    ensures
        match named {
            Some(named) => identity == Some(named.identity) && named.name == name
                && names_account(saved, query.account),
            None => identity is None || !names_account(saved, query.account),
        },
{
    match (identity, saved) {
        (Some(identity), Some(saved)) => if saved.schema == IDENTITY_SCHEMA && saved.user_id.is(
            query.account,
        ) {
            Some(Named { name, identity })
        } else {
            None
        },
        _ => None,
    }
}

/// A profile whose saved session is to be asked about.
pub struct Asked {
    pub name: String,
    pub identity: Vec<u8>,
    pub cookies: Vec<u8>,
}

/// What the cookies of a candidate establish: the session that is asked about.
pub fn cookies_read(named: Named, cookies: Option<Vec<u8>>) -> (asked: Option<(
    Asked,
    SessionCookie,
)>)
    ensures
        match asked {
            Some((asked, cookie)) => cookies == Some(asked.cookies) && asked.name == named.name
                && asked.identity == named.identity && session_in_store(asked.cookies@) == Some(
                cookie@,
            ),
            None => cookies is None || session_in_store((cookies->0)@) is None,
        },
{
    match cookies {
        Some(cookies) => match session_from_store(cookies.as_slice()) {
            Some(cookie) => Some(
                (Asked { name: named.name, identity: named.identity, cookies }, cookie),
            ),
            None => None,
        },
        None => None,
    }
}

/// What an answer about the session establishes, given what the identity and
/// the cookies hold once it came: a match only where the session belongs to the
/// account and neither has changed.
pub fn answered(
    query: &ProfileQuery,
    asked: Asked,
    account: Option<AccountId>,
    identity: Option<Vec<u8>>,
    cookies: Option<Vec<u8>>,
) -> (found: Option<ProfileMatch>)
    ensures
        match found {
            Some(found) => account == Some(query.account) && crate::secrets::bytes_view(identity)
                == Some(asked.identity@) && crate::secrets::bytes_view(cookies) == Some(
                asked.cookies@,
            ) && found.name == asked.name && found.store == query.store && found.identity
                == asked.identity && found.cookies == asked.cookies,
            None => account != Some(query.account) || crate::secrets::bytes_view(identity) != Some(
                asked.identity@,
            ) || crate::secrets::bytes_view(cookies) != Some(asked.cookies@),
        },
{
    let belongs = match account {
        Some(account) => account.is(query.account),
        None => false,
    };
    if belongs && holds_bytes(&identity, &asked.identity) && holds_bytes(&cookies, &asked.cookies) {
        Some(
            ProfileMatch {
                name: asked.name,
                store: query.store,
                identity: asked.identity,
                cookies: asked.cookies,
            },
        )
    } else {
        None
    }
}

/// What the profiles that were looked into came to.
pub enum Matching {
    Nothing,
    One(ProfileMatch),
    Several,
}

impl Matching {
    /// This is what these outcomes came to.
    pub open spec fn stands_for(self, outcomes: Seq<Option<ProfileMatch>>) -> bool {
        match self {
            Matching::Nothing => forall|i: int|
                0 <= i < outcomes.len() ==> (#[trigger] outcomes[i]) is None,
            Matching::One(matched) => exists|i: int| #[trigger]
                choice::is_only_some(outcomes, i) && outcomes[i] == Some(matched),
            Matching::Several => exists|i: int, j: int|
                0 <= i < j < outcomes.len() && (#[trigger] outcomes[i]) is Some && (
                #[trigger] outcomes[j]) is Some,
        }
    }

    /// What this comes to with one more outcome.
    pub open spec fn with(self, outcome: Option<ProfileMatch>) -> Matching {
        match (self, outcome) {
            (Matching::Nothing, Some(matched)) => Matching::One(matched),
            (Matching::One(_), Some(_)) => Matching::Several,
            _ => self,
        }
    }

    /// The profile that matches, where exactly one does.
    pub open spec fn only(self) -> Option<ProfileMatch> {
        match self {
            Matching::One(matched) => Some(matched),
            _ => None,
        }
    }

    /// Take what one more profile came to. `true` where another is looked into:
    /// once two match, nothing more can be found.
    pub fn examined(self, outcome: Option<ProfileMatch>) -> (next: (Matching, bool))
        ensures
            next.0 == self.with(outcome),
            next.1 == !(self.with(outcome) is Several),
    {
        match (self, outcome) {
            (Matching::Nothing, Some(matched)) => (Matching::One(matched), true),
            (Matching::One(_), Some(_)) => (Matching::Several, false),
            (Matching::Several, _) => (Matching::Several, false),
            (matching, None) => (matching, true),
        }
    }

    /// The profile that matches, where exactly one does.
    pub fn found(self) -> (found: Option<ProfileMatch>)
        ensures
            found == self.only(),
    {
        match self {
            Matching::One(matched) => Some(matched),
            _ => None,
        }
    }
}

/// Profiles can be looked into one after the other: what they came to so far
/// and one more outcome are what all of them came to, and the profile that is
/// found then is the only one that matched.
pub proof fn law_profiles_are_matched_one_by_one(
    matching: Matching,
    outcomes: Seq<Option<ProfileMatch>>,
    outcome: Option<ProfileMatch>,
)
    requires
        matching.stands_for(outcomes),
    ensures
        matching.with(outcome).stands_for(outcomes.push(outcome)),
        matching.only() == choice::only_some(outcomes),
{
    let more = outcomes.push(outcome);
    match matching {
        Matching::Nothing => {
            if outcome is Some {
                assert(choice::is_only_some(more, outcomes.len() as int));
            }
            assert forall|i: int| !choice::is_only_some(outcomes, i) by {
            }
        },
        Matching::One(matched) => {
            let i = choose|i: int| #[trigger]
                choice::is_only_some(outcomes, i) && outcomes[i] == Some(matched);
            choice::lemma_only_some(outcomes, i);
            assert(more[i] is Some);
            if outcome is Some {
                assert(more[outcomes.len() as int] is Some);
            } else {
                assert forall|j: int| 0 <= j < more.len() && #[trigger] more[j] is Some implies j
                    == i by {
                    assert(j < outcomes.len());
                    assert(outcomes[j] is Some);
                }
                assert(choice::is_only_some(more, i));
            }
        },
        Matching::Several => {
            let (i, j) = choose|i: int, j: int|
                0 <= i < j < outcomes.len() && (#[trigger] outcomes[i]) is Some && (
                #[trigger] outcomes[j]) is Some;
            assert(more[i] is Some && more[j] is Some);
            assert forall|k: int| !choice::is_only_some(outcomes, k) by {
                assert(outcomes[i] is Some && outcomes[j] is Some);
            }
        },
    }
}

/// Once two profiles match, no further one can change that nothing is found.
pub proof fn law_two_matches_settle_it(
    outcomes: Seq<Option<ProfileMatch>>,
    more: Seq<Option<ProfileMatch>>,
)
    requires
        Matching::Several.stands_for(outcomes),
    ensures
        choice::only_some(outcomes + more) is None,
{
    let (i, j) = choose|i: int, j: int|
        0 <= i < j < outcomes.len() && (#[trigger] outcomes[i]) is Some && (
        #[trigger] outcomes[j]) is Some;
    let all = outcomes + more;
    assert(all[i] is Some && all[j] is Some);
    assert forall|k: int| !choice::is_only_some(all, k) by {
    }
}

/// The profile that matches, where exactly one does. `outcomes` is what each
/// directory entry came to.
pub fn matching_profile(outcomes: Vec<Option<ProfileMatch>>) -> (found: Option<ProfileMatch>)
    ensures
        found == choice::only_some(outcomes@),
{
    let ghost all = outcomes@;
    let mut rest = outcomes;
    let mut matching = Matching::Nothing;
    let ghost mut seen: int = 0;
    while rest.len() > 0
        invariant
            all == outcomes@,
            0 <= seen <= all.len(),
            rest@ == all.skip(seen),
            matching.stands_for(all.take(seen)),
        decreases rest@.len(),
    {
        let outcome = rest.remove(0);
        proof {
            assert(outcome == all[seen]);
            law_profiles_are_matched_one_by_one(matching, all.take(seen), outcome);
            assert(all.take(seen).push(outcome) =~= all.take(seen + 1));
            assert(rest@ =~= all.skip(seen + 1));
            seen = seen + 1;
        }
        let (next, more) = matching.examined(outcome);
        matching = next;
        if !more {
            proof {
                law_two_matches_settle_it(all.take(seen), all.skip(seen));
                assert(all.take(seen) + all.skip(seen) =~= all);
            }
            return None;
        }
    }
    proof {
        assert(all.take(seen) =~= all);
        law_profiles_are_matched_one_by_one(matching, all, None);
    }
    matching.found()
}

/// What everything seen of a directory entry comes to.
pub struct Seen {
    pub is_dir: bool,
    pub name: Option<String>,
    pub identity: Option<Vec<u8>>,
    pub saved: Option<SavedIdentity>,
    pub cookies: Option<Vec<u8>>,
    pub account: Option<AccountId>,
    pub identity_after: Option<Vec<u8>>,
    pub cookies_after: Option<Vec<u8>>,
}

/// Whether what was seen of a directory entry makes it a match.
pub open spec fn is_match(query: ProfileQuery, seen: Seen) -> bool {
    &&& seen.is_dir
    &&& seen.name is Some
    &&& crate::profile::valid_name((seen.name->0)@)
    &&& seen.identity is Some
    &&& names_account(seen.saved, query.account)
    &&& seen.cookies is Some
    &&& session_in_store((seen.cookies->0)@) is Some
    &&& seen.account == Some(query.account)
    &&& crate::secrets::bytes_view(seen.identity_after) == crate::secrets::bytes_view(seen.identity)
    &&& crate::secrets::bytes_view(seen.cookies_after) == crate::secrets::bytes_view(seen.cookies)
}

/// What everything seen of a directory entry comes to: every step in turn.
pub fn examine(query: &ProfileQuery, seen: Seen) -> (found: Option<ProfileMatch>)
    ensures
        found is Some == is_match(*query, seen),
        match found {
            Some(found) => seen.name == Some(found.name) && found.store == query.store
                && seen.identity == Some(found.identity) && seen.cookies == Some(found.cookies),
            None => true,
        },
{
    let name = match candidate_name(seen.is_dir, seen.name) {
        Some(name) => name,
        None => return None,
    };
    let named = match identity_read(query, name, seen.identity, seen.saved) {
        Some(named) => named,
        None => return None,
    };
    match cookies_read(named, seen.cookies) {
        Some((asked, _)) => answered(
            query,
            asked,
            seen.account,
            seen.identity_after,
            seen.cookies_after,
        ),
        None => None,
    }
}

/// A text with its escapes taken out: a backslash and `t`, `n`, `r` or another
/// backslash stand for one character, and any other backslash for itself.
pub open spec fn unescaped(s: Seq<char>) -> Seq<char>
    decreases s.len(),
{
    if s.len() == 0 {
        s
    } else if s[0] != '\\' {
        seq![s[0]] + unescaped(s.skip(1))
    } else if s.len() == 1 {
        s
    } else if s[1] == '\\' {
        seq!['\\'] + unescaped(s.skip(2))
    } else if s[1] == 't' {
        seq!['\t'] + unescaped(s.skip(2))
    } else if s[1] == 'n' {
        seq!['\n'] + unescaped(s.skip(2))
    } else if s[1] == 'r' {
        seq!['\r'] + unescaped(s.skip(2))
    } else {
        seq!['\\', s[1]] + unescaped(s.skip(2))
    }
}

/// A text with its escapes taken out.
pub fn unescape(value: &Vec<char>) -> (out: Vec<char>)
    ensures
        out@ == unescaped(value@),
{
    let mut out: Vec<char> = Vec::new();
    let mut i: usize = 0;
    assert(value@.skip(0) =~= value@);
    assert(out@ + unescaped(value@.skip(0)) =~= unescaped(value@));
    while i < value.len()
        invariant
            i <= value.len(),
            out@ + unescaped(value@.skip(i as int)) == unescaped(value@),
        decreases value@.len() - i,
    {
        let ghost rest = value@.skip(i as int);
        let ghost before = out@;
        let c = value[i];
        assert(rest[0] == c);
        assert(rest.skip(1) =~= value@.skip(i + 1));
        if c != '\\' {
            out.push(c);
            i = i + 1;
            assert(out@ + unescaped(value@.skip(i as int)) =~= before + unescaped(rest));
        } else if i + 1 == value.len() {
            out.push('\\');
            i = i + 1;
            assert(rest =~= seq!['\\']);
            assert(unescaped(value@.skip(i as int)) =~= Seq::empty());
            assert(out@ + unescaped(value@.skip(i as int)) =~= before + unescaped(rest));
        } else {
            let next = value[i + 1];
            assert(rest[1] == next);
            assert(rest.skip(2) =~= value@.skip(i + 2));
            if next == '\\' {
                out.push('\\');
            } else if next == 't' {
                out.push('\t');
            } else if next == 'n' {
                out.push('\n');
            } else if next == 'r' {
                out.push('\r');
            } else {
                out.push('\\');
                out.push(next);
            }
            i = i + 2;
            assert(out@ + unescaped(value@.skip(i as int)) =~= before + unescaped(rest));
        }
    }
    assert(value@.skip(i as int) =~= Seq::empty());
    assert(out@ =~= unescaped(value@));
    out
}

/// A line of a cookie store that holds cookies: neither a comment nor blank.
pub open spec fn holds_cookies(line: Seq<char>) -> bool {
    !(line.len() > 0 && line[0] == '#') && text::trimmed(line).len() > 0
}

/// The cookies of a line: what follows its first tab, with its escapes taken
/// out.
pub open spec fn jar_of(line: Seq<char>) -> Option<Seq<char>> {
    match text::first(line, '\t') {
        Some(i) => Some(unescaped(line.skip(i + 1))),
        None => None,
    }
}

/// The value of a cookie that is the session.
pub open spec fn session_value(pair: Seq<char>) -> Option<Seq<char>> {
    match text::first(pair, '=') {
        Some(i) => if pair.take(i) == SESSION_NAME@ {
            Some(pair.skip(i + 1))
        } else {
            None
        },
        None => None,
    }
}

/// The `j`th cookie of a line is the session, with that value.
pub open spec fn line_sets(line: Seq<char>, j: int, value: Seq<char>) -> bool {
    &&& holds_cookies(line)
    &&& jar_of(line) is Some
    &&& 0 <= j < text::split(jar_of(line)->0, ';').len()
    &&& session_value(text::trimmed(text::split(jar_of(line)->0, ';')[j])) == Some(value)
}

/// The `j`th cookie of the `i`th line is the session, with that value.
pub open spec fn sets(lines: Seq<Seq<char>>, i: int, j: int, value: Seq<char>) -> bool {
    0 <= i < lines.len() && line_sets(lines[i], j, value)
}

/// The session of a cookie store has that value: every line of cookies is well
/// formed, one of them sets the session, and whatever sets it sets that value,
/// which a session can have.
pub open spec fn is_session_of(lines: Seq<Seq<char>>, value: Seq<char>) -> bool {
    &&& forall|i: int|
        0 <= i < lines.len() && holds_cookies(#[trigger] lines[i]) ==> jar_of(lines[i]) is Some
    &&& exists|i: int, j: int| #[trigger] sets(lines, i, j, value)
    &&& forall|i: int, j: int, other: Seq<char>| #[trigger]
        sets(lines, i, j, other) ==> other == value
    &&& super::transport::is_session_value(value)
}

/// The session a cookie store holds, as a `Cookie` header sends it.
pub open spec fn session_in_store(bytes: Seq<u8>) -> Option<Seq<char>> {
    if valid_utf8(bytes) && exists|value: Seq<char>|
        is_session_of(text::lines(decode_utf8(bytes)), value) {
        Some(
            SESSION_PREFIX@ + choose|value: Seq<char>|
                is_session_of(text::lines(decode_utf8(bytes)), value),
        )
    } else {
        None
    }
}

/// The value a cookie gives the session.
fn value_in_pair(pair: &Vec<char>) -> (value: Option<String>)
    ensures
        match value {
            Some(value) => session_value(pair@) == Some(value@),
            None => session_value(pair@) is None,
        },
{
    match find_from(pair, '=', 0) {
        None => None,
        Some(at) => {
            assert(at < pair.len());
            let name = text_between(pair, 0, at);
            assert(name@ =~= pair@.take(at as int));
            if same_text(name.as_str(), SESSION_NAME) {
                let value = text_between(pair, at + 1, pair.len());
                assert(value@ =~= pair@.skip(at + 1));
                Some(value)
            } else {
                None
            }
        },
    }
}

/// The session a line sets, taken together with what earlier lines set.
///
/// Fails where the line sets two values, a value other than the earlier one, or
/// a value no session has.
fn session_in_line(line: &Vec<char>, jar: &Vec<char>, earlier: Option<String>) -> (merged: Result<
    Option<String>,
    (),
>)
    requires
        holds_cookies(line@),
        jar_of(line@) == Some(jar@),
        match earlier {
            Some(value) => super::transport::is_session_value(value@),
            None => true,
        },
    ensures
        match merged {
            Ok(None) => earlier is None && forall|j: int, value: Seq<char>| !line_sets(
                line@,
                j,
                value,
            ),
            Ok(Some(value)) => super::transport::is_session_value(value@) && (match earlier {
                Some(before) => before@ == value@,
                None => exists|j: int| line_sets(line@, j, value@),
            }) && forall|j: int, other: Seq<char>| #[trigger]
                line_sets(line@, j, other) ==> other == value@,
            Err(_) => exists|j: int, value: Seq<char>| #[trigger]
                line_sets(line@, j, value) && (!super::transport::is_session_value(value) || (
                earlier is Some && (earlier->0)@ != value) || exists|k: int, other: Seq<char>|
                    #[trigger] line_sets(line@, k, other) && other != value),
        },
{
    let pieces = split_at_each(jar, ';');
    let ghost cut = text::split(jar@, ';');
    let ghost start = earlier;
    let mut session = earlier;
    let ghost mut witness: int = 0;
    let mut j: usize = 0;
    while j < pieces.len()
        invariant
            0 <= j <= pieces@.len(),
            text::views(pieces@) == cut,
            cut == text::split(jar@, ';'),
            holds_cookies(line@),
            jar_of(line@) == Some(jar@),
            earlier == start,
            match session {
                Some(value) => super::transport::is_session_value(value@) && (match earlier {
                    Some(before) => before@ == value@,
                    None => line_sets(line@, witness, value@) && witness < j,
                }) && forall|k: int, other: Seq<char>|
                    k < j && #[trigger] line_sets(line@, k, other) ==> other == value@,
                None => earlier is None && forall|k: int, value: Seq<char>|
                    k < j ==> !#[trigger] line_sets(line@, k, value),
            },
        decreases pieces@.len() - j,
    {
        let piece = &pieces[j];
        assert(text::views(pieces@)[j as int] == piece@);
        assert(piece@.subrange(0, piece@.len() as int) =~= piece@);
        let pair = trim_between(piece, 0, piece.len());
        let found = value_in_pair(&pair);
        proof {
            assert forall|other: Seq<char>| #[trigger] line_sets(line@, j as int, other) implies (
            match found {
                Some(value) => other == value@,
                None => false,
            }) by {
            }
        }
        if let Some(value) = found {
            assert(line_sets(line@, j as int, value@));
            match SessionCookie::from_value(value.as_str()) {
                None => {
                    return Err(());
                },
                Some(_) => {},
            }
            session = match session {
                Some(current) => {
                    if !same_text(current.as_str(), value.as_str()) {
                        return Err(());
                    }
                    Some(current)
                },
                None => {
                    proof {
                        witness = j as int;
                    }
                    Some(value)
                },
            };
        }
        j = j + 1;
    }
    proof {
        assert forall|k: int, other: Seq<char>| #[trigger] line_sets(line@, k, other) implies k
            < pieces@.len() by {
        }
    }
    Ok(session)
}

/// Whether a line of a cookie store holds cookies.
fn has_cookies(line: &Vec<char>) -> (has: bool)
    ensures
        has == holds_cookies(line@),
{
    if line.len() > 0 && line[0] == '#' {
        return false;
    }
    assert(line@.subrange(0, line@.len() as int) =~= line@);
    trim_between(line, 0, line.len()).len() > 0
}

/// The cookies of a line.
fn jar_in(line: &Vec<char>) -> (jar: Option<Vec<char>>)
    ensures
        match jar {
            Some(jar) => jar_of(line@) == Some(jar@),
            None => jar_of(line@) is None,
        },
{
    match find_from(line, '\t', 0) {
        None => None,
        Some(at) => {
            assert(at < line.len());
            let tail = chars_between(line, at + 1, line.len());
            assert(tail@ =~= line@.skip(at + 1));
            Some(unescape(&tail))
        },
    }
}

proof fn lemma_session_of_store(bytes: Seq<u8>, value: Seq<char>)
    requires
        valid_utf8(bytes),
        is_session_of(text::lines(decode_utf8(bytes)), value),
    ensures
        session_in_store(bytes) == Some(SESSION_PREFIX@ + value),
{
    let lines = text::lines(decode_utf8(bytes));
    let chosen = choose|value: Seq<char>| is_session_of(lines, value);
    assert(is_session_of(lines, chosen));
    let (i, j) = choose|i: int, j: int| #[trigger] sets(lines, i, j, value);
    assert(sets(lines, i, j, value));
}

/// The session a cookie store holds: its one value, wherever it is set. A store
/// that is not text, has a malformed line, or sets two values holds none.
pub fn session_from_store(bytes: &[u8]) -> (session: Option<SessionCookie>)
    ensures
        match session {
            Some(cookie) => session_in_store(bytes@) == Some(cookie@),
            None => session_in_store(bytes@) is None,
        },
{
    let text = match text_of_bytes(bytes) {
        Some(text) => text,
        None => return None,
    };
    let lines = lines_of(&chars_of(text.as_str()));
    let ghost all = text::lines(decode_utf8(bytes@));
    let mut session: Option<String> = None;
    let ghost mut at: (int, int) = (0, 0);
    let mut i: usize = 0;
    while i < lines.len()
        invariant
            0 <= i <= lines@.len(),
            text::views(lines@) == all,
            all == text::lines(decode_utf8(bytes@)),
            forall|k: int|
                0 <= k < i && holds_cookies(#[trigger] all[k]) ==> jar_of(all[k]) is Some,
            match session {
                Some(value) => super::transport::is_session_value(value@) && at.0 < i && sets(
                    all,
                    at.0,
                    at.1,
                    value@,
                ) && forall|k: int, j: int, other: Seq<char>|
                    k < i && #[trigger] sets(all, k, j, other) ==> other == value@,
                None => forall|k: int, j: int, value: Seq<char>|
                    k < i ==> !#[trigger] sets(all, k, j, value),
            },
        decreases lines@.len() - i,
    {
        let line = &lines[i];
        assert(text::views(lines@)[i as int] == line@);
        assert(all[i as int] == line@);
        if has_cookies(line) {
            let jar = match jar_in(line) {
                Some(jar) => jar,
                None => {
                    assert(!(exists|value: Seq<char>| is_session_of(all, value)));
                    return None;
                },
            };
            let ghost before = session;
            match session_in_line(line, &jar, session) {
                Err(_) => {
                    proof {
                        let (j, value) = choose|j: int, value: Seq<char>| #[trigger]
                            line_sets(line@, j, value) && (!super::transport::is_session_value(value)
                                || (before is Some && (before->0)@ != value) || exists|
                                k: int,
                                other: Seq<char>,
                            | #[trigger]
                                line_sets(line@, k, other) && other != value);
                        assert(sets(all, i as int, j, value));
                        assert forall|candidate: Seq<char>| !is_session_of(all, candidate) by {
                            if is_session_of(all, candidate) {
                                assert(candidate == value);
                                if before is Some {
                                    assert(sets(all, at.0, at.1, (before->0)@));
                                }
                                if exists|k: int, other: Seq<char>| #[trigger]
                                    line_sets(line@, k, other) && other != value {
                                    let (k, other) = choose|k: int, other: Seq<char>| #[trigger]
                                        line_sets(line@, k, other) && other != value;
                                    assert(sets(all, i as int, k, other));
                                }
                            }
                        }
                    }
                    return None;
                },
                Ok(merged) => {
                    proof {
                        if merged is Some && before is None {
                            let j = choose|j: int| line_sets(line@, j, (merged->0)@);
                            at = (i as int, j);
                            assert(sets(all, i as int, j, (merged->0)@));
                        }
                        assert forall|k: int, j: int, other: Seq<char>|
                            k < i + 1 && #[trigger] sets(all, k, j, other) implies merged is Some
                            && other == (merged->0)@ by {
                            if k == i {
                                assert(line_sets(line@, j, other));
                            }
                        }
                    }
                    session = merged;
                },
            }
        } else {
            assert forall|j: int, value: Seq<char>| !#[trigger] sets(all, i as int, j, value) by {
            }
        }
        i = i + 1;
    }
    match session {
        None => {
            assert(!(exists|value: Seq<char>| is_session_of(all, value))) by {
                assert forall|value: Seq<char>| !is_session_of(all, value) by {
                    assert forall|k: int, j: int| !#[trigger] sets(all, k, j, value) by {
                    }
                }
            }
            None
        },
        Some(value) => {
            assert(sets(all, at.0, at.1, value@));
            assert(is_session_of(all, value@)) by {
                assert forall|k: int, j: int, other: Seq<char>| #[trigger]
                    sets(all, k, j, other) implies other == value@ by {
                }
            }
            proof {
                lemma_session_of_store(bytes@, value@);
            }
            SessionCookie::from_value(value.as_str())
        },
    }
}

/// The order of the directory never decides which profile is taken, and two
/// profiles of one account are never narrowed to one.
pub proof fn law_directory_order_never_decides(
    a: Seq<Option<ProfileMatch>>,
    b: Seq<Option<ProfileMatch>>,
)
    requires
        a.to_multiset() == b.to_multiset(),
    ensures
        choice::only_some(a) == choice::only_some(b),
{
    choice::law_order_never_decides(a, b);
}

/// Two directory entries that match leave the choice to the user.
pub proof fn law_duplicate_accounts_require_a_choice(
    outcomes: Seq<Option<ProfileMatch>>,
    i: int,
    j: int,
)
    requires
        0 <= i < j < outcomes.len(),
        outcomes[i] is Some,
        outcomes[j] is Some,
    ensures
        choice::only_some(outcomes) is None,
{
    assert forall|k: int| !choice::is_only_some(outcomes, k) by {
    }
}

/// A session or an identity that changed while it was asked about authorises
/// nothing, whatever the answer was.
pub proof fn law_a_change_during_validation_is_no_match(query: ProfileQuery, seen: Seen)
    requires
        crate::secrets::bytes_view(seen.identity_after) != crate::secrets::bytes_view(
            seen.identity,
        ) || crate::secrets::bytes_view(seen.cookies_after) != crate::secrets::bytes_view(
            seen.cookies,
        ),
    ensures
        !is_match(query, seen),
{
}

} // verus!
