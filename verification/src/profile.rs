//! Profiles: their names, their directories, who holds them and which build
//! they are pinned to.
//!
//! A profile is one account's storage, and two clients writing one storage
//! directory corrupt it. So an instance holds its profile for as long as it
//! runs, and a second one is refused and told who holds it.

pub mod laws;

use vstd::prelude::*;
use vstd::string::*;
use vstd::utf8::*;

use crate::order::{self, dedup, sort};
use crate::text::{
    self, chars_of, contains, debug_text, find_from, join_path, parse_unsigned, same_text,
    text_between, to_decimal, trim, trim_between, words_from,
};

verus! {

broadcast use vstd::string::group_string_axioms;

/// Asks a process to stop.
pub const SIGTERM: i32 = 15;

/// Ends a process outright.
pub const SIGKILL: i32 = 9;

/// The error of a signal to a process that has already gone.
pub const ESRCH: i32 = 3;

/// The variable that names the lock a launcher handed down.
pub const HANDED_LOCK: &'static str = "CORDIAL_PROFILE_LOCK_FD";

/// The file that names the build a profile insists on.
pub const PIN: &'static str = "roblox-version";

/// The file an instance locks.
pub const LOCK: &'static str = ".lock";

/// What a client is called.
pub const CLIENT: &'static str = "cordial-run";

/// The longest profile name, in bytes.
pub const MAX_NAME: usize = 64;

/// A character a profile name may hold.
pub open spec fn is_name_char(c: char) -> bool {
    'a' <= c <= 'z' || 'A' <= c <= 'Z' || '0' <= c <= '9' || c == '-' || c == '_'
}

/// A usable profile name: letters, digits, `-` and `_`, at least one and not
/// too many.
pub open spec fn valid_name(name: Seq<char>) -> bool {
    &&& 0 < name.len() <= MAX_NAME
    &&& forall|i: int| 0 <= i < name.len() ==> is_name_char(#[trigger] name[i])
}

/// Whether a profile name is usable. A name that is not is refused rather than
/// rewritten, so that the profile someone selects is the one they get.
pub fn is_valid_name(name: &str) -> (valid: bool)
    ensures
        valid == valid_name(name@),
{
    let chars = chars_of(name);
    if chars.len() == 0 || chars.len() > MAX_NAME {
        return false;
    }
    let mut i: usize = 0;
    while i < chars.len()
        invariant
            0 <= i <= chars@.len(),
            chars@ == name@,
            forall|j: int| 0 <= j < i ==> is_name_char(#[trigger] name@[j]),
        decreases chars@.len() - i,
    {
        let c = chars[i];
        if !(('a' <= c && c <= 'z') || ('A' <= c && c <= 'Z') || ('0' <= c && c <= '9') || c == '-'
            || c == '_') {
            assert(!is_name_char(name@[i as int]));
            return false;
        }
        i = i + 1;
    }
    true
}

/// The variables and the directory that decide where data lives.
pub struct DataEnv {
    pub profile_root: Option<String>,
    pub xdg_data_home: Option<String>,
    pub home: Option<String>,
    pub temp_dir: String,
}

impl DataEnv {
    /// Where data lives.
    pub open spec fn data_home(self) -> Seq<char> {
        match (self.xdg_data_home, self.home) {
            (Some(data), _) => data@,
            (None, Some(home)) => text::joined(home@, ".local/share"@),
            (None, None) => self.temp_dir@,
        }
    }

    /// Where profiles live.
    pub open spec fn root(self) -> Seq<char> {
        match self.profile_root {
            Some(root) => root@,
            None => text::joined(self.data_home(), "cordial/profiles"@),
        }
    }

    /// Where storage lived before there were profiles.
    pub open spec fn legacy(self) -> Seq<char> {
        text::joined(self.data_home(), "cordial/instances/default"@)
    }
}

fn data_home(env: &DataEnv) -> (path: String)
    ensures
        path@ == env.data_home(),
{
    match (&env.xdg_data_home, &env.home) {
        (Some(data), _) => data.clone(),
        (None, Some(home)) => join_path(home.as_str(), ".local/share"),
        (None, None) => env.temp_dir.clone(),
    }
}

/// Where profiles live.
pub fn root(env: &DataEnv) -> (path: String)
    ensures
        path@ == env.root(),
{
    match &env.profile_root {
        Some(root) => root.clone(),
        None => join_path(data_home(env).as_str(), "cordial/profiles"),
    }
}

/// What is said of a name that is not usable, given how it is shown.
pub open spec fn unusable_name_text(shown: Seq<char>) -> Seq<char> {
    shown + " is not a usable profile name; use letters, digits, - and _"@
}

/// What is said of a name that is not usable, given how it is shown.
pub fn unusable_name(shown: &str) -> (why: String)
    ensures
        why@ == unusable_name_text(shown@),
{
    let mut why = shown.to_owned();
    why.append(" is not a usable profile name; use letters, digits, - and _");
    why
}

/// The directory of a profile.
pub fn dir(root: &str, name: &str) -> (path: Result<String, String>)
    ensures
        match path {
            Ok(path) => valid_name(name@) && path@ == text::joined(root@, name@),
            Err(why) => !valid_name(name@) && why@ == unusable_name_text(text::debug_form(name@)),
        },
{
    if is_valid_name(name) {
        Ok(join_path(root, name))
    } else {
        Err(unusable_name(debug_text(name).as_str()))
    }
}

/// A name cannot escape the profile root: it holds no separator and no dot, so
/// its directory is directly under the root, and two names have two
/// directories.
pub proof fn law_a_name_cannot_escape_the_root(root: Seq<char>, name: Seq<char>, other: Seq<char>)
    requires
        valid_name(name),
        valid_name(other),
    ensures
        !name.contains('/'),
        !name.contains('.'),
        text::begins_with(text::joined(root, name), root),
        text::joined(root, name) == text::joined(root, other) ==> name == other,
{
    assert(text::joined(root, name).take(root.len() as int) =~= root);
    if text::joined(root, name) == text::joined(root, other) {
        let n = (text::joined(root, name).len() - name.len()) as int;
        assert(text::joined(root, name).skip(n) =~= name);
        assert(text::joined(root, other).skip(n) =~= other);
    }
}

/// A directory entry of the profile root: whether it is a directory, and its
/// name where that is text.
pub struct Entry {
    pub is_dir: bool,
    pub name: Option<String>,
}

/// The name of an entry that is a profile.
pub open spec fn profile_in(entry: Entry) -> Option<Seq<char>> {
    match entry.name {
        Some(name) => if entry.is_dir && valid_name(name@) {
            Some(name@)
        } else {
            None
        },
        None => None,
    }
}

/// The values that are there, in the order they come.
pub open spec fn present<T>(list: Seq<Option<T>>) -> Seq<T>
    decreases list.len(),
{
    if list.len() == 0 {
        Seq::empty()
    } else {
        match list.last() {
            Some(value) => present(list.drop_last()).push(value),
            None => present(list.drop_last()),
        }
    }
}

/// The profiles among the entries of the root, as they come.
pub open spec fn profiles_in(entries: Seq<Entry>) -> Seq<Seq<char>> {
    present(entries.map_values(|entry: Entry| profile_in(entry)))
}

/// Profiles that exist, in order.
pub fn list(entries: Vec<Entry>) -> (names: Vec<String>)
    ensures
        order::is_sorted(order::texts(names@)),
        order::texts(names@).to_multiset() == profiles_in(entries@).to_multiset(),
{
    let ghost found = entries@.map_values(|entry: Entry| profile_in(entry));
    let mut names: Vec<String> = Vec::new();
    let mut i: usize = 0;
    assert(found.take(0) =~= Seq::empty());
    assert(order::texts(names@) =~= Seq::empty());
    while i < entries.len()
        invariant
            0 <= i <= entries@.len(),
            found == entries@.map_values(|entry: Entry| profile_in(entry)),
            order::texts(names@) == present(found.take(i as int)),
        decreases entries@.len() - i,
    {
        let ghost before = order::texts(names@);
        assert(found.take(i + 1).drop_last() =~= found.take(i as int));
        assert(found[i as int] == profile_in(entries@[i as int]));
        if let Some(name) = &entries[i].name {
            if entries[i].is_dir && is_valid_name(name.as_str()) {
                names.push(name.clone());
                assert(order::texts(names@) =~= before.push(name@));
            }
        }
        i = i + 1;
    }
    assert(found.take(i as int) =~= found);
    sort(names)
}

/// Whether a profile other than `exclude` is held by a live instance. A second
/// launch of the same profile is refused elsewhere; this is about two.
pub fn other_profile_is_running(exclude: &str, profiles: &Vec<(String, bool)>) -> (running: bool)
    ensures
        running == exists|i: int|
            0 <= i < profiles@.len() && (#[trigger] profiles@[i]).0@ != exclude@ && profiles@[i].1,
{
    let mut i: usize = 0;
    while i < profiles.len()
        invariant
            0 <= i <= profiles@.len(),
            forall|j: int|
                0 <= j < i ==> !((#[trigger] profiles@[j]).0@ != exclude@ && profiles@[j].1),
        decreases profiles@.len() - i,
    {
        if !same_text(profiles[i].0.as_str(), exclude) && profiles[i].1 {
            return true;
        }
        i = i + 1;
    }
    false
}

/// Whether a profile is held, given whether its lock could be taken. There is
/// nothing to take where it was never launched, and a lock file that nobody
/// holds says nothing.
pub fn is_held(name: &str, taken: Option<bool>) -> (held: bool)
    ensures
        held == (valid_name(name@) && taken == Some(false)),
{
    if !is_valid_name(name) {
        return false;
    }
    match taken {
        Some(taken) => !taken,
        None => false,
    }
}

/// The process holding a profile's lock.
#[derive(Debug)]
pub struct Holder {
    pub pid: u32,
    /// Its command line, with spaces between the arguments. Empty where it
    /// could not be read.
    pub command: String,
    /// How long it has been up, in whole seconds.
    pub running_for: Option<u64>,
}

impl Clone for Holder {
    fn clone(&self) -> (copy: Holder)
        ensures
            copy == *self,
    {
        Holder { pid: self.pid, command: self.command.clone(), running_for: self.running_for }
    }
}

/// How long something has been up, in words.
pub open spec fn duration_text(secs: u64) -> Seq<char> {
    if secs <= 90 {
        text::decimal(secs as nat) + " seconds"@
    } else if secs <= 5400 {
        text::decimal(((secs + 30) / 60) as nat) + " minutes"@
    } else {
        text::decimal(((secs + 1800) / 3600) as nat) + " hours"@
    }
}

/// What refuses to close a process that is not a client.
pub open spec fn not_a_client_text(holder: Holder) -> Seq<char> {
    "process "@ + text::decimal(holder.pid as nat)
        + " is not a Cordial client, so Cordial will not close it: "@ + holder.command@
}

/// How a signal failed: the number of the error, where it has one, and its
/// words.
pub struct SignalFailure {
    pub errno: Option<i32>,
    pub message: String,
}

impl Holder {
    /// One of ours.
    pub open spec fn is_client(self) -> bool {
        text::holds_text(self.command@, CLIENT@)
    }

    /// Whether this is one of ours, and so whether offering to close it is
    /// reasonable.
    pub fn is_cordial(&self) -> (ours: bool)
        ensures
            ours == self.is_client(),
    {
        contains(self.command.as_str(), CLIENT)
    }

    /// Roughly how long it has been up, for a sentence.
    pub fn running_for_text(&self) -> (said: Option<String>)
        ensures
            match said {
                Some(said) => self.running_for is Some && said@ == duration_text(
                    self.running_for->0,
                ),
                None => self.running_for is None,
            },
    {
        let secs: u64 = match self.running_for {
            Some(secs) => secs,
            None => return None,
        };
        if secs <= 90 {
            let mut said = to_decimal(secs);
            said.append(" seconds");
            Some(said)
        } else if secs <= 5400 {
            let mut said = to_decimal((secs + 30) / 60);
            said.append(" minutes");
            Some(said)
        } else {
            let hours: u64 = secs / 3600 + if secs % 3600 >= 1800 {
                1
            } else {
                0
            };
            assert(hours == (secs + 1800) / 3600);
            let mut said = to_decimal(hours);
            said.append(" hours");
            Some(said)
        }
    }

    /// Whether this process is gone, given whether the kernel still lists it.
    /// The lock is free before a process has finished exiting, so the lock is
    /// not what is asked.
    pub fn has_exited(&self, listed: bool) -> (exited: bool)
        ensures
            exited == !listed,
    {
        !listed
    }

    /// The signal that asks this holder to stop. Only a client is signalled.
    pub fn ask_to_stop(&self) -> (signal: Result<i32, String>)
        ensures
            match signal {
                Ok(signal) => self.is_client() && signal == SIGTERM,
                Err(why) => !self.is_client() && why@ == not_a_client_text(*self),
            },
    {
        if self.is_cordial() {
            Ok(SIGTERM)
        } else {
            Err(self.not_a_client())
        }
    }

    /// The signal that ends this holder outright. Only a client is signalled.
    pub fn force_stop(&self) -> (signal: Result<i32, String>)
        ensures
            match signal {
                Ok(signal) => self.is_client() && signal == SIGKILL,
                Err(why) => !self.is_client() && why@ == not_a_client_text(*self),
            },
    {
        if self.is_cordial() {
            Ok(SIGKILL)
        } else {
            Err(self.not_a_client())
        }
    }

    fn not_a_client(&self) -> (why: String)
        ensures
            why@ == not_a_client_text(*self),
    {
        let mut why = "process ".to_owned();
        why.append(to_decimal(self.pid as u64).as_str());
        why.append(" is not a Cordial client, so Cordial will not close it: ");
        why.append(self.command.as_str());
        why
    }

    /// How asking to stop went, given how the signal failed where it did. A
    /// process that has already gone has stopped.
    pub fn asked_to_stop(&self, failure: Option<SignalFailure>) -> (outcome: Result<(), String>)
        ensures
            match failure {
                Some(failure) if failure.errno != Some(ESRCH) => outcome is Err && outcome->Err_0@
                    == "could not close process "@ + text::decimal(self.pid as nat) + ": "@
                    + failure.message@,
                _ => outcome is Ok,
            },
    {
        self.signalled("could not close process ", failure)
    }

    /// How ending a process went, given how the signal failed where it did.
    pub fn force_stopped(&self, failure: Option<SignalFailure>) -> (outcome: Result<(), String>)
        ensures
            match failure {
                Some(failure) if failure.errno != Some(ESRCH) => outcome is Err && outcome->Err_0@
                    == "could not force-close process "@ + text::decimal(self.pid as nat) + ": "@
                    + failure.message@,
                _ => outcome is Ok,
            },
    {
        self.signalled("could not force-close process ", failure)
    }

    fn signalled(&self, what: &str, failure: Option<SignalFailure>) -> (outcome: Result<(), String>)
        ensures
            match failure {
                Some(failure) if failure.errno != Some(ESRCH) => outcome is Err && outcome->Err_0@
                    == what@ + text::decimal(self.pid as nat) + ": "@ + failure.message@,
                _ => outcome is Ok,
            },
    {
        match failure {
            None => Ok(()),
            Some(failure) => {
                let gone = match failure.errno {
                    Some(errno) => errno == ESRCH,
                    None => false,
                };
                if gone {
                    Ok(())
                } else {
                    let mut why = what.to_owned();
                    why.append(to_decimal(self.pid as u64).as_str());
                    why.append(": ");
                    why.append(failure.message.as_str());
                    Err(why)
                }
            },
        }
    }
}

/// The last position of a character.
pub open spec fn is_last(s: Seq<char>, c: char, i: int) -> bool {
    &&& 0 <= i < s.len()
    &&& s[i] == c
    &&& forall|j: int| i < j < s.len() ==> s[j] != c
}

/// The time a process was scheduled for, out of its `stat` line: its twelfth
/// and thirteenth fields after the last closing bracket, which ends a name that
/// may itself hold anything.
pub open spec fn is_scheduled_for(stat: Seq<char>, ticks: nat) -> bool {
    exists|close: int| #[trigger]
        is_last(stat, ')', close) && ({
            let fields = text::words(stat.skip(close + 1));
            &&& fields.len() > 12
            &&& text::unsigned_value(fields[11], u64::MAX as nat) is Some
            &&& text::unsigned_value(fields[12], u64::MAX as nat) is Some
            &&& ticks == text::unsigned_value(fields[11], u64::MAX as nat)->0
                + text::unsigned_value(fields[12], u64::MAX as nat)->0
        })
}

/// The time a process was scheduled for, out of its `stat` line. Nothing where
/// the line does not say, and where the sum does not fit.
pub fn cpu_ticks(stat: &str) -> (ticks: Option<u64>)
    ensures
        match ticks {
            Some(ticks) => is_scheduled_for(stat@, ticks as nat),
            None => forall|ticks: nat|
                is_scheduled_for(stat@, ticks) ==> ticks > u64::MAX,
        },
{
    let chars = chars_of(stat);
    let mut close: usize = chars.len();
    while close > 0 && chars[close - 1] != ')'
        invariant
            close <= chars@.len(),
            forall|j: int| close <= j < chars@.len() ==> chars@[j] != ')',
        decreases close,
    {
        close = close - 1;
    }
    if close == 0 {
        assert forall|i: int| !is_last(stat@, ')', i) by {
        }
        return None;
    }
    assert(is_last(stat@, ')', close - 1));
    assert forall|i: int| is_last(stat@, ')', i) implies i == close - 1 by {
    }
    let fields = words_from(&chars, close);
    let ghost words = text::words(stat@.skip(close as int));
    assert(text::views(fields@) == words);
    if fields.len() <= 12 {
        return None;
    }
    assert(fields@[11]@ == words[11]);
    assert(fields@[12]@ == words[12]);
    match (parse_unsigned(&fields[11], u64::MAX), parse_unsigned(&fields[12], u64::MAX)) {
        (Some(utime), Some(stime)) => utime.checked_add(stime),
        _ => None,
    }
}

/// Where a process is blocked, out of what the kernel says: nothing where it
/// says nothing or `0`.
pub fn wchan(raw: &str) -> (place: Option<String>)
    ensures
        match place {
            Some(place) => place@ == text::trimmed(raw@) && place@.len() > 0 && place@ != "0"@,
            None => text::trimmed(raw@).len() == 0 || text::trimmed(raw@) == "0"@,
        },
{
    let place = trim(raw);
    if place.as_str().is_empty() || same_text(place.as_str(), "0") {
        None
    } else {
        Some(place)
    }
}

/// A text with spaces in place of the NULs that separate arguments.
pub open spec fn spaced(s: Seq<char>) -> Seq<char> {
    s.map_values(
        |c: char|
            if c == '\0' {
                ' '
            } else {
                c
            },
    )
}

/// A command line as it is shown.
pub fn command_line(raw: &str) -> (shown: String)
    ensures
        shown@ == text::trimmed(spaced(raw@)),
{
    let chars = chars_of(raw);
    let mut out: Vec<char> = Vec::new();
    let mut i: usize = 0;
    while i < chars.len()
        invariant
            0 <= i <= chars@.len(),
            chars@ == raw@,
            out@ == spaced(raw@.take(i as int)),
        decreases chars@.len() - i,
    {
        let c = chars[i];
        out.push(
            if c == '\0' {
                ' '
            } else {
                c
            },
        );
        i = i + 1;
        assert(raw@.take(i as int) =~= raw@.take(i - 1).push(c));
        assert(out@ =~= spaced(raw@.take(i as int)));
    }
    assert(raw@.take(i as int) =~= raw@);
    assert(out@.subrange(0, out@.len() as int) =~= out@);
    let inner = trim_between(&out, 0, out.len());
    let shown = text_between(&inner, 0, inner.len());
    assert(shown@ =~= inner@);
    shown
}

/// A process as the kernel lists it: the name of its entry, what its
/// descriptors point at, its command line and how long it has been up.
pub struct Process {
    pub entry: String,
    pub links: Vec<Option<String>>,
    pub command: Option<String>,
    pub running_for: Option<u64>,
}

/// A process has a file open.
pub open spec fn has_open(process: Process, target: Seq<char>) -> bool {
    exists|i: int|
        0 <= i < process.links@.len() && (#[trigger] process.links@[i]) is Some
            && (process.links@[i]->0)@ == target
}

/// Whether a process holds the lock at `target`, and what is said of it. This
/// process itself, and whatever is no process, is not one. Nothing means it
/// could not be told, never that nobody holds it.
pub fn holder_of(own: u32, target: &str, process: Process) -> (holder: Option<Holder>)
    ensures
        match holder {
            Some(holder) => text::unsigned_value(process.entry@, u32::MAX as nat) == Some(
                holder.pid as nat,
            ) && holder.pid != own && has_open(process, target@) && holder.running_for
                == process.running_for && holder.command@ == (match process.command {
                Some(raw) => text::trimmed(spaced(raw@)),
                None => Seq::empty(),
            }),
            None => text::unsigned_value(process.entry@, u32::MAX as nat) is None
                || text::unsigned_value(process.entry@, u32::MAX as nat) == Some(own as nat)
                || !has_open(process, target@),
        },
{
    let pid = match parse_unsigned(&chars_of(process.entry.as_str()), u32::MAX as u64) {
        Some(pid) => pid as u32,
        None => return None,
    };
    if pid == own {
        return None;
    }
    let mut i: usize = 0;
    let mut open = false;
    while i < process.links.len() && !open
        invariant
            0 <= i <= process.links@.len(),
            open ==> has_open(process, target@),
            !open ==> forall|j: int|
                0 <= j < i ==> !((#[trigger] process.links@[j]) is Some && (process.links@[j]->0)@
                    == target@),
        decreases process.links@.len() - i,
    {
        if let Some(link) = &process.links[i] {
            if same_text(link.as_str(), target) {
                assert(process.links@[i as int] is Some);
                open = true;
            }
        }
        i = i + 1;
    }
    if !open {
        return None;
    }
    let command = match &process.command {
        Some(raw) => command_line(raw.as_str()),
        None => String::new(),
    };
    Some(Holder { pid, command, running_for: process.running_for })
}

/// Why a profile could not be claimed.
#[derive(Debug)]
pub enum Error {
    /// The profile, and whichever process holds it where that could be told.
    /// This is the lock doing its job, not a fault.
    Busy(String, Option<Holder>),
    Unusable(String),
}

/// What is printed under a refusal in a terminal.
pub const BUSY_ADVICE: &'static str = "A profile is one account's Roblox storage, and two clients writing one storage directory corrupt it (ADR-012). This is a refusal, not a crash.\n\nTo run a second client alongside the first, give it a profile of its own:\n\n    cordial-run --profile <another-name> ...\n\nor a whole data root of its own, which is what this repository asks agents and test runs to do:\n\n    XDG_DATA_HOME=~/.cache/cordial-<yours> cordial-run ...\n\nTo take this profile back instead, close the client holding it \u{2014} named above, when Cordial could see which process that is.";

/// The profile that is busy, as the words of the error show it.
pub open spec fn shown_profile(error: Error) -> Seq<char> {
    match error {
        Error::Busy(name, _) => text::debug_form(name@),
        Error::Unusable(_) => Seq::empty(),
    }
}

/// Why a profile could not be claimed, in words.
pub open spec fn error_text(error: Error) -> Seq<char> {
    error_text_as(error, shown_profile(error))
}

/// Why a profile could not be claimed, in words, given how one that is busy is
/// shown.
pub open spec fn error_text_as(error: Error, shown: Seq<char>) -> Seq<char> {
    match error {
        Error::Busy(_, holder) => "profile "@ + shown
            + " is already open in another Cordial client"@ + (match holder {
            Some(holder) => " (process "@ + text::decimal(holder.pid as nat) + (
            match holder.running_for {
                Some(secs) => ", running for "@ + duration_text(secs),
                None => Seq::empty(),
            }) + ")"@,
            None => Seq::empty(),
        }) + "; use a different profile, or close that one first"@,
        Error::Unusable(message) => message@,
    }
}

impl Error {
    /// What to print under a refusal in a terminal, where there is no profile
    /// switcher to offer.
    pub fn advice(&self) -> (advice: Option<&'static str>)
        ensures
            match *self {
                Error::Busy(..) => advice is Some && (advice->0)@ == BUSY_ADVICE@,
                Error::Unusable(_) => advice is None,
            },
    {
        match self {
            Error::Busy(..) => Some(BUSY_ADVICE),
            Error::Unusable(_) => None,
        }
    }

    /// Why a profile could not be claimed, in words.
    pub fn message(&self) -> (said: String)
        ensures
            said@ == error_text(*self),
    {
        match self {
            Error::Busy(name, _) => self.message_as(debug_text(name.as_str()).as_str()),
            Error::Unusable(_) => self.message_as(""),
        }
    }

    /// Why a profile could not be claimed, in words, given how one that is busy
    /// is shown.
    pub fn message_as(&self, shown: &str) -> (said: String)
        ensures
            said@ == error_text_as(*self, shown@),
    {
        match self {
            Error::Busy(_, holder) => {
                let mut said = "profile ".to_owned();
                said.append(shown);
                said.append(" is already open in another Cordial client");
                if let Some(holder) = holder {
                    let ghost before = said@;
                    said.append(" (process ");
                    said.append(to_decimal(holder.pid as u64).as_str());
                    if let Some(up) = holder.running_for_text() {
                        said.append(", running for ");
                        said.append(up.as_str());
                    }
                    said.append(")");
                    assert(said@ =~= before + (" (process "@ + text::decimal(holder.pid as nat) + (
                    match holder.running_for {
                        Some(secs) => ", running for "@ + duration_text(secs),
                        None => Seq::empty(),
                    }) + ")"@));
                } else {
                    assert(said@ =~= said@ + Seq::<char>::empty());
                }
                said.append("; use a different profile, or close that one first");
                said
            },
            Error::Unusable(message) => message.clone(),
        }
    }
}

/// A failure at a path.
pub fn failed_at(path: &str, e: &str) -> (said: String)
    ensures
        said@ == path@ + ": "@ + e@,
{
    let mut said = path.to_owned();
    said.append(": ");
    said.append(e);
    said
}

/// What became of taking a profile's lock.
pub enum Attempt {
    /// The directory could not be made.
    NoDirectory(String),
    /// The lock file could not be made.
    NoLockFile(String),
    /// Another instance holds the lock.
    Held(Option<Holder>),
    /// The lock is taken.
    Taken,
}

/// What an instance's claim on a profile comes to: its directory, or why not.
pub fn acquire(root: &str, name: &str, attempt: Attempt) -> (claim: Result<String, Error>)
    ensures
        !valid_name(name@) ==> (claim matches Err(Error::Unusable(why)) && why@
            == unusable_name_text(text::debug_form(name@))),
        valid_name(name@) ==> match attempt {
            Attempt::NoDirectory(e) => claim matches Err(Error::Unusable(why)) && why@
                == text::joined(root@, name@) + ": "@ + e@,
            Attempt::NoLockFile(e) => claim matches Err(Error::Unusable(why)) && why@
                == text::joined(text::joined(root@, name@), LOCK@) + ": "@ + e@,
            Attempt::Held(holder) => claim matches Err(Error::Busy(held, by)) && held@ == name@
                && by == holder,
            Attempt::Taken => claim is Ok && (claim->Ok_0)@ == text::joined(root@, name@),
        },
{
    let path = match dir(root, name) {
        Ok(path) => path,
        Err(why) => return Err(Error::Unusable(why)),
    };
    match attempt {
        Attempt::NoDirectory(e) => Err(Error::Unusable(failed_at(path.as_str(), e.as_str()))),
        Attempt::NoLockFile(e) => Err(
            Error::Unusable(failed_at(join_path(path.as_str(), LOCK).as_str(), e.as_str())),
        ),
        Attempt::Held(holder) => Err(Error::Busy(name.to_owned(), holder)),
        Attempt::Taken => Ok(path),
    }
}

/// Two instances on two profiles do not contend: different names have different
/// directories and different locks.
pub proof fn law_different_profiles_do_not_contend(root: Seq<char>, a: Seq<char>, b: Seq<char>)
    requires
        valid_name(a),
        valid_name(b),
        a != b,
    ensures
        text::joined(root, a) != text::joined(root, b),
        text::joined(text::joined(root, a), LOCK@) != text::joined(text::joined(root, b), LOCK@),
{
    let dir_a = text::joined(root, a);
    let dir_b = text::joined(root, b);
    let from = if root.len() == 0 || root.last() == '/' {
        root.len()
    } else {
        root.len() + 1
    };
    assert(dir_a.skip(from as int) =~= a);
    assert(dir_b.skip(from as int) =~= b);
    assert(dir_a != dir_b);
    assert(dir_a.last() == a.last() && a.last() != '/');
    assert(dir_b.last() == b.last() && b.last() != '/');
    let lock_a = text::joined(dir_a, LOCK@);
    let lock_b = text::joined(dir_b, LOCK@);
    assert(lock_a.take(dir_a.len() as int) =~= dir_a);
    assert(lock_b.take(dir_b.len() as int) =~= dir_b);
    if lock_a == lock_b {
        assert(lock_a.len() == dir_a.len() + 1 + LOCK@.len());
        assert(lock_b.len() == dir_b.len() + 1 + LOCK@.len());
    }
}

/// A descriptor out of the text that names it: a number that is not negative,
/// with white space around it or none.
pub open spec fn descriptor_in(raw: Seq<char>) -> Option<nat> {
    let s = text::trimmed(raw);
    if s.len() > 1 && s[0] == '-' {
        if text::digits_value(s.skip(1)) == Some(0nat) {
            Some(0nat)
        } else {
            None
        }
    } else {
        text::unsigned_value(s, i32::MAX as nat)
    }
}

/// The descriptor a launcher says it handed down.
pub fn handed_descriptor(raw: &str) -> (fd: Option<i32>)
    ensures
        match fd {
            Some(fd) => fd >= 0 && descriptor_in(raw@) == Some(fd as nat),
            None => descriptor_in(raw@) is None,
        },
{
    let chars = chars_of(trim(raw).as_str());
    if chars.len() > 1 && chars[0] == '-' {
        let rest = text::chars_between(&chars, 1, chars.len());
        assert(rest@ =~= chars@.skip(1));
        if chars[1] == '+' {
            proof {
                text::lemma_not_digits(rest@, 0);
            }
            return None;
        }
        match parse_unsigned(&rest, i32::MAX as u64) {
            Some(value) => if value == 0 {
                Some(0)
            } else {
                None
            },
            None => None,
        }
    } else {
        match parse_unsigned(&chars, i32::MAX as u64) {
            Some(value) => Some(value as i32),
            None => None,
        }
    }
}

/// Whether the descriptor a launcher named is the profile's lock, given where
/// the lock is and where the descriptor points. Where it is not, a line says
/// so, and the instance takes its own lock.
pub fn adopt_handed_lock(raw: &str, expected: Option<&str>, actual: Option<&str>) -> (adopt: Result<
    (),
    Option<String>,
>)
    ensures
        match adopt {
            Ok(_) => expected is Some && actual is Some && (expected->0)@ == (actual->0)@,
            Err(None) => expected is None,
            Err(Some(line)) => expected is Some && !(actual is Some && (expected->0)@ == (
            actual->0)@) && line@ == "  profiles: "@ + HANDED_LOCK@ + "="@ + raw@
                + " does not name "@ + (expected->0)@ + "; taking this profile's lock instead"@,
        },
{
    let expected = match expected {
        Some(expected) => expected,
        None => return Err(None),
    };
    let same = match actual {
        Some(actual) => same_text(actual, expected),
        None => false,
    };
    if same {
        Ok(())
    } else {
        let mut line = "  profiles: ".to_owned();
        line.append(HANDED_LOCK);
        line.append("=");
        line.append(raw);
        line.append(" does not name ");
        line.append(expected);
        line.append("; taking this profile's lock instead");
        Err(Some(line))
    }
}

/// Whether an instance adopts the descriptor it was handed, given whether the
/// kernel says it holds the lock.
pub fn adopt_if_held(expected: &str, held: bool) -> (adopt: Result<(), String>)
    ensures
        match adopt {
            Ok(_) => held,
            Err(line) => !held && line@
                == "  profiles: the descriptor this client was handed does not hold "@ + expected@
                + "; taking the lock"@,
        },
{
    if held {
        Ok(())
    } else {
        let mut line = "  profiles: the descriptor this client was handed does not hold ".to_owned();
        line.append(expected);
        line.append("; taking the lock");
        Err(line)
    }
}

/// Where the engine keeps its own data in a profile.
pub fn engine_data_dir(profile_dir: &str) -> (path: String)
    ensures
        path@ == text::joined(profile_dir@, "data"@),
{
    join_path(profile_dir, "data")
}

/// The sum of lengths.
pub open spec fn total(lengths: Seq<u64>) -> nat
    decreases lengths.len(),
{
    if lengths.len() == 0 {
        0
    } else {
        total(lengths.drop_last()) + lengths.last() as nat
    }
}

/// How many bytes the engine's data takes, given the length of every file in
/// it. A sum past what can be said is the largest that can.
pub fn engine_data_bytes(lengths: &Vec<u64>) -> (bytes: u64)
    ensures
        bytes == if total(lengths@) < u64::MAX {
            total(lengths@)
        } else {
            u64::MAX as nat
        },
{
    let mut bytes: u64 = 0;
    let mut i: usize = 0;
    assert(lengths@.take(0) =~= Seq::empty());
    while i < lengths.len()
        invariant
            0 <= i <= lengths@.len(),
            bytes == if total(lengths@.take(i as int)) < u64::MAX {
                total(lengths@.take(i as int))
            } else {
                u64::MAX as nat
            },
        decreases lengths@.len() - i,
    {
        bytes = bytes.saturating_add(lengths[i]);
        assert(lengths@.take(i + 1).drop_last() =~= lengths@.take(i as int));
        i = i + 1;
    }
    assert(lengths@.take(i as int) =~= lengths@);
    bytes
}

/// One thing done to a profile's directories.
pub enum ClearStep {
    /// Remove a directory and all in it; that it is not there is no failure.
    DropLeftover { path: String },
    /// Give a directory another name.
    Rename { from: String, to: String },
    /// Remove a directory and all in it.
    Drop { path: String },
}

/// What directories hold, by path; what is in one is left open.
pub type Directories = Map<Seq<char>, int>;

impl ClearStep {
    /// What a step makes of the directories.
    pub open spec fn applied(self, dirs: Directories) -> Directories {
        match self {
            ClearStep::DropLeftover { path } => dirs.remove(path@),
            ClearStep::Rename { from, to } => dirs.remove(from@).insert(to@, dirs[from@]),
            ClearStep::Drop { path } => dirs.remove(path@),
        }
    }
}

/// What the first `n` steps make of the directories.
pub open spec fn cleared(dirs: Directories, steps: Seq<ClearStep>, n: int) -> Directories
    decreases n,
{
    if n <= 0 {
        dirs
    } else {
        steps[n - 1].applied(cleared(dirs, steps, n - 1))
    }
}

/// The steps that clear the engine's data: it is moved aside whole, and only
/// then removed.
pub open spec fn clears(steps: Seq<ClearStep>, profile_dir: Seq<char>) -> bool {
    let data = text::joined(profile_dir, "data"@);
    let aside = text::joined(profile_dir, "data.clearing"@);
    &&& steps.len() == 3
    &&& steps[0] matches ClearStep::DropLeftover { path }
    &&& path@ == aside
    &&& steps[1] matches ClearStep::Rename { from, to }
    &&& from@ == data
    &&& to@ == aside
    &&& steps[2] matches ClearStep::Drop { path }
    &&& path@ == aside
}

/// The steps that clear the engine's data, where there is any.
pub fn clear_engine_data(profile_dir: &str, exists: bool) -> (steps: Vec<ClearStep>)
    ensures
        exists ==> clears(steps@, profile_dir@),
        !exists ==> steps@.len() == 0,
{
    let mut steps: Vec<ClearStep> = Vec::new();
    if exists {
        let aside = join_path(profile_dir, "data.clearing");
        steps.push(ClearStep::DropLeftover { path: aside.clone() });
        steps.push(
            ClearStep::Rename { from: engine_data_dir(profile_dir), to: aside.clone() },
        );
        steps.push(ClearStep::Drop { path: aside });
    }
    steps
}

/// However many steps were performed before clearing was cut off, the engine
/// finds its data whole or finds none.
pub proof fn law_clearing_leaves_no_half(
    dirs: Directories,
    steps: Seq<ClearStep>,
    profile_dir: Seq<char>,
    n: int,
)
    requires
        clears(steps, profile_dir),
        0 <= n <= 3,
        dirs.contains_key(text::joined(profile_dir, "data"@)),
    ensures
        ({
            let data = text::joined(profile_dir, "data"@);
            let now = cleared(dirs, steps, n);
            &&& n < 2 ==> now.contains_key(data) && now[data] == dirs[data]
            &&& n >= 2 ==> !now.contains_key(data)
            &&& n == 3 ==> !now.contains_key(text::joined(profile_dir, "data.clearing"@))
        }),
{
    reveal_strlit("data");
    reveal_strlit("data.clearing");
    assert("data"@.len() == 4 && "data.clearing"@.len() == 13);
    assert(text::joined(profile_dir, "data"@).len() < text::joined(
        profile_dir,
        "data.clearing"@,
    ).len());
    reveal_with_fuel(cleared, 4);
}

/// The version a pin file names, before it is known to be one.
pub fn pin_text(text: Option<&str>) -> (pin: Option<String>)
    ensures
        match (text, pin) {
            (Some(text), Some(pin)) => pin@ == text::trimmed(text@),
            (None, None) => true,
            _ => false,
        },
{
    match text {
        Some(text) => Some(trim(text)),
        None => None,
    }
}

/// Which build a profile insists on, given what its pin file names and whether
/// that is a version. None follows whichever build is current.
pub fn pinned_version(pin: Option<String>, is_version: bool) -> (version: Option<String>)
    ensures
        version == if is_version {
            pin
        } else {
            None
        },
{
    if is_version {
        pin
    } else {
        None
    }
}

/// What pinning a profile takes.
pub enum PinStep {
    /// Remove this file; that it is not there is no failure.
    Unpin { path: String },
    /// Make the profile's directory and write this to the file.
    Write { path: String, version: String },
}

/// What is said of a text that is no version, given how it is shown.
pub open spec fn not_a_version_text(shown: Seq<char>) -> Seq<char> {
    shown + " is not a Roblox version"@
}

/// What is said of a text that is no version, given how it is shown.
pub fn not_a_version(shown: &str) -> (why: String)
    ensures
        why@ == not_a_version_text(shown@),
{
    let mut why = shown.to_owned();
    why.append(" is not a Roblox version");
    why
}

/// What pinning a profile to a version takes, or clearing the pin.
pub fn set_pinned_version(profile_dir: &str, version: Option<&str>, is_version: bool) -> (step:
    Result<PinStep, String>)
    ensures
        match version {
            None => step matches Ok(PinStep::Unpin { path }) && path@ == text::joined(
                profile_dir@,
                PIN@,
            ),
            Some(version) => if is_version {
                step matches Ok(PinStep::Write { path, version: written }) && path@ == text::joined(
                    profile_dir@,
                    PIN@,
                ) && written@ == version@
            } else {
                step matches Err(why) && why@ == not_a_version_text(text::debug_form(version@))
            },
        },
{
    let path = join_path(profile_dir, PIN);
    match version {
        None => Ok(PinStep::Unpin { path }),
        Some(version) => if is_version {
            Ok(PinStep::Write { path, version: version.to_owned() })
        } else {
            Err(not_a_version(debug_text(version).as_str()))
        },
    }
}

/// How clearing a pin went, given how removing the file failed where it did,
/// and whether that was because it is not there.
pub fn unpinned(path: &str, failure: Option<(bool, String)>) -> (outcome: Result<(), String>)
    ensures
        match failure {
            Some((absent, e)) => if absent {
                outcome is Ok
            } else {
                outcome matches Err(why) && why@ == path@ + ": "@ + e@
            },
            None => outcome is Ok,
        },
{
    match failure {
        Some((absent, e)) => if absent {
            Ok(())
        } else {
            Err(failed_at(path, e.as_str()))
        },
        None => Ok(()),
    }
}

/// What profiles are pinned to, as values.
pub open spec fn pins_view(pins: Seq<Option<String>>) -> Seq<Option<Seq<char>>> {
    pins.map_values(
        |pin: Option<String>|
            match pin {
                Some(pin) => Some(pin@),
                None => None,
            },
    )
}

/// Every version any profile is pinned to, in order and once: what must not be
/// pruned.
pub fn all_pinned_versions(pins: Vec<Option<String>>) -> (versions: Vec<String>)
    ensures
        order::is_sorted(order::texts(versions@)),
        order::texts(versions@).no_duplicates(),
        forall|version: Seq<char>| #[trigger]
            order::texts(versions@).contains(version) <==> pins_view(pins@).contains(Some(version)),
{
    let ghost all = pins_view(pins@);
    let mut found: Vec<String> = Vec::new();
    let mut i: usize = 0;
    while i < pins.len()
        invariant
            0 <= i <= pins@.len(),
            all == pins_view(pins@),
            forall|k: int|
                0 <= k < found@.len() ==> all.contains(Some(#[trigger] order::texts(found@)[k])),
            forall|j: int|
                0 <= j < i && (#[trigger] all[j]) is Some ==> order::texts(found@).contains(
                    all[j]->0,
                ),
        decreases pins@.len() - i,
    {
        let ghost before = order::texts(found@);
        assert(all[i as int] == (match pins@[i as int] {
            Some(pin) => Some(pin@),
            None => None::<Seq<char>>,
        }));
        if let Some(pin) = &pins[i] {
            found.push(pin.clone());
            assert(order::texts(found@) =~= before.push(pin@));
            assert(all.contains(Some(pin@))) by {
                assert(all[i as int] == Some(pin@));
            }
            assert(order::texts(found@)[before.len() as int] == pin@);
            assert forall|j: int| 0 <= j < i + 1 && (#[trigger] all[j]) is Some implies order::texts(
                found@,
            ).contains(all[j]->0) by {
                if j < i {
                    let k = choose|k: int| 0 <= k < before.len() && before[k] == all[j]->0;
                    assert(order::texts(found@)[k] == all[j]->0);
                }
            }
        }
        i = i + 1;
    }
    let ghost listed = order::texts(found@);
    let sorted = sort(found);
    let ghost ordered = order::texts(sorted@);
    let versions = dedup(sorted);
    proof {
        let once = order::texts(versions@);
        assert forall|version: Seq<char>| #[trigger] once.contains(version) == all.contains(
            Some(version),
        ) by {
            vstd::seq_lib::to_multiset_contains(listed, version);
            vstd::seq_lib::to_multiset_contains(ordered, version);
            assert(once.to_set().contains(version) == ordered.to_set().contains(version));
            assert(once.contains(version) == listed.contains(version));
            if listed.contains(version) {
                let k = choose|k: int| 0 <= k < listed.len() && listed[k] == version;
                assert(all.contains(Some(listed[k])));
            }
            if all.contains(Some(version)) {
                let j = choose|j: int| 0 <= j < all.len() && all[j] == Some(version);
                assert(all[j] is Some);
            }
        }
    }
    versions
}

/// The unit a size is said in and how many bytes it is; none for a size said in
/// bytes.
pub open spec fn unit_of(bytes: u64) -> Option<(u64, Seq<char>)> {
    if bytes >= 1_000_000_000 {
        Some((1_000_000_000u64, "GB"@))
    } else if bytes >= 1_000_000 {
        Some((1_000_000u64, "MB"@))
    } else if bytes >= 1_000 {
        Some((1_000u64, "kB"@))
    } else {
        None
    }
}

/// The unit a size is said in and how many bytes it is.
pub fn size_unit(bytes: u64) -> (unit: Option<(u64, &'static str)>)
    ensures
        match unit {
            Some((scale, unit)) => unit_of(bytes) == Some((scale, unit@)) && 0 < scale <= bytes,
            None => unit_of(bytes) is None,
        },
{
    if bytes >= 1_000_000_000 {
        Some((1_000_000_000, "GB"))
    } else if bytes >= 1_000_000 {
        Some((1_000_000, "MB"))
    } else if bytes >= 1_000 {
        Some((1_000, "kB"))
    } else {
        None
    }
}

/// A size for a sentence. `quotient` is the size divided by its unit, to one
/// decimal; a size below every unit is said in bytes.
pub fn human_bytes(bytes: u64, quotient: &str) -> (said: String)
    ensures
        said@ == (match unit_of(bytes) {
            Some((_, unit)) => quotient@ + " "@ + unit,
            None => text::decimal(bytes as nat) + " bytes"@,
        }),
{
    match size_unit(bytes) {
        Some((_, unit)) => {
            let mut said = quotient.to_owned();
            said.append(" ");
            said.append(unit);
            said
        },
        None => {
            let mut said = to_decimal(bytes);
            said.append(" bytes");
            said
        },
    }
}

/// Whether any client is up, given what every process is called. One that
/// cannot be read is no client.
pub fn a_client_is_running(names: &Vec<String>) -> (running: bool)
    ensures
        running == exists|i: int|
            0 <= i < names@.len() && text::trimmed((#[trigger] names@[i])@) == CLIENT@,
{
    let mut i: usize = 0;
    while i < names.len()
        invariant
            0 <= i <= names@.len(),
            forall|j: int| 0 <= j < i ==> text::trimmed((#[trigger] names@[j])@) != CLIENT@,
        decreases names@.len() - i,
    {
        if same_text(trim(names[i].as_str()).as_str(), CLIENT) {
            return true;
        }
        i = i + 1;
    }
    false
}

/// What becomes of storage from before there were profiles.
pub enum Migration {
    /// There is none, or the profile is already there.
    Nothing,
    /// It is left for another launch, and this line says why.
    Deferred(String),
    /// Move it, making the directory above the target.
    Move { legacy: String, target: String },
}

/// Where storage from before there were profiles lies, and the profile that it
/// becomes.
pub fn legacy_layout(env: &DataEnv) -> (paths: (String, String))
    ensures
        paths.0@ == env.legacy(),
        paths.1@ == text::joined(env.root(), "default"@),
{
    (
        join_path(data_home(env).as_str(), "cordial/instances/default"),
        join_path(root(env).as_str(), "default"),
    )
}

/// What becomes of storage from before there were profiles: it is moved once,
/// only where nothing would be replaced, and never under a client that is up.
pub fn migrate_legacy_layout(
    env: &DataEnv,
    legacy_is_dir: bool,
    target_exists: bool,
    client_running: bool,
) -> (migration: Migration)
    ensures
        if !legacy_is_dir || target_exists {
            migration is Nothing
        } else if client_running {
            migration matches Migration::Deferred(line) && line@ == "  profiles: leaving "@
                + env.legacy()
                + " where it is; a client is still running against it (ADR-012)"@
        } else {
            migration matches Migration::Move { legacy, target } && legacy@ == env.legacy()
                && target@ == text::joined(env.root(), "default"@)
        },
{
    if !legacy_is_dir || target_exists {
        return Migration::Nothing;
    }
    let (legacy, target) = legacy_layout(env);
    if client_running {
        let mut line = "  profiles: leaving ".to_owned();
        line.append(legacy.as_str());
        line.append(" where it is; a client is still running against it (ADR-012)");
        return Migration::Deferred(line);
    }
    Migration::Move { legacy, target }
}

/// What is said once storage was moved, or could not be.
pub fn migrated(legacy: &str, target: &str, failure: Option<&str>) -> (line: String)
    ensures
        line@ == (match failure {
            None => "  profiles: moved "@ + legacy@ + " to "@ + target@ + " (ADR-012)"@,
            Some(e) => "  profiles: could not move "@ + legacy@ + " to "@ + target@ + " ("@ + e@
                + "); the old location is untouched"@,
        }),
{
    match failure {
        None => {
            let mut line = "  profiles: moved ".to_owned();
            line.append(legacy);
            line.append(" to ");
            line.append(target);
            line.append(" (ADR-012)");
            line
        },
        Some(e) => {
            let mut line = "  profiles: could not move ".to_owned();
            line.append(legacy);
            line.append(" to ");
            line.append(target);
            line.append(" (");
            line.append(e);
            line.append("); the old location is untouched");
            line
        },
    }
}

/// The mode a directory is given so that only its owner reads it, where it has
/// to be given one.
pub fn restrict_to_owner(mode: u32) -> (restricted: Option<u32>)
    ensures
        match restricted {
            Some(now) => mode & 0o077 != 0 && now == 0o700 && now & 0o077 == 0,
            None => mode & 0o077 == 0,
        },
{
    if mode & 0o077 != 0 {
        assert(0o700u32 & 0o077u32 == 0) by (bit_vector);
        Some(0o700)
    } else {
        None
    }
}

} // verus!
