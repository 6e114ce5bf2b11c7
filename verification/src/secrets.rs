//! Where a session is kept between launches, and what is done with it there.
//!
//! Every failure here is a signed-out launch and never a failed one: losing the
//! stored session means signing in again, not a client that does not start.

pub mod laws;
pub mod file;
pub mod keyring;
pub mod migration;

use vstd::prelude::*;
use vstd::string::*;
use vstd::utf8::*;

use self::file::{read_bounded, read_limit, shred, write_private, BoundedRead, FileStep};
use self::keyring::{encode_keyring, read_keyring, Answer};
use crate::text::{self, debug_text, join_path, same_text};

verus! {

broadcast use vstd::string::group_string_axioms;

/// What tools that list a keyring take these items to be.
pub const SCHEMA: &'static str = "org.cordial.Session";

/// The setting, as an environment variable.
pub const SETTING: &'static str = "CORDIAL_SECRET_STORE";

/// Which of the two stores a body belongs to.
#[derive(Clone, Copy, PartialEq, Eq, Debug, Structural)]
pub enum Kind {
    Cookies,
    Identity,
}

impl Kind {
    /// The file name of the store, which is also its name in the service.
    pub open spec fn named(self) -> Seq<char> {
        match self {
            Kind::Cookies => "cookies"@,
            Kind::Identity => "identity"@,
        }
    }

    /// The file name of the store, which is also its name in the service.
    pub fn name(self) -> (name: &'static str)
        ensures
            name@ == self.named(),
    {
        match self {
            Kind::Cookies => "cookies",
            Kind::Identity => "identity",
        }
    }

    /// What a person reading their keyring sees, given how the profile's name is
    /// shown.
    pub open spec fn labelled_as(self, shown: Option<Seq<char>>) -> Seq<char> {
        match shown {
            Some(shown) => "Cordial: Roblox "@ + self.named() + " for profile "@ + shown,
            None => "Cordial: Roblox "@ + self.named(),
        }
    }

    /// What a person reading their keyring sees.
    pub open spec fn labelled(self, profile: Option<Seq<char>>) -> Seq<char> {
        self.labelled_as(
            match profile {
                Some(profile) => Some(text::debug_form(profile)),
                None => None,
            },
        )
    }

    /// What a person reading their keyring sees, given how the profile's name is
    /// shown.
    pub fn label_as(self, shown: Option<&str>) -> (label: String)
        ensures
            label@ == self.labelled_as(name_view(shown)),
    {
        let mut label = "Cordial: Roblox ".to_owned();
        label.append(self.name());
        if let Some(shown) = shown {
            label.append(" for profile ");
            label.append(shown);
        }
        label
    }

    /// What a person reading their keyring sees: the store and the last part of
    /// the profile's path, and never a value.
    pub fn label(self, profile: Option<&str>) -> (label: String)
        ensures
            label@ == self.labelled(name_view(profile)),
    {
        match profile {
            Some(profile) => self.label_as(Some(debug_text(profile).as_str())),
            None => self.label_as(None),
        }
    }
}

/// Where this instance keeps a session.
#[derive(Clone, Copy, PartialEq, Eq, Debug, Structural)]
pub enum Store {
    /// The desktop's secret service, keyed by profile.
    Keyring,
    /// A file in the profile that only its owner reads, in plaintext.
    File,
    /// Nothing is kept.
    Nowhere,
}

impl Store {
    /// The setting that makes a child process keep this selection.
    pub open spec fn setting(self) -> Seq<char> {
        match self {
            Store::Keyring | Store::Nowhere => "keyring"@,
            Store::File => "file"@,
        }
    }

    /// The setting that makes a child process keep this selection.
    pub fn setting_value(self) -> (value: &'static str)
        ensures
            value@ == self.setting(),
    {
        match self {
            Store::Keyring | Store::Nowhere => "keyring",
            Store::File => "file",
        }
    }
}

/// One bounded, read-only view of a profile's secret.
#[derive(Clone, Copy)]
pub struct SnapshotRequest<'a> {
    pub store: Store,
    pub profile_dir: &'a str,
    pub kind: Kind,
    pub max_bytes: usize,
}

/// A setting that has the service asked whether it can be used.
pub open spec fn asks_the_service(requested: Seq<char>) -> bool {
    requested == "keyring"@ || requested == "auto"@ || requested == ""@
}

/// The store a setting selects and the line that announces it, given what the
/// service says where it is asked.
pub open spec fn decided(
    requested: Seq<char>,
    fallback_file: Seq<char>,
    usable: Result<(), Seq<char>>,
) -> (Store, Seq<char>) {
    decided_as(requested, text::debug_form(requested), fallback_file, usable)
}

/// The store a setting selects and the line that announces it, given how a
/// setting that is none of them is shown.
pub open spec fn decided_as(
    requested: Seq<char>,
    shown: Seq<char>,
    fallback_file: Seq<char>,
    usable: Result<(), Seq<char>>,
) -> (Store, Seq<char>) {
    if requested == "file"@ {
        (
            Store::File,
            "  [secrets] "@ + SETTING@ + "=file: the session is kept in plaintext at "@
                + fallback_file + ", by request"@,
        )
    } else if asks_the_service(requested) {
        match usable {
            Ok(_) => (
                Store::Keyring,
                "  [secrets] the session is kept in the desktop secret service (org.freedesktop.secrets); nothing is written to the profile"@,
            ),
            Err(why) => if requested == "keyring"@ {
                (
                    Store::Nowhere,
                    "  [secrets] "@ + SETTING@ + "=keyring, and "@ + why
                        + ". This session will not be saved; you will sign in again next launch."@,
                )
            } else {
                (
                    Store::File,
                    "  [secrets] "@ + why + ", so the session falls back to a 0600 file at "@
                        + fallback_file
                        + ". Anything that can read your files can take the account. Set "@
                        + SETTING@ + "=keyring to refuse this and stay signed out instead."@,
                )
            },
        }
    } else {
        (
            Store::File,
            "  [secrets] "@ + SETTING@ + "="@ + shown
                + " is not one of auto, keyring, file; treating it as file, which keeps the session in plaintext at "@
                + fallback_file,
        )
    }
}

/// What the service says of itself as a value.
pub open spec fn usable_view(usable: Result<(), String>) -> Result<(), Seq<char>> {
    match usable {
        Ok(_) => Ok(()),
        Err(why) => Err(why@),
    }
}

fn needs_the_service(requested: &str) -> (needs: bool)
    ensures
        needs == asks_the_service(requested@),
{
    same_text(requested, "keyring") || same_text(requested, "auto") || same_text(requested, "")
}

/// The store a setting selects and the line that announces it, given what the
/// service says.
pub fn decide_on(requested: &str, fallback_file: &str, usable: Result<(), String>) -> (choice: (
    Store,
    String,
))
    ensures
        (choice.0, choice.1@) == decided(requested@, fallback_file@, usable_view(usable)),
{
    decide_as(requested, debug_text(requested).as_str(), fallback_file, usable)
}

/// The store a setting selects and the line that announces it, given what the
/// service says. `shown` is the setting as a line shows one that is none of
/// them.
pub fn decide_as(
    requested: &str,
    shown: &str,
    fallback_file: &str,
    usable: Result<(), String>,
) -> (choice: (Store, String))
    ensures
        (choice.0, choice.1@) == decided_as(
            requested@,
            shown@,
            fallback_file@,
            usable_view(usable),
        ),
{
    let mut line = "  [secrets] ".to_owned();
    if same_text(requested, "file") {
        line.append(SETTING);
        line.append("=file: the session is kept in plaintext at ");
        line.append(fallback_file);
        line.append(", by request");
        (Store::File, line)
    } else if needs_the_service(requested) {
        match usable {
            Ok(_) => (
                Store::Keyring,
                "  [secrets] the session is kept in the desktop secret service (org.freedesktop.secrets); nothing is written to the profile".to_owned(),
            ),
            Err(why) => if same_text(requested, "keyring") {
                line.append(SETTING);
                line.append("=keyring, and ");
                line.append(why.as_str());
                line.append(
                    ". This session will not be saved; you will sign in again next launch.",
                );
                (Store::Nowhere, line)
            } else {
                line.append(why.as_str());
                line.append(", so the session falls back to a 0600 file at ");
                line.append(fallback_file);
                line.append(". Anything that can read your files can take the account. Set ");
                line.append(SETTING);
                line.append("=keyring to refuse this and stay signed out instead.");
                (Store::File, line)
            },
        }
    } else {
        line.append(SETTING);
        line.append("=");
        line.append(shown);
        line.append(
            " is not one of auto, keyring, file; treating it as file, which keeps the session in plaintext at ",
        );
        line.append(fallback_file);
        (Store::File, line)
    }
}

/// The store a setting selects and the line that announces it.
///
/// The service is asked through `probe`, and only where the setting leaves it
/// something to say: somebody who does not want a keyring does not wait for one.
pub fn decide<P: FnOnce() -> Result<(), String>>(
    requested: &str,
    fallback_file: &str,
    probe: P,
) -> (choice: (Store, String))
    requires
        asks_the_service(requested@) ==> call_requires(probe, ()),
    ensures
        asks_the_service(requested@) ==> exists|usable: Result<(), String>|
            #[trigger] call_ensures(probe, (), usable) && (choice.0, choice.1@) == decided(
                requested@,
                fallback_file@,
                usable_view(usable),
            ),
        !asks_the_service(requested@) ==> (choice.0, choice.1@) == decided(
            requested@,
            fallback_file@,
            Ok(()),
        ),
{
    if needs_the_service(requested) {
        let usable = probe();
        decide_on(requested, fallback_file, usable)
    } else {
        decide_on(requested, fallback_file, Ok(()))
    }
}

proof fn lemma_settings_differ()
    ensures
        "file"@ != "keyring"@,
        "file"@ != "auto"@,
        "file"@ != ""@,
        "keyring"@ != "auto"@,
        "keyring"@ != ""@,
{
    reveal_strlit("file");
    reveal_strlit("keyring");
    reveal_strlit("auto");
    reveal_strlit("");
    assert("file"@.len() == 4 && "keyring"@.len() == 7 && "auto"@.len() == 4 && ""@.len() == 0);
    assert("file"@[0] == 'f' && "auto"@[0] == 'a');
}

/// Only somebody who asked for the keyring or nothing is left with nothing, and
/// only where the keyring cannot be used. Every other setting, and every
/// machine, has a store.
pub proof fn law_only_keyring_may_keep_nothing(
    requested: Seq<char>,
    fallback_file: Seq<char>,
    usable: Result<(), Seq<char>>,
)
    ensures
        decided(requested, fallback_file, usable).0 == Store::Nowhere <==> requested == "keyring"@
            && usable is Err,
{
    lemma_settings_differ();
}

/// Every outcome is announced, a service that cannot be used with its reason,
/// and a file with where it is.
pub proof fn law_every_outcome_is_announced(
    requested: Seq<char>,
    fallback_file: Seq<char>,
    usable: Result<(), Seq<char>>,
)
    ensures
        decided(requested, fallback_file, usable).1.len() > 0,
        asks_the_service(requested) && usable is Err ==> exists|before: Seq<char>, after: Seq<char>|
            decided(requested, fallback_file, usable).1 == #[trigger] (before + usable->Err_0
                + after),
        decided(requested, fallback_file, usable).0 == Store::File ==> exists|
            before: Seq<char>,
            after: Seq<char>,
        |
            decided(requested, fallback_file, usable).1 == #[trigger] (before + fallback_file
                + after),
{
    lemma_settings_differ();
    reveal_strlit("  [secrets] ");
    assert("  [secrets] "@.len() == 12);
    reveal_strlit(
        "  [secrets] the session is kept in the desktop secret service (org.freedesktop.secrets); nothing is written to the profile",
    );
    let line = decided(requested, fallback_file, usable).1;
    if asks_the_service(requested) && usable is Err {
        let why = usable->Err_0;
        let before = if requested == "keyring"@ {
            "  [secrets] "@ + SETTING@ + "=keyring, and "@
        } else {
            "  [secrets] "@
        };
        let after = line.skip((before.len() + why.len()) as int);
        assert(line =~= before + why + after);
    }
    if decided(requested, fallback_file, usable).0 == Store::File {
        let before = if requested == "file"@ {
            "  [secrets] "@ + SETTING@ + "=file: the session is kept in plaintext at "@
        } else if asks_the_service(requested) {
            "  [secrets] "@ + usable->Err_0 + ", so the session falls back to a 0600 file at "@
        } else {
            "  [secrets] "@ + SETTING@ + "="@ + text::debug_form(requested)
                + " is not one of auto, keyring, file; treating it as file, which keeps the session in plaintext at "@
        };
        let after = line.skip((before.len() + fallback_file.len()) as int);
        assert(line =~= before + fallback_file + after);
    }
}

/// A child that is handed the setting of its parent's store keeps that store:
/// for the same answer of the service it is the same one, and for no answer
/// does a child of a parent that did not use the file use it.
pub proof fn law_a_child_keeps_the_selection(
    requested: Seq<char>,
    fallback_file: Seq<char>,
    usable: Result<(), Seq<char>>,
    usable_later: Result<(), Seq<char>>,
)
    ensures
        ({
            let store = decided(requested, fallback_file, usable).0;
            &&& decided(store.setting(), fallback_file, usable).0 == store
            &&& (decided(store.setting(), fallback_file, usable_later).0 == Store::File) == (store
                == Store::File)
        }),
{
    lemma_settings_differ();
}

/// Whether the service is there and open, given what it answered when asked.
pub fn usable(answer: Answer) -> (usable: Result<(), String>)
    ensures
        match usable {
            Ok(_) => answer is Ok,
            Err(why) => answer == Err::<Option<String>, String>(why),
        },
{
    match answer {
        Ok(_) => Ok(()),
        Err(why) => Err(why),
    }
}

/// How the service tells one profile's session from another's: by the profile's
/// full path, because every root holds a profile of the same name.
pub open spec fn attributes_of(dir: Seq<char>, kind: Kind) -> Seq<(Seq<char>, Seq<char>)> {
    seq![
        ("xdg:schema"@, SCHEMA@),
        ("application"@, "cordial"@),
        ("profile"@, dir),
        ("store"@, kind.named()),
    ]
}

/// A list of names and values as texts.
pub open spec fn pairs(list: Seq<(String, String)>) -> Seq<(Seq<char>, Seq<char>)> {
    list.map_values(|pair: (String, String)| (pair.0@, pair.1@))
}

/// How the service tells one profile's session from another's.
pub fn attributes(dir: &str, kind: Kind) -> (list: Vec<(String, String)>)
    ensures
        pairs(list@) == attributes_of(dir@, kind),
{
    let mut list: Vec<(String, String)> = Vec::new();
    list.push(("xdg:schema".to_owned(), SCHEMA.to_owned()));
    list.push(("application".to_owned(), "cordial".to_owned()));
    list.push(("profile".to_owned(), dir.to_owned()));
    list.push(("store".to_owned(), kind.name().to_owned()));
    assert(pairs(list@) =~= attributes_of(dir@, kind));
    list
}

/// Two profiles cannot read each other's session, nor one store the other's:
/// items that are found alike belong to one path and one kind.
pub proof fn law_two_profiles_share_no_item(a: Seq<char>, ka: Kind, b: Seq<char>, kb: Kind)
    requires
        attributes_of(a, ka) == attributes_of(b, kb),
    ensures
        a == b,
        ka == kb,
{
    reveal_strlit("cookies");
    reveal_strlit("identity");
    assert("cookies"@.len() == 7 && "identity"@.len() == 8);
    assert(attributes_of(a, ka)[2] == attributes_of(b, kb)[2]);
    assert(attributes_of(a, ka)[3] == attributes_of(b, kb)[3]);
}

/// An item to be stored in the service.
pub struct WriteRequest {
    pub attributes: Vec<(String, String)>,
    pub label: String,
    pub body: String,
}

/// The item that stores a body.
pub open spec fn stores(
    request: WriteRequest,
    dir: Seq<char>,
    profile: Option<Seq<char>>,
    kind: Kind,
    body: Seq<char>,
) -> bool {
    &&& pairs(request.attributes@) == attributes_of(dir, kind)
    &&& request.label@ == kind.labelled(profile)
    &&& request.body@ == keyring::encoded(body)
}

/// A profile's name where its path has one.
pub open spec fn name_view(profile: Option<&str>) -> Option<Seq<char>> {
    match profile {
        Some(profile) => Some(profile@),
        None => None,
    }
}

/// The item that stores a body.
pub fn write_request(dir: &str, profile: Option<&str>, kind: Kind, body: &str) -> (request:
    WriteRequest)
    ensures
        stores(request, dir@, name_view(profile), kind, body@),
{
    WriteRequest {
        attributes: attributes(dir, kind),
        label: kind.label(profile),
        body: encode_keyring(body),
    }
}

/// What saving a body takes.
pub enum SaveStep {
    /// Nothing is kept, and that is no failure.
    Nothing,
    /// Perform these.
    Files(Vec<FileStep>),
    /// Have the service store this.
    Service(WriteRequest),
}

/// What saving a body takes.
pub fn save(store: Store, dir: &str, profile: Option<&str>, kind: Kind, body: &str) -> (step:
    SaveStep)
    ensures
        match store {
            Store::Nowhere => step is Nothing,
            Store::File => step is Files && file::writes(
                step->Files_0@,
                text::joined(dir@, kind.named()),
                body@,
            ),
            Store::Keyring => step is Service && stores(
                step->Service_0,
                dir@,
                name_view(profile),
                kind,
                body@,
            ),
        },
{
    match store {
        Store::Nowhere => SaveStep::Nothing,
        Store::File => SaveStep::Files(write_private(dir, kind.name(), body)),
        Store::Keyring => SaveStep::Service(write_request(dir, profile, kind, body)),
    }
}

/// What removing a body takes: the steps on the disk, then the items the
/// service removes. Absent is success.
pub struct Erasure {
    pub files: Vec<FileStep>,
    pub service: Option<Vec<(String, String)>>,
}

/// What removing a body takes. `present` is the length of the plaintext file,
/// where there is one; it is destroyed whatever the store.
pub fn erase(store: Store, dir: &str, kind: Kind, present: Option<u64>) -> (erasure: Erasure)
    ensures
        match present {
            Some(len) => file::destroys(
                erasure.files@,
                text::joined(dir@, kind.named()),
                len as int,
            ),
            None => erasure.files@.len() == 0,
        },
        match erasure.service {
            Some(list) => store == Store::Keyring && pairs(list@) == attributes_of(dir@, kind),
            None => store != Store::Keyring,
        },
{
    let files = match present {
        Some(len) => shred(join_path(dir, kind.name()).as_str(), len),
        None => Vec::new(),
    };
    let service = match store {
        Store::Keyring => Some(attributes(dir, kind)),
        _ => None,
    };
    Erasure { files, service }
}

/// Where a session is kept, in words.
pub open spec fn kept_at(store: Store, dir: Seq<char>, kind: Kind) -> Seq<char> {
    match store {
        Store::Keyring => "the desktop secret service"@,
        Store::File => text::joined(dir, kind.named()),
        Store::Nowhere => "nowhere; this session is not being saved"@,
    }
}

/// Where a session is kept, for a startup line to name.
pub fn where_kept(store: Store, dir: &str, kind: Kind) -> (place: String)
    ensures
        place@ == kept_at(store, dir@, kind),
{
    match store {
        Store::Keyring => "the desktop secret service".to_owned(),
        Store::File => join_path(dir, kind.name()),
        Store::Nowhere => "nowhere; this session is not being saved".to_owned(),
    }
}

/// What reading a body back begins with.
pub enum LoadStep {
    /// Nothing is read. Where the file is there, say so.
    Ignore { path: String },
    /// Read this file as text; one that cannot be read is nothing saved.
    ReadFile { path: String },
    /// Take the file into the service, and where there is none ask the service.
    Adopt { path: String },
}

/// What reading a body back begins with.
pub fn load(store: Store, dir: &str, kind: Kind) -> (step: LoadStep)
    ensures
        match store {
            Store::Nowhere => step matches LoadStep::Ignore { path } && path@ == text::joined(
                dir@,
                kind.named(),
            ),
            Store::File => step matches LoadStep::ReadFile { path } && path@ == text::joined(
                dir@,
                kind.named(),
            ),
            Store::Keyring => step matches LoadStep::Adopt { path } && path@ == text::joined(
                dir@,
                kind.named(),
            ),
        },
{
    let path = join_path(dir, kind.name());
    match store {
        Store::Nowhere => LoadStep::Ignore { path },
        Store::File => LoadStep::ReadFile { path },
        Store::Keyring => LoadStep::Adopt { path },
    }
}

/// What is said of a plaintext file that is there and is not read.
pub fn ignored_line(kind: Kind, path: &str) -> (line: String)
    ensures
        line@ == "  [secrets] "@ + kind.named() + " is present in plaintext at "@ + path@
            + " and is being ignored, because "@ + SETTING@
            + "=keyring. Delete it if you no longer want it there."@,
{
    let mut line = "  [secrets] ".to_owned();
    line.append(kind.name());
    line.append(" is present in plaintext at ");
    line.append(path);
    line.append(" and is being ignored, because ");
    line.append(SETTING);
    line.append("=keyring. Delete it if you no longer want it there.");
    line
}

/// What the service's answer to a read amounts to: a body or nothing, and a
/// line where it failed.
pub open spec fn loaded_of(kind: Kind, answer: Result<Option<Seq<char>>, Seq<char>>) -> (
    Option<Seq<char>>,
    Option<Seq<char>>,
) {
    match keyring::read_out(answer) {
        Ok(body) => (body, None),
        Err(why) => (
            None,
            Some(
                "  [secrets] "@ + kind.named() + ": not read back ("@ + why + "); signed out"@,
            ),
        ),
    }
}

/// Texts that may be absent, as values.
pub open spec fn option_view(text: Option<String>) -> Option<Seq<char>> {
    match text {
        Some(text) => Some(text@),
        None => None,
    }
}

/// What the service's answer to a read amounts to: a body or nothing, and a
/// line where it failed. A failure is signed out and not an error.
pub fn loaded(kind: Kind, answer: Answer) -> (body: (Option<String>, Option<String>))
    ensures
        (option_view(body.0), option_view(body.1)) == loaded_of(
            kind,
            keyring::answer_view(answer),
        ),
{
    match read_keyring(answer) {
        Ok(body) => (body, None),
        Err(why) => {
            let mut line = "  [secrets] ".to_owned();
            line.append(kind.name());
            line.append(": not read back (");
            line.append(why.as_str());
            line.append("); signed out");
            (None, Some(line))
        },
    }
}

/// What a snapshot does next.
pub enum SnapshotStep {
    /// Read up to that many bytes of this file.
    ReadFile { path: String, limit: u64 },
    /// Ask the service for the item with these attributes.
    AskService(Vec<(String, String)>),
    /// Nothing more is read.
    Done(Option<Vec<u8>>),
}

/// What a snapshot reads first. A store that keeps nothing is not looked at.
pub fn snapshot(request: &SnapshotRequest<'_>) -> (step: SnapshotStep)
    ensures
        match request.store {
            Store::Nowhere => step == SnapshotStep::Done(None),
            _ => step matches SnapshotStep::ReadFile { path, limit } && path@ == text::joined(
                request.profile_dir@,
                request.kind.named(),
            ) && limit == file::limit_of(request.max_bytes as int),
        },
{
    match request.store {
        Store::Nowhere => SnapshotStep::Done(None),
        _ => SnapshotStep::ReadFile {
            path: join_path(request.profile_dir, request.kind.name()),
            limit: read_limit(request.max_bytes),
        },
    }
}

/// What a snapshot does once the file was read: a file within the bound is the
/// snapshot, a larger one is none, and where there is none a keyring store asks
/// the service.
pub fn snapshot_read(request: &SnapshotRequest<'_>, found: BoundedRead) -> (step: SnapshotStep)
    ensures
        match found {
            BoundedRead::Present(bytes) => request.store != Store::Nowhere ==> step
                == SnapshotStep::Done(Some(bytes)),
            BoundedRead::TooLarge => step == SnapshotStep::Done(None),
            BoundedRead::Unavailable => request.store != Store::Keyring ==> step
                == SnapshotStep::Done(None),
        },
        request.store == Store::Nowhere ==> step == SnapshotStep::Done(None),
        request.store == Store::Keyring && found is Unavailable ==> step is AskService && pairs(
            step->AskService_0@,
        ) == attributes_of(request.profile_dir@, request.kind),
{
    match (request.store, found) {
        (Store::Nowhere, _) => SnapshotStep::Done(None),
        (_, BoundedRead::Present(bytes)) => SnapshotStep::Done(Some(bytes)),
        (Store::Keyring, BoundedRead::Unavailable) => {
            SnapshotStep::AskService(attributes(request.profile_dir, request.kind))
        },
        (_, _) => SnapshotStep::Done(None),
    }
}

/// The snapshot an answer of the service gives: its body within the bound, and
/// nothing for an error.
pub open spec fn snapshot_of_answer(
    answer: Result<Option<Seq<char>>, Seq<char>>,
    max_bytes: int,
) -> Option<Seq<u8>> {
    match keyring::read_out(answer) {
        Ok(Some(body)) => if encode_utf8(body).len() <= max_bytes {
            Some(encode_utf8(body))
        } else {
            None
        },
        _ => None,
    }
}

/// Bytes that may be absent, as values.
pub open spec fn bytes_view(bytes: Option<Vec<u8>>) -> Option<Seq<u8>> {
    match bytes {
        Some(bytes) => Some(bytes@),
        None => None,
    }
}

/// The snapshot an answer of the service gives.
pub fn snapshot_answered(request: &SnapshotRequest<'_>, answer: Answer) -> (bytes: Option<Vec<u8>>)
    ensures
        bytes_view(bytes) == snapshot_of_answer(
            keyring::answer_view(answer),
            request.max_bytes as int,
        ),
{
    match read_keyring(answer) {
        Ok(Some(body)) => {
            let bytes = vstd::slice::slice_to_vec(body.as_str().as_bytes());
            if bytes.len() <= request.max_bytes {
                Some(bytes)
            } else {
                None
            }
        },
        _ => None,
    }
}

/// What a snapshot of a store is, given what the file holds, where it can be
/// read, and what the service answers.
pub open spec fn snapshot_taken(
    store: Store,
    file: Option<Seq<u8>>,
    answer: Result<Option<Seq<char>>, Seq<char>>,
    max_bytes: int,
) -> Option<Seq<u8>> {
    match (store, file::bounded(file, max_bytes)) {
        (Store::Nowhere, _) => None,
        (_, Some(Ok(bytes))) => Some(bytes),
        (_, Some(Err(_))) => None,
        (Store::File, None) => None,
        (Store::Keyring, None) => snapshot_of_answer(answer, max_bytes),
    }
}

/// The profile's file was read within its bound and is no snapshot: it is not
/// there, cannot be read, or is not text.
pub open spec fn leaves_it_to_the_service<R: FnOnce(String, u64) -> Option<Vec<u8>>>(
    read: R,
    request: SnapshotRequest<'_>,
) -> bool {
    exists|path: String, limit: u64, found: Option<Vec<u8>>|
        #[trigger] call_ensures(read, (path, limit), found) && path@ == text::joined(
            request.profile_dir@,
            request.kind.named(),
        ) && limit == file::limit_of(request.max_bytes as int) && file::bounded(
            bytes_view(found),
            request.max_bytes as int,
        ) is None
}

/// Take a snapshot: `read` reads up to a number of bytes of a file, or nothing
/// where it cannot, and `ask` asks the service for an item.
///
/// Storage is not changed, and no more of it is looked at than the store and
/// what was found so far ask for. Missing, locked, malformed and oversized
/// values are all nothing.
pub fn snapshot_with<
    R: FnOnce(String, u64) -> Option<Vec<u8>>,
    A: FnOnce(Vec<(String, String)>) -> Answer,
>(request: &SnapshotRequest<'_>, read: R, ask: A) -> (bytes: Option<Vec<u8>>)
    requires
        request.store != Store::Nowhere ==> forall|path: String, limit: u64|
            path@ == text::joined(request.profile_dir@, request.kind.named()) && limit
                == file::limit_of(request.max_bytes as int) ==> #[trigger] call_requires(
                read,
                (path, limit),
            ),
        request.store == Store::Keyring ==> forall|attributes: Vec<(String, String)>|
            leaves_it_to_the_service(read, *request) && pairs(attributes@) == attributes_of(
                request.profile_dir@,
                request.kind,
            ) ==> #[trigger] call_requires(ask, (attributes,)),
    ensures
        request.store == Store::Nowhere ==> bytes is None,
        request.store != Store::Nowhere ==> exists|path: String, limit: u64, found: Option<Vec<u8>>|
            #[trigger] call_ensures(read, (path, limit), found) && path@ == text::joined(
                request.profile_dir@,
                request.kind.named(),
            ) && limit == file::limit_of(request.max_bytes as int) && if request.store
                == Store::Keyring && file::bounded(
                bytes_view(found),
                request.max_bytes as int,
            ) is None {
                exists|attributes: Vec<(String, String)>, answer: Answer|
                    #[trigger] call_ensures(ask, (attributes,), answer) && pairs(attributes@)
                        == attributes_of(request.profile_dir@, request.kind) && bytes_view(bytes)
                        == snapshot_of_answer(
                        keyring::answer_view(answer),
                        request.max_bytes as int,
                    )
            } else {
                bytes_view(bytes) == snapshot_taken(
                    request.store,
                    bytes_view(found),
                    Ok(None),
                    request.max_bytes as int,
                )
            },
{
    match snapshot(request) {
        SnapshotStep::ReadFile { path, limit } => {
            let found = read(path, limit);
            let ghost seen = found;
            match snapshot_read(request, read_bounded(found, request.max_bytes)) {
                SnapshotStep::AskService(attributes) => {
                    assert(call_ensures(read, (path, limit), seen));
                    let answer = ask(attributes);
                    assert(call_ensures(ask, (attributes,), answer));
                    snapshot_answered(request, answer)
                },
                SnapshotStep::Done(bytes) => {
                    assert(call_ensures(read, (path, limit), seen));
                    bytes
                },
                _ => None,
            }
        },
        SnapshotStep::Done(bytes) => bytes,
        _ => None,
    }
}

/// What reading a body back for a launch gives, given what the file holds, where
/// it can be read, and what the service answers: the file where the store is
/// the file or the file is readable, and the service otherwise.
pub open spec fn body_loaded(
    store: Store,
    kind: Kind,
    file: Option<Seq<u8>>,
    answer: Result<Option<Seq<char>>, Seq<char>>,
) -> Option<Seq<char>> {
    let text = match file {
        Some(bytes) => if valid_utf8(bytes) {
            Some(decode_utf8(bytes))
        } else {
            None
        },
        None => None,
    };
    match store {
        Store::Nowhere => None,
        Store::File => text,
        Store::Keyring => match text {
            Some(body) => Some(body),
            None => loaded_of(kind, answer).0,
        },
    }
}

/// What is saved is what the next launch reads, in either store, and a store
/// that keeps nothing gives nothing.
pub proof fn law_what_is_saved_is_read_back(
    disk: file::Disk,
    steps: Seq<FileStep>,
    request: WriteRequest,
    dir: Seq<char>,
    profile: Option<Seq<char>>,
    kind: Kind,
    body: Seq<char>,
    answer: Result<Option<Seq<char>>, Seq<char>>,
)
    requires
        file::writes(steps, text::joined(dir, kind.named()), body),
        stores(request, dir, profile, kind, body),
    ensures
        body_loaded(
            Store::File,
            kind,
            Some(file::after(disk, steps, steps.len() as int)[text::joined(dir, kind.named())].bytes),
            answer,
        ) == Some(body),
        body_loaded(Store::Keyring, kind, None, Ok(Some(request.body@))) == Some(body),
        body_loaded(Store::Nowhere, kind, None, answer) is None,
{
    file::law_a_write_is_whole(disk, steps, text::joined(dir, kind.named()), body);
    keyring::law_a_session_survives_the_round_trip(body);
    encode_utf8_valid_utf8(body);
    encode_utf8_decode_utf8(body);
}

/// Once a body is erased nothing reads it: its file is gone from the disk, and
/// with no file and no item every store is signed out.
pub proof fn law_an_erased_session_is_gone(
    disk: file::Disk,
    steps: Seq<FileStep>,
    store: Store,
    dir: Seq<char>,
    kind: Kind,
    len: int,
)
    requires
        0 <= len,
        file::destroys(steps, text::joined(dir, kind.named()), len),
        disk.contains_key(text::joined(dir, kind.named())),
        disk[text::joined(dir, kind.named())].bytes.len() == len,
    ensures
        !file::after(disk, steps, steps.len() as int).contains_key(
            text::joined(dir, kind.named()),
        ),
        body_loaded(store, kind, None, Ok(None)) is None,
{
    file::law_erasing_overwrites_before_unlinking(
        disk,
        steps,
        text::joined(dir, kind.named()),
        len,
    );
}

/// A snapshot never exceeds its bound, and where there is one it is exactly
/// what reading the body back for a launch would give: the plaintext file has
/// the same precedence, and nothing is invented. A body that a launch would
/// read and that fits has a snapshot, unless a file past the bound hides it.
pub proof fn law_a_snapshot_is_what_a_launch_would_read(
    store: Store,
    kind: Kind,
    file: Option<Seq<u8>>,
    answer: Result<Option<Seq<char>>, Seq<char>>,
    max_bytes: int,
)
    ensures
        match snapshot_taken(store, file, answer, max_bytes) {
            Some(bytes) => bytes.len() <= max_bytes && valid_utf8(bytes) && body_loaded(
                store,
                kind,
                file,
                answer,
            ) == Some(decode_utf8(bytes)),
            None => match body_loaded(store, kind, file, answer) {
                Some(body) => encode_utf8(body).len() > max_bytes || (file is Some
                    && file->0.len() > max_bytes),
                None => true,
            },
        },
{
    match keyring::read_out(answer) {
        Ok(Some(body)) => {
            encode_utf8_valid_utf8(body);
            encode_utf8_decode_utf8(body);
        },
        _ => {},
    }
}

} // verus!
