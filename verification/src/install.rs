//! Which Roblox build is started: where its archive comes from, where its
//! engine is, and what has to happen before there is one.

pub mod extraction;
pub mod laws;

use vstd::prelude::*;
use vstd::string::*;

use self::extraction::ExtractStep;
use crate::order::{self, sort};
use crate::text::{
    self, chars_of, has_prefix, join_path, lowers_to, same_text, to_decimal,
};

verus! {

broadcast use vstd::string::group_string_axioms;

/// The engine.
pub const LIBRARY: &'static str = "libroblox.so";

/// Points one run at an archive without touching the saved settings.
pub const APK_OVERRIDE: &'static str = "CORDIAL_APK";

/// What the user has chosen by hand, if anything. A value here is honoured over
/// anything that would otherwise be found.
#[derive(Debug, PartialEq, Eq)]
pub struct RobloxInstall {
    pub apk: Option<String>,
    pub lib_dir: Option<String>,
}

impl Default for RobloxInstall {
    fn default() -> (install: RobloxInstall)
        ensures
            install.apk is None,
            install.lib_dir is None,
    {
        RobloxInstall { apk: None, lib_dir: None }
    }
}

/// A build that has been found: its archive and the directory of its engine.
#[derive(Debug, PartialEq, Eq)]
pub struct Build {
    pub apk: String,
    pub lib_dir: String,
}

/// Why a launch cannot proceed, split by what the user can do about it.
#[derive(Debug)]
pub enum NotFound {
    /// There is no archive anywhere: a first run rather than a fault.
    NoBuild,
    /// There is one, and getting a build out of it did not work.
    Unusable(String),
}

/// Where an archive came from.
#[derive(Debug, Clone, Copy, PartialEq, Eq, Structural)]
pub enum Origin {
    Environment,
    Chosen,
    /// Cordial downloaded it and put it there.
    Managed,
    Sober,
}

impl Origin {
    /// Why Cordial will not replace a build, where it will not.
    pub open spec fn reason(self) -> Option<Seq<char>> {
        match self {
            Origin::Managed => None,
            Origin::Environment => Some(
                "CORDIAL_APK names the build for this run, so Cordial will not replace it."@,
            ),
            Origin::Chosen => Some(
                "You chose this APK, so Cordial will not replace it. Clear it on the Roblox page to let Cordial manage a build instead."@,
            ),
            Origin::Sober => Some(
                "This build belongs to Sober and Cordial will not write to it. Download one and Cordial will manage its own copy."@,
            ),
        }
    }

    /// Whether Cordial may replace this build with a newer one: only its own.
    pub fn updatable(self) -> (updatable: bool)
        ensures
            updatable == (self == Origin::Managed),
            updatable == (self.reason() is None),
    {
        match self {
            Origin::Managed => true,
            _ => false,
        }
    }

    /// Why not, for the one line the Updates page shows.
    pub fn why_not_updatable(self) -> (why: Option<&'static str>)
        ensures
            match why {
                Some(why) => self.reason() == Some(why@),
                None => self.reason() is None,
            },
    {
        match self {
            Origin::Managed => None,
            Origin::Environment => Some(
                "CORDIAL_APK names the build for this run, so Cordial will not replace it.",
            ),
            Origin::Chosen => Some(
                "You chose this APK, so Cordial will not replace it. Clear it on the Roblox page to let Cordial manage a build instead.",
            ),
            Origin::Sober => Some(
                "This build belongs to Sober and Cordial will not write to it. Download one and Cordial will manage its own copy.",
            ),
        }
    }

    /// Where an archive came from, in words.
    pub fn describe(self) -> (said: &'static str)
        ensures
            said@ == (match self {
                Origin::Environment => "Set by CORDIAL_APK for this run only"@,
                Origin::Chosen => "Chosen in Settings"@,
                Origin::Managed => "Downloaded by Cordial"@,
                Origin::Sober => "Found in Sober's download (org.vinegarhq.Sober), which Cordial does not manage"@,
            }),
    {
        match self {
            Origin::Environment => "Set by CORDIAL_APK for this run only",
            Origin::Chosen => "Chosen in Settings",
            Origin::Managed => "Downloaded by Cordial",
            Origin::Sober => {
                "Found in Sober's download (org.vinegarhq.Sober), which Cordial does not manage"
            },
        }
    }
}

/// Sober's copy of the archive under a home directory, for a machine's ABI.
pub fn sober_apk_under(home: &str, abi: &str) -> (path: String)
    ensures
        path@ == text::joined(
            home@,
            ".var/app/org.vinegarhq.Sober/data/sober/packages/"@ + abi@
                + "/com.roblox.client/base.apk"@,
        ),
{
    let mut under = ".var/app/org.vinegarhq.Sober/data/sober/packages/".to_owned();
    under.append(abi);
    under.append("/com.roblox.client/base.apk");
    join_path(home, under.as_str())
}

/// Where Sober's copy of the archive is looked for.
pub fn sober_apk(home: Option<&str>, temp_dir: &str, abi: &str) -> (path: String)
    ensures
        path@ == text::joined(
            match home {
                Some(home) => home@,
                None => temp_dir@,
            },
            ".var/app/org.vinegarhq.Sober/data/sober/packages/"@ + abi@
                + "/com.roblox.client/base.apk"@,
        ),
{
    match home {
        Some(home) => sober_apk_under(home, abi),
        None => sober_apk_under(temp_dir, abi),
    }
}

/// Where the extracted engine is kept.
pub open spec fn cache_path(
    xdg_cache_home: Option<Seq<char>>,
    home: Option<Seq<char>>,
    temp_dir: Seq<char>,
    abi: Seq<char>,
) -> Seq<char> {
    let base = match (xdg_cache_home, home) {
        (Some(cache), _) => cache,
        (None, Some(home)) => text::joined(home, ".cache"@),
        (None, None) => temp_dir,
    };
    text::joined(text::joined(base, "cordial/lib"@), abi)
}

/// Where the extracted engine is kept.
pub fn engine_cache(
    xdg_cache_home: Option<&str>,
    home: Option<&str>,
    temp_dir: &str,
    abi: &str,
) -> (path: String)
    ensures
        path@ == cache_path(
            crate::secrets::name_view(xdg_cache_home),
            crate::secrets::name_view(home),
            temp_dir@,
            abi@,
        ),
{
    let base = match (xdg_cache_home, home) {
        (Some(cache), _) => cache.to_owned(),
        (None, Some(home)) => join_path(home, ".cache"),
        (None, None) => temp_dir.to_owned(),
    };
    join_path(join_path(base.as_str(), "cordial/lib").as_str(), abi)
}

/// The engine's place in an archive, for an ABI.
pub open spec fn library_place(abi: Seq<char>) -> Seq<char> {
    "lib/"@ + abi + "/"@ + LIBRARY@
}

/// The engine's place in an archive, for an ABI.
pub fn library_in_apk(abi: &str) -> (place: String)
    ensures
        place@ == library_place(abi@),
{
    let mut place = "lib/".to_owned();
    place.append(abi);
    place.append("/");
    place.append(LIBRARY);
    place
}

/// Where an archive may come from, besides the settings.
pub struct Sources {
    /// The value of [`APK_OVERRIDE`], where it is set.
    pub environment: Option<String>,
    /// The archive Cordial downloaded, where there is one.
    pub managed: Option<String>,
    /// Where Sober's copy would be.
    pub sober: String,
    /// Whether Sober's copy is there.
    pub sober_is_file: bool,
}

/// The archive that is used and where it came from: what the environment says,
/// then what was chosen, then what Cordial downloaded, then what happens to be
/// there.
pub open spec fn effective(configured: RobloxInstall, sources: Sources) -> Option<(
    Seq<char>,
    Origin,
)> {
    if sources.environment is Some {
        Some(((sources.environment->0)@, Origin::Environment))
    } else if configured.apk is Some {
        Some(((configured.apk->0)@, Origin::Chosen))
    } else if sources.managed is Some {
        Some(((sources.managed->0)@, Origin::Managed))
    } else if sources.sober_is_file {
        Some((sources.sober@, Origin::Sober))
    } else {
        None
    }
}

/// The archive that is used and where it came from. Nothing means that there is
/// nothing to launch.
pub fn effective_apk(configured: &RobloxInstall, sources: &Sources) -> (found: Option<(
    String,
    Origin,
)>)
    ensures
        match found {
            Some((apk, origin)) => effective(*configured, *sources) == Some((apk@, origin)),
            None => effective(*configured, *sources) is None,
        },
{
    if let Some(apk) = &sources.environment {
        return Some((apk.clone(), Origin::Environment));
    }
    if let Some(apk) = &configured.apk {
        return Some((apk.clone(), Origin::Chosen));
    }
    if let Some(apk) = &sources.managed {
        return Some((apk.clone(), Origin::Managed));
    }
    if sources.sober_is_file {
        Some((sources.sober.clone(), Origin::Sober))
    } else {
        None
    }
}

/// A build Cordial keeps: its version, its directory, and its archive where it
/// was kept too.
pub struct StoreEntry {
    pub version: String,
    pub dir: String,
    pub base_apk: Option<String>,
}

/// The first entry of a version.
pub open spec fn is_entry_of(entries: Seq<StoreEntry>, version: Seq<char>, i: int) -> bool {
    &&& 0 <= i < entries.len()
    &&& entries[i].version@ == version
    &&& forall|j: int| 0 <= j < i ==> (#[trigger] entries[j]).version@ != version
}

/// The first entry of a version, where there is one.
pub open spec fn entry_of(entries: Seq<StoreEntry>, version: Seq<char>) -> Option<StoreEntry> {
    if exists|i: int| is_entry_of(entries, version, i) {
        Some(entries[choose|i: int| is_entry_of(entries, version, i)])
    } else {
        None
    }
}

proof fn lemma_entry_of(entries: Seq<StoreEntry>, version: Seq<char>, i: int)
    requires
        is_entry_of(entries, version, i),
    ensures
        entry_of(entries, version) == Some(entries[i]),
{
    let k = choose|k: int| is_entry_of(entries, version, k);
    assert(is_entry_of(entries, version, k));
    assert(k == i);
}

/// What is said where a pinned build is not kept.
pub open spec fn unkept_text(version: Seq<char>) -> Seq<char> {
    "This profile is pinned to Roblox "@ + version
        + ", and that build is not in Cordial's store. Open Settings and choose another version, or clear the pin to follow whichever build is current."@
}

/// What is said where a pinned build is kept without its archive.
pub open spec fn incomplete_text(version: Seq<char>) -> Seq<char> {
    "This profile is pinned to Roblox "@ + version
        + ", and Cordial kept that build's engine without the APK it came from -- so its assets are gone and it cannot be run on its own. Clear the pin, or pin a build Cordial has downloaded since."@
}

/// Swap in the build a profile has pinned, where it has pinned one: its archive
/// and its engine both, or neither. A pinned build that is not there is
/// refused, never replaced by the one the profile was pinned away from.
pub fn apply_pin(build: Build, pinned: Option<&str>, entries: &Vec<StoreEntry>) -> (applied: Result<
    Build,
    NotFound,
>)
    ensures
        match pinned {
            None => applied == Ok::<Build, NotFound>(build),
            Some(version) => match entry_of(entries@, version@) {
                None => applied matches Err(NotFound::Unusable(why)) && why@ == unkept_text(
                    version@,
                ),
                Some(entry) => match entry.base_apk {
                    None => applied matches Err(NotFound::Unusable(why)) && why@
                        == incomplete_text(version@),
                    Some(apk) => applied matches Ok(kept) && kept.apk@ == apk@ && kept.lib_dir@
                        == entry.dir@,
                },
            },
        },
{
    let version = match pinned {
        Some(version) => version,
        None => return Ok(build),
    };
    let mut i: usize = 0;
    while i < entries.len()
        invariant
            0 <= i <= entries@.len(),
            pinned == Some(version),
            forall|j: int| 0 <= j < i ==> (#[trigger] entries@[j]).version@ != version@,
        decreases entries@.len() - i,
    {
        if same_text(entries[i].version.as_str(), version) {
            proof {
                lemma_entry_of(entries@, version@, i as int);
            }
            match &entries[i].base_apk {
                Some(apk) => {
                    let kept = Build { apk: apk.clone(), lib_dir: entries[i].dir.clone() };
                    return Ok(kept);
                },
                None => {
                    let mut why = "This profile is pinned to Roblox ".to_owned();
                    why.append(version);
                    why.append(
                        ", and Cordial kept that build's engine without the APK it came from -- so its assets are gone and it cannot be run on its own. Clear the pin, or pin a build Cordial has downloaded since.",
                    );
                    return Err(NotFound::Unusable(why));
                },
            }
        }
        i = i + 1;
    }
    let mut why = "This profile is pinned to Roblox ".to_owned();
    why.append(version);
    why.append(
        ", and that build is not in Cordial's store. Open Settings and choose another version, or clear the pin to follow whichever build is current.",
    );
    assert forall|k: int| !is_entry_of(entries@, version@, k) by {
    }
    Err(NotFound::Unusable(why))
}

/// A text is another but for the case of ASCII letters.
pub open spec fn same_but_for_case(a: Seq<char>, b: Seq<char>) -> bool {
    text::ascii_lowered(a) == text::ascii_lowered(b)
}

/// Whether an archive was already found to be signed by one of the pinned
/// certificates.
pub fn signer_is_known(recorded: Option<&str>, pinned: &Vec<String>) -> (known: bool)
    ensures
        known == (recorded is Some && exists|i: int|
            0 <= i < pinned@.len() && same_but_for_case(
                (#[trigger] pinned@[i])@,
                (recorded->0)@,
            )),
{
    let mark = match recorded {
        Some(mark) => mark,
        None => return false,
    };
    let chars = chars_of(mark);
    let mut lowered = String::new();
    let mut k: usize = 0;
    while k < chars.len()
        invariant
            0 <= k <= chars@.len(),
            chars@ == mark@,
            lowered@ == text::ascii_lowered(mark@.take(k as int)),
        decreases chars@.len() - k,
    {
        lowered.push(text::to_ascii_lower(chars[k]));
        k = k + 1;
        assert(mark@.take(k as int) =~= mark@.take(k - 1).push(chars@[k - 1]));
        assert(lowered@ =~= text::ascii_lowered(mark@.take(k as int)));
    }
    assert(mark@.take(k as int) =~= mark@);
    let mut i: usize = 0;
    while i < pinned.len()
        invariant
            0 <= i <= pinned@.len(),
            recorded == Some(mark),
            lowered@ == text::ascii_lowered(mark@),
            forall|j: int|
                0 <= j < i ==> !same_but_for_case((#[trigger] pinned@[j])@, mark@),
        decreases pinned@.len() - i,
    {
        let one = chars_of(pinned[i].as_str());
        assert(one@.subrange(0, one@.len() as int) =~= pinned@[i as int]@);
        if lowers_to(&one, 0, one.len(), lowered.as_str()) {
            return true;
        }
        i = i + 1;
    }
    false
}

/// Where an archive and its engine may be.
pub struct Place {
    /// The directory the archive is in.
    pub apk_dir: Option<String>,
    pub cache: String,
    pub abi: String,
}

/// An archive that is looked into, and where its engine may be.
pub struct Search {
    pub apk: String,
    /// The directory the archive is in.
    pub apk_dir: Option<String>,
    /// The engine directory that was chosen, where one was.
    pub lib_dir: Option<String>,
    pub cache: String,
    pub abi: String,
}

/// A search for the archive that is used, in this place.
pub open spec fn seeks(
    search: Search,
    configured: RobloxInstall,
    sources: Sources,
    place: Place,
) -> bool {
    &&& effective(configured, sources) is Some
    &&& search.apk@ == (effective(configured, sources)->0).0
    &&& search.apk_dir == place.apk_dir
    &&& search.cache == place.cache
    &&& search.abi == place.abi
    &&& crate::secrets::option_view(search.lib_dir) == crate::secrets::option_view(
        configured.lib_dir,
    )
}

/// What is said where the archive has gone away.
pub open spec fn no_apk_text(apk: Seq<char>) -> Seq<char> {
    "No APK at "@ + apk
        + ". Open Settings and choose one, or clear it to let Cordial look again."@
}

/// What is said of an archive that Roblox did not sign.
pub open spec fn unsigned_text(apk: Seq<char>, e: Seq<char>) -> Seq<char> {
    "Cordial will not run "@ + apk + ": "@ + e
        + ".\n\nThis is the archive Cordial was pointed at, not one it downloaded. Clear the APK in Settings to let Cordial find or fetch a build it can check."@
}

/// What is said where a directory that was chosen holds no engine.
pub open spec fn no_library_text(dir: Seq<char>) -> Seq<char> {
    "No "@ + LIBRARY@ + " in "@ + dir
        + ". Open Settings and clear the engine directory to let Cordial extract one."@
}

/// Which directories hold the engine, and whether the cached one came from this
/// archive.
#[derive(Clone, Copy)]
pub struct EngineFacts {
    /// The chosen directory does.
    pub chosen: bool,
    /// The directory beside the archive does.
    pub beside: bool,
    /// The cache does.
    pub cached: bool,
    /// What the cache holds came from this archive as it is now.
    pub current: bool,
}

/// What is done for an engine.
pub enum EngineStep {
    /// There is one here.
    Use(Build),
    /// The cached one is used, and kept in the store.
    UseCached(Build),
    /// It has to be extracted. A cache from another build is reported.
    Extract { stale: Option<String> },
    Fail(NotFound),
}

/// Where an engine comes from, as a value.
pub enum EngineChoice {
    /// This directory holds it.
    Here(Seq<char>),
    /// The cache holds it.
    Cached,
    /// It is extracted into the cache.
    Extract,
    /// The directory that was chosen does not hold it.
    Missing(Seq<char>),
}

impl Search {
    /// Begin with the archive that is used, where there is one.
    pub fn begin(configured: &RobloxInstall, sources: &Sources, place: Place) -> (search: Result<
        Search,
        NotFound,
    >)
        ensures
            match search {
                Ok(search) => seeks(search, *configured, *sources, place),
                Err(why) => effective(*configured, *sources) is None && why is NoBuild,
            },
    {
        match effective_apk(configured, sources) {
            None => Err(NotFound::NoBuild),
            Some((apk, _)) => {
                let lib_dir = match &configured.lib_dir {
                    Some(lib_dir) => Some(lib_dir.clone()),
                    None => None,
                };
                Ok(
                    Search {
                        apk,
                        apk_dir: place.apk_dir,
                        lib_dir,
                        cache: place.cache,
                        abi: place.abi,
                    },
                )
            },
        }
    }

    /// The directory beside the archive that a build may bring its engine in.
    pub open spec fn beside(self) -> Option<Seq<char>> {
        match self.apk_dir {
            Some(dir) => Some(text::joined(text::joined(dir@, "lib"@), self.abi@)),
            None => None,
        }
    }

    /// The directory beside the archive that a build may bring its engine in.
    pub fn beside_dir(&self) -> (dir: Option<String>)
        ensures
            crate::secrets::option_view(dir) == self.beside(),
    {
        match &self.apk_dir {
            Some(dir) => Some(
                join_path(join_path(dir.as_str(), "lib").as_str(), self.abi.as_str()),
            ),
            None => None,
        }
    }

    /// Whether the archive is there. One that was configured and has gone away
    /// is reported rather than ignored.
    pub fn found(self, is_file: bool) -> (found: Result<Present, NotFound>)
        ensures
            match found {
                Ok(present) => is_file && present.archive() == self,
                Err(why) => !is_file && (why matches NotFound::Unusable(said) && said@
                    == no_apk_text(self.apk@)),
            },
    {
        if is_file {
            Ok(Present { search: self })
        } else {
            let mut said = "No APK at ".to_owned();
            said.append(self.apk.as_str());
            said.append(". Open Settings and choose one, or clear it to let Cordial look again.");
            Err(NotFound::Unusable(said))
        }
    }

    /// A build of this archive with its engine in `dir`.
    pub open spec fn is_build(self, build: Build, dir: Seq<char>) -> bool {
        build.apk@ == self.apk@ && build.lib_dir@ == dir
    }

    /// Where the engine comes from. A directory that was chosen is the only one
    /// considered; then one beside the archive, then the cache where it came
    /// from this archive as it is now; and otherwise it is extracted.
    pub open spec fn choice(self, facts: EngineFacts) -> EngineChoice {
        match self.lib_dir {
            Some(dir) => if facts.chosen {
                EngineChoice::Here(dir@)
            } else {
                EngineChoice::Missing(dir@)
            },
            None => if self.beside() is Some && facts.beside {
                EngineChoice::Here(self.beside()->0)
            } else if facts.cached && facts.current {
                EngineChoice::Cached
            } else {
                EngineChoice::Extract
            },
        }
    }

    /// What is said of a cache from another build.
    pub open spec fn stale_line(self, facts: EngineFacts) -> Option<Seq<char>> {
        if facts.cached {
            Some(
                "  shell: "@ + self.cache@ + " was extracted from a different "@ + self.apk@
                    + "; re-extracting"@,
            )
        } else {
            None
        }
    }

    /// What an archive without an engine is reported as, given how many
    /// archives were looked into and which would hold it on a split build.
    pub open spec fn no_engine_text(self, tried: nat, split: Seq<char>) -> Seq<char> {
        "No "@ + library_place(self.abi@) + " in "@ + self.apk@
            + " or its split_config siblings ("@ + text::decimal(tried)
            + " tried). On a split build the engine is in "@ + split
            + ", not base.apk \u{2014} if it is somewhere else, set the engine directory in Settings."@
    }
}

/// An archive that is there.
pub struct Present {
    search: Search,
}

/// An archive that is there and that Roblox signed. There is none without a
/// check that said so, and an engine is looked for, used and extracted for no
/// other archive.
pub struct Signed {
    search: Search,
}

impl Present {
    /// The archive.
    pub closed spec fn archive(self) -> Search {
        self.search
    }

    /// The archive.
    pub fn search(&self) -> (search: &Search)
        ensures
            *search == self.archive(),
    {
        &self.search
    }

    /// What a check of the signature makes of the archive.
    fn verified(self, verdict: Result<(), NotFound>) -> (signed: Result<Signed, NotFound>)
        ensures
            match signed {
                Ok(signed) => verdict is Ok && signed.archive() == self.archive(),
                Err(why) => verdict == Err::<(), NotFound>(why),
            },
    {
        match verdict {
            Ok(_) => Ok(Signed { search: self.search }),
            Err(why) => Err(why),
        }
    }
}

impl Signed {
    /// The archive.
    pub closed spec fn archive(self) -> Search {
        self.search
    }

    /// The archive.
    pub fn search(&self) -> (search: &Search)
        ensures
            *search == self.archive(),
    {
        &self.search
    }

    /// Where the engine comes from, given what the directories hold.
    pub fn engine(&self, facts: EngineFacts) -> (step: EngineStep)
        ensures
            match self.archive().choice(facts) {
                EngineChoice::Here(dir) => step matches EngineStep::Use(build)
                    && self.archive().is_build(build, dir),
                EngineChoice::Cached => step matches EngineStep::UseCached(build)
                    && self.archive().is_build(build, self.archive().cache@),
                EngineChoice::Extract => step matches EngineStep::Extract { stale }
                    && crate::secrets::option_view(stale) == self.archive().stale_line(facts),
                EngineChoice::Missing(dir) => step matches EngineStep::Fail(
                    NotFound::Unusable(said),
                ) && said@ == no_library_text(dir),
            },
    {
        let search = &self.search;
        if let Some(dir) = &search.lib_dir {
            if facts.chosen {
                return EngineStep::Use(Build { apk: search.apk.clone(), lib_dir: dir.clone() });
            }
            let mut said = "No ".to_owned();
            said.append(LIBRARY);
            said.append(" in ");
            said.append(dir.as_str());
            said.append(
                ". Open Settings and clear the engine directory to let Cordial extract one.",
            );
            return EngineStep::Fail(NotFound::Unusable(said));
        }
        if facts.beside {
            if let Some(dir) = search.beside_dir() {
                return EngineStep::Use(Build { apk: search.apk.clone(), lib_dir: dir });
            }
        }
        if facts.cached && facts.current {
            return EngineStep::UseCached(
                Build { apk: search.apk.clone(), lib_dir: search.cache.clone() },
            );
        }
        if facts.cached {
            let mut line = "  shell: ".to_owned();
            line.append(search.cache.as_str());
            line.append(" was extracted from a different ");
            line.append(search.apk.as_str());
            line.append("; re-extracting");
            return EngineStep::Extract { stale: Some(line) };
        }
        EngineStep::Extract { stale: None }
    }

    /// The archives a cached build came from: the archive and, where it is
    /// there, the one beside it that holds the engine.
    pub fn cached_archives(&self, split: Option<String>, split_is_file: bool) -> (archives: Vec<
        String,
    >)
        ensures
            order::texts(archives@) == (if split is Some && split_is_file {
                seq![self.archive().apk@, (split->0)@]
            } else {
                seq![self.archive().apk@]
            }),
    {
        let mut archives: Vec<String> = Vec::new();
        archives.push(self.search.apk.clone());
        if split_is_file {
            if let Some(split) = split {
                archives.push(split);
                assert(order::texts(archives@) =~= seq![self.search.apk@, split@]);
                return archives;
            }
        }
        assert(order::texts(archives@) =~= seq![self.search.apk@]);
        archives
    }

    /// The archives an extracted build came from: the archive and, where the
    /// engine was in another, that one.
    pub fn extracted_archives(&self, from: String) -> (archives: Vec<String>)
        ensures
            order::texts(archives@) == (if from@ != self.archive().apk@ {
                seq![self.archive().apk@, from@]
            } else {
                seq![self.archive().apk@]
            }),
    {
        let mut archives: Vec<String> = Vec::new();
        archives.push(self.search.apk.clone());
        if !same_text(from.as_str(), self.search.apk.as_str()) {
            archives.push(from);
            assert(order::texts(archives@) =~= seq![self.search.apk@, from@]);
        } else {
            assert(order::texts(archives@) =~= seq![self.search.apk@]);
        }
        archives
    }

    /// Which archive the engine is taken from: the first candidate that holds
    /// it.
    pub fn engine_source(&self, candidates: &Vec<Candidate>, split: &str) -> (source: Result<
        String,
        String,
    >)
        ensures
            match source {
                Ok(path) => exists|i: int| #[trigger]
                    is_source(candidates@, i) && path@ == candidates@[i].path@,
                Err(why) => (forall|i: int| !is_source(candidates@, i)) && why@
                    == self.archive().no_engine_text(without_engine(candidates@), split@),
            },
    {
        let mut tried: usize = 0;
        let mut i: usize = 0;
        assert(candidates@.take(0) =~= Seq::empty());
        while i < candidates.len()
            invariant
                0 <= i <= candidates@.len(),
                tried == without_engine(candidates@.take(i as int)),
                tried <= i,
                forall|j: int| 0 <= j < i ==> (#[trigger] candidates@[j]).look != Look::HasEngine,
            decreases candidates@.len() - i,
        {
            assert(candidates@.take(i + 1).drop_last() =~= candidates@.take(i as int));
            match candidates[i].look {
                Look::HasEngine => {
                    assert(is_source(candidates@, i as int));
                    return Ok(candidates[i].path.clone());
                },
                Look::NoEngine => {
                    tried = tried + 1;
                },
                Look::Unreadable => {},
            }
            i = i + 1;
        }
        assert(candidates@.take(i as int) =~= candidates@);
        assert forall|k: int| !is_source(candidates@, k) by {
        }
        let mut why = "No ".to_owned();
        let place = library_in_apk(self.search.abi.as_str());
        why.append(place.as_str());
        why.append(" in ");
        why.append(self.search.apk.as_str());
        why.append(" or its split_config siblings (");
        why.append(to_decimal(tried as u64).as_str());
        why.append(" tried). On a split build the engine is in ");
        why.append(split);
        why.append(
            ", not base.apk \u{2014} if it is somewhere else, set the engine directory in Settings.",
        );
        Err(why)
    }

    /// What extracting the engine out of `source` takes. It gets its name once
    /// it is whole, and the cache is stamped once the engine is there.
    pub fn extraction(&self, source: &str) -> (steps: Vec<ExtractStep>)
        ensures
            extraction::extracts(steps@, self.archive(), source@),
    {
        let library = join_path(self.search.cache.as_str(), LIBRARY);
        let mut partial = library.clone();
        partial.append(".partial");
        let mut steps: Vec<ExtractStep> = Vec::new();
        steps.push(
            ExtractStep::CopyOut {
                archive: source.to_owned(),
                entry: library_in_apk(self.search.abi.as_str()),
                to: partial.clone(),
            },
        );
        steps.push(ExtractStep::Rename { from: partial, to: library });
        steps.push(
            ExtractStep::Stamp { cache: self.search.cache.clone(), apk: self.search.apk.clone() },
        );
        steps
    }

    /// The build of this archive. `engine` says what the directories hold,
    /// `keep` keeps a cached build in the store, and `extract` extracts the
    /// engine into the cache; the last two are done where their turn comes and
    /// nowhere else.
    pub fn build<
        E: FnOnce(&Signed) -> EngineFacts,
        K: FnOnce(&Signed),
        X: FnOnce(&Signed, Option<String>) -> Result<(), String>,
    >(self, engine: E, keep: K, extract: X) -> (found: Result<Build, NotFound>)
        requires
            can_build(self, engine, keep, extract),
        ensures
            built(self, engine, keep, extract, found),
    {
        let facts = engine(&self);
        match self.engine(facts) {
            EngineStep::Use(build) => Ok(build),
            EngineStep::Fail(why) => Err(why),
            EngineStep::UseCached(build) => {
                keep(&self);
                Ok(build)
            },
            EngineStep::Extract { stale } => {
                let ghost line = stale;
                let outcome = extract(&self, stale);
                assert(call_ensures(extract, (&self, line), outcome));
                match outcome {
                    Ok(_) => Ok(
                        Build { apk: self.search.apk.clone(), lib_dir: self.search.cache.clone() },
                    ),
                    Err(e) => Err(NotFound::Unusable(e)),
                }
            },
        }
    }
}

/// What a build may do with an archive: say what the directories hold, keep the
/// cached build where that is the one, and extract where there is none to use.
pub open spec fn can_build<
    E: FnOnce(&Signed) -> EngineFacts,
    K: FnOnce(&Signed),
    X: FnOnce(&Signed, Option<String>) -> Result<(), String>,
>(signed: Signed, engine: E, keep: K, extract: X) -> bool {
    &&& call_requires(engine, (&signed,))
    &&& forall|facts: EngineFacts| #[trigger]
        call_ensures(engine, (&signed,), facts) && signed.archive().choice(facts) is Cached
            ==> call_requires(keep, (&signed,))
    &&& forall|facts: EngineFacts, stale: Option<String>|
        #![trigger call_ensures(engine, (&signed,), facts), call_requires(extract, (&signed, stale))]
        call_ensures(engine, (&signed,), facts) && signed.archive().choice(facts) is Extract
            && crate::secrets::option_view(stale) == signed.archive().stale_line(facts)
            ==> call_requires(extract, (&signed, stale))
}

/// What a build of a signed archive comes to, given what was said and done.
pub open spec fn built<
    E: FnOnce(&Signed) -> EngineFacts,
    K: FnOnce(&Signed),
    X: FnOnce(&Signed, Option<String>) -> Result<(), String>,
>(signed: Signed, engine: E, keep: K, extract: X, found: Result<Build, NotFound>) -> bool {
    exists|facts: EngineFacts| #[trigger]
        call_ensures(engine, (&signed,), facts) && match signed.archive().choice(facts) {
            EngineChoice::Here(dir) => found is Ok && signed.archive().is_build(found->Ok_0, dir),
            EngineChoice::Cached => call_ensures(keep, (&signed,), ()) && found is Ok
                && signed.archive().is_build(found->Ok_0, signed.archive().cache@),
            EngineChoice::Extract => exists|stale: Option<String>, outcome: Result<(), String>|
                #[trigger] call_ensures(extract, (&signed, stale), outcome)
                    && crate::secrets::option_view(stale) == signed.archive().stale_line(facts)
                    && match outcome {
                    Ok(_) => found is Ok && signed.archive().is_build(
                        found->Ok_0,
                        signed.archive().cache@,
                    ),
                    Err(e) => found == Err::<Build, NotFound>(NotFound::Unusable(e)),
                },
            EngineChoice::Missing(dir) => found matches Err(NotFound::Unusable(said)) && said@
                == no_library_text(dir),
        }
}

/// Whether an archive is there, as it was answered.
pub open spec fn is_there<T: FnOnce(String) -> bool>(
    there: T,
    apk: Seq<char>,
    answer: bool,
) -> bool {
    exists|path: String| #[trigger] call_ensures(there, (path,), answer) && path@ == apk
}

/// The check took the archive.
pub open spec fn accepted<V: FnOnce(String, String) -> Result<(), NotFound>>(
    verify: V,
    search: Search,
) -> bool {
    exists|apk: String, cache: String, verdict: Result<(), NotFound>|
        #[trigger] call_ensures(verify, (apk, cache), verdict) && apk@ == search.apk@ && cache@
            == search.cache@ && verdict is Ok
}

/// The engine of a signed archive was extracted.
pub open spec fn extracted<X: FnOnce(&Signed, Option<String>) -> Result<(), String>>(
    extract: X,
    signed: Signed,
) -> bool {
    exists|stale: Option<String>, outcome: Result<(), String>|
        #[trigger] call_ensures(extract, (&signed, stale), outcome) && outcome is Ok
}

/// What is done on the disk for a build.
pub struct Disk<T, E, K, X> {
    /// Whether a file is there.
    pub there: T,
    /// What the directories hold.
    pub engine: E,
    /// Keep a cached build in the store.
    pub keep: K,
    /// Extract the engine into the cache, reporting a cache from another build.
    pub extract: X,
}

/// The archive that is used, where it is there.
pub fn present<T: FnOnce(String) -> bool>(
    configured: &RobloxInstall,
    sources: &Sources,
    place: Place,
    there: T,
) -> (present: Result<Present, NotFound>)
    requires
        forall|path: String|
            effective(*configured, *sources) is Some && path@ == (effective(
                *configured,
                *sources,
            )->0).0 ==> #[trigger] call_requires(there, (path,)),
    ensures
        match present {
            Ok(present) => seeks(present.archive(), *configured, *sources, place) && is_there(
                there,
                present.archive().apk@,
                true,
            ),
            Err(why) => is_absent(*configured, *sources, there, why),
        },
{
    let search = match Search::begin(configured, sources, place) {
        Ok(search) => search,
        Err(why) => return Err(why),
    };
    let path = search.apk.clone();
    let is_file = there(path);
    assert(call_ensures(there, (path,), is_file));
    search.found(is_file)
}

/// Why there is no archive to look into.
pub open spec fn is_absent<T: FnOnce(String) -> bool>(
    configured: RobloxInstall,
    sources: Sources,
    there: T,
    why: NotFound,
) -> bool {
    match effective(configured, sources) {
        None => why is NoBuild,
        Some((apk, _)) => is_there(there, apk, false) && (why matches NotFound::Unusable(said)
            && said@ == no_apk_text(apk)),
    }
}
/// What looking for a build comes to, given what was said and done: the archive
/// that is used, where it is there, is checked, and only one the check took is
/// built.
pub open spec fn located<
    T: FnOnce(String) -> bool,
    V: FnOnce(String, String) -> Result<(), NotFound>,
    E: FnOnce(&Signed) -> EngineFacts,
    K: FnOnce(&Signed),
    X: FnOnce(&Signed, Option<String>) -> Result<(), String>,
>(
    configured: RobloxInstall,
    sources: Sources,
    place: Place,
    verify: V,
    disk: Disk<T, E, K, X>,
    found: Result<Build, NotFound>,
) -> bool {
    ||| found is Err && is_absent(configured, sources, disk.there, found->Err_0)
    ||| exists|search: Search| #[trigger]
        seeks(search, configured, sources, place) && is_there(disk.there, search.apk@, true) && (
        (found is Err && refused(verify, search, found->Err_0)) || (accepted(verify, search) && exists|signed: Signed|
            signed.archive() == search && #[trigger] built(
                signed,
                disk.engine,
                disk.keep,
                disk.extract,
                found,
            )))
}

/// The check refused the archive, and that is the answer.
pub open spec fn refused<V: FnOnce(String, String) -> Result<(), NotFound>>(
    verify: V,
    search: Search,
    why: NotFound,
) -> bool {
    exists|apk: String, cache: String, verdict: Result<(), NotFound>|
        #[trigger] call_ensures(verify, (apk, cache), verdict) && apk@ == search.apk@ && cache@
            == search.cache@ && verdict == Err::<(), NotFound>(why)
}

/// Look for a build, with the check of the signature injected.
///
/// The check is made once, of an archive that is there, and before anything is
/// done for its engine: nothing is asked of the directories, kept or extracted
/// unless it took the archive.
pub fn locate_with<
    T: FnOnce(String) -> bool,
    V: FnOnce(String, String) -> Result<(), NotFound>,
    E: FnOnce(&Signed) -> EngineFacts,
    K: FnOnce(&Signed),
    X: FnOnce(&Signed, Option<String>) -> Result<(), String>,
>(
    configured: &RobloxInstall,
    sources: &Sources,
    place: Place,
    verify: V,
    disk: Disk<T, E, K, X>,
) -> (found: Result<Build, NotFound>)
    requires
        forall|path: String|
            effective(*configured, *sources) is Some && path@ == (effective(
                *configured,
                *sources,
            )->0).0 ==> #[trigger] call_requires(disk.there, (path,)),
        forall|apk: String, cache: String|
            effective(*configured, *sources) is Some && apk@ == (effective(
                *configured,
                *sources,
            )->0).0 && is_there(disk.there, apk@, true) && cache@ == place.cache@
                ==> #[trigger] call_requires(verify, (apk, cache)),
        forall|signed: Signed|
            seeks(signed.archive(), *configured, *sources, place) && is_there(
                disk.there,
                signed.archive().apk@,
                true,
            ) && accepted(verify, signed.archive()) ==> #[trigger] can_build(signed, disk.engine, disk.keep, disk.extract),
    ensures
        located(*configured, *sources, place, verify, disk, found),
{
    let ghost at = place;
    let ghost tools = disk;
    let Disk { there, engine, keep, extract } = disk;
    let archive = match present(configured, sources, place, there) {
        Ok(archive) => archive,
        Err(why) => return Err(why),
    };
    let ghost search = archive.archive();
    let apk = archive.search().apk.clone();
    let cache = archive.search().cache.clone();
    let verdict = verify(apk, cache);
    assert(call_ensures(verify, (apk, cache), verdict));
    assert(seeks(search, *configured, *sources, at));
    let signed = match archive.verified(verdict) {
        Ok(signed) => signed,
        Err(why) => {
            assert(refused(verify, search, why));
            return Err(why);
        },
    };
    assert(accepted(verify, search));
    assert(can_build(signed, engine, keep, extract));
    let found = signed.build(engine, keep, extract);
    assert(built(signed, tools.engine, tools.keep, tools.extract, found));
    found
}

/// What is known of signatures, and what is done about them.
pub struct Signatures<R, V, W> {
    /// The certificates Roblox signs with.
    pub pinned: Vec<String>,
    /// Which certificate a cache is recorded under.
    pub recorded: R,
    /// Which of the pinned certificates signed an archive, or why none did.
    pub verify: V,
    /// Record the certificate of a cache.
    pub record: W,
}

/// A certificate is one of the pinned ones.
pub open spec fn is_pinned(recorded: Option<Seq<char>>, pinned: Seq<String>) -> bool {
    recorded is Some && exists|i: int|
        0 <= i < pinned.len() && same_but_for_case((#[trigger] pinned[i])@, recorded->0)
}

/// Which certificate a cache is recorded under, as it was answered.
pub open spec fn recalled<R: FnOnce(String) -> Option<String>>(
    recorded: R,
    cache: Seq<char>,
    answer: Option<String>,
) -> bool {
    exists|at: String| #[trigger] call_ensures(recorded, (at,), answer) && at@ == cache
}

/// The cache is recorded under no certificate that is pinned.
pub open spec fn is_unknown<R: FnOnce(String) -> Option<String>>(
    recorded: R,
    cache: Seq<char>,
    pinned: Seq<String>,
) -> bool {
    exists|answer: Option<String>| #[trigger]
        recalled(recorded, cache, answer) && !is_pinned(
            crate::secrets::option_view(answer),
            pinned,
        )
}

/// Which certificate signed an archive, as it was answered.
pub open spec fn examined<V: FnOnce(String) -> Result<String, String>>(
    verify: V,
    apk: Seq<char>,
    answer: Result<String, String>,
) -> bool {
    exists|path: String| #[trigger] call_ensures(verify, (path,), answer) && path@ == apk
}

/// A certificate was recorded for a cache.
pub open spec fn noted<W: FnOnce(String, String)>(
    record: W,
    cache: Seq<char>,
    certificate: String,
) -> bool {
    exists|at: String| #[trigger] call_ensures(record, (at, certificate), ()) && at@ == cache
}

/// What establishing an archive's signature comes to: a cache that is recorded
/// under a pinned certificate is taken as it is; otherwise the archive is
/// verified, and its certificate recorded.
pub open spec fn established<
    R: FnOnce(String) -> Option<String>,
    V: FnOnce(String) -> Result<String, String>,
    W: FnOnce(String, String),
>(signatures: Signatures<R, V, W>, search: Search, verdict: Result<(), NotFound>) -> bool {
    exists|answer: Option<String>| #[trigger]
        recalled(signatures.recorded, search.cache@, answer) && if is_pinned(
            crate::secrets::option_view(answer),
            signatures.pinned@,
        ) {
            verdict is Ok
        } else {
            exists|outcome: Result<String, String>| #[trigger]
                examined(signatures.verify, search.apk@, outcome) && match outcome {
                    Ok(certificate) => noted(signatures.record, search.cache@, certificate)
                        && verdict is Ok,
                    Err(e) => verdict matches Err(NotFound::Unusable(said)) && said@
                        == unsigned_text(search.apk@, e@),
                }
        }
}

/// What establishing a signature may do: look up the record, verify the archive
/// where the record says nothing, and record what verifying found.
pub open spec fn can_establish<
    R: FnOnce(String) -> Option<String>,
    V: FnOnce(String) -> Result<String, String>,
    W: FnOnce(String, String),
>(signatures: Signatures<R, V, W>, search: Search) -> bool {
    &&& forall|at: String|
        at@ == search.cache@ ==> #[trigger] call_requires(signatures.recorded, (at,))
    &&& forall|path: String|
        path@ == search.apk@ && is_unknown(
            signatures.recorded,
            search.cache@,
            signatures.pinned@,
        ) ==> #[trigger] call_requires(signatures.verify, (path,))
    &&& forall|at: String, certificate: String|
        at@ == search.cache@ && examined(signatures.verify, search.apk@, Ok(certificate))
            ==> #[trigger] call_requires(signatures.record, (at, certificate))
}

/// Establish that Roblox signed an archive that is there, at most once for a
/// build: verifying reads the whole archive, so its certificate is recorded, and
/// a cache that is recorded under a pinned one is not verified again.
pub fn verified_once<
    R: FnOnce(String) -> Option<String>,
    V: FnOnce(String) -> Result<String, String>,
    W: FnOnce(String, String),
>(archive: Present, signatures: Signatures<R, V, W>) -> (signed: Result<Signed, NotFound>)
    requires
        can_establish(signatures, archive.archive()),
    ensures
        match signed {
            Ok(signed) => signed.archive() == archive.archive() && established(
                signatures,
                archive.archive(),
                Ok(()),
            ),
            Err(why) => established(signatures, archive.archive(), Err(why)),
        },
{
    let ghost given = signatures;
    let ghost search = archive.archive();
    let Signatures { pinned, recorded, verify, record } = signatures;
    let cache = archive.search().cache.clone();
    let answer = recorded(cache);
    assert(recalled(given.recorded, search.cache@, answer));
    let known = match &answer {
        Some(certificate) => signer_is_known(Some(certificate.as_str()), &pinned),
        None => signer_is_known(None, &pinned),
    };
    assert(known == is_pinned(crate::secrets::option_view(answer), pinned@));
    if known {
        return archive.verified(Ok(()));
    }
    assert(is_unknown(given.recorded, search.cache@, given.pinned@));
    let apk = archive.search().apk.clone();
    let outcome = verify(apk);
    assert(examined(given.verify, search.apk@, outcome));
    match outcome {
        Ok(certificate) => {
            let at = archive.search().cache.clone();
            record(at, certificate);
            assert(noted(given.record, search.cache@, certificate));
            archive.verified(Ok(()))
        },
        Err(e) => {
            let mut said = "Cordial will not run ".to_owned();
            said.append(archive.search().apk.as_str());
            said.append(": ");
            said.append(e.as_str());
            said.append(
                ".\n\nThis is the archive Cordial was pointed at, not one it downloaded. Clear the APK in Settings to let Cordial find or fetch a build it can check.",
            );
            assert(said@ =~= unsigned_text(search.apk@, e@));
            archive.verified(Err(NotFound::Unusable(said)))
        },
    }
}

/// What is said where a certificate could not be recorded. The archive is
/// verified again next time.
pub fn not_recorded_line(apk: &str, e: &str) -> (line: String)
    ensures
        line@ == "  shell: verified "@ + apk@ + " but could not record it: "@ + e@,
{
    let mut line = "  shell: verified ".to_owned();
    line.append(apk);
    line.append(" but could not record it: ");
    line.append(e);
    line
}

/// Look for a build that Roblox signed.
pub fn locate<
    T: FnOnce(String) -> bool,
    R: FnOnce(String) -> Option<String>,
    V: FnOnce(String) -> Result<String, String>,
    W: FnOnce(String, String),
    E: FnOnce(&Signed) -> EngineFacts,
    K: FnOnce(&Signed),
    X: FnOnce(&Signed, Option<String>) -> Result<(), String>,
>(
    configured: &RobloxInstall,
    sources: &Sources,
    place: Place,
    signatures: Signatures<R, V, W>,
    disk: Disk<T, E, K, X>,
) -> (found: Result<Build, NotFound>)
    requires
        forall|path: String|
            effective(*configured, *sources) is Some && path@ == (effective(
                *configured,
                *sources,
            )->0).0 ==> #[trigger] call_requires(disk.there, (path,)),
        forall|search: Search|
            seeks(search, *configured, *sources, place) && is_there(disk.there, search.apk@, true)
                ==> #[trigger] can_establish(signatures, search),
        forall|signed: Signed|
            seeks(signed.archive(), *configured, *sources, place) && is_there(
                disk.there,
                signed.archive().apk@,
                true,
            ) && established(signatures, signed.archive(), Ok(())) ==> #[trigger] can_build(signed, disk.engine, disk.keep, disk.extract),
    ensures
        located_signed(*configured, *sources, place, signatures, disk, found),
{
    let ghost at = place;
    let ghost given = signatures;
    let ghost tools = disk;
    let Disk { there, engine, keep, extract } = disk;
    let archive = match present(configured, sources, place, there) {
        Ok(archive) => archive,
        Err(why) => return Err(why),
    };
    let ghost search = archive.archive();
    assert(seeks(search, *configured, *sources, at));
    assert(can_establish(signatures, search));
    let signed = match verified_once(archive, signatures) {
        Ok(signed) => signed,
        Err(why) => {
            assert(established(given, search, Err(why)));
            return Err(why);
        },
    };
    assert(can_build(signed, engine, keep, extract));
    let found = signed.build(engine, keep, extract);
    assert(built(signed, tools.engine, tools.keep, tools.extract, found));
    found
}

/// What looking for a build that Roblox signed comes to, given what was said and
/// done.
pub open spec fn located_signed<
    T: FnOnce(String) -> bool,
    R: FnOnce(String) -> Option<String>,
    V: FnOnce(String) -> Result<String, String>,
    W: FnOnce(String, String),
    E: FnOnce(&Signed) -> EngineFacts,
    K: FnOnce(&Signed),
    X: FnOnce(&Signed, Option<String>) -> Result<(), String>,
>(
    configured: RobloxInstall,
    sources: Sources,
    place: Place,
    signatures: Signatures<R, V, W>,
    disk: Disk<T, E, K, X>,
    found: Result<Build, NotFound>,
) -> bool {
    ||| found is Err && is_absent(configured, sources, disk.there, found->Err_0)
    ||| exists|search: Search| #[trigger]
        seeks(search, configured, sources, place) && is_there(disk.there, search.apk@, true) && ((
        found is Err && established(signatures, search, Err(found->Err_0))) || (established(
            signatures,
            search,
            Ok(()),
        ) && exists|signed: Signed|
            signed.archive() == search && #[trigger] built(
                signed,
                disk.engine,
                disk.keep,
                disk.extract,
                found,
            )))
}

/// Nothing is run that Roblox did not sign, wherever the archive and its engine
/// came from: a build is found only where its archive is there and the check
/// took it.
pub proof fn law_only_a_signed_archive_is_run<
    T: FnOnce(String) -> bool,
    V: FnOnce(String, String) -> Result<(), NotFound>,
    E: FnOnce(&Signed) -> EngineFacts,
    K: FnOnce(&Signed),
    X: FnOnce(&Signed, Option<String>) -> Result<(), String>,
>(
    configured: RobloxInstall,
    sources: Sources,
    place: Place,
    verify: V,
    disk: Disk<T, E, K, X>,
    build: Build,
)
    requires
        located(configured, sources, place, verify, disk, Ok(build)),
    ensures
        exists|search: Search| #[trigger]
            seeks(search, configured, sources, place) && build.apk@ == search.apk@ && is_there(
                disk.there,
                search.apk@,
                true,
            ) && accepted(verify, search),
{
    let found = Ok::<Build, NotFound>(build);
    let search = choose|search: Search| #[trigger]
        seeks(search, configured, sources, place) && is_there(disk.there, search.apk@, true) && (
        (found is Err && refused(verify, search, found->Err_0)) || (accepted(verify, search) && exists|signed: Signed|
            signed.archive() == search && #[trigger] built(
                signed,
                disk.engine,
                disk.keep,
                disk.extract,
                found,
            )));
    assert(seeks(search, configured, sources, place) && build.apk@ == search.apk@);
}

/// The entry point that every launch passes through runs nothing that Roblox did
/// not sign: its archive is there, and it was verified or is recorded under a
/// pinned certificate.
pub proof fn law_every_launch_is_of_a_signed_archive<
    T: FnOnce(String) -> bool,
    R: FnOnce(String) -> Option<String>,
    V: FnOnce(String) -> Result<String, String>,
    W: FnOnce(String, String),
    E: FnOnce(&Signed) -> EngineFacts,
    K: FnOnce(&Signed),
    X: FnOnce(&Signed, Option<String>) -> Result<(), String>,
>(
    configured: RobloxInstall,
    sources: Sources,
    place: Place,
    signatures: Signatures<R, V, W>,
    disk: Disk<T, E, K, X>,
    build: Build,
)
    requires
        located_signed(configured, sources, place, signatures, disk, Ok(build)),
    ensures
        exists|search: Search| #[trigger]
            seeks(search, configured, sources, place) && build.apk@ == search.apk@ && is_there(
                disk.there,
                search.apk@,
                true,
            ) && established(signatures, search, Ok(())),
{
    let found = Ok::<Build, NotFound>(build);
    let search = choose|search: Search| #[trigger]
        seeks(search, configured, sources, place) && is_there(disk.there, search.apk@, true) && ((
        found is Err && established(signatures, search, Err(found->Err_0))) || (established(
            signatures,
            search,
            Ok(()),
        ) && exists|signed: Signed|
            signed.archive() == search && #[trigger] built(
                signed,
                disk.engine,
                disk.keep,
                disk.extract,
                found,
            )));
    assert(seeks(search, configured, sources, place) && build.apk@ == search.apk@);
}

/// The cache follows the archive it was extracted from: an engine from another
/// archive is never run out of it, only one that is current or was extracted
/// just now.
pub proof fn law_a_stale_engine_is_never_run<
    E: FnOnce(&Signed) -> EngineFacts,
    K: FnOnce(&Signed),
    X: FnOnce(&Signed, Option<String>) -> Result<(), String>,
>(signed: Signed, engine: E, keep: K, extract: X, build: Build)
    requires
        built(signed, engine, keep, extract, Ok(build)),
        signed.archive().lib_dir is None,
        forall|facts: EngineFacts| #[trigger]
            call_ensures(engine, (&signed,), facts) ==> !facts.beside,
    ensures
        build.lib_dir@ == signed.archive().cache@,
        (exists|facts: EngineFacts| #[trigger]
            call_ensures(engine, (&signed,), facts) && facts.cached && facts.current) || extracted(
            extract,
            signed,
        ),
{
}

/// What somebody chose is used or reported, and never replaced by what is
/// merely found.
pub proof fn law_a_choice_is_never_replaced<
    T: FnOnce(String) -> bool,
    V: FnOnce(String, String) -> Result<(), NotFound>,
    E: FnOnce(&Signed) -> EngineFacts,
    K: FnOnce(&Signed),
    X: FnOnce(&Signed, Option<String>) -> Result<(), String>,
>(
    configured: RobloxInstall,
    sources: Sources,
    others: Sources,
    place: Place,
    verify: V,
    disk: Disk<T, E, K, X>,
    found: Result<Build, NotFound>,
)
    requires
        configured.apk is Some,
        sources.environment is None,
        others.environment is None,
    ensures
        effective(configured, sources) == Some(((configured.apk->0)@, Origin::Chosen)),
        located(configured, sources, place, verify, disk, found) ==> located(
            configured,
            others,
            place,
            verify,
            disk,
            found,
        ),
        found matches Ok(build) ==> located(configured, sources, place, verify, disk, found)
            ==> build.apk@ == (configured.apk->0)@,
{
    assert(effective(configured, sources) == effective(configured, others));
    if located(configured, sources, place, verify, disk, found) && !(found is Err && is_absent(
        configured,
        sources,
        disk.there,
        found->Err_0,
    )) {
        let search = choose|search: Search| #[trigger]
            seeks(search, configured, sources, place) && is_there(disk.there, search.apk@, true) && (
            (found is Err && refused(verify, search, found->Err_0)) || (accepted(verify, search) && exists|
                signed: Signed,
            |
                signed.archive() == search && #[trigger] built(
                    signed,
                    disk.engine,
                    disk.keep,
                    disk.extract,
                    found,
                )));
        assert(seeks(search, configured, others, place));
    }
    if located(configured, sources, place, verify, disk, found) && found is Ok {
        law_only_a_signed_archive_is_run(configured, sources, place, verify, disk, found->Ok_0);
    }
}

/// What was found in a candidate archive.
#[derive(Debug, Clone, Copy, PartialEq, Eq, Structural)]
pub enum Look {
    /// It could not be opened or is no archive.
    Unreadable,
    NoEngine,
    HasEngine,
}

/// A candidate archive and what was found in it.
pub struct Candidate {
    pub path: String,
    pub look: Look,
}

/// The first candidate that holds the engine.
pub open spec fn is_source(candidates: Seq<Candidate>, i: int) -> bool {
    &&& 0 <= i < candidates.len()
    &&& candidates[i].look == Look::HasEngine
    &&& forall|j: int| 0 <= j < i ==> (#[trigger] candidates[j]).look != Look::HasEngine
}

/// How many candidates are archives without the engine.
pub open spec fn without_engine(candidates: Seq<Candidate>) -> nat
    decreases candidates.len(),
{
    if candidates.len() == 0 {
        0
    } else {
        without_engine(candidates.drop_last()) + if candidates.last().look == Look::NoEngine {
            1nat
        } else {
            0
        }
    }
}

/// A file beside an archive that a split build may hold its engine in.
pub open spec fn is_split(name: Seq<char>) -> bool {
    text::begins_with(name, "split_config"@) && text::ends_with(name, ".apk"@)
}

/// A file beside an archive that a split build may hold its engine in.
fn names_split(name: &str) -> (split: bool)
    ensures
        split == is_split(name@),
{
    let chars = chars_of(name);
    has_prefix(&chars, &chars_of("split_config")) && text::has_suffix(&chars, &chars_of(".apk"))
}

/// The paths of the split archives among the files of a directory, as they
/// come. A file whose name is not text is none.
pub open spec fn splits_in(dir: Seq<char>, files: Seq<Option<String>>) -> Seq<Seq<char>> {
    crate::profile::present(
        files.map_values(
            |file: Option<String>|
                match file {
                    Some(name) => if is_split(name@) {
                        Some(text::joined(dir, name@))
                    } else {
                        None
                    },
                    None => None,
                },
        ),
    )
}

/// The archives that may hold the engine, in the order they are tried: the one
/// that was named, then the split archives beside it, in order.
pub fn engine_candidates(apk: &str, beside: Option<(&str, Vec<Option<String>>)>) -> (candidates: Vec<
    String,
>)
    ensures
        order::texts(candidates@).len() > 0,
        order::texts(candidates@)[0] == apk@,
        order::is_sorted(order::texts(candidates@).skip(1)),
        order::texts(candidates@).skip(1).to_multiset() == (match beside {
            Some((dir, files)) => splits_in(dir@, files@).to_multiset(),
            None => Seq::<Seq<char>>::empty().to_multiset(),
        }),
{
    let mut candidates: Vec<String> = Vec::new();
    candidates.push(apk.to_owned());
    let sorted = match beside {
        None => {
            let none: Vec<String> = Vec::new();
            assert(order::texts(none@) =~= Seq::empty());
            none
        },
        Some((dir, files)) => {
            let ghost found = files@.map_values(
                |file: Option<String>|
                    match file {
                        Some(name) => if is_split(name@) {
                            Some(text::joined(dir@, name@))
                        } else {
                            None
                        },
                        None => None,
                    },
            );
            let mut paths: Vec<String> = Vec::new();
            let mut i: usize = 0;
            assert(found.take(0) =~= Seq::empty());
            assert(order::texts(paths@) =~= Seq::empty());
            while i < files.len()
                invariant
                    0 <= i <= files@.len(),
                    found == files@.map_values(
                        |file: Option<String>|
                            match file {
                                Some(name) => if is_split(name@) {
                                    Some(text::joined(dir@, name@))
                                } else {
                                    None
                                },
                                None => None,
                            },
                    ),
                    order::texts(paths@) == crate::profile::present(found.take(i as int)),
                decreases files@.len() - i,
            {
                let ghost before = order::texts(paths@);
                assert(found.take(i + 1).drop_last() =~= found.take(i as int));
                if let Some(name) = &files[i] {
                    if names_split(name.as_str()) {
                        paths.push(join_path(dir, name.as_str()));
                        assert(order::texts(paths@) =~= before.push(text::joined(dir@, name@)));
                    }
                }
                i = i + 1;
            }
            assert(found.take(i as int) =~= found);
            sort(paths)
        },
    };
    let ghost tail = order::texts(sorted@);
    let mut rest = sorted;
    candidates.append(&mut rest);
    assert(order::texts(candidates@) =~= seq![apk@] + tail);
    assert(order::texts(candidates@).skip(1) =~= tail);
    candidates
}

/// What is said of the build that was there before, given what became of
/// keeping it.
pub fn kept_previous_line(outcome: &Result<Option<String>, String>) -> (line: Option<String>)
    ensures
        crate::secrets::option_view(line) == (match *outcome {
            Ok(Some(kept)) => Some("  shell: kept the previous build as "@ + kept@),
            Ok(None) => None,
            Err(e) => Some("  shell: could not keep the previous build: "@ + e@),
        }),
{
    match outcome {
        Ok(Some(kept)) => {
            let mut line = "  shell: kept the previous build as ".to_owned();
            line.append(kept.as_str());
            Some(line)
        },
        Ok(None) => None,
        Err(e) => {
            let mut line = "  shell: could not keep the previous build: ".to_owned();
            line.append(e.as_str());
            Some(line)
        },
    }
}

/// What is said once a cached build was kept in the store, or could not be.
pub fn keyed_line(cache: &str, outcome: &Result<Option<String>, String>) -> (line: Option<String>)
    ensures
        crate::secrets::option_view(line) == (match *outcome {
            Ok(Some(keyed)) => Some("  shell: kept "@ + cache@ + " as Roblox "@ + keyed@),
            Ok(None) => None,
            Err(e) => Some("  shell: could not key "@ + cache@ + " into the store: "@ + e@),
        }),
{
    match outcome {
        Ok(Some(keyed)) => {
            let mut line = "  shell: kept ".to_owned();
            line.append(cache);
            line.append(" as Roblox ");
            line.append(keyed.as_str());
            Some(line)
        },
        Ok(None) => None,
        Err(e) => {
            let mut line = "  shell: could not key ".to_owned();
            line.append(cache);
            line.append(" into the store: ");
            line.append(e.as_str());
            Some(line)
        },
    }
}

/// What is said of the builds that were removed, where any were.
pub fn dropped_line(dropped: &Vec<String>) -> (line: Option<String>)
    ensures
        crate::secrets::option_view(line) == (if dropped@.len() > 0 {
            Some("  shell: removed older builds: "@ + text::separated(
                order::texts(dropped@),
                ", "@,
            ))
        } else {
            None
        }),
{
    if dropped.len() == 0 {
        return None;
    }
    let mut line = "  shell: removed older builds: ".to_owned();
    let list = text::join_texts(dropped, ", ");
    line.append(list.as_str());
    Some(line)
}

} // verus!
