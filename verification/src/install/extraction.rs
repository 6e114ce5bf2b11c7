//! Taking an engine out of an archive, and what the cache holds from one launch
//! to the next.

use vstd::prelude::*;
use vstd::string::*;

use super::{
    Build, Candidate, Disk, EngineChoice, EngineFacts, Look, NotFound, Place, RobloxInstall, Search,
    Signed, Sources, LIBRARY,
};
use crate::text;

verus! {

broadcast use vstd::string::group_string_axioms;

/// One thing done to extract an engine.
pub enum ExtractStep {
    /// Write this entry of the archive to a file, replacing what it holds.
    CopyOut { archive: String, entry: String, to: String },
    /// Give the file another name, replacing what had it.
    Rename { from: String, to: String },
    /// Write down which state of the archive the cache came from. A stamp that
    /// cannot be written is no failure: the engine is extracted again.
    Stamp { cache: String, apk: String },
}

/// What the disk holds, as far as engines are concerned.
pub struct Ground {
    pub files: Map<Seq<char>, Seq<u8>>,
    /// The engine in each archive.
    pub engines: Map<Seq<char>, Seq<u8>>,
    /// What tells one state of an archive from another.
    pub marks: Map<Seq<char>, int>,
    /// The state of the archive that each cache came from.
    pub stamps: Map<Seq<char>, int>,
}

impl ExtractStep {
    /// What a step makes of the disk.
    pub open spec fn applied(self, ground: Ground) -> Ground {
        match self {
            ExtractStep::CopyOut { archive, entry, to } => Ground {
                files: ground.files.insert(to@, ground.engines[archive@]),
                ..ground
            },
            ExtractStep::Rename { from, to } => Ground {
                files: ground.files.remove(from@).insert(to@, ground.files[from@]),
                ..ground
            },
            ExtractStep::Stamp { cache, apk } => Ground {
                stamps: ground.stamps.insert(cache@, ground.marks[apk@]),
                ..ground
            },
        }
    }
}

/// What the first `n` steps make of the disk.
pub open spec fn after(ground: Ground, steps: Seq<ExtractStep>, n: int) -> Ground
    decreases n,
{
    if n <= 0 {
        ground
    } else {
        steps[n - 1].applied(after(ground, steps, n - 1))
    }
}

/// The engine of a cache.
pub open spec fn library_of(cache: Seq<char>) -> Seq<char> {
    text::joined(cache, LIBRARY@)
}

/// The steps that extract an engine: whole under a temporary name, then under
/// its own, and only then is the cache stamped.
pub open spec fn extracts(steps: Seq<ExtractStep>, search: Search, source: Seq<char>) -> bool {
    &&& steps.len() == 3
    &&& steps[0] matches ExtractStep::CopyOut { archive, entry, to }
    &&& archive@ == source
    &&& entry@ == super::library_place(search.abi@)
    &&& to@ == library_of(search.cache@) + ".partial"@
    &&& steps[1] matches ExtractStep::Rename { from, to }
    &&& from@ == library_of(search.cache@) + ".partial"@
    &&& to@ == library_of(search.cache@)
    &&& steps[2] matches ExtractStep::Stamp { cache, apk }
    &&& cache@ == search.cache@
    &&& apk@ == search.apk@
}

impl Ground {
    /// What the directories hold.
    pub open spec fn facts(self, search: Search) -> EngineFacts {
        EngineFacts {
            chosen: search.lib_dir is Some && self.files.contains_key(
                library_of((search.lib_dir->0)@),
            ),
            beside: search.beside() is Some && self.files.contains_key(
                library_of(search.beside()->0),
            ),
            cached: self.files.contains_key(library_of(search.cache@)),
            current: self.stamps.contains_key(search.cache@) && self.stamps[search.cache@]
                == self.marks[search.apk@],
        }
    }

    /// The cache holds an engine that came from the archive as it is now.
    pub open spec fn is_settled(self, search: Search) -> bool {
        self.facts(search).cached && self.facts(search).current
    }

    /// The disk once the archive was rewritten with another engine in it.
    pub open spec fn rewritten(self, apk: Seq<char>, engine: Seq<u8>, mark: int) -> Ground {
        Ground {
            engines: self.engines.insert(apk, engine),
            marks: self.marks.insert(apk, mark),
            ..self
        }
    }

    /// The disk once what is cached was overwritten.
    pub open spec fn overwritten(self, cache: Seq<char>, bytes: Seq<u8>) -> Ground {
        Ground { files: self.files.insert(library_of(cache), bytes), ..self }
    }

    /// The disk after a launch: as it was where a directory holds the engine,
    /// and otherwise with the engine extracted. `vacated` is the disk once the
    /// build that was cached before was filed away.
    pub open spec fn launched(
        self,
        search: Search,
        vacated: Ground,
        steps: Seq<ExtractStep>,
    ) -> Ground {
        if search.choice(self.facts(search)) is Extract {
            after(vacated, steps, steps.len() as int)
        } else {
            self
        }
    }

    /// Filing a build away changes no archive.
    pub open spec fn is_vacated(self, vacated: Ground) -> bool {
        vacated.engines == self.engines && vacated.marks == self.marks
    }
}

/// However many steps of an extraction were performed before it was cut off, the
/// cache holds the engine it held before or the whole new one.
pub proof fn law_an_interrupted_extraction_leaves_no_half(
    ground: Ground,
    search: Search,
    source: Seq<char>,
    steps: Seq<ExtractStep>,
    n: int,
)
    requires
        extracts(steps, search, source),
        0 <= n <= 3,
    ensures
        ({
            let library = library_of(search.cache@);
            let now = after(ground, steps, n);
            &&& n < 2 ==> now.files.contains_key(library) == ground.files.contains_key(library)
            &&& n < 2 && ground.files.contains_key(library) ==> now.files[library]
                == ground.files[library]
            &&& n >= 2 ==> now.files.contains_key(library) && now.files[library]
                == ground.engines[source]
            &&& n < 3 ==> now.stamps == ground.stamps
        }),
{
    reveal_strlit(".partial");
    reveal_with_fuel(after, 4);
    assert((library_of(search.cache@) + ".partial"@).len() != library_of(search.cache@).len());
}

/// A launch out of the cache leaves an engine there that came from the archive
/// as it is.
pub proof fn law_a_launch_settles_the_cache(
    ground: Ground,
    search: Search,
    vacated: Ground,
    source: Seq<char>,
    steps: Seq<ExtractStep>,
)
    requires
        extracts(steps, search, source),
        ground.is_vacated(vacated),
        search.choice(ground.facts(search)) is Extract || search.choice(ground.facts(search))
            is Cached,
    ensures
        ground.launched(search, vacated, steps).is_settled(search),
        ground.launched(search, vacated, steps).engines == ground.engines,
        ground.launched(search, vacated, steps).marks == ground.marks,
{
    reveal_strlit(".partial");
    reveal_with_fuel(after, 4);
}

/// The cache follows the archive: once an archive that was launched is rewritten
/// with another engine in it, the next launch leaves exactly that engine in the
/// cache.
pub proof fn law_the_cache_follows_the_archive(
    first: Ground,
    search: Search,
    engine: Seq<u8>,
    mark: int,
    vacated: Ground,
    candidates: Seq<Candidate>,
    i: int,
    steps: Seq<ExtractStep>,
)
    requires
        first.is_settled(search),
        search.lib_dir is None,
        !first.facts(search).beside,
        mark != first.marks[search.apk@],
        first.rewritten(search.apk@, engine, mark).is_vacated(vacated),
        candidates.len() > 0,
        candidates[0].path@ == search.apk@,
        candidates[0].look == Look::HasEngine,
        super::is_source(candidates, i),
        extracts(steps, search, candidates[i].path@),
    ensures
        ({
            let rewritten = first.rewritten(search.apk@, engine, mark);
            let second = rewritten.launched(search, vacated, steps);
            &&& search.choice(rewritten.facts(search)) is Extract
            &&& second.files.contains_key(library_of(search.cache@))
            &&& second.files[library_of(search.cache@)] == engine
            &&& second.is_settled(search)
        }),
{
    let rewritten = first.rewritten(search.apk@, engine, mark);
    assert(i == 0);
    assert(search.choice(rewritten.facts(search)) is Extract);
    law_an_interrupted_extraction_leaves_no_half(vacated, search, search.apk@, steps, 3);
    law_a_launch_settles_the_cache(rewritten, search, vacated, search.apk@, steps);
}

/// An untouched archive is not extracted again: whatever the cache was made to
/// hold since, the next launch leaves it there.
pub proof fn law_an_untouched_archive_is_not_extracted_again(
    first: Ground,
    search: Search,
    bytes: Seq<u8>,
    vacated: Ground,
    steps: Seq<ExtractStep>,
)
    requires
        first.is_settled(search),
        search.lib_dir is None,
        !first.facts(search).beside,
    ensures
        ({
            let overwritten = first.overwritten(search.cache@, bytes);
            let second = overwritten.launched(search, vacated, steps);
            &&& search.choice(overwritten.facts(search)) is Cached
            &&& second.files[library_of(search.cache@)] == bytes
            &&& second == overwritten
        }),
{
    let overwritten = first.overwritten(search.cache@, bytes);
    assert(!overwritten.facts(search).beside);
}

/// Where the directories are seen as they are and extracting succeeds, such a
/// launch is a build of the archive with its engine in the cache.
pub proof fn law_such_a_launch_runs_out_of_the_cache<
    E: FnOnce(&Signed) -> EngineFacts,
    K: FnOnce(&Signed),
    X: FnOnce(&Signed, Option<String>) -> Result<(), String>,
>(
    ground: Ground,
    signed: Signed,
    engine: E,
    keep: K,
    extract: X,
    found: Result<Build, NotFound>,
)
    requires
        super::built(signed, engine, keep, extract, found),
        signed.archive().lib_dir is None,
        !ground.facts(signed.archive()).beside,
        forall|facts: EngineFacts| #[trigger]
            call_ensures(engine, (&signed,), facts) ==> facts == ground.facts(signed.archive()),
        forall|stale: Option<String>, outcome: Result<(), String>| #[trigger]
            call_ensures(extract, (&signed, stale), outcome) ==> outcome is Ok,
    ensures
        found is Ok,
        signed.archive().is_build(found->Ok_0, signed.archive().cache@),
        signed.archive().choice(ground.facts(signed.archive())) is Extract ==> super::extracted(
            extract,
            signed,
        ),
{
}

/// The archive is there, the directories are seen as they are, and extracting
/// succeeds.
pub open spec fn answers_for<
    T: FnOnce(String) -> bool,
    E: FnOnce(&Signed) -> EngineFacts,
    K: FnOnce(&Signed),
    X: FnOnce(&Signed, Option<String>) -> Result<(), String>,
>(disk: Disk<T, E, K, X>, ground: Ground) -> bool {
    &&& forall|path: String, there: bool| #[trigger]
        call_ensures(disk.there, (path,), there) ==> there
    &&& forall|signed: Signed, facts: EngineFacts| #[trigger]
        call_ensures(disk.engine, (&signed,), facts) ==> facts == ground.facts(signed.archive())
    &&& forall|signed: Signed, stale: Option<String>, outcome: Result<(), String>| #[trigger]
        call_ensures(disk.extract, (&signed, stale), outcome) ==> outcome is Ok
}

/// The check takes every archive it is shown.
pub open spec fn takes_all<V: FnOnce(String, String) -> Result<(), NotFound>>(verify: V) -> bool {
    forall|apk: String, cache: String, verdict: Result<(), NotFound>| #[trigger]
        call_ensures(verify, (apk, cache), verdict) ==> verdict is Ok
}

/// Looking for a build on a disk that answers for itself, with a check that
/// takes the archive and no engine chosen or beside it, finds the archive with
/// its engine in the cache.
proof fn lemma_found_in_the_cache<
    T: FnOnce(String) -> bool,
    V: FnOnce(String, String) -> Result<(), NotFound>,
    E: FnOnce(&Signed) -> EngineFacts,
    K: FnOnce(&Signed),
    X: FnOnce(&Signed, Option<String>) -> Result<(), String>,
>(
    ground: Ground,
    search: Search,
    configured: RobloxInstall,
    sources: Sources,
    place: Place,
    verify: V,
    disk: Disk<T, E, K, X>,
    found: Result<Build, NotFound>,
)
    requires
        super::located(configured, sources, place, verify, disk, found),
        super::seeks(search, configured, sources, place),
        search.lib_dir is None,
        !ground.facts(search).beside,
        takes_all(verify),
        answers_for(disk, ground),
    ensures
        found is Ok,
        search.is_build(found->Ok_0, search.cache@),
{
    assert(!(found is Err && super::is_absent(configured, sources, disk.there, found->Err_0)));
    let sought = choose|sought: Search| #[trigger]
        super::seeks(sought, configured, sources, place) && super::is_there(
            disk.there,
            sought.apk@,
            true,
        ) && ((found is Err && super::refused(verify, sought, found->Err_0)) || (super::accepted(
            verify,
            sought,
        ) && exists|signed: Signed|
            signed.archive() == sought && #[trigger] super::built(
                signed,
                disk.engine,
                disk.keep,
                disk.extract,
                found,
            )));
    let signed = choose|signed: Signed|
        signed.archive() == sought && #[trigger] super::built(
            signed,
            disk.engine,
            disk.keep,
            disk.extract,
            found,
        );
    assert(sought.beside() == search.beside());
    law_such_a_launch_runs_out_of_the_cache(
        ground,
        signed,
        disk.engine,
        disk.keep,
        disk.extract,
        found,
    );
}

/// The cache follows the archive from one search to the next: where a search
/// found the archive, which was then rewritten with another engine in it, the
/// next search finds it again, and the engine of the build that it finds is
/// exactly the one in the archive.
pub proof fn law_the_next_search_runs_the_rewritten_engine<
    T: FnOnce(String) -> bool,
    V: FnOnce(String, String) -> Result<(), NotFound>,
    E: FnOnce(&Signed) -> EngineFacts,
    K: FnOnce(&Signed),
    X: FnOnce(&Signed, Option<String>) -> Result<(), String>,
>(
    before: Ground,
    search: Search,
    vacated: (Ground, Ground),
    steps: (Seq<ExtractStep>, Seq<ExtractStep>),
    source: Seq<char>,
    engine: Seq<u8>,
    mark: int,
    candidates: Seq<Candidate>,
    i: int,
    configured: RobloxInstall,
    sources: Sources,
    place: Place,
    verify: V,
    disk: Disk<T, E, K, X>,
    found: Result<Build, NotFound>,
)
    requires
        super::seeks(search, configured, sources, place),
        configured.lib_dir is None,
        // The first search.
        !before.facts(search).beside,
        before.is_vacated(vacated.0),
        extracts(steps.0, search, source),
        // The archive is rewritten.
        ({
            let first = before.launched(search, vacated.0, steps.0);
            let rewritten = first.rewritten(search.apk@, engine, mark);
            &&& !first.facts(search).beside
            &&& mark != first.marks[search.apk@]
            &&& rewritten.is_vacated(vacated.1)
            // The second search.
            &&& answers_for(disk, rewritten)
        }),
        candidates.len() > 0,
        candidates[0].path@ == search.apk@,
        candidates[0].look == Look::HasEngine,
        super::is_source(candidates, i),
        extracts(steps.1, search, candidates[i].path@),
        takes_all(verify),
        super::located(configured, sources, place, verify, disk, found),
    ensures
        ({
            let first = before.launched(search, vacated.0, steps.0);
            let rewritten = first.rewritten(search.apk@, engine, mark);
            let second = rewritten.launched(search, vacated.1, steps.1);
            &&& found is Ok
            &&& search.is_build(found->Ok_0, search.cache@)
            &&& second.files.contains_key(library_of((found->Ok_0).lib_dir@))
            &&& second.files[library_of((found->Ok_0).lib_dir@)] == engine
        }),
{
    let first = before.launched(search, vacated.0, steps.0);
    let rewritten = first.rewritten(search.apk@, engine, mark);
    law_a_launch_settles_the_cache(before, search, vacated.0, source, steps.0);
    law_the_cache_follows_the_archive(
        first,
        search,
        engine,
        mark,
        vacated.1,
        candidates,
        i,
        steps.1,
    );
    lemma_found_in_the_cache(
        rewritten,
        search,
        configured,
        sources,
        place,
        verify,
        disk,
        found,
    );
}

/// An archive that was not touched since a search found it is not extracted by
/// the next: what the cache was made to hold meanwhile is the engine of the
/// build that is found.
pub proof fn law_the_next_search_leaves_an_untouched_engine<
    T: FnOnce(String) -> bool,
    V: FnOnce(String, String) -> Result<(), NotFound>,
    E: FnOnce(&Signed) -> EngineFacts,
    K: FnOnce(&Signed),
    X: FnOnce(&Signed, Option<String>) -> Result<(), String>,
>(
    before: Ground,
    search: Search,
    vacated: (Ground, Ground),
    steps: (Seq<ExtractStep>, Seq<ExtractStep>),
    source: Seq<char>,
    bytes: Seq<u8>,
    configured: RobloxInstall,
    sources: Sources,
    place: Place,
    verify: V,
    disk: Disk<T, E, K, X>,
    found: Result<Build, NotFound>,
)
    requires
        super::seeks(search, configured, sources, place),
        configured.lib_dir is None,
        !before.facts(search).beside,
        before.is_vacated(vacated.0),
        extracts(steps.0, search, source),
        ({
            let first = before.launched(search, vacated.0, steps.0);
            &&& !first.facts(search).beside
            &&& answers_for(disk, first.overwritten(search.cache@, bytes))
        }),
        takes_all(verify),
        super::located(configured, sources, place, verify, disk, found),
    ensures
        ({
            let first = before.launched(search, vacated.0, steps.0);
            let overwritten = first.overwritten(search.cache@, bytes);
            let second = overwritten.launched(search, vacated.1, steps.1);
            &&& found is Ok
            &&& search.is_build(found->Ok_0, search.cache@)
            &&& second.files[library_of((found->Ok_0).lib_dir@)] == bytes
            &&& second == overwritten
        }),
{
    let first = before.launched(search, vacated.0, steps.0);
    let overwritten = first.overwritten(search.cache@, bytes);
    law_a_launch_settles_the_cache(before, search, vacated.0, source, steps.0);
    law_an_untouched_archive_is_not_extracted_again(first, search, bytes, vacated.1, steps.1);
    assert(!overwritten.facts(search).beside);
    lemma_found_in_the_cache(
        overwritten,
        search,
        configured,
        sources,
        place,
        verify,
        disk,
        found,
    );
}

/// The engine is written under another name in the cache, given its own once it
/// is whole, and the cache is marked as the archive's last of all.
pub proof fn law_an_engine_is_whole_before_it_has_its_name(
    steps: Seq<ExtractStep>,
    search: Search,
    source: Seq<char>,
)
    requires
        extracts(steps, search, source),
        search.cache@.len() > 0,
        search.cache@.last() != '/',
    ensures
        library_of(search.cache@) == search.cache@ + "/libroblox.so"@,
        steps.len() == 3,
        steps[0] matches ExtractStep::CopyOut { archive, entry, to } && archive@ == source && entry@
            == "lib/"@ + search.abi@ + "/libroblox.so"@ && to@ == search.cache@
            + "/libroblox.so.partial"@,
        steps[1] matches ExtractStep::Rename { from, to } && from@ == search.cache@
            + "/libroblox.so.partial"@ && to@ == search.cache@ + "/libroblox.so"@,
        steps[2] matches ExtractStep::Stamp { cache, apk } && cache@ == search.cache@ && apk@
            == search.apk@,
{
    reveal_strlit("/");
    reveal_strlit("libroblox.so");
    reveal_strlit("/libroblox.so");
    reveal_strlit(".partial");
    reveal_strlit("/libroblox.so.partial");
    assert(library_of(search.cache@) =~= search.cache@ + "/libroblox.so"@);
    assert(library_of(search.cache@) + ".partial"@ =~= search.cache@ + "/libroblox.so.partial"@);
    assert(super::library_place(search.abi@) =~= "lib/"@ + search.abi@ + "/libroblox.so"@);
}

} // verus!
