//! Which archive and which engine are used, said of what was found.

use vstd::prelude::*;
use vstd::string::*;

use super::{
    Build, Candidate, Disk, EngineChoice, EngineFacts, Look, NotFound, Origin, Place,
    RobloxInstall, Search, Signatures, Signed, Sources, StoreEntry,
};
use crate::text;

verus! {

broadcast use vstd::string::group_string_axioms;

/// What the environment names is used, whatever was chosen, downloaded or found
/// beside it; then what was chosen, then what Cordial downloaded, and Sober's
/// copy only where it is there and nothing else is.
pub proof fn law_the_environment_comes_first(configured: RobloxInstall, sources: Sources)
    ensures
        sources.environment matches Some(apk) ==> super::effective(configured, sources) == Some(
            (apk@, Origin::Environment),
        ),
        sources.environment is None && configured.apk is Some ==> super::effective(
            configured,
            sources,
        ) == Some((configured.apk->0@, Origin::Chosen)),
        sources.environment is None && configured.apk is None && sources.managed is Some
            ==> super::effective(configured, sources) == Some(
            (sources.managed->0@, Origin::Managed),
        ),
        sources.environment is None && configured.apk is None && sources.managed is None
            && sources.sober_is_file ==> super::effective(configured, sources) == Some(
            (sources.sober@, Origin::Sober),
        ),
        sources.environment is None && configured.apk is None && sources.managed is None
            && !sources.sober_is_file ==> super::effective(configured, sources) is None,
{
}

/// What ranks lower than the archive that is used never decides which it is.
pub proof fn law_what_ranks_lower_never_decides(
    configured: RobloxInstall,
    other: RobloxInstall,
    sources: Sources,
    others: Sources,
)
    requires
        sources.environment == others.environment,
    ensures
        sources.environment is Some ==> super::effective(configured, sources) == super::effective(
            other,
            others,
        ),
        configured.apk is Some && configured.apk == other.apk ==> super::effective(
            configured,
            sources,
        ) == super::effective(other, others),
        configured.apk == other.apk && sources.managed is Some && sources.managed == others.managed
            ==> super::effective(configured, sources) == super::effective(other, others),
{
}

/// Cordial replaces only a build of its own, and says why it leaves any other.
pub proof fn law_only_a_build_of_its_own_is_replaced()
    ensures
        Origin::Managed.reason() is None,
        Origin::Environment.reason() == Some(
            "CORDIAL_APK names the build for this run, so Cordial will not replace it."@,
        ),
        Origin::Chosen.reason() == Some(
            "You chose this APK, so Cordial will not replace it. Clear it on the Roblox page to let Cordial manage a build instead."@,
        ),
        Origin::Sober.reason() == Some(
            "This build belongs to Sober and Cordial will not write to it. Download one and Cordial will manage its own copy."@,
        ),
        super::LIBRARY@ == "libroblox.so"@,
        super::APK_OVERRIDE@ == "CORDIAL_APK"@,
{
}

/// The extracted engine is kept under the cache directory, the one under the home
/// directory where that is not set, and the temporary one where neither is.
pub proof fn law_an_engine_is_kept_under_the_cache(
    cache: Seq<char>,
    home: Option<Seq<char>>,
    house: Seq<char>,
    temp: Seq<char>,
    abi: Seq<char>,
)
    requires
        cache.len() > 0,
        cache.last() != '/',
        house.len() > 0,
        house.last() != '/',
        temp.len() > 0,
        temp.last() != '/',
    ensures
        super::cache_path(Some(cache), home, temp, abi) == cache + "/cordial/lib/"@ + abi,
        super::cache_path(None, Some(house), temp, abi) == house + "/.cache/cordial/lib/"@ + abi,
        super::cache_path(None, None, temp, abi) == temp + "/cordial/lib/"@ + abi,
{
    reveal_strlit("cordial/lib");
    reveal_strlit("/cordial/lib/");
    reveal_strlit("/.cache/cordial/lib/");
    reveal_strlit(".cache");
    lemma_kept(cache, abi);
    lemma_kept(temp, abi);
    let base = text::joined(house, ".cache"@);
    assert(base.last() == 'e');
    lemma_kept(base, abi);
    assert(base + "/cordial/lib/"@ + abi =~= house + "/.cache/cordial/lib/"@ + abi);
}

proof fn lemma_kept(base: Seq<char>, abi: Seq<char>)
    requires
        base.len() > 0,
        base.last() != '/',
    ensures
        text::joined(text::joined(base, "cordial/lib"@), abi) == base + "/cordial/lib/"@ + abi,
{
    reveal_strlit("cordial/lib");
    reveal_strlit("/cordial/lib/");
    let under = text::joined(base, "cordial/lib"@);
    assert(under.last() == 'b');
    assert(text::joined(under, abi) =~= base + "/cordial/lib/"@ + abi);
}

/// The engine's place in an archive, and beside one.
pub proof fn law_an_engine_has_its_place(search: Search, dir: String)
    requires
        search.apk_dir == Some(dir),
        dir@.len() > 0,
        dir@.last() != '/',
    ensures
        super::library_place(search.abi@) == "lib/"@ + search.abi@ + "/libroblox.so"@,
        search.beside() == Some(dir@ + "/lib/"@ + search.abi@),
{
    reveal_strlit("/");
    reveal_strlit("lib");
    reveal_strlit("/lib/");
    reveal_strlit("libroblox.so");
    reveal_strlit("/libroblox.so");
    assert(super::library_place(search.abi@) =~= "lib/"@ + search.abi@ + "/libroblox.so"@);
    let under = text::joined(dir@, "lib"@);
    assert(under.last() == 'b');
    assert(text::joined(under, search.abi@) =~= dir@ + "/lib/"@ + search.abi@);
}

/// An archive whose directory is not known has nothing beside it.
pub proof fn law_nothing_is_beside_an_archive_of_no_directory(search: Search)
    requires
        search.apk_dir is None,
    ensures
        search.beside() is None,
{
}

/// A pinned build is the first entry of its version, wherever that stands, and
/// there is none where no entry is of that version.
pub proof fn law_a_pinned_build_is_the_first_of_its_version(
    before: Seq<StoreEntry>,
    entry: StoreEntry,
    after: Seq<StoreEntry>,
)
    requires
        forall|j: int|
            0 <= j < before.len() ==> (#[trigger] before[j]).version@ != entry.version@,
    ensures
        super::entry_of(before + seq![entry] + after, entry.version@) == Some(entry),
        super::entry_of(before, entry.version@) is None,
{
    let entries = before + seq![entry] + after;
    let at = before.len() as int;
    assert(entries[at] == entry);
    assert forall|j: int| 0 <= j < at implies (#[trigger] entries[j]).version@ != entry.version@ by {
        assert(entries[j] == before[j]);
    }
    assert(super::is_entry_of(entries, entry.version@, at));
    super::lemma_entry_of(entries, entry.version@, at);
}

/// What is said where no build can be had, of whatever was looked for.
pub proof fn law_what_is_said_names_what_was_looked_for(
    search: Search,
    what: Seq<char>,
    e: Seq<char>,
    tried: nat,
    facts: EngineFacts,
)
    ensures
        super::unkept_text(what) == "This profile is pinned to Roblox "@ + what
            + ", and that build is not in Cordial's store. Open Settings and choose another version, or clear the pin to follow whichever build is current."@,
        super::incomplete_text(what) == "This profile is pinned to Roblox "@ + what
            + ", and Cordial kept that build's engine without the APK it came from -- so its assets are gone and it cannot be run on its own. Clear the pin, or pin a build Cordial has downloaded since."@,
        super::no_apk_text(what) == "No APK at "@ + what
            + ". Open Settings and choose one, or clear it to let Cordial look again."@,
        super::unsigned_text(what, e) == "Cordial will not run "@ + what + ": "@ + e
            + ".\n\nThis is the archive Cordial was pointed at, not one it downloaded. Clear the APK in Settings to let Cordial find or fetch a build it can check."@,
        super::no_library_text(what) == "No "@ + "libroblox.so"@ + " in "@ + what
            + ". Open Settings and clear the engine directory to let Cordial extract one."@,
        search.no_engine_text(tried, e) == "No "@ + super::library_place(search.abi@) + " in "@
            + search.apk@ + " or its split_config siblings ("@ + text::decimal(tried)
            + " tried). On a split build the engine is in "@ + e
            + ", not base.apk \u{2014} if it is somewhere else, set the engine directory in Settings."@,
        facts.cached ==> search.stale_line(facts) == Some(
            "  shell: "@ + search.cache@ + " was extracted from a different "@ + search.apk@
                + "; re-extracting"@,
        ),
        !facts.cached ==> search.stale_line(facts) is None,
{
}

/// Two certificates are one where each character of one is that of the other, or
/// that letter in the other case.
#[verifier::rlimit(40)]
pub proof fn law_certificates_are_compared_but_for_case(a: Seq<char>, b: Seq<char>)
    ensures
        super::same_but_for_case(a, b) <==> a.len() == b.len() && forall|i: int|
            #![trigger a[i], b[i]]
            0 <= i < a.len() ==> a[i] as int == b[i] as int || (0x41 <= a[i] as int <= 0x5a
                && b[i] as int == a[i] as int + 0x20) || (0x41 <= b[i] as int <= 0x5a && a[i] as int
                == b[i] as int + 0x20),
{
    let one = text::ascii_lowered(a);
    let two = text::ascii_lowered(b);
    if super::same_but_for_case(a, b) {
        assert(one.len() == a.len() && two.len() == b.len());
        assert forall|i: int| #![trigger a[i], b[i]] 0 <= i < a.len() implies a[i] as int
            == b[i] as int || (0x41 <= a[i] as int <= 0x5a && b[i] as int == a[i] as int + 0x20) || (
        0x41 <= b[i] as int <= 0x5a && a[i] as int == b[i] as int + 0x20) by {
            assert(one[i] == two[i]);
            text::law_lowering_moves_the_capitals(a, i);
            text::law_lowering_moves_the_capitals(b, i);
        }
    }
    if a.len() == b.len() && forall|i: int|
        #![trigger a[i], b[i]]
        0 <= i < a.len() ==> a[i] as int == b[i] as int || (0x41 <= a[i] as int <= 0x5a
            && b[i] as int == a[i] as int + 0x20) || (0x41 <= b[i] as int <= 0x5a && a[i] as int
            == b[i] as int + 0x20) {
        assert forall|i: int| 0 <= i < a.len() implies one[i] == two[i] by {
            text::law_lowering_moves_the_capitals(a, i);
            text::law_lowering_moves_the_capitals(b, i);
            assert(a[i] as int == b[i] as int || (0x41 <= a[i] as int <= 0x5a && b[i] as int
                == a[i] as int + 0x20) || (0x41 <= b[i] as int <= 0x5a && a[i] as int == b[i] as int
                + 0x20));
        }
        assert(one =~= two);
    }
}

/// A certificate is pinned wherever in the list it stands, and none is where no
/// record was made.
pub proof fn law_a_certificate_is_pinned_wherever_it_stands(
    recorded: Seq<char>,
    pinned: Seq<String>,
)
    ensures
        super::is_pinned(Some(recorded), pinned) <==> exists|i: int|
            0 <= i < pinned.len() && super::same_but_for_case((#[trigger] pinned[i])@, recorded),
        !super::is_pinned(None, pinned),
{
}

/// A directory that was chosen is the only one considered. Without one, the
/// engine beside the archive comes before the cached one, the cached one is used
/// only where it came from this archive as it is now, and otherwise the engine is
/// extracted.
pub proof fn law_an_engine_is_chosen_in_order(search: Search, facts: EngineFacts)
    ensures
        search.lib_dir is Some && facts.chosen ==> search.choice(facts) == EngineChoice::Here(
            search.lib_dir->0@,
        ),
        search.lib_dir is Some && !facts.chosen ==> search.choice(facts) == EngineChoice::Missing(
            search.lib_dir->0@,
        ),
        search.lib_dir is None && search.apk_dir is Some && facts.beside ==> search.choice(facts)
            == EngineChoice::Here(
            text::joined(text::joined(search.apk_dir->0@, "lib"@), search.abi@),
        ),
        search.lib_dir is None && (search.apk_dir is None || !facts.beside) && facts.cached
            && facts.current ==> search.choice(facts) is Cached,
        search.lib_dir is None && (search.apk_dir is None || !facts.beside) && !(facts.cached
            && facts.current) ==> search.choice(facts) is Extract,
{
}

/// A build is where its engine was chosen from, and one that had to be extracted
/// is in the cache, or the extraction's own failure is the answer.
#[verifier::rlimit(40)]
pub proof fn law_a_build_is_where_its_engine_is<
    E: FnOnce(&Signed) -> EngineFacts,
    K: FnOnce(&Signed),
    X: FnOnce(&Signed, Option<String>) -> Result<(), String>,
>(
    signed: Signed,
    engine: E,
    keep: K,
    extract: X,
    found: Result<Build, NotFound>,
    facts: EngineFacts,
    outcome: Result<(), String>,
)
    requires
        super::built(signed, engine, keep, extract, found),
        forall|said: EngineFacts| #[trigger]
            call_ensures(engine, (&signed,), said) ==> said == facts,
        forall|stale: Option<String>, came: Result<(), String>| #[trigger]
            call_ensures(extract, (&signed, stale), came) ==> came == outcome,
    ensures
        found is Ok ==> found->Ok_0.apk@ == signed.archive().apk@,
        signed.archive().lib_dir is Some && facts.chosen ==> found is Ok && found->Ok_0.lib_dir@
            == signed.archive().lib_dir->0@,
        signed.archive().lib_dir is Some && !facts.chosen ==> (found matches Err(
            NotFound::Unusable(said),
        ) && said@ == super::no_library_text(signed.archive().lib_dir->0@)),
        signed.archive().lib_dir is None && signed.archive().apk_dir is Some && facts.beside
            ==> found is Ok && found->Ok_0.lib_dir@ == text::joined(
            text::joined(signed.archive().apk_dir->0@, "lib"@),
            signed.archive().abi@,
        ),
        signed.archive().lib_dir is None && (signed.archive().apk_dir is None || !facts.beside)
            && facts.cached && facts.current ==> found is Ok && found->Ok_0.lib_dir@
            == signed.archive().cache@,
        signed.archive().lib_dir is None && (signed.archive().apk_dir is None || !facts.beside) && !(
        facts.cached && facts.current) ==> match outcome {
            Ok(_) => found is Ok && found->Ok_0.lib_dir@ == signed.archive().cache@,
            Err(e) => found == Err::<Build, NotFound>(NotFound::Unusable(e)),
        },
{
    let said = choose|said: EngineFacts| #[trigger]
        call_ensures(engine, (&signed,), said) && match signed.archive().choice(said) {
            EngineChoice::Here(dir) => found is Ok && signed.archive().is_build(found->Ok_0, dir),
            EngineChoice::Cached => call_ensures(keep, (&signed,), ()) && found is Ok
                && signed.archive().is_build(found->Ok_0, signed.archive().cache@),
            EngineChoice::Extract => exists|stale: Option<String>, outcome: Result<(), String>|
                #[trigger] call_ensures(extract, (&signed, stale), outcome)
                    && crate::secrets::option_view(stale) == signed.archive().stale_line(said)
                    && match outcome {
                    Ok(_) => found is Ok && signed.archive().is_build(
                        found->Ok_0,
                        signed.archive().cache@,
                    ),
                    Err(e) => found == Err::<Build, NotFound>(NotFound::Unusable(e)),
                },
            EngineChoice::Missing(dir) => found matches Err(NotFound::Unusable(said)) && said@
                == super::no_library_text(dir),
        };
    assert(said == facts);
}

/// A search is for the archive that is used, and its engine is looked for where
/// that was chosen, beside the archive and in the cache.
pub proof fn law_a_search_is_for_the_archive_that_is_used(
    search: Search,
    configured: RobloxInstall,
    sources: Sources,
    place: Place,
)
    requires
        super::seeks(search, configured, sources, place),
    ensures
        super::effective(configured, sources) is Some,
        search.apk@ == (super::effective(configured, sources)->0).0,
        search.apk_dir == place.apk_dir,
        search.cache@ == place.cache@,
        search.abi@ == place.abi@,
        search.lib_dir is Some <==> configured.lib_dir is Some,
        search.lib_dir is Some ==> search.lib_dir->0@ == configured.lib_dir->0@,
{
}

/// Nothing anywhere is a first run; an archive that has gone away is named.
pub proof fn law_an_archive_that_is_gone_is_named<T: FnOnce(String) -> bool>(
    configured: RobloxInstall,
    sources: Sources,
    there: T,
    why: NotFound,
)
    requires
        super::is_absent(configured, sources, there, why),
    ensures
        super::effective(configured, sources) is None ==> why is NoBuild,
        super::effective(configured, sources) matches Some((apk, _)) ==> (why matches
            NotFound::Unusable(said) && said@ == "No APK at "@ + apk
            + ". Open Settings and choose one, or clear it to let Cordial look again."@),
{
}

/// The engine is taken from the first archive that holds it, and only from that
/// one, whatever could not be read before it.
pub proof fn law_the_engine_is_taken_from_the_first_that_holds_it(
    before: Seq<Candidate>,
    candidate: Candidate,
    after: Seq<Candidate>,
    i: int,
)
    requires
        forall|j: int|
            0 <= j < before.len() ==> (#[trigger] before[j]).look is Unreadable
                || before[j].look is NoEngine,
        candidate.look is HasEngine,
    ensures
        super::is_source(before + seq![candidate] + after, i) <==> i == before.len(),
        !super::is_source(before, i),
{
    let all = before + seq![candidate] + after;
    let at = before.len() as int;
    assert(all[at] == candidate);
    assert forall|j: int| 0 <= j < at implies (#[trigger] all[j]).look != Look::HasEngine by {
        assert(all[j] == before[j]);
    }
    if super::is_source(before, i) {
        assert(before[i].look is HasEngine);
    }
}

/// Archives without the engine are counted, and one that could not be read is
/// not among them.
pub proof fn law_archives_without_the_engine_are_counted(
    candidates: Seq<Candidate>,
    candidate: Candidate,
)
    ensures
        super::without_engine(Seq::<Candidate>::empty()) == 0,
        candidate.look is NoEngine ==> super::without_engine(candidates.push(candidate))
            == super::without_engine(candidates) + 1,
        !(candidate.look is NoEngine) ==> super::without_engine(candidates.push(candidate))
            == super::without_engine(candidates),
{
    assert(candidates.push(candidate).drop_last() =~= candidates);
}

/// A split archive is named `split_config`, anything, and `.apk`.
#[verifier::rlimit(40)]
pub proof fn law_a_split_archive_is_named_as_one(name: Seq<char>, middle: Seq<char>)
    ensures
        super::is_split("split_config"@ + middle + ".apk"@),
        super::is_split(name) ==> exists|rest: Seq<char>|
            name == #[trigger] ("split_config"@ + rest + ".apk"@),
{
    reveal_strlit("split_config");
    reveal_strlit(".apk");
    let one = "split_config"@ + middle + ".apk"@;
    text::law_a_text_begins_and_ends_with_its_parts(middle + ".apk"@, "split_config"@);
    assert(one =~= "split_config"@ + (middle + ".apk"@));
    text::law_a_text_begins_and_ends_with_its_parts("split_config"@ + middle, ".apk"@);
    if super::is_split(name) {
        text::law_a_text_begins_and_ends_with_its_parts(name, "split_config"@);
        text::law_a_text_begins_and_ends_with_its_parts(name, ".apk"@);
        if name.len() < 16 {
            let at = name.len() - 4;
            assert(0 <= at < 12);
            assert(name.take(12)[at] == "split_config"@[at]);
            assert(name.skip(at)[0] == '.');
        }
        let rest = name.subrange(12, name.len() - 4);
        assert(name =~= "split_config"@ + rest + ".apk"@) by {
            assert forall|i: int| 0 <= i < name.len() implies name[i] == ("split_config"@ + rest
                + ".apk"@)[i] by {
                if i < 12 {
                    assert(name.take(12)[i] == name[i]);
                } else if i >= name.len() - 4 {
                    assert(name.skip(name.len() - 4)[i - (name.len() - 4)] == name[i]);
                }
            }
        }
    }
}

/// The split archives beside an archive are those of its directory, each at its
/// place in it.
pub proof fn law_split_archives_are_found_in_their_directory(
    dir: Seq<char>,
    files: Seq<Option<String>>,
    file: Option<String>,
)
    ensures
        super::splits_in(dir, Seq::<Option<String>>::empty()) == Seq::<Seq<char>>::empty(),
        file is Some && super::is_split(file->0@) ==> super::splits_in(dir, files.push(file))
            == super::splits_in(dir, files).push(text::joined(dir, file->0@)),
        file is None || !super::is_split(file->0@) ==> super::splits_in(dir, files.push(file))
            == super::splits_in(dir, files),
{
    let place = |file: Option<String>|
        match file {
            Some(name) => if super::is_split(name@) {
                Some(text::joined(dir, name@))
            } else {
                None
            },
            None => None,
        };
    assert(files.push(file).map_values(place).drop_last() =~= files.map_values(place));
    assert(files.push(file).map_values(place).last() == place(file));
}

/// A cache that is recorded under a pinned certificate is taken. Otherwise the
/// archive is verified: one that Roblox signed is taken, and what is wrong with
/// any other is said.
pub proof fn law_a_signature_is_established_once<
    R: FnOnce(String) -> Option<String>,
    V: FnOnce(String) -> Result<String, String>,
    W: FnOnce(String, String),
>(
    signatures: Signatures<R, V, W>,
    search: Search,
    verdict: Result<(), NotFound>,
    record: Option<String>,
    outcome: Result<String, String>,
)
    requires
        super::established(signatures, search, verdict),
        forall|at: String, said: Option<String>| #[trigger]
            call_ensures(signatures.recorded, (at,), said) ==> said == record,
        forall|path: String, said: Result<String, String>| #[trigger]
            call_ensures(signatures.verify, (path,), said) ==> said == outcome,
    ensures
        record is Some && super::is_pinned(Some(record->0@), signatures.pinned@) ==> verdict is Ok,
        !(record is Some && super::is_pinned(Some(record->0@), signatures.pinned@)) && outcome is Ok
            ==> verdict is Ok,
        !(record is Some && super::is_pinned(Some(record->0@), signatures.pinned@)) && outcome
            is Err ==> (verdict matches Err(NotFound::Unusable(said)) && said@
            == super::unsigned_text(search.apk@, outcome->Err_0@)),
{
    let answer = choose|answer: Option<String>| #[trigger]
        super::recalled(signatures.recorded, search.cache@, answer) && if super::is_pinned(
            crate::secrets::option_view(answer),
            signatures.pinned@,
        ) {
            verdict is Ok
        } else {
            exists|said: Result<String, String>| #[trigger]
                super::examined(signatures.verify, search.apk@, said) && match said {
                    Ok(certificate) => super::noted(
                        signatures.record,
                        search.cache@,
                        certificate,
                    ) && verdict is Ok,
                    Err(e) => verdict matches Err(NotFound::Unusable(said)) && said@
                        == super::unsigned_text(search.apk@, e@),
                }
        };
    assert(answer == record);
}

/// What looking for a build comes to: an archive that is not there is named, one
/// that the check refused is refused for that reason, and any other is built.
pub proof fn law_a_search_comes_to_what_was_found<
    T: FnOnce(String) -> bool,
    V: FnOnce(String, String) -> Result<(), NotFound>,
    E: FnOnce(&Signed) -> EngineFacts,
    K: FnOnce(&Signed),
    X: FnOnce(&Signed, Option<String>) -> Result<(), String>,
>(
    configured: RobloxInstall,
    sources: Sources,
    place: Place,
    verify: V,
    disk: Disk<T, E, K, X>,
    found: Result<Build, NotFound>,
    is_there: bool,
    verdict: Result<(), NotFound>,
)
    requires
        super::located(configured, sources, place, verify, disk, found),
        forall|path: String, said: bool| #[trigger]
            call_ensures(disk.there, (path,), said) ==> said == is_there,
        forall|apk: String, cache: String, said: Result<(), NotFound>| #[trigger]
            call_ensures(verify, (apk, cache), said) ==> said == verdict,
    ensures
        super::effective(configured, sources) is None ==> found == Err::<Build, NotFound>(
            NotFound::NoBuild,
        ),
        super::effective(configured, sources) matches Some((apk, _)) ==> {
            &&& !is_there ==> (found matches Err(NotFound::Unusable(said)) && said@ == "No APK at "@
                + apk + ". Open Settings and choose one, or clear it to let Cordial look again."@)
            &&& is_there && verdict is Err ==> found == Err::<Build, NotFound>(verdict->Err_0)
            &&& is_there && verdict is Ok ==> exists|signed: Signed|
                super::seeks(signed.archive(), configured, sources, place) && #[trigger]
                super::built(signed, disk.engine, disk.keep, disk.extract, found)
        },
{
    if found is Err && super::is_absent(configured, sources, disk.there, found->Err_0) {
    } else {
        let search = choose|search: Search| #[trigger]
            super::seeks(search, configured, sources, place) && super::is_there(
                disk.there,
                search.apk@,
                true,
            ) && ((found is Err && super::refused(verify, search, found->Err_0)) || (super::accepted(
                verify,
                search,
            ) && exists|signed: Signed|
                signed.archive() == search && #[trigger] super::built(
                    signed,
                    disk.engine,
                    disk.keep,
                    disk.extract,
                    found,
                )));
        assert(super::seeks(search, configured, sources, place));
    }
}

} // verus!
