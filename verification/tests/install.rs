use std::cell::RefCell;
use std::collections::HashMap;

use cordial_shell::install::extraction::ExtractStep;
use cordial_shell::install::{
    apply_pin, dropped_line, effective_apk, engine_cache, engine_candidates, kept_previous_line,
    keyed_line, library_in_apk, locate, locate_with, not_recorded_line, signer_is_known, sober_apk,
    sober_apk_under, Build, Candidate, Disk, EngineFacts, EngineStep, Look, NotFound, Origin, Place,
    RobloxInstall, Signatures, Signed, Sources, StoreEntry, LIBRARY,
};

fn nothing_found() -> Sources {
    Sources {
        environment: None,
        managed: None,
        sober: "/sober/base.apk".to_string(),
        sober_is_file: false,
    }
}

fn place() -> Place {
    Place {
        apk_dir: Some("/somewhere".to_string()),
        cache: "/cache".to_string(),
        abi: "x86_64".to_string(),
    }
}

fn chosen(lib_dir: Option<&str>) -> RobloxInstall {
    RobloxInstall {
        apk: Some("/somewhere/base.apk".to_string()),
        lib_dir: lib_dir.map(str::to_string),
    }
}

/// An engine in a current cache.
const CACHED: EngineFacts =
    EngineFacts { chosen: false, beside: false, cached: true, current: true };

/// Look for a build of an archive that is there and is signed.
fn accepted(
    install: &RobloxInstall,
    sources: &Sources,
    engine: impl FnOnce(&Signed) -> EngineFacts,
    extract: impl FnOnce(&Signed, Option<String>) -> Result<(), String>,
) -> Result<Build, NotFound> {
    let disk = Disk { there: |_: String| true, engine, keep: |_: &Signed| (), extract };
    locate_with(install, sources, place(), |_: String, _: String| Ok(()), disk)
}

/// Ask something of an archive that is signed.
fn of_signed<T>(lib_dir: Option<&str>, ask: impl FnOnce(&Signed) -> T) -> T {
    let mut answer = None;
    let engine = |signed: &Signed| {
        answer = Some(ask(signed));
        EngineFacts { chosen: true, ..CACHED }
    };
    accepted(&chosen(lib_dir), &nothing_found(), engine, |_, _| unreachable!()).unwrap();
    answer.unwrap()
}

/// A machine with one archive on it, and a cache.
#[derive(Default)]
struct Machine {
    /// The engine in the archive, and the size that tells its states apart.
    archive: (Vec<u8>, usize),
    files: HashMap<String, Vec<u8>>,
    stamps: HashMap<String, usize>,
    extractions: usize,
}

impl Machine {
    fn holding(engine: &[u8]) -> RefCell<Machine> {
        let machine = RefCell::new(Machine::default());
        machine.borrow_mut().rewrite(engine);
        machine
    }

    fn rewrite(&mut self, engine: &[u8]) {
        self.archive = (engine.to_vec(), engine.len());
    }

    fn library(&self, build: &Build) -> Vec<u8> {
        self.files[&format!("{}/{LIBRARY}", build.lib_dir)].clone()
    }

    fn extract(&mut self, signed: &Signed) {
        self.extractions += 1;
        let apk = signed.search().apk.clone();
        let candidates = vec![Candidate { path: apk, look: Look::HasEngine }];
        let source = signed.engine_source(&candidates, "split_config.x86_64.apk").unwrap();
        for step in signed.extraction(&source) {
            match step {
                ExtractStep::CopyOut { archive, entry, to } => {
                    assert_eq!(archive, "/somewhere/base.apk");
                    assert_eq!(entry, library_in_apk("x86_64"));
                    self.files.insert(to, self.archive.0.clone());
                }
                ExtractStep::Rename { from, to } => {
                    let bytes = self.files.remove(&from).unwrap();
                    self.files.insert(to, bytes);
                }
                ExtractStep::Stamp { cache, apk } => {
                    assert_eq!(apk, "/somewhere/base.apk");
                    self.stamps.insert(cache, self.archive.1);
                }
            }
        }
    }
}

/// Launch on a machine, with a check that takes any archive.
fn launch(machine: &RefCell<Machine>) -> Build {
    let engine = |signed: &Signed| {
        let machine = machine.borrow();
        let cache = &signed.search().cache;
        EngineFacts {
            chosen: false,
            beside: false,
            cached: machine.files.contains_key(&format!("{cache}/{LIBRARY}")),
            current: machine.stamps.get(cache) == Some(&machine.archive.1),
        }
    };
    let extract = |signed: &Signed, _: Option<String>| {
        machine.borrow_mut().extract(signed);
        Ok(())
    };
    accepted(&chosen(None), &nothing_found(), engine, extract).unwrap()
}

/// Look for a build through the real entry point, where verifying says this of
/// the archive and nothing is done for one that is refused.
fn verified(
    there: bool,
    recorded: Option<&str>,
    verify: impl FnOnce(String) -> Result<String, String>,
    record: impl FnOnce(String, String),
    facts: Option<EngineFacts>,
) -> Result<Build, NotFound> {
    let signatures = Signatures {
        pinned: vec!["ab12".to_string()],
        recorded: |cache: String| {
            assert_eq!(cache, "/cache");
            recorded.map(str::to_string)
        },
        verify,
        record,
    };
    let disk = Disk {
        there: |path: String| {
            assert_eq!(path, "/somewhere/base.apk");
            there
        },
        engine: |_: &Signed| facts.expect("nothing is looked for"),
        keep: |_: &Signed| (),
        extract: |_: &Signed, _: Option<String>| unreachable!(),
    };
    locate(&chosen(None), &nothing_found(), place(), signatures, disk)
}

#[test]
fn a_chosen_apk_wins_over_anything_detected() {
    let install = RobloxInstall { apk: Some("/somewhere/base.apk".to_string()), lib_dir: None };
    let sources = Sources {
        managed: Some("/managed/base.apk".to_string()),
        sober_is_file: true,
        ..nothing_found()
    };
    let (apk, origin) = effective_apk(&install, &sources).unwrap();
    assert_eq!(apk, "/somewhere/base.apk");
    assert_eq!(origin, Origin::Chosen);
}

#[test]
fn the_environment_override_wins_over_the_saved_setting() {
    let install = RobloxInstall { apk: Some("/from/settings/base.apk".to_string()), lib_dir: None };
    let sources =
        Sources { environment: Some("/from/env/base.apk".to_string()), ..nothing_found() };
    let (apk, origin) = effective_apk(&install, &sources).unwrap();
    assert_eq!(apk, "/from/env/base.apk");
    assert_eq!(origin, Origin::Environment);
}

#[test]
fn only_a_build_cordial_installed_is_one_it_will_replace() {
    assert!(Origin::Managed.updatable());
    assert!(!Origin::Chosen.updatable());
    assert!(!Origin::Environment.updatable());
    assert!(!Origin::Sober.updatable());

    // And every case that is not updatable says why.
    for origin in [Origin::Chosen, Origin::Environment, Origin::Sober] {
        let why = origin.why_not_updatable().expect("must say why");
        assert!(!why.is_empty(), "{origin:?}");
    }
    assert!(Origin::Managed.why_not_updatable().is_none());
}

#[test]
fn a_build_cordial_downloaded_itself_is_one_the_launcher_can_find() {
    let order = [Origin::Environment, Origin::Chosen, Origin::Managed, Origin::Sober];
    assert_eq!(order.len(), 4, "a new origin needs a place in this order");

    // Managed comes after the two that are somebody stating a preference, and
    // before the one that is a file which merely happens to be there.
    let managed_at = order.iter().position(|o| *o == Origin::Managed).unwrap();
    let sober_at = order.iter().position(|o| *o == Origin::Sober).unwrap();
    let chosen_at = order.iter().position(|o| *o == Origin::Chosen).unwrap();
    assert!(managed_at < sober_at, "a deliberate download must beat a file that was lying about");
    assert!(chosen_at < managed_at, "an explicit choice in Settings must beat a download");

    assert!(Origin::Managed.describe().contains("Cordial"));
    assert!(Origin::Sober.describe().contains("Sober"));

    // And that is the order they are looked for in.
    let both = Sources {
        managed: Some("/managed/base.apk".to_string()),
        sober_is_file: true,
        ..nothing_found()
    };
    let nothing_chosen = RobloxInstall::default();
    assert_eq!(effective_apk(&nothing_chosen, &both).unwrap().1, Origin::Managed);
    let sober = Sources { managed: None, ..both };
    assert_eq!(
        effective_apk(&nothing_chosen, &sober).unwrap(),
        ("/sober/base.apk".to_string(), Origin::Sober)
    );
    assert!(effective_apk(&nothing_chosen, &nothing_found()).is_none());
}

#[test]
fn the_split_apk_is_tried_after_the_one_it_was_given() {
    // The engine is not in base.apk on a split build, so the order is pinned.
    let split_name = "split_config.x86_64.apk";
    let files = ["base.apk", split_name, "split_config.en.apk", "notes.txt"]
        .map(|name| Some(name.to_string()))
        .to_vec();
    let candidates = engine_candidates("/d/base.apk", Some(("/d", files)));
    assert_eq!(
        candidates,
        ["/d/base.apk", "/d/split_config.en.apk", "/d/split_config.x86_64.apk"]
    );
    assert_eq!(engine_candidates("/d/base.apk", None), ["/d/base.apk"]);
}

#[test]
fn the_detected_location_is_the_one_the_justfile_documents() {
    let abi = "x86_64";
    assert_eq!(
        sober_apk_under("/home/someone", abi),
        format!(
            "/home/someone/.var/app/org.vinegarhq.Sober/data/sober/packages/{abi}/com.roblox.client/base.apk"
        )
    );
    assert_eq!(sober_apk(Some("/home/someone"), "/tmp", abi), sober_apk_under("/home/someone", abi));
    assert_eq!(sober_apk(None, "/tmp", abi), sober_apk_under("/tmp", abi));
}

#[test]
fn a_configured_apk_that_has_gone_away_is_reported_rather_than_ignored() {
    // Nothing is verified that is not there.
    match verified(false, None, |_| unreachable!(), |_, _| unreachable!(), None) {
        Err(NotFound::Unusable(msg)) => {
            assert!(msg.contains("Settings"), "{msg}");
            assert!(msg.starts_with("No APK at /somewhere/base.apk."), "{msg}");
        }
        other => panic!("expected a usable message, got {other:?}"),
    }
}

#[test]
fn a_new_roblox_build_re_extracts_rather_than_running_the_old_engine() {
    let machine = Machine::holding(b"the old engine");
    let first = launch(&machine);
    assert_eq!(machine.borrow().library(&first), b"the old engine");

    // A new Roblox build lands at the same path.
    machine.borrow_mut().rewrite(b"the new engine, which is longer");
    let second = launch(&machine);
    assert_eq!(
        machine.borrow().library(&second),
        b"the new engine, which is longer",
        "the cache must follow the APK it was extracted from"
    );
    assert_eq!(machine.borrow().extractions, 2);

    let stale = EngineFacts { current: false, ..CACHED };
    match of_signed(None, |signed| signed.engine(stale)) {
        EngineStep::Extract { stale: Some(line) } => {
            assert!(line.contains("was extracted from a different /somewhere/base.apk"), "{line}")
        }
        _ => panic!("the cache must follow the APK it was extracted from"),
    }
}

#[test]
fn an_unchanged_apk_does_not_re_extract() {
    let machine = Machine::holding(b"the engine");
    let build = launch(&machine);
    // Something no extraction would ever produce, so its survival is proof the
    // second launch did not extract.
    let library = format!("{}/{LIBRARY}", build.lib_dir);
    machine.borrow_mut().files.insert(library, b"left alone".to_vec());
    let again = launch(&machine);
    assert_eq!(
        machine.borrow().library(&again),
        b"left alone",
        "an unchanged APK must not re-extract"
    );
    assert_eq!(machine.borrow().extractions, 1);
    assert_eq!(
        again,
        Build { apk: "/somewhere/base.apk".to_string(), lib_dir: "/cache".to_string() }
    );
}

#[test]
fn an_interrupted_extraction_leaves_the_old_engine() {
    let steps = of_signed(None, |signed| signed.extraction("/somewhere/split.apk"));
    assert_eq!(steps.len(), 3);
    let library = format!("/cache/{LIBRARY}");
    let partial = format!("{library}.partial");
    assert!(matches!(&steps[0], ExtractStep::CopyOut { archive, to, .. }
        if archive == "/somewhere/split.apk" && *to == partial));
    assert!(matches!(&steps[1], ExtractStep::Rename { from, to }
        if *from == partial && *to == library));
    assert!(matches!(&steps[2], ExtractStep::Stamp { cache, apk }
        if cache == "/cache" && apk == "/somewhere/base.apk"));
}

#[test]
fn an_archive_without_the_engine_says_where_it_looked() {
    let candidates = vec![
        Candidate { path: "/somewhere/base.apk".to_string(), look: Look::Unreadable },
        Candidate { path: "/somewhere/split_config.en.apk".to_string(), look: Look::NoEngine },
    ];
    let fresh = EngineFacts { cached: false, current: false, ..CACHED };
    let extract = |signed: &Signed, stale: Option<String>| {
        assert_eq!(stale, None);
        signed.engine_source(&candidates, "split_config.x86_64.apk").map(|_| ())
    };
    match accepted(&chosen(None), &nothing_found(), |_| fresh, extract) {
        Err(NotFound::Unusable(err)) => {
            assert!(err.contains("split_config"), "{err}");
            assert!(err.contains("(1 tried)"), "{err}");
            assert!(err.contains(&library_in_apk("x86_64")), "{err}");
        }
        other => panic!("{other:?}"),
    }
}

#[test]
fn an_unsigned_archive_is_refused_by_the_real_entry_point() {
    let verify = |apk: String| {
        assert_eq!(apk, "/somewhere/base.apk");
        Err("no APK signing block".to_string())
    };
    match verified(true, None, verify, |_, _| unreachable!(), None) {
        Err(NotFound::Unusable(msg)) => {
            assert!(msg.contains("no APK signing block"), "{msg}");
            assert!(msg.starts_with("Cordial will not run /somewhere/base.apk: "), "{msg}");
        }
        other => panic!("an unsigned archive must not reach the loader, got {other:?}"),
    }
}

#[test]
fn a_signature_is_verified_once_for_a_build() {
    // The first launch verifies, and records what it found.
    let noted = RefCell::new(None);
    let record = |cache: String, certificate: String| {
        *noted.borrow_mut() = Some((cache, certificate));
    };
    let first = verified(true, None, |_| Ok("AB12".to_string()), record, Some(CACHED));
    assert_eq!(first.unwrap().lib_dir, "/cache");
    assert_eq!(noted.into_inner(), Some(("/cache".to_string(), "AB12".to_string())));
    // A recorded certificate that is pinned is not established again.
    let again = verified(true, Some("AB12"), |_| unreachable!(), |_, _| unreachable!(), Some(CACHED));
    assert_eq!(again.unwrap().lib_dir, "/cache");
    // One that is not pinned says nothing.
    let other =
        verified(true, Some("cd34"), |_| Err("no".to_string()), |_, _| unreachable!(), None);
    assert!(matches!(other, Err(NotFound::Unusable(_))));
    assert_eq!(
        not_recorded_line("/somewhere/base.apk", "no space"),
        "  shell: verified /somewhere/base.apk but could not record it: no space"
    );
}

#[test]
fn the_check_comes_before_everything_that_is_done_for_an_engine() {
    let order = RefCell::new(Vec::new());
    let disk = Disk {
        there: |_: String| {
            order.borrow_mut().push("there");
            true
        },
        engine: |_: &Signed| {
            order.borrow_mut().push("engine");
            EngineFacts { cached: false, ..CACHED }
        },
        keep: |_: &Signed| unreachable!(),
        extract: |_: &Signed, _: Option<String>| {
            order.borrow_mut().push("extract");
            Ok(())
        },
    };
    let verify = |apk: String, cache: String| {
        assert_eq!((apk.as_str(), cache.as_str()), ("/somewhere/base.apk", "/cache"));
        order.borrow_mut().push("verify");
        Ok(())
    };
    locate_with(&chosen(None), &nothing_found(), place(), verify, disk).unwrap();
    assert_eq!(*order.borrow(), ["there", "verify", "engine", "extract"]);
}

#[test]
fn nothing_anywhere_is_a_first_run() {
    let disk = Disk {
        there: |_: String| unreachable!(),
        engine: |_: &Signed| unreachable!(),
        keep: |_: &Signed| unreachable!(),
        extract: |_: &Signed, _: Option<String>| unreachable!(),
    };
    let none = locate_with(
        &RobloxInstall::default(),
        &nothing_found(),
        place(),
        |_: String, _: String| unreachable!(),
        disk,
    );
    assert!(matches!(none, Err(NotFound::NoBuild)));
}

#[test]
fn the_engine_is_taken_from_the_first_place_that_has_it() {
    let all = EngineFacts { chosen: true, beside: true, cached: true, current: true };
    let lib_dir = |step| match step {
        EngineStep::Use(build) | EngineStep::UseCached(build) => build.lib_dir,
        _ => panic!("there is an engine"),
    };
    assert_eq!(lib_dir(of_signed(Some("/mine"), |signed| signed.engine(all))), "/mine");
    assert_eq!(lib_dir(of_signed(None, |signed| signed.engine(all))), "/somewhere/lib/x86_64");
    match of_signed(Some("/mine"), |signed| signed.engine(EngineFacts { chosen: false, ..all })) {
        EngineStep::Fail(NotFound::Unusable(said)) => {
            assert!(said.contains(&format!("No {LIBRARY} in /mine")), "{said}")
        }
        _ => panic!("a directory that was chosen is the only one considered"),
    }
    let fresh = EngineFacts { chosen: false, beside: false, cached: false, current: false };
    let step = of_signed(None, |signed| signed.engine(fresh));
    assert!(matches!(step, EngineStep::Extract { stale: None }));
    let candidates = vec![
        Candidate { path: "/a".to_string(), look: Look::NoEngine },
        Candidate { path: "/b".to_string(), look: Look::HasEngine },
        Candidate { path: "/c".to_string(), look: Look::HasEngine },
    ];
    of_signed(None, |signed| {
        assert_eq!(signed.engine_source(&candidates, "s").unwrap(), "/b");
        assert_eq!(signed.extracted_archives("/b".to_string()), ["/somewhere/base.apk", "/b"]);
        assert_eq!(
            signed.extracted_archives("/somewhere/base.apk".to_string()),
            ["/somewhere/base.apk"]
        );
        assert_eq!(
            signed.cached_archives(Some("/s".to_string()), true),
            ["/somewhere/base.apk", "/s"]
        );
        assert_eq!(
            signed.cached_archives(Some("/s".to_string()), false),
            ["/somewhere/base.apk"]
        );
    });
}

#[test]
fn a_pinned_build_is_used_or_refused_and_never_replaced() {
    let build = || Build { apk: "/a".to_string(), lib_dir: "/l".to_string() };
    let entries = vec![
        StoreEntry { version: "2.1".to_string(), dir: "/s/2.1".to_string(), base_apk: None },
        StoreEntry {
            version: "2.2".to_string(),
            dir: "/s/2.2".to_string(),
            base_apk: Some("/s/2.2/base.apk".to_string()),
        },
    ];
    assert_eq!(apply_pin(build(), None, &entries).unwrap(), build());
    assert_eq!(
        apply_pin(build(), Some("2.2"), &entries).unwrap(),
        Build { apk: "/s/2.2/base.apk".to_string(), lib_dir: "/s/2.2".to_string() }
    );
    for version in ["2.1", "2.9"] {
        match apply_pin(build(), Some(version), &entries) {
            Err(NotFound::Unusable(said)) => assert!(said.contains(version), "{said}"),
            other => panic!("{other:?}"),
        }
    }
}

#[test]
fn a_recorded_signer_is_known_whatever_its_case() {
    let pinned = vec!["ab12".to_string()];
    assert!(signer_is_known(Some("AB12"), &pinned));
    assert!(!signer_is_known(Some("ab13"), &pinned));
    assert!(!signer_is_known(None, &pinned));
}

#[test]
fn the_engine_cache_is_found_in_the_environment() {
    assert_eq!(engine_cache(Some("/x"), Some("/h"), "/tmp", "abi"), "/x/cordial/lib/abi");
    assert_eq!(engine_cache(None, Some("/h"), "/tmp", "abi"), "/h/.cache/cordial/lib/abi");
    assert_eq!(engine_cache(None, None, "/tmp", "abi"), "/tmp/cordial/lib/abi");
}

#[test]
fn what_became_of_older_builds_is_said() {
    assert_eq!(
        kept_previous_line(&Ok(Some("2.1".to_string()))).as_deref(),
        Some("  shell: kept the previous build as 2.1")
    );
    assert_eq!(kept_previous_line(&Ok(None)), None);
    assert_eq!(
        kept_previous_line(&Err("e".to_string())).as_deref(),
        Some("  shell: could not keep the previous build: e")
    );
    assert_eq!(
        keyed_line("/c", &Ok(Some("2.1".to_string()))).as_deref(),
        Some("  shell: kept /c as Roblox 2.1")
    );
    assert_eq!(keyed_line("/c", &Ok(None)), None);
    assert_eq!(
        keyed_line("/c", &Err("e".to_string())).as_deref(),
        Some("  shell: could not key /c into the store: e")
    );
    assert_eq!(
        dropped_line(&vec!["a".to_string(), "b".to_string()]).as_deref(),
        Some("  shell: removed older builds: a, b")
    );
    assert_eq!(dropped_line(&vec![]), None);
}

fn found(
    install: &RobloxInstall,
    sources: &Sources,
    verdict: Result<(), NotFound>,
    facts: EngineFacts,
    extraction: Result<(), String>,
) -> Result<String, String> {
    let disk = Disk {
        there: |_: String| true,
        engine: |_: &Signed| facts,
        keep: |_: &Signed| (),
        extract: |_: &Signed, _: Option<String>| extraction,
    };
    match locate_with(install, sources, place(), |_: String, _: String| verdict, disk) {
        Ok(build) => Ok(format!("{} with {}", build.apk, build.lib_dir)),
        Err(NotFound::NoBuild) => Err("no build".to_string()),
        Err(NotFound::Unusable(said)) => Err(said),
    }
}

fn nothing_extracted() -> Result<(), String> {
    Err("nothing is extracted".to_string())
}

#[test]
fn only_a_signed_archive_is_run() {
    let nothing = nothing_found();
    assert_eq!(
        found(&chosen(None), &nothing, Ok(()), CACHED, nothing_extracted()),
        Ok("/somewhere/base.apk with /cache".to_string())
    );
    // No route runs one that was refused.
    let all = EngineFacts { chosen: true, beside: true, ..CACHED };
    let none = EngineFacts { chosen: false, beside: false, cached: false, current: false };
    for (lib_dir, facts) in [(Some("/mine"), all), (None, all), (None, CACHED), (None, none)] {
        let refused = Err(NotFound::Unusable("the signer is not known".to_string()));
        assert_eq!(
            found(&chosen(lib_dir), &nothing, refused, facts, Ok(())),
            Err("the signer is not known".to_string())
        );
    }
}

#[test]
fn a_stale_engine_is_never_run() {
    let stale = EngineFacts { current: false, ..CACHED };
    let nothing = nothing_found();
    assert_eq!(
        found(&chosen(None), &nothing, Ok(()), stale, nothing_extracted()),
        Err("nothing is extracted".to_string())
    );
    assert_eq!(
        found(&chosen(None), &nothing, Ok(()), stale, Ok(())),
        Ok("/somewhere/base.apk with /cache".to_string())
    );
    let beside = EngineFacts { beside: true, ..stale };
    assert_eq!(
        found(&chosen(None), &nothing, Ok(()), beside, nothing_extracted()),
        Ok("/somewhere/base.apk with /somewhere/lib/x86_64".to_string())
    );
}

#[test]
fn a_choice_is_never_replaced() {
    let detected = Sources {
        managed: Some("/managed/base.apk".to_string()),
        sober_is_file: true,
        ..nothing_found()
    };
    let run = |install: &RobloxInstall, sources: &Sources| {
        found(install, sources, Ok(()), CACHED, nothing_extracted())
    };
    assert_eq!(
        run(&chosen(None), &detected),
        Ok("/somewhere/base.apk with /cache".to_string())
    );
    let said = run(&chosen(Some("/engine")), &detected).unwrap_err();
    assert!(said.starts_with(&format!("No {LIBRARY} in /engine.")), "{said}");
    let unchosen = RobloxInstall { apk: None, lib_dir: None };
    assert_eq!(run(&unchosen, &detected), Ok("/managed/base.apk with /cache".to_string()));
    assert_eq!(run(&unchosen, &nothing_found()), Err("no build".to_string()));
}
