use cordial_shell::profile::{
    a_client_is_running, acquire, adopt_handed_lock, adopt_if_held, all_pinned_versions,
    clear_engine_data, command_line, cpu_ticks, dir, engine_data_bytes, engine_data_dir,
    handed_descriptor, holder_of, human_bytes, is_held, is_valid_name, legacy_layout, list, migrate_legacy_layout,
    migrated, not_a_version, other_profile_is_running, pin_text, pinned_version, restrict_to_owner, root,
    set_pinned_version, size_unit, unpinned, unusable_name, wchan, Attempt, ClearStep, DataEnv, Entry, Error, Holder,
    Migration, PinStep, Process, SignalFailure, ESRCH, HANDED_LOCK, SIGKILL, SIGTERM,
};

/// The locks of a profile root: who holds which.
#[derive(Default)]
struct Locks {
    held: Vec<(String, Option<u32>)>,
}

impl Locks {
    fn acquire(&mut self, name: &str, pid: u32) -> Result<String, Error> {
        let attempt = match self.held.iter().find(|(held, _)| held == name) {
            Some((_, holder)) => Attempt::Held(holder.map(|pid| Holder {
                pid,
                command: "cordial-run".to_string(),
                running_for: None,
            })),
            None => Attempt::Taken,
        };
        let claim = acquire("/profiles", name, attempt);
        if claim.is_ok() {
            self.held.push((name.to_string(), Some(pid)));
        }
        claim
    }
}

#[test]
fn a_name_cannot_escape_the_profile_root() {
    assert!(!is_valid_name("../../etc"));
    assert!(!is_valid_name("/absolute"));
    assert!(!is_valid_name("has/slash"));
    assert!(!is_valid_name(""));
    assert!(is_valid_name("default"));
    assert!(is_valid_name("alt_account-2"));
    assert!(is_valid_name(&"a".repeat(64)));
    assert!(!is_valid_name(&"a".repeat(65)));
    assert_eq!(dir("/r", "default").unwrap(), "/r/default");
    assert_eq!(
        dir("/r", "../x").unwrap_err(),
        "\"../x\" is not a usable profile name; use letters, digits, - and _"
    );
}

#[test]
fn a_second_instance_cannot_take_a_held_profile() {
    let mut locks = Locks::default();
    locks.acquire("default", 1).expect("first instance takes the profile");
    let second = locks.acquire("default", 2);
    assert!(matches!(second, Err(Error::Busy(..))), "a second instance must be refused");
    assert!(second.unwrap_err().message().contains("already open"));
}

#[test]
fn a_refusal_names_the_process_actually_holding_the_profile() {
    // The process with the descriptor, rather than the one that opened it.
    let holder = holder_of(
        7,
        "/profiles/default/.lock",
        Process {
            entry: "4242".to_string(),
            links: vec![None, Some("/dev/null".to_string()), Some("/profiles/default/.lock".to_string())],
            command: Some("sleep\0 30\0".to_string()),
            running_for: Some(3),
        },
    )
    .expect("a holder in this process's own namespace is identifiable");
    assert_eq!(holder.pid, 4242, "the refusal must name the descriptor's owner");
    assert!(holder.command.contains("sleep"), "{}", holder.command);

    // `sleep` is not a client, so Cordial must neither offer to close it nor do
    // so if asked.
    assert!(!holder.is_cordial());
    assert!(
        holder.ask_to_stop().is_err(),
        "Cordial must refuse to signal a process it did not start"
    );
    let busy = Error::Busy("default".to_string(), Some(holder));
    assert_eq!(
        busy.message(),
        "profile \"default\" is already open in another Cordial client (process 4242, running for 3 seconds); use a different profile, or close that one first"
    );
}

#[test]
fn whatever_is_no_holder_is_not_named() {
    let process = |entry: &str, link: &str| Process {
        entry: entry.to_string(),
        links: vec![Some(link.to_string())],
        command: None,
        running_for: None,
    };
    assert!(holder_of(7, "/l", process("7", "/l")).is_none(), "this process itself");
    assert!(holder_of(7, "/l", process("self", "/l")).is_none(), "no process");
    assert!(holder_of(7, "/l", process("8", "/other")).is_none());
    assert_eq!(holder_of(7, "/l", process("8", "/l")).unwrap().command, "");
}

#[test]
fn a_client_handed_a_lock_adopts_it_rather_than_refusing_itself() {
    assert_eq!(handed_descriptor(" 9\n"), Some(9));
    assert_eq!(
        adopt_handed_lock("9", Some("/profiles/default/.lock"), Some("/profiles/default/.lock")),
        Ok(())
    );
    assert_eq!(adopt_if_held("/profiles/default/.lock", true), Ok(()));
}

#[test]
fn a_client_nobody_handed_a_lock_takes_one() {
    let mut locks = Locks::default();
    locks.acquire("default", 11).expect("a hand-run client takes its own lock");
    let Err(Error::Busy(_, holder)) = locks.acquire("default", 12) else {
        panic!("a hand-run client must hold its own profile");
    };
    assert_eq!(holder.expect("identifiable").pid, 11);
}

#[test]
fn a_second_hand_run_client_is_refused_and_told_what_to_do() {
    let refused = acquire(
        "/profiles",
        "default",
        Attempt::Held(Some(Holder { pid: 5, command: "cordial-run".to_string(), running_for: None })),
    )
    .unwrap_err();
    let text = format!("refused {}\n{}", refused.message(), refused.advice().unwrap_or_default());
    assert!(text.contains("already open"), "{text}");
    assert!(text.contains("process 5"), "{text}");
    assert!(text.contains("XDG_DATA_HOME"), "{text}");
    assert!(text.contains("--profile"), "{text}");
}

#[test]
fn a_stale_marker_is_not_believed() {
    // Open, and not the lock.
    let fd = handed_descriptor("1");
    assert_eq!(fd, Some(1));
    let refused = adopt_handed_lock("1", Some("/profiles/default/.lock"), Some("/dev/pts/0"));
    assert_eq!(
        refused,
        Err(Some(format!(
            "  profiles: {HANDED_LOCK}=1 does not name /profiles/default/.lock; taking this profile's lock instead"
        )))
    );
    assert_eq!(handed_descriptor("three"), None);
    assert_eq!(handed_descriptor("-1"), None);
    assert_eq!(handed_descriptor("99999999999"), None);
    assert!(adopt_if_held("/l", false).is_err());
    assert_eq!(adopt_handed_lock("1", None, Some("/l")), Err(None));
}

#[test]
fn a_stale_lock_file_with_no_holder_is_not_held() {
    assert!(
        !is_held("default", Some(true)),
        "a lock file with nothing holding it must not read as running"
    );
    assert!(is_held("default", Some(false)), "a live holder must be detected");
}

#[test]
fn a_profile_never_launched_is_not_held() {
    assert!(!is_held("nobody-has-run-this", None));
}

#[test]
fn other_profile_is_running_ignores_the_profile_being_launched() {
    let profiles = vec![("alt".to_string(), false), ("default".to_string(), true)];
    assert!(
        !other_profile_is_running("default", &profiles),
        "a profile must not be 'other' to itself"
    );
    assert!(other_profile_is_running("alt", &profiles), "a different, live profile must be seen");
}

#[test]
fn different_profiles_do_not_contend() {
    let mut locks = Locks::default();
    let a = locks.acquire("main", 1).unwrap();
    let b = locks.acquire("alt", 2).unwrap();
    assert_ne!(a, b);
}

#[test]
fn force_stop_refuses_a_process_it_did_not_start() {
    let holder = Holder {
        pid: 649889,
        command: "/usr/bin/grep -r something".into(),
        running_for: None,
    };
    let err = holder.force_stop().expect_err("a stranger's process must be refused");
    assert!(err.contains("not a Cordial client"), "{err}");
}

#[test]
fn a_client_is_signalled_and_one_that_is_gone_has_stopped() {
    let client = Holder { pid: 8, command: "/usr/bin/cordial-run --profile x".into(), running_for: None };
    assert_eq!(client.ask_to_stop(), Ok(SIGTERM));
    assert_eq!(client.force_stop(), Ok(SIGKILL));
    let gone = || Some(SignalFailure { errno: Some(ESRCH), message: "gone".to_string() });
    let refused = || Some(SignalFailure { errno: Some(1), message: "not permitted".to_string() });
    assert_eq!(client.asked_to_stop(None), Ok(()));
    assert_eq!(client.asked_to_stop(gone()), Ok(()));
    assert_eq!(
        client.asked_to_stop(refused()),
        Err("could not close process 8: not permitted".to_string())
    );
    assert_eq!(client.force_stopped(gone()), Ok(()));
    assert_eq!(
        client.force_stopped(refused()),
        Err("could not force-close process 8: not permitted".to_string())
    );
    assert!(client.has_exited(false));
    assert!(!client.has_exited(true));
}

#[test]
fn cpu_ticks_reads_a_real_processs_scheduled_time() {
    let stat = "1234 (a ) odd (name) S 1 2 3 4 5 6 7 8 9 10 17 25 0 0 20 0\n";
    assert_eq!(cpu_ticks(stat), Some(42));
}

#[test]
fn cpu_ticks_is_none_for_a_pid_that_does_not_exist() {
    assert!(cpu_ticks("").is_none());
    assert!(cpu_ticks("12 (x) S 1 2").is_none());
    assert!(cpu_ticks("12 (x) S 1 2 3 4 5 6 7 8 9 10 18446744073709551615 1 0").is_none());
}

#[test]
fn wchan_names_where_a_sleeping_process_is_blocked() {
    assert_eq!(wchan("hrtimer_nanosleep\n").as_deref(), Some("hrtimer_nanosleep"));
    assert_eq!(wchan("0"), None);
    assert_eq!(wchan(" \n"), None);
}

#[test]
fn how_long_a_holder_has_been_up_is_rounded() {
    let up = |secs| {
        Holder { pid: 1, command: String::new(), running_for: Some(secs) }.running_for_text().unwrap()
    };
    assert_eq!(up(90), "90 seconds");
    assert_eq!(up(91), "2 minutes");
    assert_eq!(up(5400), "90 minutes");
    assert_eq!(up(5401), "2 hours");
    assert_eq!(up(u64::MAX), format!("{} hours", (u64::MAX as u128 + 1800) / 3600));
    assert_eq!(command_line("a\0b\0"), "a b");
}

#[test]
fn the_root_is_found_in_the_environment() {
    let env = |profile_root: Option<&str>, xdg: Option<&str>, home: Option<&str>| DataEnv {
        profile_root: profile_root.map(str::to_string),
        xdg_data_home: xdg.map(str::to_string),
        home: home.map(str::to_string),
        temp_dir: "/tmp".to_string(),
    };
    assert_eq!(root(&env(Some("/r"), Some("/x"), Some("/h"))), "/r");
    assert_eq!(root(&env(None, Some("/x"), Some("/h"))), "/x/cordial/profiles");
    assert_eq!(root(&env(None, None, Some("/h"))), "/h/.local/share/cordial/profiles");
    assert_eq!(root(&env(None, None, None)), "/tmp/cordial/profiles");
}

#[test]
fn only_directories_with_usable_names_are_listed_in_order() {
    let entry = |is_dir, name: Option<&str>| Entry { is_dir, name: name.map(str::to_string) };
    let names = list(vec![
        entry(true, Some("b")),
        entry(false, Some("file")),
        entry(true, Some("has space")),
        entry(true, None),
        entry(true, Some("a")),
        entry(true, Some("B")),
    ]);
    assert_eq!(names, ["B", "a", "b"]);
}

#[test]
fn a_claim_fails_where_its_files_do() {
    let why = |attempt| match acquire("/r", "p", attempt) {
        Err(Error::Unusable(why)) => why,
        _ => panic!("not usable"),
    };
    assert_eq!(why(Attempt::NoDirectory("e".to_string())), "/r/p: e");
    assert_eq!(why(Attempt::NoLockFile("e".to_string())), "/r/p/.lock: e");
    assert!(matches!(acquire("/r", "a b", Attempt::Taken), Err(Error::Unusable(_))));
    assert!(Error::Unusable("e".to_string()).advice().is_none());
}

#[test]
fn clearing_moves_the_data_aside_before_it_is_removed() {
    assert_eq!(engine_data_dir("/r/p"), "/r/p/data");
    assert!(clear_engine_data("/r/p", false).is_empty());
    let steps = clear_engine_data("/r/p", true);
    assert!(matches!(&steps[0], ClearStep::DropLeftover { path } if path == "/r/p/data.clearing"));
    assert!(matches!(&steps[1], ClearStep::Rename { from, to }
        if from == "/r/p/data" && to == "/r/p/data.clearing"));
    assert!(matches!(&steps[2], ClearStep::Drop { path } if path == "/r/p/data.clearing"));
    assert_eq!(engine_data_bytes(&vec![1, 2, 39]), 42);
    assert_eq!(engine_data_bytes(&vec![u64::MAX, 2]), u64::MAX);
}

#[test]
fn a_pin_is_written_read_and_cleared() {
    assert_eq!(pin_text(Some(" 2.1.3\n")).as_deref(), Some("2.1.3"));
    assert_eq!(pinned_version(pin_text(Some("x")), false), None);
    assert_eq!(pinned_version(pin_text(Some("2.1")), true).as_deref(), Some("2.1"));
    match set_pinned_version("/r/p", Some("2.1"), true) {
        Ok(PinStep::Write { path, version }) => {
            assert_eq!((path.as_str(), version.as_str()), ("/r/p/roblox-version", "2.1"))
        }
        _ => panic!("a version is written"),
    }
    assert!(matches!(set_pinned_version("/r/p", None, false), Ok(PinStep::Unpin { .. })));
    match set_pinned_version("/r/p", Some("x"), false) {
        Err(why) => assert_eq!(why, "\"x\" is not a Roblox version"),
        Ok(_) => panic!("what is no version is refused"),
    }
    assert_eq!(unpinned("/f", None), Ok(()));
    assert_eq!(unpinned("/f", Some((true, "gone".to_string()))), Ok(()));
    assert_eq!(unpinned("/f", Some((false, "e".to_string()))), Err("/f: e".to_string()));
    let pins = vec![Some("2.2".to_string()), None, Some("2.1".to_string()), Some("2.2".to_string())];
    assert_eq!(all_pinned_versions(pins), ["2.1", "2.2"]);
}

#[test]
fn sizes_are_said_in_the_largest_unit_they_reach() {
    let said = |bytes: u64| {
        let quotient = match size_unit(bytes) {
            Some((scale, _)) => format!("{:.1}", bytes as f64 / scale as f64),
            None => String::new(),
        };
        human_bytes(bytes, &quotient)
    };
    assert_eq!(said(999), "999 bytes");
    assert_eq!(said(1_000), "1.0 kB");
    assert_eq!(said(2_345_678), "2.3 MB");
    assert_eq!(said(115_000_000_000), "115.0 GB");
}

#[test]
fn the_legacy_layout_moves_once_and_never_under_a_client() {
    let env = DataEnv {
        profile_root: None,
        xdg_data_home: Some("/x".to_string()),
        home: None,
        temp_dir: "/tmp".to_string(),
    };
    assert!(matches!(migrate_legacy_layout(&env, false, false, false), Migration::Nothing));
    assert!(matches!(migrate_legacy_layout(&env, true, true, false), Migration::Nothing));
    assert!(matches!(migrate_legacy_layout(&env, true, false, true), Migration::Deferred(_)));
    match migrate_legacy_layout(&env, true, false, false) {
        Migration::Move { legacy, target } => {
            assert_ne!(legacy, target);
            assert!(migrated(&legacy, &target, None).contains(&target));
            assert!(migrated(&legacy, &target, Some("e")).contains('e'));
        }
        _ => panic!("a layout that can move moves"),
    }
    assert!(a_client_is_running(&vec!["bash\n".to_string(), "cordial-run\n".to_string()]));
    assert!(!a_client_is_running(&vec!["cordial-runner\n".to_string()]));
}

#[test]
fn a_profile_is_not_readable_by_other_users() {
    let mode = restrict_to_owner(0o755).expect("a mode that others can use is restricted");
    assert_eq!(mode & 0o077, 0, "profile must not be group- or world-accessible");
    assert_eq!(restrict_to_owner(0o700), None);
}

#[test]
fn what_is_refused_is_shown_where_it_belongs() {
    assert_eq!(
        unusable_name("<n>"),
        "<n> is not a usable profile name; use letters, digits, - and _"
    );
    assert_eq!(dir("/r", "a/b").unwrap_err(), unusable_name("\"a/b\""));
    assert_eq!(not_a_version("<v>"), "<v> is not a Roblox version");
    let busy = Error::Busy("p".to_string(), None);
    assert_eq!(
        busy.message_as("<p>"),
        "profile <p> is already open in another Cordial client; use a different profile, or close that one first"
    );
    assert_eq!(busy.message(), busy.message_as("\"p\""));
}

#[test]
fn the_old_layout_becomes_the_default_profile() {
    let env = DataEnv {
        profile_root: None,
        xdg_data_home: Some("/data".to_string()),
        home: None,
        temp_dir: "/tmp".to_string(),
    };
    assert_eq!(
        legacy_layout(&env),
        (
            "/data/cordial/instances/default".to_string(),
            "/data/cordial/profiles/default".to_string()
        )
    );
}
