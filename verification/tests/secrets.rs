use std::collections::BTreeMap;

use cordial_shell::secrets::file::{read_bounded, shred, write_private, BoundedRead, FileStep};
use cordial_shell::secrets::keyring::{
    connect_failed, decode_keyring, default_collection, encode_keyring, item_to_read, opened,
    read_keyring, secret_text, stored, with_reason, ConnectFailure, Delivery, Link, Patience, Serve,
    CALL_TIMEOUT, ENCODED_PREFIX, LOCKED, PROBE_TIMEOUT,
};
use cordial_shell::secrets::migration::{adopt_file, AdoptStep};
use cordial_shell::secrets::{
    attributes, decide, decide_as, decide_on, erase, load, loaded, save, snapshot, snapshot_answered,
    snapshot_read, snapshot_with, usable, where_kept, Kind, LoadStep, SaveStep, SnapshotRequest,
    SnapshotStep, Store,
};

/// What the probe says, for a test that must not depend on the machine it runs
/// on.
fn present() -> Result<(), String> {
    Ok(())
}

fn locked() -> Result<(), String> {
    Err("the desktop keyring is locked".to_string())
}

/// A disk that steps are performed on.
#[derive(Default)]
struct Disk {
    files: BTreeMap<String, Vec<u8>>,
    removed: Vec<(String, Vec<u8>)>,
}

impl Disk {
    fn run(&mut self, steps: &[FileStep]) {
        for step in steps {
            match step {
                FileStep::Create { path } => {
                    self.files.insert(path.clone(), Vec::new());
                }
                FileStep::Append { path, bytes } => {
                    self.files.get_mut(path).unwrap().extend_from_slice(bytes);
                }
                FileStep::Sync { path } => assert!(self.files.contains_key(path)),
                FileStep::Rename { from, to } => {
                    let body = self.files.remove(from).unwrap();
                    self.files.insert(to.clone(), body);
                }
                FileStep::Zero { path, at, count } => {
                    let body = self.files.get_mut(path).unwrap();
                    let from = *at as usize;
                    let to = from + *count as usize;
                    body[from..to].fill(0);
                }
                FileStep::Remove { path } => {
                    let body = self.files.remove(path).unwrap();
                    self.removed.push((path.clone(), body));
                }
            }
        }
    }

    fn save(&mut self, dir: &str, kind: Kind, body: &str) {
        match save(Store::File, dir, None, kind, body) {
            SaveStep::Files(steps) => self.run(&steps),
            _ => panic!("a file store writes files"),
        }
    }

    fn load(&self, store: Store, dir: &str, kind: Kind) -> Option<String> {
        match load(store, dir, kind) {
            LoadStep::ReadFile { path } => {
                self.files.get(&path).map(|body| String::from_utf8(body.clone()).unwrap())
            }
            LoadStep::Ignore { .. } => None,
            LoadStep::Adopt { .. } => panic!("a file store adopts nothing"),
        }
    }

    fn erase(&mut self, dir: &str, kind: Kind) {
        let path = format!("{dir}/{}", kind.name());
        let len = self.files.get(&path).map(|body| body.len() as u64);
        let erasure = erase(Store::File, dir, kind, len);
        self.run(&erasure.files);
        assert!(erasure.service.is_none());
    }
}

#[test]
fn the_setting_decides_and_says_which() {
    // The three answers a user can give, and the one they can give by mistake.
    assert_eq!(decide("", "/profiles/default/cookies", present).0, Store::Keyring);
    assert_eq!(decide("auto", "/profiles/default/cookies", present).0, Store::Keyring);
    // And `file` never asks the bus at all.
    assert_eq!(
        decide("file", "/profiles/default/cookies", || unreachable!(
            "the file store must not touch the bus"
        ))
        .0,
        Store::File
    );
    assert!(decide("file", "/profiles/default/cookies", present).1.contains("plaintext"));
    assert_eq!(decide("nonsense", "/profiles/default/cookies", present).0, Store::File);
    assert!(decide("nonsense", "/profiles/default/cookies", present).1.contains("not one of"));
}

#[test]
fn a_locked_keyring_is_the_ordinary_case_and_never_an_error() {
    let (store, line) = decide("auto", "/profiles/default/cookies", locked);
    assert_eq!(store, Store::File, "a locked keyring must not cost the user their session");
    assert!(line.contains("locked"), "and must say why: {line}");
    assert!(line.contains("0600"), "and where the session went instead: {line}");

    // Only somebody who explicitly asked for keyring-or-nothing gets nothing,
    // and even they are told rather than left to notice.
    let (store, line) = decide("keyring", "/profiles/default/cookies", locked);
    assert_eq!(store, Store::Nowhere);
    assert!(line.contains("will not be saved"), "{line}");
}

#[test]
fn nothing_here_can_stop_a_client_starting() {
    for requested in ["", "auto", "keyring", "file", "nonsense"] {
        for probe in [present as fn() -> Result<(), String>, locked] {
            let (_store, line) = decide(requested, "/profiles/default/cookies", probe);
            assert!(!line.is_empty(), "every outcome is announced");
            let again = decide_on(requested, "/profiles/default/cookies", probe());
            assert_eq!(again.0, _store);
            assert_eq!(again.1, line);
        }
    }
}

#[test]
fn a_stored_body_is_not_readable_by_other_users() {
    // A file is made with a mode that nobody else can read before anything is
    // written to it: what comes first is the making.
    let steps = write_private("/p", "cookies", "a=b\n");
    assert!(matches!(&steps[0], FileStep::Create { path } if path == "/p/cookies.new"));
    assert_eq!(cordial_shell::secrets::file::PRIVATE_MODE & 0o177, 0);
}

#[test]
fn an_interrupted_write_cannot_leave_half_a_session() {
    // After a save the temporary name must not exist, so nothing can later be
    // mistaken for a store.
    let mut disk = Disk::default();
    disk.save("/p", Kind::Cookies, "a=1\n");
    disk.save("/p", Kind::Cookies, "a=2\n");
    assert!(!disk.files.contains_key("/p/cookies.new"), "the temp file must not survive");
    assert_eq!(disk.load(Store::File, "/p", Kind::Cookies).as_deref(), Some("a=2\n"));
    // And cut off anywhere, what is there is the old body or the new one.
    let steps = write_private("/p", "cookies", "a=3\n");
    for n in 0..=steps.len() {
        let mut disk = Disk::default();
        disk.save("/p", Kind::Cookies, "a=2\n");
        disk.run(&steps[..n]);
        let found = disk.load(Store::File, "/p", Kind::Cookies).unwrap();
        assert!(found == "a=2\n" || found == "a=3\n", "{found}");
    }
}

#[test]
fn nothing_saved_is_not_a_failure() {
    let mut disk = Disk::default();
    assert!(disk.load(Store::File, "/p", Kind::Cookies).is_none());
    assert!(disk.load(Store::Nowhere, "/p", Kind::Cookies).is_none());
    assert!(matches!(save(Store::Nowhere, "/p", None, Kind::Cookies, "a=b"), SaveStep::Nothing));
    disk.erase("/p", Kind::Identity);
    assert!(disk.files.is_empty());
}

#[test]
fn erasing_overwrites_before_unlinking() {
    // `remove` unlinks and does not erase: the file is written over its whole
    // length and then removed, and no `.new` temp is left holding a copy.
    let mut disk = Disk::default();
    disk.save("/p", Kind::Cookies, ".ROBLOSECURITY=fake\n");
    disk.erase("/p", Kind::Cookies);
    assert!(!disk.files.contains_key("/p/cookies"));
    assert!(!disk.files.contains_key("/p/cookies.new"));
    let (path, body) = &disk.removed[0];
    assert_eq!(path, "/p/cookies");
    assert_eq!(body.len(), ".ROBLOSECURITY=fake\n".len());
    assert!(body.iter().all(|b| *b == 0));
}

#[test]
fn a_long_body_is_overwritten_in_pieces_that_cover_it() {
    let mut disk = Disk::default();
    disk.save("/p", Kind::Cookies, &"x".repeat(10_000));
    let steps = shred("/p/cookies", 10_000);
    let pieces = steps.iter().filter(|step| matches!(step, FileStep::Zero { .. })).count();
    assert_eq!(pieces, 3);
    disk.run(&steps);
    assert!(disk.removed[0].1.iter().all(|b| *b == 0));
}

#[test]
fn two_profiles_cannot_read_each_others_session() {
    // Both are called `default`; only the path tells them apart.
    let a = attributes("/home/someone/.local/share/cordial/profiles/default", Kind::Cookies);
    let b = attributes("/home/someone/.cache/scratch/cordial/profiles/default", Kind::Cookies);
    assert_ne!(a, b, "two roots with the same profile name must not share an item");
    let cookies = attributes("/p/default", Kind::Cookies);
    let identity = attributes("/p/default", Kind::Identity);
    assert_ne!(cookies, identity, "the two stores must be separate items");
}

/// A service that holds items by their attributes.
#[derive(Default)]
struct Service {
    items: Vec<(Vec<(String, String)>, String)>,
}

impl Service {
    fn write(&mut self, attributes: Vec<(String, String)>, body: String) {
        self.items.retain(|(held, _)| *held != attributes);
        self.items.push((attributes, body));
    }

    fn read(&self, attributes: &[(String, String)]) -> Result<Option<String>, String> {
        Ok(self
            .items
            .iter()
            .find(|(held, _)| held.as_slice() == attributes)
            .map(|(_, body)| body.clone()))
    }
}

#[test]
fn a_session_survives_the_round_trip_through_the_service() {
    let mut service = Service::default();
    let body = "# cordial test\nroblox.com\tCORDIALTEST=not-a-session\n";
    match save(Store::Keyring, "/p", Some("p"), Kind::Cookies, body) {
        SaveStep::Service(request) => {
            assert_eq!(request.label, "Cordial: Roblox cookies for profile \"p\"");
            service.write(request.attributes, request.body);
        }
        _ => panic!("a keyring store asks the service"),
    }
    assert_eq!(service.items[0].1, encode_keyring(body));
    let (found, line) = loaded(Kind::Cookies, service.read(&attributes("/p", Kind::Cookies)));
    assert_eq!(found.as_deref(), Some(body), "what was stored must come back byte for byte");
    assert!(line.is_none());
    let request = SnapshotRequest {
        store: Store::Keyring,
        profile_dir: "/p",
        kind: Kind::Cookies,
        max_bytes: 1024 * 1024,
    };
    assert_eq!(
        snapshot_with(&request, |_, _| None, |list| service.read(&list)).as_deref(),
        Some(body.as_bytes()),
        "the launcher's read-only path must decode the same service value"
    );
    let erasure = erase(Store::Keyring, "/p", Kind::Cookies, None);
    let gone = erasure.service.unwrap();
    service.items.retain(|(held, _)| *held != gone);
    assert!(
        loaded(Kind::Cookies, service.read(&attributes("/p", Kind::Cookies))).0.is_none(),
        "and a removed item must not linger in somebody's keyring"
    );
}

#[test]
fn a_plaintext_store_is_adopted_and_destroyed() {
    let mut disk = Disk::default();
    let mut service = Service::default();
    let body = "# cordial test\nroblox.com\tCORDIALTEST=adopt-me\n";
    disk.save("/p", Kind::Cookies, body);
    assert!(matches!(load(Store::Keyring, "/p", Kind::Cookies), LoadStep::Adopt { .. }));

    let read = disk.files.get("/p/cookies").map(|b| String::from_utf8(b.clone()).unwrap());
    let (adoption, step) = adopt_file("/p", Some("p"), Kind::Cookies, read).unwrap();
    // The migrating launch is still signed in.
    assert_eq!(adoption.body, body);
    match step {
        AdoptStep::Store(request) => service.write(request.attributes, request.body),
        _ => panic!("the body is stored first"),
    }
    assert!(matches!(adoption.stored(Ok(())), AdoptStep::ReadBack));
    let back = service.read(&attributes("/p", Kind::Cookies));
    match adoption.read_back(back, Ok(body.len() as u64)) {
        AdoptStep::Destroy(steps) => disk.run(&steps),
        _ => panic!("a body that came back whole is destroyed on the disk"),
    }
    assert!(!disk.files.contains_key("/p/cookies"), "and the plaintext file must be gone");
    assert!(!adoption.destroyed(Ok(())).is_empty());
    // The next launch reads it from the service.
    let (found, _) = loaded(Kind::Cookies, service.read(&attributes("/p", Kind::Cookies)));
    assert_eq!(found.as_deref(), Some(body));
}

#[test]
fn a_body_that_did_not_arrive_keeps_its_file() {
    let (adoption, _) = adopt_file("/p", None, Kind::Cookies, Some("a=b".to_string())).unwrap();
    assert!(matches!(adoption.stored(Err("locked".to_string())), AdoptStep::Done(_)));
    assert!(matches!(adoption.read_back(Ok(Some("other".to_string())), Ok(3)), AdoptStep::Done(_)));
    assert!(matches!(adoption.read_back(Ok(None), Ok(3)), AdoptStep::Done(_)));
    assert!(matches!(adoption.read_back(Err("x".to_string()), Ok(3)), AdoptStep::Done(_)));
    assert!(adopt_file("/p", None, Kind::Cookies, None).is_none());
}

#[test]
fn keyring_snapshot_prefers_plaintext_without_migrating_it() {
    // Given a newer plaintext identity beside an older keyring value.
    let request = SnapshotRequest {
        store: Store::Keyring,
        profile_dir: "/p",
        kind: Kind::Identity,
        max_bytes: 16 * 1024,
    };
    // When routing takes its read-only snapshot.
    let bytes = snapshot_with(
        &request,
        |path, _| {
            assert_eq!(path, "/p/identity");
            Some(b"plaintext identity".to_vec())
        },
        |_| panic!("a readable plaintext value has runtime precedence"),
    );
    // Then it sees the value the runtime will adopt.
    assert_eq!(bytes.as_deref(), Some(b"plaintext identity".as_slice()));
}

#[test]
fn keyring_snapshot_reads_service_when_plaintext_is_absent() {
    // Given a profile whose only saved identity is in the service.
    let request = SnapshotRequest {
        store: Store::Keyring,
        profile_dir: "/p",
        kind: Kind::Identity,
        max_bytes: 16 * 1024,
    };
    // When routing reads through the selected backend.
    let bytes =
        snapshot_with(&request, |_, _| None, |_| Ok(Some("keyring identity".to_string())));
    // Then the service value is the snapshot.
    assert_eq!(bytes.as_deref(), Some(b"keyring identity".as_slice()));
}

#[test]
fn unavailable_keyring_and_none_store_fail_closed() {
    // Given a plaintext value that keyring-only mode must ignore.
    let none = SnapshotRequest {
        store: Store::Nowhere,
        profile_dir: "/p",
        kind: Kind::Identity,
        max_bytes: 16 * 1024,
    };
    // When routing scans a backend that selection marked unavailable.
    let ignored = snapshot_with(
        &none,
        |_, _| panic!("no file is read"),
        |_| panic!("the keyring must not be touched"),
    );
    // Then no other backend is consulted.
    assert!(ignored.is_none());

    // Given no plaintext fallback and a locked or failed service.
    let keyring = SnapshotRequest { store: Store::Keyring, ..none };
    // When the bounded service read fails, then routing cannot establish a match.
    assert!(snapshot_with(&keyring, |_, _| None, |_| Err("locked".to_string())).is_none());
}

#[test]
fn snapshots_refuse_values_over_the_requested_bound() {
    // Given both backends holding values one byte over the caller's bound.
    let file = SnapshotRequest {
        store: Store::File,
        profile_dir: "/p",
        kind: Kind::Cookies,
        max_bytes: 4,
    };
    // When each backend is read, then neither oversized value becomes routing evidence.
    let read = |_: String, limit: u64| {
        assert_eq!(limit, 5);
        Some(b"12345".to_vec())
    };
    assert!(snapshot_with(&file, read, |_| unreachable!()).is_none());
    let keyring = SnapshotRequest { store: Store::Keyring, ..file };
    assert!(snapshot_with(&keyring, |_, _| None, |_| Ok(Some("12345".to_string()))).is_none());
    // And exactly the bound is taken.
    assert!(snapshot_with(&file, |_, _| Some(b"1234".to_vec()), |_| unreachable!()).is_some());
}

#[test]
fn a_snapshot_taken_step_by_step_is_the_same() {
    let request = SnapshotRequest {
        store: Store::Keyring,
        profile_dir: "/p",
        kind: Kind::Cookies,
        max_bytes: 4,
    };
    match snapshot(&request) {
        SnapshotStep::ReadFile { path, limit } => assert_eq!((path.as_str(), limit), ("/p/cookies", 5)),
        _ => panic!("the file comes first"),
    }
    assert!(matches!(
        snapshot_read(&request, read_bounded(Some(b"12345".to_vec()), 4)),
        SnapshotStep::Done(None)
    ));
    match snapshot_read(&request, BoundedRead::Unavailable) {
        SnapshotStep::AskService(list) => assert_eq!(list, attributes("/p", Kind::Cookies)),
        _ => panic!("then the service"),
    }
    assert_eq!(snapshot_answered(&request, Ok(Some("1234".to_string()))).as_deref(), Some(b"1234".as_slice()));
}

#[test]
fn bodies_are_stored_as_hexadecimal_behind_a_mark() {
    assert_eq!(encode_keyring("a\n"), format!("{ENCODED_PREFIX}610a"));
    assert_eq!(decode_keyring(&encode_keyring("caf\u{e9}")).as_deref(), Some("caf\u{e9}"));
    // What does not begin with the mark is a body as it stands.
    assert_eq!(decode_keyring("plain"), None);
    assert_eq!(read_keyring(Ok(Some("plain".to_string()))), Ok(Some("plain".to_string())));
    assert_eq!(decode_keyring(&format!("{ENCODED_PREFIX}6")), None);
    assert_eq!(decode_keyring(&format!("{ENCODED_PREFIX}zz")), None);
    // Bytes that are no text.
    assert_eq!(decode_keyring(&format!("{ENCODED_PREFIX}ff")), None);
    assert!(read_keyring(Ok(Some(format!("{ENCODED_PREFIX}6")))).is_err());
}

#[test]
fn a_service_that_hung_is_not_asked_again() {
    let mut patience = Patience::new();
    assert!(patience.ask().is_ok());
    assert!(patience.answered(Delivery::Answered(Ok(None)), CALL_TIMEOUT).is_ok());
    assert!(patience.ask().is_ok());
    assert!(patience.answered(Delivery::Late, PROBE_TIMEOUT).is_err());
    assert!(patience.ask().is_err());
}

#[test]
fn a_connection_is_made_once() {
    assert!(matches!(Link::Untried.serve(), Serve::Connect));
    let failed = Link::Untried.connected(Err("no bus".to_string()));
    match failed.serve() {
        Serve::Refuse(why) => assert_eq!(why, "no bus"),
        _ => panic!("a connection that failed is not tried again"),
    }
    assert!(matches!(Link::Untried.connected(Ok(())).serve(), Serve::Handle));
}

#[test]
fn every_way_the_service_fails_is_said() {
    let said = [
        connect_failed(ConnectFailure::NoBus),
        connect_failed(ConnectFailure::NotAddressed("a".to_string())),
        connect_failed(ConnectFailure::NoService),
        connect_failed(ConnectFailure::NoAlias("b".to_string())),
    ];
    assert!(said.iter().all(|line| !line.is_empty()));
    assert!(default_collection("/".to_string()).is_err());
    assert_eq!(default_collection("/c/login".to_string()).as_deref(), Ok("/c/login"));
    assert_eq!(opened(Ok(true)), Err(LOCKED.to_string()));
    assert_eq!(opened(Ok(false)), Ok(()));
    assert!(opened(Err("x".to_string())).is_err());
    assert_eq!(item_to_read(&vec!["/i/1".to_string()]).map(String::as_str), Some("/i/1"));
    assert!(item_to_read(&vec![]).is_none());
    assert_eq!(secret_text(b"body".to_vec()), Ok(Some("body".to_string())));
    assert!(secret_text(vec![0xff]).is_err());
    assert!(stored("/").is_ok());
    assert!(stored("/prompt").is_err());
    assert!(with_reason("what", "why").contains("why"));
    assert!(usable(Ok(None)).is_ok());
    assert_eq!(usable(Err("x".to_string())), Err("x".to_string()));
}

#[test]
fn where_a_session_is_kept_is_said() {
    assert_eq!(where_kept(Store::File, "/p", Kind::Cookies), "/p/cookies");
    assert_eq!(where_kept(Store::Keyring, "/p", Kind::Cookies), "the desktop secret service");
    assert_eq!(
        where_kept(Store::Nowhere, "/p", Kind::Cookies),
        "nowhere; this session is not being saved"
    );
    assert_eq!(Store::Keyring.setting_value(), "keyring");
}

#[test]
fn a_setting_and_a_profile_are_shown_where_they_belong() {
    let (store, line) = decide_as("nonsense", "<nonsense>", "/p/cookies", present());
    assert_eq!(store, Store::File);
    assert_eq!(
        line,
        "  [secrets] CORDIAL_SECRET_STORE=<nonsense> is not one of auto, keyring, file; treating it as file, which keeps the session in plaintext at /p/cookies"
    );
    assert_eq!(
        decide_as("nonsense", "\"nonsense\"", "/p/cookies", present()),
        decide_on("nonsense", "/p/cookies", present())
    );
    assert_eq!(
        Kind::Identity.label_as(Some("<p>")),
        "Cordial: Roblox identity for profile <p>"
    );
    assert_eq!(Kind::Identity.label(Some("p")), Kind::Identity.label_as(Some("\"p\"")));
    assert_eq!(Kind::Cookies.label_as(None), "Cordial: Roblox cookies");
}

#[test]
fn a_file_whose_length_cannot_be_told_is_reported_only_where_the_body_arrived() {
    let read = Some("body".to_string());
    let (adoption, _) = adopt_file("/r/p", Some("p"), Kind::Cookies, read).unwrap();
    let gone = || Err("no such file".to_string());
    let line = |step| match step {
        AdoptStep::Done(line) => line,
        _ => panic!("nothing is destroyed"),
    };
    assert_eq!(
        line(adoption.read_back(Ok(Some("other".to_string())), gone())),
        "  [secrets] cookies: the secret service did not hand back what it was given, so /r/p/cookies was left alone"
    );
    assert_eq!(
        line(adoption.read_back(Ok(Some(encode_keyring("body"))), gone())),
        "  [secrets] cookies: moved into the secret service, but /r/p/cookies could not be destroyed (no such file); delete it by hand"
    );
}
