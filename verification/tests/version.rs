use cordial_shell::version::{full, NOTICE, VERSION};

#[test]
fn the_version_is_a_plain_semver_with_nothing_appended() {
    let parts: Vec<&str> = VERSION.split('.').collect();
    assert_eq!(parts.len(), 3, "not major.minor.patch: {VERSION}");
    for p in parts {
        assert!(
            p.chars().all(|c| c.is_ascii_digit()),
            "{VERSION} has a non-numeric component, so it is not orderable"
        );
    }
}

#[test]
fn the_notice_carries_the_version_the_licence_and_the_project() {
    assert!(NOTICE.contains(VERSION), "{NOTICE} does not name this build");
    assert!(NOTICE.contains("GPL-3.0-or-later"), "{NOTICE} does not state the licence");
    assert!(
        NOTICE.contains("https://github.com/luohoa97/cordial"),
        "{NOTICE} does not say where this came from"
    );
}

#[test]
fn full_keeps_the_commit_in_brackets() {
    for sha in [Some("0123abc"), None] {
        let text = full(sha);
        assert!(text.starts_with(VERSION), "{text} does not start with {VERSION}");
        match sha {
            Some(sha) => {
                assert_eq!(text, format!("{VERSION} ({sha})"));
                assert!(text.contains('('), "the commit must be bracketed: {text}");
            }
            None => assert_eq!(text, VERSION),
        }
    }
}
