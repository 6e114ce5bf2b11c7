use cordial_shell::deep_link::{accept, summarise, Rejected, MAX_LENGTH};

#[test]
fn the_banner_cannot_show_any_part_of_the_auth_ticket() {
    // The assertion is about the ticket rather than about the output format: a
    // richer banner must fail here if it shows any of the secret.
    let ticket = "SUPERSECRETTICKETVALUE0123456789ABCDEFGHIJKLMNOP";
    let url = format!(
        "roblox-player:1+launchmode:play+gameinfo:{ticket}+placelauncherurl:https%3A%2F%2Fx"
    );
    let shown = summarise(&url);
    for n in [4, 8, 16] {
        assert!(
            !shown.contains(&ticket[..n]),
            "summarise leaked {n} characters of the ticket: {shown}"
        );
    }
    assert!(!shown.contains("placelauncherurl"), "{shown}");
}

#[test]
fn both_registered_schemes_are_taken_and_the_payload_is_left_alone() {
    let url = "roblox-player://placeId=1818/launchmode:play+gameinfo:AAAA";
    assert_eq!(accept(url).unwrap(), url);
    assert_eq!(accept("roblox://navigation/home").unwrap(), "roblox://navigation/home");
    // A scheme is case-insensitive, and a browser is not the only thing that
    // will ever hand one of these over.
    assert!(accept("Roblox-Player://placeId=1").is_ok());
}

#[test]
fn anything_that_is_not_one_of_the_two_schemes_is_refused() {
    for hostile in [
        "file:///etc/passwd",
        "http://example.invalid/base.apk",
        "javascript:alert(1)",
        "roblox-studio://placeId=1",
        "/etc/passwd",
        "--lib-dir",
    ] {
        assert!(matches!(accept(hostile), Err(Rejected::Scheme(_))), "{hostile} was accepted");
    }
    assert_eq!(accept(""), Err(Rejected::Empty));
}

#[test]
fn a_link_with_a_newline_or_a_space_in_it_is_refused_rather_than_carried() {
    assert_eq!(accept("roblox-player://a\nb"), Err(Rejected::NotPrintableAscii));
    assert_eq!(accept("roblox-player://a b"), Err(Rejected::NotPrintableAscii));
    assert_eq!(accept("roblox-player://a\0b"), Err(Rejected::NotPrintableAscii));
    assert_eq!(accept("roblox-player://caf\u{e9}"), Err(Rejected::NotPrintableAscii));
}

#[test]
fn an_unbounded_link_is_capped_and_the_refusal_says_by_how_much() {
    let long = format!("roblox-player://{}", "a".repeat(MAX_LENGTH));
    match accept(&long) {
        Err(Rejected::TooLong(len)) => assert!(len > MAX_LENGTH, "{len}"),
        other => panic!("a link past the cap must be refused: {other:?}"),
    }
    // And the boundary is not off by one: exactly the cap is carried.
    let exact = format!("roblox-player://{}", "a".repeat(MAX_LENGTH - "roblox-player://".len()));
    assert_eq!(exact.len(), MAX_LENGTH);
    assert!(accept(&exact).is_ok());
}

#[test]
fn the_refusal_names_the_schemes_cordial_does_handle() {
    let message = accept("http://example.invalid").unwrap_err().message();
    assert!(message.contains("roblox-player:"), "{message}");
    assert!(message.contains("roblox:"), "{message}");
}

#[test]
fn the_banner_text_cannot_stretch_the_window() {
    let long = format!("roblox-player://{}", "a".repeat(500));
    let short = summarise(&long);
    assert_eq!(short, "roblox-player:", "{short}");
    assert_eq!(summarise("roblox://home"), "roblox:");
}

#[test]
fn an_opaque_payload_is_carried_as_it_came() {
    let opaque = "roblox-player:1+launchmode:play+gameinfo:AAA";
    assert_eq!(accept(opaque).unwrap(), opaque);
}

#[test]
fn every_refusal_has_a_message_of_its_own() {
    let too_long = accept(&"a".repeat(MAX_LENGTH + 1)).unwrap_err();
    assert_eq!(too_long, Rejected::TooLong(MAX_LENGTH + 1));
    assert!(too_long.message().contains("2049"), "{}", too_long.message());
    let messages = [
        accept("").unwrap_err().message(),
        too_long.message(),
        accept("ftp:x").unwrap_err().message(),
        accept("roblox:a b").unwrap_err().message(),
    ];
    for (i, a) in messages.iter().enumerate() {
        assert!(!a.is_empty());
        for b in &messages[i + 1..] {
            assert_ne!(a, b);
        }
    }
    // The scheme that was refused is shown with its quotes and escapes.
    assert!(messages[2].contains("\"ftp\""), "{}", messages[2]);
    let odd = accept("a\"b:x").unwrap_err().message();
    assert!(odd.contains("\"a\\\"b\""), "{odd}");
}

#[test]
fn a_refusal_stands_around_the_scheme_as_it_is_shown() {
    let refused = Rejected::Scheme("ftp".to_string());
    assert_eq!(
        refused.message_as("<ftp>"),
        "the scheme <ftp>, and Cordial only handles roblox-player: and roblox:"
    );
    assert_eq!(refused.message(), refused.message_as("\"ftp\""));
    assert_eq!(Rejected::Empty.message_as("<ftp>"), "an empty link");
}
