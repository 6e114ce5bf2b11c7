use cordial_shell::title_bar::TitleBar;

#[test]
fn hidden_selection_round_trips_through_config_and_launch_environment() {
    // Given the third choice in the settings row.
    let choice = TitleBar::from_index(2);
    // When saving and restoring its value.
    let stored = serde_json::to_string(choice.config_word()).unwrap();
    let word: String = serde_json::from_str(&stored).unwrap();
    let restored = TitleBar::from_config_word(&word).unwrap();
    // Then the next game receives the hidden preference.
    assert_eq!(stored, "\"hidden\"");
    assert_eq!(restored.index(), 2);
    assert_eq!(restored.env_value(), Some("hidden"));
}

#[test]
fn each_mode_controls_windowed_chrome() {
    // Given each named preference.
    for (choice, expected) in [
        (TitleBar::Default, true),
        (TitleBar::Compact, true),
        (TitleBar::Hidden, false),
    ] {
        // When requesting its windowed presentation, then only Hidden removes chrome.
        assert_eq!(choice.revealed(false), expected);
    }
}

#[test]
fn fullscreen_hides_chrome_in_every_mode() {
    // Given each named preference.
    for choice in [TitleBar::Default, TitleBar::Compact, TitleBar::Hidden] {
        // When requesting its fullscreen presentation, then no mode reveals chrome.
        assert!(!choice.revealed(true));
    }
}

#[test]
fn existing_preferences_keep_their_values_and_default() {
    // Given old configurations and out-of-range settings indices.
    for (index, expected) in [
        (0, TitleBar::Default),
        (1, TitleBar::Compact),
        (99, TitleBar::Default),
    ] {
        // When reading the preference, then old choices retain their meaning.
        assert_eq!(TitleBar::from_index(index), expected);
    }
    assert_eq!(TitleBar::default(), TitleBar::Default);
}

#[test]
fn a_preference_survives_every_way_it_is_written() {
    for choice in [TitleBar::Default, TitleBar::Compact, TitleBar::Hidden] {
        assert_eq!(TitleBar::from_index(choice.index()), choice);
        assert_eq!(TitleBar::from_env(choice.env_value()), choice);
        assert_eq!(TitleBar::from_config_word(choice.config_word()), Some(choice));
    }
    assert_eq!(TitleBar::from_env(Some("anything")), TitleBar::Default);
    assert_eq!(TitleBar::from_config_word("anything"), None);
}
