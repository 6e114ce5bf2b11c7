//! The title-bar preference, shared by the launcher's settings and the game
//! window.

use vstd::prelude::*;
use vstd::string::*;

use crate::text::same_text;

verus! {

broadcast use vstd::string::group_string_axioms;

/// The variable that carries the preference to a game.
pub const VARIABLE: &'static str = "CORDIAL_TITLE_BAR";

#[derive(Debug, Clone, Copy, PartialEq, Eq, Structural)]
pub enum TitleBar {
    Default,
    Compact,
    Hidden,
}

impl Default for TitleBar {
    fn default() -> (choice: TitleBar)
        ensures
            choice == TitleBar::Default,
    {
        TitleBar::Default
    }
}

/// The preference a row of the settings stands for; a row that is none of them
/// is the default.
pub open spec fn at_index(index: u32) -> TitleBar {
    if index == 1 {
        TitleBar::Compact
    } else if index == 2 {
        TitleBar::Hidden
    } else {
        TitleBar::Default
    }
}

/// The preference the variable of a game's environment stands for.
pub open spec fn in_env(value: Option<Seq<char>>) -> TitleBar {
    if value == Some("compact"@) {
        TitleBar::Compact
    } else if value == Some("hidden"@) {
        TitleBar::Hidden
    } else {
        TitleBar::Default
    }
}

impl TitleBar {
    /// The row of the settings.
    pub open spec fn row(self) -> u32 {
        match self {
            TitleBar::Default => 0,
            TitleBar::Compact => 1,
            TitleBar::Hidden => 2,
        }
    }

    /// What the variable of a game's environment is set to.
    pub open spec fn variable(self) -> Option<Seq<char>> {
        match self {
            TitleBar::Default => None,
            TitleBar::Compact => Some("compact"@),
            TitleBar::Hidden => Some("hidden"@),
        }
    }

    /// The word the saved settings hold.
    pub open spec fn word(self) -> Seq<char> {
        match self {
            TitleBar::Default => "default"@,
            TitleBar::Compact => "compact"@,
            TitleBar::Hidden => "hidden"@,
        }
    }

    /// What a row of the settings is called.
    pub fn label(self) -> (label: &'static str)
        ensures
            label@ == (match self {
                TitleBar::Default => "Default"@,
                TitleBar::Compact => "Compact"@,
                TitleBar::Hidden => "Hidden"@,
            }),
    {
        match self {
            TitleBar::Default => "Default",
            TitleBar::Compact => "Compact",
            TitleBar::Hidden => "Hidden",
        }
    }

    /// The row of the settings.
    pub fn index(self) -> (index: u32)
        ensures
            index == self.row(),
    {
        match self {
            TitleBar::Default => 0,
            TitleBar::Compact => 1,
            TitleBar::Hidden => 2,
        }
    }

    /// The preference a row of the settings stands for.
    pub fn from_index(index: u32) -> (choice: TitleBar)
        ensures
            choice == at_index(index),
    {
        if index == 1 {
            TitleBar::Compact
        } else if index == 2 {
            TitleBar::Hidden
        } else {
            TitleBar::Default
        }
    }

    /// What the variable of a game's environment is set to; the default leaves
    /// it unset.
    pub fn env_value(self) -> (value: Option<&'static str>)
        ensures
            match value {
                Some(value) => self.variable() == Some(value@),
                None => self.variable() is None,
            },
    {
        match self {
            TitleBar::Default => None,
            TitleBar::Compact => Some("compact"),
            TitleBar::Hidden => Some("hidden"),
        }
    }

    /// The preference the variable of a game's environment stands for, given
    /// its value where it is set to text.
    pub fn from_env(value: Option<&str>) -> (choice: TitleBar)
        ensures
            choice == in_env(
                match value {
                    Some(value) => Some(value@),
                    None => None,
                },
            ),
    {
        match value {
            Some(value) => if same_text(value, "compact") {
                TitleBar::Compact
            } else if same_text(value, "hidden") {
                TitleBar::Hidden
            } else {
                TitleBar::Default
            },
            None => TitleBar::Default,
        }
    }

    /// The word the saved settings hold.
    pub fn config_word(self) -> (word: &'static str)
        ensures
            word@ == self.word(),
    {
        match self {
            TitleBar::Default => "default",
            TitleBar::Compact => "compact",
            TitleBar::Hidden => "hidden",
        }
    }

    /// The preference a word of the saved settings stands for, where it is one.
    pub fn from_config_word(word: &str) -> (choice: Option<TitleBar>)
        ensures
            match choice {
                Some(choice) => choice.word() == word@,
                None => forall|choice: TitleBar| #[trigger] choice.word() != word@,
            },
    {
        if same_text(word, "default") {
            Some(TitleBar::Default)
        } else if same_text(word, "compact") {
            Some(TitleBar::Compact)
        } else if same_text(word, "hidden") {
            Some(TitleBar::Hidden)
        } else {
            None
        }
    }

    /// Whether the title bar is shown. Leaving fullscreen does not reveal what
    /// was hidden.
    pub fn revealed(self, fullscreen: bool) -> (revealed: bool)
        ensures
            revealed == (self != TitleBar::Hidden && !fullscreen),
    {
        match self {
            TitleBar::Hidden => false,
            TitleBar::Default | TitleBar::Compact => !fullscreen,
        }
    }
}

/// A preference survives the settings, in which it is a row, and the way to a
/// game, on which it is a variable.
pub proof fn law_a_preference_survives(choice: TitleBar)
    ensures
        at_index(choice.row()) == choice,
        in_env(choice.variable()) == choice,
        forall|other: TitleBar| #[trigger] other.word() == choice.word() ==> other == choice,
{
    reveal_strlit("compact");
    reveal_strlit("hidden");
    reveal_strlit("default");
    assert("compact"@.len() == 7 && "hidden"@.len() == 6 && "default"@.len() == 7);
    assert("compact"@[0] == 'c' && "default"@[0] == 'd');
}

/// A preference is handed on and kept by these words, and anything else is the
/// default.
pub proof fn law_a_preference_goes_by_its_word(value: Seq<char>, index: u32)
    ensures
        in_env(None) == TitleBar::Default,
        in_env(Some("compact"@)) == TitleBar::Compact,
        in_env(Some("hidden"@)) == TitleBar::Hidden,
        value != "compact"@ && value != "hidden"@ ==> in_env(Some(value)) == TitleBar::Default,
        TitleBar::Default.variable() is None,
        TitleBar::Compact.variable() == Some("compact"@),
        TitleBar::Hidden.variable() == Some("hidden"@),
        TitleBar::Default.word() == "default"@,
        TitleBar::Compact.word() == "compact"@,
        TitleBar::Hidden.word() == "hidden"@,
        TitleBar::Default.row() == 0,
        TitleBar::Compact.row() == 1,
        TitleBar::Hidden.row() == 2,
        at_index(1) == TitleBar::Compact,
        at_index(2) == TitleBar::Hidden,
        index != 1 && index != 2 ==> at_index(index) == TitleBar::Default,
        VARIABLE@ == "CORDIAL_TITLE_BAR"@,
{
    reveal_strlit("compact");
    reveal_strlit("hidden");
    assert("compact"@.len() == 7 && "hidden"@.len() == 6);
}

} // verus!
