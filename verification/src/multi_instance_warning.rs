//! Two clients at once, on two different profiles.
//!
//! The lock on a profile has no opinion about that, and Roblox may. So it is
//! warned about and not refused, and the warning is remembered: once read and
//! accepted it does not become less understood.

use vstd::prelude::*;
use vstd::string::*;

use crate::text::same_text;

verus! {

broadcast use vstd::string::group_string_axioms;

pub const HEADING: &'static str = "Warning";

pub const BODY: &'static str = "Multi-instancing can get you banned on Roblox. It is not a supported feature and may lead to account ban waves.\n\nMaintainers and contributors are not responsible if your account gets banned.";

/// The answer that goes no further, which is also what closing the dialog means.
pub const CANCEL: &'static str = "cancel";

pub const CANCEL_LABEL: &'static str = "Cancel";

/// The answer that accepts.
pub const PROCEED: &'static str = "proceed";

pub const PROCEED_LABEL: &'static str = "Accept";

/// Take the answer to the warning. Only an acceptance proceeds, and it is
/// remembered before it does.
pub fn confirm(response: &str, seen: &mut bool) -> (proceed: bool)
    ensures
        proceed == (response@ == PROCEED@),
        *final(seen) == (*old(seen) || response@ == PROCEED@),
{
    if same_text(response, PROCEED) {
        *seen = true;
        true
    } else {
        false
    }
}

/// What is printed where the acceptance could not be written down.
pub fn not_saved(path: &str, why: &str) -> (line: String)
    ensures
        line@ == "  multi_instance_warning: could not save "@ + path@ + " ("@ + why@
            + "); the warning may show again"@,
{
    let mut line = "  multi_instance_warning: could not save ".to_owned();
    line.append(path);
    line.append(" (");
    line.append(why);
    line.append("); the warning may show again");
    line
}

/// What the dialog answers with, and what it says of each answer.
pub proof fn law_the_dialog_answers_in_two_ways()
    ensures
        PROCEED@ == "proceed"@,
        PROCEED_LABEL@ == "Accept"@,
        CANCEL@ == "cancel"@,
        CANCEL_LABEL@ == "Cancel"@,
        HEADING@ == "Warning"@,
        PROCEED@ != CANCEL@,
{
    reveal_strlit("proceed");
    reveal_strlit("cancel");
    assert("proceed"@.len() == 7 && "cancel"@.len() == 6);
}

} // verus!
