//! What version this is, and which build of it.
//!
//! Two facts: the version is what anything ordering two releases compares, and
//! the commit says which exact build this is and nothing else.

use vstd::prelude::*;
use vstd::string::*;

verus! {

broadcast use vstd::string::group_string_axioms;

/// The version, and the only thing that may be compared.
pub const VERSION: &'static str = "0.1.0";

/// What this is, under what licence, and where it came from.
pub const NOTICE: &'static str = "Cordial 0.1.0 \u{2014} GPL-3.0-or-later \u{2014} https://github.com/luohoa97/cordial";

/// Version and commit together: the commit in brackets, so that it does not
/// read as part of the number.
pub open spec fn full_text(sha: Option<Seq<char>>) -> Seq<char> {
    match sha {
        Some(sha) => VERSION@ + " ("@ + sha + ")"@,
        None => VERSION@,
    }
}

/// Version and commit together, for a title bar or a report. `sha` is the
/// commit this was built from, where there was one to ask for.
pub fn full(sha: Option<&str>) -> (text: String)
    ensures
        text@ == full_text(
            match sha {
                Some(sha) => Some(sha@),
                None => None,
            },
        ),
{
    let mut text = VERSION.to_owned();
    if let Some(sha) = sha {
        text.append(" (");
        text.append(sha);
        text.append(")");
    }
    text
}

/// The notice names the version of this build, not one it was written for.
pub proof fn law_the_notice_names_this_version()
    ensures
        NOTICE@ == "Cordial "@ + VERSION@
            + " \u{2014} GPL-3.0-or-later \u{2014} https://github.com/luohoa97/cordial"@,
{
    reveal_strlit("Cordial ");
    reveal_strlit("0.1.0");
    reveal_strlit(" \u{2014} GPL-3.0-or-later \u{2014} https://github.com/luohoa97/cordial");
    reveal_strlit(
        "Cordial 0.1.0 \u{2014} GPL-3.0-or-later \u{2014} https://github.com/luohoa97/cordial",
    );
    assert(NOTICE@ =~= "Cordial "@ + VERSION@
        + " \u{2014} GPL-3.0-or-later \u{2014} https://github.com/luohoa97/cordial"@);
}

/// The version is shown alone, or with the commit it was built from in brackets.
pub proof fn law_a_version_is_shown_with_its_commit(sha: Seq<char>)
    ensures
        full_text(None) == "0.1.0"@,
        full_text(Some(sha)) == "0.1.0 ("@ + sha + ")"@,
{
    reveal_strlit("0.1.0");
    reveal_strlit(" (");
    reveal_strlit("0.1.0 (");
    assert("0.1.0"@ + " ("@ =~= "0.1.0 ("@);
}

} // verus!
