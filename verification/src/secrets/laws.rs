//! Where a session is kept and what is read back of it, said of settings, files
//! and answers as they are.

use vstd::prelude::*;
use vstd::string::*;
use vstd::utf8::*;

use super::{file, keyring, Kind, Store, WriteRequest};
use crate::text;

verus! {

broadcast use vstd::string::group_string_axioms;

/// Asked for a file, the session is kept in one. Asked for the keyring, it is
/// kept there or nowhere. Asked for nothing in particular, it is kept in the
/// keyring where that can be used and in a file where it cannot. Anything else is
/// taken to ask for a file.
pub proof fn law_a_setting_decides_where_a_session_is_kept(
    requested: Seq<char>,
    shown: Seq<char>,
    file: Seq<char>,
    usable: Result<(), Seq<char>>,
)
    ensures
        super::decided_as("file"@, shown, file, usable).0 == Store::File,
        usable is Ok ==> super::decided_as("keyring"@, shown, file, usable).0 == Store::Keyring,
        usable is Err ==> super::decided_as("keyring"@, shown, file, usable).0 == Store::Nowhere,
        usable is Ok ==> super::decided_as("auto"@, shown, file, usable).0 == Store::Keyring,
        usable is Err ==> super::decided_as("auto"@, shown, file, usable).0 == Store::File,
        usable is Ok ==> super::decided_as(Seq::<char>::empty(), shown, file, usable).0
            == Store::Keyring,
        usable is Err ==> super::decided_as(Seq::<char>::empty(), shown, file, usable).0
            == Store::File,
        requested != "keyring"@ && requested != "auto"@ && requested.len() > 0
            ==> super::decided_as(requested, shown, file, usable).0 == Store::File,
        super::decided(requested, file, usable) == super::decided_as(
            requested,
            text::debug_form(requested),
            file,
            usable,
        ),
{
    reveal_strlit("file");
    reveal_strlit("keyring");
    reveal_strlit("auto");
    reveal_strlit("");
    assert(""@ =~= Seq::<char>::empty());
    assert("file"@.len() == 4 && "keyring"@.len() == 7 && "auto"@.len() == 4);
    assert("file"@[0] == 'f' && "auto"@[0] == 'a');
}

/// Every decision is announced: what was asked for, where the session goes, and
/// why, where it goes elsewhere.
#[verifier::rlimit(40)]
pub proof fn law_a_decision_is_announced_with_its_reason(
    requested: Seq<char>,
    shown: Seq<char>,
    file: Seq<char>,
    why: Seq<char>,
    usable: Result<(), Seq<char>>,
)
    ensures
        super::decided_as("file"@, shown, file, usable).1
            == "  [secrets] CORDIAL_SECRET_STORE=file: the session is kept in plaintext at "@ + file
            + ", by request"@,
        (requested == "keyring"@ || requested == "auto"@ || requested == ""@)
            ==> super::decided_as(requested, shown, file, Ok(())).1
            == "  [secrets] the session is kept in the desktop secret service (org.freedesktop.secrets); nothing is written to the profile"@,
        super::decided_as("keyring"@, shown, file, Err(why)).1
            == "  [secrets] CORDIAL_SECRET_STORE=keyring, and "@ + why
            + ". This session will not be saved; you will sign in again next launch."@,
        (requested == "auto"@ || requested == ""@) ==> super::decided_as(
            requested,
            shown,
            file,
            Err(why),
        ).1 == "  [secrets] "@ + why + ", so the session falls back to a 0600 file at "@ + file
            + ". Anything that can read your files can take the account. Set CORDIAL_SECRET_STORE=keyring to refuse this and stay signed out instead."@,
        (requested != "file"@ && requested != "keyring"@ && requested != "auto"@ && requested
            != ""@) ==> super::decided_as(requested, shown, file, usable).1
            == "  [secrets] CORDIAL_SECRET_STORE="@ + shown
            + " is not one of auto, keyring, file; treating it as file, which keeps the session in plaintext at "@
            + file,
{
    reveal_strlit("file");
    reveal_strlit("keyring");
    reveal_strlit("auto");
    reveal_strlit("");
    assert("file"@.len() == 4 && "keyring"@.len() == 7 && "auto"@.len() == 4 && ""@.len() == 0);
    assert("file"@[0] == 'f' && "auto"@[0] == 'a');
    reveal_strlit("  [secrets] ");
    reveal_strlit("CORDIAL_SECRET_STORE");
    reveal_strlit("=file: the session is kept in plaintext at ");
    reveal_strlit("  [secrets] CORDIAL_SECRET_STORE=file: the session is kept in plaintext at ");
    assert("  [secrets] "@ + "CORDIAL_SECRET_STORE"@ + "=file: the session is kept in plaintext at "@
        =~= "  [secrets] CORDIAL_SECRET_STORE=file: the session is kept in plaintext at "@);
    reveal_strlit("=keyring, and ");
    reveal_strlit("  [secrets] CORDIAL_SECRET_STORE=keyring, and ");
    assert("  [secrets] "@ + "CORDIAL_SECRET_STORE"@ + "=keyring, and "@
        =~= "  [secrets] CORDIAL_SECRET_STORE=keyring, and "@);
    reveal_strlit("=");
    reveal_strlit("  [secrets] CORDIAL_SECRET_STORE=");
    assert("  [secrets] "@ + "CORDIAL_SECRET_STORE"@ + "="@
        =~= "  [secrets] CORDIAL_SECRET_STORE="@);
    reveal_strlit(". Anything that can read your files can take the account. Set ");
    reveal_strlit("=keyring to refuse this and stay signed out instead.");
    reveal_strlit(
        ". Anything that can read your files can take the account. Set CORDIAL_SECRET_STORE=keyring to refuse this and stay signed out instead.",
    );
    let fallen = "  [secrets] "@ + why + ", so the session falls back to a 0600 file at "@ + file;
    let tail =
        ". Anything that can read your files can take the account. Set CORDIAL_SECRET_STORE=keyring to refuse this and stay signed out instead."@;
    assert(". Anything that can read your files can take the account. Set "@
        + "CORDIAL_SECRET_STORE"@ + "=keyring to refuse this and stay signed out instead."@
        =~= tail);
    assert(fallen + ". Anything that can read your files can take the account. Set "@
        + "CORDIAL_SECRET_STORE"@ + "=keyring to refuse this and stay signed out instead."@
        =~= fallen + tail);
}

/// What is saved goes by these names: in the profile's directory, in the
/// service's label and in its attributes.
pub proof fn law_a_saved_value_goes_by_its_kind(dir: Seq<char>, shown: Seq<char>)
    ensures
        Kind::Cookies.named() == "cookies"@,
        Kind::Identity.named() == "identity"@,
        Kind::Cookies.labelled_as(Some(shown)) == "Cordial: Roblox "@ + "cookies"@ + " for profile "@
            + shown,
        Kind::Identity.labelled_as(Some(shown)) == "Cordial: Roblox "@ + "identity"@
            + " for profile "@ + shown,
        Kind::Cookies.labelled_as(None) == "Cordial: Roblox "@ + "cookies"@,
        Kind::Identity.labelled_as(None) == "Cordial: Roblox "@ + "identity"@,
        Kind::Cookies.labelled(Some(dir)) == Kind::Cookies.labelled_as(Some(text::debug_form(dir))),
        Kind::Identity.labelled(Some(dir)) == Kind::Identity.labelled_as(
            Some(text::debug_form(dir)),
        ),
        super::attributes_of(dir, Kind::Cookies) == seq![
            ("xdg:schema"@, "org.cordial.Session"@),
            ("application"@, "cordial"@),
            ("profile"@, dir),
            ("store"@, "cookies"@),
        ],
        super::attributes_of(dir, Kind::Identity) == seq![
            ("xdg:schema"@, "org.cordial.Session"@),
            ("application"@, "cordial"@),
            ("profile"@, dir),
            ("store"@, "identity"@),
        ],
{
}

/// A store that a child is to keep is named by the setting that selects it, and
/// one that keeps nothing asks for the keyring again rather than for a file.
pub proof fn law_a_store_is_named_by_its_setting()
    ensures
        Store::Keyring.setting() == "keyring"@,
        Store::Nowhere.setting() == "keyring"@,
        Store::File.setting() == "file"@,
        super::SETTING@ == "CORDIAL_SECRET_STORE"@,
        super::SCHEMA@ == "org.cordial.Session"@,
{
}

/// What is stored holds the attributes of its profile and kind, and the value in
/// its encoding.
pub proof fn law_what_is_stored_is_its_encoding(
    request: WriteRequest,
    dir: Seq<char>,
    profile: Option<Seq<char>>,
    kind: Kind,
    body: Seq<char>,
)
    requires
        super::stores(request, dir, profile, kind, body),
    ensures
        request.attributes@.len() == 4,
        request.attributes@[2].0@ == "profile"@,
        request.attributes@[2].1@ == dir,
        request.attributes@[3].0@ == "store"@,
        request.attributes@[3].1@ == kind.named(),
        request.label@ == kind.labelled(profile),
        request.body@ == "cordial-secret-hex-v1:"@ + keyring::hex_of(encode_utf8(body)),
{
    let pairs = super::pairs(request.attributes@);
    assert(pairs.len() == request.attributes@.len());
    assert(pairs[2] == (request.attributes@[2].0@, request.attributes@[2].1@));
    assert(pairs[3] == (request.attributes@[3].0@, request.attributes@[3].1@));
}

/// Where a session is said to be kept.
pub proof fn law_a_store_says_where_it_keeps(dir: Seq<char>, kind: Kind)
    requires
        dir.len() > 0,
        dir.last() != '/',
    ensures
        super::kept_at(Store::Keyring, dir, kind) == "the desktop secret service"@,
        super::kept_at(Store::File, dir, kind) == dir + "/"@ + kind.named(),
        super::kept_at(Store::Nowhere, dir, kind) == "nowhere; this session is not being saved"@,
{
    reveal_strlit("/");
    assert(text::joined(dir, kind.named()) =~= dir + "/"@ + kind.named());
}

/// What the service hands back is what was saved; nothing there is nothing saved
/// and goes unsaid, and a failure is said and reads as signed out.
pub proof fn law_an_answer_is_the_session_or_signed_out(kind: Kind, body: Seq<char>, why: Seq<char>)
    ensures
        super::loaded_of(kind, Ok(None)) == (None::<Seq<char>>, None::<Seq<char>>),
        super::loaded_of(kind, Err(why)) == (
            None::<Seq<char>>,
            Some("  [secrets] "@ + kind.named() + ": not read back ("@ + why + "); signed out"@),
        ),
        !text::begins_with(body, "cordial-secret-hex-v1:"@) ==> super::loaded_of(
            kind,
            Ok(Some(body)),
        ) == (Some(body), None::<Seq<char>>),
        super::loaded_of(kind, Ok(Some(keyring::encoded(body)))) == (Some(body), None::<Seq<char>>),
{
    keyring::law_a_session_survives_the_round_trip(body);
}

/// A file in the profile is what a launch reads, before anything the service
/// holds; without one the service is asked, but only where that is the store, and
/// a store that keeps nothing reads nothing.
pub proof fn law_a_file_is_read_before_the_service(
    kind: Kind,
    bytes: Seq<u8>,
    body: Seq<char>,
    answer: Result<Option<Seq<char>>, Seq<char>>,
)
    ensures
        super::body_loaded(Store::Nowhere, kind, Some(bytes), answer) is None,
        super::body_loaded(Store::File, kind, Some(encode_utf8(body)), answer) == Some(body),
        super::body_loaded(Store::Keyring, kind, Some(encode_utf8(body)), answer) == Some(body),
        super::body_loaded(Store::File, kind, None, answer) is None,
        super::body_loaded(Store::Keyring, kind, None, Ok(Some(keyring::encoded(body)))) == Some(
            body,
        ),
        super::body_loaded(Store::Keyring, kind, None, Ok(None)) is None,
        !valid_utf8(bytes) ==> super::body_loaded(Store::File, kind, Some(bytes), answer) is None,
        !valid_utf8(bytes) ==> super::body_loaded(
            Store::Keyring,
            kind,
            Some(bytes),
            Ok(Some(keyring::encoded(body))),
        ) == Some(body),
{
    encode_utf8_valid_utf8(body);
    encode_utf8_decode_utf8(body);
    keyring::law_a_session_survives_the_round_trip(body);
}

/// A snapshot is of the file where there is one that fits, of the service's
/// answer where there is no file and that is the store, and of nothing where what
/// is there is too large.
pub proof fn law_a_snapshot_fits_or_there_is_none(
    body: Seq<char>,
    answer: Result<Option<Seq<char>>, Seq<char>>,
    max: int,
)
    ensures
        super::snapshot_taken(Store::Nowhere, Some(encode_utf8(body)), answer, max) is None,
        encode_utf8(body).len() <= max ==> super::snapshot_taken(
            Store::File,
            Some(encode_utf8(body)),
            answer,
            max,
        ) == Some(encode_utf8(body)) && super::snapshot_taken(
            Store::Keyring,
            Some(encode_utf8(body)),
            answer,
            max,
        ) == Some(encode_utf8(body)) && super::snapshot_taken(
            Store::Keyring,
            None,
            Ok(Some(keyring::encoded(body))),
            max,
        ) == Some(encode_utf8(body)),
        encode_utf8(body).len() > max ==> super::snapshot_taken(
            Store::File,
            Some(encode_utf8(body)),
            answer,
            max,
        ) is None && super::snapshot_taken(
            Store::Keyring,
            Some(encode_utf8(body)),
            answer,
            max,
        ) is None && super::snapshot_taken(
            Store::Keyring,
            None,
            Ok(Some(keyring::encoded(body))),
            max,
        ) is None,
        super::snapshot_taken(Store::File, None, answer, max) is None,
{
    encode_utf8_valid_utf8(body);
    keyring::law_a_session_survives_the_round_trip(body);
}

/// What is there is taken as it stands, an empty text and no bytes among it, and
/// only what is not there is missing.
pub proof fn law_what_is_there_is_taken_as_it_stands(
    name: &str,
    text: String,
    bytes: Vec<u8>,
    pairs: Seq<(String, String)>,
    i: int,
)
    ensures
        super::name_view(Some(name)) == Some(name@),
        super::name_view(None) is None,
        super::option_view(Some(text)) == Some(text@),
        super::option_view(None) is None,
        super::bytes_view(Some(bytes)) == Some(bytes@),
        super::bytes_view(None) is None,
        super::usable_view(Ok(())) is Ok,
        super::usable_view(Err(text)) == Err::<(), Seq<char>>(text@),
        super::pairs(pairs).len() == pairs.len(),
        0 <= i < pairs.len() ==> super::pairs(pairs)[i] == (pairs[i].0@, pairs[i].1@),
        keyring::answer_view(Ok(Some(text))) == Ok::<Option<Seq<char>>, Seq<char>>(Some(text@)),
        keyring::answer_view(Ok(None)) == Ok::<Option<Seq<char>>, Seq<char>>(None),
        keyring::answer_view(Err(text)) == Err::<Option<Seq<char>>, Seq<char>>(text@),
{
}

} // verus!
