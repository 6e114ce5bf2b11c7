//! A `roblox-player:` link the desktop handed over, checked before it is
//! believed.
//!
//! What arrives was produced by a browser acting on a click, so it is treated
//! as hostile input: the scheme, the length and the bytes are checked, and the
//! payload after the scheme is carried exactly as it came.

use vstd::prelude::*;
use vstd::string::*;
use vstd::utf8::*;

use crate::text::{
    self,
    chars_of, debug_text, find_from, is_all_graphic, lowers_to, text_between, to_decimal,
};

verus! {

broadcast use vstd::string::group_string_axioms;

/// The first of the two schemes Cordial answers for.
pub const PLAYER_SCHEME: &'static str = "roblox-player";

/// The second of the two schemes Cordial answers for.
pub const HOME_SCHEME: &'static str = "roblox";

/// The longest link that will be carried, in bytes.
pub const MAX_LENGTH: usize = 2048;

/// Why a link was not taken.
#[derive(Debug, PartialEq, Eq)]
pub enum Rejected {
    Empty,
    TooLong(usize),
    Scheme(String),
    /// Something outside printable ASCII: a control character, a space, a
    /// newline, or a byte past 0x7e.
    NotPrintableAscii,
}

impl Clone for Rejected {
    fn clone(&self) -> (copy: Rejected)
        ensures
            copy == *self,
    {
        match self {
            Rejected::Empty => Rejected::Empty,
            Rejected::TooLong(len) => Rejected::TooLong(*len),
            Rejected::Scheme(scheme) => Rejected::Scheme(scheme.clone()),
            Rejected::NotPrintableAscii => Rejected::NotPrintableAscii,
        }
    }
}

/// A refusal as a mathematical value.
pub enum Refusal {
    Empty,
    TooLong(nat),
    Scheme(Seq<char>),
    NotPrintableAscii,
}

impl View for Rejected {
    type V = Refusal;

    open spec fn view(&self) -> Refusal {
        match *self {
            Rejected::Empty => Refusal::Empty,
            Rejected::TooLong(len) => Refusal::TooLong(len as nat),
            Rejected::Scheme(scheme) => Refusal::Scheme(scheme@),
            Rejected::NotPrintableAscii => Refusal::NotPrintableAscii,
        }
    }
}

/// What stands before the first colon, where there is one.
pub open spec fn scheme_of(raw: Seq<char>) -> Option<Seq<char>> {
    match text::first(raw, ':') {
        Some(i) => Some(raw.take(i)),
        None => None,
    }
}

/// One of the two schemes, whatever the case of its letters.
pub open spec fn is_handled(scheme: Seq<char>) -> bool {
    text::ascii_lowered(scheme) == PLAYER_SCHEME@ || text::ascii_lowered(scheme)
        == HOME_SCHEME@
}

/// Whether a link is taken, and why not where it is not.
pub open spec fn judged(raw: Seq<char>) -> Result<(), Refusal> {
    if raw.len() == 0 {
        Err(Refusal::Empty)
    } else if encode_utf8(raw).len() > MAX_LENGTH {
        Err(Refusal::TooLong(encode_utf8(raw).len()))
    } else if !text::all_graphic(raw) {
        Err(Refusal::NotPrintableAscii)
    } else {
        match scheme_of(raw) {
            None => Err(Refusal::Scheme(raw)),
            Some(scheme) => if is_handled(scheme) {
                Ok(())
            } else {
                Err(Refusal::Scheme(scheme))
            },
        }
    }
}

/// The scheme of a refusal as its words show it.
pub open spec fn shown_scheme(refusal: Refusal) -> Seq<char> {
    match refusal {
        Refusal::Scheme(scheme) => text::debug_form(scheme),
        _ => Seq::empty(),
    }
}

/// A refusal in words.
pub open spec fn refusal_text(refusal: Refusal) -> Seq<char> {
    refusal_text_as(refusal, shown_scheme(refusal))
}

/// A refusal in words, given how its scheme is shown where that was the reason.
pub open spec fn refusal_text_as(refusal: Refusal, shown: Seq<char>) -> Seq<char> {
    match refusal {
        Refusal::Empty => "an empty link"@,
        Refusal::TooLong(len) => "a link of "@ + text::decimal(len) + " bytes, over the "@
            + text::decimal(MAX_LENGTH as nat) + " this will carry"@,
        Refusal::Scheme(_) => "the scheme "@ + shown + ", and Cordial only handles "@ + PLAYER_SCHEME@ + ": and "@ + HOME_SCHEME@ + ":"@,
        Refusal::NotPrintableAscii => "a link with something other than printable ASCII in it"@,
    }
}

impl Rejected {
    /// The refusal in words, naming the schemes Cordial does handle where the
    /// scheme was the reason.
    pub fn message(&self) -> (said: String)
        ensures
            said@ == refusal_text(self@),
    {
        match self {
            Rejected::Scheme(scheme) => self.message_as(debug_text(scheme.as_str()).as_str()),
            _ => self.message_as(""),
        }
    }

    /// The refusal in words, given how its scheme is shown where that was the
    /// reason.
    pub fn message_as(&self, shown: &str) -> (said: String)
        ensures
            said@ == refusal_text_as(self@, shown@),
    {
        match self {
            Rejected::Empty => "an empty link".to_owned(),
            Rejected::TooLong(len) => {
                let mut said = "a link of ".to_owned();
                said.append(to_decimal(*len as u64).as_str());
                said.append(" bytes, over the ");
                said.append(to_decimal(MAX_LENGTH as u64).as_str());
                said.append(" this will carry");
                said
            },
            Rejected::Scheme(_) => {
                let mut said = "the scheme ".to_owned();
                said.append(shown);
                said.append(", and Cordial only handles ");
                said.append(PLAYER_SCHEME);
                said.append(": and ");
                said.append(HOME_SCHEME);
                said.append(":");
                said
            },
            Rejected::NotPrintableAscii => {
                "a link with something other than printable ASCII in it".to_owned()
            },
        }
    }
}

/// Take the link, or say why not.
///
/// Returns the text exactly as it arrived when it passes. Nothing is
/// normalised, lowered or encoded again: the payload after the scheme belongs
/// to the client.
pub fn accept(raw: &str) -> (taken: Result<String, Rejected>)
    ensures
        match taken {
            Ok(link) => judged(raw@) is Ok && link@ == raw@,
            Err(why) => judged(raw@) == Err::<(), Refusal>(why@),
        },
{
    if raw.is_empty() {
        return Err(Rejected::Empty);
    }
    let len: usize = raw.as_bytes().len();
    if len > MAX_LENGTH {
        return Err(Rejected::TooLong(len));
    }
    let chars = chars_of(raw);
    if !is_all_graphic(&chars) {
        return Err(Rejected::NotPrintableAscii);
    }
    match find_from(&chars, ':', 0) {
        None => Err(Rejected::Scheme(raw.to_owned())),
        Some(colon) => {
            assert(chars@.subrange(0, colon as int) =~= raw@.take(colon as int));
            if lowers_to(&chars, 0, colon, PLAYER_SCHEME) || lowers_to(
                &chars,
                0,
                colon,
                HOME_SCHEME,
            ) {
                Ok(raw.to_owned())
            } else {
                Err(Rejected::Scheme(text_between(&chars, 0, colon)))
            }
        },
    }
}

/// What the banner may say of a link: its scheme and the colon after it, or
/// nothing where there is no colon.
pub open spec fn summary_of(url: Seq<char>) -> Seq<char> {
    match scheme_of(url) {
        Some(scheme) => scheme.push(':'),
        None => Seq::empty(),
    }
}

/// A short form for the banner: the scheme, and deliberately nothing after it,
/// because the payload holds a credential.
pub fn summarise(url: &str) -> (shown: String)
    ensures
        shown@ == summary_of(url@),
{
    let chars = chars_of(url);
    match find_from(&chars, ':', 0) {
        Some(colon) => {
            let mut shown = text_between(&chars, 0, colon);
            assert(shown@ =~= url@.take(colon as int));
            shown.push(':');
            shown
        },
        None => String::new(),
    }
}

/// The banner shows nothing that follows the scheme: two links with the same
/// scheme are shown alike, whatever their payloads hold.
pub proof fn law_summary_hides_the_payload(scheme: Seq<char>, one: Seq<char>, other: Seq<char>)
    requires
        !scheme.contains(':'),
    ensures
        summary_of(scheme + seq![':'] + one) == summary_of(scheme + seq![':'] + other),
        summary_of(scheme + seq![':'] + one) == scheme + seq![':'],
{
    lemma_summary_is_the_scheme(scheme, one);
    lemma_summary_is_the_scheme(scheme, other);
}

proof fn lemma_summary_is_the_scheme(scheme: Seq<char>, payload: Seq<char>)
    requires
        !scheme.contains(':'),
    ensures
        scheme_of(scheme + seq![':'] + payload) == Some(scheme),
        summary_of(scheme + seq![':'] + payload) == scheme + seq![':'],
{
    let url = scheme + seq![':'] + payload;
    assert forall|j: int| 0 <= j < scheme.len() implies url[j] != ':' by {
        assert(url[j] == scheme[j]);
        assert(scheme.contains(scheme[j]));
    }
    assert(text::is_first_from(url, ':', 0, scheme.len() as int));
    text::lemma_first_from(url, ':', 0, scheme.len() as int);
    assert(url.take(scheme.len() as int) =~= scheme);
    assert(scheme.push(':') =~= scheme + seq![':']);
}

/// The banner cannot stretch the window: what it shows of a link that was taken
/// is one of the two schemes, in some case, and a colon.
pub proof fn law_summary_of_a_taken_link_is_short(raw: Seq<char>)
    requires
        judged(raw) is Ok,
    ensures
        text::ascii_lowered(summary_of(raw)) == PLAYER_SCHEME@.push(':')
            || text::ascii_lowered(summary_of(raw)) == HOME_SCHEME@.push(':'),
{
    let scheme = scheme_of(raw)->0;
    assert(text::ascii_lowered(scheme.push(':')) =~= text::ascii_lowered(
        scheme,
    ).push(':'));
}

/// A scheme is spelled as a word whatever the case of its letters.
proof fn lemma_spelled_in_any_case(scheme: Seq<char>, word: Seq<char>)
    requires
        forall|i: int| 0 <= i < word.len() ==> !(0x41 <= (#[trigger] word[i]) as int <= 0x5a),
    ensures
        text::ascii_lowered(scheme) == word <==> (scheme.len() == word.len() && forall|i: int|
            0 <= i < word.len() ==> (#[trigger] scheme[i]) == word[i] || (0x61 <= word[i] as int
                <= 0x7a && scheme[i] as int == word[i] as int - 0x20)),
{
    let lowered = text::ascii_lowered(scheme);
    if lowered == word {
        assert forall|i: int| 0 <= i < word.len() implies (#[trigger] scheme[i]) == word[i] || (0x61
            <= word[i] as int <= 0x7a && scheme[i] as int == word[i] as int - 0x20) by {
            assert(lowered[i] == word[i]);
            text::law_lowering_moves_the_capitals(scheme, i);
        }
    }
    if scheme.len() == word.len() && forall|i: int|
        0 <= i < word.len() ==> (#[trigger] scheme[i]) == word[i] || (0x61 <= word[i] as int <= 0x7a
            && scheme[i] as int == word[i] as int - 0x20) {
        assert forall|i: int| 0 <= i < word.len() implies lowered[i] == word[i] by {
            assert(scheme[i] == word[i] || scheme[i] as int == word[i] as int - 0x20);
            text::law_lowering_moves_the_capitals(scheme, i);
        }
        assert(lowered =~= word);
    }
}

proof fn lemma_schemes_hold_no_capital()
    ensures
        forall|i: int|
            0 <= i < "roblox"@.len() ==> !(0x41 <= (#[trigger] "roblox"@[i]) as int <= 0x5a)
                && "roblox"@[i] != ':',
        forall|i: int|
            0 <= i < "roblox-player"@.len() ==> !(0x41 <= (
            #[trigger] "roblox-player"@[i]) as int <= 0x5a) && "roblox-player"@[i] != ':',
        PLAYER_SCHEME@ == "roblox-player"@,
        HOME_SCHEME@ == "roblox"@,
{
    reveal_strlit("roblox");
    reveal_strlit("roblox-player");
}

/// A link is taken exactly where it is one of the two schemes, in any case of
/// its letters, a colon and anything more, every character of it has a code
/// from 0x21 to 0x7e, and it is no longer than 2048 characters.
pub proof fn law_a_link_is_taken_by_its_codes(scheme: Seq<char>, rest: Seq<char>)
    requires
        !scheme.contains(':'),
    ensures
        judged(scheme + ":"@ + rest) is Ok <==> {
            let raw = scheme + ":"@ + rest;
            &&& raw.len() <= 2048
            &&& forall|i: int| 0 <= i < raw.len() ==> 0x21 <= (#[trigger] raw[i]) as int <= 0x7e
            &&& {
                ||| scheme.len() == "roblox"@.len() && forall|i: int|
                    0 <= i < scheme.len() ==> (#[trigger] scheme[i]) == "roblox"@[i] || (0x61
                        <= "roblox"@[i] as int <= 0x7a && scheme[i] as int == "roblox"@[i] as int
                        - 0x20)
                ||| scheme.len() == "roblox-player"@.len() && forall|i: int|
                    0 <= i < scheme.len() ==> (#[trigger] scheme[i]) == "roblox-player"@[i] || (0x61
                        <= "roblox-player"@[i] as int <= 0x7a && scheme[i] as int
                        == "roblox-player"@[i] as int - 0x20)
            }
        },
{
    reveal_strlit(":");
    let raw = scheme + ":"@ + rest;
    assert(raw =~= scheme + seq![':'] + rest);
    lemma_schemes_hold_no_capital();
    lemma_summary_is_the_scheme(scheme, rest);
    text::law_graphic_is_a_range_of_codes(raw);
    if text::all_graphic(raw) {
        text::lemma_graphic_bytes(raw);
    }
    lemma_spelled_in_any_case(scheme, "roblox"@);
    lemma_spelled_in_any_case(scheme, "roblox-player"@);
}

/// Why a link is refused: for being empty, for its length in bytes, for a
/// character whose code is not between 0x21 and 0x7e, and for its scheme, which
/// is what stands before the first colon and the whole link where there is none.
pub proof fn law_a_refusal_has_its_reason(raw: Seq<char>)
    ensures
        raw.len() == 0 ==> judged(raw) == Err::<(), Refusal>(Refusal::Empty),
        encode_utf8(raw).len() > 2048 ==> judged(raw) == Err::<(), Refusal>(
            Refusal::TooLong(encode_utf8(raw).len()),
        ),
        encode_utf8(raw).len() <= 2048 && (exists|i: int|
            0 <= i < raw.len() && !(0x21 <= (#[trigger] raw[i]) as int <= 0x7e)) ==> judged(raw)
            == Err::<(), Refusal>(Refusal::NotPrintableAscii),
        0 < raw.len() && encode_utf8(raw).len() <= 2048 && (forall|i: int|
            0 <= i < raw.len() ==> 0x21 <= (#[trigger] raw[i]) as int <= 0x7e && raw[i] != ':')
            ==> judged(raw) == Err::<(), Refusal>(Refusal::Scheme(raw)),
{
    text::law_graphic_is_a_range_of_codes(raw);
    if raw.len() == 0 {
        encode_utf8_decode_utf8(raw);
        assert(encode_utf8(raw).len() == 0);
    }
    if forall|i: int| 0 <= i < raw.len() ==> 0x21 <= (#[trigger] raw[i]) as int <= 0x7e && raw[i]
        != ':' {
        text::lemma_first_from_none(raw, ':', 0);
    }
}

/// A link whose scheme is another is refused by that scheme's name.
pub proof fn law_another_scheme_is_named(scheme: Seq<char>, rest: Seq<char>)
    requires
        !scheme.contains(':'),
        text::ascii_lowered(scheme) != "roblox"@,
        text::ascii_lowered(scheme) != "roblox-player"@,
        (scheme + ":"@ + rest).len() <= 2048,
        forall|i: int|
            0 <= i < (scheme + ":"@ + rest).len() ==> 0x21 <= (#[trigger] (scheme + ":"@
                + rest)[i]) as int <= 0x7e,
    ensures
        judged(scheme + ":"@ + rest) == Err::<(), Refusal>(Refusal::Scheme(scheme)),
{
    reveal_strlit(":");
    let raw = scheme + ":"@ + rest;
    assert(raw =~= scheme + seq![':'] + rest);
    lemma_schemes_hold_no_capital();
    lemma_summary_is_the_scheme(scheme, rest);
    text::law_graphic_is_a_range_of_codes(raw);
    text::lemma_graphic_bytes(raw);
}

/// What is said of a link that is not taken: its length where it is too long, and
/// its scheme where that is another.
pub proof fn law_a_refusal_says_what_is_wrong(len: nat, scheme: Seq<char>, shown: Seq<char>)
    ensures
        refusal_text_as(Refusal::Empty, shown) == "an empty link"@,
        refusal_text_as(Refusal::TooLong(len), shown) == "a link of "@ + text::decimal(len)
            + " bytes, over the "@ + text::decimal(2048) + " this will carry"@,
        refusal_text_as(Refusal::Scheme(scheme), shown) == "the scheme "@ + shown
            + ", and Cordial only handles "@ + "roblox-player"@ + ": and "@ + "roblox"@ + ":"@,
        refusal_text_as(Refusal::NotPrintableAscii, shown)
            == "a link with something other than printable ASCII in it"@,
        refusal_text(Refusal::Scheme(scheme)) == refusal_text_as(
            Refusal::Scheme(scheme),
            text::debug_form(scheme),
        ),
{
}

/// A text without a scheme has nothing to show.
pub proof fn law_a_text_without_a_scheme_has_no_summary(raw: Seq<char>)
    requires
        !raw.contains(':'),
    ensures
        summary_of(raw) == Seq::<char>::empty(),
        scheme_of(raw) is None,
{
    text::law_the_first_has_none_before_it(raw, ':', Seq::<char>::empty());
}

/// A refusal is told by its kind, its length and its scheme as they stand.
pub proof fn law_a_refusal_is_what_it_holds(len: usize, scheme: String)
    ensures
        Rejected::Empty@ == Refusal::Empty,
        Rejected::TooLong(len)@ == Refusal::TooLong(len as nat),
        Rejected::Scheme(scheme)@ == Refusal::Scheme(scheme@),
        Rejected::NotPrintableAscii@ == Refusal::NotPrintableAscii,
{
}

} // verus!
