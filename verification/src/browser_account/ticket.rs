//! Separate the one-use credential from the join that must survive its
//! consumption.

pub mod laws;

use vstd::prelude::*;
use vstd::string::*;
use vstd::utf8::*;

use crate::deep_link;
use crate::text::{self, chars_of, find_from, is_all_graphic, lowers_to, same_text, text_between};

verus! {

broadcast use vstd::string::group_string_axioms;

/// A desktop launch with its credential taken out.
pub struct LaunchTicket {
    /// The one-use credential, decoded. Never shown and never logged.
    pub secret: String,
    /// The link without it.
    pub join_url: String,
}

/// The fields the desktop player protocol defines. Only these can end a
/// credential, because the credential may itself hold pluses and colons.
pub open spec fn is_key(key: Seq<char>) -> bool {
    ||| key == "launchmode"@
    ||| key == "gameinfo"@
    ||| key == "placelauncherurl"@
    ||| key == "launchtime"@
    ||| key == "browsertrackerid"@
    ||| key == "robloxLocale"@
    ||| key == "gameLocale"@
    ||| key == "channel"@
    ||| key == "LaunchExp"@
}

/// The text holds `+key:` at position `k`.
pub open spec fn names_field(raw: Seq<char>, k: int, key: Seq<char>) -> bool {
    &&& 0 <= k
    &&& k + key.len() + 2 <= raw.len()
    &&& raw[k] == '+'
    &&& raw.subrange(k + 1, k + 1 + key.len()) == key
    &&& raw[k + 1 + key.len()] == ':'
}

/// A field of the protocol begins at position `k`.
pub open spec fn begins_field(raw: Seq<char>, k: int) -> bool {
    exists|key: Seq<char>| is_key(key) && #[trigger] names_field(raw, k, key)
}

/// The first position at or after `from` where a field begins, or the end.
pub open spec fn next_field(raw: Seq<char>, from: int) -> int
    decreases raw.len() - from,
{
    if from >= raw.len() {
        raw.len() as int
    } else if begins_field(raw, from) {
        from
    } else {
        next_field(raw, from + 1)
    }
}

/// The field named `key` at `k` is the only one of that name.
pub open spec fn is_only_field(raw: Seq<char>, key: Seq<char>, k: int) -> bool {
    names_field(raw, k, key) && forall|j: int| #[trigger] names_field(raw, j, key) ==> j == k
}

/// Where the only field of that name begins; nothing where there is none or
/// more than one.
pub open spec fn only_field(raw: Seq<char>, key: Seq<char>) -> Option<int> {
    if exists|k: int| is_only_field(raw, key, k) {
        Some(choose|k: int| is_only_field(raw, key, k))
    } else {
        None
    }
}

/// What the field named `key` at `k` holds: everything up to the next field.
pub open spec fn field_value(raw: Seq<char>, k: int, key: Seq<char>) -> Seq<char> {
    raw.subrange(k + key.len() + 2, next_field(raw, k + 1))
}

/// A text without the slashes it begins with.
pub open spec fn without_slashes(s: Seq<char>) -> Seq<char>
    decreases s.len(),
{
    if s.len() > 0 && s[0] == '/' {
        without_slashes(s.skip(1))
    } else {
        s
    }
}

pub open spec fn is_digit(c: char) -> bool {
    '0' <= c <= '9'
}

/// Digits, at least one, up to the first plus.
pub open spec fn opens_with_version(payload: Seq<char>) -> bool {
    match text::first(payload, '+') {
        Some(i) => i > 0 && forall|j: int| 0 <= j < i ==> is_digit(#[trigger] payload[j]),
        None => false,
    }
}

pub open spec fn is_hex(c: char) -> bool {
    '0' <= c <= '9' || 'a' <= c <= 'f' || 'A' <= c <= 'F'
}

/// Every percent sign is followed by two hexadecimal digits.
pub open spec fn well_escaped(s: Seq<char>) -> bool {
    forall|i: int|
        0 <= i < s.len() && #[trigger] s[i] == '%' ==> i + 2 < s.len() && is_hex(s[i + 1])
            && is_hex(s[i + 2])
}

/// The value of a hexadecimal digit.
pub open spec fn hex_value(b: u8) -> Option<u8> {
    if 0x30 <= b <= 0x39 {
        Some((b - 0x30) as u8)
    } else if 0x61 <= b <= 0x66 {
        Some((b - 0x57) as u8)
    } else if 0x41 <= b <= 0x46 {
        Some((b - 0x37) as u8)
    } else {
        None
    }
}

/// Percent-decoding: `%` and two hexadecimal digits are one byte, and every
/// other byte is itself.
pub open spec fn percent_decoded(bytes: Seq<u8>) -> Seq<u8>
    decreases bytes.len(),
{
    if bytes.len() == 0 {
        bytes
    } else if bytes[0] == 0x25 && bytes.len() >= 3 && hex_value(bytes[1]) is Some && hex_value(
        bytes[2],
    ) is Some {
        seq![(hex_value(bytes[1])->0 * 16 + hex_value(bytes[2])->0) as u8] + percent_decoded(
            bytes.skip(3),
        )
    } else {
        seq![bytes[0]] + percent_decoded(bytes.skip(1))
    }
}

/// `percent_encoding::percent_decode_str` followed by `decode_utf8`: the
/// decoded bytes as text, or nothing where they are not UTF-8.
#[verifier::external_body]
fn percent_decode(encoded: &str) -> (decoded: Option<String>)
    ensures
        match decoded {
            Some(text) => encode_utf8(text@) == percent_decoded(encode_utf8(encoded@)),
            None => !valid_utf8(percent_decoded(encode_utf8(encoded@))),
        },
{
    percent_encoding::percent_decode_str(encoded).decode_utf8().ok().map(|text| text.into_owned())
}

/// The credential an encoded field stands for, where it stands for one.
pub open spec fn secret_of(encoded: Seq<char>) -> Option<Seq<char>> {
    let bytes = percent_decoded(encode_utf8(encoded));
    if well_escaped(encoded) && valid_utf8(bytes) && bytes.len() > 0 && text::all_graphic(
        decode_utf8(bytes),
    ) {
        Some(decode_utf8(bytes))
    } else {
        None
    }
}

/// Whether a link is a desktop launch: a taken link of the player scheme whose
/// payload, after any slashes, begins with a version and a plus.
pub open spec fn is_player_launch(raw: Seq<char>) -> bool {
    &&& deep_link::judged(raw) is Ok
    &&& text::ascii_lowered(deep_link::scheme_of(raw)->0) == deep_link::PLAYER_SCHEME@
    &&& opens_with_version(without_slashes(raw.skip(text::first(raw, ':')->0 + 1)))
}

/// The credential in a link and the join that is left without it.
///
/// There is one only in a desktop launch with exactly one `gameinfo` field,
/// whose value stands for a credential, and exactly one `launchmode` field,
/// whose value is `play`.
pub open spec fn parsed(raw: Seq<char>) -> Option<(Seq<char>, Seq<char>)> {
    if !is_player_launch(raw) {
        None
    } else {
        match (only_field(raw, "gameinfo"@), only_field(raw, "launchmode"@)) {
            (Some(start), Some(mode)) => if field_value(raw, mode, "launchmode"@) == "play"@ {
                match secret_of(field_value(raw, start, "gameinfo"@)) {
                    Some(secret) => Some((secret, without_field(raw, start))),
                    None => None,
                }
            } else {
                None
            },
            _ => None,
        }
    }
}

/// A link without the field that begins at `start`.
pub open spec fn without_field(raw: Seq<char>, start: int) -> Seq<char> {
    raw.take(start) + raw.skip(next_field(raw, start + 1))
}

/// No field name holds a plus or a colon.
proof fn lemma_key_is_plain(key: Seq<char>)
    requires
        is_key(key),
    ensures
        forall|i: int| 0 <= i < key.len() ==> #[trigger] key[i] != '+' && key[i] != ':',
{
    reveal_strlit("launchmode");
    reveal_strlit("gameinfo");
    reveal_strlit("placelauncherurl");
    reveal_strlit("launchtime");
    reveal_strlit("browsertrackerid");
    reveal_strlit("robloxLocale");
    reveal_strlit("gameLocale");
    reveal_strlit("channel");
    reveal_strlit("LaunchExp");
}

/// A field's name ends at the first colon after it begins, and no plus stands
/// between the two.
proof fn lemma_field_shape(raw: Seq<char>, k: int, key: Seq<char>)
    requires
        is_key(key),
        names_field(raw, k, key),
    ensures
        text::first_from(raw, ':', k + 1) == Some(k + 1 + key.len()),
        forall|j: int| k < j < k + key.len() + 2 ==> #[trigger] raw[j] != '+',
{
    lemma_key_is_plain(key);
    let end = k + 1 + key.len();
    assert forall|j: int| k + 1 <= j < end implies #[trigger] raw[j] != ':' && raw[j] != '+' by {
        assert(raw.subrange(k + 1, end)[j - k - 1] == raw[j]);
        assert(key[j - k - 1] == raw[j]);
    }
    assert(text::is_first_from(raw, ':', k + 1, end));
    text::lemma_first_from(raw, ':', k + 1, end);
}

/// At most one field begins at a position.
proof fn lemma_one_key(raw: Seq<char>, k: int, one: Seq<char>, other: Seq<char>)
    requires
        is_key(one),
        is_key(other),
        names_field(raw, k, one),
        names_field(raw, k, other),
    ensures
        one == other,
{
    lemma_field_shape(raw, k, one);
    lemma_field_shape(raw, k, other);
}

/// What `next_field` finds.
proof fn lemma_next_field(raw: Seq<char>, from: int)
    requires
        0 <= from <= raw.len(),
    ensures
        from <= next_field(raw, from) <= raw.len(),
        next_field(raw, from) < raw.len() ==> begins_field(raw, next_field(raw, from)),
        forall|j: int| from <= j < next_field(raw, from) ==> !#[trigger] begins_field(raw, j),
    decreases raw.len() - from,
{
    if from < raw.len() && !begins_field(raw, from) {
        lemma_next_field(raw, from + 1);
    }
}

/// `next_field` is the position that has its properties.
proof fn lemma_is_next_field(raw: Seq<char>, from: int, at: int)
    requires
        0 <= from <= at <= raw.len(),
        at < raw.len() ==> begins_field(raw, at),
        forall|j: int| from <= j < at ==> !#[trigger] begins_field(raw, j),
    ensures
        next_field(raw, from) == at,
    decreases raw.len() - from,
{
    if from < at {
        assert(!begins_field(raw, from));
        lemma_is_next_field(raw, from + 1, at);
    }
}

/// The field after one begins no earlier than that one's value does.
proof fn lemma_value_after_name(raw: Seq<char>, k: int, key: Seq<char>)
    requires
        is_key(key),
        names_field(raw, k, key),
    ensures
        k + key.len() + 2 <= next_field(raw, k + 1) <= raw.len(),
{
    lemma_next_field(raw, k + 1);
    lemma_field_shape(raw, k, key);
}

proof fn lemma_only_field(raw: Seq<char>, key: Seq<char>, k: int)
    requires
        is_only_field(raw, key, k),
    ensures
        only_field(raw, key) == Some(k),
{
    let found = choose|j: int| is_only_field(raw, key, j);
    assert(is_only_field(raw, key, found));
    assert(names_field(raw, found, key));
}

/// Whether the text holds `+key:` at `k`.
fn names(chars: &Vec<char>, k: usize, key: &Vec<char>) -> (named: bool)
    requires
        k < chars.len(),
        key@.len() < 0x1000,
    ensures
        named == names_field(chars@, k as int, key@),
{
    if chars[k] != '+' || key.len() + 2 > chars.len() - k {
        return false;
    }
    let mut i: usize = 0;
    while i < key.len()
        invariant
            0 <= i <= key@.len(),
            key@.len() < 0x1000,
            k + key@.len() + 2 <= chars.len(),
            forall|j: int| 0 <= j < i ==> chars@[k + 1 + j] == key@[j],
        decreases key@.len() - i,
    {
        if chars[k + 1 + i] != key[i] {
            assert(chars@.subrange(k + 1, k + 1 + key@.len())[i as int] != key@[i as int]);
            return false;
        }
        i = i + 1;
    }
    assert(chars@.subrange(k + 1, k + 1 + key@.len()) =~= key@);
    chars[k + 1 + key.len()] == ':'
}

/// Whether a text is one of the field names.
fn known_key(key: &str) -> (known: bool)
    ensures
        known == is_key(key@),
{
    same_text(key, "launchmode") || same_text(key, "gameinfo") || same_text(key, "placelauncherurl")
        || same_text(key, "launchtime") || same_text(key, "browsertrackerid") || same_text(
        key,
        "robloxLocale",
    ) || same_text(key, "gameLocale") || same_text(key, "channel") || same_text(key, "LaunchExp")
}

/// Whether a field of the protocol begins at `k`.
fn field_begins(chars: &Vec<char>, k: usize) -> (begins: bool)
    requires
        k < chars.len(),
    ensures
        begins == begins_field(chars@, k as int),
{
    if chars[k] != '+' {
        return false;
    }
    match find_from(chars, ':', k + 1) {
        None => {
            proof {
                if begins_field(chars@, k as int) {
                    let key = choose|key: Seq<char>|
                        is_key(key) && #[trigger] names_field(chars@, k as int, key);
                    lemma_field_shape(chars@, k as int, key);
                }
            }
            false
        },
        Some(colon) => {
            let key = text_between(chars, k + 1, colon);
            let known = known_key(key.as_str());
            proof {
                if known {
                    assert(names_field(chars@, k as int, key@));
                }
                if begins_field(chars@, k as int) {
                    let named = choose|named: Seq<char>|
                        is_key(named) && #[trigger] names_field(chars@, k as int, named);
                    lemma_field_shape(chars@, k as int, named);
                    assert(key@ == named);
                }
            }
            known
        },
    }
}

/// The first position at or after `from` where a field begins, or the end.
fn find_field(chars: &Vec<char>, from: usize) -> (at: usize)
    requires
        from <= chars@.len(),
    ensures
        at == next_field(chars@, from as int),
        from <= at <= chars@.len(),
{
    let mut at: usize = from;
    while at < chars.len()
        invariant
            from <= at <= chars@.len(),
            forall|j: int| from <= j < at ==> !#[trigger] begins_field(chars@, j),
        decreases chars@.len() - at,
    {
        if field_begins(chars, at) {
            proof {
                lemma_is_next_field(chars@, from as int, at as int);
            }
            return at;
        }
        at = at + 1;
    }
    proof {
        lemma_is_next_field(chars@, from as int, at as int);
    }
    at
}

/// Where the only field of that name begins.
fn find_only(chars: &Vec<char>, key: &str) -> (found: Option<usize>)
    requires
        key@.len() < 0x1000,
    ensures
        match found {
            Some(k) => only_field(chars@, key@) == Some(k as int) && is_only_field(
                chars@,
                key@,
                k as int,
            ) && k < chars@.len(),
            None => only_field(chars@, key@) is None,
        },
{
    let key_chars = chars_of(key);
    let mut found: Option<usize> = None;
    let mut i: usize = 0;
    while i < chars.len()
        invariant
            0 <= i <= chars@.len(),
            key_chars@ == key@,
            key@.len() < 0x1000,
            match found {
                Some(k) => k < i && names_field(chars@, k as int, key@) && forall|j: int|
                    j < i && #[trigger] names_field(chars@, j, key@) ==> j == k,
                None => forall|j: int| j < i ==> !#[trigger] names_field(chars@, j, key@),
            },
        decreases chars@.len() - i,
    {
        if names(chars, i, &key_chars) {
            if let Some(k) = found {
                proof {
                    assert forall|only: int| !is_only_field(chars@, key@, only) by {
                        assert(names_field(chars@, k as int, key@));
                        assert(names_field(chars@, i as int, key@));
                    }
                }
                return None;
            }
            found = Some(i);
        }
        i = i + 1;
    }
    proof {
        assert forall|j: int| #[trigger] names_field(chars@, j, key@) implies j < chars@.len() by {
        }
        if let Some(k) = found {
            assert(is_only_field(chars@, key@, k as int));
            lemma_only_field(chars@, key@, k as int);
        } else {
            assert forall|only: int| !is_only_field(chars@, key@, only) by {
            }
        }
    }
    found
}

/// Whether every percent sign is followed by two hexadecimal digits.
fn escapes_are_whole(chars: &Vec<char>, from: usize, to: usize) -> (whole: bool)
    requires
        from <= to <= chars@.len(),
    ensures
        whole == well_escaped(chars@.subrange(from as int, to as int)),
{
    let ghost s = chars@.subrange(from as int, to as int);
    let mut i: usize = from;
    while i < to
        invariant
            from <= i <= to <= chars@.len(),
            s == chars@.subrange(from as int, to as int),
            forall|j: int|
                0 <= j < i - from && #[trigger] s[j] == '%' ==> j + 2 < s.len() && is_hex(s[j + 1])
                    && is_hex(s[j + 2]),
        decreases to - i,
    {
        if chars[i] == '%' {
            assert(s[i - from] == '%');
            if to - i < 3 {
                return false;
            }
            assert(s[i - from + 1] == chars@[i + 1]);
            assert(s[i - from + 2] == chars@[i + 2]);
            if !hex_digit(chars[i + 1]) || !hex_digit(chars[i + 2]) {
                return false;
            }
        }
        i = i + 1;
    }
    true
}

fn hex_digit(c: char) -> (hex: bool)
    ensures
        hex == is_hex(c),
{
    ('0' <= c && c <= '9') || ('a' <= c && c <= 'f') || ('A' <= c && c <= 'F')
}

/// Where the slashes that stand from `from` on end.
fn skip_slashes(chars: &Vec<char>, from: usize) -> (at: usize)
    requires
        from <= chars@.len(),
    ensures
        from <= at <= chars@.len(),
        without_slashes(chars@.skip(from as int)) == chars@.skip(at as int),
{
    let mut at: usize = from;
    while at < chars.len() && chars[at] == '/'
        invariant
            from <= at <= chars@.len(),
            without_slashes(chars@.skip(from as int)) == without_slashes(chars@.skip(at as int)),
        decreases chars@.len() - at,
    {
        assert(chars@.skip(at as int).skip(1) =~= chars@.skip(at + 1));
        at = at + 1;
    }
    at
}

/// Whether `chars[from..]` begins with a version and a plus.
fn version_opens(chars: &Vec<char>, from: usize) -> (opens: bool)
    requires
        from <= chars@.len(),
    ensures
        opens == opens_with_version(chars@.skip(from as int)),
{
    let ghost payload = chars@.skip(from as int);
    proof {
        text::lemma_first_of_rest(chars@, '+', from as int);
    }
    match find_from(chars, '+', from) {
        None => false,
        Some(plus) => {
            if plus == from {
                return false;
            }
            let mut i: usize = from;
            while i < plus
                invariant
                    from <= i <= plus < chars@.len(),
                    payload == chars@.skip(from as int),
                    text::first(payload, '+') == Some(plus - from),
                    forall|j: int| 0 <= j < i - from ==> is_digit(#[trigger] payload[j]),
                decreases plus - i,
            {
                let c = chars[i];
                assert(payload[i - from] == c);
                if !('0' <= c && c <= '9') {
                    return false;
                }
                i = i + 1;
            }
            true
        },
    }
}

/// Whether a link is a desktop launch.
fn launches_player(raw: &str, chars: &Vec<char>) -> (launch: bool)
    requires
        chars@ == raw@,
    ensures
        launch == is_player_launch(raw@),
{
    if deep_link::accept(raw).is_err() {
        return false;
    }
    match find_from(chars, ':', 0) {
        None => false,
        Some(colon) => {
            assert(colon < chars.len());
            assert(chars@.subrange(0, colon as int) =~= raw@.take(colon as int));
            lowers_to(chars, 0, colon, deep_link::PLAYER_SCHEME) && version_opens(
                chars,
                skip_slashes(chars, colon + 1),
            )
        },
    }
}

/// The credential an encoded field stands for, where it stands for one.
fn decode_secret(chars: &Vec<char>, from: usize, to: usize) -> (secret: Option<String>)
    requires
        from <= to <= chars@.len(),
    ensures
        match secret {
            Some(text) => secret_of(chars@.subrange(from as int, to as int)) == Some(text@),
            None => secret_of(chars@.subrange(from as int, to as int)) is None,
        },
{
    if !escapes_are_whole(chars, from, to) {
        return None;
    }
    let encoded = text_between(chars, from, to);
    match percent_decode(encoded.as_str()) {
        None => None,
        Some(text) => {
            proof {
                encode_utf8_valid_utf8(text@);
                encode_utf8_decode_utf8(text@);
            }
            if text.as_str().is_empty() {
                return None;
            }
            proof {
                lemma_some_bytes(text@);
            }
            if is_all_graphic(&chars_of(text.as_str())) {
                Some(text)
            } else {
                None
            }
        },
    }
}

/// A text that is not empty has bytes.
proof fn lemma_some_bytes(s: Seq<char>)
    requires
        s.len() > 0,
    ensures
        encode_utf8(s).len() > 0,
{
    encode_utf8_decode_utf8(s);
}

impl LaunchTicket {
    /// Take the credential out of a link, where it holds exactly one.
    pub fn parse(raw: &str) -> (ticket: Option<LaunchTicket>)
        ensures
            match ticket {
                Some(ticket) => parsed(raw@) == Some((ticket.secret@, ticket.join_url@)),
                None => parsed(raw@) is None,
            },
    {
        let chars = chars_of(raw);
        if !launches_player(raw, &chars) {
            return None;
        }
        proof {
            reveal_strlit("gameinfo");
            reveal_strlit("launchmode");
        }
        let start = match find_only(&chars, "gameinfo") {
            Some(start) => start,
            None => return None,
        };
        let mode = match find_only(&chars, "launchmode") {
            Some(mode) => mode,
            None => return None,
        };
        proof {
            lemma_value_after_name(raw@, start as int, "gameinfo"@);
            lemma_value_after_name(raw@, mode as int, "launchmode"@);
        }
        let end = find_field(&chars, start + 1);
        let mode_end = find_field(&chars, mode + 1);
        if !same_text(text_between(&chars, mode + 12, mode_end).as_str(), "play") {
            return None;
        }
        match decode_secret(&chars, start + 10, end) {
            None => None,
            Some(secret) => {
                let mut join_url = text_between(&chars, 0, start);
                join_url.append(text_between(&chars, end, chars.len()).as_str());
                assert(join_url@ =~= without_field(raw@, start as int));
                Some(LaunchTicket { secret, join_url })
            },
        }
    }
}

/// The facts that a successful parse rests on.
proof fn lemma_parsed(raw: Seq<char>) -> (parts: (int, int, int))
    requires
        parsed(raw) is Some,
    ensures
        is_only_field(raw, "gameinfo"@, parts.0),
        only_field(raw, "gameinfo"@) == Some(parts.0),
        parts.1 == next_field(raw, parts.0 + 1),
        parts.0 + 10 <= parts.1 <= raw.len(),
        parts.1 < raw.len() ==> begins_field(raw, parts.1),
        is_only_field(raw, "launchmode"@, parts.2),
        is_player_launch(raw),
        (parsed(raw)->0).1 == without_field(raw, parts.0),
{
    reveal_strlit("gameinfo");
    let start = only_field(raw, "gameinfo"@)->0;
    let mode = only_field(raw, "launchmode"@)->0;
    assert(is_only_field(raw, "gameinfo"@, start));
    assert(is_only_field(raw, "launchmode"@, mode));
    lemma_value_after_name(raw, start, "gameinfo"@);
    lemma_next_field(raw, start + 1);
    (start, next_field(raw, start + 1), mode)
}

/// Where a position of the link without its field stood in the link.
spec fn before(start: int, end: int, j: int) -> int {
    if j < start {
        j
    } else {
        j + end - start
    }
}

/// Taking a field out neither makes nor breaks another.
proof fn lemma_fields_without(raw: Seq<char>, start: int, end: int, key: Seq<char>)
    requires
        is_key(key),
        0 <= start < end <= raw.len(),
        raw[start] == '+',
        end < raw.len() ==> begins_field(raw, end),
        forall|j: int| start < j < end ==> !#[trigger] begins_field(raw, j),
    ensures
        forall|j: int|
            0 <= j ==> #[trigger] names_field(raw.take(start) + raw.skip(end), j, key)
                == names_field(raw, before(start, end, j), key),
{
    let join = raw.take(start) + raw.skip(end);
    if end < raw.len() {
        let other = choose|other: Seq<char>|
            is_key(other) && #[trigger] names_field(raw, end, other);
        assert(raw[end] == '+');
        assert(join[start] == raw[end]);
    }
    assert forall|j: int| 0 <= j implies #[trigger] names_field(join, j, key) == names_field(
        raw,
        before(start, end, j),
        key,
    ) by {
        let at = before(start, end, j);
        if names_field(join, j, key) {
            lemma_field_shape(join, j, key);
            if j < start {
                if j + key.len() + 2 > start {
                    assert(join[start] == '+');
                }
                assert(raw.subrange(j + 1, j + 1 + key.len()) =~= join.subrange(
                    j + 1,
                    j + 1 + key.len(),
                ));
            } else {
                assert(raw.subrange(at + 1, at + 1 + key.len()) =~= join.subrange(
                    j + 1,
                    j + 1 + key.len(),
                ));
            }
            assert(names_field(raw, at, key));
        }
        if names_field(raw, at, key) {
            lemma_field_shape(raw, at, key);
            assert(j < start ==> j + key.len() + 2 <= start);
            assert(join.subrange(j + 1, j + 1 + key.len()) =~= raw.subrange(
                at + 1,
                at + 1 + key.len(),
            ));
            assert(names_field(join, j, key));
        }
    }
}

/// Taking a field out keeps where the others begin.
proof fn lemma_begins_without(raw: Seq<char>, start: int, end: int, j: int)
    requires
        0 <= j,
        0 <= start < end <= raw.len(),
        raw[start] == '+',
        end < raw.len() ==> begins_field(raw, end),
        forall|k: int| start < k < end ==> !#[trigger] begins_field(raw, k),
    ensures
        begins_field(raw.take(start) + raw.skip(end), j) == begins_field(raw, before(start, end, j)),
{
    let join = raw.take(start) + raw.skip(end);
    let at = before(start, end, j);
    if begins_field(join, j) {
        let key = choose|key: Seq<char>| is_key(key) && #[trigger] names_field(join, j, key);
        lemma_fields_without(raw, start, end, key);
        assert(names_field(raw, at, key));
    }
    if begins_field(raw, at) {
        let key = choose|key: Seq<char>| is_key(key) && #[trigger] names_field(raw, at, key);
        lemma_fields_without(raw, start, end, key);
        assert(names_field(join, j, key));
    }
}

/// The join that is left holds no credential, so nothing can be taken out of it
/// a second time.
pub proof fn law_the_join_holds_no_ticket(raw: Seq<char>)
    requires
        parsed(raw) is Some,
    ensures
        forall|k: int| !#[trigger] names_field((parsed(raw)->0).1, k, "gameinfo"@),
        parsed((parsed(raw)->0).1) is None,
{
    let (start, end, mode) = lemma_parsed(raw);
    let join = (parsed(raw)->0).1;
    lemma_next_field(raw, start + 1);
    lemma_fields_without(raw, start, end, "gameinfo"@);
    assert forall|k: int| !#[trigger] names_field(join, k, "gameinfo"@) by {
        if names_field(join, k, "gameinfo"@) {
            assert(names_field(raw, before(start, end, k), "gameinfo"@));
        }
    }
    assert forall|k: int| !is_only_field(join, "gameinfo"@, k) by {
    }
}

/// Every field but the credential is still in the join, with the value it had.
pub proof fn law_the_join_keeps_every_other_field(raw: Seq<char>, k: int, key: Seq<char>)
    requires
        parsed(raw) is Some,
        is_key(key),
        key != "gameinfo"@,
        names_field(raw, k, key),
    ensures
        ({
            let join = (parsed(raw)->0).1;
            exists|j: int|
                #[trigger] names_field(join, j, key) && field_value(join, j, key) == field_value(
                    raw,
                    k,
                    key,
                )
        }),
{
    let (start, end, mode) = lemma_parsed(raw);
    let join = (parsed(raw)->0).1;
    lemma_next_field(raw, start + 1);
    if k == start {
        lemma_one_key(raw, k, key, "gameinfo"@);
    }
    assert(begins_field(raw, k));
    let j = if k < start {
        k
    } else {
        k - (end - start)
    };
    lemma_fields_without(raw, start, end, key);
    assert(before(start, end, j) == k);
    assert(names_field(join, j, key));

    let next = next_field(raw, k + 1);
    lemma_next_field(raw, k + 1);
    lemma_value_after_name(raw, k, key);
    assert(begins_field(raw, start));
    let after = if k < start {
        next
    } else {
        next - (end - start)
    };
    assert forall|i: int| j + 1 <= i < after implies !#[trigger] begins_field(join, i) by {
        lemma_begins_without(raw, start, end, i);
    }
    if after < join.len() {
        lemma_begins_without(raw, start, end, after);
    }
    lemma_is_next_field(join, j + 1, after);
    assert(field_value(join, j, key) =~= field_value(raw, k, key));
}

/// How many slashes `without_slashes` drops.
proof fn lemma_without_slashes(s: Seq<char>) -> (n: int)
    ensures
        0 <= n <= s.len(),
        without_slashes(s) == s.skip(n),
        forall|i: int| 0 <= i < n ==> #[trigger] s[i] == '/',
        n < s.len() ==> s[n] != '/',
    decreases s.len(),
{
    if s.len() > 0 && s[0] == '/' {
        let n = lemma_without_slashes(s.skip(1));
        assert(s.skip(1).skip(n) =~= s.skip(n + 1));
        assert forall|i: int| 0 <= i < n + 1 implies #[trigger] s[i] == '/' by {
            if i > 0 {
                assert(s.skip(1)[i - 1] == '/');
            }
        }
        n + 1
    } else {
        assert(s.skip(0) =~= s);
        0
    }
}

proof fn lemma_is_without_slashes(s: Seq<char>, n: int)
    requires
        0 <= n <= s.len(),
        forall|i: int| 0 <= i < n ==> #[trigger] s[i] == '/',
        n < s.len() ==> s[n] != '/',
    ensures
        without_slashes(s) == s.skip(n),
{
    let m = lemma_without_slashes(s);
    if m < n {
        assert(s[m] == '/');
    }
    if n < m {
        assert(s[n] == '/');
    }
}

/// The player scheme holds no plus.
proof fn lemma_player_scheme_is_plain(scheme: Seq<char>, j: int)
    requires
        text::ascii_lowered(scheme) == deep_link::PLAYER_SCHEME@,
        0 <= j < scheme.len(),
    ensures
        scheme[j] != '+',
{
    reveal_strlit("roblox-player");
    assert(text::ascii_lowered(scheme)[j] == text::ascii_lower(scheme[j]));
    let player = "roblox-player"@;
    assert(forall|i: int| 0 <= i < player.len() ==> #[trigger] player[i] != '+');
    assert(deep_link::PLAYER_SCHEME@ == player);
}

/// The join that is left is itself a link that would be taken, of the same
/// scheme and version, and is shown as the link was.
pub proof fn law_the_join_is_still_a_launch(raw: Seq<char>)
    requires
        parsed(raw) is Some,
    ensures
        is_player_launch((parsed(raw)->0).1),
        deep_link::summary_of((parsed(raw)->0).1) == deep_link::summary_of(raw),
{
    let (start, end, mode) = lemma_parsed(raw);
    let join = (parsed(raw)->0).1;
    text::lemma_first_from_found(raw, ':', 0);
    let colon = text::first(raw, ':')->0;
    let scheme = raw.take(colon);
    // The credential stands after the scheme, whose letters hold no plus.
    assert(colon < start) by {
        if start < colon {
            lemma_player_scheme_is_plain(scheme, start);
            assert(scheme[start] == raw[start]);
        }
    }
    assert(text::is_first_from(join, ':', 0, colon));
    text::lemma_first_from(join, ':', 0, colon);
    assert(join.take(colon) =~= scheme);
    assert(text::all_graphic(join)) by {
        assert forall|i: int| 0 <= i < join.len() implies text::is_graphic(#[trigger] join[i]) by {
            assert(join[i] == raw[before(start, end, i)]);
        }
    }
    text::lemma_graphic_bytes(raw);
    text::lemma_graphic_bytes(join);
    assert(deep_link::judged(join) is Ok);

    let payload = raw.skip(colon + 1);
    let left = join.skip(colon + 1);
    let n = lemma_without_slashes(payload);
    let version = payload.skip(n);
    text::lemma_first_from_found(version, '+', 0);
    let plus = text::first(version, '+')->0;
    let at = colon + 1 + n + plus;
    assert(version[plus] == raw[at]);
    assert(at <= start) by {
        if start < at {
            if start < colon + 1 + n {
                assert(payload[start - colon - 1] == '/');
            } else {
                assert(version[start - colon - 1 - n] == raw[start]);
            }
        }
    }
    // Where the credential is the first field, the launch mode stands after it.
    assert(at < join.len() && join[at] == '+') by {
        if at == start {
            if mode < at {
                if mode < colon + 1 {
                    if mode < colon {
                        lemma_player_scheme_is_plain(scheme, mode);
                        assert(scheme[mode] == raw[mode]);
                    }
                } else if mode < colon + 1 + n {
                    assert(payload[mode - colon - 1] == '/');
                } else {
                    assert(version[mode - colon - 1 - n] == raw[mode]);
                }
            }
            reveal_strlit("gameinfo");
            reveal_strlit("launchmode");
            if mode == start {
                lemma_one_key(raw, mode, "launchmode"@, "gameinfo"@);
            }
            assert(begins_field(raw, mode));
            lemma_next_field(raw, start + 1);
            assert(end <= mode);
            let key = choose|key: Seq<char>|
                is_key(key) && #[trigger] names_field(raw, end, key);
            assert(join[start] == raw[end]);
        }
    }
    assert forall|i: int| 0 <= i < n implies #[trigger] left[i] == '/' by {
        assert(left[i] == payload[i]);
    }
    assert(left[n] == join[colon + 1 + n]);
    if plus > 0 {
        assert(version[0] == payload[n]);
    }
    lemma_is_without_slashes(left, n);
    let kept = left.skip(n);
    assert forall|i: int| 0 <= i < plus implies #[trigger] kept[i] == version[i] by {
        assert(kept[i] == join[colon + 1 + n + i]);
    }
    assert(text::is_first_from(kept, '+', 0, plus));
    text::lemma_first_from(kept, '+', 0, plus);
}

} // verus!
