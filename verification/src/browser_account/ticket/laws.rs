//! What taking a credential out of a link comes to, said of links as they are
//! written.

use vstd::prelude::*;
use vstd::string::*;
use vstd::utf8::*;

use crate::deep_link;
use crate::text;

verus! {

broadcast use vstd::string::group_string_axioms;

/// A field as it is written: a plus, its name and a colon.
spec fn field(key: Seq<char>) -> Seq<char> {
    "+"@ + key + ":"@
}

proof fn lemma_field(key: Seq<char>)
    ensures
        field(key) == seq!['+'] + key + seq![':'],
        field(key).len() == key.len() + 2,
{
    reveal_strlit("+");
    reveal_strlit(":");
    assert("+"@ =~= seq!['+']);
    assert(":"@ =~= seq![':']);
}

/// A field is named where it is written.
proof fn lemma_named_where_written(raw: Seq<char>, k: int, key: Seq<char>)
    ensures
        super::names_field(raw, k, key) <==> text::holds_at(raw, field(key), k),
{
    lemma_field(key);
    let n = key.len() as int;
    if super::names_field(raw, k, key) {
        let part = raw.subrange(k, k + n + 2);
        assert forall|i: int| 0 <= i < part.len() implies part[i] == field(key)[i] by {
            if 0 < i < n + 1 {
                assert(raw.subrange(k + 1, k + 1 + n)[i - 1] == part[i]);
            }
        }
        assert(part =~= field(key));
    }
    if text::holds_at(raw, field(key), k) {
        let part = raw.subrange(k, k + n + 2);
        assert(part[0] == raw[k]);
        assert(part[n + 1] == raw[k + n + 1]);
        assert forall|i: int| 0 <= i < n implies raw.subrange(k + 1, k + 1 + n)[i] == key[i] by {
            assert(part[i + 1] == field(key)[i + 1]);
        }
        assert(raw.subrange(k + 1, k + 1 + n) =~= key);
    }
}

/// A name without pluses and colons.
spec fn is_plain(key: Seq<char>) -> bool {
    forall|i: int| 0 <= i < key.len() ==> #[trigger] key[i] != '+' && key[i] != ':'
}

/// Between a field's plus and its colon there is neither.
proof fn lemma_plain_shape(raw: Seq<char>, k: int, key: Seq<char>)
    requires
        is_plain(key),
        super::names_field(raw, k, key),
    ensures
        forall|j: int| k < j < k + key.len() + 1 ==> #[trigger] raw[j] != '+' && raw[j] != ':',
        raw[k + key.len() + 1] == ':',
{
    assert forall|j: int| k < j < k + key.len() + 1 implies #[trigger] raw[j] != '+' && raw[j]
        != ':' by {
        assert(raw.subrange(k + 1, k + 1 + key.len())[j - k - 1] == key[j - k - 1]);
    }
}

/// The fields of a text that is put together where a field may begin are those
/// of its two parts.
#[verifier::rlimit(40)]
proof fn lemma_fields_of_parts(a: Seq<char>, b: Seq<char>, j: int, key: Seq<char>)
    requires
        is_plain(key),
        b.len() > 0 ==> b[0] == '+',
    ensures
        super::names_field(a + b, j, key) <==> (if j < a.len() {
            super::names_field(a, j, key)
        } else {
            super::names_field(b, j - a.len(), key)
        }),
{
    let raw = a + b;
    let n = key.len() as int;
    if super::names_field(raw, j, key) {
        lemma_plain_shape(raw, j, key);
        if j < a.len() {
            if j + n + 2 > a.len() {
                assert(raw[a.len() as int] == '+');
            }
            assert(a.subrange(j + 1, j + 1 + n) =~= raw.subrange(j + 1, j + 1 + n));
        } else {
            assert(b.subrange(j - a.len() + 1, j - a.len() + 1 + n) =~= raw.subrange(
                j + 1,
                j + 1 + n,
            ));
        }
    }
    if j < a.len() && super::names_field(a, j, key) {
        assert(a.subrange(j + 1, j + 1 + n) =~= raw.subrange(j + 1, j + 1 + n));
    }
    if j >= a.len() && super::names_field(b, j - a.len(), key) {
        assert(b.subrange(j - a.len() + 1, j - a.len() + 1 + n) =~= raw.subrange(j + 1, j + 1 + n));
    }
}

/// A field that begins where another name is written has that name.
proof fn lemma_same_name(name: Seq<char>, value: Seq<char>, key: Seq<char>)
    requires
        is_plain(name),
        is_plain(key),
        super::names_field(field(name) + value, 0, key),
    ensures
        key == name,
{
    lemma_field(name);
    let raw = field(name) + value;
    assert(raw.subrange(1, 1 + name.len() as int) =~= name);
    assert(super::names_field(raw, 0, name));
    lemma_plain_shape(raw, 0, name);
    lemma_plain_shape(raw, 0, key);
    assert(key.len() == name.len()) by {
        if key.len() < name.len() {
            assert(raw[key.len() as int + 1] == ':');
        }
        if name.len() < key.len() {
            assert(raw[name.len() as int + 1] == ':');
        }
    }
}

/// The fields of one field as it is written and its value: itself, and those in
/// its value.
#[verifier::rlimit(40)]
proof fn lemma_fields_of_one(name: Seq<char>, value: Seq<char>, j: int, key: Seq<char>)
    requires
        is_plain(name),
        is_plain(key),
    ensures
        super::names_field(field(name) + value, j, key) <==> {
            ||| j == 0 && key == name
            ||| j >= name.len() + 2 && super::names_field(value, j - name.len() - 2, key)
        },
{
    lemma_field(name);
    let raw = field(name) + value;
    let n = name.len() as int;
    let at = j - n - 2;
    let m = key.len() as int;
    assert(raw.subrange(1, 1 + n) =~= name);
    assert(super::names_field(raw, 0, name));
    if super::names_field(raw, j, key) {
        if j == 0 {
            lemma_same_name(name, value, key);
        } else if j <= n {
            assert(raw[j] == name[j - 1]);
        } else if j == n + 1 {
            assert(raw[j] == ':');
        } else {
            assert(value.subrange(at + 1, at + 1 + m) =~= raw.subrange(j + 1, j + 1 + m));
            assert(value[at] == raw[j]);
            assert(value[at + 1 + m] == raw[j + 1 + m]);
        }
    }
    if j >= n + 2 && super::names_field(value, at, key) {
        assert(value.subrange(at + 1, at + 1 + m) =~= raw.subrange(j + 1, j + 1 + m));
        assert(value[at] == raw[j]);
        assert(value[at + 1 + m] == raw[j + 1 + m]);
    }
}

/// No field of the protocol is written in a text.
spec fn is_bare(s: Seq<char>) -> bool {
    forall|key: Seq<char>, j: int| super::is_key(key) ==> !#[trigger] super::names_field(s, j, key)
}

proof fn lemma_bare(s: Seq<char>)
    requires
        !text::holds_text(s, "+launchmode:"@),
        !text::holds_text(s, "+gameinfo:"@),
        !text::holds_text(s, "+placelauncherurl:"@),
        !text::holds_text(s, "+launchtime:"@),
        !text::holds_text(s, "+browsertrackerid:"@),
        !text::holds_text(s, "+robloxLocale:"@),
        !text::holds_text(s, "+gameLocale:"@),
        !text::holds_text(s, "+channel:"@),
        !text::holds_text(s, "+LaunchExp:"@),
    ensures
        is_bare(s),
{
    lemma_written();
    assert forall|key: Seq<char>, j: int| super::is_key(key) implies !#[trigger] super::names_field(
        s,
        j,
        key,
    ) by {
        lemma_named_where_written(s, j, key);
        if super::names_field(s, j, key) {
            assert(text::holds_text(s, field(key)));
        }
    }
}

/// The fields as they are written.
proof fn lemma_written()
    ensures
        field("launchmode"@) == "+launchmode:"@,
        field("gameinfo"@) == "+gameinfo:"@,
        field("placelauncherurl"@) == "+placelauncherurl:"@,
        field("launchtime"@) == "+launchtime:"@,
        field("browsertrackerid"@) == "+browsertrackerid:"@,
        field("robloxLocale"@) == "+robloxLocale:"@,
        field("gameLocale"@) == "+gameLocale:"@,
        field("channel"@) == "+channel:"@,
        field("LaunchExp"@) == "+LaunchExp:"@,
        "gameinfo"@.len() == 8,
        "launchmode"@.len() == 10,
{
    reveal_strlit("+");
    reveal_strlit(":");
    reveal_strlit("launchmode");
    reveal_strlit("gameinfo");
    reveal_strlit("placelauncherurl");
    reveal_strlit("launchtime");
    reveal_strlit("browsertrackerid");
    reveal_strlit("robloxLocale");
    reveal_strlit("gameLocale");
    reveal_strlit("channel");
    reveal_strlit("LaunchExp");
    reveal_strlit("+launchmode:");
    reveal_strlit("+gameinfo:");
    reveal_strlit("+placelauncherurl:");
    reveal_strlit("+launchtime:");
    reveal_strlit("+browsertrackerid:");
    reveal_strlit("+robloxLocale:");
    reveal_strlit("+gameLocale:");
    reveal_strlit("+channel:");
    reveal_strlit("+LaunchExp:");
    assert(field("launchmode"@) =~= "+launchmode:"@);
    assert(field("gameinfo"@) =~= "+gameinfo:"@);
    assert(field("placelauncherurl"@) =~= "+placelauncherurl:"@);
    assert(field("launchtime"@) =~= "+launchtime:"@);
    assert(field("browsertrackerid"@) =~= "+browsertrackerid:"@);
    assert(field("robloxLocale"@) =~= "+robloxLocale:"@);
    assert(field("gameLocale"@) =~= "+gameLocale:"@);
    assert(field("channel"@) =~= "+channel:"@);
    assert(field("LaunchExp"@) =~= "+LaunchExp:"@);
}

/// Bytes without a percent sign stand for themselves.
proof fn lemma_nothing_escaped(bytes: Seq<u8>)
    requires
        !bytes.contains(0x25u8),
    ensures
        super::percent_decoded(bytes) == bytes,
    decreases bytes.len(),
{
    if bytes.len() > 0 {
        assert(bytes.contains(bytes[0]));
        assert(!bytes.skip(1).contains(0x25u8)) by {
            if bytes.skip(1).contains(0x25u8) {
                let i = choose|i: int| 0 <= i < bytes.skip(1).len() && bytes.skip(1)[i] == 0x25u8;
                assert(bytes[i + 1] == 0x25u8);
            }
        }
        lemma_nothing_escaped(bytes.skip(1));
        assert(super::percent_decoded(bytes) =~= bytes);
    }
}

/// A plain value stands for itself.
proof fn lemma_plain_secret(t: Seq<char>)
    requires
        t.len() > 0,
        forall|i: int| 0 <= i < t.len() ==> 0x21 <= (#[trigger] t[i]) as int <= 0x7e && t[i] != '%',
    ensures
        super::secret_of(t) == Some(t),
{
    text::law_graphic_is_a_range_of_codes(t);
    text::lemma_graphic_bytes(t);
    is_ascii_chars_encode_utf8(t);
    let bytes = encode_utf8(t);
    assert(!bytes.contains(0x25u8)) by {
        if bytes.contains(0x25u8) {
            let i = choose|i: int| 0 <= i < bytes.len() && bytes[i] == 0x25u8;
            assert(t[i] as u8 == bytes[i]);
            assert(t[i] as int == 0x25);
        }
    }
    lemma_nothing_escaped(bytes);
    encode_utf8_valid_utf8(t);
    encode_utf8_decode_utf8(t);
}

/// Where the credential's field stands between two parts, its value is what is
/// between its name and the second part.
proof fn lemma_taken_out(p: Seq<char>, t: Seq<char>, tail: Seq<char>)
    requires
        is_bare(t),
        tail.len() > 0 ==> tail[0] == '+' && super::begins_field(tail, 0),
    ensures
        ({
            let raw = p + field("gameinfo"@) + t + tail;
            &&& super::names_field(raw, p.len() as int, "gameinfo"@)
            &&& super::next_field(raw, p.len() as int + 1) == raw.len() - tail.len()
            &&& super::field_value(raw, p.len() as int, "gameinfo"@) == t
            &&& super::without_field(raw, p.len() as int) == p + tail
        }),
{
    lemma_at_field(p, "gameinfo"@, t, tail);
    lemma_field("gameinfo"@);
    let raw = p + field("gameinfo"@) + t + tail;
    assert(super::without_field(raw, p.len() as int) =~= p + tail);
}

/// Where a field stands between two parts, its value is what is between its name
/// and the second part.
#[verifier::rlimit(40)]
proof fn lemma_at_field(p: Seq<char>, name: Seq<char>, t: Seq<char>, tail: Seq<char>)
    requires
        super::is_key(name),
        is_bare(t),
        tail.len() > 0 ==> tail[0] == '+' && super::begins_field(tail, 0),
    ensures
        ({
            let raw = p + field(name) + t + tail;
            &&& super::names_field(raw, p.len() as int, name)
            &&& super::next_field(raw, p.len() as int + 1) == raw.len() - tail.len()
            &&& super::field_value(raw, p.len() as int, name) == t
        }),
{
    lemma_field(name);
    super::lemma_key_is_plain(name);
    let one = field(name) + t;
    let raw = p + field(name) + t + tail;
    let start = p.len() as int;
    let end = raw.len() - tail.len();
    assert(raw =~= p + (one + tail));
    assert((one + tail)[0] == '+');
    lemma_fields_of_parts(p, one + tail, start, name);
    lemma_fields_of_parts(one, tail, 0, name);
    lemma_fields_of_one(name, t, 0, name);
    assert(super::names_field(raw, start, name));
    assert forall|j: int| start + 1 <= j < end implies !#[trigger] super::begins_field(raw, j) by {
        if super::begins_field(raw, j) {
            let key = choose|key: Seq<char>|
                super::is_key(key) && #[trigger] super::names_field(raw, j, key);
            super::lemma_key_is_plain(key);
            lemma_fields_of_parts(p, one + tail, j, key);
            lemma_fields_of_parts(one, tail, j - start, key);
            lemma_fields_of_one(name, t, j - start, key);
        }
    }
    if tail.len() > 0 {
        let key = choose|key: Seq<char>|
            super::is_key(key) && #[trigger] super::names_field(tail, 0, key);
        super::lemma_key_is_plain(key);
        lemma_fields_of_parts(one, tail, one.len() as int, key);
        lemma_fields_of_parts(p, one + tail, end, key);
        assert(super::names_field(raw, end, key));
        assert(super::begins_field(raw, end));
    }
    super::lemma_is_next_field(raw, start + 1, end);
    assert(super::field_value(raw, start, name) =~= t);
}

#[verifier::rlimit(40)]
proof fn lemma_credential(p: Seq<char>, t: Seq<char>, tail: Seq<char>)
    requires
        is_bare(t),
        super::secret_of(t) == Some(t),
        tail.len() > 0 ==> tail[0] == '+' && super::begins_field(tail, 0),
        super::parsed(p + field("gameinfo"@) + t + tail) is Some,
    ensures
        super::parsed(p + field("gameinfo"@) + t + tail) == Some((t, p + tail)),
{
    let raw = p + field("gameinfo"@) + t + tail;
    lemma_taken_out(p, t, tail);
    let (start, end, mode) = super::lemma_parsed(raw);
    assert(start == p.len());
}

proof fn lemma_begins(name: Seq<char>, r: Seq<char>)
    requires
        super::is_key(name),
    ensures
        super::begins_field(field(name) + r, 0),
        (field(name) + r)[0] == '+',
{
    lemma_field(name);
    super::lemma_key_is_plain(name);
    lemma_fields_of_one(name, r, 0, name);
    assert(super::names_field(field(name) + r, 0, name));
}

/// A credential without escapes is what stands between its field's name and the
/// next field of the protocol, whatever pluses and colons it holds, and the join
/// is the link with just that taken out.
#[verifier::rlimit(40)]
pub proof fn law_the_credential_ends_at_the_next_field(
    p: Seq<char>,
    t: Seq<char>,
    name: Seq<char>,
    r: Seq<char>,
)
    requires
        name == "launchmode"@ || name == "gameinfo"@ || name == "placelauncherurl"@ || name
            == "launchtime"@ || name == "browsertrackerid"@ || name == "robloxLocale"@ || name
            == "gameLocale"@ || name == "channel"@ || name == "LaunchExp"@,
        t.len() > 0,
        forall|i: int| 0 <= i < t.len() ==> 0x21 <= (#[trigger] t[i]) as int <= 0x7e && t[i] != '%',
        !text::holds_text(t, "+launchmode:"@),
        !text::holds_text(t, "+gameinfo:"@),
        !text::holds_text(t, "+placelauncherurl:"@),
        !text::holds_text(t, "+launchtime:"@),
        !text::holds_text(t, "+browsertrackerid:"@),
        !text::holds_text(t, "+robloxLocale:"@),
        !text::holds_text(t, "+gameLocale:"@),
        !text::holds_text(t, "+channel:"@),
        !text::holds_text(t, "+LaunchExp:"@),
        super::parsed(p + "+gameinfo:"@ + t + "+"@ + name + ":"@ + r) is Some,
    ensures
        super::parsed(p + "+gameinfo:"@ + t + "+"@ + name + ":"@ + r) == Some(
            (t, p + "+"@ + name + ":"@ + r),
        ),
{
    assert(is_bare(t)) by {
        lemma_bare(t);
    }
    assert(super::secret_of(t) == Some(t)) by {
        lemma_plain_secret(t);
    }
    lemma_credential_before(p, t, name, r);
}

#[verifier::rlimit(40)]
proof fn lemma_credential_before(p: Seq<char>, t: Seq<char>, name: Seq<char>, r: Seq<char>)
    requires
        super::is_key(name),
        is_bare(t),
        super::secret_of(t) == Some(t),
        super::parsed(p + "+gameinfo:"@ + t + "+"@ + name + ":"@ + r) is Some,
    ensures
        super::parsed(p + "+gameinfo:"@ + t + "+"@ + name + ":"@ + r) == Some(
            (t, p + "+"@ + name + ":"@ + r),
        ),
{
    assert(field("gameinfo"@) == "+gameinfo:"@) by {
        lemma_written();
    }
    lemma_begins(name, r);
    lemma_put_in(p, "+gameinfo:"@, t, "+"@, name, ":"@, r);
    lemma_credential(p, t, field(name) + r);
}

proof fn lemma_put_in(
    p: Seq<char>,
    g: Seq<char>,
    t: Seq<char>,
    a: Seq<char>,
    n: Seq<char>,
    c: Seq<char>,
    r: Seq<char>,
)
    ensures
        p + g + t + a + n + c + r == p + g + t + (a + n + c + r),
        p + a + n + c + r == p + (a + n + c + r),
{
    assert(p + g + t + a + n + c + r =~= p + g + t + (a + n + c + r));
    assert(p + a + n + c + r =~= p + (a + n + c + r));
}

/// A credential without escapes that no field follows is the rest of the link.
#[verifier::rlimit(40)]
pub proof fn law_the_last_credential_ends_with_the_link(p: Seq<char>, t: Seq<char>)
    requires
        t.len() > 0,
        forall|i: int| 0 <= i < t.len() ==> 0x21 <= (#[trigger] t[i]) as int <= 0x7e && t[i] != '%',
        !text::holds_text(t, "+launchmode:"@),
        !text::holds_text(t, "+gameinfo:"@),
        !text::holds_text(t, "+placelauncherurl:"@),
        !text::holds_text(t, "+launchtime:"@),
        !text::holds_text(t, "+browsertrackerid:"@),
        !text::holds_text(t, "+robloxLocale:"@),
        !text::holds_text(t, "+gameLocale:"@),
        !text::holds_text(t, "+channel:"@),
        !text::holds_text(t, "+LaunchExp:"@),
        super::parsed(p + "+gameinfo:"@ + t) is Some,
    ensures
        super::parsed(p + "+gameinfo:"@ + t) == Some((t, p)),
{
    let raw = p + "+gameinfo:"@ + t;
    let tail = Seq::<char>::empty();
    lemma_written();
    lemma_bare(t);
    lemma_plain_secret(t);
    assert(raw =~= p + field("gameinfo"@) + t + tail);
    assert(p + tail =~= p);
    lemma_credential(p, t, tail);
}

proof fn lemma_no_plus(h: Seq<char>, j: int, key: Seq<char>)
    requires
        !h.contains('+'),
    ensures
        !super::names_field(h, j, key),
{
    if super::names_field(h, j, key) {
        assert(h[j] == '+');
        assert(h.contains(h[j]));
    }
}

/// The head of a desktop launch: the scheme, slashes or none, and the version.
#[verifier::rlimit(40)]
proof fn lemma_launch_head(
    scheme: Seq<char>,
    slashes: Seq<char>,
    version: Seq<char>,
    rest: Seq<char>,
)
    requires
        text::ascii_lowered(scheme) == "roblox-player"@,
        forall|i: int| 0 <= i < slashes.len() ==> #[trigger] slashes[i] == '/',
        version.len() > 0,
        forall|i: int| 0 <= i < version.len() ==> 0x30 <= (#[trigger] version[i]) as int <= 0x39,
        (scheme + ":"@ + slashes + version + "+"@ + rest).len() <= 2048,
        forall|i: int|
            0 <= i < (scheme + ":"@ + slashes + version + "+"@ + rest).len() ==> 0x21 <= (
            #[trigger] (scheme + ":"@ + slashes + version + "+"@ + rest)[i]) as int <= 0x7e,
    ensures
        super::is_player_launch(scheme + ":"@ + slashes + version + "+"@ + rest),
        !(scheme + ":"@ + slashes + version).contains('+'),
{
    reveal_strlit(":");
    reveal_strlit("+");
    reveal_strlit("roblox-player");
    let raw = scheme + ":"@ + slashes + version + "+"@ + rest;
    let colon = scheme.len() as int;
    assert(!scheme.contains(':')) by {
        if scheme.contains(':') {
            let i = choose|i: int| 0 <= i < scheme.len() && scheme[i] == ':';
            assert(text::ascii_lowered(scheme)[i] == ':');
            let player = "roblox-player"@;
            assert(forall|k: int| 0 <= k < player.len() ==> #[trigger] player[k] != ':');
        }
    }
    assert forall|j: int| 0 <= j < colon implies raw[j] != ':' by {
        assert(raw[j] == scheme[j]);
        assert(scheme.contains(scheme[j]));
    }
    assert(raw[colon] == ':');
    assert(text::is_first_from(raw, ':', 0, colon));
    text::lemma_first_from(raw, ':', 0, colon);
    assert(raw.take(colon) =~= scheme);
    text::law_graphic_is_a_range_of_codes(raw);
    text::lemma_graphic_bytes(raw);
    assert(deep_link::judged(raw) is Ok);
    let payload = raw.skip(colon + 1);
    let n = slashes.len() as int;
    assert forall|i: int| 0 <= i < n implies #[trigger] payload[i] == '/' by {
        assert(payload[i] == slashes[i]);
    }
    assert(payload[n] == version[0]);
    super::lemma_is_without_slashes(payload, n);
    let left = payload.skip(n);
    assert forall|i: int| 0 <= i < version.len() implies #[trigger] left[i] == version[i] by {
    }
    assert(left[version.len() as int] == '+');
    assert(text::is_first_from(left, '+', 0, version.len() as int));
    text::lemma_first_from(left, '+', 0, version.len() as int);
    let head = scheme + ":"@ + slashes + version;
    if head.contains('+') {
        let i = choose|i: int| 0 <= i < head.len() && head[i] == '+';
        if i < colon {
            super::lemma_player_scheme_is_plain(scheme, i);
        } else if i == colon {
        } else if i <= colon + n {
            assert(head[i] == slashes[i - colon - 1]);
        } else {
            assert(head[i] == version[i - colon - 1 - n]);
        }
    }
}

/// Two different fields, put together with what is before, between and after
/// them where that holds neither, are found where they were put.
#[verifier::rlimit(60)]
proof fn lemma_two_fields(
    pre: Seq<char>,
    one: Seq<char>,
    first: Seq<char>,
    mid: Seq<char>,
    two: Seq<char>,
    second: Seq<char>,
    tail: Seq<char>,
)
    requires
        super::is_key(one),
        super::is_key(two),
        one != two,
        is_bare(first),
        is_bare(second),
        mid.len() > 0 ==> mid[0] == '+' && super::begins_field(mid, 0),
        tail.len() > 0 ==> tail[0] == '+' && super::begins_field(tail, 0),
        forall|j: int| !#[trigger] super::names_field(pre, j, one),
        forall|j: int| !#[trigger] super::names_field(pre, j, two),
        forall|j: int| !#[trigger] super::names_field(mid, j, one),
        forall|j: int| !#[trigger] super::names_field(mid, j, two),
        forall|j: int| !#[trigger] super::names_field(tail, j, one),
        forall|j: int| !#[trigger] super::names_field(tail, j, two),
    ensures
        ({
            let before = field(one) + first;
            let after = field(two) + second;
            let raw = pre + before + mid + after + tail;
            let at = pre.len() + before.len() + mid.len();
            &&& super::is_only_field(raw, one, pre.len() as int)
            &&& super::is_only_field(raw, two, at as int)
            &&& super::field_value(raw, pre.len() as int, one) == first
            &&& super::field_value(raw, at as int, two) == second
            &&& super::without_field(raw, pre.len() as int) == pre + mid + after + tail
            &&& super::without_field(raw, at as int) == pre + before + mid + tail
        }),
{
    lemma_field(one);
    lemma_field(two);
    super::lemma_key_is_plain(one);
    super::lemma_key_is_plain(two);
    let before = field(one) + first;
    let after = field(two) + second;
    let end = after + tail;
    let rest = mid + end;
    let raw = pre + before + mid + after + tail;
    assert(raw =~= pre + (before + rest));
    let at_one = pre.len() as int;
    let at_mid = at_one + before.len();
    let at_two = at_mid + mid.len();
    assert(end[0] == '+');
    assert(rest[0] == '+');
    assert((before + rest)[0] == '+');
    assert forall|j: int| #[trigger] super::names_field(raw, j, one) <==> j == at_one by {
        lemma_fields_of_parts(pre, before + rest, j, one);
        lemma_fields_of_parts(before, rest, j - at_one, one);
        lemma_fields_of_parts(mid, end, j - at_mid, one);
        lemma_fields_of_parts(after, tail, j - at_two, one);
        lemma_fields_of_one(one, first, j - at_one, one);
        lemma_fields_of_one(two, second, j - at_two, one);
    }
    assert forall|j: int| #[trigger] super::names_field(raw, j, two) <==> j == at_two by {
        lemma_fields_of_parts(pre, before + rest, j, two);
        lemma_fields_of_parts(before, rest, j - at_one, two);
        lemma_fields_of_parts(mid, end, j - at_mid, two);
        lemma_fields_of_parts(after, tail, j - at_two, two);
        lemma_fields_of_one(one, first, j - at_one, two);
        lemma_fields_of_one(two, second, j - at_two, two);
    }
    lemma_begins(two, second + tail);
    assert(field(two) + (second + tail) =~= end);
    assert(super::begins_field(rest, 0)) by {
        if mid.len() > 0 {
            let key = choose|key: Seq<char>|
                super::is_key(key) && #[trigger] super::names_field(mid, 0, key);
            super::lemma_key_is_plain(key);
            lemma_fields_of_parts(mid, end, 0, key);
            assert(super::names_field(rest, 0, key));
        } else {
            assert(rest =~= end);
        }
    }
    lemma_at_field(pre, one, first, rest);
    assert(raw =~= pre + field(one) + first + rest);
    let upto = pre + before + mid;
    lemma_at_field(upto, two, second, tail);
    assert(raw =~= upto + field(two) + second + tail);
    assert(super::without_field(raw, at_one) =~= pre + mid + after + tail);
    assert(super::without_field(raw, at_two) =~= pre + before + mid + tail);
}

proof fn lemma_play()
    ensures
        "+launchmode:play"@ == field("launchmode"@) + "play"@,
        "+launchmode:play"@.len() == 16,
        "+launchmode:play"@[0] == '+',
        "+gameinfo:"@.len() == 10,
        "+gameinfo:"@[0] == '+',
        is_bare("play"@),
        "gameinfo"@ != "launchmode"@,
{
    lemma_written();
    reveal_strlit("+launchmode:play");
    reveal_strlit("+launchmode:");
    reveal_strlit("+gameinfo:");
    reveal_strlit("play");
    assert("+launchmode:play"@ =~= field("launchmode"@) + "play"@);
    assert(!"play"@.contains('+'));
    lemma_bare_without_plus("play"@);
}

proof fn lemma_bare_without_plus(s: Seq<char>)
    requires
        !s.contains('+'),
    ensures
        is_bare(s),
{
    assert forall|key: Seq<char>, j: int| super::is_key(key) implies !#[trigger] super::names_field(
        s,
        j,
        key,
    ) by {
        lemma_no_plus(s, j, key);
    }
}

/// A launch that is put together from the two fields it must have and what is
/// before, between and after them is taken apart into just those.
#[verifier::rlimit(60)]
proof fn lemma_taken_apart(pre: Seq<char>, t: Seq<char>, mid: Seq<char>, tail: Seq<char>)
    requires
        is_bare(t),
        super::secret_of(t) == Some(t),
        mid.len() > 0 ==> mid[0] == '+' && super::begins_field(mid, 0),
        tail.len() > 0 ==> tail[0] == '+' && super::begins_field(tail, 0),
        names_neither(pre),
        names_neither(mid),
        names_neither(tail),
    ensures
        ({
            let raw = pre + "+launchmode:play"@ + mid + ("+gameinfo:"@ + t) + tail;
            super::is_player_launch(raw) ==> super::parsed(raw) == Some(
                (t, pre + "+launchmode:play"@ + mid + tail),
            )
        }),
        ({
            let raw = pre + ("+gameinfo:"@ + t) + mid + "+launchmode:play"@ + tail;
            super::is_player_launch(raw) ==> super::parsed(raw) == Some(
                (t, pre + mid + "+launchmode:play"@ + tail),
            )
        }),
{
    lemma_written();
    lemma_play();
    let mode = "+launchmode:play"@;
    let info = "+gameinfo:"@ + t;
    let one = pre + mode + mid + info + tail;
    let two = pre + info + mid + mode + tail;
    lemma_two_fields(pre, "launchmode"@, "play"@, mid, "gameinfo"@, t, tail);
    lemma_two_fields(pre, "gameinfo"@, t, mid, "launchmode"@, "play"@, tail);
    let start = pre.len() + mode.len() + mid.len();
    super::lemma_only_field(one, "launchmode"@, pre.len() as int);
    super::lemma_only_field(one, "gameinfo"@, start as int);
    let after = pre.len() + info.len() + mid.len();
    super::lemma_only_field(two, "gameinfo"@, pre.len() as int);
    super::lemma_only_field(two, "launchmode"@, after as int);
}

/// Neither of the two fields a launch must have is named.
spec fn names_neither(s: Seq<char>) -> bool {
    &&& forall|j: int| !#[trigger] super::names_field(s, j, "gameinfo"@)
    &&& forall|j: int| !#[trigger] super::names_field(s, j, "launchmode"@)
}

proof fn lemma_names_neither(s: Seq<char>)
    requires
        !text::holds_text(s, "+gameinfo:"@),
        !text::holds_text(s, "+launchmode:"@),
    ensures
        names_neither(s),
{
    lemma_written();
    assert forall|j: int| !#[trigger] super::names_field(s, j, "gameinfo"@) by {
        lemma_named_where_written(s, j, "gameinfo"@);
    }
    assert forall|j: int| !#[trigger] super::names_field(s, j, "launchmode"@) by {
        lemma_named_where_written(s, j, "launchmode"@);
    }
}

/// Fields of the protocol as they are written: nothing, or the plus, the name and
/// the colon of one, and whatever follows.
pub open spec fn is_more(s: Seq<char>) -> bool {
    ||| s.len() == 0
    ||| text::begins_with(s, "+launchmode:"@)
    ||| text::begins_with(s, "+gameinfo:"@)
    ||| text::begins_with(s, "+placelauncherurl:"@)
    ||| text::begins_with(s, "+launchtime:"@)
    ||| text::begins_with(s, "+browsertrackerid:"@)
    ||| text::begins_with(s, "+robloxLocale:"@)
    ||| text::begins_with(s, "+gameLocale:"@)
    ||| text::begins_with(s, "+channel:"@)
    ||| text::begins_with(s, "+LaunchExp:"@)
}

proof fn lemma_begins_as(s: Seq<char>, key: Seq<char>)
    requires
        super::is_key(key),
        text::begins_with(s, field(key)),
    ensures
        s.len() > 0,
        s[0] == '+',
        super::begins_field(s, 0),
{
    text::law_a_text_begins_and_ends_with_its_parts(s, field(key));
    lemma_begins(key, s.skip(field(key).len() as int));
}

proof fn lemma_more(s: Seq<char>)
    requires
        is_more(s),
    ensures
        s.len() > 0 ==> s[0] == '+' && super::begins_field(s, 0),
{
    lemma_written();
    if s.len() > 0 {
        if text::begins_with(s, "+launchmode:"@) {
            lemma_begins_as(s, "launchmode"@);
        } else if text::begins_with(s, "+gameinfo:"@) {
            lemma_begins_as(s, "gameinfo"@);
        } else if text::begins_with(s, "+placelauncherurl:"@) {
            lemma_begins_as(s, "placelauncherurl"@);
        } else if text::begins_with(s, "+launchtime:"@) {
            lemma_begins_as(s, "launchtime"@);
        } else if text::begins_with(s, "+browsertrackerid:"@) {
            lemma_begins_as(s, "browsertrackerid"@);
        } else if text::begins_with(s, "+robloxLocale:"@) {
            lemma_begins_as(s, "robloxLocale"@);
        } else if text::begins_with(s, "+gameLocale:"@) {
            lemma_begins_as(s, "gameLocale"@);
        } else if text::begins_with(s, "+channel:"@) {
            lemma_begins_as(s, "channel"@);
        } else {
            lemma_begins_as(s, "LaunchExp"@);
        }
    }
}

/// A value without escapes in a taken link stands for itself.
proof fn lemma_part_is_plain(raw: Seq<char>, before: Seq<char>, t: Seq<char>, after: Seq<char>)
    requires
        t.len() > 0,
        forall|i: int| 0 <= i < t.len() ==> #[trigger] t[i] != '%',
        raw == before + t + after,
        forall|i: int| 0 <= i < raw.len() ==> 0x21 <= (#[trigger] raw[i]) as int <= 0x7e,
    ensures
        super::secret_of(t) == Some(t),
{
    assert forall|i: int| 0 <= i < t.len() implies 0x21 <= (#[trigger] t[i]) as int <= 0x7e && t[i]
        != '%' by {
        assert(raw[before.len() + i] == t[i]);
    }
    lemma_plain_secret(t);
}

/// The head of a launch, where what follows it begins with a plus.
proof fn lemma_launch(
    scheme: Seq<char>,
    slashes: Seq<char>,
    version: Seq<char>,
    raw: Seq<char>,
    rest: Seq<char>,
)
    requires
        text::ascii_lowered(scheme) == "roblox-player"@,
        forall|i: int| 0 <= i < slashes.len() ==> #[trigger] slashes[i] == '/',
        version.len() > 0,
        forall|i: int| 0 <= i < version.len() ==> 0x30 <= (#[trigger] version[i]) as int <= 0x39,
        rest.len() > 0,
        rest[0] == '+',
        raw == scheme + ":"@ + slashes + version + rest,
        raw.len() <= 2048,
        forall|i: int| 0 <= i < raw.len() ==> 0x21 <= (#[trigger] raw[i]) as int <= 0x7e,
    ensures
        super::is_player_launch(raw),
        !(scheme + ":"@ + slashes + version).contains('+'),
{
    reveal_strlit("+");
    let head = scheme + ":"@ + slashes + version;
    assert("+"@ + rest.skip(1) =~= rest);
    assert(head + "+"@ + rest.skip(1) =~= raw);
    lemma_launch_head(scheme, slashes, version, rest.skip(1));
}

/// The two orders in which a launch may hold its two fields, with what is before,
/// between and after them.
#[verifier::rlimit(60)]
proof fn lemma_put_together(
    scheme: Seq<char>,
    slashes: Seq<char>,
    version: Seq<char>,
    a: Seq<char>,
    t: Seq<char>,
    b: Seq<char>,
    c: Seq<char>,
    raw: Seq<char>,
    mode_first: bool,
)
    requires
        text::ascii_lowered(scheme) == "roblox-player"@,
        forall|i: int| 0 <= i < slashes.len() ==> #[trigger] slashes[i] == '/',
        version.len() > 0,
        forall|i: int| 0 <= i < version.len() ==> 0x30 <= (#[trigger] version[i]) as int <= 0x39,
        a.len() > 0 ==> a[0] == '+',
        is_bare(t),
        t.len() > 0,
        forall|i: int| 0 <= i < t.len() ==> #[trigger] t[i] != '%',
        b.len() > 0 ==> b[0] == '+' && super::begins_field(b, 0),
        c.len() > 0 ==> c[0] == '+' && super::begins_field(c, 0),
        names_neither(a),
        names_neither(b),
        names_neither(c),
        mode_first ==> raw == scheme + ":"@ + slashes + version + (a + "+launchmode:play"@ + b + (
        "+gameinfo:"@ + t) + c),
        !mode_first ==> raw == scheme + ":"@ + slashes + version + (a + ("+gameinfo:"@ + t) + b
            + "+launchmode:play"@ + c),
        raw.len() <= 2048,
        forall|i: int| 0 <= i < raw.len() ==> 0x21 <= (#[trigger] raw[i]) as int <= 0x7e,
    ensures
        mode_first ==> super::parsed(raw) == Some(
            (t, scheme + ":"@ + slashes + version + (a + "+launchmode:play"@ + b + c)),
        ),
        !mode_first ==> super::parsed(raw) == Some(
            (t, scheme + ":"@ + slashes + version + (a + b + "+launchmode:play"@ + c)),
        ),
{
    let head = scheme + ":"@ + slashes + version;
    let mode = "+launchmode:play"@;
    let named = "+gameinfo:"@;
    let rest = if mode_first {
        a + mode + b + (named + t) + c
    } else {
        a + (named + t) + b + mode + c
    };
    assert(rest.len() > 0 && rest[0] == '+') by {
        lemma_play();
    }
    lemma_launch(scheme, slashes, version, raw, rest);
    lemma_names_neither_before(head, a);
    if mode_first {
        lemma_grouped(head, a, mode, b, named, t, c);
        lemma_part_is_plain(raw, head + a + mode + b + named, t, c);
    } else {
        lemma_grouped_too(head, a, named, t, b, mode, c);
        lemma_part_is_plain(raw, head + a + named, t, b + mode + c);
    }
    lemma_taken_apart(head + a, t, b, c);
}

proof fn lemma_names_neither_before(head: Seq<char>, a: Seq<char>)
    requires
        !head.contains('+'),
        a.len() > 0 ==> a[0] == '+',
        names_neither(a),
    ensures
        names_neither(head + a),
{
    let pre = head + a;
    lemma_plain_names();
    assert forall|j: int| !#[trigger] super::names_field(pre, j, "gameinfo"@) by {
        lemma_fields_of_parts(head, a, j, "gameinfo"@);
        lemma_no_plus(head, j, "gameinfo"@);
    }
    assert forall|j: int| !#[trigger] super::names_field(pre, j, "launchmode"@) by {
        lemma_fields_of_parts(head, a, j, "launchmode"@);
        lemma_no_plus(head, j, "launchmode"@);
    }
}

proof fn lemma_grouped(
    head: Seq<char>,
    a: Seq<char>,
    mode: Seq<char>,
    b: Seq<char>,
    named: Seq<char>,
    t: Seq<char>,
    c: Seq<char>,
)
    ensures
        head + (a + mode + b + (named + t) + c) == head + a + mode + b + (named + t) + c,
        head + (a + mode + b + (named + t) + c) == head + a + mode + b + named + t + c,
        head + (a + mode + b + c) == head + a + mode + b + c,
{
    let raw = head + (a + mode + b + (named + t) + c);
    assert(raw =~= head + a + mode + b + (named + t) + c);
    assert(raw =~= head + a + mode + b + named + t + c);
    assert(head + (a + mode + b + c) =~= head + a + mode + b + c);
}

proof fn lemma_grouped_too(
    head: Seq<char>,
    a: Seq<char>,
    named: Seq<char>,
    t: Seq<char>,
    b: Seq<char>,
    mode: Seq<char>,
    c: Seq<char>,
)
    ensures
        head + (a + (named + t) + b + mode + c) == head + a + (named + t) + b + mode + c,
        head + (a + (named + t) + b + mode + c) == head + a + named + t + (b + mode + c),
        head + (a + b + mode + c) == head + a + b + mode + c,
{
    let raw = head + (a + (named + t) + b + mode + c);
    assert(raw =~= head + a + (named + t) + b + mode + c);
    assert(raw =~= head + a + named + t + (b + mode + c));
    assert(head + (a + b + mode + c) =~= head + a + b + mode + c);
}

proof fn lemma_plain_names()
    ensures
        is_plain("gameinfo"@),
        is_plain("launchmode"@),
{
    super::lemma_key_is_plain("gameinfo"@);
    super::lemma_key_is_plain("launchmode"@);
}

/// A desktop launch is one however its scheme is cased, with slashes after the
/// colon or none, and with its two fields in either order and any others before,
/// between and after them: its credential is taken out whole, and everything else
/// is left in the order it stood in.
pub proof fn law_a_desktop_launch_gives_up_its_credential(
    scheme: Seq<char>,
    slashes: Seq<char>,
    version: Seq<char>,
    a: Seq<char>,
    t: Seq<char>,
    b: Seq<char>,
    c: Seq<char>,
)
    requires
        text::ascii_lowered(scheme) == "roblox-player"@,
        forall|i: int| 0 <= i < slashes.len() ==> #[trigger] slashes[i] == '/',
        version.len() > 0,
        forall|i: int| 0 <= i < version.len() ==> 0x30 <= (#[trigger] version[i]) as int <= 0x39,
        a.len() > 0 ==> a[0] == '+',
        !text::holds_text(a, "+gameinfo:"@),
        !text::holds_text(a, "+launchmode:"@),
        t.len() > 0,
        forall|i: int| 0 <= i < t.len() ==> #[trigger] t[i] != '%',
        !text::holds_text(t, "+launchmode:"@),
        !text::holds_text(t, "+gameinfo:"@),
        !text::holds_text(t, "+placelauncherurl:"@),
        !text::holds_text(t, "+launchtime:"@),
        !text::holds_text(t, "+browsertrackerid:"@),
        !text::holds_text(t, "+robloxLocale:"@),
        !text::holds_text(t, "+gameLocale:"@),
        !text::holds_text(t, "+channel:"@),
        !text::holds_text(t, "+LaunchExp:"@),
        is_more(b),
        !text::holds_text(b, "+gameinfo:"@),
        !text::holds_text(b, "+launchmode:"@),
        is_more(c),
        !text::holds_text(c, "+gameinfo:"@),
        !text::holds_text(c, "+launchmode:"@),
    ensures
        ({
            let head = scheme + ":"@ + slashes + version;
            let raw = head + (a + "+launchmode:play"@ + b + ("+gameinfo:"@ + t) + c);
            raw.len() <= 2048 && (forall|i: int|
                0 <= i < raw.len() ==> 0x21 <= (#[trigger] raw[i]) as int <= 0x7e)
                ==> super::parsed(raw) == Some((t, head + (a + "+launchmode:play"@ + b + c)))
        }),
        ({
            let head = scheme + ":"@ + slashes + version;
            let raw = head + (a + ("+gameinfo:"@ + t) + b + "+launchmode:play"@ + c);
            raw.len() <= 2048 && (forall|i: int|
                0 <= i < raw.len() ==> 0x21 <= (#[trigger] raw[i]) as int <= 0x7e)
                ==> super::parsed(raw) == Some((t, head + (a + b + "+launchmode:play"@ + c)))
        }),
{
    lemma_names_neither(a);
    lemma_names_neither(b);
    lemma_names_neither(c);
    lemma_more(b);
    lemma_more(c);
    lemma_bare(t);
    let head = scheme + ":"@ + slashes + version;
    let one = head + (a + "+launchmode:play"@ + b + ("+gameinfo:"@ + t) + c);
    let two = head + (a + ("+gameinfo:"@ + t) + b + "+launchmode:play"@ + c);
    if one.len() <= 2048 && forall|i: int|
        0 <= i < one.len() ==> 0x21 <= (#[trigger] one[i]) as int <= 0x7e {
        lemma_put_together(scheme, slashes, version, a, t, b, c, one, true);
    }
    if two.len() <= 2048 && forall|i: int|
        0 <= i < two.len() ==> 0x21 <= (#[trigger] two[i]) as int <= 0x7e {
        lemma_put_together(scheme, slashes, version, a, t, b, c, two, false);
    }
}

proof fn lemma_twice(a: Seq<char>, key: Seq<char>, b: Seq<char>, c: Seq<char>)
    ensures
        forall|k: int|
            !#[trigger] super::is_only_field(a + field(key) + b + field(key) + c, key, k),
{
    lemma_field(key);
    let raw = a + field(key) + b + field(key) + c;
    let one = a.len() as int;
    let two = a.len() + field(key).len() + b.len();
    assert(raw.subrange(one, one + field(key).len()) =~= field(key));
    assert(raw.subrange(two as int, two as int + field(key).len()) =~= field(key));
    lemma_named_where_written(raw, one, key);
    lemma_named_where_written(raw, two as int, key);
    assert(super::names_field(raw, one, key) && super::names_field(raw, two as int, key));
}

proof fn lemma_nowhere(raw: Seq<char>, key: Seq<char>)
    requires
        !text::holds_text(raw, field(key)),
    ensures
        forall|k: int| !#[trigger] super::is_only_field(raw, key, k),
{
    assert forall|k: int| !#[trigger] super::is_only_field(raw, key, k) by {
        lemma_named_where_written(raw, k, key);
    }
}

/// A link with two credentials or two modes, or without either, gives up none.
pub proof fn law_two_of_a_field_or_none_is_no_launch(a: Seq<char>, b: Seq<char>, c: Seq<char>)
    ensures
        super::parsed(a + "+gameinfo:"@ + b + "+gameinfo:"@ + c) is None,
        super::parsed(a + "+launchmode:"@ + b + "+launchmode:"@ + c) is None,
        !text::holds_text(a, "+gameinfo:"@) ==> super::parsed(a) is None,
        !text::holds_text(a, "+launchmode:"@) ==> super::parsed(a) is None,
{
    lemma_written();
    lemma_twice(a, "gameinfo"@, b, c);
    lemma_twice(a, "launchmode"@, b, c);
    if !text::holds_text(a, "+gameinfo:"@) {
        lemma_nowhere(a, "gameinfo"@);
    }
    if !text::holds_text(a, "+launchmode:"@) {
        lemma_nowhere(a, "launchmode"@);
    }
}

/// A launch in any other mode than `play` gives up no credential.
#[verifier::rlimit(40)]
pub proof fn law_another_mode_is_no_launch(
    p: Seq<char>,
    mode: Seq<char>,
    name: Seq<char>,
    r: Seq<char>,
)
    requires
        mode != "play"@,
        !mode.contains('+'),
        name == "gameinfo"@ || name == "placelauncherurl"@ || name == "launchtime"@ || name
            == "browsertrackerid"@ || name == "robloxLocale"@ || name == "gameLocale"@ || name
            == "channel"@ || name == "LaunchExp"@,
    ensures
        super::parsed(p + "+launchmode:"@ + mode + "+"@ + name + ":"@ + r) is None,
        super::parsed(p + "+launchmode:"@ + mode) is None,
{
    lemma_written();
    lemma_field(name);
    lemma_bare_without_plus(mode);
    let tail = field(name) + r;
    lemma_begins(name, r);
    lemma_at_field(p, "launchmode"@, mode, tail);
    lemma_at_field(p, "launchmode"@, mode, Seq::<char>::empty());
    let raw = p + "+launchmode:"@ + mode + "+"@ + name + ":"@ + r;
    assert(raw =~= p + field("launchmode"@) + mode + tail);
    let last = p + "+launchmode:"@ + mode;
    assert(last =~= p + field("launchmode"@) + mode + Seq::<char>::empty());
    if super::parsed(raw) is Some {
        let (start, end, at) = super::lemma_parsed(raw);
        assert(at == p.len());
        super::lemma_only_field(raw, "launchmode"@, at);
    }
    if super::parsed(last) is Some {
        let (start, end, at) = super::lemma_parsed(last);
        assert(at == p.len());
        super::lemma_only_field(last, "launchmode"@, at);
    }
}

/// A link of any other scheme than the player's gives up no credential, nor does
/// one that would not be taken.
pub proof fn law_another_scheme_is_no_launch(scheme: Seq<char>, rest: Seq<char>)
    requires
        !scheme.contains(':'),
    ensures
        text::ascii_lowered(scheme) != "roblox-player"@ ==> super::parsed(scheme + ":"@ + rest)
            is None,
        deep_link::judged(scheme + ":"@ + rest) is Err ==> super::parsed(scheme + ":"@ + rest)
            is None,
{
    reveal_strlit(":");
    let raw = scheme + ":"@ + rest;
    assert(raw =~= scheme + seq![':'] + rest);
    text::law_the_first_has_none_before_it(scheme, ':', rest);
    assert(raw.take(scheme.len() as int) =~= scheme);
}

/// What stands between the scheme, with the slashes after it, and the first plus
/// is the version: a link whose version is empty or holds anything but digits
/// gives up no credential.
#[verifier::rlimit(40)]
pub proof fn law_a_launch_has_a_version(
    scheme: Seq<char>,
    slashes: Seq<char>,
    version: Seq<char>,
    rest: Seq<char>,
)
    requires
        !scheme.contains(':'),
        forall|i: int| 0 <= i < slashes.len() ==> #[trigger] slashes[i] == '/',
        !version.contains('+'),
        version.len() > 0 ==> version[0] != '/',
        version.len() == 0 || exists|i: int|
            0 <= i < version.len() && !(0x30 <= (#[trigger] version[i]) as int <= 0x39),
    ensures
        super::parsed(scheme + ":"@ + slashes + version + "+"@ + rest) is None,
{
    reveal_strlit(":");
    reveal_strlit("+");
    let raw = scheme + ":"@ + slashes + version + "+"@ + rest;
    let after = slashes + version + "+"@ + rest;
    assert(raw =~= scheme + seq![':'] + after);
    text::law_the_first_has_none_before_it(scheme, ':', after);
    let payload = raw.skip(scheme.len() as int + 1);
    assert(payload =~= after);
    let n = slashes.len() as int;
    assert forall|i: int| 0 <= i < n implies #[trigger] payload[i] == '/' by {
        assert(payload[i] == slashes[i]);
    }
    assert(payload[n] == if version.len() > 0 {
        version[0]
    } else {
        '+'
    });
    super::lemma_is_without_slashes(payload, n);
    let left = payload.skip(n);
    assert(left =~= version + seq!['+'] + rest);
    text::law_the_first_has_none_before_it(version, '+', rest);
    if version.len() > 0 {
        let i = choose|i: int|
            0 <= i < version.len() && !(0x30 <= (#[trigger] version[i]) as int <= 0x39);
        assert(left[i] == version[i]);
        assert(!super::is_digit(left[i]));
    }
}

/// A percent sign that two hexadecimal digits do not follow spoils a credential,
/// and so does a credential of nothing.
pub proof fn law_a_broken_escape_is_no_credential(a: Seq<char>, b: Seq<char>)
    requires
        b.len() < 2 || !(0x30 <= b[0] as int <= 0x39 || 0x41 <= b[0] as int <= 0x46 || 0x61
            <= b[0] as int <= 0x66) || !(0x30 <= b[1] as int <= 0x39 || 0x41 <= b[1] as int <= 0x46
            || 0x61 <= b[1] as int <= 0x66),
    ensures
        super::secret_of(a + "%"@ + b) is None,
        super::secret_of(Seq::<char>::empty()) is None,
{
    reveal_strlit("%");
    let s = a + "%"@ + b;
    let i = a.len() as int;
    assert(s[i] == '%');
    if super::well_escaped(s) {
        assert(s[i + 1] == b[0] && s[i + 2] == b[1]);
    }
    encode_utf8_decode_utf8(Seq::<char>::empty());
    assert(encode_utf8(Seq::<char>::empty()).len() == 0);
}

proof fn lemma_decoded_parts(a: Seq<u8>, b: Seq<u8>)
    requires
        !a.contains(0x25u8),
    ensures
        super::percent_decoded(a + b) == a + super::percent_decoded(b),
    decreases a.len(),
{
    if a.len() > 0 {
        let s = a + b;
        assert(s[0] == a[0]);
        assert(a.contains(a[0]));
        assert(s.skip(1) =~= a.skip(1) + b);
        assert(!a.skip(1).contains(0x25u8)) by {
            if a.skip(1).contains(0x25u8) {
                let i = choose|i: int| 0 <= i < a.skip(1).len() && a.skip(1)[i] == 0x25u8;
                assert(a[i + 1] == 0x25u8);
            }
        }
        lemma_decoded_parts(a.skip(1), b);
        assert(seq![a[0]] + (a.skip(1) + super::percent_decoded(b)) =~= a + super::percent_decoded(
            b,
        ));
    } else {
        assert(a + b =~= b);
        assert(a + super::percent_decoded(b) =~= super::percent_decoded(b));
    }
}

/// The value of a hexadecimal digit, by its code.
pub open spec fn digit(code: int) -> int {
    if code <= 0x39 {
        code - 0x30
    } else if code <= 0x46 {
        code - 0x37
    } else {
        code - 0x57
    }
}

/// Escapes are taken out one by one: what stands before the first stands for
/// itself, each is the byte that its two digits are, and what follows it is
/// decoded in turn.
pub proof fn law_escapes_are_decoded_one_by_one(a: Seq<u8>, high: u8, low: u8, b: Seq<u8>)
    requires
        !a.contains(0x25u8),
        0x30 <= high <= 0x39 || 0x41 <= high <= 0x46 || 0x61 <= high <= 0x66,
        0x30 <= low <= 0x39 || 0x41 <= low <= 0x46 || 0x61 <= low <= 0x66,
    ensures
        super::percent_decoded(a) == a,
        super::percent_decoded(a + seq![0x25u8, high, low] + b) == a + seq![
            (digit(high as int) * 16 + digit(low as int)) as u8,
        ] + super::percent_decoded(b),
{
    lemma_nothing_escaped(a);
    let tail = seq![0x25u8, high, low] + b;
    assert(a + seq![0x25u8, high, low] + b =~= a + tail);
    lemma_decoded_parts(a, tail);
    assert(tail.skip(3) =~= b);
    let byte = seq![(digit(high as int) * 16 + digit(low as int)) as u8];
    assert(super::percent_decoded(tail) =~= byte + super::percent_decoded(b));
    assert(a + (byte + super::percent_decoded(b)) =~= a + byte + super::percent_decoded(b));
}

/// A value stands for a credential exactly where its escapes are whole and what
/// they decode to is printable text, and it stands for just that.
pub proof fn law_a_credential_is_printable_text(encoded: Seq<char>, secret: Seq<char>)
    requires
        super::well_escaped(encoded),
        super::percent_decoded(encode_utf8(encoded)) == encode_utf8(secret),
    ensures
        super::secret_of(encoded) == Some(secret) <==> secret.len() > 0 && forall|i: int|
            0 <= i < secret.len() ==> 0x21 <= (#[trigger] secret[i]) as int <= 0x7e,
        super::secret_of(encoded) is Some ==> super::secret_of(encoded) == Some(secret),
{
    encode_utf8_valid_utf8(secret);
    encode_utf8_decode_utf8(secret);
    text::law_graphic_is_a_range_of_codes(secret);
    if secret.len() == 0 {
        assert(secret =~= Seq::<char>::empty());
        assert(encode_utf8(secret).len() == 0);
    } else {
        assert(encode_utf8(secret).len() > 0) by {
            super::lemma_some_bytes(secret);
        }
    }
}

/// An escape stands for the one byte that its two digits are, and what is around
/// it stands for itself.
#[verifier::rlimit(40)]
pub proof fn law_an_escape_is_one_byte(a: Seq<char>, high: char, low: char, b: Seq<char>)
    requires
        forall|i: int| 0 <= i < a.len() ==> 0x21 <= (#[trigger] a[i]) as int <= 0x7e && a[i] != '%',
        forall|i: int| 0 <= i < b.len() ==> 0x21 <= (#[trigger] b[i]) as int <= 0x7e && b[i] != '%',
        0x30 <= high as int <= 0x39 || 0x41 <= high as int <= 0x46 || 0x61 <= high as int <= 0x66,
        0x30 <= low as int <= 0x39 || 0x41 <= low as int <= 0x46 || 0x61 <= low as int <= 0x66,
    ensures
        ({
            let code = digit(high as int) * 16 + digit(low as int);
            0x21 <= code <= 0x7e ==> super::secret_of(a + seq!['%', high, low] + b) == Some(
                a + seq![code as char] + b,
            )
        }),
        ({
            let code = digit(high as int) * 16 + digit(low as int);
            !(0x21 <= code <= 0x7e) ==> super::secret_of(a + seq!['%', high, low] + b) is None
        }),
{
    let s = a + seq!['%', high, low] + b;
    let code = digit(high as int) * 16 + digit(low as int);
    assert(is_ascii_chars(s)) by {
        assert forall|i| 0 <= i < s.len() implies '\0' <= #[trigger] s[i] <= '\u{7f}' by {
            if i < a.len() {
                assert(s[i] == a[i]);
            } else if i >= a.len() + 3 {
                assert(s[i] == b[i - a.len() - 3]);
            }
        }
    }
    is_ascii_chars_encode_utf8(s);
    text::law_graphic_is_a_range_of_codes(a);
    text::law_graphic_is_a_range_of_codes(b);
    text::lemma_graphic_bytes(a);
    text::lemma_graphic_bytes(b);
    is_ascii_chars_encode_utf8(a);
    is_ascii_chars_encode_utf8(b);
    let before = encode_utf8(a);
    let after = encode_utf8(b);
    let middle = seq![0x25u8, high as u8, low as u8];
    let bytes = encode_utf8(s);
    assert(bytes =~= before + (middle + after)) by {
        assert forall|i: int| 0 <= i < bytes.len() implies bytes[i] == (before + (middle
            + after))[i] by {
            assert(s[i] as u8 == bytes[i]);
            if i < a.len() {
                assert(s[i] == a[i]);
            } else if i >= a.len() + 3 {
                assert(s[i] == b[i - a.len() - 3]);
            }
        }
    }
    assert(!before.contains(0x25u8)) by {
        if before.contains(0x25u8) {
            let i = choose|i: int| 0 <= i < before.len() && before[i] == 0x25u8;
            assert(a[i] as u8 == before[i]);
            assert(a[i] as int == 0x25);
        }
    }
    assert(!after.contains(0x25u8)) by {
        if after.contains(0x25u8) {
            let i = choose|i: int| 0 <= i < after.len() && after[i] == 0x25u8;
            assert(b[i] as u8 == after[i]);
            assert(b[i] as int == 0x25);
        }
    }
    lemma_decoded_parts(before, middle + after);
    lemma_nothing_escaped(after);
    let tail = middle + after;
    assert(tail.skip(3) =~= after);
    assert(super::percent_decoded(tail) =~= seq![code as u8] + after);
    let decoded = before + (seq![code as u8] + after);
    assert(super::percent_decoded(bytes) == decoded);
    assert(super::well_escaped(s)) by {
        assert forall|i: int| 0 <= i < s.len() && #[trigger] s[i] == '%' implies i + 2 < s.len()
            && super::is_hex(s[i + 1]) && super::is_hex(s[i + 2]) by {
            if i < a.len() {
                assert(s[i] == a[i]);
            } else if i >= a.len() + 3 {
                assert(s[i] == b[i - a.len() - 3]);
            }
            assert(i == a.len());
        }
    }
    if code <= 0x7f {
        let out = a + seq![code as char] + b;
        assert(is_ascii_chars(out)) by {
            assert forall|i| 0 <= i < out.len() implies '\0' <= #[trigger] out[i] <= '\u{7f}' by {
                if i < a.len() {
                    assert(out[i] == a[i]);
                } else if i > a.len() {
                    assert(out[i] == b[i - a.len() - 1]);
                }
            }
        }
        is_ascii_chars_encode_utf8(out);
        assert(encode_utf8(out) =~= decoded) by {
            assert forall|i: int| 0 <= i < decoded.len() implies encode_utf8(out)[i]
                == decoded[i] by {
                assert(out[i] as u8 == encode_utf8(out)[i]);
                if i < a.len() {
                    assert(out[i] == a[i]);
                } else if i > a.len() {
                    assert(out[i] == b[i - a.len() - 1]);
                }
            }
        }
        encode_utf8_valid_utf8(out);
        encode_utf8_decode_utf8(out);
        text::law_graphic_is_a_range_of_codes(out);
        assert(out[a.len() as int] as int == code);
        if 0x21 <= code <= 0x7e {
            assert forall|i: int| 0 <= i < out.len() implies 0x21 <= (#[trigger] out[i]) as int
                <= 0x7e by {
                if i < a.len() {
                    assert(out[i] == a[i]);
                } else if i > a.len() {
                    assert(out[i] == b[i - a.len() - 1]);
                }
            }
        }
    } else {
        if super::secret_of(s) is Some {
            let out = decode_utf8(decoded);
            decode_utf8_encode_utf8(decoded);
            text::lemma_graphic_bytes(out);
            is_ascii_chars_encode_utf8(out);
            text::law_graphic_is_a_range_of_codes(out);
            assert(out[a.len() as int] as u8 == decoded[a.len() as int]);
        }
    }
}

} // verus!
