//! What sessions, requests and replies come to, said of them as they are
//! written.

use vstd::prelude::*;
use vstd::seq_lib::lemma_flatten_concat;
use vstd::string::*;
use vstd::utf8::*;

use crate::choice;
use crate::text;

verus! {

broadcast use vstd::string::group_string_axioms;

/// A session value is printable ASCII, at least one character of it, without
/// quotes, commas, semicolons and backslashes.
pub proof fn law_a_session_value_by_its_codes(value: Seq<char>)
    ensures
        super::is_session_value(value) <==> value.len() > 0 && forall|i: int|
            #![trigger value[i]]
            0 <= i < value.len() ==> 0x21 <= value[i] as int <= 0x7e && value[i] as int != 0x22
                && value[i] as int != 0x2c && value[i] as int != 0x3b && value[i] as int != 0x5c,
{
    if super::is_session_value(value) {
        assert forall|i: int| #![trigger value[i]] 0 <= i < value.len() implies 0x21
            <= value[i] as int <= 0x7e && value[i] as int != 0x22 && value[i] as int != 0x2c
            && value[i] as int != 0x3b && value[i] as int != 0x5c by {
            assert(super::is_session_char(value[i]));
        }
    }
}

/// A value in two parts is a session's exactly where each part could be one: no
/// character is judged by where it stands.
pub proof fn law_session_values_are_put_together(a: Seq<char>, b: Seq<char>)
    requires
        a.len() > 0,
        b.len() > 0,
    ensures
        super::is_session_value(a + b) <==> super::is_session_value(a) && super::is_session_value(
            b,
        ),
{
    let s = a + b;
    if super::is_session_value(s) {
        assert forall|i: int| 0 <= i < a.len() implies super::is_session_char(#[trigger] a[i]) by {
            assert(s[i] == a[i]);
        }
        assert forall|i: int| 0 <= i < b.len() implies super::is_session_char(#[trigger] b[i]) by {
            assert(s[a.len() + i] == b[i]);
        }
    }
}

proof fn lemma_prefix()
    ensures
        super::SESSION_PREFIX@ == ".ROBLOSECURITY="@,
        ".ROBLOSECURITY="@.len() == 15,
        ".ROBLOSECURITY="@[0] == '.',
        !".ROBLOSECURITY="@.contains(';'),
{
    reveal_strlit(".ROBLOSECURITY=");
}

/// A pair of the session's name and a value is a session exactly where the value
/// can be one, and it is the session as it stands.
#[verifier::rlimit(40)]
pub proof fn law_a_pair_is_its_name_and_value(name: Seq<char>, value: Seq<char>)
    requires
        !name.contains('='),
    ensures
        super::session_in_pair(".ROBLOSECURITY="@ + value) == if super::is_session_value(value) {
            Some(".ROBLOSECURITY="@ + value)
        } else {
            None
        },
        name != ".ROBLOSECURITY"@ ==> super::session_in_pair(name + "="@ + value) is None,
        super::session_in_pair(name) is None,
{
    lemma_prefix();
    reveal_strlit(".ROBLOSECURITY=");
    reveal_strlit(".ROBLOSECURITY");
    reveal_strlit("=");
    let prefix = ".ROBLOSECURITY="@;
    let pair = prefix + value;
    assert(pair.skip(15) =~= value);
    assert(pair.take(15) =~= prefix);
    assert(prefix =~= ".ROBLOSECURITY"@ + "="@);
    let other = name + "="@ + value;
    if text::begins_with(other, prefix) {
        assert(other.take(15) == prefix);
        assert(prefix[14] == '=' && other[14] == '=');
        assert forall|i: int| 0 <= i < 14 implies #[trigger] other[i] != '=' by {
            assert(other.take(15)[i] == prefix[i]);
        }
        assert(other[name.len() as int] == '=');
        if name.len() > 14 {
            assert(other[14] == name[14]);
            assert(name.contains(name[14]));
        }
        assert(name.len() == 14);
        assert forall|i: int| 0 <= i < 14 implies #[trigger] name[i] == ".ROBLOSECURITY"@[i] by {
            assert(other.take(15)[i] == name[i]);
        }
        assert(name =~= ".ROBLOSECURITY"@);
    }
    if text::begins_with(name, prefix) {
        assert(name.take(15)[14] == prefix[14]);
        assert(name.contains(name[14]));
    }
}

/// A `Set-Cookie` header sets the session it begins with, whatever attributes
/// follow and whatever white space is around the pair.
#[verifier::rlimit(40)]
pub proof fn law_a_header_sets_the_pair_it_begins_with(
    before: Seq<char>,
    value: Seq<char>,
    after: Seq<char>,
    attributes: Seq<char>,
)
    requires
        forall|i: int| 0 <= i < before.len() ==> text::is_white(#[trigger] before[i]),
        forall|i: int| 0 <= i < after.len() ==> text::is_white(#[trigger] after[i]),
        super::is_session_value(value),
    ensures
        super::session_in_header(
            Some(before + ".ROBLOSECURITY="@ + value + after + ";"@ + attributes),
        ) == Some(".ROBLOSECURITY="@ + value),
        super::session_in_header(Some(before + ".ROBLOSECURITY="@ + value + after)) == Some(
            ".ROBLOSECURITY="@ + value,
        ),
{
    lemma_prefix();
    reveal_strlit(";");
    let pair = ".ROBLOSECURITY="@ + value;
    let head = before + pair + after;
    assert(head =~= before + ".ROBLOSECURITY="@ + value + after);
    law_a_session_value_by_its_codes(value);
    assert(!head.contains(';')) by {
        if head.contains(';') {
            let i = choose|i: int| 0 <= i < head.len() && head[i] == ';';
            if i < before.len() {
                assert(text::is_white(before[i]));
            } else if i < before.len() + 15 {
                assert(".ROBLOSECURITY="@[i - before.len()] == ';');
                assert(".ROBLOSECURITY="@.contains(';'));
            } else if i < before.len() + pair.len() {
                assert(value[i - before.len() - 15] == ';');
            } else {
                assert(text::is_white(after[i - before.len() - pair.len()]));
            }
        }
    }
    assert(!text::is_white(pair.last())) by {
        assert(pair.last() == value.last());
        assert(value.last() == value[value.len() - 1]);
    }
    text::law_trimming_takes_what_is_around(before, pair, after);
    text::law_the_first_has_none_before_it(head, ';', attributes);
    let header = head + seq![';'] + attributes;
    assert(header =~= before + ".ROBLOSECURITY="@ + value + after + ";"@ + attributes);
    assert(header.take(head.len() as int) =~= head);
    law_a_pair_is_its_name_and_value(Seq::<char>::empty(), value);
}

/// A header of another cookie sets no session, nor does one whose value cannot
/// be a session's, whatever attributes follow.
#[verifier::rlimit(40)]
pub proof fn law_another_header_sets_no_session(
    name: Seq<char>,
    value: Seq<char>,
    attributes: Seq<char>,
)
    requires
        name.len() > 0,
        !text::is_white(name[0]),
        !name.contains('='),
        !name.contains(';'),
        !value.contains(';'),
        value.len() > 0 ==> !text::is_white(value.last()),
    ensures
        name != ".ROBLOSECURITY"@ ==> super::session_in_header(
            Some(name + "="@ + value + ";"@ + attributes),
        ) is None,
        !super::is_session_value(value) ==> super::session_in_header(
            Some(".ROBLOSECURITY="@ + value + ";"@ + attributes),
        ) is None,
        super::session_in_header(None) is None,
{
    lemma_prefix();
    reveal_strlit(";");
    reveal_strlit("=");
    let none = Seq::<char>::empty();
    let one = name + "="@ + value;
    assert(!one.contains(';')) by {
        if one.contains(';') {
            let i = choose|i: int| 0 <= i < one.len() && one[i] == ';';
            if i < name.len() {
                assert(name.contains(name[i]));
            } else if i > name.len() {
                assert(value.contains(value[i - name.len() - 1]));
            }
        }
    }
    assert(one[0] == name[0]);
    assert(!text::is_white(one.last()));
    assert(none + one + none =~= one);
    text::law_trimming_takes_what_is_around(none, one, none);
    text::law_the_first_has_none_before_it(one, ';', attributes);
    let header = one + seq![';'] + attributes;
    assert(header =~= name + "="@ + value + ";"@ + attributes);
    assert(header.take(one.len() as int) =~= one);
    law_a_pair_is_its_name_and_value(name, value);
    let two = ".ROBLOSECURITY="@ + value;
    reveal_strlit(".ROBLOSECURITY=");
    assert(!two.contains(';')) by {
        if two.contains(';') {
            let i = choose|i: int| 0 <= i < two.len() && two[i] == ';';
            if i >= 15 {
                assert(value.contains(value[i - 15]));
            } else {
                assert(".ROBLOSECURITY="@.contains(".ROBLOSECURITY="@[i]));
            }
        }
    }
    assert(!text::is_white(two.last()));
    assert(none + two + none =~= two);
    text::law_trimming_takes_what_is_around(none, two, none);
    text::law_the_first_has_none_before_it(two, ';', attributes);
    let other = two + seq![';'] + attributes;
    assert(other =~= ".ROBLOSECURITY="@ + value + ";"@ + attributes);
    assert(other.take(two.len() as int) =~= two);
}

/// A reply that reports success and sets one session gives it, wherever its
/// header stands among the others; one that reports anything else gives none.
pub proof fn law_a_reply_gives_its_one_session(reply: super::RedeemReply, k: int)
    requires
        0 <= k < reply.set_cookie@.len(),
        reply.set_cookie@[k] is Some,
        super::session_in_header(Some(reply.set_cookie@[k]->0@)) is Some,
        forall|j: int|
            0 <= j < reply.set_cookie@.len() && j != k && #[trigger] reply.set_cookie@[j] is Some
                ==> super::session_in_header(Some(reply.set_cookie@[j]->0@)) is None,
    ensures
        200 <= reply.status <= 299 ==> super::redeemed_session(Some(reply))
            == super::session_in_header(Some(reply.set_cookie@[k]->0@)),
        !(200 <= reply.status <= 299) ==> super::redeemed_session(Some(reply)) is None,
{
    let texts = super::header_texts(reply.set_cookie@);
    let sessions = super::sessions_in(texts);
    assert forall|j: int| 0 <= j < sessions.len() && #[trigger] sessions[j] is Some implies j
        == k by {
        assert(texts[j] is Some ==> reply.set_cookie@[j] is Some);
    }
    assert(sessions[k] == super::session_in_header(texts[k]));
    assert(choice::is_only_some(sessions, k));
    choice::lemma_only_some(sessions, k);
}

/// A reply that did not come, that sets no session or that sets two gives none.
#[verifier::rlimit(40)]
pub proof fn law_no_session_or_two_is_none(reply: super::RedeemReply)
    ensures
        super::redeemed_session(None) is None,
        (forall|j: int|
            0 <= j < reply.set_cookie@.len() && #[trigger] reply.set_cookie@[j] is Some
                ==> super::session_in_header(Some(reply.set_cookie@[j]->0@)) is None)
            ==> super::redeemed_session(Some(reply)) is None,
        (exists|i: int, j: int|
            0 <= i < j < reply.set_cookie@.len() && #[trigger] reply.set_cookie@[i] is Some
                && super::session_in_header(Some(reply.set_cookie@[i]->0@)) is Some
                && #[trigger] reply.set_cookie@[j] is Some && super::session_in_header(
                Some(reply.set_cookie@[j]->0@),
            ) is Some) ==> super::redeemed_session(Some(reply)) is None,
{
    let texts = super::header_texts(reply.set_cookie@);
    let sessions = super::sessions_in(texts);
    if forall|j: int|
        0 <= j < reply.set_cookie@.len() && #[trigger] reply.set_cookie@[j] is Some
            ==> super::session_in_header(Some(reply.set_cookie@[j]->0@)) is None {
        assert forall|j: int| 0 <= j < sessions.len() implies #[trigger] sessions[j] is None by {
            assert(texts[j] is Some ==> reply.set_cookie@[j] is Some);
        }
    }
    if exists|i: int, j: int|
        0 <= i < j < reply.set_cookie@.len() && #[trigger] reply.set_cookie@[i] is Some
            && super::session_in_header(Some(reply.set_cookie@[i]->0@)) is Some
            && #[trigger] reply.set_cookie@[j] is Some && super::session_in_header(
            Some(reply.set_cookie@[j]->0@),
        ) is Some {
        let (i, j) = choose|i: int, j: int|
            0 <= i < j < reply.set_cookie@.len() && #[trigger] reply.set_cookie@[i] is Some
                && super::session_in_header(Some(reply.set_cookie@[i]->0@)) is Some
                && #[trigger] reply.set_cookie@[j] is Some && super::session_in_header(
                Some(reply.set_cookie@[j]->0@),
            ) is Some;
        assert(sessions[i] == super::session_in_header(texts[i]));
        assert(sessions[j] == super::session_in_header(texts[j]));
        assert(sessions[i] is Some && sessions[j] is Some);
    }
}

/// The account a successful reply names is the number it names, and no number
/// is an account where it is zero or the reply reports anything but success.
pub proof fn law_an_identity_is_the_number_it_names(status: u16, id: u64)
    ensures
        super::identified_number(Some(super::IdentityReply { status, id: Some(id) })) == if 200
            <= status <= 299 && id > 0 {
            Some(id)
        } else {
            None::<u64>
        },
        super::identified_number(Some(super::IdentityReply { status, id: None })) is None,
        super::identified_number(None) is None,
{
}

/// The inside of a JSON string is put together from those of its parts.
pub proof fn law_a_string_is_escaped_part_by_part(a: Seq<char>, b: Seq<char>)
    ensures
        super::json_string(a + b) == super::json_string(a).drop_last() + super::json_string(b).skip(
            1,
        ),
{
    let escape = |c: char| super::json_escaped(c);
    let one = a.map_values(escape);
    let two = b.map_values(escape);
    lemma_flatten_concat(one, two);
    assert((a + b).map_values(escape) =~= one + two);
    assert(super::json_string(a).drop_last() =~= seq!['"'] + one.flatten());
    assert(super::json_string(b).skip(1) =~= two.flatten() + seq!['"']);
    assert(super::json_string(a + b) =~= super::json_string(a).drop_last() + super::json_string(
        b,
    ).skip(1));
}

/// One character in a JSON string: the quote and the backslash have a backslash
/// before them, a control character is named by its code, and every other is
/// itself.
pub proof fn law_a_character_is_escaped_by_its_code(c: char)
    ensures
        super::json_string(seq![c]) == seq!['"'] + super::json_escaped(c) + seq!['"'],
        super::json_string(Seq::<char>::empty()) == seq!['"', '"'],
        c as int == 0x22 ==> super::json_escaped(c) == seq![0x5c as char, 0x22 as char],
        c as int == 0x5c ==> super::json_escaped(c) == seq![0x5c as char, 0x5c as char],
        c as int == 0x8 ==> super::json_escaped(c) == seq![0x5c as char, 'b'],
        c as int == 0x9 ==> super::json_escaped(c) == seq![0x5c as char, 't'],
        c as int == 0xa ==> super::json_escaped(c) == seq![0x5c as char, 'n'],
        c as int == 0xc ==> super::json_escaped(c) == seq![0x5c as char, 'f'],
        c as int == 0xd ==> super::json_escaped(c) == seq![0x5c as char, 'r'],
        (c as int) < 0x20 && c as int != 0x8 && c as int != 0x9 && c as int != 0xa && c as int
            != 0xc && c as int != 0xd ==> super::json_escaped(c) == seq![
            0x5c as char,
            'u',
            '0',
            '0',
            text::hex_char(c as int / 16),
            text::hex_char(c as int % 16),
        ],
        0x20 <= c as int && c as int != 0x22 && c as int != 0x5c ==> super::json_escaped(c)
            == seq![c],
{
    let escape = |c: char| super::json_escaped(c);
    let one = seq![c].map_values(escape);
    one.lemma_flatten_one_element();
    assert(one[0] == super::json_escaped(c));
    let none = Seq::<char>::empty().map_values(escape);
    assert(none.flatten() =~= Seq::<char>::empty());
}

proof fn lemma_printable(s: Seq<char>)
    requires
        forall|i: int|
            #![trigger s[i]]
            0 <= i < s.len() ==> 0x20 <= s[i] as int && s[i] as int != 0x22 && s[i] as int != 0x5c,
    ensures
        super::json_string(s) == seq!['"'] + s + seq!['"'],
    decreases s.len(),
{
    if s.len() == 0 {
        law_a_character_is_escaped_by_its_code('a');
        assert(s =~= Seq::<char>::empty());
        assert(super::json_string(s) =~= seq!['"'] + s + seq!['"']);
    } else {
        let rest = s.skip(1);
        let head = seq![s[0]];
        assert forall|i: int| #![trigger rest[i]] 0 <= i < rest.len() implies 0x20 <= rest[i] as int
            && rest[i] as int != 0x22 && rest[i] as int != 0x5c by {
            assert(rest[i] == s[i + 1]);
        }
        lemma_printable(rest);
        assert(s =~= head + rest);
        law_a_string_is_escaped_part_by_part(head, rest);
        law_a_character_is_escaped_by_its_code(s[0]);
        assert(super::json_string(s) =~= seq!['"'] + s + seq!['"']);
    }
}

/// What redeeming a printable credential posts: an object of that one field, and
/// the credential in quotes as it stands.
pub proof fn law_a_credential_is_posted_as_it_stands(
    request: super::Request,
    endpoint: Seq<char>,
    secret: Seq<char>,
)
    requires
        super::redeems(request, endpoint, secret),
        forall|i: int|
            #![trigger secret[i]]
            0 <= i < secret.len() ==> 0x20 <= secret[i] as int && secret[i] as int != 0x22
                && secret[i] as int != 0x5c,
    ensures
        request.endpoint@ == endpoint,
        request.headers@.len() == 2,
        request.headers@[0].0@ == "RBXAuthenticationNegotiation"@,
        request.headers@[0].1@ == "1"@,
        request.headers@[1].0@ == "Content-Type"@,
        request.headers@[1].1@ == "application/json"@,
        request.body is Some,
        request.body->0@ == encode_utf8(
            "{\"authenticationTicket\":\""@ + secret + "\"}"@,
        ),
{
    reveal_strlit("authenticationTicket");
    reveal_strlit("{\"authenticationTicket\":\"");
    reveal_strlit("\"}");
    lemma_printable(secret);
    lemma_printable("authenticationTicket"@);
    assert(super::json_object("authenticationTicket"@, secret)
        =~= "{\"authenticationTicket\":\""@ + secret + "\"}"@);
}

/// Asking whose a session is sends the session, and nothing that was posted
/// before.
pub proof fn law_an_identity_is_asked_with_the_session_alone(
    request: super::Request,
    endpoint: Seq<char>,
    session: Seq<char>,
)
    requires
        super::identifies(request, endpoint, session),
    ensures
        request.endpoint@ == endpoint,
        request.headers@.len() == 1,
        request.headers@[0].0@ == "Cookie"@,
        request.headers@[0].1@ == session,
        request.body is None,
{
}

/// Where requests go and how long they may take.
pub proof fn law_requests_go_to_two_places()
    ensures
        super::REDEEM_ENDPOINT@ == "https://auth.roblox.com/v1/authentication-ticket/redeem"@,
        super::AUTHENTICATED_ENDPOINT@ == "https://users.roblox.com/v1/users/authenticated"@,
        super::TIMEOUT_SECONDS == 10,
        super::MAX_REDIRECTS == 0,
        super::MAX_REPLY_BYTES == 16 * 1024,
{
}

} // verus!
