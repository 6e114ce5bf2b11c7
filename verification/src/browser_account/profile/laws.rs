//! What a saved cookie store and a saved identity come to, said of them as they
//! are written.

use vstd::prelude::*;
use vstd::string::*;
use vstd::utf8::*;

use super::super::transport;
use crate::text;

verus! {

broadcast use vstd::string::group_string_axioms;

/// Lines as a store holds them, each ended by a newline.
pub open spec fn written(lines: Seq<Seq<char>>) -> Seq<char>
    decreases lines.len(),
{
    if lines.len() == 0 {
        Seq::empty()
    } else {
        lines[0] + seq!['\n'] + written(lines.skip(1))
    }
}

/// A line that can be written: it holds no newline and does not end in a
/// carriage return.
pub open spec fn is_line(line: Seq<char>) -> bool {
    !line.contains('\n') && (line.len() > 0 ==> line.last() != '\r')
}

/// The lines of a store are those that were written.
proof fn lemma_lines(lines: Seq<Seq<char>>)
    requires
        forall|i: int| 0 <= i < lines.len() ==> is_line(#[trigger] lines[i]),
    ensures
        text::lines(written(lines)) == lines,
    decreases lines.len(),
{
    if lines.len() > 0 {
        let rest = lines.skip(1);
        assert forall|i: int| 0 <= i < rest.len() implies is_line(#[trigger] rest[i]) by {
            assert(rest[i] == lines[i + 1]);
        }
        lemma_lines(rest);
        assert(is_line(lines[0]));
        text::law_a_text_is_read_line_by_line(lines[0], written(rest));
        assert(seq![lines[0]] + rest =~= lines);
    } else {
        text::law_a_text_is_read_line_by_line(Seq::<char>::empty(), Seq::<char>::empty());
        assert(lines =~= Seq::<Seq<char>>::empty());
    }
}

proof fn lemma_trimmed_start_keeps(s: Seq<char>, k: int)
    requires
        0 <= k < s.len(),
        !text::is_white(s[k]),
    ensures
        text::trimmed_start(s).len() > 0,
        !text::is_white(text::trimmed_start(s)[0]),
    decreases s.len(),
{
    if text::is_white(s[0]) {
        assert(s.skip(1)[k - 1] == s[k]);
        lemma_trimmed_start_keeps(s.skip(1), k - 1);
    }
}

proof fn lemma_trimmed_end_keeps(s: Seq<char>)
    requires
        s.len() > 0,
        !text::is_white(s[0]),
    ensures
        text::trimmed_end(s).len() > 0,
    decreases s.len(),
{
    if text::is_white(s.last()) {
        assert(s.drop_last()[0] == s[0]);
        lemma_trimmed_end_keeps(s.drop_last());
    }
}

/// A line is read unless it begins with a number sign or holds only white space.
pub proof fn law_comments_and_blank_lines_are_passed_over(line: Seq<char>)
    ensures
        line.len() > 0 && line[0] as int == 0x23 ==> !super::holds_cookies(line),
        (forall|i: int| 0 <= i < line.len() ==> text::is_white(#[trigger] line[i]))
            ==> !super::holds_cookies(line),
        (exists|i: int| 0 <= i < line.len() && !text::is_white(#[trigger] line[i])) && line[0] as int
            != 0x23 ==> super::holds_cookies(line),
{
    if forall|i: int| 0 <= i < line.len() ==> text::is_white(#[trigger] line[i]) {
        let none = Seq::<char>::empty();
        assert(line + none + none =~= line);
        text::law_trimming_takes_what_is_around(line, none, none);
    }
    if exists|i: int| 0 <= i < line.len() && !text::is_white(#[trigger] line[i]) {
        let k = choose|i: int| 0 <= i < line.len() && !text::is_white(#[trigger] line[i]);
        lemma_trimmed_start_keeps(line, k);
        lemma_trimmed_end_keeps(text::trimmed_start(line));
    }
}

/// The cookies of a line are what follows its first tab, however many follow it.
pub proof fn law_the_cookies_follow_the_first_tab(domain: Seq<char>, rest: Seq<char>)
    requires
        !domain.contains('\t'),
    ensures
        super::jar_of(domain + "\t"@ + rest) == Some(super::unescaped(rest)),
        super::jar_of(domain) is None,
{
    reveal_strlit("\t");
    let line = domain + "\t"@ + rest;
    assert(line =~= domain + seq!['\t'] + rest);
    text::law_the_first_has_none_before_it(domain, '\t', rest);
    assert(line.skip(domain.len() as int + 1) =~= rest);
}

/// A backslash and the letter after it stand for a tab, a newline or a carriage
/// return, two backslashes for one, and any other backslash for itself.
#[verifier::rlimit(40)]
pub proof fn law_escapes_are_taken_out_one_by_one(a: Seq<char>, c: char, b: Seq<char>)
    requires
        !a.contains('\\'),
    ensures
        super::unescaped(a) == a,
        super::unescaped(a + seq!['\\', '\\'] + b) == a + seq!['\\'] + super::unescaped(b),
        super::unescaped(a + seq!['\\', 't'] + b) == a + seq![0x9 as char] + super::unescaped(b),
        super::unescaped(a + seq!['\\', 'n'] + b) == a + seq![0xa as char] + super::unescaped(b),
        super::unescaped(a + seq!['\\', 'r'] + b) == a + seq![0xd as char] + super::unescaped(b),
        c != '\\' && c != 't' && c != 'n' && c != 'r' ==> super::unescaped(a + seq!['\\', c] + b)
            == a + seq!['\\', c] + super::unescaped(b),
        super::unescaped(a + seq!['\\']) == a + seq!['\\'],
    decreases a.len(),
{
    if a.len() == 0 {
        assert(a =~= Seq::<char>::empty());
        assert(super::unescaped(a) =~= a);
        let one = a + seq!['\\', '\\'] + b;
        assert(one.skip(2) =~= b);
        assert(super::unescaped(one) =~= a + seq!['\\'] + super::unescaped(b));
        let two = a + seq!['\\', 't'] + b;
        assert(two.skip(2) =~= b);
        assert(super::unescaped(two) =~= a + seq!['\t'] + super::unescaped(b));
        let three = a + seq!['\\', 'n'] + b;
        assert(three.skip(2) =~= b);
        assert(super::unescaped(three) =~= a + seq!['\n'] + super::unescaped(b));
        let four = a + seq!['\\', 'r'] + b;
        assert(four.skip(2) =~= b);
        assert(super::unescaped(four) =~= a + seq!['\r'] + super::unescaped(b));
        let five = a + seq!['\\', c] + b;
        assert(five.skip(2) =~= b);
        if c != '\\' && c != 't' && c != 'n' && c != 'r' {
            assert(super::unescaped(five) =~= a + seq!['\\', c] + super::unescaped(b));
        }
        assert(a + seq!['\\'] =~= seq!['\\']);
    } else {
        let rest = a.skip(1);
        let head = seq![a[0]];
        assert(a.contains(a[0]));
        assert(!rest.contains('\\')) by {
            if rest.contains('\\') {
                let i = choose|i: int| 0 <= i < rest.len() && rest[i] == '\\';
                assert(a[i + 1] == '\\');
            }
        }
        law_escapes_are_taken_out_one_by_one(rest, c, b);
        assert(head + rest =~= a);
        assert(super::unescaped(a) =~= a);
        lemma_plain_head(a, seq!['\\', '\\'] + b);
        lemma_plain_head(a, seq!['\\', 't'] + b);
        lemma_plain_head(a, seq!['\\', 'n'] + b);
        lemma_plain_head(a, seq!['\\', 'r'] + b);
        lemma_plain_head(a, seq!['\\', c] + b);
        lemma_plain_head(a, seq!['\\']);
        lemma_regroup(a, seq!['\\', '\\'], b);
        lemma_regroup(a, seq!['\\', 't'], b);
        lemma_regroup(a, seq!['\\', 'n'], b);
        lemma_regroup(a, seq!['\\', 'r'], b);
        lemma_regroup(a, seq!['\\', c], b);
        lemma_regroup(a, seq!['\\'], super::unescaped(b));
        lemma_regroup(a, seq!['\t'], super::unescaped(b));
        lemma_regroup(a, seq!['\n'], super::unescaped(b));
        lemma_regroup(a, seq!['\r'], super::unescaped(b));
        lemma_regroup(a, seq!['\\', c], super::unescaped(b));
        assert(a + seq!['\\'] =~= seq![a[0]] + (rest + seq!['\\']));
    }
}

proof fn lemma_regroup(a: Seq<char>, middle: Seq<char>, b: Seq<char>)
    requires
        a.len() > 0,
    ensures
        a + middle + b == a + (middle + b),
        a + middle + b == seq![a[0]] + (a.skip(1) + middle + b),
        a.skip(1) + middle + b == a.skip(1) + (middle + b),
{
    assert(a + middle + b =~= a + (middle + b));
    assert(a + middle + b =~= seq![a[0]] + (a.skip(1) + middle + b));
    assert(a.skip(1) + middle + b =~= a.skip(1) + (middle + b));
}

proof fn lemma_plain_head(a: Seq<char>, b: Seq<char>)
    requires
        a.len() > 0,
        a[0] != '\\',
    ensures
        super::unescaped(a + b) == seq![a[0]] + super::unescaped(a.skip(1) + b),
{
    let s = a + b;
    assert(s.skip(1) =~= a.skip(1) + b);
}

/// A cookie is the session exactly where its name, all that stands before the
/// first equals sign, is the session's; its value is all that follows it.
pub proof fn law_a_cookie_is_its_name_and_value(name: Seq<char>, value: Seq<char>)
    requires
        !name.contains('='),
    ensures
        super::session_value(".ROBLOSECURITY="@ + value) == Some(value),
        name != ".ROBLOSECURITY"@ ==> super::session_value(name + "="@ + value) is None,
        super::session_value(name) is None,
{
    reveal_strlit(".ROBLOSECURITY");
    reveal_strlit(".ROBLOSECURITY=");
    reveal_strlit("=");
    let session = ".ROBLOSECURITY"@;
    assert(!session.contains('='));
    text::law_the_first_has_none_before_it(session, '=', value);
    let pair = session + seq!['='] + value;
    assert(pair =~= ".ROBLOSECURITY="@ + value);
    assert(pair.take(session.len() as int) =~= session);
    assert(pair.skip(session.len() as int + 1) =~= value);
    text::law_the_first_has_none_before_it(name, '=', value);
    let other = name + seq!['='] + value;
    assert(other =~= name + "="@ + value);
    assert(other.take(name.len() as int) =~= name);
}

proof fn lemma_is_session(pair: Seq<char>, value: Seq<char>)
    ensures
        super::session_value(pair) == Some(value) <==> pair == ".ROBLOSECURITY="@ + value,
{
    reveal_strlit(".ROBLOSECURITY");
    reveal_strlit(".ROBLOSECURITY=");
    law_a_cookie_is_its_name_and_value(Seq::<char>::empty(), value);
    if super::session_value(pair) == Some(value) {
        text::lemma_first_from_found(pair, '=', 0);
        let at = text::first(pair, '=')->0;
        assert(pair =~= pair.take(at) + seq!['='] + pair.skip(at + 1));
        assert(pair =~= ".ROBLOSECURITY="@ + value);
    }
}

proof fn lemma_separated_head(list: Seq<Seq<char>>, separator: Seq<char>)
    requires
        list.len() >= 2,
    ensures
        text::separated(list, separator) == list[0] + separator + text::separated(
            list.skip(1),
            separator,
        ),
    decreases list.len(),
{
    let rest = list.skip(1);
    if list.len() == 2 {
        assert(list.drop_last()[0] == list[0]);
        assert(rest[0] == list.last());
        assert(text::separated(list.drop_last(), separator) == list[0]);
        assert(text::separated(rest, separator) == rest[0]);
    } else {
        let front = list.drop_last();
        lemma_separated_head(front, separator);
        assert(front.skip(1) =~= rest.drop_last());
        assert(rest.last() == list.last());
        assert(text::separated(list, separator) == text::separated(front, separator) + separator
            + list.last());
        assert(text::separated(rest, separator) == text::separated(rest.drop_last(), separator)
            + separator + rest.last());
        assert(list[0] + separator + text::separated(rest.drop_last(), separator) + separator
            + list.last() =~= list[0] + separator + (text::separated(rest.drop_last(), separator)
            + separator + list.last()));
    }
}

proof fn lemma_cut_where_separated(pieces: Seq<Seq<char>>)
    requires
        pieces.len() > 0,
        forall|j: int| 0 <= j < pieces.len() ==> !(#[trigger] pieces[j]).contains(';'),
    ensures
        text::split(text::separated(pieces, ";"@), ';') == pieces,
    decreases pieces.len(),
{
    reveal_strlit(";");
    assert(";"@ =~= seq![';']);
    assert(!pieces[0].contains(';'));
    if pieces.len() == 1 {
        text::law_a_text_is_cut_at_each_separator(pieces[0], ';', Seq::<char>::empty());
        assert(pieces =~= seq![pieces[0]]);
    } else {
        let rest = pieces.skip(1);
        assert forall|j: int| 0 <= j < rest.len() implies !(#[trigger] rest[j]).contains(';') by {
            assert(rest[j] == pieces[j + 1]);
        }
        lemma_cut_where_separated(rest);
        lemma_separated_head(pieces, ";"@);
        text::law_a_text_is_cut_at_each_separator(pieces[0], ';', text::separated(rest, ";"@));
        assert(seq![pieces[0]] + rest =~= pieces);
    }
}

/// The cookies of a line are what semicolons separate, without the white space
/// around each; one of them is the session exactly where it is the session's
/// name, an equals sign and a value.
#[verifier::rlimit(40)]
pub proof fn law_a_line_sets_what_its_cookies_are(
    domain: Seq<char>,
    tail: Seq<char>,
    pieces: Seq<Seq<char>>,
    j: int,
    value: Seq<char>,
)
    requires
        domain.len() > 0,
        domain[0] != '#',
        !text::is_white(domain[0]),
        !domain.contains('\t'),
        pieces.len() > 0,
        forall|k: int| 0 <= k < pieces.len() ==> !(#[trigger] pieces[k]).contains(';'),
        super::unescaped(tail) == text::separated(pieces, ";"@),
    ensures
        super::line_sets(domain + "\t"@ + tail, j, value) <==> 0 <= j < pieces.len()
            && text::trimmed(pieces[j]) == ".ROBLOSECURITY="@ + value,
{
    let line = domain + "\t"@ + tail;
    reveal_strlit("\t");
    assert(line[0] == domain[0]);
    law_comments_and_blank_lines_are_passed_over(line);
    assert(super::holds_cookies(line));
    law_the_cookies_follow_the_first_tab(domain, tail);
    lemma_cut_where_separated(pieces);
    if 0 <= j < pieces.len() {
        lemma_is_session(text::trimmed(pieces[j]), value);
    }
}

/// Cookies with a space before each but the first.
spec fn spaced(cookies: Seq<Seq<char>>) -> Seq<Seq<char>> {
    Seq::new(
        cookies.len(),
        |j: int|
            if j == 0 {
                cookies[j]
            } else {
                seq![' '] + cookies[j]
            },
    )
}

proof fn lemma_spaced(cookies: Seq<Seq<char>>)
    ensures
        text::separated(spaced(cookies), ";"@) == text::separated(cookies, "; "@),
    decreases cookies.len(),
{
    reveal_strlit(";");
    reveal_strlit("; ");
    if cookies.len() >= 2 {
        let front = cookies.drop_last();
        lemma_spaced(front);
        assert(spaced(cookies).drop_last() =~= spaced(front));
        assert(text::separated(front, "; "@) + ";"@ + (seq![' '] + cookies.last())
            =~= text::separated(front, "; "@) + "; "@ + cookies.last());
    }
}

proof fn lemma_separated_without(list: Seq<Seq<char>>, separator: Seq<char>, c: char)
    requires
        forall|j: int| 0 <= j < list.len() ==> !(#[trigger] list[j]).contains(c),
        !separator.contains(c),
    ensures
        !text::separated(list, separator).contains(c),
    decreases list.len(),
{
    if list.len() >= 2 {
        let front = list.drop_last();
        assert forall|j: int| 0 <= j < front.len() implies !(#[trigger] front[j]).contains(c) by {
            assert(front[j] == list[j]);
        }
        lemma_separated_without(front, separator, c);
        assert(!list[list.len() - 1].contains(c));
        let a = text::separated(front, separator);
        let s = a + separator + list.last();
        if s.contains(c) {
            let i = choose|i: int| 0 <= i < s.len() && s[i] == c;
            if i < a.len() {
                assert(a.contains(a[i]));
            } else if i < a.len() + separator.len() {
                assert(separator.contains(separator[i - a.len()]));
            } else {
                assert(list.last().contains(list.last()[i - a.len() - separator.len()]));
            }
        }
    } else if list.len() == 1 {
        assert(!list[0].contains(c));
    }
}

proof fn lemma_separated_last(list: Seq<Seq<char>>, separator: Seq<char>)
    requires
        list.len() > 0,
        list.last().len() > 0,
    ensures
        text::separated(list, separator).len() > 0,
        text::separated(list, separator).last() == list.last().last(),
{
}

/// A cookie as it stands between separators: it holds none, nor an escape or a
/// newline, and no white space is around it.
pub open spec fn is_plain_cookie(cookie: Seq<char>) -> bool {
    &&& cookie.len() > 0
    &&& !text::is_white(cookie[0])
    &&& !text::is_white(cookie.last())
    &&& !cookie.contains(';')
    &&& !cookie.contains('\\')
    &&& !cookie.contains('\n')
}

/// The session's place among the cookies of a line does not decide whether it is
/// found: a line that sets it, first, last or between others, sets just it.
#[verifier::rlimit(40)]
pub proof fn law_the_place_of_a_cookie_does_not_decide(
    domain: Seq<char>,
    cookies: Seq<Seq<char>>,
    j: int,
    value: Seq<char>,
)
    requires
        domain.len() > 0,
        domain[0] != '#',
        !text::is_white(domain[0]),
        !domain.contains('\t'),
        cookies.len() > 0,
        forall|k: int| 0 <= k < cookies.len() ==> is_plain_cookie(#[trigger] cookies[k]),
    ensures
        super::line_sets(domain + "\t"@ + text::separated(cookies, "; "@), j, value) <==> 0 <= j
            < cookies.len() && cookies[j] == ".ROBLOSECURITY="@ + value,
{
    reveal_strlit("; ");
    let tail = text::separated(cookies, "; "@);
    let pieces = spaced(cookies);
    lemma_spaced(cookies);
    assert forall|k: int| 0 <= k < cookies.len() implies !(#[trigger] cookies[k]).contains('\\') by {
        assert(is_plain_cookie(cookies[k]));
    }
    lemma_separated_without(cookies, "; "@, '\\');
    law_escapes_are_taken_out_one_by_one(tail, 'a', Seq::<char>::empty());
    assert forall|k: int| 0 <= k < pieces.len() implies !(#[trigger] pieces[k]).contains(';') by {
        assert(is_plain_cookie(cookies[k]));
        if pieces[k].contains(';') {
            let i = choose|i: int| 0 <= i < pieces[k].len() && pieces[k][i] == ';';
            if k == 0 {
                assert(cookies[k].contains(cookies[k][i]));
            } else {
                assert(cookies[k].contains(cookies[k][i - 1]));
            }
        }
    }
    if 0 <= j < cookies.len() {
        assert(is_plain_cookie(cookies[j]));
        let none = Seq::<char>::empty();
        if j == 0 {
            assert(none + cookies[0] + none =~= cookies[0]);
            text::law_trimming_takes_what_is_around(none, cookies[0], none);
        } else {
            assert(seq![' '] + cookies[j] + none =~= pieces[j]);
            text::law_trimming_takes_what_is_around(seq![' '], cookies[j], none);
        }
        assert(text::trimmed(pieces[j]) == cookies[j]);
    }
    law_a_line_sets_what_its_cookies_are(domain, tail, pieces, j, value);
}

/// A store that is written line by line has the session that its lines set,
/// where every line that is read holds a tab and all that set it agree.
#[verifier::rlimit(40)]
pub proof fn law_a_store_has_the_session_its_lines_set(
    lines: Seq<Seq<char>>,
    i: int,
    j: int,
    value: Seq<char>,
)
    requires
        forall|k: int| 0 <= k < lines.len() ==> is_line(#[trigger] lines[k]),
        forall|k: int|
            0 <= k < lines.len() && super::holds_cookies(#[trigger] lines[k])
                ==> lines[k].contains('\t'),
        0 <= i < lines.len(),
        super::line_sets(lines[i], j, value),
        forall|k: int, l: int, other: Seq<char>|
            0 <= k < lines.len() && #[trigger] super::line_sets(lines[k], l, other) ==> other
                == value,
        transport::is_session_value(value),
    ensures
        super::session_in_store(encode_utf8(written(lines))) == Some(".ROBLOSECURITY="@ + value),
{
    let all = written(lines);
    encode_utf8_valid_utf8(all);
    encode_utf8_decode_utf8(all);
    lemma_lines(lines);
    assert forall|k: int|
        0 <= k < lines.len() && super::holds_cookies(#[trigger] lines[k]) implies super::jar_of(
        lines[k],
    ) is Some by {
        lemma_has_first(lines[k], '\t');
    }
    assert(super::sets(lines, i, j, value));
    assert(super::is_session_of(lines, value)) by {
        assert forall|k: int, l: int, other: Seq<char>| #[trigger]
            super::sets(lines, k, l, other) implies other == value by {
            assert(super::line_sets(lines[k], l, other));
        }
    }
    super::lemma_session_of_store(encode_utf8(all), value);
}

proof fn lemma_has_first(s: Seq<char>, c: char)
    requires
        s.contains(c),
    ensures
        text::first(s, c) is Some,
    decreases s.len(),
{
    if s[0] == c {
        assert(text::is_first_from(s, c, 0, 0));
    } else {
        let i = choose|i: int| 0 <= i < s.len() && s[i] == c;
        let before = s.take(i);
        if before.contains(c) {
            lemma_has_first(before, c);
            text::lemma_first_from_found(before, c, 0);
            let at = text::first(before, c)->0;
            assert(forall|k: int| 0 <= k < at ==> before[k] == s[k]);
            assert(text::is_first_from(s, c, 0, at));
        } else {
            assert forall|k: int| 0 <= k < i implies s[k] != c by {
                assert(before[k] == s[k]);
                if s[k] == c {
                    assert(before.contains(before[k]));
                }
            }
            assert(text::is_first_from(s, c, 0, i));
        }
    }
}

/// A store whose one line is a domain, a tab and cookies separated by semicolons
/// and spaces has the session that one of them sets, whichever it is, with a
/// newline after the line or none.
#[verifier::rlimit(40)]
pub proof fn law_a_store_of_one_line_has_its_session(
    domain: Seq<char>,
    cookies: Seq<Seq<char>>,
    k: int,
    value: Seq<char>,
)
    requires
        domain.len() > 0,
        domain[0] != '#',
        !text::is_white(domain[0]),
        !domain.contains('\t'),
        !domain.contains('\n'),
        0 <= k < cookies.len(),
        forall|l: int| 0 <= l < cookies.len() ==> is_plain_cookie(#[trigger] cookies[l]),
        cookies[k] == ".ROBLOSECURITY="@ + value,
        forall|l: int|
            0 <= l < cookies.len() && text::begins_with(#[trigger] cookies[l], ".ROBLOSECURITY="@)
                ==> cookies[l] == cookies[k],
        forall|i: int|
            #![trigger value[i]]
            0 <= i < value.len() ==> 0x21 <= value[i] as int <= 0x7e && value[i] as int != 0x22
                && value[i] as int != 0x2c && value[i] as int != 0x3b && value[i] as int != 0x5c,
        value.len() > 0,
    ensures
        super::session_in_store(
            encode_utf8(domain + "\t"@ + text::separated(cookies, "; "@) + "\n"@),
        ) == Some(".ROBLOSECURITY="@ + value),
        super::session_in_store(encode_utf8(domain + "\t"@ + text::separated(cookies, "; "@)))
            == Some(".ROBLOSECURITY="@ + value),
{
    reveal_strlit("\t");
    reveal_strlit("\n");
    reveal_strlit("; ");
    transport::laws::law_a_session_value_by_its_codes(value);
    let tail = text::separated(cookies, "; "@);
    let line = domain + "\t"@ + tail;
    assert forall|l: int| 0 <= l < cookies.len() implies !(#[trigger] cookies[l]).contains('\n') by {
        assert(is_plain_cookie(cookies[l]));
    }
    lemma_separated_without(cookies, "; "@, '\n');
    assert(is_plain_cookie(cookies[cookies.len() - 1]));
    lemma_separated_last(cookies, "; "@);
    assert(line.last() == tail.last());
    assert(!line.contains('\n')) by {
        if line.contains('\n') {
            let i = choose|i: int| 0 <= i < line.len() && line[i] == '\n';
            if i < domain.len() {
                assert(domain.contains(domain[i]));
            } else if i > domain.len() {
                assert(tail.contains(tail[i - domain.len() - 1]));
            }
        }
    }
    let lines = seq![line];
    assert(is_line(line));
    assert(line.contains('\t')) by {
        assert(line[domain.len() as int] == '\t');
    }
    law_the_place_of_a_cookie_does_not_decide(domain, cookies, k, value);
    assert forall|n: int, l: int, other: Seq<char>|
        0 <= n < lines.len() && #[trigger] super::line_sets(lines[n], l, other) implies other
        == value by {
        law_the_place_of_a_cookie_does_not_decide(domain, cookies, l, other);
        assert(cookies[l].take(".ROBLOSECURITY="@.len() as int) =~= ".ROBLOSECURITY="@);
        assert(".ROBLOSECURITY="@ + other == ".ROBLOSECURITY="@ + value);
        assert(other =~= (".ROBLOSECURITY="@ + other).skip(".ROBLOSECURITY="@.len() as int));
        assert(value =~= (".ROBLOSECURITY="@ + value).skip(".ROBLOSECURITY="@.len() as int));
    }
    law_a_store_has_the_session_its_lines_set(lines, 0, k, value);
    assert(lines.skip(1) =~= Seq::<Seq<char>>::empty());
    assert(written(lines.skip(1)) =~= Seq::<char>::empty());
    assert(written(lines) =~= domain + "\t"@ + tail + "\n"@);
    text::law_a_text_is_read_line_by_line(line, Seq::<char>::empty());
    encode_utf8_valid_utf8(line);
    encode_utf8_decode_utf8(line);
    assert(text::lines(line) == lines);
    assert(super::sets(lines, 0, k, value));
    lemma_has_first(line, '\t');
    assert(super::is_session_of(lines, value)) by {
        assert forall|n: int, l: int, other: Seq<char>| #[trigger]
            super::sets(lines, n, l, other) implies other == value by {
            assert(super::line_sets(lines[n], l, other));
        }
    }
    super::lemma_session_of_store(encode_utf8(line), value);
}

/// The session is found after another cookie, before one, and alone.
#[verifier::rlimit(40)]
pub proof fn law_another_cookie_beside_the_session_says_nothing(
    domain: Seq<char>,
    other: Seq<char>,
    value: Seq<char>,
)
    requires
        domain.len() > 0,
        domain[0] != '#',
        !text::is_white(domain[0]),
        !domain.contains('\t'),
        !domain.contains('\n'),
        is_plain_cookie(other),
        !text::begins_with(other, ".ROBLOSECURITY="@),
        value.len() > 0,
        forall|i: int|
            #![trigger value[i]]
            0 <= i < value.len() ==> 0x21 <= value[i] as int <= 0x7e && value[i] as int != 0x22
                && value[i] as int != 0x2c && value[i] as int != 0x3b && value[i] as int != 0x5c,
    ensures
        super::session_in_store(
            encode_utf8(domain + "\t"@ + other + "; "@ + ".ROBLOSECURITY="@ + value + "\n"@),
        ) == Some(".ROBLOSECURITY="@ + value),
        super::session_in_store(
            encode_utf8(domain + "\t"@ + ".ROBLOSECURITY="@ + value + "; "@ + other + "\n"@),
        ) == Some(".ROBLOSECURITY="@ + value),
        super::session_in_store(
            encode_utf8(domain + "\t"@ + ".ROBLOSECURITY="@ + value + "\n"@),
        ) == Some(".ROBLOSECURITY="@ + value),
{
    let pair = ".ROBLOSECURITY="@ + value;
    lemma_session_is_plain(value);
    lemma_two_cookies(domain, other, pair, 1, value);
    lemma_two_cookies(domain, pair, other, 0, value);
    let alone = seq![pair];
    assert(alone[0] == pair);
    law_a_store_of_one_line_has_its_session(domain, alone, 0, value);
    assert(text::separated(alone, "; "@) == pair);
    lemma_grouped(domain + "\t"@, other + "; "@, ".ROBLOSECURITY="@, value, "\n"@);
    assert(other + "; "@ + pair =~= other + "; "@ + (".ROBLOSECURITY="@ + value));
    assert(domain + "\t"@ + (other + "; "@) =~= domain + "\t"@ + other + "; "@);
    assert(domain + "\t"@ + (pair + "; "@ + other) + "\n"@ =~= domain + "\t"@ + ".ROBLOSECURITY="@
        + value + "; "@ + other + "\n"@);
    assert(domain + "\t"@ + pair + "\n"@ =~= domain + "\t"@ + ".ROBLOSECURITY="@ + value + "\n"@);
}

proof fn lemma_grouped(
    a: Seq<char>,
    b: Seq<char>,
    c: Seq<char>,
    d: Seq<char>,
    e: Seq<char>,
)
    ensures
        a + (b + (c + d)) + e == a + b + c + d + e,
{
    assert(a + (b + (c + d)) + e =~= a + b + c + d + e);
}

#[verifier::rlimit(40)]
proof fn lemma_two_cookies(
    domain: Seq<char>,
    first: Seq<char>,
    second: Seq<char>,
    k: int,
    value: Seq<char>,
)
    requires
        domain.len() > 0,
        domain[0] != '#',
        !text::is_white(domain[0]),
        !domain.contains('\t'),
        !domain.contains('\n'),
        is_plain_cookie(first),
        is_plain_cookie(second),
        k == 0 || k == 1,
        (if k == 0 {
            first
        } else {
            second
        }) == ".ROBLOSECURITY="@ + value,
        !text::begins_with(
            if k == 0 {
                second
            } else {
                first
            },
            ".ROBLOSECURITY="@,
        ),
        value.len() > 0,
        forall|i: int|
            #![trigger value[i]]
            0 <= i < value.len() ==> 0x21 <= value[i] as int <= 0x7e && value[i] as int != 0x22
                && value[i] as int != 0x2c && value[i] as int != 0x3b && value[i] as int != 0x5c,
    ensures
        super::session_in_store(
            encode_utf8(domain + "\t"@ + (first + "; "@ + second) + "\n"@),
        ) == Some(".ROBLOSECURITY="@ + value),
{
    let cookies = seq![first, second];
    assert(cookies[0] == first && cookies[1] == second);
    assert(cookies.drop_last() =~= seq![first]);
    text::law_texts_are_put_together_in_order(seq![first], first, "; "@);
    assert(text::separated(cookies, "; "@) == first + "; "@ + second);
    law_a_store_of_one_line_has_its_session(domain, cookies, k, value);
}

proof fn lemma_session_is_plain(value: Seq<char>)
    requires
        value.len() > 0,
        forall|i: int|
            #![trigger value[i]]
            0 <= i < value.len() ==> 0x21 <= value[i] as int <= 0x7e && value[i] as int != 0x22
                && value[i] as int != 0x2c && value[i] as int != 0x3b && value[i] as int != 0x5c,
    ensures
        is_plain_cookie(".ROBLOSECURITY="@ + value),
{
    reveal_strlit(".ROBLOSECURITY=");
    let name = ".ROBLOSECURITY="@;
    let pair = name + value;
    assert(forall|i: int| 0 <= i < name.len() ==> name[i] != ';' && name[i] != '\\' && name[i]
        != '\n');
    assert forall|i: int| 0 <= i < pair.len() implies #[trigger] pair[i] != ';' && pair[i] != '\\'
        && pair[i] != '\n' by {
        if i >= 15 {
            assert(pair[i] == value[i - 15]);
        } else {
            assert(pair[i] == name[i]);
        }
    }
    assert(pair.last() == value[value.len() - 1]);
    assert(!text::is_white(pair.last()));
    assert(pair[0] == '.');
}

/// A store holds no session where a line that is read holds no tab, where two
/// cookies give it different values, where one gives it a value no session has,
/// or where none is set.
#[verifier::rlimit(40)]
pub proof fn law_a_spoilt_store_has_no_session(lines: Seq<Seq<char>>)
    requires
        forall|k: int| 0 <= k < lines.len() ==> is_line(#[trigger] lines[k]),
    ensures
        (exists|k: int|
            0 <= k < lines.len() && super::holds_cookies(#[trigger] lines[k])
                && !lines[k].contains('\t')) ==> super::session_in_store(
            encode_utf8(written(lines)),
        ) is None,
        (exists|k: int, j: int, one: Seq<char>, l: int, n: int, other: Seq<char>|
            0 <= k < lines.len() && 0 <= l < lines.len() && #[trigger] super::line_sets(
                lines[k],
                j,
                one,
            ) && #[trigger] super::line_sets(lines[l], n, other) && one != other)
            ==> super::session_in_store(encode_utf8(written(lines))) is None,
        (exists|k: int, j: int, value: Seq<char>|
            0 <= k < lines.len() && #[trigger] super::line_sets(lines[k], j, value)
                && !transport::is_session_value(value)) ==> super::session_in_store(
            encode_utf8(written(lines)),
        ) is None,
        (forall|k: int, j: int, value: Seq<char>|
            0 <= k < lines.len() ==> !#[trigger] super::line_sets(lines[k], j, value))
            ==> super::session_in_store(encode_utf8(written(lines))) is None,
{
    let all = written(lines);
    encode_utf8_valid_utf8(all);
    encode_utf8_decode_utf8(all);
    lemma_lines(lines);
    if exists|k: int|
        0 <= k < lines.len() && super::holds_cookies(#[trigger] lines[k]) && !lines[k].contains(
            '\t',
        ) {
        let k = choose|k: int|
            0 <= k < lines.len() && super::holds_cookies(#[trigger] lines[k])
                && !lines[k].contains('\t');
        text::law_the_first_has_none_before_it(lines[k], '\t', Seq::<char>::empty());
        assert(super::jar_of(lines[k]) is None);
    }
    if exists|k: int, j: int, one: Seq<char>, l: int, n: int, other: Seq<char>|
        0 <= k < lines.len() && 0 <= l < lines.len() && #[trigger] super::line_sets(lines[k], j, one)
            && #[trigger] super::line_sets(lines[l], n, other) && one != other {
        let (k, j, one, l, n, other) = choose|
            k: int,
            j: int,
            one: Seq<char>,
            l: int,
            n: int,
            other: Seq<char>,
        |
            0 <= k < lines.len() && 0 <= l < lines.len() && #[trigger] super::line_sets(
                lines[k],
                j,
                one,
            ) && #[trigger] super::line_sets(lines[l], n, other) && one != other;
        assert(super::sets(lines, k, j, one));
        assert(super::sets(lines, l, n, other));
    }
    if exists|k: int, j: int, value: Seq<char>|
        0 <= k < lines.len() && #[trigger] super::line_sets(lines[k], j, value)
            && !transport::is_session_value(value) {
        let (k, j, value) = choose|k: int, j: int, value: Seq<char>|
            0 <= k < lines.len() && #[trigger] super::line_sets(lines[k], j, value)
                && !transport::is_session_value(value);
        assert(super::sets(lines, k, j, value));
    }
    if forall|k: int, j: int, value: Seq<char>|
        0 <= k < lines.len() ==> !#[trigger] super::line_sets(lines[k], j, value) {
        assert forall|value: Seq<char>| !super::is_session_of(lines, value) by {
            assert forall|k: int, j: int| !#[trigger] super::sets(lines, k, j, value) by {
            }
        }
    }
}

/// Bytes that are not text hold no session.
pub proof fn law_a_store_is_text(bytes: Seq<u8>)
    requires
        !valid_utf8(bytes),
    ensures
        super::session_in_store(bytes) is None,
{
}

/// An identity names an account only where it is of the one version that is
/// understood and of that very account.
pub proof fn law_an_identity_is_of_the_version_that_is_understood(
    saved: super::SavedIdentity,
    account: transport::AccountId,
)
    ensures
        super::names_account(Some(saved), account) <==> saved.schema == 1 && saved.user_id
            == account,
        !super::names_account(None, account),
{
}

/// A profile matches where everything about it does, and nowhere else.
pub proof fn law_a_match_is_a_match_in_everything(query: super::ProfileQuery, seen: super::Seen)
    ensures
        super::is_match(query, seen) <==> (seen.is_dir && seen.name is Some
            && crate::profile::valid_name(seen.name->0@) && seen.identity is Some
            && seen.saved is Some && seen.saved->0.schema == 1 && seen.saved->0.user_id
            == query.account && seen.cookies is Some && super::session_in_store(
            seen.cookies->0@,
        ) is Some && seen.account == Some(query.account) && seen.identity_after is Some
            && seen.identity_after->0@ == seen.identity->0@ && seen.cookies_after is Some
            && seen.cookies_after->0@ == seen.cookies->0@),
{
}

/// How much is read of what a profile saved.
pub proof fn law_little_is_read_of_a_profile()
    ensures
        super::MAX_IDENTITY_BYTES == 16 * 1024,
        super::MAX_COOKIE_BYTES == 1024 * 1024,
{
}

} // verus!
