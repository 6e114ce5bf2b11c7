//! Text as sequences of characters: searching, cutting, joining and comparing.

use vstd::prelude::*;
use vstd::string::*;
use vstd::utf8::*;

verus! {

/// `String::push` appends one character.
pub assume_specification[ String::push ](s: &mut String, c: char)
    ensures
        final(s)@ == old(s)@.push(c),
;

/// `i` is the first position at or after `from` that holds `c`.
pub open spec fn is_first_from(s: Seq<char>, c: char, from: int, i: int) -> bool {
    &&& from <= i < s.len()
    &&& s[i] == c
    &&& forall|j: int| from <= j < i ==> s[j] != c
}

/// The first position at or after `from` that holds `c`.
pub open spec fn first_from(s: Seq<char>, c: char, from: int) -> Option<int> {
    if exists|i: int| is_first_from(s, c, from, i) {
        Some(choose|i: int| is_first_from(s, c, from, i))
    } else {
        None
    }
}

/// The first position of `c`.
pub open spec fn first(s: Seq<char>, c: char) -> Option<int> {
    first_from(s, c, 0)
}

/// The first position is the only position that is first.
pub proof fn lemma_first_from(s: Seq<char>, c: char, from: int, i: int)
    requires
        is_first_from(s, c, from, i),
    ensures
        first_from(s, c, from) == Some(i),
{
    let k = choose|k: int| is_first_from(s, c, from, k);
    assert(is_first_from(s, c, from, k));
    assert(k == i);
}

/// Nothing is found where no position holds the character.
pub proof fn lemma_first_from_none(s: Seq<char>, c: char, from: int)
    requires
        forall|j: int| from <= j < s.len() ==> s[j] != c,
    ensures
        first_from(s, c, from) is None,
{
}

/// What a found position says of the text around it.
pub proof fn lemma_first_from_found(s: Seq<char>, c: char, from: int)
    ensures
        match first_from(s, c, from) {
            Some(i) => is_first_from(s, c, from, i),
            None => 0 <= from ==> forall|j: int| from <= j < s.len() ==> s[j] != c,
        },
{
    if 0 <= from && exists|j: int| from <= j < s.len() && s[j] == c {
        let j = choose|j: int| from <= j < s.len() && s[j] == c;
        lemma_some_first(s, c, from, j);
    }
}

proof fn lemma_some_first(s: Seq<char>, c: char, from: int, j: int)
    requires
        0 <= from <= j < s.len(),
        s[j] == c,
    ensures
        exists|i: int| is_first_from(s, c, from, i),
    decreases j - from,
{
    if s[from] == c {
        assert(is_first_from(s, c, from, from));
    } else {
        let next = from + 1;
        lemma_some_first(s, c, next, j);
        let i = choose|i: int| is_first_from(s, c, next, i);
        assert(is_first_from(s, c, from, i));
    }
}

/// Searching the rest of a text is searching from where the rest begins.
pub proof fn lemma_first_of_rest(s: Seq<char>, c: char, n: int)
    requires
        0 <= n <= s.len(),
    ensures
        first(s.skip(n), c) == (match first_from(s, c, n) {
            Some(i) => Some(i - n),
            None => None::<int>,
        }),
{
    lemma_first_from_found(s, c, n);
    match first_from(s, c, n) {
        Some(i) => {
            assert(is_first_from(s.skip(n), c, 0, i - n));
            lemma_first_from(s.skip(n), c, 0, i - n);
        },
        None => {
            assert forall|j: int| 0 <= j < s.skip(n).len() implies s.skip(n)[j] != c by {
                assert(s.skip(n)[j] == s[j + n]);
            }
            lemma_first_from_none(s.skip(n), c, 0);
        },
    }
}

/// The characters of a text.
pub fn chars_of(s: &str) -> (v: Vec<char>)
    ensures
        v@ == s@,
{
    let mut v: Vec<char> = Vec::new();
    for c in it: s.chars()
        invariant
            it.seq() == s@,
            v@ == s@.take(it.index()),
    {
        v.push(c);
        assert(v@ =~= s@.take(it.index() + 1));
    }
    assert(v@ =~= s@);
    v
}

/// The text between two positions.
pub fn text_between(chars: &Vec<char>, from: usize, to: usize) -> (s: String)
    requires
        from <= to <= chars@.len(),
    ensures
        s@ == chars@.subrange(from as int, to as int),
{
    let mut s = String::new();
    let mut i: usize = from;
    while i < to
        invariant
            from <= i <= to <= chars@.len(),
            s@ == chars@.subrange(from as int, i as int),
        decreases to - i,
    {
        s.push(chars[i]);
        i = i + 1;
        assert(s@ =~= chars@.subrange(from as int, i as int));
    }
    s
}

/// The first position at or after `from` that holds `c`.
pub fn find_from(chars: &Vec<char>, c: char, from: usize) -> (found: Option<usize>)
    requires
        from <= chars@.len(),
    ensures
        match found {
            Some(i) => first_from(chars@, c, from as int) == Some(i as int) && is_first_from(
                chars@,
                c,
                from as int,
                i as int,
            ),
            None => first_from(chars@, c, from as int) is None && forall|j: int|
                from <= j < chars@.len() ==> chars@[j] != c,
        },
{
    let mut i: usize = from;
    while i < chars.len()
        invariant
            from <= i <= chars@.len(),
            forall|j: int| from <= j < i ==> chars@[j] != c,
        decreases chars@.len() - i,
    {
        if chars[i] == c {
            proof {
                lemma_first_from(chars@, c, from as int, i as int);
            }
            return Some(i);
        }
        i = i + 1;
    }
    None
}

/// Texts with the same bytes are the same text.
pub proof fn lemma_same_bytes(a: Seq<char>, b: Seq<char>)
    requires
        encode_utf8(a) == encode_utf8(b),
    ensures
        a == b,
{
    encode_utf8_decode_utf8(a);
    encode_utf8_decode_utf8(b);
}

/// Whether two byte strings are equal.
pub fn same_bytes(a: &[u8], b: &[u8]) -> (same: bool)
    ensures
        same == (a@ == b@),
{
    if a.len() != b.len() {
        return false;
    }
    let mut i: usize = 0;
    while i < a.len()
        invariant
            a@.len() == b@.len(),
            0 <= i <= a@.len(),
            forall|j: int| 0 <= j < i ==> a@[j] == b@[j],
        decreases a@.len() - i,
    {
        if a[i] != b[i] {
            return false;
        }
        i = i + 1;
    }
    assert(a@ =~= b@);
    true
}

/// Whether two texts are equal.
pub fn same_text(a: &str, b: &str) -> (same: bool)
    ensures
        same == (a@ == b@),
{
    let same = same_bytes(a.as_bytes(), b.as_bytes());
    proof {
        if same {
            lemma_same_bytes(a@, b@);
        }
    }
    same
}

/// A character as ASCII lower case.
pub open spec fn ascii_lower(c: char) -> char {
    if 'A' <= c <= 'Z' {
        ((c as u8) + 32) as char
    } else {
        c
    }
}

/// A text with its ASCII letters in lower case.
pub open spec fn ascii_lowered(s: Seq<char>) -> Seq<char> {
    s.map_values(|c: char| ascii_lower(c))
}

/// A character as ASCII lower case.
pub fn to_ascii_lower(c: char) -> (lower: char)
    ensures
        lower == ascii_lower(c),
{
    if 'A' <= c && c <= 'Z' {
        ((c as u8) + 32) as char
    } else {
        c
    }
}

/// Whether `chars[from..to]`, in lower case, is `word`.
pub fn lowers_to(chars: &Vec<char>, from: usize, to: usize, word: &str) -> (same: bool)
    requires
        from <= to <= chars@.len(),
    ensures
        same == (ascii_lowered(chars@.subrange(from as int, to as int)) == word@),
{
    let mut lowered = String::new();
    let mut i: usize = from;
    while i < to
        invariant
            from <= i <= to <= chars@.len(),
            lowered@ == ascii_lowered(chars@.subrange(from as int, i as int)),
        decreases to - i,
    {
        lowered.push(to_ascii_lower(chars[i]));
        i = i + 1;
        assert(chars@.subrange(from as int, i as int) =~= chars@.subrange(
            from as int,
            i - 1,
        ).push(chars@[i - 1]));
        assert(lowered@ =~= ascii_lowered(chars@.subrange(from as int, i as int)));
    }
    same_text(lowered.as_str(), word)
}

/// Printable ASCII without the space.
pub open spec fn is_graphic(c: char) -> bool {
    '!' <= c <= '~'
}

/// Every character is printable ASCII other than the space.
pub open spec fn all_graphic(s: Seq<char>) -> bool {
    forall|i: int| 0 <= i < s.len() ==> is_graphic(#[trigger] s[i])
}

/// Whether every character is printable ASCII other than the space.
pub fn is_all_graphic(chars: &Vec<char>) -> (all: bool)
    ensures
        all == all_graphic(chars@),
{
    let mut i: usize = 0;
    while i < chars.len()
        invariant
            0 <= i <= chars@.len(),
            forall|j: int| 0 <= j < i ==> is_graphic(#[trigger] chars@[j]),
        decreases chars@.len() - i,
    {
        let c = chars[i];
        if !('!' <= c && c <= '~') {
            return false;
        }
        i = i + 1;
    }
    true
}

/// Printable ASCII takes one byte a character.
pub proof fn lemma_graphic_bytes(s: Seq<char>)
    requires
        all_graphic(s),
    ensures
        encode_utf8(s).len() == s.len(),
        is_ascii_chars(s),
{
    is_ascii_chars_encode_utf8(s);
}

/// A number in decimal.
pub open spec fn decimal(n: nat) -> Seq<char>
    decreases n,
{
    if n < 10 {
        seq![(('0' as u8) + n) as char]
    } else {
        decimal(n / 10).push((('0' as u8) + n % 10) as char)
    }
}

/// A number in decimal.
pub fn to_decimal(n: u64) -> (s: String)
    ensures
        s@ == decimal(n as nat),
    decreases n,
{
    let digit: u8 = 48 + (n % 10) as u8;
    let mut s = if n < 10 {
        String::new()
    } else {
        to_decimal(n / 10)
    };
    s.push(digit as char);
    assert(s@ =~= decimal(n as nat));
    s
}

/// The character for a number below sixteen, in lower case.
pub open spec fn hex_char(n: int) -> char {
    if n < 10 {
        (0x30 + n) as char
    } else {
        (0x57 + n) as char
    }
}

/// Whether a text begins with another.
pub open spec fn begins_with(s: Seq<char>, prefix: Seq<char>) -> bool {
    prefix.len() <= s.len() && s.take(prefix.len() as int) == prefix
}

/// Whether a text begins with another.
pub fn has_prefix(chars: &Vec<char>, prefix: &Vec<char>) -> (begins: bool)
    ensures
        begins == begins_with(chars@, prefix@),
{
    if chars.len() < prefix.len() {
        return false;
    }
    let mut i: usize = 0;
    while i < prefix.len()
        invariant
            0 <= i <= prefix@.len() <= chars@.len(),
            forall|j: int| 0 <= j < i ==> chars@[j] == prefix@[j],
        decreases prefix@.len() - i,
    {
        if chars[i] != prefix[i] {
            assert(chars@.take(prefix@.len() as int)[i as int] != prefix@[i as int]);
            return false;
        }
        i = i + 1;
    }
    assert(chars@.take(prefix@.len() as int) =~= prefix@);
    true
}

/// Whether a text ends with another.
pub open spec fn ends_with(s: Seq<char>, suffix: Seq<char>) -> bool {
    suffix.len() <= s.len() && s.skip(s.len() - suffix.len()) == suffix
}

/// Whether a text ends with another.
pub fn has_suffix(chars: &Vec<char>, suffix: &Vec<char>) -> (ends: bool)
    ensures
        ends == ends_with(chars@, suffix@),
{
    if chars.len() < suffix.len() {
        return false;
    }
    let from: usize = chars.len() - suffix.len();
    let mut i: usize = 0;
    while i < suffix.len()
        invariant
            0 <= i <= suffix@.len(),
            from + suffix@.len() == chars@.len(),
            chars.len() == chars@.len(),
            forall|j: int| 0 <= j < i ==> chars@[from + j] == suffix@[j],
        decreases suffix@.len() - i,
    {
        if chars[from + i] != suffix[i] {
            assert(chars@.skip(from as int)[i as int] != suffix@[i as int]);
            return false;
        }
        i = i + 1;
    }
    assert(chars@.skip(from as int) =~= suffix@);
    true
}

/// Texts one after the other, with a separator between them.
pub open spec fn separated(list: Seq<Seq<char>>, separator: Seq<char>) -> Seq<char>
    decreases list.len(),
{
    if list.len() == 0 {
        Seq::empty()
    } else if list.len() == 1 {
        list[0]
    } else {
        separated(list.drop_last(), separator) + separator + list.last()
    }
}

/// Texts one after the other, with a separator between them.
pub fn join_texts(list: &Vec<String>, separator: &str) -> (s: String)
    ensures
        s@ == separated(list@.map_values(|text: String| text@), separator@),
{
    let ghost texts = list@.map_values(|text: String| text@);
    let mut s = String::new();
    let mut i: usize = 0;
    assert(texts.take(0) =~= Seq::empty());
    while i < list.len()
        invariant
            0 <= i <= list@.len(),
            texts == list@.map_values(|text: String| text@),
            s@ == separated(texts.take(i as int), separator@),
        decreases list@.len() - i,
    {
        assert(texts.take(i + 1).drop_last() =~= texts.take(i as int));
        if i > 0 {
            s.append(separator);
        }
        s.append(list[i].as_str());
        if i == 0 {
            assert(s@ =~= texts[0]);
        }
        i = i + 1;
        assert(s@ =~= separated(texts.take(i as int), separator@));
    }
    assert(texts.take(i as int) =~= texts);
    s
}

/// A path and a name under it. The name is relative and not empty.
pub open spec fn joined(base: Seq<char>, name: Seq<char>) -> Seq<char> {
    if base.len() == 0 || base.last() == '/' {
        base + name
    } else {
        base.push('/') + name
    }
}

/// A path and a name under it.
pub fn join_path(base: &str, name: &str) -> (path: String)
    ensures
        path@ == joined(base@, name@),
{
    let chars = chars_of(base);
    let mut path = base.to_owned();
    if chars.len() > 0 && chars[chars.len() - 1] != '/' {
        path.push('/');
    }
    path.append(name);
    path
}

/// The characters with Unicode's `White_Space` property.
pub open spec fn is_white(c: char) -> bool {
    ||| '\u{9}' <= c <= '\u{d}'
    ||| c == ' '
    ||| c == '\u{85}'
    ||| c == '\u{a0}'
    ||| c == '\u{1680}'
    ||| '\u{2000}' <= c <= '\u{200a}'
    ||| c == '\u{2028}'
    ||| c == '\u{2029}'
    ||| c == '\u{202f}'
    ||| c == '\u{205f}'
    ||| c == '\u{3000}'
}

/// Whether a character has Unicode's `White_Space` property.
pub fn white(c: char) -> (w: bool)
    ensures
        w == is_white(c),
{
    ('\u{9}' <= c && c <= '\u{d}') || c == ' ' || c == '\u{85}' || c == '\u{a0}' || c
        == '\u{1680}' || ('\u{2000}' <= c && c <= '\u{200a}') || c == '\u{2028}' || c == '\u{2029}'
        || c == '\u{202f}' || c == '\u{205f}' || c == '\u{3000}'
}

/// A text without the white space it begins with.
pub open spec fn trimmed_start(s: Seq<char>) -> Seq<char>
    decreases s.len(),
{
    if s.len() > 0 && is_white(s[0]) {
        trimmed_start(s.skip(1))
    } else {
        s
    }
}

/// A text without the white space it ends with.
pub open spec fn trimmed_end(s: Seq<char>) -> Seq<char>
    decreases s.len(),
{
    if s.len() > 0 && is_white(s.last()) {
        trimmed_end(s.drop_last())
    } else {
        s
    }
}

/// A text without the white space around it.
pub open spec fn trimmed(s: Seq<char>) -> Seq<char> {
    trimmed_end(trimmed_start(s))
}

/// The text between two positions without the white space around it.
pub fn trim_between(chars: &Vec<char>, from: usize, to: usize) -> (s: Vec<char>)
    requires
        from <= to <= chars@.len(),
    ensures
        s@ == trimmed(chars@.subrange(from as int, to as int)),
{
    let ghost whole = chars@.subrange(from as int, to as int);
    let mut start: usize = from;
    while start < to && white(chars[start])
        invariant
            from <= start <= to <= chars@.len(),
            trimmed_start(whole) == trimmed_start(chars@.subrange(start as int, to as int)),
        decreases to - start,
    {
        assert(chars@.subrange(start as int, to as int).skip(1) =~= chars@.subrange(
            start + 1,
            to as int,
        ));
        start = start + 1;
    }
    assert(trimmed_start(whole) == chars@.subrange(start as int, to as int));
    let mut end: usize = to;
    while start < end && white(chars[end - 1])
        invariant
            start <= end <= to <= chars@.len(),
            trimmed(whole) == trimmed_end(chars@.subrange(start as int, end as int)),
        decreases end,
    {
        assert(chars@.subrange(start as int, end as int).drop_last() =~= chars@.subrange(
            start as int,
            end - 1,
        ));
        end = end - 1;
    }
    assert(trimmed(whole) == chars@.subrange(start as int, end as int));
    chars_between(chars, start, end)
}

/// A text without the white space around it.
pub fn trim(s: &str) -> (t: String)
    ensures
        t@ == trimmed(s@),
{
    let chars = chars_of(s);
    assert(chars@.subrange(0, chars@.len() as int) =~= s@);
    let inner = trim_between(&chars, 0, chars.len());
    let t = text_between(&inner, 0, inner.len());
    assert(t@ =~= inner@);
    t
}

/// The characters between two positions.
pub fn chars_between(chars: &Vec<char>, from: usize, to: usize) -> (v: Vec<char>)
    requires
        from <= to <= chars@.len(),
    ensures
        v@ == chars@.subrange(from as int, to as int),
{
    let mut v: Vec<char> = Vec::new();
    let mut i: usize = from;
    while i < to
        invariant
            from <= i <= to <= chars@.len(),
            v@ == chars@.subrange(from as int, i as int),
        decreases to - i,
    {
        v.push(chars[i]);
        i = i + 1;
        assert(v@ =~= chars@.subrange(from as int, i as int));
    }
    v
}

/// A text cut at every `c`.
pub open spec fn split(s: Seq<char>, c: char) -> Seq<Seq<char>>
    decreases s.len(),
{
    match first(s, c) {
        Some(i) => if 0 <= i < s.len() {
            seq![s.take(i)] + split(s.skip(i + 1), c)
        } else {
            seq![s]
        },
        None => seq![s],
    }
}

/// The views of a list of character lists.
pub open spec fn views(v: Seq<Vec<char>>) -> Seq<Seq<char>> {
    v.map_values(|piece: Vec<char>| piece@)
}

/// A text cut at every `c`.
pub fn split_at_each(chars: &Vec<char>, c: char) -> (pieces: Vec<Vec<char>>)
    ensures
        views(pieces@) == split(chars@, c),
{
    let mut pieces: Vec<Vec<char>> = Vec::new();
    let mut from: usize = 0;
    assert(chars@.skip(0) =~= chars@);
    assert(views(pieces@) + split(chars@.skip(0), c) =~= split(chars@, c));
    loop
        invariant
            from <= chars.len(),
            views(pieces@) + split(chars@.skip(from as int), c) == split(chars@, c),
        decreases chars@.len() + 1 - from,
    {
        proof {
            lemma_first_of_rest(chars@, c, from as int);
        }
        let ghost rest = chars@.skip(from as int);
        let ghost before = views(pieces@);
        match find_from(chars, c, from) {
            Some(at) => {
                pieces.push(chars_between(chars, from, at));
                proof {
                    assert(pieces@.last()@ =~= rest.take(at - from));
                    assert(rest.skip(at - from + 1) =~= chars@.skip(at + 1));
                    assert(views(pieces@) =~= before.push(rest.take(at - from)));
                    assert(views(pieces@) + split(chars@.skip(at + 1), c) =~= before + split(
                        rest,
                        c,
                    ));
                }
                from = at + 1;
            },
            None => {
                pieces.push(chars_between(chars, from, chars.len()));
                proof {
                    assert(pieces@.last()@ =~= rest);
                    assert(views(pieces@) =~= before.push(rest));
                    assert(views(pieces@) =~= before + split(rest, c));
                }
                return pieces;
            },
        }
    }
}

/// A line without the carriage return that ended it together with its newline.
pub open spec fn without_return(s: Seq<char>) -> Seq<char> {
    if s.len() > 0 && s.last() == '\r' {
        s.drop_last()
    } else {
        s
    }
}

/// The lines of a text: what ends in a newline, without it and without the
/// carriage return before it, and what is left after the last newline unless
/// nothing is.
pub open spec fn lines(s: Seq<char>) -> Seq<Seq<char>>
    decreases s.len(),
{
    if s.len() == 0 {
        Seq::empty()
    } else {
        match first(s, '\n') {
            Some(i) => if 0 <= i < s.len() {
                seq![without_return(s.take(i))] + lines(s.skip(i + 1))
            } else {
                seq![s]
            },
            None => seq![s],
        }
    }
}

/// The lines of a text.
pub fn lines_of(chars: &Vec<char>) -> (found: Vec<Vec<char>>)
    ensures
        views(found@) == lines(chars@),
{
    let mut found: Vec<Vec<char>> = Vec::new();
    let mut from: usize = 0;
    assert(chars@.skip(0) =~= chars@);
    assert(views(found@) + lines(chars@.skip(0)) =~= lines(chars@));
    while from < chars.len()
        invariant
            from <= chars.len(),
            views(found@) + lines(chars@.skip(from as int)) == lines(chars@),
        decreases chars@.len() - from,
    {
        proof {
            lemma_first_of_rest(chars@, '\n', from as int);
        }
        let ghost rest = chars@.skip(from as int);
        let ghost before = views(found@);
        match find_from(chars, '\n', from) {
            Some(at) => {
                let end: usize = if at > from && chars[at - 1] == '\r' {
                    at - 1
                } else {
                    at
                };
                found.push(chars_between(chars, from, end));
                proof {
                    assert(rest.take(at - from) =~= chars@.subrange(from as int, at as int));
                    assert(found@.last()@ =~= without_return(rest.take(at - from)));
                    assert(rest.skip(at - from + 1) =~= chars@.skip(at + 1));
                    assert(views(found@) =~= before.push(found@.last()@));
                    assert(views(found@) + lines(chars@.skip(at + 1)) =~= before + lines(rest));
                }
                from = at + 1;
            },
            None => {
                found.push(chars_between(chars, from, chars.len()));
                proof {
                    assert(found@.last()@ =~= rest);
                    assert(views(found@) =~= before.push(rest));
                    assert(views(found@) =~= before + lines(rest));
                }
                return found;
            },
        }
    }
    assert(chars@.skip(from as int).len() == 0);
    assert(views(found@) =~= lines(chars@));
    found
}

/// A text holds another at a position.
pub open spec fn holds_at(s: Seq<char>, needle: Seq<char>, at: int) -> bool {
    0 <= at && at + needle.len() <= s.len() && s.subrange(at, at + needle.len()) == needle
}

/// A text holds another somewhere.
pub open spec fn holds_text(s: Seq<char>, needle: Seq<char>) -> bool {
    exists|at: int| holds_at(s, needle, at)
}

/// The first position of a text in another.
pub open spec fn is_first_at(s: Seq<char>, needle: Seq<char>, at: int) -> bool {
    holds_at(s, needle, at) && forall|j: int| 0 <= j < at ==> !#[trigger] holds_at(s, needle, j)
}

/// The first position of a text in another, where it holds it.
pub fn find_text(chars: &Vec<char>, needle: &Vec<char>) -> (found: Option<usize>)
    ensures
        match found {
            Some(at) => is_first_at(chars@, needle@, at as int) && holds_text(chars@, needle@),
            None => !holds_text(chars@, needle@),
        },
{
    if chars.len() < needle.len() {
        return None;
    }
    let last: usize = chars.len() - needle.len();
    let mut at: usize = 0;
    loop
        invariant
            at <= last,
            last == chars@.len() - needle@.len(),
            chars.len() >= needle.len(),
            forall|j: int| 0 <= j < at ==> !#[trigger] holds_at(chars@, needle@, j),
        decreases last - at,
    {
        let mut i: usize = 0;
        while i < needle.len() && chars[at + i] == needle[i]
            invariant
                i <= needle@.len(),
                at + needle.len() <= chars.len(),
                forall|j: int| 0 <= j < i ==> chars@[at + j] == needle@[j],
            decreases needle@.len() - i,
        {
            i = i + 1;
        }
        if i == needle.len() {
            assert(chars@.subrange(at as int, at + needle@.len()) =~= needle@);
            assert(holds_at(chars@, needle@, at as int));
            return Some(at);
        }
        assert(chars@.subrange(at as int, at + needle@.len())[i as int] != needle@[i as int]);
        if at == last {
            assert forall|j: int| !holds_at(chars@, needle@, j) by {
            }
            return None;
        }
        at = at + 1;
    }
}

/// Whether a text holds another somewhere.
pub fn contains(s: &str, needle: &str) -> (holds: bool)
    ensures
        holds == holds_text(s@, needle@),
{
    find_text(&chars_of(s), &chars_of(needle)).is_some()
}

/// How many characters stand before the first white space.
pub open spec fn word_length(s: Seq<char>) -> int
    decreases s.len(),
{
    if s.len() == 0 || is_white(s[0]) {
        0
    } else {
        1 + word_length(s.skip(1))
    }
}

proof fn lemma_word_length(s: Seq<char>)
    ensures
        0 <= word_length(s) <= s.len(),
        s.len() > 0 && !is_white(s[0]) ==> word_length(s) > 0,
    decreases s.len(),
{
    if s.len() > 0 && !is_white(s[0]) {
        lemma_word_length(s.skip(1));
    }
}

/// The words of a text: what white space separates.
pub open spec fn words(s: Seq<char>) -> Seq<Seq<char>>
    decreases s.len(),
{
    let rest = trimmed_start(s);
    if rest.len() == 0 {
        Seq::empty()
    } else {
        let n = word_length(rest);
        if 0 < n <= rest.len() <= s.len() {
            seq![rest.take(n)] + words(rest.skip(n))
        } else {
            Seq::empty()
        }
    }
}

/// The words of `chars[from..]`.
pub fn words_from(chars: &Vec<char>, from: usize) -> (found: Vec<Vec<char>>)
    requires
        from <= chars@.len(),
    ensures
        views(found@) == words(chars@.skip(from as int)),
{
    let ghost whole = words(chars@.skip(from as int));
    let mut found: Vec<Vec<char>> = Vec::new();
    let mut at: usize = from;
    assert(views(found@) + words(chars@.skip(from as int)) =~= whole);
    loop
        invariant
            from <= at <= chars.len(),
            whole == words(chars@.skip(from as int)),
            views(found@) + words(chars@.skip(at as int)) == whole,
        decreases chars@.len() - at,
    {
        let ghost here = chars@.skip(at as int);
        let ghost before = views(found@);
        let mut start: usize = at;
        while start < chars.len() && white(chars[start])
            invariant
                at <= start <= chars.len(),
                trimmed_start(here) == trimmed_start(chars@.skip(start as int)),
            decreases chars@.len() - start,
        {
            assert(chars@.skip(start as int).skip(1) =~= chars@.skip(start + 1));
            start = start + 1;
        }
        let ghost rest = chars@.skip(start as int);
        assert(trimmed_start(here) == rest);
        if start == chars.len() {
            assert(views(found@) =~= whole);
            return found;
        }
        let mut end: usize = start;
        while end < chars.len() && !white(chars[end])
            invariant
                start <= end <= chars.len(),
                rest == chars@.skip(start as int),
                word_length(rest) == (end - start) + word_length(chars@.skip(end as int)),
            decreases chars@.len() - end,
        {
            assert(chars@.skip(end as int).skip(1) =~= chars@.skip(end + 1));
            end = end + 1;
        }
        assert(word_length(rest) == end - start);
        proof {
            lemma_word_length(rest);
        }
        found.push(chars_between(chars, start, end));
        proof {
            assert(found@.last()@ =~= rest.take(end - start));
            assert(rest.skip(end - start) =~= chars@.skip(end as int));
            assert(views(found@) =~= before.push(rest.take(end - start)));
            assert(views(found@) + words(chars@.skip(end as int)) =~= before + words(here));
        }
        at = end;
    }
}

/// The value of a digit.
pub open spec fn digit_value(c: char) -> Option<nat> {
    if '0' <= c <= '9' {
        Some((c as int - 0x30) as nat)
    } else {
        None
    }
}

/// The value of digits, where there is nothing but digits.
pub open spec fn digits_value(s: Seq<char>) -> Option<nat>
    decreases s.len(),
{
    if s.len() == 0 {
        Some(0)
    } else {
        match (digits_value(s.drop_last()), digit_value(s.last())) {
            (Some(high), Some(low)) => Some(high * 10 + low),
            _ => None,
        }
    }
}

/// The number a text stands for, as an unsigned integer of at most `max` is
/// parsed: digits, at least one, with a plus before them or nothing.
pub open spec fn unsigned_value(s: Seq<char>, max: nat) -> Option<nat> {
    let digits = if s.len() > 0 && s[0] == '+' {
        s.skip(1)
    } else {
        s
    };
    match digits_value(digits) {
        Some(value) => if digits.len() > 0 && value <= max {
            Some(value)
        } else {
            None
        },
        None => None,
    }
}

proof fn lemma_digits_grow(s: Seq<char>, n: int)
    requires
        0 <= n <= s.len(),
        digits_value(s) is Some,
    ensures
        digits_value(s.take(n)) is Some,
        digits_value(s.take(n))->0 <= digits_value(s)->0,
    decreases s.len() - n,
{
    if n == s.len() {
        assert(s.take(n) =~= s);
    } else {
        lemma_digits_grow(s, n + 1);
        assert(s.take(n + 1).drop_last() =~= s.take(n));
    }
}

/// A text that holds something else than a digit is no number.
pub proof fn lemma_not_digits(s: Seq<char>, i: int)
    requires
        0 <= i < s.len(),
        digit_value(s[i]) is None,
    ensures
        digits_value(s) is None,
    decreases s.len(),
{
    if i < s.len() - 1 {
        lemma_not_digits(s.drop_last(), i);
    }
}

/// The number `chars[from..]` stands for, where it is digits and fits.
fn digits_from(chars: &Vec<char>, from: usize, max: u64) -> (value: Option<u64>)
    requires
        from <= chars@.len(),
    ensures
        match value {
            Some(value) => digits_value(chars@.skip(from as int)) == Some(value as nat) && value
                <= max,
            None => match digits_value(chars@.skip(from as int)) {
                Some(value) => value > max,
                None => true,
            },
        },
{
    let ghost s = chars@.skip(from as int);
    let mut value: u64 = 0;
    let mut i: usize = from;
    assert(s.take(0) =~= Seq::empty());
    while i < chars.len()
        invariant
            from <= i <= chars@.len(),
            s == chars@.skip(from as int),
            digits_value(s.take(i - from)) == Some(value as nat),
            value <= max,
        decreases chars@.len() - i,
    {
        let c = chars[i];
        assert(s[i - from] == c);
        assert(s.take(i - from + 1).drop_last() =~= s.take(i - from));
        proof {
            if digits_value(s) is Some {
                lemma_digits_grow(s, i - from + 1);
            }
        }
        if !('0' <= c && c <= '9') {
            return None;
        }
        let digit: u64 = (c as u8 - 48) as u64;
        if value > max / 10 || (value == max / 10 && digit > max % 10) {
            assert(value * 10 + digit > max);
            return None;
        }
        value = value * 10 + digit;
        i = i + 1;
    }
    assert(s.take(i - from) =~= s);
    Some(value)
}

/// The number a text stands for, as an unsigned integer of at most `max` is
/// parsed.
pub fn parse_unsigned(chars: &Vec<char>, max: u64) -> (value: Option<u64>)
    ensures
        match value {
            Some(value) => unsigned_value(chars@, max as nat) == Some(value as nat) && value <= max,
            None => unsigned_value(chars@, max as nat) is None,
        },
{
    assert(chars@.skip(0) =~= chars@);
    let from: usize = if chars.len() > 0 && chars[0] == '+' {
        1
    } else {
        0
    };
    if from == chars.len() {
        return None;
    }
    digits_from(chars, from, max)
}

/// Printable ASCII other than the space is what has a code from 0x21 to 0x7e.
pub proof fn law_graphic_is_a_range_of_codes(s: Seq<char>)
    ensures
        all_graphic(s) <==> forall|i: int|
            0 <= i < s.len() ==> 0x21 <= (#[trigger] s[i]) as int <= 0x7e,
{
    if forall|i: int| 0 <= i < s.len() ==> 0x21 <= (#[trigger] s[i]) as int <= 0x7e {
        assert forall|i: int| 0 <= i < s.len() implies is_graphic(#[trigger] s[i]) by {
        }
    }
    if all_graphic(s) {
        assert forall|i: int| 0 <= i < s.len() implies 0x21 <= (#[trigger] s[i]) as int <= 0x7e by {
            assert(is_graphic(s[i]));
        }
    }
}

/// Lowering a text keeps its length, moves the codes 0x41 to 0x5a up by 0x20,
/// and leaves every other character as it is.
pub proof fn law_lowering_moves_the_capitals(s: Seq<char>, i: int)
    requires
        0 <= i < s.len(),
    ensures
        ascii_lowered(s).len() == s.len(),
        0x41 <= s[i] as int <= 0x5a ==> ascii_lowered(s)[i] as int == s[i] as int + 0x20,
        !(0x41 <= s[i] as int <= 0x5a) ==> ascii_lowered(s)[i] == s[i],
{
}

/// A number below ten is one digit, and one more digit is ten times the number
/// and that digit.
pub proof fn law_a_number_is_its_digits(n: nat, d: nat)
    requires
        d < 10,
    ensures
        decimal(d).len() == 1,
        decimal(d)[0] as int == 0x30 + d,
        n > 0 ==> decimal(n * 10 + d) == decimal(n) + decimal(d),
{
    if n > 0 {
        assert((n * 10 + d) / 10 == n && (n * 10 + d) % 10 == d);
        assert(decimal(n * 10 + d) =~= decimal(n) + decimal(d));
    }
}

/// Digits mean what a reader takes them to mean: each one more multiplies by
/// ten, and anything that is not a digit makes it no number.
pub proof fn law_digits_are_read_in_tens(s: Seq<char>, c: char)
    ensures
        digits_value(Seq::<char>::empty()) == Some(0nat),
        digits_value(s) is Some && 0x30 <= c as int <= 0x39 ==> digits_value(s.push(c)) == Some(
            (digits_value(s)->0 * 10 + (c as int - 0x30)) as nat,
        ),
        !(0x30 <= c as int <= 0x39) ==> digits_value(s.push(c)) is None,
        digits_value(s) is None ==> digits_value(s.push(c)) is None,
{
    assert(s.push(c).drop_last() =~= s);
}

proof fn lemma_decimal_reads_back(n: nat)
    ensures
        digits_value(decimal(n)) == Some(n),
        decimal(n).len() > 0,
        forall|i: int| 0 <= i < decimal(n).len() ==> 0x30 <= (#[trigger] decimal(n)[i]) as int <= 0x39,
    decreases n,
{
    reveal_with_fuel(digits_value, 2);
    if n >= 10 {
        lemma_decimal_reads_back(n / 10);
        assert(decimal(n).drop_last() =~= decimal(n / 10));
        assert forall|i: int| 0 <= i < decimal(n).len() implies 0x30 <= (
        #[trigger] decimal(n)[i]) as int <= 0x39 by {
            if i < decimal(n).len() - 1 {
                assert(decimal(n)[i] == decimal(n / 10)[i]);
            }
        }
    } else {
        assert(decimal(n).drop_last() =~= Seq::empty());
    }
}

/// What is written as a number reads as that number, with a plus before it or
/// none, where it fits, and as nothing where it does not.
pub proof fn law_a_number_reads_back(n: nat, max: nat)
    ensures
        n <= max ==> unsigned_value(decimal(n), max) == Some(n),
        n <= max ==> unsigned_value(seq!['+'] + decimal(n), max) == Some(n),
        n > max ==> unsigned_value(decimal(n), max) is None,
        unsigned_value(Seq::<char>::empty(), max) is None,
        unsigned_value(seq!['+'], max) is None,
        unsigned_value(seq!['-'] + decimal(n), max) is None,
{
    lemma_decimal_reads_back(n);
    assert((seq!['+'] + decimal(n)).skip(1) =~= decimal(n));
    assert(decimal(n)[0] != '+');
    assert(seq!['+'].skip(1) =~= Seq::<char>::empty());
    lemma_not_digits(seq!['-'] + decimal(n), 0);
}

/// The digits after nine are the small letters from `a`.
pub proof fn law_a_hexadecimal_digit_by_its_code(n: int)
    requires
        0 <= n < 16,
    ensures
        hex_char(n) as int == if n < 10 {
            0x30 + n
        } else {
            0x57 + n
        },
{
}

/// A text begins and ends with another exactly where it is that one with
/// something, or nothing, after or before it.
pub proof fn law_a_text_begins_and_ends_with_its_parts(s: Seq<char>, part: Seq<char>)
    ensures
        begins_with(part + s, part),
        ends_with(s + part, part),
        begins_with(s, part) ==> s == part + s.skip(part.len() as int),
        ends_with(s, part) ==> s == s.take(s.len() - part.len()) + part,
{
    assert((part + s).take(part.len() as int) =~= part);
    assert((s + part).skip(s.len() as int) =~= part);
    if begins_with(s, part) {
        assert(s =~= s.take(part.len() as int) + s.skip(part.len() as int));
    }
    if ends_with(s, part) {
        assert(s =~= s.take(s.len() - part.len()) + s.skip(s.len() - part.len()));
    }
}

/// A number is read from digits alone, or from a plus and digits, however many
/// zeros lead them; nothing else is one, nor is one that is too large.
pub proof fn law_a_number_is_read_from_digits_alone(s: Seq<char>, max: nat)
    ensures
        s.len() > 0 && s[0] as int != 0x2b ==> unsigned_value(s, max) == (if digits_value(s) is Some
            && digits_value(s)->0 <= max {
            digits_value(s)
        } else {
            None
        }),
        s.len() > 0 ==> unsigned_value(seq!['+'] + s, max) == (if digits_value(s) is Some
            && digits_value(s)->0 <= max {
            digits_value(s)
        } else {
            None
        }),
{
    assert((seq!['+'] + s).skip(1) =~= s);
}

/// White space is what has one of these codes.
pub proof fn law_white_space_by_its_codes(c: char)
    ensures
        is_white(c) <==> (0x9 <= c as int <= 0xd || c as int == 0x20 || c as int == 0x85 || c as int
            == 0xa0 || c as int == 0x1680 || 0x2000 <= c as int <= 0x200a || c as int == 0x2028
            || c as int == 0x2029 || c as int == 0x202f || c as int == 0x205f || c as int
            == 0x3000),
{
}

proof fn lemma_trimmed_start(before: Seq<char>, s: Seq<char>)
    requires
        forall|i: int| 0 <= i < before.len() ==> is_white(#[trigger] before[i]),
    ensures
        trimmed_start(before + s) == trimmed_start(s),
    decreases before.len(),
{
    if before.len() > 0 {
        let all = before + s;
        assert(all[0] == before[0]);
        assert(all.skip(1) =~= before.skip(1) + s);
        assert forall|i: int| 0 <= i < before.skip(1).len() implies is_white(
            #[trigger] before.skip(1)[i],
        ) by {
            assert(before.skip(1)[i] == before[i + 1]);
        }
        lemma_trimmed_start(before.skip(1), s);
    } else {
        assert(before + s =~= s);
    }
}

proof fn lemma_trimmed_end(s: Seq<char>, after: Seq<char>)
    requires
        forall|i: int| 0 <= i < after.len() ==> is_white(#[trigger] after[i]),
    ensures
        trimmed_end(s + after) == trimmed_end(s),
    decreases after.len(),
{
    if after.len() > 0 {
        let all = s + after;
        assert(all.last() == after.last());
        assert(all.drop_last() =~= s + after.drop_last());
        lemma_trimmed_end(s, after.drop_last());
    } else {
        assert(s + after =~= s);
    }
}

/// Trimming takes exactly the white space around a text: what neither begins nor
/// ends with any is left whole, whatever white space stands inside it.
pub proof fn law_trimming_takes_what_is_around(
    before: Seq<char>,
    s: Seq<char>,
    after: Seq<char>,
)
    requires
        forall|i: int| 0 <= i < before.len() ==> is_white(#[trigger] before[i]),
        forall|i: int| 0 <= i < after.len() ==> is_white(#[trigger] after[i]),
        s.len() > 0 ==> !is_white(s[0]) && !is_white(s.last()),
    ensures
        trimmed(before + s + after) == s,
{
    assert(before + s + after =~= before + (s + after));
    lemma_trimmed_start(before, s + after);
    if s.len() > 0 {
        assert((s + after)[0] == s[0]);
        lemma_trimmed_end(s, after);
    } else {
        assert(s + after =~= after + Seq::<char>::empty());
        lemma_trimmed_start(after, Seq::<char>::empty());
        assert(s =~= Seq::<char>::empty());
    }
}

proof fn lemma_first_of_head(a: Seq<char>, c: char, b: Seq<char>)
    requires
        !a.contains(c),
    ensures
        first(a + seq![c] + b, c) == Some(a.len() as int),
        (a + seq![c] + b).take(a.len() as int) == a,
        (a + seq![c] + b).skip(a.len() as int + 1) == b,
{
    let s = a + seq![c] + b;
    assert forall|j: int| 0 <= j < a.len() implies s[j] != c by {
        assert(s[j] == a[j]);
        assert(a.contains(a[j]));
    }
    assert(is_first_from(s, c, 0, a.len() as int));
    lemma_first_from(s, c, 0, a.len() as int);
    assert(s.take(a.len() as int) =~= a);
    assert(s.skip(a.len() as int + 1) =~= b);
}

proof fn lemma_first_of_none(a: Seq<char>, c: char)
    requires
        !a.contains(c),
    ensures
        first(a, c) is None,
{
    assert forall|j: int| 0 <= j < a.len() implies a[j] != c by {
        assert(a.contains(a[j]));
    }
    lemma_first_from_none(a, c, 0);
}

/// The first of a character is where everything before it is without it.
pub proof fn law_the_first_has_none_before_it(a: Seq<char>, c: char, b: Seq<char>)
    requires
        !a.contains(c),
    ensures
        first(a + seq![c] + b, c) == Some(a.len() as int),
        first(a, c) is None,
{
    lemma_first_of_head(a, c, b);
    lemma_first_of_none(a, c);
}

/// A text is cut at each separator and nowhere else: what stands before the
/// first is the first piece, the rest is cut likewise, and a text without one is
/// one piece.
pub proof fn law_a_text_is_cut_at_each_separator(a: Seq<char>, c: char, b: Seq<char>)
    requires
        !a.contains(c),
    ensures
        split(a, c) == seq![a],
        split(a + seq![c] + b, c) == seq![a] + split(b, c),
{
    lemma_first_of_head(a, c, b);
    lemma_first_of_none(a, c);
}

/// A text is read line by line: a newline ends a line, a carriage return before
/// it goes with it, and what is left after the last is a line unless it is
/// empty.
pub proof fn law_a_text_is_read_line_by_line(a: Seq<char>, b: Seq<char>)
    requires
        !a.contains('\n'),
    ensures
        lines(Seq::<char>::empty()) == Seq::<Seq<char>>::empty(),
        a.len() > 0 ==> lines(a) == seq![a],
        (a.len() == 0 || a.last() as int != 0x0d) ==> lines(a + seq!['\n'] + b) == seq![a] + lines(
            b,
        ),
        lines(a + seq!['\r', '\n'] + b) == seq![a] + lines(b),
{
    lemma_first_of_head(a, '\n', b);
    lemma_first_of_none(a, '\n');
    let returned = a.push('\r');
    assert(!returned.contains('\n')) by {
        if returned.contains('\n') {
            let i = choose|i: int| 0 <= i < returned.len() && returned[i] == '\n';
            assert(i < a.len());
            assert(a[i] == '\n');
        }
    }
    lemma_first_of_head(returned, '\n', b);
    assert(a + seq!['\r', '\n'] + b =~= returned + seq!['\n'] + b);
    assert(without_return(returned) =~= a);
}

/// A text begins with another exactly where it is the other and something more,
/// ends with it exactly where something stands before it, and holds it exactly
/// where it stands between two texts.
pub proof fn law_a_part_is_found_where_it_stands(a: Seq<char>, part: Seq<char>, b: Seq<char>)
    ensures
        begins_with(part + b, part),
        ends_with(a + part, part),
        holds_text(a + part + b, part),
{
    assert((part + b).take(part.len() as int) =~= part);
    assert((a + part).skip((a + part).len() - part.len()) =~= part);
    assert((a + part + b).subrange(a.len() as int, (a.len() + part.len()) as int) =~= part);
    assert(holds_at(a + part + b, part, a.len() as int));
}

/// What begins with, ends with or holds a part is made of it.
pub proof fn law_a_part_that_is_found_is_there(s: Seq<char>, part: Seq<char>)
    ensures
        begins_with(s, part) ==> exists|b: Seq<char>| s == #[trigger] (part + b),
        ends_with(s, part) ==> exists|a: Seq<char>| s == #[trigger] (a + part),
        holds_text(s, part) ==> exists|a: Seq<char>, b: Seq<char>| s == #[trigger] (a + part + b),
{
    if begins_with(s, part) {
        let b = s.skip(part.len() as int);
        assert(s =~= part + b) by {
            assert(s.take(part.len() as int) + b =~= s);
        }
    }
    if ends_with(s, part) {
        let n = s.len() - part.len();
        let a = s.take(n);
        assert(s =~= a + part) by {
            assert(a + s.skip(n) =~= s);
        }
    }
    if holds_text(s, part) {
        let at = choose|at: int| holds_at(s, part, at);
        let a = s.take(at);
        let b = s.skip(at + part.len());
        assert(s =~= a + part + b) by {
            assert(a + s.subrange(at, at + part.len()) + b =~= s);
        }
    }
}

/// Texts are put together in order, with the separator between each two and
/// nowhere else.
pub proof fn law_texts_are_put_together_in_order(
    list: Seq<Seq<char>>,
    next: Seq<char>,
    separator: Seq<char>,
)
    ensures
        separated(Seq::<Seq<char>>::empty(), separator) == Seq::<char>::empty(),
        separated(seq![next], separator) == next,
        list.len() > 0 ==> separated(list.push(next), separator) == separated(list, separator)
            + separator + next,
{
    assert(list.push(next).drop_last() =~= list);
}

/// A name under a path stands after it, with one slash between the two and not
/// a second where the path ends in one.
pub proof fn law_a_name_stands_under_its_path(base: Seq<char>, name: Seq<char>)
    ensures
        base.len() > 0 && base.last() as int != 0x2f ==> joined(base, name) == base + "/"@ + name,
        base.len() > 0 && base.last() as int == 0x2f ==> joined(base, name) == base + name,
        joined(Seq::<char>::empty(), name) == name,
{
    reveal_strlit("/");
    assert(base + "/"@ + name =~= base.push('/') + name);
    assert(Seq::<char>::empty() + name =~= name);
}

proof fn lemma_word_length_of(word: Seq<char>, b: Seq<char>)
    requires
        forall|i: int| 0 <= i < word.len() ==> !is_white(#[trigger] word[i]),
        b.len() > 0 ==> is_white(b[0]),
    ensures
        word_length(word + b) == word.len(),
    decreases word.len(),
{
    let s = word + b;
    if word.len() > 0 {
        assert(s[0] == word[0]);
        assert(s.skip(1) =~= word.skip(1) + b);
        assert forall|i: int| 0 <= i < word.skip(1).len() implies !is_white(
            #[trigger] word.skip(1)[i],
        ) by {
            assert(word.skip(1)[i] == word[i + 1]);
        }
        lemma_word_length_of(word.skip(1), b);
    } else {
        assert(s =~= b);
    }
}

/// The words of a text are what white space separates: white space before a word
/// is no part of it, and it ends at the next white space.
pub proof fn law_words_are_what_white_space_separates(
    before: Seq<char>,
    word: Seq<char>,
    b: Seq<char>,
)
    requires
        forall|i: int| 0 <= i < before.len() ==> is_white(#[trigger] before[i]),
        forall|i: int| 0 <= i < word.len() ==> !is_white(#[trigger] word[i]),
        word.len() > 0,
        b.len() > 0 ==> is_white(b[0]),
    ensures
        words(before) == Seq::<Seq<char>>::empty(),
        words(before + word + b) == seq![word] + words(b),
{
    assert(before =~= before + Seq::<char>::empty());
    lemma_trimmed_start(before, Seq::<char>::empty());
    let s = before + word + b;
    assert(s =~= before + (word + b));
    lemma_trimmed_start(before, word + b);
    assert((word + b)[0] == word[0]);
    lemma_word_length_of(word, b);
    assert((word + b).take(word.len() as int) =~= word);
    assert((word + b).skip(word.len() as int) =~= b);
}

/// Bytes as text.
///
/// `std::str::from_utf8`: the text whose encoding the bytes are, or nothing
/// where they are not UTF-8.
#[verifier::external_body]
pub(crate) fn text_of_bytes(bytes: &[u8]) -> (text: Option<String>)
    ensures
        match text {
            Some(text) => valid_utf8(bytes@) && text@ == decode_utf8(bytes@),
            None => !valid_utf8(bytes@),
        },
{
    std::str::from_utf8(bytes).ok().map(|text| text.to_string())
}

/// The `Debug` form of a text: in quotes, with what needs it escaped.
pub uninterp spec fn debug_form(s: Seq<char>) -> Seq<char>;

/// `format!` with `{:?}` on a `str`. The result is named and nothing more is
/// claimed of it than that it is a function of the text.
#[verifier::external_body]
pub(crate) fn debug_text(s: &str) -> (shown: String)
    ensures
        shown@ == debug_form(s@),
{
    format!("{s:?}")
}

} // verus!
