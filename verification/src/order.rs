//! Texts in order: by their bytes, as `String` is ordered.

use vstd::prelude::*;
use vstd::string::*;
use vstd::utf8::*;

use crate::text;

verus! {

broadcast use vstd::string::group_string_axioms;

/// One byte string is before another or is it: the first byte that differs is
/// smaller, or the other merely goes on.
pub open spec fn bytes_le(a: Seq<u8>, b: Seq<u8>) -> bool
    decreases a.len(),
{
    if a.len() == 0 {
        true
    } else if b.len() == 0 {
        false
    } else if a[0] != b[0] {
        a[0] < b[0]
    } else {
        bytes_le(a.skip(1), b.skip(1))
    }
}

/// One text is before another or is it.
pub open spec fn text_le(a: Seq<char>, b: Seq<char>) -> bool {
    bytes_le(encode_utf8(a), encode_utf8(b))
}

proof fn lemma_bytes_total(a: Seq<u8>, b: Seq<u8>)
    ensures
        bytes_le(a, b) || bytes_le(b, a),
    decreases a.len(),
{
    if a.len() > 0 && b.len() > 0 && a[0] == b[0] {
        lemma_bytes_total(a.skip(1), b.skip(1));
    }
}

proof fn lemma_bytes_transitive(a: Seq<u8>, b: Seq<u8>, c: Seq<u8>)
    requires
        bytes_le(a, b),
        bytes_le(b, c),
    ensures
        bytes_le(a, c),
    decreases a.len(),
{
    if a.len() > 0 && b.len() > 0 && c.len() > 0 && a[0] == b[0] && b[0] == c[0] {
        lemma_bytes_transitive(a.skip(1), b.skip(1), c.skip(1));
    }
}

proof fn lemma_bytes_antisymmetric(a: Seq<u8>, b: Seq<u8>)
    requires
        bytes_le(a, b),
        bytes_le(b, a),
    ensures
        a == b,
    decreases a.len(),
{
    if a.len() > 0 {
        lemma_bytes_antisymmetric(a.skip(1), b.skip(1));
        assert(a =~= seq![a[0]] + a.skip(1));
        assert(b =~= seq![b[0]] + b.skip(1));
    } else {
        assert(a =~= b);
    }
}

/// Texts are totally ordered.
pub proof fn lemma_text_total(a: Seq<char>, b: Seq<char>)
    ensures
        text_le(a, b) || text_le(b, a),
{
    lemma_bytes_total(encode_utf8(a), encode_utf8(b));
}

pub proof fn lemma_text_transitive(a: Seq<char>, b: Seq<char>, c: Seq<char>)
    requires
        text_le(a, b),
        text_le(b, c),
    ensures
        text_le(a, c),
{
    lemma_bytes_transitive(encode_utf8(a), encode_utf8(b), encode_utf8(c));
}

pub proof fn lemma_text_antisymmetric(a: Seq<char>, b: Seq<char>)
    requires
        text_le(a, b),
        text_le(b, a),
    ensures
        a == b,
{
    lemma_bytes_antisymmetric(encode_utf8(a), encode_utf8(b));
    text::lemma_same_bytes(a, b);
}

/// Whether one text is before another or is it.
pub fn is_text_le(a: &str, b: &str) -> (le: bool)
    ensures
        le == text_le(a@, b@),
{
    let x = a.as_bytes();
    let y = b.as_bytes();
    let mut i: usize = 0;
    assert(x@.skip(0) =~= x@);
    assert(y@.skip(0) =~= y@);
    while i < x.len() && i < y.len() && x[i] == y[i]
        invariant
            i <= x@.len(),
            i <= y@.len(),
            x@ == encode_utf8(a@),
            y@ == encode_utf8(b@),
            bytes_le(x@, y@) == bytes_le(x@.skip(i as int), y@.skip(i as int)),
        decreases x@.len() - i,
    {
        assert(x@.skip(i as int).skip(1) =~= x@.skip(i + 1));
        assert(y@.skip(i as int).skip(1) =~= y@.skip(i + 1));
        i = i + 1;
    }
    if i == x.len() {
        true
    } else if i == y.len() {
        false
    } else {
        x[i] < y[i]
    }
}

/// A list of texts as values.
pub open spec fn texts(list: Seq<String>) -> Seq<Seq<char>> {
    list.map_values(|text: String| text@)
}

/// A list is in order.
pub open spec fn is_sorted(list: Seq<Seq<char>>) -> bool {
    forall|i: int, j: int| 0 <= i < j < list.len() ==> text_le(#[trigger] list[i], #[trigger] list[j])
}

/// Where a text goes in a list that is in order: after everything that is
/// before it or is it.
fn place(list: &Vec<String>, text: &str) -> (at: usize)
    requires
        is_sorted(texts(list@)),
    ensures
        at <= list@.len(),
        forall|i: int| 0 <= i < at ==> text_le(#[trigger] texts(list@)[i], text@),
        forall|i: int| at <= i < list@.len() ==> text_le(text@, #[trigger] texts(list@)[i]),
{
    let mut at: usize = 0;
    while at < list.len() && is_text_le(list[at].as_str(), text)
        invariant
            at <= list@.len(),
            is_sorted(texts(list@)),
            forall|i: int| 0 <= i < at ==> text_le(#[trigger] texts(list@)[i], text@),
        decreases list@.len() - at,
    {
        at = at + 1;
    }
    proof {
        if at < list@.len() {
            lemma_text_total(texts(list@)[at as int], text@);
            assert forall|i: int| at <= i < list@.len() implies text_le(
                text@,
                #[trigger] texts(list@)[i],
            ) by {
                if i > at {
                    lemma_text_transitive(text@, texts(list@)[at as int], texts(list@)[i]);
                }
            }
        }
    }
    at
}

/// A list of texts, in order.
pub fn sort(list: Vec<String>) -> (sorted: Vec<String>)
    ensures
        is_sorted(texts(sorted@)),
        texts(sorted@).to_multiset() == texts(list@).to_multiset(),
{
    let mut sorted: Vec<String> = Vec::new();
    let mut i: usize = 0;
    assert(texts(sorted@) =~= texts(list@).take(0));
    while i < list.len()
        invariant
            i <= list@.len(),
            is_sorted(texts(sorted@)),
            texts(sorted@).to_multiset() == texts(list@).take(i as int).to_multiset(),
        decreases list@.len() - i,
    {
        let ghost before = texts(sorted@);
        let text = list[i].clone();
        let at = place(&sorted, text.as_str());
        sorted.insert(at, text);
        proof {
            assert(texts(sorted@) =~= before.insert(at as int, text@));
            vstd::seq_lib::to_multiset_insert(before, at as int, text@);
            vstd::seq_lib::to_multiset_build(texts(list@).take(i as int), text@);
            assert(texts(list@).take(i + 1) =~= texts(list@).take(i as int).push(text@));
            let now = texts(sorted@);
            assert forall|a: int, b: int| 0 <= a < b < now.len() implies text_le(
                #[trigger] now[a],
                #[trigger] now[b],
            ) by {
                let x = if a < at {
                    a
                } else {
                    a - 1
                };
                let y = if b < at {
                    b
                } else {
                    b - 1
                };
                if a == at {
                    assert(now[b] == before[y]);
                } else if b == at {
                    assert(now[a] == before[x]);
                } else {
                    assert(now[a] == before[x]);
                    assert(now[b] == before[y]);
                }
            }
        }
        i = i + 1;
    }
    assert(texts(list@).take(i as int) =~= texts(list@));
    sorted
}

/// A list that is in order, with each text once.
pub fn dedup(list: Vec<String>) -> (once: Vec<String>)
    requires
        is_sorted(texts(list@)),
    ensures
        is_sorted(texts(once@)),
        texts(once@).no_duplicates(),
        texts(once@).to_set() == texts(list@).to_set(),
{
    let mut once: Vec<String> = Vec::new();
    let mut i: usize = 0;
    while i < list.len()
        invariant
            i <= list@.len(),
            is_sorted(texts(list@)),
            is_sorted(texts(once@)),
            texts(once@).no_duplicates(),
            forall|j: int| 0 <= j < i ==> texts(once@).contains(#[trigger] texts(list@)[j]),
            forall|k: int|
                0 <= k < once@.len() ==> texts(list@).take(i as int).contains(
                    #[trigger] texts(once@)[k],
                ),
            i > 0 ==> once@.len() > 0 && texts(once@).last() == texts(list@)[i - 1],
            i == 0 ==> once@.len() == 0,
        decreases list@.len() - i,
    {
        let ghost before = texts(once@);
        let ghost all = texts(list@);
        let text = list[i].clone();
        assert(text@ == all[i as int]);
        assert forall|k: int| 0 <= k < before.len() implies all.take(i + 1).contains(
            #[trigger] before[k],
        ) by {
            let m = choose|m: int| 0 <= m < i && all.take(i as int)[m] == before[k];
            assert(all.take(i + 1)[m] == before[k]);
        }
        assert(all.take(i + 1)[i as int] == text@);
        if once.len() > 0 && text::same_text(once[once.len() - 1].as_str(), text.as_str()) {
            assert(before.last() == text@);
            assert(before[before.len() - 1] == text@);
        } else {
            proof {
                assert forall|k: int| 0 <= k < before.len() implies text_le(
                    #[trigger] before[k],
                    text@,
                ) && before[k] != text@ by {
                    let m = choose|m: int| 0 <= m < i && all.take(i as int)[m] == before[k];
                    assert(all[m] == before[k]);
                    assert(text_le(all[m], all[i as int]));
                    if before[k] == text@ {
                        // Everything between the two is then that text too, and
                        // the last one kept is one of them.
                        assert(text_le(all[m], all[i - 1]) || m == i - 1);
                        lemma_text_reflexive(text@);
                        assert(text_le(all[i - 1], all[i as int]));
                        lemma_text_antisymmetric(all[i - 1], text@);
                    }
                }
            }
            once.push(text);
            assert(texts(once@) =~= before.push(text@));
            assert(texts(once@)[before.len() as int] == text@);
        }
        assert forall|j: int| 0 <= j < i + 1 implies texts(once@).contains(#[trigger] all[j]) by {
            if j < i {
                let k = choose|k: int| 0 <= k < before.len() && before[k] == all[j];
                assert(texts(once@)[k] == all[j]);
            }
        }
        i = i + 1;
    }
    assert(texts(list@).take(i as int) =~= texts(list@));
    assert(texts(once@).to_set() =~= texts(list@).to_set()) by {
        assert forall|text: Seq<char>| texts(once@).to_set().contains(text) == texts(
            list@,
        ).to_set().contains(text) by {
            if texts(list@).contains(text) {
                let j = choose|j: int| 0 <= j < list@.len() && texts(list@)[j] == text;
                assert(texts(once@).contains(texts(list@)[j]));
            }
        }
    }
    once
}

proof fn lemma_text_reflexive(a: Seq<char>)
    ensures
        text_le(a, a),
{
    lemma_text_total(a, a);
}

/// Bytes are ordered by the first place where they differ, and a beginning comes
/// before what it begins.
pub proof fn law_the_first_difference_decides(a: Seq<u8>, x: u8, b: Seq<u8>, y: u8, c: Seq<u8>)
    ensures
        bytes_le(a, a + b),
        x < y ==> bytes_le(a + seq![x] + b, a + seq![y] + c) && !bytes_le(
            a + seq![y] + c,
            a + seq![x] + b,
        ),
        !bytes_le(a + seq![x] + b, a),
    decreases a.len(),
{
    if a.len() == 0 {
        assert(a + b =~= b);
        assert((a + seq![x] + b)[0] == x);
        assert((a + seq![y] + c)[0] == y);
    } else {
        let rest = a.skip(1);
        law_the_first_difference_decides(rest, x, b, y, c);
        assert((a + b).skip(1) =~= rest + b);
        assert((a + seq![x] + b).skip(1) =~= rest + seq![x] + b);
        assert((a + seq![y] + c).skip(1) =~= rest + seq![y] + c);
    }
}

/// In a list that is in order, no text comes after one whose bytes rank higher.
pub proof fn law_a_sorted_list_is_in_the_order_of_its_bytes(
    list: Seq<Seq<char>>,
    i: int,
    j: int,
)
    requires
        is_sorted(list),
        0 <= i < j < list.len(),
    ensures
        bytes_le(encode_utf8(list[i]), encode_utf8(list[j])),
{
    assert(text_le(list[i], list[j]));
}

/// The texts of a list are those it holds, each at its place.
pub proof fn law_texts_keep_their_places(list: Seq<String>, i: int)
    ensures
        texts(list).len() == list.len(),
        0 <= i < list.len() ==> texts(list)[i] == list[i]@,
{
}

} // verus!
