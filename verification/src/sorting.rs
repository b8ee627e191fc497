//! Ordering texts by their bytes, and keeping a list of them sorted and
//! free of repeats.

use vstd::prelude::*;
use vstd::string::*;

verus! {

/// `a` comes before `b` in the order of their bytes: at the first place
/// where they differ `a` has the smaller byte, or `a` ends first.
pub open spec fn lex_lt(a: Seq<u8>, b: Seq<u8>) -> bool
    decreases a.len(),
{
    if b.len() == 0 {
        false
    } else if a.len() == 0 {
        true
    } else if a[0] != b[0] {
        a[0] < b[0]
    } else {
        lex_lt(a.drop_first(), b.drop_first())
    }
}

/// Every text comes before every later one.
pub open spec fn strictly_sorted(texts: Seq<Seq<u8>>) -> bool {
    forall|i: int, j: int| 0 <= i < j < texts.len() ==> lex_lt(#[trigger] texts[i], #[trigger] texts[j])
}

/// No text comes before itself.
pub proof fn lemma_lex_irreflexive(a: Seq<u8>)
    ensures
        !lex_lt(a, a),
    decreases a.len(),
{
    if a.len() > 0 {
        lemma_lex_irreflexive(a.drop_first());
    }
}

/// What comes before a text comes before everything that the text comes
/// before.
pub proof fn lemma_lex_transitive(a: Seq<u8>, b: Seq<u8>, c: Seq<u8>)
    requires
        lex_lt(a, b),
        lex_lt(b, c),
    ensures
        lex_lt(a, c),
    decreases a.len(),
{
    if a.len() > 0 && a[0] == b[0] && b[0] == c[0] {
        lemma_lex_transitive(a.drop_first(), b.drop_first(), c.drop_first());
    }
}

/// Of two different texts one comes before the other.
pub proof fn lemma_lex_total(a: Seq<u8>, b: Seq<u8>)
    ensures
        lex_lt(a, b) || a == b || lex_lt(b, a),
    decreases a.len(),
{
    if a.len() > 0 && b.len() > 0 && a[0] == b[0] {
        lemma_lex_total(a.drop_first(), b.drop_first());
        if a.drop_first() == b.drop_first() {
            assert(a =~= seq![a[0]] + a.drop_first());
            assert(b =~= seq![b[0]] + b.drop_first());
        }
    } else if a.len() == 0 && b.len() == 0 {
        assert(a =~= b);
    }
}

/// How two texts compare.
#[derive(Clone, Copy, Debug, PartialEq, Eq, Structural)]
pub enum Order3 {
    Before,
    Same,
    After,
}

/// Compares two texts byte by byte.
pub fn compare_bytes(a: &[u8], b: &[u8]) -> (r: Order3)
    ensures
        r == Order3::Before <==> lex_lt(a@, b@),
        r == Order3::Same <==> a@ == b@,
        r == Order3::After <==> lex_lt(b@, a@),
{
    let mut i: usize = 0;
    assert(a@.skip(0) =~= a@);
    assert(b@.skip(0) =~= b@);
    while i < a.len() && i < b.len()
        invariant
            i <= a.len(),
            i <= b.len(),
            forall|k: int| 0 <= k < i ==> a@[k] == b@[k],
            lex_lt(a@, b@) == lex_lt(a@.skip(i as int), b@.skip(i as int)),
            lex_lt(b@, a@) == lex_lt(b@.skip(i as int), a@.skip(i as int)),
        decreases a.len() - i,
    {
        proof {
            assert(a@.skip(i as int)[0] == a@[i as int]);
            assert(b@.skip(i as int)[0] == b@[i as int]);
            assert(a@.skip(i as int).drop_first() =~= a@.skip(i + 1));
            assert(b@.skip(i as int).drop_first() =~= b@.skip(i + 1));
        }
        if a[i] < b[i] {
            proof {
                lemma_lex_asymmetric(a@, b@);
            }
            return Order3::Before;
        }
        if a[i] > b[i] {
            proof {
                lemma_lex_asymmetric(b@, a@);
            }
            return Order3::After;
        }
        i += 1;
    }
    proof {
        lemma_lex_irreflexive(a@);
        if i == a.len() && i == b.len() {
            assert(a@ =~= b@);
        } else if i == a.len() {
            assert(a@.skip(i as int).len() == 0);
            assert(b@.skip(i as int).len() > 0);
            lemma_lex_asymmetric(a@, b@);
        } else {
            assert(b@.skip(i as int).len() == 0);
            assert(a@.skip(i as int).len() > 0);
            lemma_lex_asymmetric(b@, a@);
        }
    }
    if i == a.len() && i == b.len() {
        Order3::Same
    } else if i == a.len() {
        Order3::Before
    } else {
        Order3::After
    }
}

/// Of two texts at most one comes before the other, and then they differ.
pub proof fn lemma_lex_asymmetric(a: Seq<u8>, b: Seq<u8>)
    requires
        lex_lt(a, b),
    ensures
        !lex_lt(b, a),
        a != b,
{
    lemma_lex_irreflexive(a);
    if lex_lt(b, a) {
        lemma_lex_transitive(a, b, a);
    }
}

/// The bytes of each text of a list.
pub open spec fn texts_bytes(texts: Seq<String>) -> Seq<Seq<u8>> {
    Seq::new(texts.len(), |i: int| text_bytes(texts[i]))
}

/// The bytes of a text.
pub open spec fn text_bytes(text: String) -> Seq<u8> {
    vstd::utf8::encode_utf8(text@)
}

/// `sorted` holds the texts of `texts`, each once, in the order of their
/// bytes. There is exactly one such list for any `texts`.
pub open spec fn is_sorted_set_of(sorted: Seq<Seq<u8>>, texts: Seq<Seq<u8>>) -> bool {
    &&& strictly_sorted(sorted)
    &&& forall|i: int| 0 <= i < sorted.len() ==> texts.contains(#[trigger] sorted[i])
    &&& forall|i: int| 0 <= i < texts.len() ==> sorted.contains(#[trigger] texts[i])
}

/// Two lists that are sorted without repeats and hold the same texts are
/// the same list.
pub proof fn lemma_sorted_set_is_unique(a: Seq<Seq<u8>>, b: Seq<Seq<u8>>)
    requires
        strictly_sorted(a),
        strictly_sorted(b),
        forall|i: int| 0 <= i < a.len() ==> b.contains(#[trigger] a[i]),
        forall|i: int| 0 <= i < b.len() ==> a.contains(#[trigger] b[i]),
    ensures
        a == b,
    decreases a.len(),
{
    if a.len() == 0 {
        if b.len() > 0 {
            assert(a.contains(b[0]));
        }
        assert(a =~= b);
    } else {
        assert(b.contains(a[0]));
        let j = b.index_of(a[0]);
        assert(a.contains(b[0]));
        let i = a.index_of(b[0]);
        if j > 0 {
            assert(lex_lt(b[0], b[j]));
            if i > 0 {
                assert(lex_lt(a[0], a[i]));
            }
            lemma_lex_asymmetric(b[0], a[0]);
        }
        assert(a[0] == b[0]);
        let ta = a.drop_first();
        let tb = b.drop_first();
        assert forall|x: int, y: int| 0 <= x < y < ta.len() implies lex_lt(
            #[trigger] ta[x],
            #[trigger] ta[y],
        ) by {
            assert(lex_lt(a[x + 1], a[y + 1]));
        }
        assert forall|x: int, y: int| 0 <= x < y < tb.len() implies lex_lt(
            #[trigger] tb[x],
            #[trigger] tb[y],
        ) by {
            assert(lex_lt(b[x + 1], b[y + 1]));
        }
        assert forall|x: int| 0 <= x < ta.len() implies tb.contains(#[trigger] ta[x]) by {
            assert(b.contains(a[x + 1]));
            let k = b.index_of(a[x + 1]);
            assert(lex_lt(a[0], a[x + 1]));
            lemma_lex_asymmetric(a[0], a[x + 1]);
            assert(k > 0);
            assert(tb[k - 1] == ta[x]);
        }
        assert forall|x: int| 0 <= x < tb.len() implies ta.contains(#[trigger] tb[x]) by {
            assert(a.contains(b[x + 1]));
            let k = a.index_of(b[x + 1]);
            assert(lex_lt(b[0], b[x + 1]));
            lemma_lex_asymmetric(b[0], b[x + 1]);
            assert(k > 0);
            assert(ta[k - 1] == tb[x]);
        }
        lemma_sorted_set_is_unique(ta, tb);
        assert(a =~= seq![a[0]] + ta);
        assert(b =~= seq![b[0]] + tb);
    }
}

/// Puts `text` into a sorted list at its place, unless the list holds it
/// already.
fn insert_sorted(sorted: &mut Vec<String>, text: String)
    requires
        strictly_sorted(texts_bytes(old(sorted)@)),
    ensures
        strictly_sorted(texts_bytes(final(sorted)@)),
        texts_bytes(final(sorted)@).contains(text_bytes(text)),
        forall|i: int|
            0 <= i < old(sorted)@.len() ==> texts_bytes(final(sorted)@).contains(
                #[trigger] texts_bytes(old(sorted)@)[i],
            ),
        forall|i: int|
            0 <= i < final(sorted)@.len() ==> {
                ||| #[trigger] texts_bytes(final(sorted)@)[i] == text_bytes(text)
                ||| texts_bytes(old(sorted)@).contains(texts_bytes(final(sorted)@)[i])
            },
{
    let ghost before = texts_bytes(sorted@);
    let ghost new = text_bytes(text);
    let mut at: usize = 0;
    let mut placed = false;
    while at < sorted.len() && !placed
        invariant
            at <= sorted@.len(),
            sorted@ == old(sorted)@,
            before == texts_bytes(sorted@),
            strictly_sorted(before),
            new == text_bytes(text),
            forall|k: int| 0 <= k < at ==> lex_lt(#[trigger] before[k], new),
            placed ==> at < sorted@.len() && lex_lt(new, before[at as int]),
        decreases sorted@.len() - at, (if placed { 0int } else { 1int }),
    {
        assert(before[at as int] == text_bytes(sorted@[at as int]));
        match compare_bytes(sorted[at].as_str().as_bytes(), text.as_str().as_bytes()) {
            Order3::Before => {
                at += 1;
            },
            Order3::Same => {
                assert forall|i: int| 0 <= i < sorted@.len() implies texts_bytes(
                    sorted@,
                ).contains(#[trigger] before[i]) by {}
                return ;
            },
            Order3::After => {
                placed = true;
            },
        }
    }
    sorted.insert(at, text);
    proof {
        let after = texts_bytes(sorted@);
        assert(after.len() == before.len() + 1);
        assert(after[at as int] == new);
        assert forall|k: int| 0 <= k < after.len() implies after[k] == (if k < at {
            before[k]
        } else if k == at {
            new
        } else {
            before[k - 1]
        }) by {}
        assert forall|k: int| at <= k < before.len() implies lex_lt(new, #[trigger] before[k]) by {
            assert(placed);
            if k > at {
                assert(lex_lt(before[at as int], before[k]));
                lemma_lex_transitive(new, before[at as int], before[k]);
            }
        }
        assert forall|i: int, j: int| 0 <= i < j < after.len() implies lex_lt(
            #[trigger] after[i],
            #[trigger] after[j],
        ) by {
            if j < at {
                assert(lex_lt(before[i], before[j]));
            } else if j == at {
                assert(lex_lt(before[i], new));
            } else if i < at {
                assert(lex_lt(before[i], before[j - 1]));
            } else if i == at {
                assert(lex_lt(new, before[j - 1]));
            } else {
                assert(lex_lt(before[i - 1], before[j - 1]));
            }
        }
        assert forall|i: int| 0 <= i < before.len() implies after.contains(
            #[trigger] before[i],
        ) by {
            if i < at {
                assert(after[i] == before[i]);
            } else {
                assert(after[i + 1] == before[i]);
            }
        }
        assert forall|i: int| 0 <= i < after.len() implies (#[trigger] after[i] == new
            || before.contains(after[i])) by {
            if i < at {
                assert(before[i] == after[i]);
            } else if i > at {
                assert(before[i - 1] == after[i]);
            }
        }
    }
}

/// Sorts texts by their bytes and drops repeats.
pub fn sorted_unique(texts: Vec<String>) -> (r: Vec<String>)
    ensures
        is_sorted_set_of(texts_bytes(r@), texts_bytes(texts@)),
{
    let ghost all = texts_bytes(texts@);
    let mut rest = texts;
    let mut sorted: Vec<String> = Vec::new();
    while rest.len() > 0
        invariant
            rest@.len() <= all.len(),
            forall|k: int| 0 <= k < rest@.len() ==> text_bytes(rest@[k]) == all[k],
            strictly_sorted(texts_bytes(sorted@)),
            forall|i: int|
                0 <= i < sorted@.len() ==> all.contains(#[trigger] texts_bytes(sorted@)[i]),
            forall|i: int|
                rest@.len() <= i < all.len() ==> texts_bytes(sorted@).contains(#[trigger] all[i]),
        decreases rest@.len(),
    {
        let ghost n = rest@.len() as int;
        let ghost before = texts_bytes(sorted@);
        let text = rest.pop().unwrap();
        assert(text_bytes(text) == all[n - 1]);
        insert_sorted(&mut sorted, text);
        proof {
            let after = texts_bytes(sorted@);
            assert forall|i: int| 0 <= i < sorted@.len() implies all.contains(
                #[trigger] after[i],
            ) by {
                if after[i] != all[n - 1] {
                    assert(before.contains(after[i]));
                    let k = before.index_of(after[i]);
                    assert(all.contains(before[k]));
                }
            }
            assert forall|i: int| n - 1 <= i < all.len() implies after.contains(
                #[trigger] all[i],
            ) by {
                if i >= n {
                    assert(before.contains(all[i]));
                    let k = before.index_of(all[i]);
                    assert(after.contains(before[k]));
                }
            }
        }
    }
    sorted
}

} // verus!
