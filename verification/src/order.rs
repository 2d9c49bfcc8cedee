//! Lists of texts in a normal form: in order, without repetition.

use crate::text;
use vstd::prelude::*;

verus! {

/// Whether the texts come in order, and none comes twice.
pub open spec fn in_order(texts: Seq<Seq<char>>) -> bool {
    forall|i: int, j: int|
        0 <= i < j < texts.len() ==> text::precedes(#[trigger] texts[i], #[trigger] texts[j])
}

/// Whether `normal` is the normal form of `texts`: the same ones, in order and
/// without repetition.
pub open spec fn is_normal_form(normal: Seq<Seq<char>>, texts: Seq<Seq<char>>) -> bool {
    in_order(normal) && forall|text: Seq<char>| #[trigger]
        normal.contains(text) == texts.contains(text)
}

/// Put texts in order and drop repeated ones.
pub fn sorted_distinct(texts: &Vec<String>) -> (normal: Vec<String>)
    ensures
        is_normal_form(text::list(normal@), text::list(texts@)),
{
    let ghost given = text::list(texts@);
    let mut normal: Vec<String> = Vec::new();
    let mut n: usize = 0;
    while n < texts.len()
        invariant
            given == text::list(texts@),
            n <= texts@.len(),
            in_order(text::list(normal@)),
            forall|item: Seq<char>| #[trigger]
                text::list(normal@).contains(item) == given.take(n as int).contains(item),
        decreases texts@.len() - n,
    {
        let item: &String = &texts[n];
        let ghost before = text::list(normal@);
        let mut p: usize = 0;
        while p < normal.len() && text::is_before(normal[p].as_str(), item.as_str())
            invariant
                p <= normal@.len(),
                before == text::list(normal@),
                forall|j: int| 0 <= j < p ==> text::precedes(#[trigger] before[j], item@),
            decreases normal@.len() - p,
        {
            assert(before[p as int] == normal@[p as int]@);
            p += 1;
        }
        proof {
            assert(p < normal@.len() ==> before[p as int] == normal@[p as int]@);
            assert(given[n as int] == item@);
            lemma_order_grows(before, given, n as int, p as int);
        }
        let known: bool = p < normal.len() && text::same(normal[p].as_str(), item.as_str());
        if !known {
            normal.insert(p, item.clone());
        }
        proof {
            let after = if known {
                before
            } else {
                before.insert(p as int, item@)
            };
            assert(text::list(normal@) =~= after);
            assert forall|x: Seq<char>| #[trigger]
                text::list(normal@).contains(x) == given.take(n + 1).contains(x) by {
                assert(after.contains(x) == given.take(n + 1).contains(x));
            }
        }
        n += 1;
    }
    assert(given.take(n as int) =~= given);
    normal
}

proof fn lemma_order_grows(before: Seq<Seq<char>>, given: Seq<Seq<char>>, n: int, p: int)
    requires
        0 <= n < given.len(),
        0 <= p <= before.len(),
        in_order(before),
        forall|item: Seq<char>| #[trigger]
            before.contains(item) == given.take(n).contains(item),
        forall|j: int| 0 <= j < p ==> text::precedes(#[trigger] before[j], given[n]),
        p < before.len() ==> !text::precedes(before[p], given[n]),
    ensures
        p < before.len() && before[p] == given[n] ==> forall|item: Seq<char>| #[trigger]
            before.contains(item) == given.take(n + 1).contains(item),
        !(p < before.len() && before[p] == given[n]) ==> in_order(before.insert(p, given[n])) && (
        forall|item: Seq<char>| #[trigger]
            before.insert(p, given[n]).contains(item) == given.take(n + 1).contains(item)),
{
    let new = given[n];
    let seen = given.take(n);
    let more = given.take(n + 1);
    assert(more =~= seen.push(new));
    assert forall|item: Seq<char>| #[trigger] more.contains(item) <==> (seen.contains(item)
        || item == new) by {
        if seen.contains(item) {
            let i = choose|i: int| 0 <= i < seen.len() && seen[i] == item;
            assert(more[i] == item);
        }
        assert(more[n] == new);
    }
    if p < before.len() && before[p] == new {
        assert forall|item: Seq<char>| #[trigger] before.contains(item) == more.contains(
            item,
        ) by {
            assert(before[p] == new);
        }
    } else {
        let after = before.insert(p, new);
        assert forall|i: int| p <= i < before.len() implies text::precedes(
            new,
            #[trigger] before[i],
        ) by {
            text::lemma_precedes_total(new, before[p]);
            if p < i {
                assert(text::precedes(before[p], before[i]));
                text::lemma_precedes_transitive(new, before[p], before[i]);
            }
        }
        assert forall|i: int, j: int| 0 <= i < j < after.len() implies text::precedes(
            #[trigger] after[i],
            #[trigger] after[j],
        ) by {
            if i != p {
                assert(after[i] == before[if i < p {
                    i
                } else {
                    i - 1
                }]);
            }
            if j != p {
                assert(after[j] == before[if j < p {
                    j
                } else {
                    j - 1
                }]);
            }
        }
        assert forall|item: Seq<char>| #[trigger] after.contains(item) == more.contains(
            item,
        ) by {
            if after.contains(item) {
                let i = choose|i: int| 0 <= i < after.len() && after[i] == item;
                if i < p {
                    assert(before[i] == item);
                    assert(before.contains(item));
                } else if i > p {
                    assert(before[i - 1] == item);
                    assert(before.contains(item));
                }
            }
            if seen.contains(item) {
                assert(before.contains(item));
                let i = choose|i: int| 0 <= i < before.len() && before[i] == item;
                if i < p {
                    assert(after[i] == item);
                } else {
                    assert(after[i + 1] == item);
                }
            }
            assert(after[p] == new);
        }
    }
}

/// Two lists of the same texts have the same normal form.
pub proof fn lemma_normal_form_is_unique(a: Seq<Seq<char>>, b: Seq<Seq<char>>)
    requires
        in_order(a),
        in_order(b),
        forall|item: Seq<char>| #[trigger] a.contains(item) == b.contains(item),
    ensures
        a == b,
    decreases a.len(),
{
    if a.len() == 0 {
        if b.len() > 0 {
            assert(b.contains(b[0]));
            assert(a.contains(b[0]));
        }
        assert(a =~= b);
    } else {
        assert(a.contains(a.last()));
        assert(b.contains(a.last()));
        let p = choose|p: int| 0 <= p < b.len() && b[p] == a.last();
        assert(b.contains(b.last()));
        assert(a.contains(b.last()));
        let q = choose|q: int| 0 <= q < a.len() && a[q] == b.last();
        if p < b.len() - 1 {
            assert(text::precedes(b[p], b[b.len() - 1]));
            if q < a.len() - 1 {
                assert(text::precedes(a[q], a[a.len() - 1]));
                text::lemma_precedes_transitive(a.last(), b.last(), a.last());
            }
            text::lemma_precedes_irreflexive(a.last());
        }
        assert(a.last() == b.last());
        let a_rest = a.drop_last();
        let b_rest = b.drop_last();
        assert forall|x: Seq<char>| #[trigger] a_rest.contains(x) == b_rest.contains(x) by {
            text::lemma_precedes_irreflexive(x);
            assert(b[b.len() - 1] == a[a.len() - 1]);
            if a_rest.contains(x) {
                let i = choose|i: int| 0 <= i < a_rest.len() && a_rest[i] == x;
                assert(a[i] == x);
                assert(a.contains(x));
                let j = choose|j: int| 0 <= j < b.len() && b[j] == x;
                assert(text::precedes(a[i], a[a.len() - 1]));
                assert(j < b.len() - 1);
                assert(b_rest[j] == x);
            }
            if b_rest.contains(x) {
                let j = choose|j: int| 0 <= j < b_rest.len() && b_rest[j] == x;
                assert(b[j] == x);
                assert(b.contains(x));
                assert(a.contains(x));
                let i = choose|i: int| 0 <= i < a.len() && a[i] == x;
                assert(text::precedes(b[j], b[b.len() - 1]));
                assert(i < a.len() - 1);
                assert(a_rest[i] == x);
            }
        }
        lemma_normal_form_is_unique(a_rest, b_rest);
        assert(a =~= a_rest.push(a.last()));
        assert(b =~= b_rest.push(b.last()));
    }
}

/// The texts come in order, each of them once and none besides.
pub proof fn lemma_each_text_comes_once_and_in_order(
    texts: Vec<String>,
    normal: Vec<String>,
    i: int,
    j: int,
)
    requires
        call_ensures(sorted_distinct, (&texts,), normal),
    ensures
        0 <= i < j < normal@.len() ==> text::precedes(normal@[i]@, normal@[j]@),
        0 <= i < texts@.len() ==> exists|k: int|
            0 <= k < normal@.len() && (#[trigger] normal@[k])@ == texts@[i]@,
        0 <= i < normal@.len() ==> exists|k: int|
            0 <= k < texts@.len() && (#[trigger] texts@[k])@ == normal@[i]@,
{
    let given = text::list(texts@);
    let shown = text::list(normal@);
    assert(given.len() == texts@.len() && shown.len() == normal@.len());
    assert(forall|k: int| 0 <= k < texts@.len() ==> #[trigger] given[k] == texts@[k]@);
    assert(forall|k: int| 0 <= k < normal@.len() ==> #[trigger] shown[k] == normal@[k]@);
    if 0 <= i < j < normal@.len() {
        assert(text::precedes(shown[i], shown[j]));
    }
    if 0 <= i < texts@.len() {
        assert(given.contains(given[i]));
        assert(shown.contains(given[i]));
        let k = choose|k: int| 0 <= k < shown.len() && shown[k] == given[i];
        assert(normal@[k]@ == texts@[i]@);
    }
    if 0 <= i < normal@.len() {
        assert(shown.contains(shown[i]));
        assert(given.contains(shown[i]));
        let k = choose|k: int| 0 <= k < given.len() && given[k] == shown[i];
        assert(texts@[k]@ == normal@[i]@);
    }
}

} // verus!
