//! Sorting of texts: in text order (that of `String`'s `Ord`), and by
//! their lowercase form with ties in text order.

use vstd::prelude::*;
use vstd::relations::{sorted_by, total_ordering};
use crate::enums::str_equals;
use crate::keyed::views_of;
use crate::text::{
    lemma_text_less_asymmetric, lemma_text_less_irreflexive, lemma_text_less_total, lemma_text_less_transitive,
    spec_to_lowercase, text_is_less, text_less, to_lowercase,
};

verus! {

/// `a` does not come after `b` in text order.
pub open spec fn text_leq(a: Seq<char>, b: Seq<char>) -> bool {
    !text_less(b, a)
}

/// Order by `key` first, texts with the same key in text order.
pub open spec fn keyed_leq(key: spec_fn(Seq<char>) -> Seq<char>) -> spec_fn(Seq<char>, Seq<char>) -> bool {
    |a: Seq<char>, b: Seq<char>| text_less(key(a), key(b)) || (key(a) == key(b) && text_leq(a, b))
}

/// Text order.
pub open spec fn text_order() -> spec_fn(Seq<char>, Seq<char>) -> bool {
    keyed_leq(|s: Seq<char>| s)
}

/// Order by lowercase form, ties in text order.
pub open spec fn lowercase_order() -> spec_fn(Seq<char>, Seq<char>) -> bool {
    keyed_leq(|s: Seq<char>| spec_to_lowercase(s))
}

/// Ordering by a key, ties broken by text order, is a total order.
pub proof fn lemma_keyed_leq_total(key: spec_fn(Seq<char>) -> Seq<char>)
    ensures
        total_ordering(keyed_leq(key)),
{
    let r = keyed_leq(key);
    assert forall|x: Seq<char>| #[trigger] r(x, x) by {
        lemma_text_less_irreflexive(x);
    }
    assert forall|x: Seq<char>, y: Seq<char>| #[trigger] r(x, y) && #[trigger] r(y, x) implies x == y by {
        if text_less(key(x), key(y)) {
            lemma_text_less_asymmetric(key(x), key(y));
            lemma_text_less_irreflexive(key(x));
        } else if text_less(key(y), key(x)) {
            lemma_text_less_asymmetric(key(y), key(x));
            lemma_text_less_irreflexive(key(y));
        } else if x != y {
            lemma_text_less_total(x, y);
        }
    }
    assert forall|x: Seq<char>, y: Seq<char>, z: Seq<char>| #[trigger] r(x, y) && #[trigger] r(y, z) implies r(x, z) by {
        if text_less(key(x), key(y)) && text_less(key(y), key(z)) {
            lemma_text_less_transitive(key(x), key(y), key(z));
        } else if key(x) == key(y) && key(y) == key(z) {
            if text_less(z, x) {
                if x == y {
                } else {
                    lemma_text_less_total(x, y);
                    lemma_text_less_transitive(z, x, y);
                }
            }
        }
    }
    assert forall|x: Seq<char>, y: Seq<char>| #[trigger] r(x, y) || #[trigger] r(y, x) by {
        if key(x) != key(y) {
            lemma_text_less_total(key(x), key(y));
        } else if text_less(x, y) {
            lemma_text_less_asymmetric(x, y);
        }
    }
}

proof fn lemma_insert_sorted(s: Seq<Seq<char>>, p: int, x: Seq<char>, leq: spec_fn(Seq<char>, Seq<char>) -> bool)
    requires
        total_ordering(leq),
        sorted_by(s, leq),
        0 <= p <= s.len(),
        forall|j: int| 0 <= j < p ==> #[trigger] leq(s[j], x),
        forall|j: int| p <= j < s.len() ==> #[trigger] leq(x, s[j]),
    ensures
        sorted_by(s.insert(p, x), leq),
{
    let s2 = s.insert(p, x);
    s.insert_ensures(p, x);
    assert forall|a: int, b: int| 0 <= a < b < s2.len() implies #[trigger] leq(s2[a], s2[b]) by {
        if b < p {
            assert(s2[a] == s[a] && s2[b] == s[b]);
        } else if b == p {
            assert(s2[a] == s[a]);
        } else if a < p {
            assert(s2[a] == s[a] && s2[b] == s[b - 1]);
            assert(leq(s[a], x));
            assert(leq(x, s[b - 1]));
        } else if a == p {
            assert(s2[b] == s[b - 1]);
        } else {
            assert(s2[a] == s[a - 1] && s2[b] == s[b - 1]);
        }
    }
}

/// Inserts `item`, whose key is `k`, into the sorted `r` after the entries
/// that do not come after it; `ks` holds the key of each entry of `r`.
fn insert_in_order(
    r: &mut Vec<String>,
    ks: &mut Vec<String>,
    item: &String,
    k: &String,
    Ghost(key): Ghost<spec_fn(Seq<char>) -> Seq<char>>,
)
    requires
        total_ordering(keyed_leq(key)),
        k@ == key(item@),
        old(r)@.len() == old(ks)@.len(),
        forall|j: int| 0 <= j < old(r)@.len() ==> #[trigger] old(ks)@[j]@ == key(old(r)@[j]@),
        sorted_by(views_of(old(r)@), keyed_leq(key)),
    ensures
        final(r)@.len() == final(ks)@.len(),
        forall|j: int| 0 <= j < final(r)@.len() ==> #[trigger] final(ks)@[j]@ == key(final(r)@[j]@),
        sorted_by(views_of(final(r)@), keyed_leq(key)),
        views_of(final(r)@).to_multiset() == views_of(old(r)@).to_multiset().insert(item@),
{
    let ghost leq = keyed_leq(key);
    let ghost x = item@;
    let ghost s = views_of(r@);
    let mut p: usize = 0;
    while p < r.len() && (text_is_less(ks[p].as_str(), k.as_str()) || (str_equals(ks[p].as_str(), k.as_str())
        && !text_is_less(item.as_str(), r[p].as_str())))
        invariant
            p <= r@.len(),
            leq == keyed_leq(key),
            r@.len() == ks@.len(),
            s == views_of(r@),
            k@ == key(x),
            item@ == x,
            forall|j: int| 0 <= j < r@.len() ==> #[trigger] ks@[j]@ == key(r@[j]@),
            forall|j: int| 0 <= j < p ==> leq(#[trigger] s[j], x),
        decreases r@.len() - p,
    {
        assert(s[p as int] == r@[p as int]@);
        assert(ks@[p as int]@ == key(s[p as int]));
        assert(leq(s[p as int], x));
        p = p + 1;
    }
    proof {
        if p < r@.len() {
            assert(s[p as int] == r@[p as int]@);
            assert(ks@[p as int]@ == key(s[p as int]));
            assert(!leq(s[p as int], x));
            assert(leq(x, s[p as int]));
            assert forall|j: int| p <= j < s.len() implies leq(x, #[trigger] s[j]) by {
                if j > p {
                    assert(leq(s[p as int], s[j]));
                }
            }
        }
        lemma_insert_sorted(s, p as int, x, leq);
    }
    let ghost r0 = r@;
    let ghost ks0 = ks@;
    r.insert(p, item.clone());
    ks.insert(p, k.clone());
    proof {
        assert(views_of(r@) =~= s.insert(p as int, x));
        r0.insert_ensures(p as int, r@[p as int]);
        ks0.insert_ensures(p as int, ks@[p as int]);
        assert forall|j: int| 0 <= j < r@.len() implies #[trigger] ks@[j]@ == key(r@[j]@) by {
            if j > p {
                assert(r@[j] == r0[j - 1]);
                assert(ks@[j] == ks0[j - 1]);
            } else if j < p {
                assert(r@[j] == r0[j]);
                assert(ks@[j] == ks0[j]);
            }
        }
        vstd::seq_lib::to_multiset_insert(s, p as int, x);
    }
}

/// Sorts `items` by `key`, ties in text order; `keys` holds the key of each
/// item.
fn sort_keyed(items: &Vec<String>, keys: &Vec<String>, Ghost(key): Ghost<spec_fn(Seq<char>) -> Seq<char>>) -> (r: Vec<
    String,
>)
    requires
        items@.len() == keys@.len(),
        forall|i: int| 0 <= i < items@.len() ==> #[trigger] keys@[i]@ == key(items@[i]@),
    ensures
        views_of(r@) == views_of(items@).sort_by(keyed_leq(key)),
{
    let ghost leq = keyed_leq(key);
    proof {
        lemma_keyed_leq_total(key);
    }
    let ghost all = views_of(items@);
    let mut r: Vec<String> = Vec::new();
    let mut ks: Vec<String> = Vec::new();
    let mut i: usize = 0;
    assert(views_of(r@) =~= Seq::<Seq<char>>::empty());
    assert(all.take(0) =~= Seq::<Seq<char>>::empty());
    while i < items.len()
        invariant
            items@.len() == keys@.len(),
            forall|j: int| 0 <= j < items@.len() ==> #[trigger] keys@[j]@ == key(items@[j]@),
            all == views_of(items@),
            leq == keyed_leq(key),
            total_ordering(leq),
            i <= items.len(),
            r@.len() == ks@.len(),
            forall|j: int| 0 <= j < r@.len() ==> #[trigger] ks@[j]@ == key(r@[j]@),
            sorted_by(views_of(r@), leq),
            views_of(r@).to_multiset() == all.take(i as int).to_multiset(),
        decreases items.len() - i,
    {
        insert_in_order(&mut r, &mut ks, &items[i], &keys[i], Ghost(key));
        proof {
            assert(all.take(i + 1) =~= all.take(i as int).push(all[i as int]));
            vstd::seq_lib::to_multiset_build(all.take(i as int), all[i as int]);
        }
        i = i + 1;
    }
    proof {
        assert(all.take(items.len() as int) =~= all);
        all.lemma_sort_by_ensures(leq);
        vstd::seq_lib::lemma_sorted_unique(views_of(r@), all.sort_by(leq), leq);
    }
    r
}

/// The texts in text order (what `sort` on a `Vec<String>` gives).
pub fn sort_texts(v: &Vec<String>) -> (r: Vec<String>)
    ensures
        views_of(r@) == views_of(v@).sort_by(text_order()),
{
    let mut keys: Vec<String> = Vec::new();
    let mut i: usize = 0;
    while i < v.len()
        invariant
            i <= v.len(),
            keys@.len() == i,
            forall|j: int| 0 <= j < i ==> #[trigger] keys@[j]@ == v@[j]@,
        decreases v.len() - i,
    {
        keys.push(v[i].clone());
        i = i + 1;
    }
    sort_keyed(v, &keys, Ghost(|s: Seq<char>| s))
}

/// The texts ordered by their lowercase form, texts with the same lowercase
/// form in text order.
pub fn sort_by_lowercase(v: &Vec<String>) -> (r: Vec<String>)
    ensures
        views_of(r@) == views_of(v@).sort_by(lowercase_order()),
{
    let mut keys: Vec<String> = Vec::new();
    let mut i: usize = 0;
    while i < v.len()
        invariant
            i <= v.len(),
            keys@.len() == i,
            forall|j: int| 0 <= j < i ==> #[trigger] keys@[j]@ == spec_to_lowercase(v@[j]@),
        decreases v.len() - i,
    {
        keys.push(to_lowercase(v[i].as_str()));
        i = i + 1;
    }
    sort_keyed(v, &keys, Ghost(|s: Seq<char>| spec_to_lowercase(s)))
}

/// Sorting keeps exactly the elements, and adds no duplicate.
pub proof fn lemma_sort_keeps_elements(s: Seq<Seq<char>>, leq: spec_fn(Seq<char>, Seq<char>) -> bool)
    requires
        total_ordering(leq),
    ensures
        forall|x: Seq<char>| #[trigger] s.sort_by(leq).contains(x) <==> s.contains(x),
        s.no_duplicates() ==> s.sort_by(leq).no_duplicates(),
        sorted_by(s.sort_by(leq), leq),
        s.sort_by(leq).len() == s.len(),
{
    s.lemma_sort_by_ensures(leq);
    let t = s.sort_by(leq);
    assert forall|x: Seq<char>| #[trigger] t.contains(x) <==> s.contains(x) by {
        vstd::seq_lib::to_multiset_contains(s, x);
        vstd::seq_lib::to_multiset_contains(t, x);
    }
    vstd::seq_lib::to_multiset_len(s);
    vstd::seq_lib::to_multiset_len(t);
    if s.no_duplicates() {
        s.lemma_multiset_has_no_duplicates();
        t.lemma_multiset_has_no_duplicates_conv();
    }
}

/// Order by a number, texts with the same number in text order.
pub open spec fn ranked_leq(rank: spec_fn(Seq<char>) -> int) -> spec_fn(Seq<char>, Seq<char>) -> bool {
    |a: Seq<char>, b: Seq<char>| rank(a) < rank(b) || (rank(a) == rank(b) && text_leq(a, b))
}

/// Ordering by a number, ties broken by text order, is a total order.
pub proof fn lemma_ranked_leq_total(rank: spec_fn(Seq<char>) -> int)
    ensures
        total_ordering(ranked_leq(rank)),
{
    let r = ranked_leq(rank);
    assert forall|x: Seq<char>| #[trigger] r(x, x) by {
        lemma_text_less_irreflexive(x);
    }
    assert forall|x: Seq<char>, y: Seq<char>| #[trigger] r(x, y) && #[trigger] r(y, x) implies x == y by {
        if x != y {
            lemma_text_less_total(x, y);
        }
    }
    assert forall|x: Seq<char>, y: Seq<char>, z: Seq<char>| #[trigger] r(x, y) && #[trigger] r(y, z) implies r(x, z) by {
        if rank(x) == rank(y) && rank(y) == rank(z) && text_less(z, x) {
            if x != y {
                lemma_text_less_total(x, y);
                lemma_text_less_transitive(z, x, y);
            }
        }
    }
    assert forall|x: Seq<char>, y: Seq<char>| #[trigger] r(x, y) || #[trigger] r(y, x) by {
        if rank(x) == rank(y) && text_less(x, y) {
            lemma_text_less_asymmetric(x, y);
        }
    }
}

/// Inserts `item`, whose rank is `k`, into the sorted `r` after the entries
/// that do not come after it; `ks` holds the rank of each entry of `r`.
fn insert_in_rank_order(
    r: &mut Vec<String>,
    ks: &mut Vec<u16>,
    item: &String,
    k: u16,
    Ghost(rank): Ghost<spec_fn(Seq<char>) -> int>,
)
    requires
        total_ordering(ranked_leq(rank)),
        k == rank(item@),
        old(r)@.len() == old(ks)@.len(),
        forall|j: int| 0 <= j < old(r)@.len() ==> #[trigger] old(ks)@[j] == rank(old(r)@[j]@),
        sorted_by(views_of(old(r)@), ranked_leq(rank)),
    ensures
        final(r)@.len() == final(ks)@.len(),
        forall|j: int| 0 <= j < final(r)@.len() ==> #[trigger] final(ks)@[j] == rank(final(r)@[j]@),
        sorted_by(views_of(final(r)@), ranked_leq(rank)),
        views_of(final(r)@).to_multiset() == views_of(old(r)@).to_multiset().insert(item@),
{
    let ghost leq = ranked_leq(rank);
    let ghost x = item@;
    let ghost s = views_of(r@);
    let mut p: usize = 0;
    while p < r.len() && (ks[p] < k || (ks[p] == k && !text_is_less(item.as_str(), r[p].as_str())))
        invariant
            p <= r@.len(),
            leq == ranked_leq(rank),
            r@.len() == ks@.len(),
            s == views_of(r@),
            k == rank(x),
            item@ == x,
            forall|j: int| 0 <= j < r@.len() ==> #[trigger] ks@[j] == rank(r@[j]@),
            forall|j: int| 0 <= j < p ==> leq(#[trigger] s[j], x),
        decreases r@.len() - p,
    {
        assert(s[p as int] == r@[p as int]@);
        assert(ks@[p as int] == rank(s[p as int]));
        assert(leq(s[p as int], x));
        p = p + 1;
    }
    proof {
        if p < r@.len() {
            assert(s[p as int] == r@[p as int]@);
            assert(ks@[p as int] == rank(s[p as int]));
            assert(!leq(s[p as int], x));
            assert(leq(x, s[p as int]));
            assert forall|j: int| p <= j < s.len() implies leq(x, #[trigger] s[j]) by {
                if j > p {
                    assert(leq(s[p as int], s[j]));
                }
            }
        }
        lemma_insert_sorted(s, p as int, x, leq);
    }
    let ghost r0 = r@;
    let ghost ks0 = ks@;
    r.insert(p, item.clone());
    ks.insert(p, k);
    proof {
        assert(views_of(r@) =~= s.insert(p as int, x));
        r0.insert_ensures(p as int, r@[p as int]);
        ks0.insert_ensures(p as int, ks@[p as int]);
        assert forall|j: int| 0 <= j < r@.len() implies #[trigger] ks@[j] == rank(r@[j]@) by {
            if j > p {
                assert(r@[j] == r0[j - 1]);
                assert(ks@[j] == ks0[j - 1]);
            } else if j < p {
                assert(r@[j] == r0[j]);
                assert(ks@[j] == ks0[j]);
            }
        }
        vstd::seq_lib::to_multiset_insert(s, p as int, x);
    }
}

/// The texts ordered by their rank (`ranks` holds the rank of each text),
/// texts of equal rank in text order.
pub fn sort_by_rank(items: &Vec<String>, ranks: &Vec<u16>, Ghost(rank): Ghost<spec_fn(Seq<char>) -> int>) -> (r: Vec<
    String,
>)
    requires
        items@.len() == ranks@.len(),
        forall|i: int| 0 <= i < items@.len() ==> #[trigger] ranks@[i] == rank(items@[i]@),
    ensures
        views_of(r@) == views_of(items@).sort_by(ranked_leq(rank)),
{
    let ghost leq = ranked_leq(rank);
    proof {
        lemma_ranked_leq_total(rank);
    }
    let ghost all = views_of(items@);
    let mut r: Vec<String> = Vec::new();
    let mut ks: Vec<u16> = Vec::new();
    let mut i: usize = 0;
    assert(views_of(r@) =~= Seq::<Seq<char>>::empty());
    assert(all.take(0) =~= Seq::<Seq<char>>::empty());
    while i < items.len()
        invariant
            items@.len() == ranks@.len(),
            forall|j: int| 0 <= j < items@.len() ==> #[trigger] ranks@[j] == rank(items@[j]@),
            all == views_of(items@),
            leq == ranked_leq(rank),
            total_ordering(leq),
            i <= items.len(),
            r@.len() == ks@.len(),
            forall|j: int| 0 <= j < r@.len() ==> #[trigger] ks@[j] == rank(r@[j]@),
            sorted_by(views_of(r@), leq),
            views_of(r@).to_multiset() == all.take(i as int).to_multiset(),
        decreases items.len() - i,
    {
        insert_in_rank_order(&mut r, &mut ks, &items[i], ranks[i], Ghost(rank));
        proof {
            assert(all.take(i + 1) =~= all.take(i as int).push(all[i as int]));
            vstd::seq_lib::to_multiset_build(all.take(i as int), all[i as int]);
        }
        i = i + 1;
    }
    proof {
        assert(all.take(items.len() as int) =~= all);
        all.lemma_sort_by_ensures(leq);
        vstd::seq_lib::lemma_sorted_unique(views_of(r@), all.sort_by(leq), leq);
    }
    r
}

} // verus!
