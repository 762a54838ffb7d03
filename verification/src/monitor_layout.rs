//! How a host's monitors are laid out in the user interface: which
//! categories are shown and in what order, which monitors a category holds,
//! and which monitors make up the host's summary.

use vstd::prelude::*;
use crate::enums::str_equals;
use crate::configuration::{Category, CategoryView};
use crate::keyed::{views_of, KeyedList};
use crate::sorting::{ranked_leq, sort_by_rank};

verus! {

/// What the layout needs to know of one monitor of a host.
#[derive(Debug)]
pub struct MonitorEntry {
    /// Category the monitor is shown under; empty for none.
    pub category: String,
    /// Whether the monitor shows several values at once.
    pub use_multivalue: bool,
    /// Whether the monitor is left out of the summary.
    pub use_without_summary: bool,
    /// Monitor that this one stands for in the summary; empty for none.
    pub override_summary_monitor_id: String,
    /// Whether every value of the monitor is ignored or empty.
    pub without_content: bool,
}

pub struct MonitorEntryView {
    pub category: Seq<char>,
    pub use_multivalue: bool,
    pub use_without_summary: bool,
    pub override_summary_monitor_id: Seq<char>,
    pub without_content: bool,
}

impl View for MonitorEntry {
    type V = MonitorEntryView;

    open spec fn view(&self) -> MonitorEntryView {
        MonitorEntryView {
            category: self.category@,
            use_multivalue: self.use_multivalue,
            use_without_summary: self.use_without_summary,
            override_summary_monitor_id: self.override_summary_monitor_id@,
            without_content: self.without_content,
        }
    }
}

/// Ids among the first `n` monitors that `mask` marks and whose kind of
/// value (several or one) is `multivalue`, in id order.
pub open spec fn select_ids(
    ids: Seq<Seq<char>>,
    es: Seq<MonitorEntryView>,
    mask: Seq<bool>,
    multivalue: bool,
    n: nat,
) -> Seq<Seq<char>>
    decreases n,
{
    if n == 0 {
        Seq::empty()
    } else {
        let earlier = select_ids(ids, es, mask, multivalue, (n - 1) as nat);
        if mask[n - 1] && es[n - 1].use_multivalue == multivalue {
            earlier.push(ids[n - 1])
        } else {
            earlier
        }
    }
}

/// The marked monitors, those with one value first, each part in id order.
pub open spec fn by_value_type(ids: Seq<Seq<char>>, es: Seq<MonitorEntryView>, mask: Seq<bool>) -> Seq<Seq<char>> {
    select_ids(ids, es, mask, false, ids.len()) + select_ids(ids, es, mask, true, ids.len())
}

/// Ids of the monitors that `mask` marks and whose kind of value is
/// `multivalue`, in id order.
fn select_of_kind(monitors: &KeyedList<MonitorEntry>, mask: &Vec<bool>, multivalue: bool) -> (r: Vec<String>)
    requires
        mask@.len() == monitors.keys().len(),
    ensures
        views_of(r@) == select_ids(monitors.keys(), monitors.vals(), mask@, multivalue, monitors.keys().len()),
{
    let n = monitors.len();
    let mut r: Vec<String> = Vec::new();
    let mut i: usize = 0;
    while i < n
        invariant
            n == monitors.keys().len(),
            mask@.len() == n,
            monitors.consistent(),
            i <= n,
            views_of(r@) == select_ids(monitors.keys(), monitors.vals(), mask@, multivalue, i as nat),
        decreases n - i,
    {
        let entry = monitors.value_at(i);
        if mask[i] && entry.use_multivalue == multivalue {
            let ghost before = views_of(r@);
            r.push(monitors.key_at(i).clone());
            assert(views_of(r@) =~= before.push(monitors.keys()[i as int]));
        }
        i = i + 1;
    }
    r
}

/// The monitors that `mask` marks, those with one value first, each part in
/// id order.
pub fn sort_by_value_type(monitors: &KeyedList<MonitorEntry>, mask: &Vec<bool>) -> (r: Vec<String>)
    requires
        mask@.len() == monitors.keys().len(),
    ensures
        views_of(r@) == by_value_type(monitors.keys(), monitors.vals(), mask@),
{
    let mut single = select_of_kind(monitors, mask, false);
    let multi = select_of_kind(monitors, mask, true);
    let ghost a = views_of(single@);
    let ghost b = views_of(multi@);
    let mut i: usize = 0;
    while i < multi.len()
        invariant
            i <= multi.len(),
            b == views_of(multi@),
            views_of(single@) == a + b.take(i as int),
        decreases multi.len() - i,
    {
        let ghost before = views_of(single@);
        single.push(multi[i].clone());
        assert(views_of(single@) =~= before.push(b[i as int]));
        assert(b.take(i + 1) =~= b.take(i as int).push(b[i as int]));
        i = i + 1;
    }
    assert(b.take(multi.len() as int) =~= b);
    single
}


/// `mask` narrowed to the monitors of `category`.
pub open spec fn in_category(es: Seq<MonitorEntryView>, mask: Seq<bool>, category: Seq<char>) -> Seq<bool> {
    Seq::new(mask.len(), |i: int| mask[i] && es[i].category == category)
}

/// The marked monitors of the categories of `order`, category by category,
/// each category sorted by value type.
pub open spec fn keys_by_category(
    ids: Seq<Seq<char>>,
    es: Seq<MonitorEntryView>,
    mask: Seq<bool>,
    order: Seq<Seq<char>>,
) -> Seq<Seq<char>>
    decreases order.len(),
{
    if order.len() == 0 {
        Seq::empty()
    } else {
        keys_by_category(ids, es, mask, order.drop_last()) + by_value_type(ids, es, in_category(es, mask, order.last()))
    }
}

/// The marked monitors in display order: first those of the categories
/// that the configuration orders, then the rest sorted by value type.
pub open spec fn ordered_keys(
    ids: Seq<Seq<char>>,
    es: Seq<MonitorEntryView>,
    mask: Seq<bool>,
    order: Seq<Seq<char>>,
) -> Seq<Seq<char>> {
    let first = keys_by_category(ids, es, mask, order);
    first + by_value_type(ids, es, Seq::new(mask.len(), |i: int| mask[i] && !first.contains(ids[i])))
}

/// `mask` narrowed to the monitors of `category`.
fn category_mask(monitors: &KeyedList<MonitorEntry>, mask: &Vec<bool>, category: &str) -> (r: Vec<bool>)
    requires
        mask@.len() == monitors.keys().len(),
    ensures
        r@ == in_category(monitors.vals(), mask@, category@),
{
    let n = monitors.len();
    let mut r: Vec<bool> = Vec::new();
    let mut i: usize = 0;
    while i < n
        invariant
            n == monitors.keys().len(),
            mask@.len() == n,
            monitors.consistent(),
            i <= n,
            r@.len() == i,
            forall|j: int| 0 <= j < i ==> r@[j] == (mask@[j] && monitors.vals()[j].category == category@),
        decreases n - i,
    {
        let b = mask[i] && str_equals(monitors.value_at(i).category.as_str(), category);
        r.push(b);
        i = i + 1;
    }
    assert(r@ =~= in_category(monitors.vals(), mask@, category@));
    r
}

/// `a` followed by the texts of `b`.
fn append_texts(a: &mut Vec<String>, b: Vec<String>)
    ensures
        views_of(final(a)@) == views_of(old(a)@) + views_of(b@),
{
    let ghost a0 = views_of(a@);
    let ghost bv = views_of(b@);
    let mut i: usize = 0;
    while i < b.len()
        invariant
            i <= b.len(),
            bv == views_of(b@),
            views_of(a@) == a0 + bv.take(i as int),
        decreases b.len() - i,
    {
        let ghost before = views_of(a@);
        a.push(b[i].clone());
        assert(views_of(a@) =~= before.push(bv[i as int]));
        assert(bv.take(i + 1) =~= bv.take(i as int).push(bv[i as int]));
        i = i + 1;
    }
    assert(bv.take(b.len() as int) =~= bv);
}

/// The monitors that `mask` marks, in display order: those of the
/// categories in `category_order` first, category by category, then the
/// rest; each part with single-valued monitors before multivalued ones.
pub fn monitor_keys_sorted(monitors: &KeyedList<MonitorEntry>, mask: &Vec<bool>, category_order: &Vec<String>) -> (r: Vec<String>)
    requires
        mask@.len() == monitors.keys().len(),
    ensures
        views_of(r@) == ordered_keys(monitors.keys(), monitors.vals(), mask@, views_of(category_order@)),
{
    let ghost ids = monitors.keys();
    let ghost es = monitors.vals();
    let ghost order = views_of(category_order@);
    let mut keys: Vec<String> = Vec::new();
    let mut k: usize = 0;
    while k < category_order.len()
        invariant
            ids == monitors.keys(),
            es == monitors.vals(),
            order == views_of(category_order@),
            mask@.len() == ids.len(),
            k <= category_order.len(),
            views_of(keys@) == keys_by_category(ids, es, mask@, order.take(k as int)),
        decreases category_order.len() - k,
    {
        assert(order.take(k + 1).drop_last() =~= order.take(k as int));
        let cmask = category_mask(monitors, mask, category_order[k].as_str());
        let part = sort_by_value_type(monitors, &cmask);
        append_texts(&mut keys, part);
        k = k + 1;
    }
    assert(order.take(category_order.len() as int) =~= order);
    let n = monitors.len();
    let ghost first = views_of(keys@);
    let mut rest: Vec<bool> = Vec::new();
    let mut i: usize = 0;
    while i < n
        invariant
            n == ids.len(),
            ids == monitors.keys(),
            monitors.consistent(),
            mask@.len() == n,
            first == views_of(keys@),
            i <= n,
            rest@.len() == i,
            forall|j: int| 0 <= j < i ==> rest@[j] == (mask@[j] && !first.contains(ids[j])),
        decreases n - i,
    {
        let b = mask[i] && !crate::config_editor::contains_text(&keys, monitors.key_at(i).as_str());
        rest.push(b);
        i = i + 1;
    }
    assert(rest@ =~= Seq::new(mask@.len(), |j: int| mask@[j] && !first.contains(ids[j])));
    let tail = sort_by_value_type(monitors, &rest);
    append_texts(&mut keys, tail);
    keys
}

/// Whether some monitor stands for `id` in the summary.
pub open spec fn is_overridden(es: Seq<MonitorEntryView>, id: Seq<char>) -> bool {
    exists|i: int| 0 <= i < es.len() && #[trigger] es[i].override_summary_monitor_id == id && id.len() > 0
}

/// The monitors that may be part of the summary: not left out of it, and
/// not stood for by another monitor.
pub open spec fn summary_mask(ids: Seq<Seq<char>>, es: Seq<MonitorEntryView>) -> Seq<bool> {
    Seq::new(ids.len(), |i: int| !es[i].use_without_summary && !is_overridden(es, ids[i]))
}

/// Ids of the monitors that make up a host's summary, in display order.
pub fn summary_monitor_ids(monitors: &KeyedList<MonitorEntry>, category_order: &Vec<String>) -> (r: Vec<String>)
    ensures
        views_of(r@) == ordered_keys(
            monitors.keys(),
            monitors.vals(),
            summary_mask(monitors.keys(), monitors.vals()),
            views_of(category_order@),
        ),
{
    let n = monitors.len();
    let ghost es = monitors.vals();
    let mut overridden: Vec<String> = Vec::new();
    let mut i: usize = 0;
    while i < n
        invariant
            n == monitors.keys().len(),
            es == monitors.vals(),
            monitors.consistent(),
            i <= n,
            forall|id: Seq<char>| views_of(overridden@).contains(id) <==> exists|j: int|
                0 <= j < i && #[trigger] es[j].override_summary_monitor_id == id && id.len() > 0,
        decreases n - i,
    {
        let entry = monitors.value_at(i);
        let ghost before = views_of(overridden@);
        if !entry.override_summary_monitor_id.as_str().is_empty() {
            overridden.push(entry.override_summary_monitor_id.clone());
            assert(views_of(overridden@) =~= before.push(es[i as int].override_summary_monitor_id));
        }
        proof {
            assert forall|id: Seq<char>| views_of(overridden@).contains(id) <==> exists|j: int|
                0 <= j < i + 1 && #[trigger] es[j].override_summary_monitor_id == id && id.len() > 0 by {
                if views_of(overridden@).contains(id) && !before.contains(id) {
                    assert(es[i as int].override_summary_monitor_id == id);
                }
                if exists|j: int| 0 <= j < i + 1 && #[trigger] es[j].override_summary_monitor_id == id && id.len() > 0 {
                    let j = choose|j: int| 0 <= j < i + 1 && #[trigger] es[j].override_summary_monitor_id == id && id.len() > 0;
                    if j == i {
                        assert(views_of(overridden@)[views_of(overridden@).len() - 1] == id);
                    } else {
                        assert(before.contains(id));
                        let k = before.index_of(id);
                        assert(views_of(overridden@)[k] == id);
                    }
                }
            }
        }
        i = i + 1;
    }
    let mut mask: Vec<bool> = Vec::new();
    let mut i: usize = 0;
    while i < n
        invariant
            n == monitors.keys().len(),
            es == monitors.vals(),
            monitors.consistent(),
            i <= n,
            mask@.len() == i,
            forall|id: Seq<char>| views_of(overridden@).contains(id) <==> is_overridden(es, id),
            forall|j: int| 0 <= j < i ==> mask@[j] == summary_mask(monitors.keys(), es)[j],
        decreases n - i,
    {
        let b = !monitors.value_at(i).use_without_summary
            && !crate::config_editor::contains_text(&overridden, monitors.key_at(i).as_str());
        mask.push(b);
        i = i + 1;
    }
    assert(mask@ =~= summary_mask(monitors.keys(), es));
    monitor_keys_sorted(monitors, &mask, category_order)
}

/// Ids among the first `n` monitors whose category is `category`.
pub open spec fn category_ids(ids: Seq<Seq<char>>, es: Seq<MonitorEntryView>, category: Seq<char>, n: nat) -> Seq<
    Seq<char>,
>
    decreases n,
{
    if n == 0 {
        Seq::empty()
    } else if es[n - 1].category == category {
        category_ids(ids, es, category, (n - 1) as nat).push(ids[n - 1])
    } else {
        category_ids(ids, es, category, (n - 1) as nat)
    }
}

/// Ids of a host's monitors under `category`, in id order.
pub fn category_monitor_ids(monitors: &KeyedList<MonitorEntry>, category: &str) -> (r: Vec<String>)
    ensures
        views_of(r@) == category_ids(monitors.keys(), monitors.vals(), category@, monitors.keys().len()),
{
    let n = monitors.len();
    let mut r: Vec<String> = Vec::new();
    let mut i: usize = 0;
    while i < n
        invariant
            n == monitors.keys().len(),
            monitors.consistent(),
            i <= n,
            views_of(r@) == category_ids(monitors.keys(), monitors.vals(), category@, i as nat),
        decreases n - i,
    {
        if str_equals(monitors.value_at(i).category.as_str(), category) {
            let ghost before = views_of(r@);
            r.push(monitors.key_at(i).clone());
            assert(views_of(r@) =~= before.push(monitors.keys()[i as int]));
        }
        i = i + 1;
    }
    r
}

/// Whether every monitor under `category` is without content (so also when
/// none is).
pub open spec fn empty_category(es: Seq<MonitorEntryView>, category: Seq<char>) -> bool {
    forall|i: int| 0 <= i < es.len() && #[trigger] es[i].category == category ==> es[i].without_content
}

/// Whether a category holds nothing to show.
pub fn is_empty_category(monitors: &KeyedList<MonitorEntry>, category: &str) -> (r: bool)
    ensures
        r == empty_category(monitors.vals(), category@),
{
    let n = monitors.len();
    let mut i: usize = 0;
    while i < n
        invariant
            n == monitors.keys().len(),
            monitors.consistent(),
            i <= n,
            forall|j: int| 0 <= j < i && #[trigger] monitors.vals()[j].category == category@ ==> monitors.vals()[j].without_content,
        decreases n - i,
    {
        let entry = monitors.value_at(i);
        if str_equals(entry.category.as_str(), category) && !entry.without_content {
            assert(monitors.vals()[i as int].category == category@);
            return false;
        }
        i = i + 1;
    }
    true
}

/// Whether some monitor is under `category`, which is not empty.
pub open spec fn has_category(es: Seq<MonitorEntryView>, category: Seq<char>) -> bool {
    category.len() > 0 && exists|i: int| 0 <= i < es.len() && #[trigger] es[i].category == category
}

/// The categories of `order` that are shown, in that order: those some
/// monitor is under, unless empty ones are left out; and those that hold
/// something to show.
pub open spec fn prioritized_categories(es: Seq<MonitorEntryView>, order: Seq<Seq<char>>, ignore_empty: bool) -> Seq<
    Seq<char>,
>
    decreases order.len(),
{
    if order.len() == 0 {
        Seq::empty()
    } else {
        let earlier = prioritized_categories(es, order.drop_last(), ignore_empty);
        let c = order.last();
        if (has_category(es, c) && !ignore_empty) || !empty_category(es, c) {
            earlier.push(c)
        } else {
            earlier
        }
    }
}

/// Whether a category that `order` does not name is shown after the ordered
/// ones.
pub open spec fn shown_unordered(es: Seq<MonitorEntryView>, order: Seq<Seq<char>>, ignore_empty: bool, c: Seq<char>) -> bool {
    has_category(es, c) && !order.contains(c) && (!ignore_empty || !empty_category(es, c))
}

/// The categories of a host's monitors as the user interface lists them:
/// first those of `category_order`, in that order, then the others in text
/// order, each once. With `ignore_empty`, categories with nothing to show
/// are left out.
pub fn categories(monitors: &KeyedList<MonitorEntry>, category_order: &Vec<String>, ignore_empty: bool) -> (r: Vec<String>)
    ensures
        ({
            let es = monitors.vals();
            let order = views_of(category_order@);
            let first = prioritized_categories(es, order, ignore_empty);
            let rest = views_of(r@).skip(first.len() as int);
            &&& views_of(r@).len() >= first.len()
            &&& views_of(r@).take(first.len() as int) == first
            &&& crate::keyed::sorted_keys(rest)
            &&& forall|c: Seq<char>| rest.contains(c) <==> shown_unordered(es, order, ignore_empty, c)
        }),
{
    let ghost es = monitors.vals();
    let ghost order = views_of(category_order@);
    let n = monitors.len();
    let mut found: KeyedList<String> = KeyedList::new();
    let mut i: usize = 0;
    while i < n
        invariant
            n == monitors.keys().len(),
            es == monitors.vals(),
            monitors.consistent(),
            i <= n,
            forall|c: Seq<char>| #[trigger] found@.contains_key(c) <==> (c.len() > 0 && exists|j: int|
                0 <= j < i && #[trigger] es[j].category == c),
        decreases n - i,
    {
        let category = &monitors.value_at(i).category;
        assert(es[i as int].category == category@);
        let ghost before = found@;
        if !category.as_str().is_empty() {
            found.insert(category.clone(), category.clone());
        }
        proof {
            assert forall|c: Seq<char>| #[trigger] found@.contains_key(c) <==> (c.len() > 0 && exists|j: int|
                0 <= j < i + 1 && #[trigger] es[j].category == c) by {
                if found@.contains_key(c) {
                    if !before.contains_key(c) {
                        assert(c == category@);
                        assert(es[i as int].category == c);
                    }
                }
                if c.len() > 0 && exists|j: int| 0 <= j < i + 1 && #[trigger] es[j].category == c {
                    let j = choose|j: int| 0 <= j < i + 1 && #[trigger] es[j].category == c;
                    if j < i {
                        assert(exists|j: int| 0 <= j < i && #[trigger] es[j].category == c);
                        assert(before.contains_key(c));
                    } else {
                        assert(c == category@);
                    }
                }
            }
        }
        i = i + 1;
    }
    let mut r: Vec<String> = Vec::new();
    let mut k: usize = 0;
    while k < category_order.len()
        invariant
            es == monitors.vals(),
            order == views_of(category_order@),
            k <= category_order.len(),
            forall|c: Seq<char>| #[trigger] found@.contains_key(c) <==> has_category(es, c),
            views_of(r@) == prioritized_categories(es, order.take(k as int), ignore_empty),
        decreases category_order.len() - k,
    {
        assert(order.take(k + 1).drop_last() =~= order.take(k as int));
        let c = &category_order[k];
        if (found.contains_key(c.as_str()) && !ignore_empty) || !is_empty_category(monitors, c.as_str()) {
            let ghost before = views_of(r@);
            r.push(c.clone());
            assert(views_of(r@) =~= before.push(c@));
        }
        k = k + 1;
    }
    assert(order.take(category_order.len() as int) =~= order);
    let ghost first = views_of(r@);
    let m = found.len();
    let ghost fk = found.keys();
    let mut j: usize = 0;
    while j < m
        invariant
            es == monitors.vals(),
            order == views_of(category_order@),
            m == fk.len(),
            fk == found.keys(),
            found.consistent(),
            forall|c: Seq<char>| #[trigger] found@.contains_key(c) <==> has_category(es, c),
            j <= m,
            views_of(r@).len() >= first.len(),
            views_of(r@).take(first.len() as int) == first,
            forall|x: int| 0 <= x < views_of(r@).skip(first.len() as int).len() ==> exists|y: int|
                0 <= y < j && fk[y] == #[trigger] views_of(r@).skip(first.len() as int)[x],
            crate::keyed::sorted_keys(views_of(r@).skip(first.len() as int)),
            forall|c: Seq<char>| views_of(r@).skip(first.len() as int).contains(c) <==> exists|y: int|
                0 <= y < j && #[trigger] fk[y] == c && shown_unordered(es, order, ignore_empty, c),
        decreases m - j,
    {
        let c = found.key_at(j);
        assert(found@.contains_key(fk[j as int]));
        let ghost before = views_of(r@);
        let ghost rest0 = before.skip(first.len() as int);
        if !crate::config_editor::contains_text(category_order, c.as_str()) && (!ignore_empty || !is_empty_category(monitors, c.as_str())) {
            r.push(c.clone());
            assert(views_of(r@) =~= before.push(c@));
            assert(views_of(r@).skip(first.len() as int) =~= rest0.push(c@));
            assert(views_of(r@).take(first.len() as int) =~= before.take(first.len() as int));
            proof {
                let rest1 = rest0.push(c@);
                assert forall|x: int, y: int| 0 <= x < y < rest1.len() implies crate::text::text_less(
                    #[trigger] rest1[x],
                    #[trigger] rest1[y],
                ) by {
                    if y == rest1.len() - 1 {
                        let z = choose|z: int| 0 <= z < j && fk[z] == #[trigger] rest0[x];
                        assert(rest1[x] == rest0[x]);
                        assert(crate::keyed::sorted_keys(fk));
                        assert(text_less_at(fk, z, j as int));
                    } else {
                        assert(rest1[x] == rest0[x] && rest1[y] == rest0[y]);
                    }
                }
                assert forall|x: int| 0 <= x < rest1.len() implies exists|y: int|
                    0 <= y < j + 1 && fk[y] == #[trigger] rest1[x] by {
                    if x < rest0.len() {
                        assert(rest1[x] == rest0[x]);
                    } else {
                        assert(fk[j as int] == rest1[x]);
                    }
                }
                assert forall|d: Seq<char>| rest1.contains(d) <==> exists|y: int|
                    0 <= y < j + 1 && #[trigger] fk[y] == d && shown_unordered(es, order, ignore_empty, d) by {
                    if rest1.contains(d) {
                        if d == c@ {
                            assert(fk[j as int] == d);
                            assert(has_category(es, d));
                            assert(shown_unordered(es, order, ignore_empty, d));
                        } else {
                            let x = rest1.index_of(d);
                            assert(rest0[x] == d);
                            assert(rest0.contains(d));
                            let y = choose|y: int| 0 <= y < j && #[trigger] fk[y] == d && shown_unordered(es, order, ignore_empty, d);
                            assert(0 <= y < j + 1 && fk[y] == d);
                        }
                    }
                    if exists|y: int| 0 <= y < j + 1 && #[trigger] fk[y] == d && shown_unordered(es, order, ignore_empty, d) {
                        if d == c@ {
                            assert(rest1[rest1.len() - 1] == d);
                        } else {
                            let y = choose|y: int| 0 <= y < j + 1 && #[trigger] fk[y] == d && shown_unordered(es, order, ignore_empty, d);
                            assert(y < j);
                            assert(exists|y2: int| 0 <= y2 < j && #[trigger] fk[y2] == d && shown_unordered(es, order, ignore_empty, d));
                            assert(rest0.contains(d));
                            let x = rest0.index_of(d);
                            assert(rest1[x] == d);
                        }
                    }
                }
            }
        } else {
            proof {
                assert forall|d: Seq<char>| rest0.contains(d) <==> exists|y: int|
                    0 <= y < j + 1 && #[trigger] fk[y] == d && shown_unordered(es, order, ignore_empty, d) by {
                    if exists|y: int| 0 <= y < j + 1 && #[trigger] fk[y] == d && shown_unordered(es, order, ignore_empty, d) {
                        let y = choose|y: int| 0 <= y < j + 1 && #[trigger] fk[y] == d && shown_unordered(es, order, ignore_empty, d);
                        if y == j {
                            assert(fk[j as int] == c@);
                            assert(false);
                        }
                    }
                }
            }
        }
        j = j + 1;
    }
    proof {
        let rest = views_of(r@).skip(first.len() as int);
        assert forall|c: Seq<char>| rest.contains(c) <==> shown_unordered(es, order, ignore_empty, c) by {
            if shown_unordered(es, order, ignore_empty, c) {
                assert(found@.contains_key(c));
                assert(fk.contains(c));
                let y = fk.index_of(c);
                assert(fk[y] == c);
            }
        }
    }
    r
}

spec fn text_less_at(ks: Seq<Seq<char>>, a: int, b: int) -> bool {
    crate::text::text_less(ks[a], ks[b])
}

/// How many of `categories` equal `category`.
pub open spec fn count_in_category(categories: Seq<Seq<char>>, category: Seq<char>) -> nat
    decreases categories.len(),
{
    if categories.len() == 0 {
        0
    } else {
        count_in_category(categories.drop_last(), category) + if categories.last() == category { 1nat } else { 0nat }
    }
}

proof fn lemma_count_bound(categories: Seq<Seq<char>>, category: Seq<char>)
    ensures
        count_in_category(categories, category) <= categories.len(),
    decreases categories.len(),
{
    if categories.len() > 0 {
        lemma_count_bound(categories.drop_last(), category);
    }
}

/// Number of pending invocations under `category`, given the category of
/// each pending invocation of a host.
pub fn pending_count_for_category(invocation_categories: &Vec<String>, category: &str) -> (r: u64)
    requires
        invocation_categories@.len() <= u64::MAX,
    ensures
        r == count_in_category(views_of(invocation_categories@), category@),
{
    let ghost cs = views_of(invocation_categories@);
    let mut count: u64 = 0;
    let mut i: usize = 0;
    while i < invocation_categories.len()
        invariant
            cs == views_of(invocation_categories@),
            invocation_categories@.len() <= u64::MAX,
            i <= invocation_categories.len(),
            count == count_in_category(cs.take(i as int), category@),
        decreases invocation_categories.len() - i,
    {
        assert(cs.take(i + 1).drop_last() =~= cs.take(i as int));
        proof {
            lemma_count_bound(cs.take(i as int), category@);
        }
        if str_equals(invocation_categories[i].as_str(), category) {
            count = count + 1;
        }
        i = i + 1;
    }
    assert(cs.take(invocation_categories.len() as int) =~= cs);
    count
}

/// Whether no invocation before position `i` has the id.
pub open spec fn none_before(invocations: Seq<(u64, u8)>, invocation_id: u64, i: int) -> bool {
    forall|j: int| 0 <= j < i ==> #[trigger] invocations[j].0 != invocation_id
}

/// Progress of a pending command invocation, given the id and progress of
/// every pending command: that of the first invocation with the id, or
/// complete (100) when none has it.
pub fn pending_command_progress(invocations: &Vec<(u64, u8)>, invocation_id: u64) -> (r: u8)
    ensures
        forall|i: int|
            0 <= i < invocations@.len() && invocations@[i].0 == invocation_id && #[trigger] none_before(invocations@, invocation_id, i)
                ==> r == invocations@[i].1,
        none_before(invocations@, invocation_id, invocations@.len() as int) ==> r == 100,
{
    let mut i: usize = 0;
    while i < invocations.len()
        invariant
            i <= invocations.len(),
            none_before(invocations@, invocation_id, i as int),
        decreases invocations.len() - i,
    {
        if invocations[i].0 == invocation_id {
            proof {
                assert forall|k: int|
                    0 <= k < invocations@.len() && invocations@[k].0 == invocation_id && #[trigger] none_before(invocations@, invocation_id, k)
                    implies k == i by {
                    if k < i {
                        assert(invocations@[k].0 != invocation_id);
                    } else if k > i {
                        assert(invocations@[i as int].0 != invocation_id);
                    }
                }
            }
            return invocations[i].1;
        }
        i = i + 1;
    }
    100
}

/// Whether the user interface treats a host as initialized. `state` holds,
/// for a known host, whether its platform is known and whether it finished
/// initializing; when the cache is used and preferred, a known platform is
/// enough.
pub fn is_host_initialized(state: Option<(bool, bool)>, enable_cache: bool, prefer_cache: bool) -> (r: bool)
    ensures
        r == match state {
            Some((platform_set, initialized)) => if enable_cache && prefer_cache {
                platform_set
            } else {
                initialized
            },
            None => false,
        },
{
    match state {
        Some((platform_set, initialized)) => {
            if enable_cache && prefer_cache {
                platform_set
            } else {
                initialized
            }
        },
        None => false,
    }
}

proof fn lemma_select_members(
    ids: Seq<Seq<char>>,
    es: Seq<MonitorEntryView>,
    mask: Seq<bool>,
    multivalue: bool,
    n: nat,
)
    requires
        n <= ids.len(),
        n <= es.len(),
        n <= mask.len(),
    ensures
        forall|x: Seq<char>| #[trigger] select_ids(ids, es, mask, multivalue, n).contains(x) <==> exists|i: int|
            0 <= i < n && mask[i] && es[i].use_multivalue == multivalue && #[trigger] ids[i] == x,
    decreases n,
{
    if n > 0 {
        let m = (n - 1) as nat;
        lemma_select_members(ids, es, mask, multivalue, m);
        let earlier = select_ids(ids, es, mask, multivalue, m);
        assert forall|x: Seq<char>| #[trigger] select_ids(ids, es, mask, multivalue, n).contains(x) <==> exists|i: int|
            0 <= i < n && mask[i] && es[i].use_multivalue == multivalue && #[trigger] ids[i] == x by {
            let now = select_ids(ids, es, mask, multivalue, n);
            if mask[m as int] && es[m as int].use_multivalue == multivalue {
                assert(now == earlier.push(ids[m as int]));
                if now.contains(x) {
                    if x == ids[m as int] {
                        assert(0 <= m < n && mask[m as int] && es[m as int].use_multivalue == multivalue && ids[m as int] == x);
                    } else {
                        let k = now.index_of(x);
                        assert(earlier[k] == x);
                        assert(earlier.contains(x));
                        let i = choose|i: int| 0 <= i < m && mask[i] && es[i].use_multivalue == multivalue && #[trigger] ids[i] == x;
                        assert(0 <= i < n && mask[i] && es[i].use_multivalue == multivalue && ids[i] == x);
                    }
                }
                if exists|i: int| 0 <= i < n && mask[i] && es[i].use_multivalue == multivalue && #[trigger] ids[i] == x {
                    let i = choose|i: int| 0 <= i < n && mask[i] && es[i].use_multivalue == multivalue && #[trigger] ids[i] == x;
                    if i < m {
                        assert(earlier.contains(x));
                        let k = earlier.index_of(x);
                        assert(now[k] == x);
                    } else {
                        assert(now[now.len() - 1] == x);
                    }
                }
            } else {
                assert(now == earlier);
                if exists|i: int| 0 <= i < n && mask[i] && es[i].use_multivalue == multivalue && #[trigger] ids[i] == x {
                    let i = choose|i: int| 0 <= i < n && mask[i] && es[i].use_multivalue == multivalue && #[trigger] ids[i] == x;
                    assert(i < m);
                }
                if now.contains(x) {
                    let i = choose|i: int| 0 <= i < m && mask[i] && es[i].use_multivalue == multivalue && #[trigger] ids[i] == x;
                    assert(0 <= i < n && mask[i] && es[i].use_multivalue == multivalue && ids[i] == x);
                }
            }
        }
    }
}

proof fn lemma_by_value_type_members(ids: Seq<Seq<char>>, es: Seq<MonitorEntryView>, mask: Seq<bool>)
    requires
        mask.len() == ids.len(),
        es.len() == ids.len(),
    ensures
        forall|x: Seq<char>| #[trigger] by_value_type(ids, es, mask).contains(x) <==> exists|i: int|
            0 <= i < ids.len() && mask[i] && #[trigger] ids[i] == x,
{
    lemma_select_members(ids, es, mask, false, ids.len());
    lemma_select_members(ids, es, mask, true, ids.len());
    let a = select_ids(ids, es, mask, false, ids.len());
    let b = select_ids(ids, es, mask, true, ids.len());
    assert forall|x: Seq<char>| #[trigger] by_value_type(ids, es, mask).contains(x) <==> exists|i: int|
        0 <= i < ids.len() && mask[i] && #[trigger] ids[i] == x by {
        let ab = a + b;
        if ab.contains(x) {
            let k = ab.index_of(x);
            if k < a.len() {
                assert(a[k] == x);
                assert(a.contains(x));
            } else {
                assert(b[k - a.len()] == x);
                assert(b.contains(x));
            }
        }
        if exists|i: int| 0 <= i < ids.len() && mask[i] && #[trigger] ids[i] == x {
            let i = choose|i: int| 0 <= i < ids.len() && mask[i] && #[trigger] ids[i] == x;
            if es[i].use_multivalue {
                assert(b.contains(x));
                let k = b.index_of(x);
                assert(ab[a.len() + k] == x);
            } else {
                assert(a.contains(x));
                let k = a.index_of(x);
                assert(ab[k] == x);
            }
        }
    }
}

proof fn lemma_by_category_members(ids: Seq<Seq<char>>, es: Seq<MonitorEntryView>, mask: Seq<bool>, order: Seq<Seq<char>>)
    requires
        mask.len() == ids.len(),
        es.len() == ids.len(),
    ensures
        forall|x: Seq<char>| #[trigger] keys_by_category(ids, es, mask, order).contains(x) ==> exists|i: int|
            0 <= i < ids.len() && mask[i] && #[trigger] ids[i] == x,
        forall|i: int| 0 <= i < ids.len() && mask[i] && order.contains(es[i].category) ==> keys_by_category(ids, es, mask, order).contains(#[trigger] ids[i]),
    decreases order.len(),
{
    if order.len() > 0 {
        let rest = order.drop_last();
        lemma_by_category_members(ids, es, mask, rest);
        let c = order.last();
        let cm = in_category(es, mask, c);
        lemma_by_value_type_members(ids, es, cm);
        let a = keys_by_category(ids, es, mask, rest);
        let b = by_value_type(ids, es, cm);
        assert(keys_by_category(ids, es, mask, order) == a + b);
        assert forall|x: Seq<char>| #[trigger] keys_by_category(ids, es, mask, order).contains(x) implies exists|i: int|
            0 <= i < ids.len() && mask[i] && #[trigger] ids[i] == x by {
            let k = (a + b).index_of(x);
            if k < a.len() {
                assert(a[k] == x);
                assert(a.contains(x));
            } else {
                assert(b[k - a.len()] == x);
                assert(b.contains(x));
                let i = choose|i: int| 0 <= i < ids.len() && cm[i] && #[trigger] ids[i] == x;
                assert(mask[i]);
            }
        }
        assert forall|i: int| 0 <= i < ids.len() && mask[i] && order.contains(es[i].category) implies keys_by_category(
            ids,
            es,
            mask,
            order,
        ).contains(#[trigger] ids[i]) by {
            let x = ids[i];
            if es[i].category == c {
                assert(cm[i]);
                assert(b.contains(x));
                let k = b.index_of(x);
                assert((a + b)[a.len() + k] == x);
            } else {
                let j = order.index_of(es[i].category);
                assert(rest[j] == es[i].category);
                assert(a.contains(x));
                let k = a.index_of(x);
                assert((a + b)[k] == x);
            }
        }
    }
}

/// The monitors listed in display order are exactly those marked: none is
/// lost and none is added.
pub proof fn law_ordered_keys_are_the_marked(
    ids: Seq<Seq<char>>,
    es: Seq<MonitorEntryView>,
    mask: Seq<bool>,
    order: Seq<Seq<char>>,
)
    requires
        mask.len() == ids.len(),
        es.len() == ids.len(),
    ensures
        forall|x: Seq<char>| #[trigger] ordered_keys(ids, es, mask, order).contains(x) <==> exists|i: int|
            0 <= i < ids.len() && mask[i] && #[trigger] ids[i] == x,
{
    lemma_by_category_members(ids, es, mask, order);
    let first = keys_by_category(ids, es, mask, order);
    let rm = Seq::new(mask.len(), |i: int| mask[i] && !first.contains(ids[i]));
    lemma_by_value_type_members(ids, es, rm);
    let b = by_value_type(ids, es, rm);
    assert forall|x: Seq<char>| #[trigger] ordered_keys(ids, es, mask, order).contains(x) <==> exists|i: int|
        0 <= i < ids.len() && mask[i] && #[trigger] ids[i] == x by {
        let all = first + b;
        assert(ordered_keys(ids, es, mask, order) == all);
        if all.contains(x) {
            let k = all.index_of(x);
            if k < first.len() {
                assert(first[k] == x);
                assert(first.contains(x));
            } else {
                assert(b[k - first.len()] == x);
                assert(b.contains(x));
                let i = choose|i: int| 0 <= i < ids.len() && rm[i] && #[trigger] ids[i] == x;
                assert(mask[i]);
            }
        }
        if exists|i: int| 0 <= i < ids.len() && mask[i] && #[trigger] ids[i] == x {
            let i = choose|i: int| 0 <= i < ids.len() && mask[i] && #[trigger] ids[i] == x;
            if first.contains(x) {
                let k = first.index_of(x);
                assert(all[k] == x);
            } else {
                assert(rm[i]);
                assert(b.contains(x));
                let k = b.index_of(x);
                assert(all[first.len() + k] == x);
            }
        }
    }
}

proof fn lemma_prioritized_from_order(es: Seq<MonitorEntryView>, order: Seq<Seq<char>>, ignore_empty: bool)
    ensures
        forall|c: Seq<char>| #[trigger] prioritized_categories(es, order, ignore_empty).contains(c) ==> order.contains(c),
        order.no_duplicates() ==> prioritized_categories(es, order, ignore_empty).no_duplicates(),
        forall|c: Seq<char>|
            #[trigger] order.contains(c) && ((has_category(es, c) && !ignore_empty) || !empty_category(es, c))
                ==> prioritized_categories(es, order, ignore_empty).contains(c),
    decreases order.len(),
{
    if order.len() > 0 {
        let rest = order.drop_last();
        lemma_prioritized_from_order(es, rest, ignore_empty);
        let earlier = prioritized_categories(es, rest, ignore_empty);
        let c = order.last();
        let now = prioritized_categories(es, order, ignore_empty);
        assert forall|d: Seq<char>| #[trigger] now.contains(d) implies order.contains(d) by {
            if d == c {
                assert(order[order.len() - 1] == d);
            } else {
                let k = now.index_of(d);
                assert(earlier[k] == d);
                assert(earlier.contains(d));
                let j = rest.index_of(d);
                assert(order[j] == d);
            }
        }
        if order.no_duplicates() {
            assert(rest.no_duplicates()) by {
                assert forall|i: int, j: int| 0 <= i < rest.len() && 0 <= j < rest.len() && i != j implies rest[i] != rest[j] by {
                    assert(rest[i] == order[i] && rest[j] == order[j]);
                }
            }
            if (has_category(es, c) && !ignore_empty) || !empty_category(es, c) {
                assert(!earlier.contains(c)) by {
                    if earlier.contains(c) {
                        let j = rest.index_of(c);
                        assert(order[j] == c);
                        assert(order[order.len() - 1] == c);
                    }
                }
                assert forall|i: int, j: int| 0 <= i < now.len() && 0 <= j < now.len() && i != j implies now[i] != now[j] by {
                    if i == now.len() - 1 {
                        assert(earlier[j] == now[j]);
                    } else if j == now.len() - 1 {
                        assert(earlier[i] == now[i]);
                    } else {
                        assert(earlier[i] == now[i] && earlier[j] == now[j]);
                    }
                }
            }
        }
        assert forall|d: Seq<char>|
            #[trigger] order.contains(d) && ((has_category(es, d) && !ignore_empty) || !empty_category(es, d))
            implies now.contains(d) by {
            if d == c {
                assert(now[now.len() - 1] == d);
            } else {
                let j = order.index_of(d);
                assert(rest[j] == d);
                assert(rest.contains(d));
                assert(earlier.contains(d));
                let k = earlier.index_of(d);
                assert(now[k] == d);
            }
        }
    }
}

/// The listed categories hold no category twice, so long as the
/// configured order names none twice.
pub proof fn law_categories_listed_once(
    es: Seq<MonitorEntryView>,
    order: Seq<Seq<char>>,
    ignore_empty: bool,
    rest: Seq<Seq<char>>,
)
    requires
        order.no_duplicates(),
        crate::keyed::sorted_keys(rest),
        forall|c: Seq<char>| rest.contains(c) <==> shown_unordered(es, order, ignore_empty, c),
    ensures
        (prioritized_categories(es, order, ignore_empty) + rest).no_duplicates(),
{
    lemma_prioritized_from_order(es, order, ignore_empty);
    crate::keyed::lemma_sorted_no_duplicates(rest);
    let first = prioritized_categories(es, order, ignore_empty);
    let all = first + rest;
    assert forall|i: int, j: int| 0 <= i < all.len() && 0 <= j < all.len() && i != j implies all[i] != all[j] by {
        if i < first.len() && j < first.len() {
            assert(all[i] == first[i] && all[j] == first[j]);
        } else if i >= first.len() && j >= first.len() {
            assert(all[i] == rest[i - first.len()] && all[j] == rest[j - first.len()]);
        } else if i < first.len() {
            assert(first.contains(all[i]));
            assert(rest.contains(all[j]));
        } else {
            assert(first.contains(all[j]));
            assert(rest.contains(all[i]));
        }
    }
}

/// Unless empty categories are left out, every category that some monitor
/// is under is listed.
pub proof fn law_every_category_listed(es: Seq<MonitorEntryView>, order: Seq<Seq<char>>, rest: Seq<Seq<char>>, c: Seq<char>)
    requires
        forall|d: Seq<char>| rest.contains(d) <==> shown_unordered(es, order, false, d),
        has_category(es, c),
    ensures
        (prioritized_categories(es, order, false) + rest).contains(c),
{
    lemma_prioritized_from_order(es, order, false);
    let first = prioritized_categories(es, order, false);
    let all = first + rest;
    if order.contains(c) {
        let k = first.index_of(c);
        assert(all[k] == c);
    } else {
        assert(rest.contains(c));
        let k = rest.index_of(c);
        assert(all[first.len() + k] == c);
    }
}

/// The priority of each configured category, by name.
pub open spec fn category_rank(categories: Map<Seq<char>, CategoryView>) -> spec_fn(Seq<char>) -> int {
    |c: Seq<char>| categories[c].priority as int
}

/// The configured categories in display order: by priority, categories of
/// equal priority by name.
pub fn category_order(categories: &KeyedList<Category>) -> (r: Vec<String>)
    ensures
        views_of(r@) == categories.keys().sort_by(ranked_leq(category_rank(categories@))),
{
    let names = categories.key_list();
    let n = categories.len();
    let mut ranks: Vec<u16> = Vec::new();
    let mut i: usize = 0;
    while i < n
        invariant
            n == categories.keys().len(),
            categories.consistent(),
            views_of(names@) == categories.keys(),
            i <= n,
            ranks@.len() == i,
            forall|j: int| 0 <= j < i ==> #[trigger] ranks@[j] == category_rank(categories@)(names@[j]@),
        decreases n - i,
    {
        let priority = categories.value_at(i).priority;
        proof {
            assert(names@[i as int]@ == categories.keys()[i as int]);
            assert(categories@[categories.keys()[i as int]] == categories.vals()[i as int]);
        }
        ranks.push(priority);
        i = i + 1;
    }
    sort_by_rank(&names, &ranks, Ghost(category_rank(categories@)))
}

/// A row of a monitor's property table.
#[derive(PartialEq, Eq, Structural, Clone, Copy, Debug)]
pub enum TableRow {
    /// The `i`-th data row.
    Data(usize),
    /// A labeled separator before the `i`-th data row (labeled with that
    /// row's display text).
    Separator(usize),
}

/// Whether a separator goes before data row `i`: between a row of a single
/// value and a following multivalue row, never before the first row.
pub open spec fn separator_before(multivalue: Seq<bool>, i: int) -> bool {
    0 < i < multivalue.len() && multivalue[i] && !multivalue[i - 1]
}

/// The rows of the first `n` data rows with their separators.
pub open spec fn rows_with_separators(multivalue: Seq<bool>, n: nat) -> Seq<TableRow>
    decreases n,
{
    if n == 0 {
        Seq::empty()
    } else {
        let earlier = rows_with_separators(multivalue, (n - 1) as nat);
        let i = n - 1;
        if separator_before(multivalue, i) {
            earlier.push(TableRow::Separator(i as usize)).push(TableRow::Data(i as usize))
        } else {
            earlier.push(TableRow::Data(i as usize))
        }
    }
}

/// The property table's rows for data rows of which `multivalue` says
/// whether each shows several values: each data row in order, with a
/// separator wherever multivalue rows follow a single-value row.
pub fn table_rows_with_separators(multivalue: &Vec<bool>) -> (r: Vec<TableRow>)
    ensures
        r@ == rows_with_separators(multivalue@, multivalue@.len()),
{
    let mut rows: Vec<TableRow> = Vec::new();
    let mut i: usize = 0;
    while i < multivalue.len()
        invariant
            i <= multivalue@.len(),
            rows@ == rows_with_separators(multivalue@, i as nat),
        decreases multivalue@.len() - i,
    {
        if i > 0 && multivalue[i] && !multivalue[i - 1] {
            rows.push(TableRow::Separator(i));
        }
        rows.push(TableRow::Data(i));
        i = i + 1;
    }
    rows
}

} // verus!
