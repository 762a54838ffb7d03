//! The host table of the user interface: which hosts it lists for a search
//! text and in what order, and which row stays selected.

use vstd::prelude::*;
use crate::enums::str_equals;
use crate::keyed::{views_of, KeyedList};
use crate::sorting::{lowercase_order, sort_by_lowercase};
use crate::text::{begins_with, contains_str, occurs_in, spec_to_lowercase, to_lowercase};

verus! {

/// What the table searches in besides a host's id.
#[derive(Debug)]
pub struct HostRowEntry {
    pub fqdn: String,
    /// The host's address as text.
    pub ip_address: String,
}

pub struct HostRowEntryView {
    pub fqdn: Seq<char>,
    pub ip_address: Seq<char>,
}

impl View for HostRowEntry {
    type V = HostRowEntryView;

    open spec fn view(&self) -> HostRowEntryView {
        HostRowEntryView { fqdn: self.fqdn@, ip_address: self.ip_address@ }
    }
}

/// Whether the table lists a host for a (lowercase) search text: hosts
/// whose id starts with `_` are internal and never listed; an empty search
/// lists all others; otherwise the search must occur in the lowercase id,
/// name or address.
pub open spec fn listed_host(id: Seq<char>, entry: HostRowEntryView, search: Seq<char>) -> bool {
    &&& !begins_with(id, "_"@)
    &&& (search.len() == 0 || occurs_in(spec_to_lowercase(id), search) || occurs_in(spec_to_lowercase(entry.fqdn), search)
        || occurs_in(spec_to_lowercase(entry.ip_address), search))
}

/// The listed hosts among the first `n`, in id order.
pub open spec fn listed_ids(ids: Seq<Seq<char>>, es: Seq<HostRowEntryView>, search: Seq<char>, n: nat) -> Seq<Seq<char>>
    decreases n,
{
    if n == 0 {
        Seq::empty()
    } else if listed_host(ids[n - 1], es[n - 1], search) {
        listed_ids(ids, es, search, (n - 1) as nat).push(ids[n - 1])
    } else {
        listed_ids(ids, es, search, (n - 1) as nat)
    }
}

/// The rows of the table for these hosts and this search.
pub open spec fn table_rows(hosts: KeyedList<HostRowEntry>, search: Seq<char>) -> Seq<Seq<char>> {
    listed_ids(hosts.keys(), hosts.vals(), search, hosts.keys().len()).sort_by(lowercase_order())
}

/// The row of `id` in `rows`, or -1.
pub open spec fn row_of(rows: Seq<Seq<char>>, id: Seq<char>) -> int {
    if rows.contains(id) {
        rows.index_of(id)
    } else {
        -1
    }
}

/// The host table: the listed hosts in row order, the selected row (-1 for
/// none) and the lowercase search text.
#[derive(Debug)]
pub struct HostTable {
    pub rows: Vec<String>,
    pub selected_row: i32,
    pub search_filter: String,
}

/// What toggling a row did to the selection.
#[derive(PartialEq, Eq, Structural, Clone, Copy, Debug)]
pub enum SelectionChange {
    /// The row was selected and now nothing is.
    Deactivated,
    /// Nothing was selected and now the row is.
    Activated,
    /// Another row was selected and now this one is.
    Moved,
}

/// Whether `s` starts with `_`.
fn starts_with_underscore(s: &str) -> (r: bool)
    ensures
        r == begins_with(s@, "_"@),
{
    let cs = crate::text::chars_of(s);
    proof {
        reveal_strlit("_");
    }
    if cs.len() == 0 {
        return false;
    }
    assert(s@.take(1) =~= seq![cs@[0]]);
    assert("_"@ =~= seq!['_']);
    if cs[0] == '_' {
        assert(s@.take(1) =~= "_"@);
        true
    } else {
        assert(s@.take(1)[0] != "_"@[0]);
        false
    }
}

impl HostTable {
    /// An empty table with nothing selected and no search.
    pub fn new() -> (t: HostTable)
        ensures
            t.rows@.len() == 0,
            t.selected_row == -1,
            t.search_filter@ == Seq::<char>::empty(),
    {
        HostTable { rows: Vec::new(), selected_row: -1, search_filter: String::new() }
    }

    /// Id of the host on the selected row; empty when no row is selected.
    pub fn selected_host_id(&self) -> (r: String)
        ensures
            (0 <= self.selected_row < self.rows@.len()) ==> r@ == self.rows@[self.selected_row as int]@,
            !(0 <= self.selected_row < self.rows@.len()) ==> r@ == Seq::<char>::empty(),
    {
        if self.selected_row >= 0 && (self.selected_row as usize) < self.rows.len() {
            self.rows[self.selected_row as usize].clone()
        } else {
            String::new()
        }
    }

    /// Lists the hosts anew for the current search, and keeps the host that
    /// was selected selected if it is still listed. Says whether a row is
    /// selected afterwards.
    pub fn update_rows(&mut self, hosts: &KeyedList<HostRowEntry>) -> (selected: bool)
        requires
            hosts.keys().len() <= i32::MAX,
        ensures
            views_of(final(self).rows@) == table_rows(*hosts, old(self).search_filter@),
            final(self).search_filter == old(self).search_filter,
            final(self).selected_row == row_of(
                views_of(final(self).rows@),
                if 0 <= old(self).selected_row < old(self).rows@.len() {
                    old(self).rows@[old(self).selected_row as int]@
                } else {
                    Seq::<char>::empty()
                },
            ),
            selected == (final(self).selected_row >= 0),
    {
        let previous = self.selected_host_id();
        let n = hosts.len();
        let ghost ids = hosts.keys();
        let ghost es = hosts.vals();
        let mut listed: Vec<String> = Vec::new();
        let mut i: usize = 0;
        while i < n
            invariant
                n == ids.len(),
                ids == hosts.keys(),
                es == hosts.vals(),
                hosts.consistent(),
                i <= n,
                views_of(listed@) == listed_ids(ids, es, self.search_filter@, i as nat),
            decreases n - i,
        {
            let id = hosts.key_at(i);
            let entry = hosts.value_at(i);
            let search = self.search_filter.as_str();
            let shown = !starts_with_underscore(id.as_str()) && (search.is_empty() || contains_str(
                to_lowercase(id.as_str()).as_str(),
                search,
            ) || contains_str(to_lowercase(entry.fqdn.as_str()).as_str(), search) || contains_str(
                to_lowercase(entry.ip_address.as_str()).as_str(),
                search,
            ));
            assert(shown == listed_host(ids[i as int], es[i as int], self.search_filter@));
            if shown {
                let ghost before = views_of(listed@);
                listed.push(id.clone());
                assert(views_of(listed@) =~= before.push(ids[i as int]));
            }
            i = i + 1;
        }
        let rows = sort_by_lowercase(&listed);
        proof {
            crate::sorting::lemma_keyed_leq_total(|s: Seq<char>| spec_to_lowercase(s));
            crate::sorting::lemma_sort_keeps_elements(views_of(listed@), lowercase_order());
            assert(listed_ids(ids, es, self.search_filter@, n as nat).len() <= n) by {
                lemma_listed_bound(ids, es, self.search_filter@, n as nat);
            }
            crate::keyed::lemma_sorted_no_duplicates(ids);
            lemma_listed_unique(ids, es, self.search_filter@, n as nat);
        }
        let mut row: i32 = -1;
        let mut k: usize = 0;
        while k < rows.len()
            invariant
                rows@.len() <= i32::MAX,
                k <= rows@.len(),
                row == -1 ==> forall|j: int| 0 <= j < k ==> rows@[j]@ != previous@,
                row != -1 ==> 0 <= row < k && rows@[row as int]@ == previous@ && forall|j: int|
                    0 <= j < row ==> rows@[j]@ != previous@,
            decreases rows@.len() - k,
        {
            if row == -1 && str_equals(rows[k].as_str(), previous.as_str()) {
                row = k as i32;
            }
            k = k + 1;
        }
        proof {
            let rv = views_of(rows@);
            if row == -1 {
                if rv.contains(previous@) {
                    let j = rv.index_of(previous@);
                    assert(rows@[j]@ == previous@);
                }
            } else {
                assert(rv[row as int] == previous@);
                assert(rv.contains(previous@));
                let j = rv.index_of(previous@);
                assert(rv[j] == previous@);
                assert(rv.no_duplicates());
                assert(j == row);
            }
        }
        self.rows = rows;
        self.selected_row = row;
        row >= 0
    }

    /// Sets the search text (kept in lowercase) and lists the hosts anew.
    pub fn set_filter(&mut self, filter: &str, hosts: &KeyedList<HostRowEntry>) -> (selected: bool)
        requires
            hosts.keys().len() <= i32::MAX,
        ensures
            final(self).search_filter@ == spec_to_lowercase(filter@),
            views_of(final(self).rows@) == table_rows(*hosts, spec_to_lowercase(filter@)),
            selected == (final(self).selected_row >= 0),
    {
        self.search_filter = to_lowercase(filter);
        self.update_rows(hosts)
    }

    /// Selects `row`, or clears the selection when `row` is the selected one.
    pub fn toggle_row(&mut self, row: i32) -> (change: SelectionChange)
        ensures
            final(self).rows@ == old(self).rows@,
            final(self).search_filter == old(self).search_filter,
            old(self).selected_row == row ==> final(self).selected_row == -1 && change == SelectionChange::Deactivated,
            old(self).selected_row != row ==> final(self).selected_row == row && change == if old(self).selected_row == -1 {
                SelectionChange::Activated
            } else {
                SelectionChange::Moved
            },
    {
        if self.selected_row == row {
            self.selected_row = -1;
            SelectionChange::Deactivated
        } else {
            let change = if self.selected_row == -1 {
                SelectionChange::Activated
            } else {
                SelectionChange::Moved
            };
            self.selected_row = row;
            change
        }
    }
}

proof fn lemma_listed_unique(ids: Seq<Seq<char>>, es: Seq<HostRowEntryView>, search: Seq<char>, n: nat)
    requires
        ids.no_duplicates(),
        n <= ids.len(),
    ensures
        listed_ids(ids, es, search, n).no_duplicates(),
        forall|x: Seq<char>| #[trigger] listed_ids(ids, es, search, n).contains(x) ==> exists|j: int| 0 <= j < n && ids[j] == x,
    decreases n,
{
    if n > 0 {
        let m = (n - 1) as nat;
        lemma_listed_unique(ids, es, search, m);
        let earlier = listed_ids(ids, es, search, m);
        let now = listed_ids(ids, es, search, n);
        assert(!earlier.contains(ids[m as int])) by {
            if earlier.contains(ids[m as int]) {
                let j = choose|j: int| 0 <= j < m && ids[j] == ids[m as int];
                assert(ids[j] == ids[m as int]);
            }
        }
        if listed_host(ids[m as int], es[m as int], search) {
            assert forall|i: int, j: int| 0 <= i < now.len() && 0 <= j < now.len() && i != j implies now[i] != now[j] by {
                if i == now.len() - 1 {
                    assert(earlier.contains(earlier[j]));
                } else if j == now.len() - 1 {
                    assert(earlier.contains(earlier[i]));
                } else {
                    assert(earlier[i] == now[i] && earlier[j] == now[j]);
                }
            }
        }
        assert forall|x: Seq<char>| #[trigger] now.contains(x) implies exists|j: int| 0 <= j < n && ids[j] == x by {
            if x == ids[m as int] {
                assert(ids[m as int] == x);
            } else {
                let k = now.index_of(x);
                assert(earlier[k] == x);
                assert(earlier.contains(x));
            }
        }
    }
}

proof fn lemma_listed_bound(ids: Seq<Seq<char>>, es: Seq<HostRowEntryView>, search: Seq<char>, n: nat)
    ensures
        listed_ids(ids, es, search, n).len() <= n,
    decreases n,
{
    if n > 0 {
        lemma_listed_bound(ids, es, search, (n - 1) as nat);
    }
}

} // verus!
