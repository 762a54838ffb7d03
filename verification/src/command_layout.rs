//! Which command buttons the user interface shows under a category or
//! under a parent command, and in what order: first those that the
//! category's configured order names, then the rest by id.

use vstd::prelude::*;
use crate::config_editor::contains_text;
use crate::configuration::{Category, CategoryView};
use crate::enums::str_equals;
use crate::keyed::{views_of, KeyedList};
use crate::text::{parse_u8, parsed_u8};

verus! {

/// What the layout needs to know of one command of a host.
#[derive(Debug)]
pub struct CommandEntry {
    pub category: String,
    /// Command or category whose level the button is shown on.
    pub parent_id: String,
    /// Level of a multivalue monitor the button belongs to; 0 for any.
    pub multivalue_level: u8,
}

pub struct CommandEntryView {
    pub category: Seq<char>,
    pub parent_id: Seq<char>,
    pub multivalue_level: u8,
}

impl View for CommandEntry {
    type V = CommandEntryView;

    open spec fn view(&self) -> CommandEntryView {
        CommandEntryView { category: self.category@, parent_id: self.parent_id@, multivalue_level: self.multivalue_level }
    }
}

/// Whether a command is shown under `category`, on the level of `parent`
/// and at multivalue `level` where those are given.
pub open spec fn command_matches(e: CommandEntryView, category: Seq<char>, parent: Option<Seq<char>>, level: Option<u8>) -> bool {
    &&& e.category == category
    &&& match parent {
        Some(p) => e.parent_id == p,
        None => true,
    }
    &&& match level {
        Some(l) => e.multivalue_level == 0 || e.multivalue_level == l,
        None => true,
    }
}

/// The ids of the commands that are shown.
pub open spec fn shown_ids(
    commands: Map<Seq<char>, CommandEntryView>,
    category: Seq<char>,
    parent: Option<Seq<char>>,
    level: Option<u8>,
) -> Set<Seq<char>> {
    Set::new(|id: Seq<char>| commands.contains_key(id) && command_matches(commands[id], category, parent, level))
}

/// The configured command order of a category; none for a category without
/// one.
pub open spec fn command_order_of(categories: Map<Seq<char>, CategoryView>, category: Seq<char>) -> Seq<Seq<char>> {
    if categories.contains_key(category) {
        match categories[category].command_order {
            Some(order) => order,
            None => Seq::empty(),
        }
    } else {
        Seq::empty()
    }
}

/// The shown commands that `order` names, each once at its first place.
pub open spec fn ordered_part(order: Seq<Seq<char>>, shown: Set<Seq<char>>) -> Seq<Seq<char>>
    decreases order.len(),
{
    if order.len() == 0 {
        Seq::empty()
    } else {
        let earlier = ordered_part(order.drop_last(), shown);
        if shown.contains(order.last()) && !earlier.contains(order.last()) {
            earlier.push(order.last())
        } else {
            earlier
        }
    }
}

/// The shown commands of `ids` that are not in `first`, in the order of
/// `ids`.
pub open spec fn rest_part(ids: Seq<Seq<char>>, shown: Set<Seq<char>>, first: Seq<Seq<char>>) -> Seq<Seq<char>>
    decreases ids.len(),
{
    if ids.len() == 0 {
        Seq::empty()
    } else {
        let earlier = rest_part(ids.drop_last(), shown, first);
        if shown.contains(ids.last()) && !first.contains(ids.last()) {
            earlier.push(ids.last())
        } else {
            earlier
        }
    }
}

/// The shown commands in button order.
pub open spec fn arranged(ids: Seq<Seq<char>>, shown: Set<Seq<char>>, order: Seq<Seq<char>>) -> Seq<Seq<char>> {
    let first = ordered_part(order, shown);
    first + rest_part(ids, shown, first)
}

/// Whether the command `id` is shown.
fn is_shown(commands: &KeyedList<CommandEntry>, id: &str, category: &str, parent: Option<&str>, level: Option<u8>) -> (r: bool)
    ensures
        r == shown_ids(commands@, category@, match parent {
            Some(p) => Some(p@),
            None => None,
        }, level).contains(id@),
{
    match commands.get(id) {
        Some(e) => {
            let parent_ok = match parent {
                Some(p) => str_equals(e.parent_id.as_str(), p),
                None => true,
            };
            let level_ok = match level {
                Some(l) => e.multivalue_level == 0 || e.multivalue_level == l,
                None => true,
            };
            str_equals(e.category.as_str(), category) && parent_ok && level_ok
        },
        None => false,
    }
}

/// The ids of the shown commands, in button order.
fn arrange(
    commands: &KeyedList<CommandEntry>,
    categories: &KeyedList<Category>,
    category: &str,
    parent: Option<&str>,
    level: Option<u8>,
) -> (r: Vec<String>)
    ensures
        views_of(r@) == arranged(
            commands.keys(),
            shown_ids(commands@, category@, match parent {
                Some(p) => Some(p@),
                None => None,
            }, level),
            command_order_of(categories@, category@),
        ),
{
    let ghost shown = shown_ids(commands@, category@, match parent {
        Some(p) => Some(p@),
        None => None,
    }, level);
    let empty: Vec<String> = Vec::new();
    let order: &Vec<String> = match categories.get(category) {
        Some(c) => match &c.command_order {
            Some(o) => o,
            None => &empty,
        },
        None => &empty,
    };
    let ghost ov = views_of(order@);
    assert(ov == command_order_of(categories@, category@));
    let mut first: Vec<String> = Vec::new();
    let mut k: usize = 0;
    while k < order.len()
        invariant
            ov == views_of(order@),
            shown == shown_ids(commands@, category@, match parent {
                Some(p) => Some(p@),
                None => None,
            }, level),
            k <= order.len(),
            views_of(first@) == ordered_part(ov.take(k as int), shown),
        decreases order.len() - k,
    {
        assert(ov.take(k + 1).drop_last() =~= ov.take(k as int));
        assert(ov.take(k + 1).last() == order@[k as int]@);
        let id = &order[k];
        if is_shown(commands, id.as_str(), category, parent, level) && !contains_text(&first, id.as_str()) {
            let ghost before = views_of(first@);
            first.push(id.clone());
            assert(views_of(first@) =~= before.push(id@));
        }
        k = k + 1;
    }
    assert(ov.take(order.len() as int) =~= ov);
    let ghost fv = views_of(first@);
    let n = commands.len();
    let mut result = first.clone();
    assert(views_of(result@) =~= fv) by {
        assert forall|j: int| 0 <= j < result@.len() implies result@[j]@ == first@[j]@ by {}
    }
    let mut i: usize = 0;
    while i < n
        invariant
            n == commands.keys().len(),
            commands.consistent(),
            fv == views_of(first@),
            shown == shown_ids(commands@, category@, match parent {
                Some(p) => Some(p@),
                None => None,
            }, level),
            i <= n,
            views_of(result@) == fv + rest_part(commands.keys().take(i as int), shown, fv),
        decreases n - i,
    {
        let id = commands.key_at(i);
        assert(commands.keys().take(i + 1).drop_last() =~= commands.keys().take(i as int));
        assert(commands.keys().take(i + 1).last() == id@);
        if is_shown(commands, id.as_str(), category, parent, level) && !contains_text(&first, id.as_str()) {
            let ghost before = views_of(result@);
            result.push(id.clone());
            assert(views_of(result@) =~= before.push(id@));
        }
        i = i + 1;
    }
    assert(commands.keys().take(n as int) =~= commands.keys());
    result
}

/// The commands under a category, in button order: those the category's
/// configured order names, in that order, then the others by id.
pub fn category_commands(commands: &KeyedList<CommandEntry>, categories: &KeyedList<Category>, category: &str) -> (r: Vec<String>)
    ensures
        views_of(r@) == arranged(
            commands.keys(),
            shown_ids(commands@, category@, None, None),
            command_order_of(categories@, category@),
        ),
{
    arrange(commands, categories, category, None, None)
}

/// The commands under a category on the level of `parent_id` (a command or
/// the category) for a multivalue level given as text, in button order;
/// none when the level is not a number from 0 to 255.
pub fn commands_on_level(
    commands: &KeyedList<CommandEntry>,
    categories: &KeyedList<Category>,
    category: &str,
    parent_id: &str,
    multivalue_level: &str,
) -> (r: Vec<String>)
    ensures
        parsed_u8(multivalue_level@) is None ==> r@.len() == 0,
        parsed_u8(multivalue_level@) matches Some(level) ==> views_of(r@) == arranged(
            commands.keys(),
            shown_ids(commands@, category@, Some(parent_id@), Some(level)),
            command_order_of(categories@, category@),
        ),
{
    match parse_u8(multivalue_level) {
        Some(level) => arrange(commands, categories, category, Some(parent_id), Some(level)),
        None => Vec::new(),
    }
}

proof fn lemma_ordered_part(order: Seq<Seq<char>>, shown: Set<Seq<char>>)
    ensures
        ordered_part(order, shown).no_duplicates(),
        forall|id: Seq<char>| #[trigger] ordered_part(order, shown).contains(id) <==> shown.contains(id) && order.contains(id),
    decreases order.len(),
{
    if order.len() > 0 {
        let rest = order.drop_last();
        lemma_ordered_part(rest, shown);
        let earlier = ordered_part(rest, shown);
        let c = order.last();
        let now = ordered_part(order, shown);
        if shown.contains(c) && !earlier.contains(c) {
            assert forall|i: int, j: int| 0 <= i < now.len() && 0 <= j < now.len() && i != j implies now[i] != now[j] by {
                if i == now.len() - 1 {
                    assert(earlier[j] == now[j]);
                } else if j == now.len() - 1 {
                    assert(earlier[i] == now[i]);
                } else {
                    assert(earlier[i] == now[i] && earlier[j] == now[j]);
                }
            }
        }
        assert forall|id: Seq<char>| #[trigger] now.contains(id) <==> shown.contains(id) && order.contains(id) by {
            if now.contains(id) {
                if id == c {
                    assert(order[order.len() - 1] == id);
                } else {
                    let k = now.index_of(id);
                    assert(earlier[k] == id);
                    assert(earlier.contains(id));
                    let j = rest.index_of(id);
                    assert(order[j] == id);
                }
            }
            if shown.contains(id) && order.contains(id) {
                if id == c {
                    if earlier.contains(id) {
                        let k = earlier.index_of(id);
                        assert(now[k] == id);
                    } else {
                        assert(now[now.len() - 1] == id);
                    }
                } else {
                    let j = order.index_of(id);
                    assert(rest[j] == id);
                    assert(rest.contains(id));
                    assert(earlier.contains(id));
                    let k = earlier.index_of(id);
                    assert(now[k] == id);
                }
            }
        }
    }
}

proof fn lemma_rest_part(ids: Seq<Seq<char>>, shown: Set<Seq<char>>, first: Seq<Seq<char>>)
    requires
        ids.no_duplicates(),
    ensures
        rest_part(ids, shown, first).no_duplicates(),
        forall|id: Seq<char>| #[trigger] rest_part(ids, shown, first).contains(id) <==> shown.contains(id)
            && !first.contains(id) && ids.contains(id),
    decreases ids.len(),
{
    if ids.len() > 0 {
        let rest = ids.drop_last();
        assert(rest.no_duplicates()) by {
            assert forall|i: int, j: int| 0 <= i < rest.len() && 0 <= j < rest.len() && i != j implies rest[i] != rest[j] by {
                assert(rest[i] == ids[i] && rest[j] == ids[j]);
            }
        }
        lemma_rest_part(rest, shown, first);
        let earlier = rest_part(rest, shown, first);
        let c = ids.last();
        let now = rest_part(ids, shown, first);
        assert(!rest.contains(c)) by {
            if rest.contains(c) {
                let j = rest.index_of(c);
                assert(ids[j] == c);
                assert(ids[ids.len() - 1] == c);
            }
        }
        assert(!earlier.contains(c));
        if shown.contains(c) && !first.contains(c) {
            assert forall|i: int, j: int| 0 <= i < now.len() && 0 <= j < now.len() && i != j implies now[i] != now[j] by {
                if i == now.len() - 1 {
                    assert(earlier[j] == now[j]);
                    assert(earlier.contains(earlier[j]));
                } else if j == now.len() - 1 {
                    assert(earlier[i] == now[i]);
                    assert(earlier.contains(earlier[i]));
                } else {
                    assert(earlier[i] == now[i] && earlier[j] == now[j]);
                }
            }
        }
        assert forall|id: Seq<char>| #[trigger] now.contains(id) <==> shown.contains(id) && !first.contains(id) && ids.contains(id) by {
            if now.contains(id) {
                if id == c {
                    assert(ids[ids.len() - 1] == id);
                } else {
                    let k = now.index_of(id);
                    assert(earlier[k] == id);
                    assert(earlier.contains(id));
                    let j = rest.index_of(id);
                    assert(ids[j] == id);
                }
            }
            if shown.contains(id) && !first.contains(id) && ids.contains(id) {
                if id == c {
                    assert(now[now.len() - 1] == id);
                } else {
                    let j = ids.index_of(id);
                    assert(rest[j] == id);
                    assert(rest.contains(id));
                    assert(earlier.contains(id));
                    let k = earlier.index_of(id);
                    assert(now[k] == id);
                }
            }
        }
    }
}

/// Every shown command gets exactly one button: the arrangement holds each
/// of them once and nothing else.
pub proof fn law_each_shown_command_once(ids: Seq<Seq<char>>, shown: Set<Seq<char>>, order: Seq<Seq<char>>)
    requires
        ids.no_duplicates(),
        forall|id: Seq<char>| #[trigger] shown.contains(id) ==> ids.contains(id),
    ensures
        arranged(ids, shown, order).no_duplicates(),
        forall|id: Seq<char>| #[trigger] arranged(ids, shown, order).contains(id) <==> shown.contains(id),
{
    lemma_ordered_part(order, shown);
    let first = ordered_part(order, shown);
    lemma_rest_part(ids, shown, first);
    let rest = rest_part(ids, shown, first);
    let all = first + rest;
    assert forall|i: int, j: int| 0 <= i < all.len() && 0 <= j < all.len() && i != j implies all[i] != all[j] by {
        if i < first.len() && j < first.len() {
            assert(all[i] == first[i] && all[j] == first[j]);
        } else if i >= first.len() && j >= first.len() {
            assert(all[i] == rest[i - first.len()] && all[j] == rest[j - first.len()]);
        } else if i < first.len() {
            assert(first.contains(all[i]));
            assert(rest.contains(all[j]));
        } else {
            assert(first.contains(all[j]));
            assert(rest.contains(all[i]));
        }
    }
    assert forall|id: Seq<char>| #[trigger] all.contains(id) <==> shown.contains(id) by {
        if all.contains(id) {
            let k = all.index_of(id);
            if k < first.len() {
                assert(first[k] == id);
                assert(first.contains(id));
            } else {
                assert(rest[k - first.len()] == id);
                assert(rest.contains(id));
            }
        }
        if shown.contains(id) {
            if first.contains(id) {
                let k = first.index_of(id);
                assert(all[k] == id);
            } else {
                assert(rest.contains(id));
                let k = rest.index_of(id);
                assert(all[first.len() + k] == id);
            }
        }
    }
}

} // verus!
