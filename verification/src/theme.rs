//! Colors, icons and flags that the user interface looks up by category,
//! criticality or command.

use vstd::prelude::*;
use crate::configuration::{DisplayOptions, CategoryView};
use crate::enums::{Criticality, str_equals};

verus! {

/// Color of a category that sets none.
pub const DEFAULT_CATEGORY_COLOR: &'static str = "#505050";

/// Criticality named exactly by `s`, if any.
pub open spec fn criticality_from_name(s: Seq<char>) -> Option<Criticality> {
    if s == "NotAvailable"@ {
        Some(Criticality::NotAvailable)
    } else if s == "Ignore"@ {
        Some(Criticality::Ignore)
    } else if s == "Normal"@ {
        Some(Criticality::Normal)
    } else if s == "Info"@ {
        Some(Criticality::Info)
    } else if s == "NoData"@ {
        Some(Criticality::NoData)
    } else if s == "Warning"@ {
        Some(Criticality::Warning)
    } else if s == "Error"@ {
        Some(Criticality::Error)
    } else if s == "Critical"@ {
        Some(Criticality::Critical)
    } else {
        None
    }
}

/// Color shown for a criticality; `None` stands for no criticality at all.
pub open spec fn criticality_color(c: Option<Criticality>) -> Seq<char> {
    match c {
        Some(Criticality::Normal) => "#6033cc33"@,
        Some(Criticality::Warning) => "#60ffcc00"@,
        Some(Criticality::Error) => "#60ff3300"@,
        Some(Criticality::Critical) => "#60ff3300"@,
        _ => "#60ffffff"@,
    }
}

/// Icon shown for a criticality; `None` stands for no criticality at all.
pub open spec fn criticality_icon(c: Option<Criticality>) -> Seq<char> {
    match c {
        Some(Criticality::NoData) => "qrc:/main/images/alert/warning"@,
        Some(Criticality::Warning) => "qrc:/main/images/alert/warning"@,
        Some(Criticality::Error) => "qrc:/main/images/alert/error"@,
        Some(Criticality::Critical) => "qrc:/main/images/alert/error"@,
        _ => "qrc:/main/images/alert/info"@,
    }
}

/// Text accepted where a criticality is expected: empty, or a name.
pub open spec fn criticality_text_ok(s: Seq<char>) -> bool {
    s.len() == 0 || criticality_from_name(s) is Some
}

/// What a criticality text stands for: nothing when empty.
pub open spec fn criticality_of_text(s: Seq<char>) -> Option<Criticality> {
    if s.len() == 0 {
        None
    } else {
        criticality_from_name(s)
    }
}

/// Color of `category`: its own, else the default.
pub open spec fn category_color_of(cats: Map<Seq<char>, CategoryView>, category: Seq<char>) -> Seq<char> {
    if cats.contains_key(category) && cats[category].color is Some {
        cats[category].color->0
    } else {
        DEFAULT_CATEGORY_COLOR@
    }
}

/// Icon of `category`: its own, else empty.
pub open spec fn category_icon_of(cats: Map<Seq<char>, CategoryView>, category: Seq<char>) -> Seq<char> {
    if cats.contains_key(category) && cats[category].icon is Some {
        cats[category].icon->0
    } else {
        Seq::empty()
    }
}

/// Whether one of the categories lists `command_id` as collapsible.
pub open spec fn collapsible_in(cat: CategoryView, command_id: Seq<char>) -> bool {
    cat.collapsible_commands matches Some(l) && l.contains(command_id)
}

/// Whether any category lets `command_id` collapse.
pub open spec fn collapsible_anywhere(cats: Map<Seq<char>, CategoryView>, command_id: Seq<char>) -> bool {
    exists|k: Seq<char>| #[trigger] cats.contains_key(k) && collapsible_in(cats[k], command_id)
}

impl Criticality {
    /// The criticality whose name is exactly `s`.
    pub fn from_name(s: &str) -> (r: Option<Criticality>)
        ensures
            r == criticality_from_name(s@),
    {
        proof {
            reveal_strlit("NotAvailable");
            reveal_strlit("Ignore");
            reveal_strlit("Normal");
            reveal_strlit("Info");
            reveal_strlit("NoData");
            reveal_strlit("Warning");
            reveal_strlit("Error");
            reveal_strlit("Critical");
        }
        if str_equals(s, "NotAvailable") {
            Some(Criticality::NotAvailable)
        } else if str_equals(s, "Ignore") {
            Some(Criticality::Ignore)
        } else if str_equals(s, "Normal") {
            Some(Criticality::Normal)
        } else if str_equals(s, "Info") {
            Some(Criticality::Info)
        } else if str_equals(s, "NoData") {
            Some(Criticality::NoData)
        } else if str_equals(s, "Warning") {
            Some(Criticality::Warning)
        } else if str_equals(s, "Error") {
            Some(Criticality::Error)
        } else if str_equals(s, "Critical") {
            Some(Criticality::Critical)
        } else {
            None
        }
    }
}

/// Color of a category: the one it sets, else the default color.
pub fn category_color(options: &DisplayOptions, category: &str) -> (r: String)
    ensures
        r@ == category_color_of(options.categories@, category@),
{
    match options.categories.get(category) {
        Some(c) => match &c.color {
            Some(color) => color.clone(),
            None => DEFAULT_CATEGORY_COLOR.to_string(),
        },
        None => DEFAULT_CATEGORY_COLOR.to_string(),
    }
}

/// Icon of a category: the one it sets, else empty.
pub fn category_icon(options: &DisplayOptions, category: &str) -> (r: String)
    ensures
        r@ == category_icon_of(options.categories@, category@),
{
    match options.categories.get(category) {
        Some(c) => match &c.icon {
            Some(icon) => icon.clone(),
            None => String::new(),
        },
        None => String::new(),
    }
}

/// Opacity of an item: opaque when enabled, faded otherwise.
pub fn opacity(is_enabled: bool) -> (r: String)
    ensures
        r@ == (if is_enabled { "1.0"@ } else { "0.3"@ }),
{
    if is_enabled {
        "1.0".to_string()
    } else {
        "0.3".to_string()
    }
}

/// Whether `id` is among `list`.
fn contains_text(list: &Vec<String>, id: &str) -> (r: bool)
    ensures
        r == list@.map_values(|s: String| s@).contains(id@),
{
    let ghost views = list@.map_values(|s: String| s@);
    let mut i: usize = 0;
    while i < list.len()
        invariant
            i <= list.len(),
            views == list@.map_values(|s: String| s@),
            forall|j: int| 0 <= j < i ==> views[j] != id@,
        decreases list.len() - i,
    {
        if str_equals(list[i].as_str(), id) {
            assert(views[i as int] == id@);
            return true;
        }
        i = i + 1;
    }
    proof {
        if views.contains(id@) {
            let j = views.index_of(id@);
            assert(views[j] == id@);
        }
    }
    false
}

/// "1" when some category lets the command collapse, else "0".
pub fn allow_collapsing_command(options: &DisplayOptions, command_id: &str) -> (r: String)
    ensures
        r@ == (if collapsible_anywhere(options.categories@, command_id@) { "1"@ } else { "0"@ }),
{
    let cats = &options.categories;
    let n = cats.len();
    let mut i: usize = 0;
    let mut found = false;
    while i < n
        invariant
            n == cats.keys().len(),
            cats.consistent(),
            i <= n,
            found == exists|j: int| 0 <= j < i && #[trigger] collapsible_in(cats.vals()[j], command_id@),
        decreases n - i,
    {
        let c = cats.value_at(i);
        let here = match &c.collapsible_commands {
            Some(list) => contains_text(list, command_id),
            None => false,
        };
        proof {
            assert(here == collapsible_in(cats.vals()[i as int], command_id@));
            if here {
                assert(collapsible_in(cats.vals()[i as int], command_id@));
            }
            if exists|j: int| 0 <= j < i + 1 && #[trigger] collapsible_in(cats.vals()[j], command_id@) {
                let j = choose|j: int| 0 <= j < i + 1 && #[trigger] collapsible_in(cats.vals()[j], command_id@);
                if j < i {
                    assert(found);
                } else {
                    assert(here);
                }
            }
        }
        found = found || here;
        i = i + 1;
    }
    proof {
        let m = cats@;
        if found {
            let j = choose|j: int| 0 <= j < n && #[trigger] collapsible_in(cats.vals()[j], command_id@);
            let k = cats.keys()[j];
            assert(m[k] == cats.vals()[j]);
            assert(m.contains_key(k));
            assert(collapsible_anywhere(m, command_id@));
        } else if collapsible_anywhere(m, command_id@) {
            let k = choose|k: Seq<char>| #[trigger] m.contains_key(k) && collapsible_in(m[k], command_id@);
            assert(cats.keys().contains(k));
            let j = cats.keys().index_of(k);
            assert(m[cats.keys()[j]] == cats.vals()[j]);
            assert(collapsible_in(cats.vals()[j], command_id@));
        }
    }
    if found {
        "1".to_string()
    } else {
        "0".to_string()
    }
}

/// Color for a criticality given by name; empty text gives the neutral color.
pub fn color_for_criticality(criticality: &str) -> (r: String)
    requires
        criticality_text_ok(criticality@),
    ensures
        r@ == criticality_color(criticality_of_text(criticality@)),
{
    let c = if criticality.is_empty() {
        None
    } else {
        Criticality::from_name(criticality)
    };
    let s = match c {
        Some(Criticality::Normal) => "#6033cc33",
        Some(Criticality::Warning) => "#60ffcc00",
        Some(Criticality::Error) => "#60ff3300",
        Some(Criticality::Critical) => "#60ff3300",
        _ => "#60ffffff",
    };
    s.to_string()
}

/// Icon for a criticality given by name; empty text gives the info icon.
pub fn icon_for_criticality(criticality: &str) -> (r: String)
    requires
        criticality_text_ok(criticality@),
    ensures
        r@ == criticality_icon(criticality_of_text(criticality@)),
{
    let c = if criticality.is_empty() {
        None
    } else {
        Criticality::from_name(criticality)
    };
    let s = match c {
        Some(Criticality::NoData) => "qrc:/main/images/alert/warning",
        Some(Criticality::Warning) => "qrc:/main/images/alert/warning",
        Some(Criticality::Error) => "qrc:/main/images/alert/error",
        Some(Criticality::Critical) => "qrc:/main/images/alert/error",
        _ => "qrc:/main/images/alert/info",
    };
    s.to_string()
}

} // verus!
