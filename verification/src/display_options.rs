//! How monitors and commands are presented, and the inputs a command asks
//! the user for.

use vstd::prelude::*;
use crate::enums::Criticality;
use crate::keyed::views_of;
use crate::text::{alphanumeric_with, is_alphanumeric, is_alphanumeric_with, append_text};

verus! {

/// What the user interface does after a command was sent.
#[derive(Clone, Copy, Debug, PartialEq, Eq, Structural)]
pub enum UIAction {
    /// No action.
    NoAction,
    FollowOutput,
    DetailsDialog,
    TextView,
    TextDialog,
    LogView,
    LogViewWithTimeControls,
    TextEditor,
    Terminal,
    FileBrowser,
}

/// How a monitor's value is drawn.
#[derive(Clone, Copy, Debug, PartialEq, Eq, Structural)]
pub enum DisplayStyle {
    Text,
    CriticalityLevel,
    Icon,
    ProgressBar,
}

/// Kind of value an input field takes.
#[derive(Clone, Copy, Debug, PartialEq, Eq, Structural)]
pub enum UserInputFieldType {
    Text,
    Integer,
    DecimalNumber,
    Option,
}

/// A value the user is asked for before a command runs.
#[derive(Debug)]
pub struct UserInputField {
    pub field_type: UserInputFieldType,
    pub label: String,
    pub default_value: String,
    pub units: Vec<String>,
    pub validator_regexp: String,
    pub additional_validator_regexp: String,
    pub options: Vec<String>,
    pub option_descriptions: Vec<String>,
}

/// Texts joined with `|`.
pub open spec fn join_alternatives(list: Seq<Seq<char>>) -> Seq<char>
    decreases list.len(),
{
    if list.len() == 0 {
        Seq::empty()
    } else if list.len() == 1 {
        list[0]
    } else {
        join_alternatives(list.drop_last()) + "|"@ + list.last()
    }
}

/// Units joined with `|`, and the units as owned strings.
fn join_units(units: &[&str]) -> (r: (String, Vec<String>))
    ensures
        r.0@ == join_alternatives(units@.map_values(|u: &str| u@)),
        views_of(r.1@) == units@.map_values(|u: &str| u@),
{
    let ghost us = units@.map_values(|u: &str| u@);
    let mut joined = String::new();
    let mut owned: Vec<String> = Vec::new();
    let mut i: usize = 0;
    while i < units.len()
        invariant
            i <= units.len(),
            us == units@.map_values(|u: &str| u@),
            joined@ == join_alternatives(us.take(i as int)),
            views_of(owned@) == us.take(i as int),
        decreases units.len() - i,
    {
        proof {
            assert(us.take(i + 1).drop_last() =~= us.take(i as int));
        }
        if i != 0 {
            append_text(&mut joined, "|");
        }
        append_text(&mut joined, units[i]);
        let ghost prev = owned@;
        owned.push(units[i].to_string());
        proof {
            if i == 0 {
                assert(joined@ =~= us.take(1)[0]);
            }
            assert(views_of(owned@) =~= views_of(prev).push(units@[i as int]@));
            assert(us.take(i + 1) =~= us.take(i as int).push(units@[i as int]@));
        }
        i = i + 1;
    }
    assert(us.take(units.len() as int) =~= us);
    (joined, owned)
}

impl UserInputField {
    fn empty_with(field_type: UserInputFieldType, label: &str, default_value: &str) -> (f: UserInputField)
        ensures
            f.field_type == field_type,
            f.label@ == label@,
            f.default_value@ == default_value@,
            f.units@.len() == 0,
            f.validator_regexp@.len() == 0,
            f.additional_validator_regexp@.len() == 0,
            f.options@.len() == 0,
            f.option_descriptions@.len() == 0,
    {
        UserInputField {
            field_type,
            label: label.to_string(),
            default_value: default_value.to_string(),
            units: Vec::new(),
            validator_regexp: String::new(),
            additional_validator_regexp: String::new(),
            options: Vec::new(),
            option_descriptions: Vec::new(),
        }
    }

    /// An integer field.
    pub fn number(label: &str, default_value: &str) -> (f: UserInputField)
        ensures
            f.field_type == UserInputFieldType::Integer,
            f.label@ == label@,
            f.default_value@ == default_value@,
            f.validator_regexp@ == "^\\d+$"@,
            f.units@.len() == 0,
            f.additional_validator_regexp@.len() == 0,
            f.options@.len() == 0,
            f.option_descriptions@.len() == 0,
    {
        let mut f = UserInputField::empty_with(UserInputFieldType::Integer, label, default_value);
        f.validator_regexp = "^\\d+$".to_string();
        f
    }

    /// A decimal number field.
    pub fn decimal_number(label: &str, default_value: &str) -> (f: UserInputField)
        ensures
            f.field_type == UserInputFieldType::DecimalNumber,
            f.label@ == label@,
            f.default_value@ == default_value@,
            f.validator_regexp@ == "^\\d+(\\.\\d+)?$"@,
            f.units@.len() == 0,
            f.additional_validator_regexp@.len() == 0,
            f.options@.len() == 0,
            f.option_descriptions@.len() == 0,
    {
        let mut f = UserInputField::empty_with(UserInputFieldType::DecimalNumber, label, default_value);
        f.validator_regexp = "^\\d+(\\.\\d+)?$".to_string();
        f
    }

    /// An integer field followed by one of `units`.
    pub fn number_with_units(label: &str, default_value: &str, units: &[&str]) -> (f: UserInputField)
        ensures
            f.field_type == UserInputFieldType::Integer,
            f.label@ == label@,
            f.default_value@ == default_value@,
            f.validator_regexp@ == "^\\d+ ?("@ + join_alternatives(units@.map_values(|u: &str| u@)) + ")$"@,
            views_of(f.units@) == units@.map_values(|u: &str| u@),
            f.additional_validator_regexp@.len() == 0,
            f.options@.len() == 0,
            f.option_descriptions@.len() == 0,
    {
        let (joined, owned) = join_units(units);
        let mut f = UserInputField::empty_with(UserInputFieldType::Integer, label, default_value);
        let mut v = "^\\d+ ?(".to_string();
        append_text(&mut v, joined.as_str());
        append_text(&mut v, ")$");
        f.validator_regexp = v;
        f.units = owned;
        f
    }

    /// A decimal number field followed by one of `units`. While typing, a
    /// decimal point without digits after it is accepted; the additional
    /// expression asks for the digits.
    pub fn decimal_number_with_units(label: &str, default_value: &str, units: &[&str]) -> (f: UserInputField)
        ensures
            f.field_type == UserInputFieldType::DecimalNumber,
            f.label@ == label@,
            f.default_value@ == default_value@,
            f.validator_regexp@ == "^\\d+(\\.\\d*)? ?("@ + join_alternatives(units@.map_values(|u: &str| u@)) + ")$"@,
            f.additional_validator_regexp@ == "^\\d+(\\.\\d+)? ?("@ + join_alternatives(units@.map_values(|u: &str| u@)) + ")$"@,
            views_of(f.units@) == units@.map_values(|u: &str| u@),
            f.options@.len() == 0,
            f.option_descriptions@.len() == 0,
    {
        let (joined, owned) = join_units(units);
        let mut f = UserInputField::empty_with(UserInputFieldType::DecimalNumber, label, default_value);
        let mut v = "^\\d+(\\.\\d*)? ?(".to_string();
        append_text(&mut v, joined.as_str());
        append_text(&mut v, ")$");
        let mut a = "^\\d+(\\.\\d+)? ?(".to_string();
        append_text(&mut a, joined.as_str());
        append_text(&mut a, ")$");
        f.validator_regexp = v;
        f.additional_validator_regexp = a;
        f.units = owned;
        f
    }
}


impl Default for UIAction {
    fn default() -> (a: UIAction)
        ensures
            a == UIAction::NoAction,
    {
        UIAction::NoAction
    }
}

impl Default for DisplayStyle {
    fn default() -> (d: DisplayStyle)
        ensures
            d == DisplayStyle::Text,
    {
        DisplayStyle::Text
    }
}

impl Default for UserInputFieldType {
    fn default() -> (t: UserInputFieldType)
        ensures
            t == UserInputFieldType::Text,
    {
        UserInputFieldType::Text
    }
}

impl Default for UserInputField {
    fn default() -> (f: UserInputField)
        ensures
            f.field_type == UserInputFieldType::Text,
            f.label@.len() == 0,
            f.default_value@.len() == 0,
            f.units@.len() == 0,
            f.validator_regexp@.len() == 0,
            f.additional_validator_regexp@.len() == 0,
            f.options@.len() == 0,
            f.option_descriptions@.len() == 0,
    {
        let f = UserInputField::empty_with(UserInputFieldType::Text, "", "");
        proof {
            reveal_strlit("");
        }
        f
    }
}

/// How a monitor or a command is shown, and what a command asks before it
/// runs.
#[derive(Debug)]
pub struct DisplayOptions {
    /// Action taken by the user interface after the command was sent.
    pub action: UIAction,
    /// For multi-level values: the only level (row) the command is shown on;
    /// 0 shows it on every row.
    pub multivalue_level: u8,
    pub display_style: DisplayStyle,
    /// Left-column text of a monitor, tooltip of a command.
    pub display_text: String,
    pub display_icon: String,
    /// Title of the tab or window a command opens.
    pub tab_title: String,
    /// Monitors and commands of one category are grouped together.
    pub category: String,
    pub unit: String,
    /// The monitor produces a group of values.
    pub use_multivalue: bool,
    /// Left out of the host table's status summary.
    pub use_without_summary: bool,
    /// Values are drawn in charts.
    pub use_with_charts: bool,
    /// Monitor hidden from the summary in favour of this one.
    pub override_summary_monitor_id: String,
    /// Text of a confirmation dialog shown before the command runs.
    pub confirmation_text: String,
    /// Values asked from the user before the command runs.
    pub user_parameters: Vec<UserInputField>,
    /// Monitor the command is attached to.
    pub parent_id: String,
    pub secondary_parent_id: String,
    /// Shown only while the parent monitor has one of these criticalities.
    pub depends_on_criticality: Vec<Criticality>,
    /// Shown only while the parent monitor has one of these values.
    pub depends_on_value: Vec<String>,
    /// Shown only while the parent monitor has one of these tags.
    pub depends_on_tags: Vec<String>,
    pub depends_on_no_tags: Vec<String>,
}

impl Default for DisplayOptions {
    fn default() -> (d: DisplayOptions)
        ensures
            d.action == UIAction::NoAction,
            d.multivalue_level == 0,
            d.display_style == DisplayStyle::Text,
            d.display_text@.len() == 0,
            d.display_icon@.len() == 0,
            d.tab_title@.len() == 0,
            d.category@.len() == 0,
            d.unit@.len() == 0,
            !d.use_multivalue,
            !d.use_without_summary,
            !d.use_with_charts,
            d.override_summary_monitor_id@.len() == 0,
            d.confirmation_text@.len() == 0,
            d.user_parameters@.len() == 0,
            d.parent_id@.len() == 0,
            d.secondary_parent_id@.len() == 0,
            d.depends_on_criticality@.len() == 0,
            d.depends_on_value@.len() == 0,
            d.depends_on_tags@.len() == 0,
            d.depends_on_no_tags@.len() == 0,
    {
        DisplayOptions {
            action: UIAction::NoAction,
            multivalue_level: 0,
            display_style: DisplayStyle::Text,
            display_text: String::new(),
            display_icon: String::new(),
            tab_title: String::new(),
            category: String::new(),
            unit: String::new(),
            use_multivalue: false,
            use_without_summary: false,
            use_with_charts: false,
            override_summary_monitor_id: String::new(),
            confirmation_text: String::new(),
            user_parameters: Vec::new(),
            parent_id: String::new(),
            secondary_parent_id: String::new(),
            depends_on_criticality: Vec::new(),
            depends_on_value: Vec::new(),
            depends_on_tags: Vec::new(),
            depends_on_no_tags: Vec::new(),
        }
    }
}

/// Whether some unit of the field is not purely alphanumeric.
pub open spec fn has_bad_unit(f: UserInputField) -> bool {
    exists|j: int| 0 <= j < f.units@.len() && !alphanumeric_with(#[trigger] f.units@[j]@, Seq::<char>::empty())
}

/// What is wrong with one input field, if anything.
pub open spec fn input_field_problem(f: UserInputField) -> Option<Seq<char>> {
    if f.label@.len() == 0 {
        Some("User input field label must be set."@)
    } else if has_bad_unit(f) {
        Some("Input field units must only contain alphanumeric characters."@)
    } else {
        None
    }
}

/// The problem of the first input field that has one.
pub open spec fn first_input_field_problem(fields: Seq<UserInputField>) -> Option<Seq<char>>
    decreases fields.len(),
{
    if fields.len() == 0 {
        None
    } else if input_field_problem(fields[0]) is Some {
        input_field_problem(fields[0])
    } else {
        first_input_field_problem(fields.drop_first())
    }
}

/// Why a display configuration is refused: the first failing check, in the
/// order icon style, icon text, display text, input fields. `None` when it
/// is accepted.
pub open spec fn display_problem(d: DisplayOptions) -> Option<Seq<char>> {
    if d.display_style == DisplayStyle::Icon && d.display_icon@.len() == 0 {
        Some("Icon display style requires display_icon to be set."@)
    } else if d.display_icon@.len() > 0 && !alphanumeric_with(d.display_icon@, "-"@) {
        Some("display_icon must only contain alphanumeric characters and dashes."@)
    } else if d.display_text@.len() == 0 {
        Some("display_text must be set."@)
    } else {
        first_input_field_problem(d.user_parameters@)
    }
}

fn all_units_alphanumeric(units: &Vec<String>) -> (r: bool)
    ensures
        r == forall|j: int| 0 <= j < units@.len() ==> alphanumeric_with(#[trigger] units@[j]@, Seq::<char>::empty()),
{
    let mut i: usize = 0;
    while i < units.len()
        invariant
            i <= units.len(),
            forall|j: int| 0 <= j < i ==> alphanumeric_with(#[trigger] units@[j]@, Seq::<char>::empty()),
        decreases units.len() - i,
    {
        if !is_alphanumeric(units[i].as_str()) {
            return false;
        }
        i = i + 1;
    }
    true
}

impl DisplayOptions {
    /// Checks the configuration; the error is the message of the first
    /// failing check.
    pub fn validate(&self) -> (r: Result<(), String>)
        ensures
            r is Ok <==> display_problem(*self) is None,
            r matches Err(e) ==> display_problem(*self) == Some(e@),
    {
        if self.display_style == DisplayStyle::Icon && self.display_icon.as_str().is_empty() {
            return Err("Icon display style requires display_icon to be set.".to_string());
        }
        if !self.display_icon.as_str().is_empty() && !is_alphanumeric_with(self.display_icon.as_str(), "-") {
            return Err("display_icon must only contain alphanumeric characters and dashes.".to_string());
        }
        if self.display_text.as_str().is_empty() {
            return Err("display_text must be set.".to_string());
        }
        let fields = &self.user_parameters;
        let mut i: usize = 0;
        assert(fields@.skip(0) =~= fields@);
        while i < fields.len()
            invariant
                i <= fields.len(),
                display_problem(*self) == first_input_field_problem(fields@.skip(i as int)),
                fields == &self.user_parameters,
            decreases fields.len() - i,
        {
            let ghost rest = fields@.skip(i as int);
            assert(rest[0] == fields@[i as int]);
            assert(rest.drop_first() =~= fields@.skip(i + 1));
            let field = &fields[i];
            if field.label.as_str().is_empty() {
                return Err("User input field label must be set.".to_string());
            }
            if !all_units_alphanumeric(&field.units) {
                return Err("Input field units must only contain alphanumeric characters.".to_string());
            }
            i = i + 1;
        }
        Ok(())
    }
}

} // verus!
