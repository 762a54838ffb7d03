use lightkeeper::display_options::{DisplayOptions, DisplayStyle, UIAction, UserInputField, UserInputFieldType};

fn valid_options() -> DisplayOptions {
    let mut d = DisplayOptions::default();
    d.display_text = String::from("Uptime");
    d
}

#[test]
fn validate_accepts_complete_options() {
    assert_eq!(valid_options().validate(), Ok(()));
    let mut d = valid_options();
    d.display_style = DisplayStyle::Icon;
    d.display_icon = String::from("view-refresh");
    d.user_parameters.push(UserInputField::number_with_units("Size", "1", &["MiB", "GiB"]));
    assert_eq!(d.validate(), Ok(()));
}

#[test]
fn validate_icon_style_needs_icon() {
    let mut d = valid_options();
    d.display_style = DisplayStyle::Icon;
    assert_eq!(d.validate(), Err(String::from("Icon display style requires display_icon to be set.")));
}

#[test]
fn validate_icon_characters() {
    let mut d = valid_options();
    d.display_icon = String::from("bad icon");
    assert_eq!(d.validate(), Err(String::from("display_icon must only contain alphanumeric characters and dashes.")));
}

#[test]
fn validate_needs_display_text() {
    let d = DisplayOptions::default();
    assert_eq!(d.validate(), Err(String::from("display_text must be set.")));
}

#[test]
fn validate_input_fields() {
    let mut d = valid_options();
    d.user_parameters.push(UserInputField::number("", "1"));
    assert_eq!(d.validate(), Err(String::from("User input field label must be set.")));

    let mut e = valid_options();
    e.user_parameters.push(UserInputField::number("Count", "1"));
    e.user_parameters.push(UserInputField::number_with_units("Size", "1", &["k/s"]));
    assert_eq!(e.validate(), Err(String::from("Input field units must only contain alphanumeric characters.")));
}

#[test]
fn input_field_constructors() {
    let n = UserInputField::number("Count", "3");
    assert_eq!(n.field_type, UserInputFieldType::Integer);
    assert_eq!(n.label, "Count");
    assert_eq!(n.default_value, "3");
    assert_eq!(n.validator_regexp, "^\\d+$");
    assert!(n.units.is_empty());

    let d = UserInputField::decimal_number("Ratio", "0.5");
    assert_eq!(d.field_type, UserInputFieldType::DecimalNumber);
    assert_eq!(d.validator_regexp, "^\\d+(\\.\\d+)?$");

    let u = UserInputField::number_with_units("Size", "10", &["M", "G"]);
    assert_eq!(u.validator_regexp, "^\\d+ ?(M|G)$");
    assert_eq!(u.units, vec![String::from("M"), String::from("G")]);

    let du = UserInputField::decimal_number_with_units("Limit", "1.5", &["s", "ms"]);
    assert_eq!(du.validator_regexp, "^\\d+(\\.\\d*)? ?(s|ms)$");
    assert_eq!(du.additional_validator_regexp, "^\\d+(\\.\\d+)? ?(s|ms)$");
    assert_eq!(du.units, vec![String::from("s"), String::from("ms")]);
}

#[test]
fn defaults() {
    let d = DisplayOptions::default();
    assert_eq!(d.action, UIAction::NoAction);
    assert_eq!(d.display_style, DisplayStyle::Text);
    assert_eq!(d.multivalue_level, 0);
    let f = UserInputField::default();
    assert_eq!(f.field_type, UserInputFieldType::Text);
    assert!(f.label.is_empty());
}
