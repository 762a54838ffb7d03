use lightkeeper::configuration::{Category, DisplayOptions};
use lightkeeper::enums::Criticality;
use lightkeeper::keyed::KeyedList;
use lightkeeper::theme::{
    allow_collapsing_command, category_color, category_icon, color_for_criticality, icon_for_criticality, opacity,
};

fn options() -> DisplayOptions {
    let mut categories = KeyedList::new();
    categories.insert(
        String::from("host"),
        Category {
            priority: 1,
            icon: Some(String::from("computer")),
            color: Some(String::from("#112233")),
            command_order: None,
            monitor_order: None,
            collapsible_commands: Some(vec![String::from("logs")]),
        },
    );
    categories.insert(
        String::from("storage"),
        Category {
            priority: 2,
            icon: None,
            color: None,
            command_order: None,
            monitor_order: None,
            collapsible_commands: None,
        },
    );
    DisplayOptions {
        qtquick_style: String::new(),
        hide_info_notifications: false,
        categories,
        show_status_bar: true,
        chart_categories: Vec::new(),
    }
}

#[test]
fn category_color_own_or_default() {
    let o = options();
    assert_eq!(category_color(&o, "host"), "#112233");
    assert_eq!(category_color(&o, "storage"), "#505050");
    assert_eq!(category_color(&o, "missing"), "#505050");
}

#[test]
fn category_icon_own_or_empty() {
    let o = options();
    assert_eq!(category_icon(&o, "host"), "computer");
    assert_eq!(category_icon(&o, "storage"), "");
    assert_eq!(category_icon(&o, "missing"), "");
}

#[test]
fn opacity_by_enabled() {
    assert_eq!(opacity(true), "1.0");
    assert_eq!(opacity(false), "0.3");
}

#[test]
fn collapsing_allowed_by_any_category() {
    let o = options();
    assert_eq!(allow_collapsing_command(&o, "logs"), "1");
    assert_eq!(allow_collapsing_command(&o, "shell"), "0");
}

#[test]
fn criticality_names_parse() {
    assert_eq!(Criticality::from_name("Warning"), Some(Criticality::Warning));
    assert_eq!(Criticality::from_name("NotAvailable"), Some(Criticality::NotAvailable));
    assert_eq!(Criticality::from_name("warning"), None);
    assert_eq!(Criticality::from_name(""), None);
}

#[test]
fn colors_for_criticalities() {
    assert_eq!(color_for_criticality(""), "#60ffffff");
    assert_eq!(color_for_criticality("Normal"), "#6033cc33");
    assert_eq!(color_for_criticality("Info"), "#60ffffff");
    assert_eq!(color_for_criticality("Warning"), "#60ffcc00");
    assert_eq!(color_for_criticality("Error"), "#60ff3300");
    assert_eq!(color_for_criticality("Critical"), "#60ff3300");
}

#[test]
fn icons_for_criticalities() {
    assert_eq!(icon_for_criticality(""), "qrc:/main/images/alert/info");
    assert_eq!(icon_for_criticality("Normal"), "qrc:/main/images/alert/info");
    assert_eq!(icon_for_criticality("NoData"), "qrc:/main/images/alert/warning");
    assert_eq!(icon_for_criticality("Warning"), "qrc:/main/images/alert/warning");
    assert_eq!(icon_for_criticality("Critical"), "qrc:/main/images/alert/error");
}
