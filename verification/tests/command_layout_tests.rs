use lightkeeper::command_layout::{category_commands, commands_on_level, CommandEntry};
use lightkeeper::configuration::Category;
use lightkeeper::keyed::KeyedList;
use lightkeeper::text::parse_u8;

fn command(category: &str, parent: &str, level: u8) -> CommandEntry {
    CommandEntry { category: category.to_string(), parent_id: parent.to_string(), multivalue_level: level }
}

fn commands() -> KeyedList<CommandEntry> {
    let mut c = KeyedList::new();
    c.insert(String::from("restart"), command("services", "services", 0));
    c.insert(String::from("logs"), command("services", "services", 2));
    c.insert(String::from("inspect"), command("services", "docker", 1));
    c.insert(String::from("stop"), command("services", "services", 1));
    c.insert(String::from("reboot"), command("host", "host", 0));
    c
}

fn categories(order: Option<&[&str]>) -> KeyedList<Category> {
    let mut cats = KeyedList::new();
    cats.insert(
        String::from("services"),
        Category {
            priority: 1,
            icon: None,
            color: None,
            command_order: order.map(|o| o.iter().map(|s| s.to_string()).collect()),
            monitor_order: None,
            collapsible_commands: None,
        },
    );
    cats
}

fn texts(list: &[&str]) -> Vec<String> {
    list.iter().map(|s| s.to_string()).collect()
}

#[test]
fn category_commands_follow_configured_order() {
    let cats = categories(Some(&["stop", "missing", "logs", "stop"]));
    assert_eq!(category_commands(&commands(), &cats, "services"), texts(&["stop", "logs", "inspect", "restart"]));
}

#[test]
fn category_commands_without_order_by_id() {
    assert_eq!(category_commands(&commands(), &categories(None), "services"), texts(&["inspect", "logs", "restart", "stop"]));
    assert_eq!(category_commands(&commands(), &categories(None), "host"), texts(&["reboot"]));
    assert!(category_commands(&commands(), &categories(None), "none").is_empty());
}

#[test]
fn commands_on_level_filter_parent_and_level() {
    let cats = categories(Some(&["stop"]));
    assert_eq!(commands_on_level(&commands(), &cats, "services", "services", "1"), texts(&["stop", "restart"]));
    assert_eq!(commands_on_level(&commands(), &cats, "services", "services", "2"), texts(&["logs", "restart"]));
    assert_eq!(commands_on_level(&commands(), &cats, "services", "docker", "+1"), texts(&["inspect"]));
}

#[test]
fn commands_on_level_rejects_bad_level() {
    let cats = categories(None);
    assert!(commands_on_level(&commands(), &cats, "services", "services", "x").is_empty());
    assert!(commands_on_level(&commands(), &cats, "services", "services", "256").is_empty());
    assert!(commands_on_level(&commands(), &cats, "services", "services", "").is_empty());
}

#[test]
fn parse_u8_matches_std() {
    for text in ["0", "7", "+7", "007", "255", "256", "", "+", "-1", "1a", " 1", "99999999999"] {
        assert_eq!(parse_u8(text), text.parse::<u8>().ok(), "{}", text);
    }
}
