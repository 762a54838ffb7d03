use lightkeeper::configuration::Category;
use lightkeeper::keyed::KeyedList;
use lightkeeper::monitor_layout::{
    categories, category_monitor_ids, category_order, is_empty_category, is_host_initialized, monitor_keys_sorted,
    pending_command_progress, pending_count_for_category, sort_by_value_type, summary_monitor_ids,
    table_rows_with_separators, MonitorEntry, TableRow,
};

fn entry(category: &str, multivalue: bool, without_summary: bool, overrides: &str, without_content: bool) -> MonitorEntry {
    MonitorEntry {
        category: category.to_string(),
        use_multivalue: multivalue,
        use_without_summary: without_summary,
        override_summary_monitor_id: overrides.to_string(),
        without_content,
    }
}

fn host_monitors() -> KeyedList<MonitorEntry> {
    let mut m = KeyedList::new();
    m.insert(String::from("cpu"), entry("host", false, false, "", false));
    m.insert(String::from("disk"), entry("storage", true, false, "", false));
    m.insert(String::from("load"), entry("host", false, false, "cpu", false));
    m.insert(String::from("mem"), entry("host", true, false, "", false));
    m.insert(String::from("uptime"), entry("host", false, true, "", false));
    m.insert(String::from("smart"), entry("storage", false, false, "", false));
    m.insert(String::from("ping"), entry("network", false, false, "", true));
    m.insert(String::from("misc"), entry("", false, false, "", false));
    m
}

fn texts(list: &[&str]) -> Vec<String> {
    list.iter().map(|s| s.to_string()).collect()
}

#[test]
fn categories_follow_configured_order_then_text_order() {
    let m = host_monitors();
    assert_eq!(categories(&m, &texts(&["storage", "missing"]), false), texts(&["storage", "host", "network"]));
}

#[test]
fn categories_leave_out_empty_ones_on_request() {
    let m = host_monitors();
    assert_eq!(categories(&m, &texts(&["storage", "missing"]), true), texts(&["storage", "host"]));
    assert_eq!(categories(&m, &texts(&["network"]), true), texts(&["host", "storage"]));
}

#[test]
fn categories_without_order_are_sorted() {
    let m = host_monitors();
    assert_eq!(categories(&m, &Vec::new(), false), texts(&["host", "network", "storage"]));
}

#[test]
fn summary_orders_by_category_and_value_type() {
    let m = host_monitors();
    assert_eq!(summary_monitor_ids(&m, &texts(&["storage"])), texts(&["smart", "disk", "load", "misc", "ping", "mem"]));
}

#[test]
fn sort_by_value_type_puts_single_values_first() {
    let m = host_monitors();
    let mask = vec![true; 8];
    assert_eq!(sort_by_value_type(&m, &mask), texts(&["cpu", "load", "misc", "ping", "smart", "uptime", "disk", "mem"]));
}

#[test]
fn monitor_keys_sorted_repeats_nothing_for_unique_order() {
    let m = host_monitors();
    let mask = vec![true; 8];
    assert_eq!(
        monitor_keys_sorted(&m, &mask, &texts(&["network", "host"])),
        texts(&["ping", "cpu", "load", "uptime", "mem", "misc", "smart", "disk"])
    );
}

#[test]
fn category_monitor_ids_in_id_order() {
    let m = host_monitors();
    assert_eq!(category_monitor_ids(&m, "host"), texts(&["cpu", "load", "mem", "uptime"]));
    assert!(category_monitor_ids(&m, "missing").is_empty());
}

#[test]
fn empty_category_checks() {
    let m = host_monitors();
    assert!(is_empty_category(&m, "network"));
    assert!(!is_empty_category(&m, "host"));
    assert!(is_empty_category(&m, "missing"));
}

#[test]
fn pending_counts_by_category() {
    let cats = texts(&["host", "storage", "host"]);
    assert_eq!(pending_count_for_category(&cats, "host"), 2);
    assert_eq!(pending_count_for_category(&cats, "network"), 0);
}

#[test]
fn pending_progress_of_invocation() {
    let invocations = vec![(3u64, 40u8), (7, 10), (3, 90)];
    assert_eq!(pending_command_progress(&invocations, 3), 40);
    assert_eq!(pending_command_progress(&invocations, 7), 10);
    assert_eq!(pending_command_progress(&invocations, 9), 100);
}

#[test]
fn host_initialization_follows_cache_preference() {
    assert!(!is_host_initialized(None, true, true));
    assert!(is_host_initialized(Some((true, false)), true, true));
    assert!(!is_host_initialized(Some((true, false)), true, false));
    assert!(is_host_initialized(Some((false, true)), false, true));
}

fn category(priority: u16) -> Category {
    Category { priority, icon: None, color: None, command_order: None, monitor_order: None, collapsible_commands: None }
}

#[test]
fn category_order_by_priority_then_name() {
    let mut cats = KeyedList::new();
    cats.insert(String::from("storage"), category(3));
    cats.insert(String::from("host"), category(1));
    cats.insert(String::from("network"), category(3));
    cats.insert(String::from("Services"), category(2));
    assert_eq!(category_order(&cats), texts(&["host", "Services", "network", "storage"]));
}

#[test]
fn separators_between_single_and_multivalue_rows() {
    assert_eq!(
        table_rows_with_separators(&vec![true, false, true, true, false, true]),
        vec![
            TableRow::Data(0),
            TableRow::Data(1),
            TableRow::Separator(2),
            TableRow::Data(2),
            TableRow::Data(3),
            TableRow::Data(4),
            TableRow::Separator(5),
            TableRow::Data(5),
        ]
    );
    assert!(table_rows_with_separators(&Vec::new()).is_empty());
}
