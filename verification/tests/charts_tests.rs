use lightkeeper::charts::{alert_history, chart_categories, chart_category_monitor_ids, metric_labels, AlertEvent, MetricNode, ALERT_HISTORY_LENGTH};
use lightkeeper::configuration::{ChartCategory, DisplayOptions, HostSettings, Hosts, MonitorConfig};
use lightkeeper::keyed::KeyedList;

fn texts(list: &[&str]) -> Vec<String> {
    list.iter().map(|s| s.to_string()).collect()
}

fn setup() -> (Hosts, DisplayOptions) {
    let mut web = HostSettings::new_default();
    let mut load = MonitorConfig::new_default();
    load.enabled = None;
    web.effective.monitors.insert(String::from("load"), load);
    web.effective.monitors.insert(String::from("cpu"), MonitorConfig::new_default());
    let mut disk = MonitorConfig::new_default();
    disk.enabled = Some(false);
    web.effective.monitors.insert(String::from("disk"), disk);
    let mut hosts = Hosts { hosts: KeyedList::new(), certificate_monitors: Vec::new() };
    hosts.hosts.insert(String::from("web"), web);
    let display = DisplayOptions {
        qtquick_style: String::new(),
        hide_info_notifications: false,
        categories: KeyedList::new(),
        show_status_bar: true,
        chart_categories: vec![
            ChartCategory { name: String::from("System"), monitors: texts(&["load", "cpu", "mem"]) },
            ChartCategory { name: String::from("Storage"), monitors: texts(&["disk"]) },
            ChartCategory { name: String::from("Network"), monitors: texts(&["ping"]) },
            ChartCategory { name: String::from("System"), monitors: texts(&["disk"]) },
        ],
    };
    (hosts, display)
}

#[test]
fn charts_with_enabled_monitors() {
    let (hosts, display) = setup();
    assert_eq!(chart_categories(&hosts, &display, "web"), texts(&["System"]));
}

#[test]
fn chart_monitors_on_host() {
    let (hosts, display) = setup();
    assert_eq!(chart_category_monitor_ids(&hosts, &display, "web", "System"), texts(&["cpu", "load"]));
    assert!(chart_category_monitor_ids(&hosts, &display, "web", "Storage").is_empty());
    assert!(chart_category_monitor_ids(&hosts, &display, "web", "Missing").is_empty());
    assert!(chart_category_monitor_ids(&hosts, &display, "nobody", "System").is_empty());
}

fn event(time: i64, from: u8, to: u8) -> AlertEvent {
    AlertEvent {
        time,
        host_id: String::from("web"),
        monitor_id: String::from("load"),
        entry_id: String::new(),
        label: String::from("1 min"),
        value: String::from("3.5"),
        from_level: from,
        to_level: to,
    }
}

#[test]
fn alert_history_newest_first_with_level_names() {
    let items = alert_history(&vec![event(1, 2, 5), event(2, 5, 9)]);
    assert_eq!(items.len(), 2);
    assert_eq!(items[0].time, 2);
    assert_eq!(items[0].from_level, "Warning");
    assert_eq!(items[0].to_level, "9");
    assert_eq!(items[1].from_level, "Normal");
    assert_eq!(items[1].to_level, "Warning");
    assert_eq!(items[1].label, "1 min");
}

#[test]
fn alert_history_is_capped() {
    let events: Vec<AlertEvent> = (0..150).map(|t| event(t, 0, 7)).collect();
    let items = alert_history(&events);
    assert_eq!(items.len(), ALERT_HISTORY_LENGTH);
    assert_eq!(items[0].time, 149);
    assert_eq!(items[99].time, 50);
    assert_eq!(items[0].to_level, "Critical");
    assert_eq!(items[0].from_level, "NotAvailable");
}

fn node(label: &str, children: Vec<MetricNode>) -> MetricNode {
    MetricNode { label: label.to_string(), children }
}

#[test]
fn metric_labels_of_single_value() {
    assert_eq!(metric_labels(&node("load", vec![])), texts(&["load"]));
}

#[test]
fn metric_labels_prefer_nested_leaves() {
    let tree = node(
        "haproxy",
        vec![
            node("web", vec![node("FRONTEND", vec![]), node("BACKEND", vec![]), node("server1", vec![])]),
            node("", vec![node("stats", vec![])]),
            node("db", vec![]),
        ],
    );
    assert_eq!(
        metric_labels(&tree),
        texts(&["haproxy/web/FRONTEND", "haproxy/web/BACKEND", "haproxy/web/server1", "stats", "haproxy/db"])
    );
}

#[test]
fn metric_labels_without_root_label() {
    let tree = node("", vec![node("a", vec![]), node("b", vec![])]);
    assert_eq!(metric_labels(&tree), texts(&["a", "b"]));
}
