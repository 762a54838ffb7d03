use lightkeeper::configuration::{ConfigGroup, ConnectorConfig, HostSettings, Hosts};
use lightkeeper::connection_plan::{plan_connections, same_connectors, same_settings};
use lightkeeper::keyed::KeyedList;

fn settings(pairs: &[(&str, &str)]) -> KeyedList<String> {
    let mut list = KeyedList::new();
    for (k, v) in pairs {
        list.insert(k.to_string(), v.to_string());
    }
    list
}

fn connectors(port: &str) -> KeyedList<ConnectorConfig> {
    let mut list = KeyedList::new();
    list.insert(String::from("ssh"), ConnectorConfig { settings: settings(&[("port", port), ("username", "root")]) });
    list
}

fn group_with(port: &str) -> ConfigGroup {
    let mut g = ConfigGroup::new_default();
    g.connectors = connectors(port);
    g
}

fn host_with(port: &str) -> HostSettings {
    let mut h = HostSettings::new_default();
    h.effective = group_with(port);
    h
}

fn hosts(entries: &[(&str, &str)]) -> Hosts {
    let mut hosts = Hosts { hosts: KeyedList::new(), certificate_monitors: Vec::new() };
    for (name, port) in entries {
        hosts.hosts.insert(name.to_string(), host_with(port));
    }
    hosts
}

fn previous(entries: &[(&str, &str)]) -> KeyedList<ConfigGroup> {
    let mut list = KeyedList::new();
    for (name, port) in entries {
        list.insert(name.to_string(), group_with(port));
    }
    list
}

fn names(list: &[&str]) -> Vec<String> {
    list.iter().map(|s| s.to_string()).collect()
}

#[test]
fn same_settings_ignores_order() {
    let a = settings(&[("port", "22"), ("username", "root")]);
    let b = settings(&[("username", "root"), ("port", "22")]);
    assert!(same_settings(&a, &b));
}

#[test]
fn same_settings_notices_changed_value() {
    let a = settings(&[("port", "22")]);
    let b = settings(&[("port", "2222")]);
    assert!(!same_settings(&a, &b));
}

#[test]
fn same_settings_notices_extra_key() {
    let a = settings(&[("port", "22")]);
    let b = settings(&[("port", "22"), ("username", "root")]);
    assert!(!same_settings(&a, &b));
    assert!(!same_settings(&b, &a));
}

#[test]
fn same_connectors_compares_settings() {
    assert!(same_connectors(&connectors("22"), &connectors("22")));
    assert!(!same_connectors(&connectors("22"), &connectors("2222")));
    assert!(!same_connectors(&connectors("22"), &KeyedList::new()));
}

#[test]
fn first_reload_connects_every_host() {
    let plan = plan_connections(&Vec::new(), &KeyedList::new(), &hosts(&[("a", "22"), ("b", "22")]), "cert-monitor");
    assert!(plan.first_time);
    assert!(plan.kept.is_empty());
    assert_eq!(plan.to_connect, names(&["a", "b"]));
}

#[test]
fn unchanged_hosts_keep_their_connections() {
    let plan = plan_connections(
        &names(&["a", "b"]),
        &previous(&[("a", "22"), ("b", "22")]),
        &hosts(&[("a", "22"), ("b", "2222"), ("c", "22")]),
        "cert-monitor",
    );
    assert!(!plan.first_time);
    assert_eq!(plan.kept, names(&["a"]));
    assert_eq!(plan.to_connect, names(&["b", "c"]));
}

#[test]
fn removed_hosts_are_not_kept() {
    let plan = plan_connections(&names(&["a", "gone"]), &previous(&[("a", "22"), ("gone", "22")]), &hosts(&[("a", "22")]), "cert-monitor");
    assert_eq!(plan.kept, names(&["a"]));
    assert!(plan.to_connect.is_empty());
}

#[test]
fn always_kept_host_survives_reload() {
    let plan = plan_connections(&names(&["cert-monitor", "a"]), &previous(&[("a", "22")]), &hosts(&[("a", "22")]), "cert-monitor");
    assert_eq!(plan.kept, names(&["cert-monitor", "a"]));
    assert!(plan.to_connect.is_empty());
}
