use lightkeeper::config_editor::ConfigEditor;
use lightkeeper::configuration::{
    ConfigGroup, Configuration, ConnectorConfig, DisplayOptions, Groups, HostSettings, Hosts, MonitorConfig, Preferences,
};
use lightkeeper::group_settings::{unselected_module_ids, ModuleKind};
use lightkeeper::keyed::KeyedList;
use lightkeeper::sorting::{sort_by_lowercase, sort_texts};

fn texts(list: &[&str]) -> Vec<String> {
    list.iter().map(|s| s.to_string()).collect()
}

fn settings(pairs: &[(&str, &str)]) -> KeyedList<String> {
    let mut list = KeyedList::new();
    for (k, v) in pairs {
        list.insert(k.to_string(), v.to_string());
    }
    list
}

fn editor() -> ConfigEditor {
    let main = Configuration {
        preferences: Preferences {
            use_sandbox_mode: false,
            refresh_hosts_on_start: true,
            use_remote_editor: false,
            sudo_remote_editor: true,
            remote_text_editor: String::from("nano"),
            text_editor: String::from("code"),
            terminal: String::from("konsole"),
            terminal_args: vec![String::from("-e")],
            close_to_tray: false,
            show_monitor_notifications: false,
            show_charts: true,
        },
        display_options: DisplayOptions {
            qtquick_style: String::new(),
            hide_info_notifications: false,
            categories: KeyedList::new(),
            show_status_bar: true,
            chart_categories: Vec::new(),
        },
        schema_version: Some(2),
    };
    let mut linux = ConfigGroup::new_default();
    linux.monitors.insert(String::from("Uptime"), MonitorConfig::new_default());
    linux.monitors.insert(String::from("cpu"), MonitorConfig::new_default());
    linux.monitors.insert(String::from("Disk"), MonitorConfig::new_default());
    linux.connectors.insert(String::from("ssh"), ConnectorConfig { settings: settings(&[("port", "22")]) });
    let mut custom = ConfigGroup::new_default();
    custom.connectors.insert(String::from("ssh"), ConnectorConfig { settings: settings(&[("port", "2222"), ("agent", "yes")]) });
    let mut groups = Groups { groups: KeyedList::new() };
    groups.groups.insert(String::from("linux"), linux);
    groups.groups.insert(String::from("custom"), custom);
    let mut hosts = Hosts { hosts: KeyedList::new(), certificate_monitors: Vec::new() };
    let mut web = HostSettings::new_default();
    web.groups = texts(&["linux"]);
    hosts.hosts.insert(String::from("web"), web);
    let (editor, _) = ConfigEditor::new(main, hosts, groups, &Groups { groups: KeyedList::new() });
    editor
}

#[test]
fn sort_texts_uses_string_order() {
    assert_eq!(sort_texts(&texts(&["b", "A", "a", "B", "a"])), texts(&["A", "B", "a", "a", "b"]));
}

#[test]
fn sort_by_lowercase_ignores_case_first() {
    assert_eq!(sort_by_lowercase(&texts(&["b", "A", "a", "B"])), texts(&["A", "a", "B", "b"]));
    assert_eq!(sort_by_lowercase(&texts(&["Uptime", "cpu", "Disk"])), texts(&["cpu", "Disk", "Uptime"]));
}

#[test]
fn group_module_ids_sorted_by_lowercase() {
    let e = editor();
    assert_eq!(e.group_module_ids("linux", ModuleKind::Monitor), texts(&["cpu", "Disk", "Uptime"]));
    assert_eq!(e.group_module_ids("linux", ModuleKind::Connector), texts(&["ssh"]));
    assert!(e.group_module_ids("linux", ModuleKind::Command).is_empty());
    assert!(e.group_module_ids("missing", ModuleKind::Monitor).is_empty());
}

#[test]
fn group_module_settings_lists_offered_settings() {
    let e = editor();
    let descriptions = settings(&[("port", "SSH port"), ("Username", "Login name"), ("agent", "Use agent")]);
    let rows = e.group_module_settings("linux", ModuleKind::Connector, "ssh", &descriptions);
    let keys: Vec<&str> = rows.iter().map(|r| r.key.as_str()).collect();
    assert_eq!(keys, vec!["agent", "port", "Username"]);
    assert!(!rows[0].enabled);
    assert_eq!(rows[0].value, "");
    assert_eq!(rows[0].description, "Use agent");
    assert!(rows[1].enabled);
    assert_eq!(rows[1].value, "22");
    assert_eq!(rows[1].description, "SSH port");
    assert!(!rows[2].enabled);

    let unknown = e.group_module_settings("missing", ModuleKind::Connector, "ssh", &descriptions);
    assert_eq!(unknown.len(), 3);
    assert!(unknown.iter().all(|r| !r.enabled && r.value.is_empty()));
}

#[test]
fn unselected_modules_sorted() {
    assert_eq!(
        unselected_module_ids(&texts(&["ssh", "cpu", "disk", "cpu"]), &texts(&["disk"])),
        texts(&["cpu", "cpu", "ssh"])
    );
}

#[test]
fn effective_settings_follow_group_list() {
    let e = editor();
    let only_linux = e.effective_module_settings("web", &texts(&["linux"]), ModuleKind::Connector);
    let rows = only_linux.get("ssh").unwrap();
    assert_eq!(rows.len(), 1);
    assert_eq!(rows[0].key, "port");
    assert_eq!(rows[0].value, "22");
    assert!(rows[0].enabled);
    assert!(rows[0].description.is_empty());

    let both = e.effective_module_settings("web", &texts(&["linux", "custom"]), ModuleKind::Connector);
    let rows = both.get("ssh").unwrap();
    let pairs: Vec<(&str, &str)> = rows.iter().map(|r| (r.key.as_str(), r.value.as_str())).collect();
    assert_eq!(pairs, vec![("agent", "yes"), ("port", "2222")]);

    let monitors = e.effective_module_settings("new-host", &texts(&["linux"]), ModuleKind::Monitor);
    assert_eq!(monitors.len(), 3);
    assert!(monitors.get("cpu").unwrap().is_empty());
}
